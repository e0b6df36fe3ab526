//! Calls on the request of a connection.

use super::text::{stands_in, writes};
use crate::futures::Attempt;
use crate::reactor::CloseRequest;
use crate::request::{
    find_length_header, read_header_line, HeaderLine, ReadTurn, RequestContext,
};
use vstd::prelude::*;

verus! {

/// What a length header begins with, in lower case.
pub open spec fn header_name() -> Seq<char> {
    seq!['c', 'o', 'n', 't', 'e', 'n', 't', '-', 'l', 'e', 'n', 'g', 't', 'h', ':', ' ']
}

/// The word that marks a request.
pub open spec fn http() -> Seq<char> {
    seq!['H', 'T', 'T', 'P']
}

/// The text, in lower case, is a length header, and `value` follows its name.
pub open spec fn is_header(lowered: Seq<char>, value: Seq<char>) -> bool {
    lowered == header_name() + value
}

/// The header is what a value makes it: a length exactly if the value writes a number that is not
/// too large, and then that number.
pub open spec fn is_header_of(header: HeaderLine, value: Seq<char>) -> bool {
    match header {
        HeaderLine::Length(length) => writes(value, length as nat),
        HeaderLine::Malformed => forall|n: nat| n <= usize::MAX ==> !#[trigger] writes(value, n),
        HeaderLine::Other => false,
    }
}

/// A line in lower case is a length header exactly if it begins with the name of one, and its
/// length is the number that follows.
pub proof fn law_line_is_read_by_its_name(lowered: &str, line: HeaderLine, value: Seq<char>)
    requires
        call_ensures(read_header_line, (lowered,), line),
    ensures
        is_header(lowered@, value) ==> is_header_of(line, value),
        line is Other <==> forall|other: Seq<char>| !#[trigger] is_header(lowered@, other),
{
    lemma_header_line(lowered@, value);
}

/// What a line in lower case is.
proof fn lemma_header_line(lowered: Seq<char>, value: Seq<char>)
    ensures
        is_header(lowered, value) ==> is_header_of(crate::request::header_line(lowered), value),
        crate::request::header_line(lowered) is Other <==> forall|other: Seq<char>|
            !#[trigger] is_header(lowered, other),
{
    let name = "content-length: "@;
    reveal_strlit("content-length: ");
    assert(name =~= header_name());
    if is_header(lowered, value) {
        assert(lowered.subrange(0, name.len() as int) =~= name);
        assert(lowered.skip(name.len() as int) =~= value);
        assert forall|n: nat| #[trigger] writes(value, n) implies n > usize::MAX
            || crate::text::decimal(value) == Some(n as usize) by {
            super::text::law_decimal_is_read_as_written(value, n);
        }
        super::text::law_decimal_is_read_as_written(value, 0);
    }
    if crate::request::header_line(lowered) !is Other {
        let rest = lowered.skip(name.len() as int);
        assert(lowered =~= name + rest);
        assert(is_header(lowered, rest));
    }
    assert forall|other: Seq<char>| #[trigger] is_header(lowered, other) implies
        crate::request::header_line(lowered) !is Other by {
        assert(lowered.subrange(0, name.len() as int) =~= name);
        assert(crate::text::occurs_at(name, lowered, 0));
    }
}

/// Every line of a request counts, however many come before it: the first that is a length header,
/// in whatever case it is written, gives the length.
pub proof fn law_every_line_counts(data: &str, header: HeaderLine, i: int, value: Seq<char>)
    requires
        call_ensures(find_length_header, (data,), header),
        stands_in(http(), data@),
        0 <= i < crate::text::lines(data@).len(),
        is_header(crate::request::lowercase(crate::text::lines(data@)[i]), value),
        forall|j: int, other: Seq<char>|
            0 <= j < i ==> !#[trigger] is_header(
                crate::request::lowercase(crate::text::lines(data@)[j]),
                other,
            ),
    ensures
        is_header_of(header, value),
{
    lemma_speaks_of_http(data@);
    lemma_first_header(crate::text::lines(data@), i, value);
}

/// A request without a length header in any line gives no length, nor does a text that does not
/// speak of HTTP.
pub proof fn law_no_header_no_length(data: &str, header: HeaderLine)
    requires
        call_ensures(find_length_header, (data,), header),
        !stands_in(http(), data@) || forall|j: int, other: Seq<char>|
            0 <= j < crate::text::lines(data@).len() ==> !#[trigger] is_header(
                crate::request::lowercase(crate::text::lines(data@)[j]),
                other,
            ),
    ensures
        header is Other,
{
    lemma_speaks_of_http(data@);
    if stands_in(http(), data@) {
        lemma_no_header(crate::text::lines(data@));
    }
}

/// A text speaks of HTTP exactly if the word stands in it.
proof fn lemma_speaks_of_http(data: Seq<char>)
    ensures
        crate::text::occurs_in("HTTP"@, data) <==> stands_in(http(), data),
{
    reveal_strlit("HTTP");
    assert("HTTP"@ =~= http());
    super::text::law_occurs_wherever_it_stands(http(), data);
}

/// The first of the lines that is a length header is what counts.
proof fn lemma_first_header(lines: Seq<Seq<char>>, i: int, value: Seq<char>)
    requires
        0 <= i < lines.len(),
        is_header(crate::request::lowercase(lines[i]), value),
        forall|j: int, other: Seq<char>|
            0 <= j < i ==> !#[trigger] is_header(crate::request::lowercase(lines[j]), other),
    ensures
        is_header_of(crate::request::first_header(lines), value),
    decreases i,
{
    if i == 0 {
        lemma_header_line(crate::request::lowercase(lines[0]), value);
    } else {
        lemma_header_line(crate::request::lowercase(lines[0]), value);
        let later = lines.drop_first();
        assert forall|j: int, other: Seq<char>| 0 <= j < i - 1 implies !#[trigger] is_header(
            crate::request::lowercase(later[j]),
            other,
        ) by {
            assert(!is_header(crate::request::lowercase(lines[j + 1]), other));
        }
        lemma_first_header(later, i - 1, value);
    }
}

/// Lines of which none is a length header have none.
proof fn lemma_no_header(lines: Seq<Seq<char>>)
    requires
        forall|j: int, other: Seq<char>|
            0 <= j < lines.len() ==> !#[trigger] is_header(
                crate::request::lowercase(lines[j]),
                other,
            ),
    ensures
        crate::request::first_header(lines) is Other,
    decreases lines.len(),
{
    if lines.len() > 0 {
        lemma_header_line(crate::request::lowercase(lines[0]), Seq::empty());
        let later = lines.drop_first();
        assert forall|j: int, other: Seq<char>| 0 <= j < later.len() implies !#[trigger] is_header(
            crate::request::lowercase(later[j]),
            other,
        ) by {
            assert(!is_header(crate::request::lowercase(lines[j + 1]), other));
        }
        lemma_no_header(later);
    }
}

/// A request gives the length that stands in its length header, wherever in the text that line
/// stands: behind any number of other lines, and before any text. The stream and the buffer are
/// left alone.
pub proof fn law_length_is_taken_from_anywhere(
    context: &mut RequestContext,
    data: &str,
    done: (),
    before: Seq<char>,
    line: Seq<char>,
    after: Seq<char>,
    value: Seq<char>,
    n: usize,
)
    requires
        call_ensures(RequestContext::parse_and_set_content_length, (context, data), done),
        stands_in(http(), data@),
        data@ == before + (line + seq!['\r', '\n'] + after),
        before.len() == 0 || before.last() == '\n',
        !line.contains('\n'),
        is_header(crate::request::lowercase(line), value),
        writes(value, n as nat),
        forall|j: int, other: Seq<char>|
            0 <= j < crate::text::lines(before).len() ==> !#[trigger] is_header(
                crate::request::lowercase(crate::text::lines(before)[j]),
                other,
            ),
    ensures
        final(context).content_length == n,
        final(context).stream == old(context).stream,
        final(context).buf == old(context).buf,
{
    let earlier = crate::text::lines(before);
    super::text::law_lines_follow_each_other(before, line + seq!['\r', '\n'] + after);
    super::text::law_lines_are_ended_either_way(line, after);
    let all = crate::text::lines(data@);
    let i = earlier.len() as int;
    assert(all[i] == line);
    assert forall|j: int, other: Seq<char>| 0 <= j < i implies !#[trigger] is_header(
        crate::request::lowercase(all[j]),
        other,
    ) by {
        assert(!is_header(crate::request::lowercase(earlier[j]), other));
    }
    lemma_speaks_of_http(data@);
    lemma_first_header(all, i, value);
    let header = crate::request::length_header(data@);
    super::text::law_decimal_is_read_as_written(value, n as nat);
    match header {
        HeaderLine::Length(length) => {
            super::text::law_decimal_is_read_as_written(value, length as nat);
        },
        _ => {},
    }
}

/// The length of a request is what its length header gives; without one it stays what it was. The
/// stream and the buffer are left alone.
pub proof fn law_length_is_that_of_the_header(
    context: &mut RequestContext,
    data: &str,
    done: (),
    header: HeaderLine,
)
    requires
        call_ensures(RequestContext::parse_and_set_content_length, (context, data), done),
        call_ensures(find_length_header, (data,), header),
    ensures
        header matches HeaderLine::Length(length) ==> final(context).content_length == length,
        header is Other ==> final(context).content_length == old(context).content_length,
        final(context).stream == old(context).stream,
        final(context).buf == old(context).buf,
{
}

/// Taking the length over where there may be none that is valid comes to the same as taking it over
/// where there is, and tells exactly whether there was. Without a valid one nothing changes.
pub proof fn law_length_is_tried(
    context: &mut RequestContext,
    data: &str,
    valid: bool,
    header: HeaderLine,
)
    requires
        call_ensures(RequestContext::try_parse_and_set_content_length, (context, data), valid),
        call_ensures(find_length_header, (data,), header),
    ensures
        valid <==> !(header is Malformed),
        header matches HeaderLine::Length(length) ==> final(context).content_length == length,
        !(header is Length) ==> final(context).content_length == old(context).content_length,
        final(context).stream == old(context).stream,
        final(context).buf == old(context).buf,
{
}

/// A text can be handed over unless its first length header is malformed, and anything can be
/// tried. A read brings no more than the buffer has room for.
pub proof fn law_requests_can_be_read<E>(
    context: &mut RequestContext,
    shared: &RequestContext,
    data: &str,
    header: HeaderLine,
    stream: i32,
    read: Attempt<usize, E>,
    collected: &mut Vec<u8>,
    turn: ReadTurn<E>,
)
    requires
        call_ensures(find_length_header, (data,), header),
    ensures
        call_requires(find_length_header, (data,)),
        call_requires(read_header_line, (data,)),
        !(header is Malformed) ==> call_requires(
            RequestContext::parse_and_set_content_length,
            (context, data),
        ),
        call_requires(RequestContext::try_parse_and_set_content_length, (context, data)),
        call_requires(RequestContext::new, (stream,)),
        call_requires(RequestContext::close, (shared, stream)),
        (read matches Attempt::Done(len) ==> len <= 1024) ==> call_requires(
            RequestContext::read_cb::<E>,
            (shared, read, collected),
        ),
        call_requires(ReadTurn::<E>::result, (turn,)),
{
}

/// A read that brought bytes adds exactly those to what was collected, in their order and behind
/// it, and the reader reads again.
pub proof fn law_read_bytes_are_collected<E>(
    context: &RequestContext,
    len: usize,
    collected: &mut Vec<u8>,
    turn: ReadTurn<E>,
    i: int,
)
    requires
        call_ensures(
            RequestContext::read_cb::<E>,
            (context, Attempt::Done(len), collected),
            turn,
        ),
        0 < len <= 1024,
    ensures
        turn is Again,
        final(collected)@.len() == old(collected)@.len() + len,
        0 <= i < old(collected)@.len() ==> final(collected)@[i] == old(collected)@[i],
        0 <= i < len ==> final(collected)@[old(collected)@.len() + i] == context.buf[i],
{
}

/// A read that brought nothing adds nothing, and the reader stops: with the very failure if the
/// read failed, and else with success, be it at the end of the connection or where it would have to
/// wait.
pub proof fn law_reading_stops<E>(
    context: &RequestContext,
    read: Attempt<usize, E>,
    collected: &mut Vec<u8>,
    turn: ReadTurn<E>,
    result: Option<Result<(), E>>,
)
    requires
        call_ensures(RequestContext::read_cb::<E>, (context, read, collected), turn),
        read matches Attempt::Done(len) ==> len == 0,
        call_ensures(ReadTurn::<E>::result, (turn,), result),
    ensures
        final(collected)@ == old(collected)@,
        result is Some,
        match (read, result) {
            (Attempt::Failed(error), Some(Err(reported))) => reported == error,
            (Attempt::Failed(_), _) => false,
            (_, Some(Ok(_))) => true,
            _ => false,
        },
{
}

/// As long as the reader is to read again, reading has come to no result.
pub proof fn law_no_result_while_reading<E>(turn: ReadTurn<E>, result: Option<Result<(), E>>)
    requires
        call_ensures(ReadTurn::<E>::result, (turn,), result),
    ensures
        result is None <==> turn is Again,
        result matches Some(Ok(_)) <==> turn is Done,
        match turn {
            ReadTurn::Failed(error) => result == Some(Err::<(), E>(error)),
            _ => true,
        },
{
}

/// The context of a fresh connection holds its descriptor, no length, and a buffer of 1024 zeros.
/// To end the connection its descriptor is taken off the interest list that is named, and closed.
pub proof fn law_connection_begins_and_ends(
    stream: i32,
    context: RequestContext,
    epoll_fd: i32,
    later: &RequestContext,
    request: CloseRequest,
    i: int,
)
    requires
        call_ensures(RequestContext::new, (stream,), context),
        call_ensures(RequestContext::close, (later, epoll_fd), request),
    ensures
        context.stream == stream,
        context.content_length == 0,
        context.buf@.len() == 1024,
        0 <= i < 1024 ==> context.buf[i] == 0,
        request.fd == later.stream,
        request.removal.fd == later.stream,
        request.removal.epoll_fd == epoll_fd,
        request.removal.change is Remove,
{
}

} // verus!
