//! One connection's request: what has been read of it, and how long it says that it is.

use crate::epoll::remove_interest;
use crate::futures::Attempt;
use crate::reactor::CloseRequest;
use crate::text::{characters, contains, find_line_end, parse_decimal, strip_prefix};
use vstd::prelude::*;

verus! {

/// How much one read takes at most.
pub const BUFFER_SIZE: usize = 1024;

/// What every request is answered.
pub const HTTP_RESP: &'static str = "HTTP/1.1 200 OK
content-type: text/html
content-length: 5

Hello";

/// What a line of a request is, once it is in lower case.
#[derive(Clone, Copy, Debug, PartialEq, Eq, Structural)]
pub enum HeaderLine {
    /// Something other than the length header.
    Other,
    /// The length header, with a length.
    Length(usize),
    /// The length header, with something that is no length.
    Malformed,
}

/// What a reader does after one read.
#[derive(Debug, PartialEq, Eq)]
pub enum ReadTurn<E> {
    /// Read again.
    Again,
    /// Stop: there is nothing more to read for now.
    Done,
    /// Stop, and report the failure.
    Failed(E),
}

impl<E> ReadTurn<E> {
    /// What reading has come to as a whole, once the reader has stopped.
    pub fn result(self) -> (result: Option<Result<(), E>>)
        ensures
            result == result_of(self),
    {
        match self {
            ReadTurn::Again => None,
            ReadTurn::Done => Some(Ok(())),
            ReadTurn::Failed(error) => Some(Err(error)),
        }
    }
}

/// A read brought something, so that the reader reads again.
pub open spec fn goes_on<E>(read: Attempt<usize, E>) -> bool {
    read matches Attempt::Done(len) && len > 0
}

/// What a reader does after one read: it reads again after one that brought something, and stops
/// where the connection ends, has nothing more for now, or fails.
pub open spec fn turn_after<E>(read: Attempt<usize, E>) -> ReadTurn<E> {
    match read {
        Attempt::Done(len) => if len > 0 {
            ReadTurn::Again
        } else {
            ReadTurn::Done
        },
        Attempt::WouldBlock => ReadTurn::Done,
        Attempt::Failed(error) => ReadTurn::Failed(error),
    }
}

/// What a read into `buf` brought.
pub open spec fn brought<E>(read: Attempt<usize, E>, buf: Seq<u8>) -> Seq<u8> {
    match read {
        Attempt::Done(len) => buf.take(len as int),
        _ => Seq::empty(),
    }
}

/// What reading comes to as a whole: nothing yet as long as the reader is to read again, then
/// success, or the failure of the read that failed.
pub open spec fn result_of<E>(turn: ReadTurn<E>) -> Option<Result<(), E>> {
    match turn {
        ReadTurn::Again => None,
        ReadTurn::Done => Some(Ok(())),
        ReadTurn::Failed(error) => Some(Err(error)),
    }
}

/// A reader that had `collected` before, after reads that are there for it one after the other,
/// each with what is in the buffer then: what it does next, and what it has collected. Once it has
/// stopped, it makes no further read.
pub open spec fn after_reads<E>(
    reads: Seq<(Attempt<usize, E>, Seq<u8>)>,
    collected: Seq<u8>,
) -> (ReadTurn<E>, Seq<u8>)
    decreases reads.len(),
{
    if reads.len() == 0 {
        (ReadTurn::Again, collected)
    } else {
        let (turn, before) = after_reads(reads.drop_last(), collected);
        let (read, buf) = reads.last();
        if turn is Again {
            (turn_after(read), before + brought(read, buf))
        } else {
            (turn, before)
        }
    }
}

/// What each of a number of reads brought.
pub open spec fn pieces<E>(reads: Seq<(Attempt<usize, E>, Seq<u8>)>) -> Seq<Seq<u8>> {
    Seq::new(reads.len(), |i: int| brought(reads[i].0, reads[i].1))
}

/// A text in lower case.
pub uninterp spec fn lowercase(text: Seq<char>) -> Seq<char>;

/// `str::to_lowercase`: the text in lower case, by the rules of Unicode. Those rules are not
/// spelled out: the result is the text's `lowercase`.
#[verifier::external_body]
fn to_lowercase(text: &str) -> (lowered: String)
    ensures
        lowered@ == lowercase(text@),
{
    text.to_lowercase()
}

/// What the line `lowered`, in lower case, is.
pub open spec fn header_line(lowered: Seq<char>) -> HeaderLine {
    let name = "content-length: "@;
    if crate::text::occurs_at(name, lowered, 0) {
        match crate::text::decimal(lowered.skip(name.len() as int)) {
            Some(length) => HeaderLine::Length(length),
            None => HeaderLine::Malformed,
        }
    } else {
        HeaderLine::Other
    }
}

/// The first of the lines that is a length header, in whatever case it is written.
pub open spec fn first_header(lines: Seq<Seq<char>>) -> HeaderLine
    decreases lines.len(),
{
    if lines.len() == 0 {
        HeaderLine::Other
    } else if header_line(lowercase(lines[0])) != HeaderLine::Other {
        header_line(lowercase(lines[0]))
    } else {
        first_header(lines.drop_first())
    }
}

/// The first length header of a text that speaks of HTTP.
pub open spec fn length_header(data: Seq<char>) -> HeaderLine {
    if crate::text::occurs_in("HTTP"@, data) {
        first_header(crate::text::lines(data))
    } else {
        HeaderLine::Other
    }
}

/// What the line `lowered`, in lower case, is.
pub fn read_header_line(lowered: &str) -> (line: HeaderLine)
    ensures
        line == header_line(lowered@),
{
    match strip_prefix(&characters(lowered), &characters("content-length: ")) {
        Some(rest) => match parse_decimal(&rest) {
            Some(length) => HeaderLine::Length(length),
            None => HeaderLine::Malformed,
        },
        None => HeaderLine::Other,
    }
}

/// The first length header of a text that speaks of HTTP.
pub fn find_length_header(data: &str) -> (header: HeaderLine)
    ensures
        header == length_header(data@),
{
    let text: Vec<char> = characters(data);
    if !contains(&text, &characters("HTTP")) {
        return HeaderLine::Other;
    }
    let mut from: usize = 0;
    while from < text.len()
        invariant
            text@ == data@,
            from <= text@.len(),
            first_header(crate::text::lines(data@)) == first_header(
                crate::text::lines_from(data@, from as int),
            ),
            crate::text::occurs_in("HTTP"@, data@),
        decreases text.len() - from,
    {
        let end: usize = find_line_end(&text, from);
        proof {
            crate::text::lemma_line_end(data@, from as int);
        }
        let ended: bool = end < text.len();
        let stop: usize = if ended && end > from && text[end - 1] == '\r' {
            end - 1
        } else {
            end
        };
        let line: &str = data.substring_char(from, stop);
        let ghost rest = crate::text::lines_from(data@, from as int);
        proof {
            reveal_with_fuel(first_header, 2);
            assert(line@ =~= rest[0]);
            assert(rest.drop_first() =~= crate::text::lines_from(data@, end + 1));
        }
        let header: HeaderLine = read_header_line(to_lowercase(line).as_str());
        if header != HeaderLine::Other {
            return header;
        }
        if !ended {
            return HeaderLine::Other;
        }
        from = end + 1;
    }
    HeaderLine::Other
}

/// The bytes of the answer to a request: the characters of [`HTTP_RESP`], which are all ASCII.
pub fn response() -> (bytes: &'static [u8])
    ensures
        bytes@.len() == HTTP_RESP@.len(),
        forall|i: int| 0 <= i < bytes@.len() ==> bytes@[i] == HTTP_RESP@[i] as u8,
{
    broadcast use vstd::string::group_string_axioms;

    proof {
        reveal_strlit("HTTP/1.1 200 OK
content-type: text/html
content-length: 5

Hello");
        assert(vstd::string::is_ascii(HTTP_RESP));
    }
    HTTP_RESP.as_bytes()
}

/// A connection and what is known of its request.
pub struct RequestContext {
    /// The descriptor of the connection.
    pub stream: i32,
    /// The length that the request says it has.
    pub content_length: usize,
    /// What the last read brought.
    pub buf: [u8; BUFFER_SIZE],
}

impl RequestContext {
    /// The context of a fresh connection.
    pub fn new(stream: i32) -> (context: Self)
        ensures
            context.stream == stream,
            context.content_length == 0,
            context.buf@ == Seq::new(BUFFER_SIZE as nat, |i: int| 0u8),
    {
        RequestContext { stream, content_length: 0, buf: [0u8; 1024] }
    }

    /// What follows one read into the buffer of this context: what it brought goes to the end of
    /// `collected`, and the reader reads again, until the connection ends or has nothing more for
    /// now, or a read fails.
    pub fn read_cb<E>(&self, read: Attempt<usize, E>, collected: &mut Vec<u8>) -> (turn: ReadTurn<E>)
        requires
            read matches Attempt::Done(len) ==> len <= BUFFER_SIZE,
        ensures
            turn == turn_after(read),
            final(collected)@ == old(collected)@ + brought(read, self.buf@),
    {
        match read {
            Attempt::Done(len) => {
                if len > 0 {
                    let mut i: usize = 0;
                    while i < len
                        invariant
                            i <= len <= BUFFER_SIZE,
                            collected@ == old(collected)@ + self.buf@.take(i as int),
                        decreases len - i,
                    {
                        collected.push(self.buf[i]);
                        i = i + 1;
                    }
                    ReadTurn::Again
                } else {
                    ReadTurn::Done
                }
            },
            Attempt::WouldBlock => ReadTurn::Done,
            Attempt::Failed(error) => ReadTurn::Failed(error),
        }
    }

    /// Takes the length over that a request gives in its first length header. A text that does not
    /// speak of HTTP or has no such header changes nothing.
    pub fn parse_and_set_content_length(&mut self, data: &str)
        requires
            length_header(data@) != HeaderLine::Malformed,
        ensures
            final(self).content_length == (match length_header(data@) {
                HeaderLine::Length(length) => length,
                _ => old(self).content_length,
            }),
            final(self).stream == old(self).stream,
            final(self).buf == old(self).buf,
    {
        match find_length_header(data) {
            HeaderLine::Length(length) => {
                self.content_length = length;
            },
            _ => {},
        }
    }

    /// Takes the length over that a request gives, unless its first length header gives something
    /// that is no length: then nothing changes, and the result is `false`.
    pub fn try_parse_and_set_content_length(&mut self, data: &str) -> (valid: bool)
        ensures
            valid == (length_header(data@) != HeaderLine::Malformed),
            final(self).content_length == (match length_header(data@) {
                HeaderLine::Length(length) => length,
                _ => old(self).content_length,
            }),
            final(self).stream == old(self).stream,
            final(self).buf == old(self).buf,
    {
        if find_length_header(data) == HeaderLine::Malformed {
            return false;
        }
        self.parse_and_set_content_length(data);
        true
    }

    /// What is to be done to end the connection.
    pub fn close(&self, epoll_fd: i32) -> (request: CloseRequest)
        ensures
            request.fd == self.stream,
            request.removal.epoll_fd == epoll_fd,
            request.removal.fd == self.stream,
            request.removal.change == crate::epoll::InterestChange::Remove,
    {
        CloseRequest { fd: self.stream, removal: remove_interest(epoll_fd, self.stream) }
    }
}

/// As long as every read brings something, the reader reads on, and has collected what they
/// brought, one after the other.
pub proof fn law_reading_goes_on<E>(
    reads: Seq<(Attempt<usize, E>, Seq<u8>)>,
    collected: Seq<u8>,
)
    requires
        forall|i: int| 0 <= i < reads.len() ==> goes_on((#[trigger] reads[i]).0),
    ensures
        after_reads(reads, collected) == (
            ReadTurn::<E>::Again,
            collected + pieces(reads).flatten(),
        ),
    decreases reads.len(),
{
    if reads.len() > 0 {
        let earlier = reads.drop_last();
        law_reading_goes_on(earlier, collected);
        assert(pieces(reads) =~= pieces(earlier).push(
            brought(reads.last().0, reads.last().1),
        ));
        pieces(earlier).lemma_flatten_push(brought(reads.last().0, reads.last().1));
    }
}

/// Reading stops at the first read that brings nothing. It is a success if that read found the end
/// of the connection or would have had to wait, and else its failure. Collected is what the reads
/// before it brought, one after the other, and whatever reads would follow change nothing.
pub proof fn law_reading_stops_at_first_end<E>(
    reads: Seq<(Attempt<usize, E>, Seq<u8>)>,
    collected: Seq<u8>,
    n: int,
)
    requires
        0 <= n < reads.len(),
        forall|i: int| 0 <= i < n ==> goes_on((#[trigger] reads[i]).0),
        !goes_on(reads[n].0),
    ensures
        result_of(after_reads(reads, collected).0) == (match reads[n].0 {
            Attempt::Failed(error) => Some(Err::<(), E>(error)),
            _ => Some(Ok::<(), E>(())),
        }),
        after_reads(reads, collected).1 == collected + pieces(reads.take(n)).flatten(),
    decreases reads.len(),
{
    let earlier = reads.drop_last();
    if n == reads.len() - 1 {
        assert(reads.take(n) =~= earlier);
        law_reading_goes_on(earlier, collected);
    } else {
        assert(earlier.take(n) =~= reads.take(n));
        law_reading_stops_at_first_end(earlier, collected, n);
    }
}

/// It does not matter in which case a request is written, but for the word that marks it as HTTP:
/// texts whose lines are the same in lower case have the same length header.
pub proof fn law_case_does_not_matter(one: Seq<char>, other: Seq<char>)
    requires
        crate::text::occurs_in("HTTP"@, one) == crate::text::occurs_in("HTTP"@, other),
        crate::text::lines(one).map_values(|line: Seq<char>| lowercase(line))
            == crate::text::lines(other).map_values(|line: Seq<char>| lowercase(line)),
    ensures
        length_header(one) == length_header(other),
{
    lemma_same_in_lower_case(crate::text::lines(one), crate::text::lines(other));
}

/// Lines that are the same in lower case have the same length header.
proof fn lemma_same_in_lower_case(one: Seq<Seq<char>>, other: Seq<Seq<char>>)
    requires
        one.map_values(|line: Seq<char>| lowercase(line)) == other.map_values(
            |line: Seq<char>| lowercase(line),
        ),
    ensures
        first_header(one) == first_header(other),
    decreases one.len(),
{
    let lowered_one = one.map_values(|line: Seq<char>| lowercase(line));
    let lowered_other = other.map_values(|line: Seq<char>| lowercase(line));
    assert(lowered_one.len() == lowered_other.len());
    if one.len() > 0 {
        assert(lowered_one[0] == lowered_other[0]);
        assert(one.drop_first().map_values(|line: Seq<char>| lowercase(line))
            =~= lowered_one.drop_first());
        assert(other.drop_first().map_values(|line: Seq<char>| lowercase(line))
            =~= lowered_other.drop_first());
        lemma_same_in_lower_case(one.drop_first(), other.drop_first());
    }
}

/// The first length header counts: later lines matter only where the earlier ones have none.
pub proof fn law_first_header_counts(earlier: Seq<Seq<char>>, later: Seq<Seq<char>>)
    ensures
        first_header(earlier + later) == (if first_header(earlier) != HeaderLine::Other {
            first_header(earlier)
        } else {
            first_header(later)
        }),
    decreases earlier.len(),
{
    if earlier.len() == 0 {
    } else {
        assert((earlier + later).drop_first() =~= earlier.drop_first() + later);
        law_first_header_counts(earlier.drop_first(), later);
    }
}

} // verus!
