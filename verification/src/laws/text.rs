//! Calls that take text apart.

use crate::text::{characters, contains, find_line_end, parse_decimal, strip_prefix};
use vstd::prelude::*;

verus! {

/// The decimal digit with the value `value`.
pub open spec fn digit(value: int) -> char {
    seq!['0', '1', '2', '3', '4', '5', '6', '7', '8', '9'][value]
}

/// A number written in decimal, without a zero in front of it.
pub open spec fn written(n: nat) -> Seq<char>
    decreases n,
{
    if n < 10 {
        seq![digit(n as int)]
    } else {
        written(n / 10).push(digit((n % 10) as int))
    }
}

/// A row of zeros.
pub open spec fn zeros(k: nat) -> Seq<char> {
    Seq::new(k, |i: int| '0')
}

/// The text writes the number `n`: perhaps a plus sign, then any number of zeros, then `n` in
/// decimal.
pub open spec fn writes(text: Seq<char>, n: nat) -> bool {
    exists|k: nat|
        text == #[trigger] zeros(k) + written(n) || text == seq!['+'] + (zeros(k) + written(n))
}

/// A digit is told by its value.
proof fn lemma_digit(value: int)
    requires
        0 <= value < 10,
    ensures
        crate::text::is_digit(digit(value)),
        digit(value) as int == '0' as int + value,
{
}

/// A character that is a digit is the digit with its value.
proof fn lemma_digit_of(c: char)
    requires
        crate::text::is_digit(c),
    ensures
        0 <= c as int - '0' as int <= 9,
        digit(c as int - '0' as int) == c,
{
}

/// Zeros and a number are digits with the value of the number.
proof fn lemma_value_of_written(k: nat, n: nat)
    ensures
        (zeros(k) + written(n)).len() > 0,
        forall|i: int|
            0 <= i < (zeros(k) + written(n)).len() ==> crate::text::is_digit(
                #[trigger] (zeros(k) + written(n))[i],
            ),
        crate::text::digits_value(zeros(k) + written(n)) == n,
    decreases n,
{
    let text = zeros(k) + written(n);
    let last = n % 10;
    lemma_digit(last as int);
    if n < 10 {
        lemma_value_of_zeros(k);
        assert(text.drop_last() =~= zeros(k));
    } else {
        lemma_value_of_written(k, n / 10);
        let front = zeros(k) + written(n / 10);
        assert(text.drop_last() =~= front);
        assert forall|i: int| 0 <= i < text.len() implies crate::text::is_digit(
            #[trigger] text[i],
        ) by {
            if i < front.len() {
                assert(text[i] == front[i]);
            }
        }
    }
}

/// Zeros have no value.
proof fn lemma_value_of_zeros(k: nat)
    ensures
        crate::text::digits_value(zeros(k)) == 0,
    decreases k,
{
    if k > 0 {
        lemma_value_of_zeros((k - 1) as nat);
        assert(zeros(k).drop_last() =~= zeros((k - 1) as nat));
    }
}

/// Digits are zeros and the number that is their value.
proof fn lemma_digits_are_written(digits: Seq<char>) -> (k: nat)
    requires
        digits.len() > 0,
        forall|i: int| 0 <= i < digits.len() ==> crate::text::is_digit(#[trigger] digits[i]),
    ensures
        crate::text::digits_value(digits) >= 0,
        digits == zeros(k) + written(crate::text::digits_value(digits) as nat),
    decreases digits.len(),
{
    let front = digits.drop_last();
    let last = digits.last() as int - '0' as int;
    lemma_digit_of(digits.last());
    reveal_with_fuel(crate::text::digits_value, 2);
    if front.len() == 0 {
        assert(digits =~= zeros(0) + written(last as nat));
        0
    } else {
        let k = lemma_digits_are_written(front);
        let before = crate::text::digits_value(front) as nat;
        if before == 0 {
            assert(front =~= zeros(k + 1));
            assert(digits =~= zeros(k + 1) + written(last as nat));
            k + 1
        } else {
            let n = (10 * before + last) as nat;
            assert(n / 10 == before && n % 10 == last);
            assert(written(n) == written(before).push(digits.last()));
            assert(digits =~= front.push(digits.last()));
            assert(digits =~= zeros(k) + written(n));
            k
        }
    }
}

/// A number does not begin with a plus sign.
proof fn lemma_written_has_no_plus(k: nat, n: nat)
    ensures
        (zeros(k) + written(n))[0] != '+',
{
    lemma_value_of_written(k, n);
    assert(crate::text::is_digit((zeros(k) + written(n))[0]));
}

/// A text is read as the number that it writes: with any number of zeros in front, and a plus sign
/// or none. A text that writes no number, or one that is too large, is read as none.
pub proof fn law_number_is_read_as_written(text: &Vec<char>, number: Option<usize>, n: nat)
    requires
        call_ensures(parse_decimal, (text,), number),
    ensures
        writes(text@, n) ==> number == (if n <= usize::MAX {
            Some(n as usize)
        } else {
            None
        }),
        number matches Some(read) ==> writes(text@, read as nat),
{
    law_decimal_is_read_as_written(text@, n);
}

/// The number that a text writes is read back from it, and no text is read as a number that it does
/// not write.
pub proof fn law_decimal_is_read_as_written(text: Seq<char>, n: nat)
    ensures
        writes(text, n) ==> crate::text::decimal(text) == (if n <= usize::MAX {
            Some(n as usize)
        } else {
            None
        }),
        crate::text::decimal(text) matches Some(read) ==> writes(text, read as nat),
{
    if writes(text, n) {
        let k = choose|k: nat|
            text == #[trigger] zeros(k) + written(n) || text == seq!['+'] + (zeros(k) + written(
                n,
            ));
        lemma_value_of_written(k, n);
        lemma_written_has_no_plus(k, n);
        assert(crate::text::without_plus(text) =~= zeros(k) + written(n));
    }
    if let Some(read) = crate::text::decimal(text) {
        let digits = crate::text::without_plus(text);
        let k = lemma_digits_are_written(digits);
        if text[0] == '+' {
            assert(text =~= seq!['+'] + digits);
        }
        assert(text == zeros(k) + written(read as nat) || text == seq!['+'] + (zeros(k) + written(
            read as nat,
        )));
    }
}

/// The characters of a text are all of them, in their order.
pub proof fn law_characters_are_all(text: &str, all: Vec<char>, i: int)
    requires
        call_ensures(characters, (text,), all),
    ensures
        all@.len() == text@.len(),
        0 <= i < text@.len() ==> all@[i] == text@[i],
{
}

/// A part is found in a text exactly if the text is something, the part, and something.
pub proof fn law_part_is_found_wherever_it_stands(text: &Vec<char>, part: &Vec<char>, found: bool)
    requires
        call_ensures(contains, (text, part), found),
    ensures
        found <==> stands_in(part@, text@),
{
    law_occurs_wherever_it_stands(part@, text@);
}

/// The text is something, the part, and something.
pub open spec fn stands_in(part: Seq<char>, text: Seq<char>) -> bool {
    exists|before: Seq<char>, after: Seq<char>| text == #[trigger] (before + part + after)
}

/// A part occurs in a text exactly if the text is something, the part, and something.
pub proof fn law_occurs_wherever_it_stands(part: Seq<char>, text: Seq<char>)
    ensures
        crate::text::occurs_in(part, text) <==> stands_in(part, text),
{
    if crate::text::occurs_in(part, text) {
        let i = choose|i: int| #[trigger] crate::text::occurs_at(part, text, i);
        let (before, after) = (text.take(i), text.skip(i + part.len()));
        assert(text =~= before + part + after);
    }
    if stands_in(part, text) {
        let (before, after) = choose|before: Seq<char>, after: Seq<char>|
            text == #[trigger] (before + part + after);
        let i = before.len() as int;
        assert(text.subrange(i, i + part.len()) =~= part);
        assert(crate::text::occurs_at(part, text, i));
    }
}

/// A prefix and what follows it make up the text. There is nothing to follow exactly if the text
/// does not begin with the prefix.
pub proof fn law_prefix_and_rest_make_the_text(
    text: &Vec<char>,
    prefix: &Vec<char>,
    rest: Option<Vec<char>>,
    other: Seq<char>,
)
    requires
        call_ensures(strip_prefix, (text, prefix), rest),
    ensures
        rest matches Some(rest) ==> text@ == prefix@ + rest@,
        text@ == prefix@ + other ==> rest is Some,
{
    if let Some(rest) = rest {
        assert(text@ =~= prefix@ + rest@);
    }
    if text@ == prefix@ + other {
        assert(text@.subrange(0, prefix@.len() as int) =~= prefix@);
        assert(crate::text::occurs_at(prefix@, text@, 0));
    }
}

/// A line ends at the first newline from where it is looked for, or else at the end of the text.
pub proof fn law_line_ends_at_first_newline(text: &Vec<char>, from: usize, end: usize, i: int)
    requires
        from <= text@.len(),
        call_ensures(find_line_end, (text, from), end),
    ensures
        from <= end <= text@.len(),
        end < text@.len() ==> text@[end as int] == '\n',
        from <= i < end ==> text@[i] != '\n',
{
    crate::text::lemma_line_end(text@, from as int);
}

/// A text without characters has no lines.
pub proof fn law_no_text_no_lines()
    ensures
        crate::text::lines(Seq::empty()).len() == 0,
{
}

/// A carriage return and a newline end a line, as a newline alone does, and neither is part of it.
pub proof fn law_lines_are_ended_either_way(line: Seq<char>, rest: Seq<char>)
    requires
        !line.contains('\n'),
    ensures
        crate::text::lines(line + seq!['\r', '\n'] + rest) == seq![line] + crate::text::lines(rest),
        (line.len() > 0 ==> line.last() != '\r') ==> crate::text::lines(line + seq!['\n'] + rest)
            == seq![line] + crate::text::lines(rest),
{
    let with_return = line.push('\r');
    assert(!with_return.contains('\n')) by {
        if with_return.contains('\n') {
            let i = with_return.index_of('\n');
            assert(line[i] == '\n');
        }
    }
    crate::text::law_newline_ends_a_line(with_return, rest);
    assert(with_return + seq!['\n'] + rest =~= line + seq!['\r', '\n'] + rest);
    assert(with_return.drop_last() =~= line);
    crate::text::law_newline_ends_a_line(line, rest);
}

/// The lines of a text that ends with a newline stay what they are when more text follows, and the
/// lines of that come after them.
pub proof fn law_lines_follow_each_other(before: Seq<char>, more: Seq<char>)
    requires
        before.len() == 0 || before.last() == '\n',
    ensures
        crate::text::lines(before + more) == crate::text::lines(before) + crate::text::lines(more),
    decreases before.len(),
{
    if before.len() == 0 {
        assert(before + more =~= more);
        assert(crate::text::lines(before) + crate::text::lines(more) =~= crate::text::lines(more));
    } else {
        let end = before.index_of_first('\n');
        assert(before.contains('\n')) by {
            assert(before[before.len() - 1] == '\n');
        }
        before.index_of_first_ensures('\n');
        let i = end->0;
        let line = before.take(i);
        let rest = before.skip(i + 1);
        assert(!line.contains('\n'));
        assert(before =~= line + seq!['\n'] + rest);
        assert(before + more =~= line + seq!['\n'] + (rest + more));
        law_lines_follow_each_other(rest, more);
        crate::text::law_newline_ends_a_line(line, rest);
        crate::text::law_newline_ends_a_line(line, rest + more);
        assert(crate::text::lines(before + more) =~= crate::text::lines(before)
            + crate::text::lines(more));
    }
}

/// All of these can be called with any arguments, but that a line is looked for within the text.
pub proof fn law_text_has_no_conditions(
    text: &Vec<char>,
    part: &Vec<char>,
    string: &str,
    from: usize,
)
    ensures
        call_requires(characters, (string,)),
        call_requires(contains, (text, part)),
        call_requires(strip_prefix, (text, part)),
        call_requires(parse_decimal, (text,)),
        from <= text@.len() ==> call_requires(find_line_end, (text, from)),
{
}

} // verus!
