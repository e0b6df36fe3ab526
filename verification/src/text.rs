//! Text as sequences of characters: lines, prefixes, parts, and decimal numbers.

use vstd::prelude::*;

verus! {

/// `part` occurs in `text`.
pub open spec fn occurs_in(part: Seq<char>, text: Seq<char>) -> bool {
    exists|i: int| #[trigger] occurs_at(part, text, i)
}

/// `part` occurs in `text` from position `i`.
pub open spec fn occurs_at(part: Seq<char>, text: Seq<char>, i: int) -> bool {
    0 <= i <= text.len() - part.len() && text.subrange(i, i + part.len()) == part
}

/// Where the line that is running at `from` ends: at the next newline, or at the end of the text.
pub open spec fn line_end(text: Seq<char>, from: int) -> int
    decreases text.len() - from,
{
    if from >= text.len() {
        text.len() as int
    } else if text[from] == '\n' {
        from
    } else {
        line_end(text, from + 1)
    }
}

/// A line that a newline ended, without the carriage return before the newline.
pub open spec fn without_return(line: Seq<char>) -> Seq<char> {
    if line.len() > 0 && line.last() == '\r' {
        line.drop_last()
    } else {
        line
    }
}

/// The lines of the text from position `from` on. A newline, or a carriage return and a newline,
/// ends a line and is not part of it; the last line need not be ended.
pub open spec fn lines_from(text: Seq<char>, from: int) -> Seq<Seq<char>>
    decreases text.len() - from,
{
    if from >= text.len() {
        seq![]
    } else {
        let end = line_end(text, from);
        if from <= end < text.len() {
            seq![without_return(text.subrange(from, end))] + lines_from(text, end + 1)
        } else {
            seq![text.subrange(from, text.len() as int)]
        }
    }
}

/// The lines of a text.
pub open spec fn lines(text: Seq<char>) -> Seq<Seq<char>> {
    lines_from(text, 0)
}

/// The character is a decimal digit.
pub open spec fn is_digit(c: char) -> bool {
    '0' <= c <= '9'
}

/// The value of a row of decimal digits.
pub open spec fn digits_value(digits: Seq<char>) -> int
    decreases digits.len(),
{
    if digits.len() == 0 {
        0
    } else {
        10 * digits_value(digits.drop_last()) + (digits.last() as int - '0' as int)
    }
}

/// A number as it is written, without the plus sign that it may begin with.
pub open spec fn without_plus(text: Seq<char>) -> Seq<char> {
    if text.len() > 0 && text[0] == '+' {
        text.skip(1)
    } else {
        text
    }
}

/// The number that a text writes in decimal: digits, at least one, perhaps after a plus sign,
/// whose value is not too large.
pub open spec fn decimal(text: Seq<char>) -> Option<usize> {
    let digits = without_plus(text);
    if digits.len() > 0 && (forall|i: int| 0 <= i < digits.len() ==> is_digit(#[trigger] digits[i]))
        && digits_value(digits) <= usize::MAX {
        Some(digits_value(digits) as usize)
    } else {
        None
    }
}

/// The end of a line is not before where it was looked for, and only there is a newline.
pub proof fn lemma_line_end(text: Seq<char>, from: int)
    requires
        0 <= from <= text.len(),
    ensures
        from <= line_end(text, from) <= text.len(),
        line_end(text, from) < text.len() ==> text[line_end(text, from)] == '\n',
        forall|i: int| from <= i < line_end(text, from) ==> text[i] != '\n',
    decreases text.len() - from,
{
    if from < text.len() && text[from] != '\n' {
        lemma_line_end(text, from + 1);
    }
}

/// The characters of a text.
pub fn characters(text: &str) -> (characters: Vec<char>)
    ensures
        characters@ == text@,
{
    let mut characters: Vec<char> = Vec::new();
    for c in it: text.chars()
        invariant
            characters@ == text@.take(it.index()),
            it.seq() == text@,
    {
        characters.push(c);
    }
    characters
}

/// Whether `part` stands in `text` from position `at`.
fn stands_at(part: &Vec<char>, text: &Vec<char>, at: usize) -> (stands: bool)
    requires
        at <= text@.len(),
    ensures
        stands == occurs_at(part@, text@, at as int),
{
    if text.len() - at < part.len() {
        return false;
    }
    let mut i: usize = 0;
    while i < part.len()
        invariant
            i <= part@.len(),
            at + part@.len() <= text@.len(),
            forall|j: int| 0 <= j < i ==> text@[at + j] == #[trigger] part@[j],
        decreases part.len() - i,
    {
        assert(at + i < text.len());
        if text[at + i] != part[i] {
            return false;
        }
        i = i + 1;
    }
    assert(text@.subrange(at as int, at + part@.len()) =~= part@);
    true
}

/// Whether `part` occurs in `text`.
pub fn contains(text: &Vec<char>, part: &Vec<char>) -> (found: bool)
    ensures
        found == occurs_in(part@, text@),
{
    let mut at: usize = 0;
    while at < text.len()
        invariant
            at <= text@.len(),
            forall|i: int| 0 <= i < at ==> !#[trigger] occurs_at(part@, text@, i),
        decreases text.len() - at,
    {
        if stands_at(part, text, at) {
            return true;
        }
        at = at + 1;
    }
    stands_at(part, text, at)
}

/// What follows `prefix` in `text`, if `text` begins with it.
pub fn strip_prefix(text: &Vec<char>, prefix: &Vec<char>) -> (rest: Option<Vec<char>>)
    ensures
        rest is Some <==> occurs_at(prefix@, text@, 0),
        rest is Some ==> rest->0@ == text@.skip(prefix@.len() as int),
{
    if !stands_at(prefix, text, 0) {
        return None;
    }
    let mut rest: Vec<char> = Vec::new();
    let mut i: usize = prefix.len();
    while i < text.len()
        invariant
            prefix@.len() <= i <= text@.len(),
            rest@ == text@.subrange(prefix@.len() as int, i as int),
        decreases text.len() - i,
    {
        rest.push(text[i]);
        i = i + 1;
    }
    Some(rest)
}

/// Where the line that is running at `from` ends.
pub fn find_line_end(text: &Vec<char>, from: usize) -> (end: usize)
    requires
        from <= text@.len(),
    ensures
        end == line_end(text@, from as int),
{
    let mut end: usize = from;
    while end < text.len() && text[end] != '\n'
        invariant
            from <= end <= text@.len(),
            line_end(text@, from as int) == line_end(text@, end as int),
        decreases text.len() - end,
    {
        end = end + 1;
    }
    end
}

/// Digits at the front of a number make it no larger than the whole.
proof fn lemma_digits_value_grows(digits: Seq<char>, n: int)
    requires
        0 <= n <= digits.len(),
        forall|i: int| 0 <= i < digits.len() ==> is_digit(#[trigger] digits[i]),
    ensures
        0 <= digits_value(digits.take(n)) <= digits_value(digits),
    decreases digits.len(),
{
    if digits.len() > 0 {
        if n == digits.len() {
            assert(digits.take(n) =~= digits);
            lemma_digits_value_grows(digits.drop_last(), n - 1);
        } else {
            lemma_digits_value_grows(digits.drop_last(), n);
            assert(digits.drop_last().take(n) =~= digits.take(n));
        }
    }
}

/// The number that a text writes in decimal.
pub fn parse_decimal(text: &Vec<char>) -> (number: Option<usize>)
    ensures
        number == decimal(text@),
{
    let start: usize = if text.len() > 0 && text[0] == '+' {
        1
    } else {
        0
    };
    let ghost digits = without_plus(text@);
    if start == text.len() {
        return None;
    }
    let mut value: usize = 0;
    let mut i: usize = start;
    while i < text.len()
        invariant
            start <= i <= text@.len(),
            digits == text@.skip(start as int),
            digits == without_plus(text@),
            value == digits_value(digits.take(i - start)),
            forall|j: int| 0 <= j < i - start ==> is_digit(#[trigger] digits[j]),
        decreases text.len() - i,
    {
        let c: char = text[i];
        assert(c == digits[i - start]);
        if !('0' <= c && c <= '9') {
            return None;
        }
        let digit: usize = c as usize - '0' as usize;
        proof {
            let longer = digits.take(i + 1 - start);
            assert(longer.drop_last() =~= digits.take(i - start));
            if forall|j: int| 0 <= j < digits.len() ==> is_digit(#[trigger] digits[j]) {
                lemma_digits_value_grows(digits, i + 1 - start);
            }
        }
        if value > usize::MAX / 10 {
            return None;
        }
        let tens: usize = value * 10;
        if digit > usize::MAX - tens {
            return None;
        }
        value = tens + digit;
        i = i + 1;
    }
    assert(digits.take(digits.len() as int) =~= digits);
    Some(value)
}

/// Where a line ends does not depend on what stands before it.
proof fn lemma_line_end_of_rest(text: Seq<char>, skipped: int, from: int)
    requires
        0 <= skipped <= from <= text.len(),
    ensures
        line_end(text, from) == line_end(text.skip(skipped), from - skipped) + skipped,
    decreases text.len() - from,
{
    if from < text.len() && text[from] != '\n' {
        lemma_line_end_of_rest(text, skipped, from + 1);
    }
}

/// Lines do not depend on what stands before them.
proof fn lemma_lines_of_rest(text: Seq<char>, skipped: int, from: int)
    requires
        0 <= skipped <= from <= text.len(),
    ensures
        lines_from(text, from) == lines_from(text.skip(skipped), from - skipped),
    decreases text.len() - from,
{
    let rest = text.skip(skipped);
    if from < text.len() {
        lemma_line_end(text, from);
        lemma_line_end_of_rest(text, skipped, from);
        let end = line_end(text, from);
        if end < text.len() {
            lemma_lines_of_rest(text, skipped, end + 1);
            assert(text.subrange(from, end) =~= rest.subrange(from - skipped, end - skipped));
        } else {
            assert(text.subrange(from, text.len() as int) =~= rest.subrange(
                from - skipped,
                rest.len() as int,
            ));
        }
    }
}

/// A newline ends a line: the lines of a line, a newline and a rest are that line, without a
/// carriage return at its end, and the lines of the rest.
pub proof fn law_newline_ends_a_line(line: Seq<char>, rest: Seq<char>)
    requires
        !line.contains('\n'),
    ensures
        lines(line + seq!['\n'] + rest) == seq![without_return(line)] + lines(rest),
{
    let text = line + seq!['\n'] + rest;
    lemma_line_end(text, 0);
    let end = line_end(text, 0);
    assert(text[line.len() as int] == '\n');
    assert(text.subrange(0, end) =~= line);
    assert(text.skip(end + 1) =~= rest);
    lemma_lines_of_rest(text, end + 1, end + 1);
}

/// The last line need not be ended: a text without a newline is a line of its own, as it stands.
pub proof fn law_last_line_need_not_end(line: Seq<char>)
    requires
        !line.contains('\n'),
        line.len() > 0,
    ensures
        lines(line) == seq![line],
{
    lemma_line_end(line, 0);
    assert(line.subrange(0, line.len() as int) =~= line);
}

} // verus!
