//! The framing of messages on the streams of a language server: a header
//! line that announces the length of the body in bytes, an empty line, and
//! the body.

use vstd::prelude::*;
use vstd::string::*;

use crate::buffer::{blank, is_blank};
use crate::semantic_tokens::{lemma_utf8_size_is_encoded_len, utf8_size};
use crate::text::{decimal, format_decimal, to_chars};

verus! {

/// `body` behind the header that announces it.
pub open spec fn framed(body: Seq<char>) -> Seq<char> {
    "Content-Length: "@ + decimal(utf8_size(body) as nat) + "\r\n\r\n"@ + body
}

/// Puts the header that announces `body` in front of it.
pub fn frame(body: &str) -> (out: String)
    ensures
        out@ == framed(body@),
{
    proof {
        lemma_utf8_size_is_encoded_len(body@);
    }
    let mut out = String::from_str("Content-Length: ");
    let length = format_decimal(body.as_bytes().len());
    out.append(length.as_str());
    out.append("\r\n\r\n");
    out.append(body);
    out
}

/// Whether `text` begins with `prefix`.
pub open spec fn begins_with(text: Seq<char>, prefix: Seq<char>) -> bool {
    prefix.len() <= text.len() && text.subrange(0, prefix.len() as int) == prefix
}

/// The position of the first `c` in `text` at or behind `from`, or the
/// length of `text` where there is none.
pub open spec fn index_of(text: Seq<char>, c: char, from: int) -> int
    decreases text.len() - from,
{
    if from < 0 || from >= text.len() {
        text.len() as int
    } else if text[from] == c {
        from
    } else {
        index_of(text, c, from + 1)
    }
}

/// The first column of `text[from..to]` that is not white space, or `to`.
pub open spec fn skip_blanks(text: Seq<char>, from: int, to: int) -> int
    decreases to - from,
{
    if from < 0 || from >= to || to > text.len() || !is_blank(text[from]) {
        from
    } else {
        skip_blanks(text, from + 1, to)
    }
}

/// The column behind the last character of `text[from..to]` that is not
/// white space, or `from`.
pub open spec fn drop_blanks(text: Seq<char>, from: int, to: int) -> int
    decreases to - from,
{
    if from < 0 || from >= to || to > text.len() || !is_blank(text[to - 1]) {
        to
    } else {
        drop_blanks(text, from, to - 1)
    }
}

/// The value of a decimal digit.
pub open spec fn digit_value(c: char) -> Option<nat> {
    if '0' <= c <= '9' {
        Some((c as int - '0' as int) as nat)
    } else {
        None
    }
}

/// The number that the decimal digits `digits` denote; none where a
/// character is no digit. No digits denote 0.
pub open spec fn digits_value(digits: Seq<char>) -> Option<nat>
    decreases digits.len(),
{
    if digits.len() == 0 {
        Some(0)
    } else {
        match (digits_value(digits.drop_last()), digit_value(digits.last())) {
            (Some(front), Some(d)) => Some(front * 10 + d),
            _ => None,
        }
    }
}

/// The number that `text` denotes: decimal digits, at least one, behind an
/// optional plus sign; none where it is no such number or does not fit.
pub open spec fn number_of(text: Seq<char>) -> Option<usize> {
    let digits = if text.len() > 0 && text[0] == '+' {
        text.drop_first()
    } else {
        text
    };
    if digits.len() == 0 {
        None
    } else {
        match digits_value(digits) {
            Some(n) => if n <= usize::MAX {
                Some(n as usize)
            } else {
                None
            },
            None => None,
        }
    }
}

/// The length that the header line `header` announces: none where the line
/// does not begin with `Content-Length`; else the number between the first
/// colon and the next, white space around it left aside, or 0 where there
/// is no such number.
pub open spec fn announced(header: Seq<char>) -> Option<usize> {
    if !begins_with(header, "Content-Length"@) {
        None
    } else {
        let colon = index_of(header, ':', 0);
        if colon >= header.len() {
            Some(0)
        } else {
            let end = index_of(header, ':', colon + 1);
            let from = skip_blanks(header, colon + 1, end);
            let to = drop_blanks(header, from, end);
            match number_of(header.subrange(from, to)) {
                Some(n) => Some(n),
                None => Some(0),
            }
        }
    }
}

fn find(chars: &Vec<char>, c: char, from: usize) -> (at: usize)
    requires
        from <= chars@.len(),
    ensures
        at == index_of(chars@, c, from as int),
        from <= at <= chars@.len(),
{
    let mut at = from;
    while at < chars.len() && chars[at] != c
        invariant
            from <= at <= chars.len(),
            index_of(chars@, c, from as int) == index_of(chars@, c, at as int),
        decreases chars.len() - at,
    {
        at = at + 1;
    }
    at
}

/// Reads the number that `chars[from..to]` denotes.
fn read_number(chars: &Vec<char>, from: usize, to: usize) -> (n: Option<usize>)
    requires
        from <= to <= chars@.len(),
    ensures
        n == number_of(chars@.subrange(from as int, to as int)),
{
    let ghost text = chars@.subrange(from as int, to as int);
    let start = if from < to && chars[from] == '+' {
        from + 1
    } else {
        from
    };
    let ghost digits = chars@.subrange(start as int, to as int);
    proof {
        if from < to {
            assert(text[0] == chars@[from as int]);
            assert(text.drop_first() =~= chars@.subrange(from + 1, to as int));
        }
        assert(digits.subrange(0, 0) =~= Seq::<char>::empty());
    }
    if start == to {
        return None;
    }
    let mut value: usize = 0;
    let mut i: usize = start;
    while i < to
        invariant
            start <= i <= to <= chars@.len(),
            start < to,
            from <= start,
            text == chars@.subrange(from as int, to as int),
            digits == chars@.subrange(start as int, to as int),
            number_of(text) == match digits_value(digits) {
                Some(n) => if n <= usize::MAX {
                    Some(n as usize)
                } else {
                    None
                },
                None => None,
            },
            digits_value(digits.subrange(0, i - start)) == Some(value as nat),
        decreases to - i,
    {
        let ghost done = digits.subrange(0, i - start);
        let ghost next = digits.subrange(0, i + 1 - start);
        proof {
            assert(next.drop_last() =~= done);
            assert(next.last() == chars@[i as int]);
        }
        let c = chars[i];
        if !('0' <= c && c <= '9') {
            proof {
                assert(digits_value(next) is None);
                lemma_digits_value_prefix(digits, i + 1 - start);
            }
            return None;
        }
        let d = (c as u32 - '0' as u32) as usize;
        if value > (usize::MAX - d) / 10 {
            proof {
                assert(digits_value(next) == Some((value * 10 + d) as nat));
                assert(value * 10 + d > usize::MAX);
                lemma_digits_value_grows(digits, i + 1 - start);
            }
            return None;
        }
        value = value * 10 + d;
        i = i + 1;
    }
    assert(digits.subrange(0, to - start) =~= digits);
    Some(value)
}

/// Digits of which a front part is no number are no number.
pub proof fn lemma_digits_value_prefix(digits: Seq<char>, len: int)
    requires
        0 <= len <= digits.len(),
        digits_value(digits.subrange(0, len)) is None,
    ensures
        digits_value(digits) is None,
    decreases digits.len() - len,
{
    if len < digits.len() {
        let next = digits.subrange(0, len + 1);
        assert(next.drop_last() =~= digits.subrange(0, len));
        lemma_digits_value_prefix(digits, len + 1);
    } else {
        assert(digits.subrange(0, len) =~= digits);
    }
}

/// A number is at least as large as the number of a front part of its
/// digits.
pub proof fn lemma_digits_value_grows(digits: Seq<char>, len: int)
    requires
        0 <= len <= digits.len(),
    ensures
        match (digits_value(digits), digits_value(digits.subrange(0, len))) {
            (Some(whole), Some(front)) => front <= whole,
            (Some(_), None) => false,
            _ => true,
        },
    decreases digits.len() - len,
{
    if len < digits.len() {
        let next = digits.subrange(0, len + 1);
        assert(next.drop_last() =~= digits.subrange(0, len));
        lemma_digits_value_grows(digits, len + 1);
    } else {
        assert(digits.subrange(0, len) =~= digits);
    }
}

/// Reads the length that a header line announces.
pub fn content_length(header: &str) -> (length: Option<usize>)
    ensures
        length == announced(header@),
{
    let chars = to_chars(header);
    let name = to_chars("Content-Length");
    let n = chars.len();
    if n < name.len() {
        return None;
    }
    let mut i: usize = 0;
    while i < name.len()
        invariant
            i <= name.len() <= n,
            n == chars@.len(),
            chars@ == header@,
            name@ == "Content-Length"@,
            chars@.subrange(0, i as int) == name@.subrange(0, i as int),
        decreases name.len() - i,
    {
        if chars[i] != name[i] {
            proof {
                let whole = chars@.subrange(0, name.len() as int);
                assert(whole[i as int] == chars@[i as int]);
                assert(whole != name@);
            }
            return None;
        }
        i = i + 1;
        assert(chars@.subrange(0, i as int) =~= name@.subrange(0, i as int)) by {
            assert(forall|j: int|
                0 <= j < i - 1 ==> chars@[j] == chars@.subrange(0, i - 1)[j]);
            assert(forall|j: int| 0 <= j < i - 1 ==> name@[j] == name@.subrange(0, i - 1)[j]);
        }
    }
    assert(name@.subrange(0, i as int) =~= name@);
    let colon = find(&chars, ':', 0);
    if colon >= n {
        return Some(0);
    }
    let end = find(&chars, ':', colon + 1);
    let mut from = colon + 1;
    while from < end && blank(chars[from])
        invariant
            colon + 1 <= from <= end <= n,
            n == chars@.len(),
            skip_blanks(chars@, colon + 1, end as int) == skip_blanks(
                chars@,
                from as int,
                end as int,
            ),
        decreases end - from,
    {
        from = from + 1;
    }
    let mut to = end;
    while from < to && blank(chars[to - 1])
        invariant
            from <= to <= end <= n,
            n == chars@.len(),
            drop_blanks(chars@, from as int, end as int) == drop_blanks(
                chars@,
                from as int,
                to as int,
            ),
        decreases to - from,
    {
        to = to - 1;
    }
    match read_number(&chars, from, to) {
        Some(length) => Some(length),
        None => Some(0),
    }
}

} // verus!
