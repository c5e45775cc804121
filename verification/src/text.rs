//! Character-level operations on lines of text.
//!
//! A line is a `String`; its model is the sequence of its Unicode scalar
//! values. Every column in this crate is an index into that sequence, never a
//! byte offset, so no operation here can split an encoded character.

use vstd::prelude::*;
use vstd::string::*;

verus! {

broadcast use vstd::string::group_string_axioms;

/// Appends one character to a string.
///
/// Trusted: `String::push` of the standard library appends the given
/// character to the end of the string and changes nothing else.
#[verifier::external_body]
pub(crate) fn push_char(s: &mut String, c: char)
    ensures
        final(s)@ == old(s)@.push(c),
{
    s.push(c);
}

/// The characters of `s`, in order.
pub fn to_chars(s: &str) -> (chars: Vec<char>)
    ensures
        chars@ == s@,
{
    let n = s.unicode_len();
    let mut chars: Vec<char> = Vec::new();
    let mut i: usize = 0;
    while i < n
        invariant
            n == s@.len(),
            i <= n,
            chars@ == s@.subrange(0, i as int),
        decreases n - i,
    {
        let c = s.get_char(i);
        chars.push(c);
        i = i + 1;
        assert(chars@ =~= s@.subrange(0, i as int));
    }
    assert(s@.subrange(0, n as int) =~= s@);
    chars
}

/// `index` brought back to `len` where it is past it.
pub open spec fn at_most(index: int, len: int) -> int {
    if index <= len {
        index
    } else {
        len
    }
}

/// The characters `from..to` of `chars`; a bound past the end counts as the
/// end, and a start past the end of the range gives nothing.
pub open spec fn piece(chars: Seq<char>, from: int, to: int) -> Seq<char> {
    chars.subrange(at_most(from, at_most(to, chars.len() as int)), at_most(to, chars.len() as int))
}

/// The string made of `chars[from..to]`.
pub fn from_chars(chars: &Vec<char>, from: usize, to: usize) -> (s: String)
    ensures
        s@ == piece(chars@, from as int, to as int),
{
    let end = if to <= chars.len() {
        to
    } else {
        chars.len()
    };
    let start = if from <= end {
        from
    } else {
        end
    };
    let mut s = String::new();
    let mut i: usize = start;
    while i < end
        invariant
            start <= i <= end <= chars@.len(),
            s@ == chars@.subrange(start as int, i as int),
        decreases end - i,
    {
        push_char(&mut s, chars[i]);
        i = i + 1;
        assert(s@ =~= chars@.subrange(start as int, i as int));
    }
    s
}

/// The number of characters in `s`.
pub fn char_count(s: &str) -> (n: usize)
    ensures
        n == s@.len(),
{
    s.unicode_len()
}

/// `line` with `c` inserted before the character at column `col`, or at
/// the end where the line has no such column.
pub fn insert_char_at(line: &str, col: usize, c: char) -> (out: String)
    ensures
        out@ == line@.insert(at_most(col as int, line@.len() as int), c),
{
    let chars = to_chars(line);
    let n = chars.len();
    let at = if col <= n {
        col
    } else {
        n
    };
    let mut out = from_chars(&chars, 0, at);
    push_char(&mut out, c);
    let tail = from_chars(&chars, at, n);
    out.append(tail.as_str());
    assert(out@ =~= line@.insert(at as int, c));
    out
}

/// `line` without the character at column `col`; the line itself where it
/// has no such column.
pub fn remove_char_at(line: &str, col: usize) -> (out: String)
    ensures
        out@ == if col < line@.len() {
            line@.remove(col as int)
        } else {
            line@
        },
{
    let chars = to_chars(line);
    let n = chars.len();
    if col >= n {
        return String::from_str(line);
    }
    let mut out = from_chars(&chars, 0, col);
    let tail = from_chars(&chars, col + 1, n);
    out.append(tail.as_str());
    assert(out@ =~= line@.remove(col as int));
    out
}

/// The two halves of `line` around column `col`, or around its end where
/// the line has no such column.
pub fn split_line_at(line: &str, col: usize) -> (halves: (String, String))
    ensures
        halves.0@ == line@.subrange(0, at_most(col as int, line@.len() as int)),
        halves.1@ == line@.subrange(
            at_most(col as int, line@.len() as int),
            line@.len() as int,
        ),
{
    let chars = to_chars(line);
    let n = chars.len();
    let at = if col <= n {
        col
    } else {
        n
    };
    let head = from_chars(&chars, 0, at);
    let tail = from_chars(&chars, at, n);
    (head, tail)
}

/// `a` followed by `b`.
pub fn concat_lines(a: &str, b: &str) -> (out: String)
    ensures
        out@ == a@ + b@,
{
    let mut out = String::from_str(a);
    out.append(b);
    out
}

/// Whether `a` and `b` hold the same characters.
pub fn same_text(a: &str, b: &str) -> (same: bool)
    ensures
        same == (a@ == b@),
{
    let n = a.unicode_len();
    if b.unicode_len() != n {
        return false;
    }
    let mut i: usize = 0;
    while i < n
        invariant
            n == a@.len(),
            n == b@.len(),
            i <= n,
            a@.subrange(0, i as int) == b@.subrange(0, i as int),
        decreases n - i,
    {
        if a.get_char(i) != b.get_char(i) {
            return false;
        }
        i = i + 1;
        assert(a@.subrange(0, i as int) =~= b@.subrange(0, i as int)) by {
            assert(forall|j: int| 0 <= j < i - 1 ==> a@[j] == a@.subrange(0, i - 1)[j]);
            assert(forall|j: int| 0 <= j < i - 1 ==> b@[j] == b@.subrange(0, i - 1)[j]);
        }
    }
    assert(a@ =~= a@.subrange(0, n as int));
    assert(b@ =~= b@.subrange(0, n as int));
    true
}

/// The decimal digits of `n`.
pub open spec fn decimal(n: nat) -> Seq<char>
    decreases n,
{
    if n < 10 {
        seq![digit_char(n)]
    } else {
        decimal(n / 10).push(digit_char(n % 10))
    }
}

/// The character of the digit `d`.
pub open spec fn digit_char(d: nat) -> char {
    if d == 0 {
        '0'
    } else if d == 1 {
        '1'
    } else if d == 2 {
        '2'
    } else if d == 3 {
        '3'
    } else if d == 4 {
        '4'
    } else if d == 5 {
        '5'
    } else if d == 6 {
        '6'
    } else if d == 7 {
        '7'
    } else if d == 8 {
        '8'
    } else {
        '9'
    }
}

fn digit(d: usize) -> (c: char)
    requires
        d < 10,
    ensures
        c == digit_char(d as nat),
{
    if d == 0 {
        '0'
    } else if d == 1 {
        '1'
    } else if d == 2 {
        '2'
    } else if d == 3 {
        '3'
    } else if d == 4 {
        '4'
    } else if d == 5 {
        '5'
    } else if d == 6 {
        '6'
    } else if d == 7 {
        '7'
    } else if d == 8 {
        '8'
    } else {
        '9'
    }
}

/// Writes `n` in decimal digits.
pub fn format_decimal(n: usize) -> (s: String)
    ensures
        s@ == decimal(n as nat),
{
    let mut digits: Vec<char> = Vec::new();
    let mut left = n;
    while left >= 10
        invariant
            decimal(n as nat) == decimal(left as nat) + digits@,
        decreases left,
    {
        let ghost before = digits@;
        digits.insert(0, digit(left % 10));
        assert(decimal(left as nat) + before =~= decimal((left / 10) as nat) + digits@);
        left = left / 10;
    }
    let mut s = String::new();
    push_char(&mut s, digit(left));
    let mut i: usize = 0;
    let ghost head = s@;
    while i < digits.len()
        invariant
            i <= digits.len(),
            s@ == head + digits@.subrange(0, i as int),
        decreases digits.len() - i,
    {
        push_char(&mut s, digits[i]);
        i = i + 1;
        assert(s@ =~= head + digits@.subrange(0, i as int));
    }
    assert(digits@.subrange(0, i as int) =~= digits@);
    s
}

} // verus!
