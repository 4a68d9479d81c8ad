//! Scanning of text by characters: white space, runs, and decimal numbers.

use vstd::prelude::*;
use vstd::std_specs::iter::IteratorSpec;

verus! {

/// The characters of a text, in order.
pub fn text_chars(text: &str) -> (chars: Vec<char>)
    ensures
        chars@ == text@,
{
    let mut chars: Vec<char> = Vec::new();
    let mut rest = text.chars();
    loop
        invariant
            rest.obeys_prophetic_iter_laws(),
            rest.decrease() is Some,
            chars@ + rest.remaining() == text@,
        ensures
            chars@ == text@,
        decreases rest.decrease()->0,
    {
        let ghost before = rest.remaining();
        match rest.next() {
            Some(c) => {
                chars.push(c);
                proof {
                    assert(chars@ + rest.remaining() == (chars@.drop_last() + before));
                }
            },
            None => {
                proof {
                    assert(before.len() == 0);
                    assert(chars@ + before == chars@);
                }
                break ;
            },
        }
    }
    chars
}

/// Unicode white space, the characters at which a line falls into words.
pub open spec fn is_space(c: char) -> bool {
    let u = c as u32;
    ||| 0x09 <= u <= 0x0D
    ||| u == 0x20
    ||| u == 0x85
    ||| u == 0xA0
    ||| u == 0x1680
    ||| 0x2000 <= u <= 0x200A
    ||| u == 0x2028
    ||| u == 0x2029
    ||| u == 0x202F
    ||| u == 0x205F
    ||| u == 0x3000
}

/// A decimal digit, `0` to `9`.
pub open spec fn is_digit(c: char) -> bool {
    0x30 <= c as u32 <= 0x39
}

/// What ends a run of characters.
#[derive(Debug, Clone, Copy, PartialEq, Eq, Structural)]
pub enum Stop {
    /// A line feed.
    Newline,
    /// A white-space character.
    Space,
    /// A colon.
    Colon,
    /// Anything but a decimal digit.
    NonDigit,
}

/// Whether a character ends a run of this kind.
pub open spec fn stops(kind: Stop, c: char) -> bool {
    match kind {
        Stop::Newline => c as u32 == 0x0A,
        Stop::Space => is_space(c),
        Stop::Colon => c as u32 == 0x3A,
        Stop::NonDigit => !is_digit(c),
    }
}

/// The first position from `i` on whose character ends the run; the length
/// of the text where none does.
pub open spec fn run_end(s: Seq<char>, i: int, kind: Stop) -> int
    decreases s.len() - i,
{
    if 0 <= i < s.len() && !stops(kind, s[i]) {
        run_end(s, i + 1, kind)
    } else {
        i
    }
}

/// The number that a run of decimal digits denotes.
pub open spec fn decimal(digits: Seq<char>) -> nat
    decreases digits.len(),
{
    if digits.len() == 0 {
        0
    } else {
        decimal(digits.drop_last()) * 10 + (digits.last() as u32 - 0x30) as nat
    }
}

/// A run ends at or behind its start, within the text, at a character that
/// ends it, and holds none that does.
pub(crate) proof fn lemma_run_end(s: Seq<char>, i: int, kind: Stop)
    requires
        0 <= i <= s.len(),
    ensures
        i <= run_end(s, i, kind) <= s.len(),
        run_end(s, i, kind) < s.len() ==> stops(kind, s[run_end(s, i, kind)]),
        forall|k: int| i <= k < run_end(s, i, kind) ==> !stops(kind, #[trigger] s[k]),
    decreases s.len() - i,
{
    if i < s.len() && !stops(kind, s[i]) {
        lemma_run_end(s, i + 1, kind);
    }
}

/// Whether a character is white space.
pub fn is_space_char(c: char) -> (r: bool)
    ensures
        r == is_space(c),
{
    let u = c as u32;
    (0x09 <= u && u <= 0x0D) || u == 0x20 || u == 0x85 || u == 0xA0 || u == 0x1680 || (0x2000 <= u
        && u <= 0x200A) || u == 0x2028 || u == 0x2029 || u == 0x202F || u == 0x205F || u == 0x3000
}

/// Whether a character ends a run of this kind.
pub fn stops_at(kind: Stop, c: char) -> (r: bool)
    ensures
        r == stops(kind, c),
{
    let u = c as u32;
    match kind {
        Stop::Newline => u == 0x0A,
        Stop::Space => is_space_char(c),
        Stop::Colon => u == 0x3A,
        Stop::NonDigit => !(0x30 <= u && u <= 0x39),
    }
}

/// The end of the run that starts at `from`.
pub fn scan(chars: &Vec<char>, from: usize, kind: Stop) -> (to: usize)
    requires
        from <= chars.len(),
    ensures
        to == run_end(chars@, from as int, kind),
        from <= to <= chars.len(),
{
    let mut i: usize = from;
    while i < chars.len() && !stops_at(kind, chars[i])
        invariant
            from <= i <= chars.len(),
            run_end(chars@, i as int, kind) == run_end(chars@, from as int, kind),
        decreases chars.len() - i,
    {
        i += 1;
    }
    i
}

/// The characters from `from` up to `to`.
pub fn slice_chars(chars: &Vec<char>, from: usize, to: usize) -> (part: Vec<char>)
    requires
        from <= to <= chars.len(),
    ensures
        part@ == chars@.subrange(from as int, to as int),
{
    let mut part: Vec<char> = Vec::new();
    let mut i: usize = from;
    while i < to
        invariant
            from <= i <= to <= chars.len(),
            part@ == chars@.subrange(from as int, i as int),
        decreases to - i,
    {
        part.push(chars[i]);
        proof {
            assert(part@ == chars@.subrange(from as int, i + 1));
        }
        i += 1;
    }
    part
}

/// Reads a run of decimal digits as a 16-bit number: `None` for an empty
/// run and for a number beyond 65535.
pub fn decimal_value(digits: &Vec<char>) -> (value: Option<u16>)
    requires
        forall|k: int| 0 <= k < digits@.len() ==> is_digit(#[trigger] digits@[k]),
    ensures
        value == (if digits@.len() > 0 && decimal(digits@) <= u16::MAX {
            Some(decimal(digits@) as u16)
        } else {
            None
        }),
{
    if digits.len() == 0 {
        return None;
    }
    let mut acc: u32 = 0;
    let mut i: usize = 0;
    while i < digits.len()
        invariant
            i <= digits.len(),
            acc <= u16::MAX,
            acc == decimal(digits@.take(i as int)),
            forall|k: int| 0 <= k < digits@.len() ==> is_digit(#[trigger] digits@[k]),
        decreases digits.len() - i,
    {
        let d = digits[i] as u32 - 0x30;
        let next = acc * 10 + d;
        proof {
            assert(digits@.take(i + 1).drop_last() == digits@.take(i as int));
            assert(decimal(digits@.take(i + 1)) == next);
        }
        if next > 0xFFFF {
            proof {
                lemma_decimal_grows(digits@, i + 1);
            }
            return None;
        }
        acc = next;
        i += 1;
    }
    proof {
        assert(digits@.take(i as int) == digits@);
    }
    Some(acc as u16)
}

/// More digits never make the number smaller.
proof fn lemma_decimal_grows(digits: Seq<char>, k: int)
    requires
        0 <= k <= digits.len(),
        forall|j: int| 0 <= j < digits.len() ==> is_digit(#[trigger] digits[j]),
    ensures
        decimal(digits.take(k)) <= decimal(digits),
    decreases digits.len() - k,
{
    if k < digits.len() {
        lemma_decimal_grows(digits, k + 1);
        assert(digits.take(k + 1).drop_last() == digits.take(k));
        assert(decimal(digits.take(k)) <= decimal(digits.take(k + 1))) by (nonlinear_arith)
            requires
                decimal(digits.take(k + 1)) == decimal(digits.take(k)) * 10 + (digits.take(
                    k + 1,
                ).last() as u32 - 0x30) as nat,
        ;
    } else {
        assert(digits.take(k) == digits);
    }
}

} // verus!
