//! Recognising the base of a literal from its prefix.
use vstd::prelude::*;

verus! {

/// The bases a literal can be written in.
#[derive(Clone, Copy, Debug, PartialEq, Eq, Structural)]
pub enum Base {
    Base2,
    Base8,
    Base10,
    Base16,
}

/// The radix of a base.
pub open spec fn radix(b: Base) -> int {
    match b {
        Base::Base2 => 2,
        Base::Base8 => 8,
        Base::Base10 => 10,
        Base::Base16 => 16,
    }
}

impl Base {
    /// The radix of this base.
    pub fn radix(self) -> (r: u32)
        ensures
            r as int == radix(self),
    {
        match self {
            Base::Base2 => 2,
            Base::Base8 => 8,
            Base::Base10 => 10,
            Base::Base16 => 16,
        }
    }
}

/// The base and the prefix that a literal was recognised by.
#[derive(Clone, Copy, Debug, PartialEq, Eq, Structural)]
pub struct NumberPattern {
    pub base: Base,
    /// The number of characters of the prefix.
    pub prefix_len: usize,
}

pub open spec fn is_ascii_digit(c: char) -> bool {
    '0' <= c && c <= '9'
}

/// The number of decimal digits in a row from index `i` of `w`.
pub open spec fn digit_run(w: Seq<char>, i: int) -> int
    decreases w.len() - i,
{
    if 0 <= i < w.len() && is_ascii_digit(w[i]) {
        1 + digit_run(w, i + 1)
    } else {
        0
    }
}

/// `w` starts with the two characters `a` and `b`.
pub open spec fn starts_with_pair(w: Seq<char>, a: char, b: char) -> bool {
    w.len() >= 2 && w[0] == a && w[1] == b
}

/// `w` starts with a run of decimal digits (possibly empty), a quote and `letter`.
pub open spec fn has_width_prefix(w: Seq<char>, letter: char) -> bool {
    let d = digit_run(w, 0);
    d + 1 < w.len() && w[d] == '\'' && w[d + 1] == letter
}

/// The length of a width prefix such as `16'h`.
pub open spec fn width_prefix_len(w: Seq<char>) -> int {
    digit_run(w, 0) + 2
}

/// The base and prefix length of the literal `w`: hexadecimal (`0x`, or a
/// width and `'h`), then decimal (a width and `'d`), octal (`0o`) and binary
/// (`0b`, or a width and `'b`), tried in this order; a literal that none of
/// them starts is decimal with no prefix.
pub open spec fn recognized(w: Seq<char>) -> (Base, int) {
    if starts_with_pair(w, '0', 'x') {
        (Base::Base16, 2)
    } else if has_width_prefix(w, 'h') {
        (Base::Base16, width_prefix_len(w))
    } else if has_width_prefix(w, 'd') {
        (Base::Base10, width_prefix_len(w))
    } else if starts_with_pair(w, '0', 'o') {
        (Base::Base8, 2)
    } else if starts_with_pair(w, '0', 'b') {
        (Base::Base2, 2)
    } else if has_width_prefix(w, 'b') {
        (Base::Base2, width_prefix_len(w))
    } else {
        (Base::Base10, 0)
    }
}

fn starts_with(w: &Vec<char>, a: char, b: char) -> (r: bool)
    ensures
        r == starts_with_pair(w@, a, b),
{
    w.len() >= 2 && w[0] == a && w[1] == b
}

/// Whether `w` starts with a width prefix ending in `letter`.
fn width_prefix(w: &Vec<char>, digits: usize, letter: char) -> (r: bool)
    requires
        digits == digit_run(w@, 0),
    ensures
        r == has_width_prefix(w@, letter),
{
    digits < w.len() && w.len() - digits > 1 && w[digits] == '\'' && w[digits + 1] == letter
}

/// Recognises the base and prefix of the literal `w`, as `recognized` describes.
pub fn recognize(w: &Vec<char>) -> (p: NumberPattern)
    ensures
        (p.base, p.prefix_len as int) == recognized(w@),
        p.prefix_len <= w@.len(),
{
    let mut d: usize = 0;
    while d < w.len() && '0' <= w[d] && w[d] <= '9'
        invariant
            d <= w.len(),
            digit_run(w@, 0) == d + digit_run(w@, d as int),
        decreases w.len() - d,
    {
        d += 1;
    }
    if starts_with(w, '0', 'x') {
        NumberPattern { base: Base::Base16, prefix_len: 2 }
    } else if width_prefix(w, d, 'h') {
        NumberPattern { base: Base::Base16, prefix_len: d + 2 }
    } else if width_prefix(w, d, 'd') {
        NumberPattern { base: Base::Base10, prefix_len: d + 2 }
    } else if starts_with(w, '0', 'o') {
        NumberPattern { base: Base::Base8, prefix_len: 2 }
    } else if starts_with(w, '0', 'b') {
        NumberPattern { base: Base::Base2, prefix_len: 2 }
    } else if width_prefix(w, d, 'b') {
        NumberPattern { base: Base::Base2, prefix_len: d + 2 }
    } else {
        NumberPattern { base: Base::Base10, prefix_len: 0 }
    }
}

} // verus!
