//! Adding a signed amount to an integer literal written in text.
use vstd::prelude::*;
use crate::digits::{
    digits_of, padded, parse_digits, parsed_signed, parsed_unsigned, render_digits, pad_zeros,
};
use crate::pattern::{recognize, recognized, radix, Base};
use crate::separators::{
    extend_separators, extended, find_first_separator, find_separator_offsets,
    first_separator_from, group_spacing, restore_separators, restored, separator_offsets,
    strip_separators, stripped, SEPARATOR,
};
use crate::text::{chars_of, push_all, string_of, tail_from};

verus! {

/// `x` held between `lo` and `hi`.
pub open spec fn clamp(x: int, lo: int, hi: int) -> int {
    if x < lo {
        lo
    } else if x > hi {
        hi
    } else {
        x
    }
}

/// The number of ASCII capital letters among the first `n` characters of `s`.
pub open spec fn count_upper(s: Seq<char>, n: int) -> int
    decreases n,
{
    if n <= 0 {
        0
    } else {
        count_upper(s, n - 1) + if 'A' <= s[n - 1] && s[n - 1] <= 'Z' {
            1int
        } else {
            0
        }
    }
}

/// The number of ASCII small letters among the first `n` characters of `s`.
pub open spec fn count_lower(s: Seq<char>, n: int) -> int
    decreases n,
{
    if n <= 0 {
        0
    } else {
        count_lower(s, n - 1) + if 'a' <= s[n - 1] && s[n - 1] <= 'z' {
            1int
        } else {
            0
        }
    }
}

/// Digits are written in capitals when the literal has more capital letters
/// than small ones.
pub open spec fn prefers_upper(number: Seq<char>) -> bool {
    count_upper(number, number.len() as int) > count_lower(number, number.len() as int)
}

/// A decimal literal keeps its width when it starts with `0` or `-0`.
pub open spec fn zero_led(number: Seq<char>) -> bool {
    (number.len() >= 1 && number[0] == '0') || (number.len() >= 2 && number[0] == '-'
        && number[1] == '0')
}

/// The value that the digits after the prefix write in `base`.
pub open spec fn parsed(base: Base, number: Seq<char>) -> Option<int> {
    if base == Base::Base10 {
        parsed_signed(number)
    } else {
        parsed_unsigned(number, radix(base))
    }
}

/// The sum of `v` and `amount`, held to the signed 128-bit range in decimal,
/// and to the unsigned one in the other bases.
pub open spec fn new_value(base: Base, v: int, amount: int) -> int {
    if base == Base::Base10 {
        clamp(v + amount, i128::MIN as int, i128::MAX as int)
    } else {
        clamp(v + amount, 0, u128::MAX as int)
    }
}

/// The width a zero-led decimal literal is padded to: its length, one less
/// when the sign went away, one more when it came, less the separators.
pub open spec fn decimal_width(number: Seq<char>, old_value: int, value: int, separators: int) -> int {
    number.len() + (if old_value < 0 && value >= 0 {
        -1int
    } else if old_value >= 0 && value < 0 {
        1int
    } else {
        0
    }) - separators
}

/// `v` in decimal; padded with zeros after the sign to `width` characters
/// when `pad` holds.
pub open spec fn decimal_text(v: int, width: int, pad: bool) -> Seq<char> {
    let digits = digits_of((if v < 0 {
        -v
    } else {
        v
    }) as nat, 10, false);
    if v < 0 {
        seq!['-'] + if pad {
            padded(digits, width - 1)
        } else {
            digits
        }
    } else if pad {
        padded(digits, width)
    } else {
        digits
    }
}

/// The digits written for the new value `v` of a literal whose digits after
/// the prefix were `number` and whose value was `old_value`.
pub open spec fn body_text(
    base: Base,
    number: Seq<char>,
    old_value: int,
    v: int,
    separators: int,
) -> Seq<char> {
    if base == Base::Base10 {
        decimal_text(v, decimal_width(number, old_value, v, separators), zero_led(number))
    } else {
        padded(
            digits_of(v as nat, radix(base) as nat, base == Base::Base16 && prefers_upper(number)),
            number.len() as int,
        )
    }
}

/// The separators of `t` put back into `s`, and more of them at the same
/// spacing when the text grew.
pub open spec fn regrouped(t: Seq<char>, s: Seq<char>, plen: int) -> Seq<char> {
    let offs = separator_offsets(t);
    let r = restored(s, offs);
    if r.len() > t.len() && offs.len() > 0 && first_separator_from(r, 0) >= 0 {
        extended(r, first_separator_from(r, 0), group_spacing(offs), plen)
    } else {
        r
    }
}

/// The text that `t` becomes when `amount` is added to the literal it
/// writes, or `None` when `t` writes no literal: it is empty, starts or ends
/// with a separator, or its digits do not fit its base.
pub open spec fn incremented(t: Seq<char>, amount: int) -> Option<Seq<char>> {
    if t.len() == 0 || t[0] == SEPARATOR || t.last() == SEPARATOR {
        None
    } else {
        let w = stripped(t);
        let base = recognized(w).0;
        let plen = recognized(w).1;
        let number = w.skip(plen);
        match parsed(base, number) {
            None => None,
            Some(v) => {
                let nv = new_value(base, v, amount);
                let body = body_text(base, number, v, nv, separator_offsets(t).len() as int);
                Some(regrouped(t, w.take(plen) + body, plen))
            },
        }
    }
}

/// Incrementing depends on the text and the amount alone: the same text and
/// amount always give the same result.
pub proof fn lemma_increment_deterministic(t1: Seq<char>, amount1: int, t2: Seq<char>, amount2: int)
    requires
        t1 == t2,
        amount1 == amount2,
    ensures
        incremented(t1, amount1) == incremented(t2, amount2),
{
}

/// Adding never wraps: a decimal value stays within the signed 128-bit
/// range, and a value in base 2, 8 or 16 within the unsigned one, so it is
/// never negative.
pub proof fn lemma_sum_saturates(base: Base, v: int, amount: int)
    ensures
        base == Base::Base10 ==> i128::MIN <= new_value(base, v, amount) <= i128::MAX,
        base != Base::Base10 ==> 0 <= new_value(base, v, amount) <= u128::MAX,
        base == Base::Base10 && i128::MIN <= v + amount <= i128::MAX ==> new_value(base, v, amount)
            == v + amount,
        base != Base::Base10 && 0 <= v + amount <= u128::MAX ==> new_value(base, v, amount) == v
            + amount,
{
}

fn count_cases(s: &Vec<char>) -> (r: (usize, usize))
    ensures
        r.0 as int == count_lower(s@, s@.len() as int),
        r.1 as int == count_upper(s@, s@.len() as int),
{
    let mut lower: usize = 0;
    let mut upper: usize = 0;
    let mut i: usize = 0;
    while i < s.len()
        invariant
            i <= s.len(),
            lower as int == count_lower(s@, i as int),
            upper as int == count_upper(s@, i as int),
            lower <= i,
            upper <= i,
        decreases s.len() - i,
    {
        if 'a' <= s[i] && s[i] <= 'z' {
            lower += 1;
        }
        if 'A' <= s[i] && s[i] <= 'Z' {
            upper += 1;
        }
        i += 1;
    }
    (lower, upper)
}

fn parse_signed(number: &Vec<char>) -> (r: Option<i128>)
    ensures
        match r {
            Some(v) => parsed_signed(number@) == Some(v as int),
            None => parsed_signed(number@) is None,
        },
{
    if number.len() > 0 && number[0] == '-' {
        match parse_digits(number, 1, 10, 0x8000_0000_0000_0000_0000_0000_0000_0000) {
            Some(m) => {
                if m == 0x8000_0000_0000_0000_0000_0000_0000_0000 {
                    Some(i128::MIN)
                } else {
                    Some(-(m as i128))
                }
            },
            None => None,
        }
    } else {
        let lo: usize = if number.len() > 0 && number[0] == '+' {
            1
        } else {
            0
        };
        match parse_digits(number, lo, 10, i128::MAX as u128) {
            Some(m) => Some(m as i128),
            None => None,
        }
    }
}

fn parse_unsigned(number: &Vec<char>, base: u32) -> (r: Option<u128>)
    requires
        2 <= base <= 16,
    ensures
        match r {
            Some(v) => parsed_unsigned(number@, base as int) == Some(v as int),
            None => parsed_unsigned(number@, base as int) is None,
        },
{
    parse_digits(number, 0, base, u128::MAX)
}

fn add_signed(v: i128, amount: i64) -> (r: i128)
    ensures
        r as int == clamp(v + amount, i128::MIN as int, i128::MAX as int),
{
    let a = amount as i128;
    if a >= 0 {
        if v > i128::MAX - a {
            i128::MAX
        } else {
            v + a
        }
    } else if v < i128::MIN - a {
        i128::MIN
    } else {
        v + a
    }
}

fn add_unsigned(v: u128, amount: i64) -> (r: u128)
    ensures
        r as int == clamp(v + amount, 0, u128::MAX as int),
{
    if amount >= 0 {
        let a = amount as u128;
        if v > u128::MAX - a {
            u128::MAX
        } else {
            v + a
        }
    } else {
        let a = (-(amount as i128)) as u128;
        if v < a {
            0
        } else {
            v - a
        }
    }
}

fn magnitude(v: i128) -> (r: u128)
    ensures
        r as int == if v < 0 {
            -v
        } else {
            v as int
        },
{
    if v < 0 {
        (-(v + 1)) as u128 + 1
    } else {
        v as u128
    }
}

fn decimal_body(number: &Vec<char>, old_value: i128, v: i128, separators: usize) -> (r: Vec<char>)
    ensures
        r@ == body_text(Base::Base10, number@, old_value as int, v as int, separators as int),
{
    let digits = render_digits(magnitude(v), 10, false);
    let adjusted: i128 = if old_value < 0 && v >= 0 {
        number.len() as i128 - 1
    } else if old_value >= 0 && v < 0 {
        number.len() as i128 + 1
    } else {
        number.len() as i128
    } - separators as i128;
    let pad = (number.len() >= 1 && number[0] == '0') || (number.len() >= 2 && number[0] == '-'
        && number[1] == '0');
    let ghost width = decimal_width(number@, old_value as int, v as int, separators as int);
    assert(adjusted == width);
    if v < 0 {
        let mut r: Vec<char> = vec!['-'];
        if pad {
            let fill: usize = if adjusted < 1 {
                0
            } else {
                (adjusted - 1) as usize
            };
            let p = pad_zeros(&digits, fill);
            assert(p@ == padded(digits@, width - 1));
            push_all(&mut r, &p);
        } else {
            push_all(&mut r, &digits);
        }
        r
    } else if pad {
        let fill: usize = if adjusted < 0 {
            0
        } else {
            adjusted as usize
        };
        pad_zeros(&digits, fill)
    } else {
        digits
    }
}

/// Adds `amount` to the integer literal `selected_text`, keeping its base,
/// prefix, digit case, width and separators; `None` when the text is no
/// literal. All arithmetic saturates; literals in bases 2, 8 and 16 do not
/// go below zero.
pub fn increment(selected_text: &str, amount: i64) -> (r: Option<String>)
    ensures
        match r {
            Some(s) => incremented(selected_text@, amount as int) == Some(s@),
            None => incremented(selected_text@, amount as int) is None,
        },
{
    let t = chars_of(selected_text);
    if t.len() == 0 || t[0] == SEPARATOR || t[t.len() - 1] == SEPARATOR {
        return None;
    }
    let offs = find_separator_offsets(&t);
    let w = strip_separators(&t);
    let pattern = recognize(&w);
    let plen = pattern.prefix_len;
    let number = tail_from(&w, plen);
    let mut s: Vec<char> = Vec::new();
    let mut i: usize = 0;
    while i < plen
        invariant
            i <= plen <= w@.len(),
            s@ == w@.take(i as int),
        decreases plen - i,
    {
        s.push(w[i]);
        i += 1;
        assert(s@ =~= w@.take(i as int));
    }
    let body = if pattern.base == Base::Base10 {
        match parse_signed(&number) {
            None => return None,
            Some(v) => {
                let nv = add_signed(v, amount);
                decimal_body(&number, v, nv, offs.len())
            },
        }
    } else {
        let radix = pattern.base.radix();
        match parse_unsigned(&number, radix) {
            None => return None,
            Some(v) => {
                let nv = add_unsigned(v, amount);
                let (lower, upper) = count_cases(&number);
                let digits = render_digits(nv, radix, pattern.base == Base::Base16 && upper > lower);
                pad_zeros(&digits, number.len())
            },
        }
    };
    push_all(&mut s, &body);
    restore_separators(&mut s, &offs);
    if s.len() > t.len() && offs.len() > 0 {
        let spacing: usize = if offs.len() >= 2 {
            offs[offs.len() - 1] - offs[offs.len() - 2] - 1
        } else {
            offs[0]
        };
        match find_first_separator(&s) {
            Some(index) => {
                extend_separators(&mut s, index, spacing, plen);
            },
            None => {},
        }
    }
    Some(string_of(&s))
}

} // verus!
