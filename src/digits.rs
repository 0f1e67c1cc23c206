//! Reading and writing digit strings in bases 2 to 16.
use vstd::prelude::*;

verus! {

broadcast use vstd::arithmetic::div_mod::lemma_div_decreases;

/// What a digit character stands for; 36 for a character that is no digit in
/// any base up to 36.
pub open spec fn digit_value(c: char) -> int {
    if '0' <= c && c <= '9' {
        c as int - '0' as int
    } else if 'a' <= c && c <= 'z' {
        c as int - 'a' as int + 10
    } else if 'A' <= c && c <= 'Z' {
        c as int - 'A' as int + 10
    } else {
        36
    }
}

/// Every character of `s[lo..hi]` is a digit of `base`.
pub open spec fn all_digits(s: Seq<char>, lo: int, hi: int, base: int) -> bool {
    forall|k: int| lo <= k < hi ==> digit_value(#[trigger] s[k]) < base
}

/// The number that the digits `s[lo..hi]` write in `base`, most significant first.
pub open spec fn value_of(s: Seq<char>, lo: int, hi: int, base: int) -> int
    decreases hi - lo,
{
    if hi <= lo {
        0
    } else {
        value_of(s, lo, hi - 1, base) * base + digit_value(s[hi - 1])
    }
}

/// The number that the digits `s[lo..]` write in `base`, if there is at least
/// one digit, all are digits of `base`, and the number is at most `limit`.
pub open spec fn digits_number(s: Seq<char>, lo: int, base: int, limit: int) -> Option<int> {
    if lo < s.len() && all_digits(s, lo, s.len() as int, base) && value_of(
        s,
        lo,
        s.len() as int,
        base,
    ) <= limit {
        Some(value_of(s, lo, s.len() as int, base))
    } else {
        None
    }
}

/// An unsigned 128-bit number written in `base`: digits of `base` alone, no sign.
pub open spec fn parsed_unsigned(s: Seq<char>, base: int) -> Option<int> {
    digits_number(s, 0, base, u128::MAX as int)
}

/// A signed 128-bit number written in decimal with an optional leading `+` or `-`.
pub open spec fn parsed_signed(s: Seq<char>) -> Option<int> {
    if s.len() > 0 && s[0] == '-' {
        match digits_number(s, 1, 10, -(i128::MIN as int)) {
            Some(v) => Some(-v),
            None => None,
        }
    } else {
        let lo = if s.len() > 0 && s[0] == '+' {
            1int
        } else {
            0
        };
        digits_number(s, lo, 10, i128::MAX as int)
    }
}

/// The character for digit `d` (below 16), in upper or lower case.
pub open spec fn digit_char(d: int, upper: bool) -> char {
    if upper {
        seq!['0', '1', '2', '3', '4', '5', '6', '7', '8', '9', 'A', 'B', 'C', 'D', 'E', 'F'][d]
    } else {
        seq!['0', '1', '2', '3', '4', '5', '6', '7', '8', '9', 'a', 'b', 'c', 'd', 'e', 'f'][d]
    }
}

/// `v` written in `base` with no leading zeros ("0" for zero).
pub open spec fn digits_of(v: nat, base: nat, upper: bool) -> Seq<char>
    decreases v,
{
    if base < 2 || v < base {
        seq![digit_char(v as int, upper)]
    } else {
        digits_of(v / base, base, upper).push(digit_char((v % base) as int, upper))
    }
}

/// `s` with zeros before it, up to `width` characters.
pub open spec fn padded(s: Seq<char>, width: int) -> Seq<char> {
    if width > s.len() {
        Seq::new((width - s.len()) as nat, |k: int| '0') + s
    } else {
        s
    }
}

proof fn lemma_value_grows(s: Seq<char>, lo: int, k: int, hi: int, base: int)
    requires
        0 <= lo <= k <= hi <= s.len(),
        base >= 1,
        all_digits(s, lo, hi, base),
    ensures
        0 <= value_of(s, lo, k, base) <= value_of(s, lo, hi, base),
    decreases hi - lo,
{
    if lo < hi {
        let j = if k < hi {
            k
        } else {
            hi - 1
        };
        lemma_value_grows(s, lo, j, hi - 1, base);
        let v = value_of(s, lo, hi - 1, base);
        assert(0 <= digit_value(s[hi - 1]));
        assert(v * base >= v) by (nonlinear_arith)
            requires
                v >= 0,
                base >= 1,
        ;
    }
}

/// The value of digit character `c`, as `digit_value` gives it.
pub fn char_digit(c: char) -> (r: u32)
    ensures
        r as int == digit_value(c),
{
    if '0' <= c && c <= '9' {
        (c as u32) - ('0' as u32)
    } else if 'a' <= c && c <= 'z' {
        (c as u32) - ('a' as u32) + 10
    } else if 'A' <= c && c <= 'Z' {
        (c as u32) - ('A' as u32) + 10
    } else {
        36
    }
}

/// Reads the digits `s[lo..]` in `base`, as `digits_number` describes.
pub fn parse_digits(s: &Vec<char>, lo: usize, base: u32, limit: u128) -> (r: Option<u128>)
    requires
        2 <= base <= 16,
    ensures
        match r {
            Some(v) => digits_number(s@, lo as int, base as int, limit as int) == Some(v as int),
            None => digits_number(s@, lo as int, base as int, limit as int) is None,
        },
{
    if lo >= s.len() {
        return None;
    }
    let b = base as u128;
    let mut acc: u128 = 0;
    let mut i: usize = lo;
    while i < s.len()
        invariant
            lo <= i <= s.len(),
            b == base,
            2 <= base <= 16,
            acc as int == value_of(s@, lo as int, i as int, base as int),
            all_digits(s@, lo as int, i as int, base as int),
            acc <= limit,
        decreases s.len() - i,
    {
        let d = char_digit(s[i]);
        if d >= base {
            assert(!all_digits(s@, lo as int, s.len() as int, base as int));
            return None;
        }
        let d = d as u128;
        if d > limit {
            proof {
                assert(all_digits(s@, lo as int, i as int + 1, base as int));
                if all_digits(s@, lo as int, s.len() as int, base as int) {
                    lemma_value_grows(s@, lo as int, i as int + 1, s.len() as int, base as int);
                }
            }
            return None;
        }
        let q = (limit - d) / b;
        if acc > q {
            proof {
                assert(acc * b + d > limit) by (nonlinear_arith)
                    requires
                        acc > q,
                        q == (limit - d) / b as int,
                        b >= 2,
                        d <= limit,
                ;
                assert(all_digits(s@, lo as int, i as int + 1, base as int));
                if all_digits(s@, lo as int, s.len() as int, base as int) {
                    lemma_value_grows(s@, lo as int, i as int + 1, s.len() as int, base as int);
                }
            }
            return None;
        }
        proof {
            assert(acc * b + d <= limit) by (nonlinear_arith)
                requires
                    acc <= q,
                    q == (limit - d) / b as int,
                    b >= 2,
                    d <= limit,
            ;
        }
        acc = acc * b + d;
        assert(all_digits(s@, lo as int, i as int + 1, base as int));
        i += 1;
    }
    Some(acc)
}

/// The character for digit `d`, as `digit_char` gives it.
pub fn digit_to_char(d: u128, upper: bool) -> (c: char)
    requires
        d < 16,
    ensures
        c == digit_char(d as int, upper),
{
    let lower = ['0', '1', '2', '3', '4', '5', '6', '7', '8', '9', 'a', 'b', 'c', 'd', 'e', 'f'];
    let capital = ['0', '1', '2', '3', '4', '5', '6', '7', '8', '9', 'A', 'B', 'C', 'D', 'E', 'F'];
    let c = if upper {
        capital[d as usize]
    } else {
        lower[d as usize]
    };
    assert(lower@ =~= seq!['0', '1', '2', '3', '4', '5', '6', '7', '8', '9', 'a', 'b', 'c', 'd', 'e', 'f']);
    assert(capital@ =~= seq!['0', '1', '2', '3', '4', '5', '6', '7', '8', '9', 'A', 'B', 'C', 'D', 'E', 'F']);
    c
}

/// `v` written in `base`, as `digits_of` gives it.
pub fn render_digits(v: u128, base: u32, upper: bool) -> (r: Vec<char>)
    requires
        2 <= base <= 16,
    ensures
        r@ == digits_of(v as nat, base as nat, upper),
{
    let b = base as u128;
    let mut acc: Vec<char> = Vec::new();
    let mut x = v;
    loop
        invariant
            b == base,
            2 <= base <= 16,
            digits_of(v as nat, base as nat, upper) == digits_of(x as nat, base as nat, upper)
                + acc@,
        decreases x,
    {
        let c = digit_to_char(x % b, upper);
        acc.insert(0, c);
        if x < b {
            assert(x % b == x) by (nonlinear_arith)
                requires
                    x < b,
            ;
            assert(digits_of(v as nat, base as nat, upper) =~= acc@);
            return acc;
        }
        let ghost old_acc = acc@.drop_first();
        assert(digits_of(x as nat, base as nat, upper) + old_acc =~= digits_of(
            (x / b) as nat,
            base as nat,
            upper,
        ) + acc@);
        x = x / b;
    }
}

/// `s` with zeros before it, up to `width` characters.
pub fn pad_zeros(s: &Vec<char>, width: usize) -> (r: Vec<char>)
    ensures
        r@ == padded(s@, width as int),
{
    let mut r: Vec<char> = Vec::new();
    let mut n: usize = 0;
    let fill: usize = if width > s.len() {
        width - s.len()
    } else {
        0
    };
    while n < fill
        invariant
            n <= fill,
            r@ == Seq::new(n as nat, |k: int| '0'),
        decreases fill - n,
    {
        r.push('0');
        n += 1;
        assert(r@ =~= Seq::new(n as nat, |k: int| '0'));
    }
    let mut i: usize = 0;
    while i < s.len()
        invariant
            i <= s.len(),
            r@ == Seq::new(fill as nat, |k: int| '0') + s@.take(i as int),
        decreases s.len() - i,
    {
        r.push(s[i]);
        i += 1;
        assert(r@ =~= Seq::new(fill as nat, |k: int| '0') + s@.take(i as int));
    }
    assert(s@.take(s.len() as int) =~= s@);
    proof {
        if width <= s.len() {
            assert(r@ =~= s@);
        }
    }
    r
}

} // verus!
