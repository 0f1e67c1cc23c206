//! Removing the digit-group separator from a token and putting it back.
use vstd::prelude::*;

verus! {

/// The character that groups digits for readability.
pub const SEPARATOR: char = '_';

/// The first `n` characters of `t` without their separators.
pub open spec fn stripped_upto(t: Seq<char>, n: int) -> Seq<char>
    decreases n,
{
    if n <= 0 {
        seq![]
    } else {
        let s = stripped_upto(t, n - 1);
        if t[n - 1] == SEPARATOR {
            s
        } else {
            s.push(t[n - 1])
        }
    }
}

/// `t` without its separators.
pub open spec fn stripped(t: Seq<char>) -> Seq<char> {
    stripped_upto(t, t.len() as int)
}

/// Among the last `n` characters of `t`, the distances from the end of `t` at
/// which a separator stands (0 is the last character), nearest the end first.
pub open spec fn offsets_upto(t: Seq<char>, n: int) -> Seq<usize>
    decreases n,
{
    if n <= 0 {
        seq![]
    } else {
        let o = offsets_upto(t, n - 1);
        if t[t.len() - n] == SEPARATOR {
            o.push((n - 1) as usize)
        } else {
            o
        }
    }
}

/// The distances from the end of `t` at which a separator stands, ascending.
pub open spec fn separator_offsets(t: Seq<char>) -> Seq<usize> {
    offsets_upto(t, t.len() as int)
}

/// `s` with a separator put back at each of `offs`, taken in order, each
/// counted from the end of the text as it stands at that point; an offset that
/// does not fall inside the text is skipped.
pub open spec fn restored(s: Seq<char>, offs: Seq<usize>) -> Seq<char>
    decreases offs.len(),
{
    if offs.len() == 0 {
        s
    } else {
        let p = restored(s, offs.drop_last());
        let r = offs.last() as int;
        if r < p.len() {
            p.insert(p.len() - r, SEPARATOR)
        } else {
            p
        }
    }
}

/// Starting from a separator at index `i`, a separator every `spacing`
/// characters towards the left, while more than `spacing` characters remain
/// between the separator and the end of the prefix (of length `plen`).
pub open spec fn extended(s: Seq<char>, i: int, spacing: int, plen: int) -> Seq<char>
    decreases i,
{
    if 0 <= plen && 0 < spacing && plen + spacing < i <= s.len() {
        extended(s.insert(i - spacing, SEPARATOR), i - spacing, spacing, plen)
    } else {
        s
    }
}

/// The index of the first separator of `s` at or after `from`, or -1.
pub open spec fn first_separator_from(s: Seq<char>, from: int) -> int
    decreases s.len() - from,
{
    if from < 0 || from >= s.len() {
        -1
    } else if s[from] == SEPARATOR {
        from
    } else {
        first_separator_from(s, from + 1)
    }
}

/// The spacing between groups that the recorded separators suggest: the gap
/// between the two leftmost ones, or the distance of the only one from the end.
pub open spec fn group_spacing(offs: Seq<usize>) -> int {
    if offs.len() >= 2 {
        offs.last() - offs[offs.len() - 2] - 1
    } else {
        offs[0] as int
    }
}

proof fn lemma_offsets_ascending(t: Seq<char>, n: int)
    requires
        0 <= n <= t.len(),
        n <= usize::MAX,
    ensures
        forall|k: int| 0 <= k < offsets_upto(t, n).len() ==> offsets_upto(t, n)[k] < n,
        forall|j: int, k: int|
            0 <= j < k < offsets_upto(t, n).len() ==> offsets_upto(t, n)[j] < offsets_upto(t, n)[k],
    decreases n,
{
    if n > 0 {
        lemma_offsets_ascending(t, n - 1);
        let o = offsets_upto(t, n - 1);
        if t[t.len() - n] == SEPARATOR {
            assert(o.push((n - 1) as usize)[o.len() as int] == n - 1);
        }
    }
}

/// The characters of `t` without separators.
pub fn strip_separators(t: &Vec<char>) -> (r: Vec<char>)
    ensures
        r@ == stripped(t@),
{
    let mut r: Vec<char> = Vec::new();
    let mut i: usize = 0;
    while i < t.len()
        invariant
            i <= t.len(),
            r@ == stripped_upto(t@, i as int),
        decreases t.len() - i,
    {
        if t[i] != SEPARATOR {
            r.push(t[i]);
        }
        i += 1;
    }
    r
}

/// Where the separators of `t` stand, counted from its end, ascending.
pub fn find_separator_offsets(t: &Vec<char>) -> (r: Vec<usize>)
    ensures
        r@ == separator_offsets(t@),
        forall|j: int, k: int| 0 <= j < k < r@.len() ==> r@[j] < r@[k],
{
    let mut r: Vec<usize> = Vec::new();
    let mut n: usize = 0;
    while n < t.len()
        invariant
            n <= t.len(),
            r@ == offsets_upto(t@, n as int),
        decreases t.len() - n,
    {
        if t[t.len() - 1 - n] == SEPARATOR {
            r.push(n);
        }
        n += 1;
    }
    proof {
        lemma_offsets_ascending(t@, t@.len() as int);
    }
    r
}

/// Puts a separator back at each of `offs`, as `restored` describes.
pub fn restore_separators(s: &mut Vec<char>, offs: &Vec<usize>)
    ensures
        final(s)@ == restored(old(s)@, offs@),
{
    let ghost s0 = s@;
    let mut i: usize = 0;
    while i < offs.len()
        invariant
            i <= offs.len(),
            s@ == restored(s0, offs@.take(i as int)),
        decreases offs.len() - i,
    {
        assert(offs@.take(i as int + 1).drop_last() =~= offs@.take(i as int));
        let r = offs[i];
        if r < s.len() {
            let at = s.len() - r;
            s.insert(at, SEPARATOR);
        }
        i += 1;
    }
    assert(offs@.take(offs.len() as int) =~= offs@);
}

/// The index of the first separator of `s`, if there is one.
pub fn find_first_separator(s: &Vec<char>) -> (r: Option<usize>)
    ensures
        r is Some ==> first_separator_from(s@, 0) == r->0 as int && r->0 < s@.len(),
        r is None ==> first_separator_from(s@, 0) == -1,
{
    let mut i: usize = 0;
    while i < s.len()
        invariant
            i <= s.len(),
            first_separator_from(s@, 0) == first_separator_from(s@, i as int),
        decreases s.len() - i,
    {
        if s[i] == SEPARATOR {
            return Some(i);
        }
        i += 1;
    }
    None
}

/// Adds separators at a fixed spacing to the left of the one at `index`, as
/// `extended` describes.
pub fn extend_separators(s: &mut Vec<char>, index: usize, spacing: usize, plen: usize)
    requires
        index <= old(s)@.len(),
    ensures
        final(s)@ == extended(old(s)@, index as int, spacing as int, plen as int),
{
    let mut i = index;
    while spacing > 0 && i > plen && i - plen > spacing
        invariant
            i <= s@.len(),
            extended(old(s)@, index as int, spacing as int, plen as int) == extended(
                s@,
                i as int,
                spacing as int,
                plen as int,
            ),
        decreases i,
    {
        i = i - spacing;
        s.insert(i, SEPARATOR);
    }
}

} // verus!
