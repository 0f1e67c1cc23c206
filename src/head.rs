//! The name shown for the head of a working copy.
use vstd::prelude::*;
use crate::text::{chars_of, string_of, push_all};

verus! {

/// The name of a head on `branch`, with `topic` after `//` when there is one.
pub open spec fn head_name_of(branch: Seq<char>, topic: Option<Seq<char>>) -> Seq<char> {
    match topic {
        Some(t) => branch + seq!['/', '/'] + t,
        None => branch,
    }
}

/// The name of a head on `branch`, with `topic` after `//` when there is one.
pub fn head_name(branch: &str, topic: Option<&str>) -> (r: String)
    ensures
        r@ == head_name_of(
            branch@,
            match topic {
                Some(t) => Some(t@),
                None => None,
            },
        ),
{
    let mut name = chars_of(branch);
    match topic {
        Some(t) => {
            name.push('/');
            name.push('/');
            push_all(&mut name, &chars_of(t));
            assert(name@ =~= branch@ + seq!['/', '/'] + t@);
        },
        None => {},
    }
    string_of(&name)
}

} // verus!
