//! Path normalization for cross-platform serialization.

use vstd::prelude::*;

use crate::text::push_char;

verus! {

/// The path with every backslash turned into a forward slash.
pub open spec fn spec_forward_slashes(s: Seq<char>) -> Seq<char> {
    Seq::new(
        s.len(),
        |i: int|
            if s[i] == '\\' {
                '/'
            } else {
                s[i]
            },
    )
}

/// Normalizes a path to forward slashes, the form the interface expects
/// regardless of platform.
pub fn normalize_path_for_serialization(path: &str) -> (r: String)
    ensures
        r@ == spec_forward_slashes(path@),
{
    let n = path.unicode_len();
    let mut out = String::new();
    let mut i: usize = 0;
    while i < n
        invariant
            i <= n,
            n == path@.len(),
            out@.len() == i,
            forall|j: int| 0 <= j < i ==> out@[j] == spec_forward_slashes(path@)[j],
        decreases n - i,
    {
        let c = path.get_char(i);
        if c == '\\' {
            push_char(&mut out, '/');
        } else {
            push_char(&mut out, c);
        }
        i += 1;
    }
    proof {
        assert(out@ =~= spec_forward_slashes(path@));
    }
    out
}

} // verus!
