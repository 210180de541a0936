//! Canonical keys for magnetic spin-orderings.
//!
//! A spin-ordering is a list of booleans (spin-up / spin-down).  Its canonical
//! key is the string of `'1'` and `'0'` characters, one per spin; the search
//! layer uses this key to name job directories and cache entries.

use vstd::prelude::*;
use vstd::string::StringExecFns;

verus! {

/// The canonical key of a spin-ordering: `'1'` for spin-up, `'0'` for spin-down.
pub open spec fn spec_binary_key(so: Seq<bool>) -> Seq<char> {
    so.map_values(|b: bool| if b { '1' } else { '0' })
}

/// Return binary encoded key of a spin-ordering.
pub fn binary_key(so: &[bool]) -> (key: String)
    ensures
        key@ == spec_binary_key(so@),
{
    let mut key = String::new();
    let n = so.len();
    assert(spec_binary_key(so@.take(0)) =~= Seq::<char>::empty());
    for i in 0..n
        invariant
            n == so@.len(),
            key@ =~= spec_binary_key(so@.take(i as int)),
    {
        proof {
            reveal_strlit("1");
            reveal_strlit("0");
        }
        if so[i] {
            key.append("1");
        } else {
            key.append("0");
        }
        assert(key@ =~= spec_binary_key(so@.take(i + 1 as int)));
    }
    proof {
        assert(so@.take(n as int) =~= so@);
    }
    key
}

} // verus!
