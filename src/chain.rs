use vstd::arithmetic::div_mod::{lemma_mod_self_0, lemma_small_mod};
use vstd::prelude::*;

verus! {

/// Index of the entry that follows `i` in a circular playlist of `n` entries.
pub open spec fn next_index_spec(i: int, n: int) -> int {
    (i + 1) % n
}

/// The successor of entry `i` among `n` entries: the last one wraps back to the first.
pub fn next_index(i: usize, n: usize) -> (r: usize)
    requires
        i < n,
    ensures
        r as int == next_index_spec(i as int, n as int),
        r < n,
{
    if i + 1 < n {
        proof {
            lemma_small_mod((i + 1) as nat, n as nat);
        }
        i + 1
    } else {
        proof {
            lemma_mod_self_0(n as int);
        }
        0
    }
}

} // verus!
