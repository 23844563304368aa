//! The majority threshold that a tally must exceed before a task settles.

use vstd::prelude::*;

verus! {

/// The threshold for an authority set of `n` members: half of `n`, rounded up.
/// A task settles once more votes of one kind than this have come in.
pub open spec fn threshold_of(n: int) -> int {
    (n + 1) / 2
}

/// Computes the threshold for an authority set of `authority_len` members.
pub fn threshold(authority_len: u32) -> (t: u32)
    ensures
        t == threshold_of(authority_len as int),
        t <= 0x8000_0000,
{
    authority_len / 2 + authority_len % 2
}

} // verus!
