//! The rotation policy: when the active file must be replaced before the
//! next write.
//!
//! Two independent triggers, either of which suffices: the formatted time
//! bucket for "now" differs from the active file's bucket, or a configured
//! maximum size would be reached or exceeded by the pending entry.

use vstd::prelude::*;

verus! {

/// Whether a write of `entry_len` bytes demands a rotation first: the bucket
/// changed, or a configured size limit would be reached or exceeded by the
/// active file's size plus the pending entry.
pub open spec fn rotation_due(
    last_bucket: Seq<char>,
    now_bucket: Seq<char>,
    active_len: u64,
    entry_len: nat,
    max_size: Option<u64>,
) -> bool {
    ||| now_bucket != last_bucket
    ||| match max_size {
        Some(m) => active_len + entry_len >= m,
        None => false,
    }
}

/// Evaluates the rotation policy. The size comparison saturates at the
/// integer limit, which leaves the verdict unchanged: a sum beyond it is
/// certainly at or above any representable limit.
pub fn rotation_check(
    last_bucket: &String,
    now_bucket: &String,
    active_len: u64,
    entry_len: usize,
    max_size: &Option<u64>,
) -> (r: bool)
    ensures
        r == rotation_due(last_bucket@, now_bucket@, active_len, entry_len as nat, *max_size),
{
    if !now_bucket.eq(last_bucket) {
        return true;
    }
    match max_size {
        Some(m) => active_len.saturating_add(entry_len as u64) >= *m,
        None => false,
    }
}

} // verus!
