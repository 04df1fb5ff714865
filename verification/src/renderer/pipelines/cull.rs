//! Sizing the compute dispatch that culls chunk draws.

use vstd::prelude::*;

verus! {

/// Chunk draws culled by one compute workgroup.
pub const CULL_WORKGROUP_SIZE: u32 = 64;

/// The number of workgroups that cover `count` draws: `count / 64` rounded up.
pub fn dispatch_group_count(count: u32) -> (r: u32)
    ensures
        r as int == (count as int + 63) / 64,
        r as int * 64 >= count,
        r == 0 || (r as int - 1) * 64 < count,
{
    let q: u32 = count / CULL_WORKGROUP_SIZE;
    if count % CULL_WORKGROUP_SIZE != 0 {
        q + 1
    } else {
        q
    }
}

} // verus!
