//! A concurrent, sharded, in-memory key-value store with a bounded worker
//! pool, together with the small verified components that accompany it:
//! request dispatch for its wire protocol, line search, and a handful of
//! self-contained data types.

use vstd::prelude::*;

pub mod pool;
pub mod protocol;
pub mod rect;
pub mod scores;
pub mod screen;
pub mod search;
pub mod store;
pub mod summary;
pub mod tracker;

verus! {

/// Adds two numbers together.
pub fn add(a: i32, b: i32) -> (sum: i32)
    requires
        i32::MIN <= a + b <= i32::MAX,
    ensures
        sum == a + b,
{
    a + b
}

} // verus!
