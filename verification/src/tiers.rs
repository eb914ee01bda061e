//! Tier boundaries for compliance levels.

use vstd::prelude::*;

verus! {

/// Critical compliance tier (at least 95%).
pub const TIER_1_MIN: u64 = 9500;

/// High compliance tier (at least 85%).
pub const TIER_2_MIN: u64 = 8500;

/// Standard compliance tier (at least 70%).
pub const TIER_3_MIN: u64 = 7000;

/// Basic compliance tier (at least 50%).
pub const TIER_4_MIN: u64 = 5000;

/// Minimal compliance tier (below 50%).
pub const TIER_5_MIN: u64 = 0;

} // verus!
