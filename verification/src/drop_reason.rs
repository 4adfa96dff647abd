//! Reasons for which the router drops a shred-port packet; they index the
//! per-reason drop counters.

use vstd::prelude::*;

verus! {

/// No drop.
pub const NONE: u32 = 0;

/// The UDP payload is too short to hold a shred header.
pub const MISSING_SHRED: u32 = 1;

/// Reported under the name `bad_witness_len`; no check of this router produces it.
pub const BAD_WITNESS_LEN: u32 = 2;

/// Reported under the name `bad_slot`; no check of this router produces it.
pub const BAD_SLOT: u32 = 3;

/// Number of reason slots (reason values are `0..COUNT`).
pub const COUNT: u32 = 4;

} // verus!
