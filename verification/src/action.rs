//! XDP verdicts, with the kernel's numbering, as they appear in log entries.

use vstd::prelude::*;

verus! {

pub const ABORTED: u32 = 0;

pub const DROP: u32 = 1;

pub const PASS: u32 = 2;

pub const TX: u32 = 3;

pub const REDIRECT: u32 = 4;

} // verus!
