//! CurseForge relation types.
use vstd::prelude::*;

verus! {

pub const EMBEDDED_LIBRARY: u8 = 1;

pub const OPTIONAL: u8 = 2;

pub const REQUIRED: u8 = 3;

pub const TOOL: u8 = 4;

pub const INCOMPATIBLE: u8 = 5;

pub const INCLUDE: u8 = 6;

} // verus!
