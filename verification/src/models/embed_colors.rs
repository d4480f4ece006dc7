//! Colours of the notifications, as 24-bit RGB numbers.

use vstd::prelude::*;

verus! {

pub const NEGATIVE: u32 = 16711680;

pub const POSTIVE: u32 = 5222492;

pub const MAJOR: u32 = 16567356;

pub const INFORMAL: u32 = 8882052;

pub const TRANSPARENT: u32 = 2829617;

} // verus!
