//! The color palette responses are dressed in.

use vstd::prelude::*;

verus! {

/// The accent colors used across responses, as RGB words.
pub struct CatppuccinColors;

impl CatppuccinColors {
    pub const LAVENDER: u32 = 0xbabbf1;

    pub const RED: u32 = 0xe78284;

    pub const GREEN: u32 = 0xa6d189;

    pub const YELLOW: u32 = 0xe5c890;

    pub const BLUE: u32 = 0x8caaee;

    pub const MAUVE: u32 = 0xca9ee6;
}

} // verus!
