//! The colours of the dark theme, as `0xRRGGBB`.
use vstd::prelude::*;

verus! {

pub const BACKGROUND: u32 = 0x202127;
pub const SIDEBAR: u32 = 0x191a20;
pub const SURFACE: u32 = 0x2b2d35;
pub const BORDER: u32 = 0x383a44;
pub const TEXT: u32 = 0xe5e5eb;
pub const MUTED: u32 = 0xa5a7b5;
pub const ACCENT: u32 = 0x89b4fa;
pub const ERROR: u32 = 0xf38ba8;

} // verus!
