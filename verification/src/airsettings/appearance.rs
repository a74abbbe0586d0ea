use vstd::prelude::*;

verus! {

/// Colour scheme mode.
#[derive(Debug, Clone, Copy, PartialEq, Eq, Structural)]
pub enum ThemeMode {
    Light,
    Dark,
    /// Follows the system setting.
    Auto,
}

/// Preset accent colours.
#[derive(Debug, Clone, Copy, PartialEq, Eq, Structural)]
pub enum AccentColor {
    Blue,
    Purple,
    Pink,
    Red,
    Orange,
    Yellow,
    Green,
    Graphite,
}

/// The 0xRRGGBB value of each accent preset.
pub open spec fn accent_hex(a: AccentColor) -> u32 {
    match a {
        AccentColor::Blue => 0x007AFF,
        AccentColor::Purple => 0xBF5AF2,
        AccentColor::Pink => 0xFF2D55,
        AccentColor::Red => 0xFF3B30,
        AccentColor::Orange => 0xFF9500,
        AccentColor::Yellow => 0xFFCC00,
        AccentColor::Green => 0x34C759,
        AccentColor::Graphite => 0x8E8E93,
    }
}

impl AccentColor {
    /// The 0xRRGGBB value of the preset, from which its colour is made.
    pub fn hex_rgb(self) -> (hex: u32)
        ensures
            hex == accent_hex(self),
    {
        match self {
            AccentColor::Blue => 0x007AFF,
            AccentColor::Purple => 0xBF5AF2,
            AccentColor::Pink => 0xFF2D55,
            AccentColor::Red => 0xFF3B30,
            AccentColor::Orange => 0xFF9500,
            AccentColor::Yellow => 0xFFCC00,
            AccentColor::Green => 0x34C759,
            AccentColor::Graphite => 0x8E8E93,
        }
    }
}

} // verus!
