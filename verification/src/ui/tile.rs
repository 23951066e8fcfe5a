//! One cell of the screen buffer.

use vstd::prelude::*;

use crate::video::{normalize, normalize_spec};

verus! {

/// The glyph of a picture cell: its upper half shows the foreground
/// colour, its lower half the background colour.
pub const UPPER_HALF_BLOCK: char = '\u{2580}';

/// One cell of the screen: a character, and the brightness of the upper
/// and of the lower half of the picture behind it.
#[derive(Clone, Copy, Debug, PartialEq, Eq, Structural)]
pub struct Tile {
    pub content: char,
    pub top_brightness: u8,
    pub bottom_brightness: u8,
}

/// How a tile is printed.
#[derive(Clone, Copy, Debug, PartialEq, Eq, Structural)]
pub enum TileStyle {
    /// In the terminal's own colours.
    Plain,
    /// With the given ANSI colours.
    Shaded { foreground: u8, background: u8 },
}

/// A character with the style it is printed in.
#[derive(Clone, Copy, Debug, PartialEq, Eq, Structural)]
pub struct StyledTile {
    pub content: char,
    pub style: TileStyle,
}

impl Tile {
    /// The tile as it is printed.
    pub open spec fn styled_spec(self) -> StyledTile {
        StyledTile { content: self.content, style: self.style_spec() }
    }

    /// The tile as it is printed: its character in its style.
    pub fn styled(&self) -> (styled: StyledTile)
        ensures
            styled == self.styled_spec(),
    {
        StyledTile { content: self.content, style: self.style() }
    }

    /// Makes the tile a picture cell again.
    pub fn reset(&mut self)
        ensures
            final(self).content == UPPER_HALF_BLOCK,
            final(self).top_brightness == old(self).top_brightness,
            final(self).bottom_brightness == old(self).bottom_brightness,
    {
        self.content = UPPER_HALF_BLOCK
    }

    /// How the tile is printed: text in plain style, anything else in the
    /// grays of the picture behind it.
    pub open spec fn style_spec(self) -> TileStyle {
        if (self.content as u32) < 128 {
            TileStyle::Plain
        } else {
            TileStyle::Shaded {
                foreground: normalize_spec(self.top_brightness) as u8,
                background: normalize_spec(self.bottom_brightness) as u8,
            }
        }
    }

    /// How the tile is printed: an ASCII character in plain style,
    /// anything else with the upper brightness as foreground and the lower
    /// as background colour.
    pub fn style(&self) -> (style: TileStyle)
        ensures
            style == self.style_spec(),
    {
        if (self.content as u32) < 128 {
            TileStyle::Plain
        } else {
            TileStyle::Shaded {
                foreground: Tile::normalized(self.top_brightness),
                background: Tile::normalized(self.bottom_brightness),
            }
        }
    }

    /// The ANSI colour index of a brightness.
    pub fn normalized(value: u8) -> (ansi: u8)
        ensures
            ansi == normalize_spec(value),
            232 <= ansi <= 255,
    {
        normalize(value)
    }
}

impl Default for Tile {
    /// A black picture cell.
    fn default() -> (tile: Self)
        ensures
            tile == (Tile { content: UPPER_HALF_BLOCK, top_brightness: 0, bottom_brightness: 0 }),
    {
        Tile { content: UPPER_HALF_BLOCK, top_brightness: 0, bottom_brightness: 0 }
    }
}

} // verus!
