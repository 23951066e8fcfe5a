//! Where things go on the screen: the rectangle of each panel, and the
//! glyphs of the border around it.

use vstd::prelude::*;

use crate::chat::Chatbox;
use crate::video::error::Error;
use crate::video::{LocalVideoPanel, PeerVideoPanel};

verus! {

pub const TOP_LEFT_CORNER: char = '\u{256d}';

pub const TOP_RIGHT_CORNER: char = '\u{256e}';

pub const BOTTOM_LEFT_CORNER: char = '\u{2570}';

pub const BOTTOM_RIGHT_CORNER: char = '\u{256f}';

pub const HORIZONTAL_BORDER: char = '\u{2500}';

pub const VERTICAL_BORDER: char = '\u{2502}';

/// One character at a place on the screen.
#[derive(Clone, Copy, Debug, PartialEq, Eq, Structural)]
pub struct Glyph {
    pub column: u16,
    pub row: u16,
    pub symbol: char,
}

/// The glyph number `index` of the upper and lower edge of a border: the
/// edges are drawn from left to right, the upper glyph of a column before
/// the lower.
pub open spec fn horizontal_glyph(x: int, y: int, height: int, index: int) -> Glyph {
    Glyph {
        column: (x + 1 + index / 2) as u16,
        row: if index % 2 == 0 {
            y as u16
        } else {
            (y + height - 1) as u16
        },
        symbol: HORIZONTAL_BORDER,
    }
}

/// The glyph number `index` of the left and right edge of a border: the
/// edges are drawn from top to bottom, the left glyph of a row before the
/// right.
pub open spec fn vertical_glyph(x: int, y: int, width: int, index: int) -> Glyph {
    Glyph {
        column: if index % 2 == 0 {
            x as u16
        } else {
            (x + width - 1) as u16
        },
        row: (y + 1 + index / 2) as u16,
        symbol: VERTICAL_BORDER,
    }
}

/// The four corners of a border, in drawing order.
pub open spec fn corner_glyphs(x: int, y: int, width: int, height: int) -> Seq<Glyph> {
    seq![
        Glyph { column: x as u16, row: y as u16, symbol: TOP_LEFT_CORNER },
        Glyph { column: (x + width - 1) as u16, row: y as u16, symbol: TOP_RIGHT_CORNER },
        Glyph { column: x as u16, row: (y + height - 1) as u16, symbol: BOTTOM_LEFT_CORNER },
        Glyph {
            column: (x + width - 1) as u16,
            row: (y + height - 1) as u16,
            symbol: BOTTOM_RIGHT_CORNER,
        },
    ]
}

/// Glyphs on the two edges that run along a side of the given length,
/// corners not counted.
pub open spec fn edge_glyphs(length: int) -> int {
    if length >= 2 {
        2 * (length - 2)
    } else {
        0
    }
}

/// The glyphs of the border of a rectangle, in drawing order: the corners,
/// then the upper and lower edge, then the left and right edge. A rectangle
/// without width or height has no border.
pub open spec fn border_glyphs(x: int, y: int, width: int, height: int) -> Seq<Glyph> {
    if width < 1 || height < 1 {
        Seq::empty()
    } else {
        corner_glyphs(x, y, width, height) + Seq::new(
            edge_glyphs(width) as nat,
            |index: int| horizontal_glyph(x, y, height, index),
        ) + Seq::new(edge_glyphs(height) as nat, |index: int| vertical_glyph(x, y, width, index))
    }
}

/// Computes the glyphs of the border of a rectangle whose far corner lies
/// within the screen's coordinates.
pub fn border(x: u16, y: u16, width: u16, height: u16) -> (glyphs: Vec<Glyph>)
    requires
        x + width <= 0x1_0000,
        y + height <= 0x1_0000,
    ensures
        glyphs@ == border_glyphs(x as int, y as int, width as int, height as int),
{
    let mut glyphs: Vec<Glyph> = Vec::new();
    if width < 1 || height < 1 {
        return glyphs;
    }
    let right: u16 = x + (width - 1);
    let bottom: u16 = y + (height - 1);
    glyphs.push(Glyph { column: x, row: y, symbol: TOP_LEFT_CORNER });
    glyphs.push(Glyph { column: right, row: y, symbol: TOP_RIGHT_CORNER });
    glyphs.push(Glyph { column: x, row: bottom, symbol: BOTTOM_LEFT_CORNER });
    glyphs.push(Glyph { column: right, row: bottom, symbol: BOTTOM_RIGHT_CORNER });
    assert(glyphs@ =~= corner_glyphs(x as int, y as int, width as int, height as int));

    let ghost corners = glyphs@;
    let mut i: u16 = 1;
    while i < width - 1
        invariant
            width >= 1,
            height >= 1,
            1 <= i,
            i == 1 || i <= width - 1,
            x + width <= 0x1_0000,
            bottom == y + height - 1,
            glyphs@.len() == 4 + 2 * (i - 1),
            glyphs@.take(4) == corners,
            forall|index: int|
                0 <= index < 2 * (i - 1) ==> #[trigger] glyphs@[4 + index] == horizontal_glyph(
                    x as int,
                    y as int,
                    height as int,
                    index,
                ),
        decreases width - i,
    {
        let ghost before = glyphs@;
        glyphs.push(Glyph { column: x + i, row: y, symbol: HORIZONTAL_BORDER });
        glyphs.push(Glyph { column: x + i, row: bottom, symbol: HORIZONTAL_BORDER });
        assert(glyphs@.take(4) =~= before.take(4));
        assert forall|index: int| 0 <= index < 2 * i implies #[trigger] glyphs@[4 + index]
            == horizontal_glyph(x as int, y as int, height as int, index) by {
            if index < 2 * (i - 1) {
                assert(glyphs@[4 + index] == before[4 + index]);
            }
        }
        i = i + 1;
    }
    let ghost upper = glyphs@;
    let ghost edge = edge_glyphs(width as int);
    assert(upper.len() == 4 + edge);
    let mut j: u16 = 1;
    while j < height - 1
        invariant
            width >= 1,
            height >= 1,
            1 <= j,
            j == 1 || j <= height - 1,
            y + height <= 0x1_0000,
            right == x + width - 1,
            edge == edge_glyphs(width as int),
            upper.len() == 4 + edge,
            glyphs@.len() == 4 + edge + 2 * (j - 1),
            glyphs@.take(4 + edge) == upper,
            forall|index: int|
                0 <= index < 2 * (j - 1) ==> #[trigger] glyphs@[4 + edge + index] == vertical_glyph(
                    x as int,
                    y as int,
                    width as int,
                    index,
                ),
        decreases height - j,
    {
        let ghost before = glyphs@;
        glyphs.push(Glyph { column: x, row: y + j, symbol: VERTICAL_BORDER });
        glyphs.push(Glyph { column: right, row: y + j, symbol: VERTICAL_BORDER });
        assert(glyphs@.take(4 + edge) =~= before.take(4 + edge));
        assert forall|index: int| 0 <= index < 2 * j implies #[trigger] glyphs@[4 + edge + index]
            == vertical_glyph(x as int, y as int, width as int, index) by {
            if index < 2 * (j - 1) {
                assert(glyphs@[4 + edge + index] == before[4 + edge + index]);
            }
        }
        j = j + 1;
    }
    proof {
        let wanted = border_glyphs(x as int, y as int, width as int, height as int);
        assert(glyphs@.len() == wanted.len());
        assert forall|index: int| 0 <= index < wanted.len() implies glyphs@[index]
            == wanted[index] by {
            if index < 4 {
                assert(glyphs@[index] == glyphs@.take(4 + edge)[index]);
                assert(upper[index] == upper.take(4)[index]);
            } else if index < 4 + edge {
                assert(glyphs@[index] == glyphs@.take(4 + edge)[index]);
                assert(upper[index] == upper[4 + (index - 4)]);
            } else {
                assert(glyphs@[index] == glyphs@[4 + edge + (index - 4 - edge)]);
            }
        }
        assert(glyphs@ =~= wanted);
    }
    glyphs
}

/// Something that occupies a rectangle of the screen.
pub trait Drawable {
    /// Left edge, top edge, width and height of the rectangle.
    spec fn bounds(&self) -> (u16, u16, u16, u16);

    /// Column of the left edge.
    fn x(&self) -> (x: u16)
        ensures
            x == self.bounds().0,
    ;

    /// Row of the top edge.
    fn y(&self) -> (y: u16)
        ensures
            y == self.bounds().1,
    ;

    /// Width of the rectangle, border included.
    fn width(&self) -> (width: u16)
        ensures
            width == self.bounds().2,
    ;

    /// Height of the rectangle, border included.
    fn height(&self) -> (height: u16)
        ensures
            height == self.bounds().3,
    ;
}

/// A rectangle of the screen.
#[derive(Clone, Copy, Debug, PartialEq, Eq, Structural)]
pub struct Rect {
    pub x: u16,
    pub y: u16,
    pub width: u16,
    pub height: u16,
}

/// Where the three panels go.
#[derive(Clone, Copy, Debug, PartialEq, Eq, Structural)]
pub struct Layout {
    pub chatbox: Rect,
    pub local_video: Rect,
    pub peer_video: Rect,
}

/// Width of the two video panels.
pub const VIDEO_PANEL_WIDTH: u16 = 128;

/// Whether a terminal of the given size has room for the three panels.
pub open spec fn has_room(columns: u16, rows: u16) -> bool {
    columns >= VIDEO_PANEL_WIDTH + 4 && rows >= 2
}

/// The layout for a terminal of the given size: the two video panels one
/// above the other on the left, each half the terminal high, and the chat
/// box to their right over the rest of the width.
pub open spec fn layout_for(columns: u16, rows: u16) -> Layout {
    Layout {
        chatbox: Rect {
            x: 130,
            y: 1,
            width: (columns - VIDEO_PANEL_WIDTH - 4) as u16,
            height: (rows - 2) as u16,
        },
        local_video: Rect { x: 1, y: 1, width: VIDEO_PANEL_WIDTH, height: rows / 2 },
        peer_video: Rect {
            x: 1,
            y: (rows / 2 + 1) as u16,
            width: VIDEO_PANEL_WIDTH,
            height: (rows / 2 - 1) as u16,
        },
    }
}

/// Computes where the three panels go in a terminal that has room for
/// them.
fn place(columns: u16, rows: u16) -> (placed: Layout)
    requires
        has_room(columns, rows),
    ensures
        placed == layout_for(columns, rows),
{
    Layout {
        chatbox: Rect { x: 130, y: 1, width: columns - VIDEO_PANEL_WIDTH - 4, height: rows - 2 },
        local_video: Rect { x: 1, y: 1, width: VIDEO_PANEL_WIDTH, height: rows / 2 },
        peer_video: Rect {
            x: 1,
            y: rows / 2 + 1,
            width: VIDEO_PANEL_WIDTH,
            height: rows / 2 - 1,
        },
    }
}

/// Computes where the three panels go, or `None` if the terminal is too
/// small for them.
pub fn layout(columns: u16, rows: u16) -> (placed: Option<Layout>)
    ensures
        has_room(columns, rows) ==> placed == Some(layout_for(columns, rows)),
        !has_room(columns, rows) ==> placed.is_none(),
{
    if columns < VIDEO_PANEL_WIDTH + 4 || rows < 2 {
        return None;
    }
    Some(place(columns, rows))
}

/// Makes the three panels for a terminal of the given size and a camera of
/// the given resolution.
///
/// The terminal must have room for the panels. A camera whose frames have
/// no pixels is refused with `CameraNotReady`; `OpenH264` means that the
/// decoder of the peer's panel could not be made.
pub fn create_layout(columns: u16, rows: u16, camera_width: usize, camera_height: usize) -> (panels:
    Result<(Chatbox, LocalVideoPanel, PeerVideoPanel), Error>)
    requires
        has_room(columns, rows),
    ensures
        camera_width == 0 || camera_height == 0 || camera_width * camera_height * 3 > usize::MAX
            ==> (panels matches Err(error) && error is CameraNotReady),
        match panels {
            Ok((chatbox, local, peer)) => {
                &&& chatbox.bounds() == rect_bounds(layout_for(columns, rows).chatbox)
                &&& chatbox.lines() == Seq::<Seq<char>>::empty()
                &&& chatbox.typing() == Seq::<char>::empty()
                &&& local.wf() && local.bounds() == rect_bounds(
                    layout_for(columns, rows).local_video,
                )
                &&& peer.wf() && peer.bounds() == rect_bounds(layout_for(columns, rows).peer_video)
            },
            Err(error) => error is CameraNotReady || error is OpenH264,
        },
{
    let placed = place(columns, rows);
    let chatbox = Chatbox::new(
        placed.chatbox.x,
        placed.chatbox.y,
        placed.chatbox.width,
        placed.chatbox.height,
    );
    assert(124 * 0xffff * 2 <= usize::MAX);
    assert(crate::video::picture_columns(VIDEO_PANEL_WIDTH) * crate::video::picture_rows(
        placed.local_video.height,
    ) * 2 <= 124 * 0xffff * 2) by (nonlinear_arith)
        requires
            crate::video::picture_columns(VIDEO_PANEL_WIDTH) == 124,
            0 <= crate::video::picture_rows(placed.local_video.height) <= 0xffff,
    ;
    assert(crate::video::picture_columns(VIDEO_PANEL_WIDTH) * crate::video::picture_rows(
        placed.peer_video.height,
    ) * 2 <= 124 * 0xffff * 2) by (nonlinear_arith)
        requires
            crate::video::picture_columns(VIDEO_PANEL_WIDTH) == 124,
            0 <= crate::video::picture_rows(placed.peer_video.height) <= 0xffff,
    ;
    let local = match LocalVideoPanel::new_local(
        placed.local_video.x,
        placed.local_video.y,
        placed.local_video.width,
        placed.local_video.height,
        camera_width,
        camera_height,
    ) {
        Ok(local) => local,
        Err(error) => {
            return Err(error);
        },
    };
    let peer = match PeerVideoPanel::new_peer(
        placed.peer_video.x,
        placed.peer_video.y,
        placed.peer_video.width,
        placed.peer_video.height,
    ) {
        Ok(peer) => peer,
        Err(error) => {
            return Err(error);
        },
    };
    Ok((chatbox, local, peer))
}

/// Left edge, top edge, width and height of a rectangle.
pub open spec fn rect_bounds(rect: Rect) -> (u16, u16, u16, u16) {
    (rect.x, rect.y, rect.width, rect.height)
}

} // verus!
