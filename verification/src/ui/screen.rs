//! The screen buffer and the trait of what writes to it.

use vstd::prelude::*;

use crate::input::InputType;
use crate::ui::chatbox::{
    chat_content, message_rows, updated_buffered, updated_sent, with_content, Chatbox,
};
use crate::ui::tile::{StyledTile, Tile, UPPER_HALF_BLOCK};
use crate::ui::video::{picture_tile, Video};
use crate::ui::{line_tiles, printed_lines, Printable, Updatable};

verus! {

/// Where a component begins in the screen buffer: column and row of its
/// first tile, and the number of tiles in a row of the screen.
#[derive(Clone, Copy, Debug, PartialEq, Eq, Structural)]
pub struct ScreenOrigin {
    pub x: usize,
    pub y: usize,
    pub stride: usize,
}

/// Whether a component of the given size at the given origin lies within a
/// buffer of `tiles` tiles.
pub open spec fn fits(origin: ScreenOrigin, width: int, height: int, tiles: int) -> bool {
    origin.x + width <= origin.stride && (origin.y + height) * origin.stride <= tiles
}

/// The index in the buffer of the tile in column `column` and row `row` of
/// a component.
pub open spec fn tile_index(origin: ScreenOrigin, column: int, row: int) -> int {
    (origin.y + row) * origin.stride + origin.x + column
}

/// The column within a component at `origin` of the tile with the given
/// index in the buffer.
pub open spec fn tile_column(origin: ScreenOrigin, index: int) -> int {
    index % (origin.stride as int) - origin.x
}

/// The row within a component at `origin` of the tile with the given index
/// in the buffer.
pub open spec fn tile_row(origin: ScreenOrigin, index: int) -> int {
    index / (origin.stride as int) - origin.y
}

/// Whether the tile with the given index belongs to a component of the
/// given size at the given origin.
pub open spec fn in_region(origin: ScreenOrigin, width: int, height: int, index: int) -> bool {
    &&& origin.stride > 0
    &&& 0 <= tile_column(origin, index) < width
    &&& 0 <= tile_row(origin, index) < height
}

/// The tiles of a component that fits lie within the buffer, and each
/// index belongs to one column and row.
pub proof fn lemma_tile_in_buffer(
    origin: ScreenOrigin,
    width: int,
    height: int,
    tiles: int,
    column: int,
    row: int,
)
    requires
        fits(origin, width, height, tiles),
        0 <= column < width,
        0 <= row < height,
    ensures
        0 <= (origin.y + row) * origin.stride,
        (origin.y + row) * origin.stride + origin.stride <= tiles,
        0 <= tile_index(origin, column, row) < tiles,
        tile_column(origin, tile_index(origin, column, row)) == column,
        tile_row(origin, tile_index(origin, column, row)) == row,
        in_region(origin, width, height, tile_index(origin, column, row)),
{
    assert(0 <= (origin.y + row) * origin.stride && (origin.y + row) * origin.stride + origin.stride
        <= (origin.y + height) * origin.stride) by (nonlinear_arith)
        requires
            0 <= row < height,
            0 <= origin.y,
            0 <= origin.stride,
    ;
    vstd::arithmetic::div_mod::lemma_fundamental_div_mod_converse(
        tile_index(origin, column, row),
        origin.stride as int,
        origin.y + row,
        origin.x + column,
    );
}

/// An index that belongs to a component is the index of its column and
/// row there.
pub proof fn lemma_region_index(origin: ScreenOrigin, width: int, height: int, index: int)
    requires
        in_region(origin, width, height, index),
    ensures
        index == tile_index(origin, tile_column(origin, index), tile_row(origin, index)),
{
    vstd::arithmetic::div_mod::lemma_fundamental_div_mod(index, origin.stride as int);
    assert(origin.stride * (index / (origin.stride as int)) == (index / (origin.stride as int))
        * origin.stride) by (nonlinear_arith);
}

/// Something that occupies a rectangle of the screen buffer and writes its
/// tiles.
pub trait ScreenComponent: Sized {
    /// Whether the component is in a state to be drawn.
    spec fn wf(&self) -> bool;

    /// Where the component begins.
    spec fn origin(&self) -> ScreenOrigin;

    /// Tiles in a row and rows of the component.
    spec fn size(&self) -> (usize, usize);

    /// A component of the given size at the given origin. What the
    /// component keeps for each place of that size must fit in memory.
    fn new(display_width: usize, display_height: usize, origin: ScreenOrigin) -> (made: Self)
        requires
            display_width * display_height <= usize::MAX,
        ensures
            made.wf(),
            made.origin() == origin,
            made.size().0 <= display_width,
            made.size().1 <= display_height,
    ;

    /// Writes the component into the screen buffer. Tiles outside the
    /// component stay as they are.
    fn write_to_screen(&self, screen_buffer: &mut Vec<Tile>)
        requires
            self.wf(),
            fits(
                self.origin(),
                self.size().0 as int,
                self.size().1 as int,
                old(screen_buffer)@.len() as int,
            ),
        ensures
            final(screen_buffer)@.len() == old(screen_buffer)@.len(),
            forall|index: int|
                0 <= index < old(screen_buffer)@.len() && !in_region(
                    self.origin(),
                    self.size().0 as int,
                    self.size().1 as int,
                    index,
                ) ==> #[trigger] final(screen_buffer)@[index] == old(screen_buffer)@[index],
    ;
}

/// Columns of the picture.
pub const VIDEO_WIDTH: usize = 128;

/// Rows of brightness samples of the picture: two for each row of tiles.
pub const VIDEO_HEIGHT: usize = 72;

/// The screen: a buffer of tiles, with the picture on the left and the
/// chat box on the right.
pub struct Screen {
    screen_buffer: Vec<Tile>,
    screen_width: usize,
    video: Video,
    chatbox: Chatbox,
}

impl Screen {
    /// Whether a terminal of the given size has room for the picture, the
    /// chat box and the margins around them.
    pub open spec fn has_room(screen_width: usize, screen_height: usize) -> bool {
        &&& screen_width >= VIDEO_WIDTH + 4
        &&& screen_height >= VIDEO_HEIGHT / 2 + 1
        &&& screen_width * screen_height <= usize::MAX
    }

    /// The tiles of the screen, row by row.
    pub closed spec fn tiles(&self) -> Seq<Tile> {
        self.screen_buffer@
    }

    /// Tiles in a row of the screen.
    pub closed spec fn columns(&self) -> usize {
        self.screen_width
    }

    /// The picture.
    pub closed spec fn picture(&self) -> Video {
        self.video
    }

    /// The chat box.
    pub closed spec fn chat(&self) -> Chatbox {
        self.chatbox
    }

    /// Both components lie within the buffer.
    pub open spec fn wf(&self) -> bool {
        &&& self.picture().wf()
        &&& fits(
            self.picture().origin(),
            self.picture().size().0 as int,
            self.picture().size().1 as int,
            self.tiles().len() as int,
        )
        &&& fits(
            self.chat().origin(),
            self.chat().size().0 as int,
            self.chat().size().1 as int,
            self.tiles().len() as int,
        )
    }

    /// A screen of the given size, all tiles black picture cells, with the
    /// picture at column 2 and the chat box to its right. `None` if the
    /// terminal has no room for them.
    pub fn new(screen_width: usize, screen_height: usize) -> (screen: Option<Self>)
        ensures
            screen is Some <==> Self::has_room(screen_width, screen_height),
            screen matches Some(made) ==> {
                &&& made.wf()
                &&& made.columns() == screen_width
                &&& made.tiles() == Seq::new(
                    (screen_width * screen_height) as nat,
                    |index: int|
                        Tile { content: UPPER_HALF_BLOCK, top_brightness: 0, bottom_brightness: 0 },
                )
                &&& made.picture().origin() == (ScreenOrigin { x: 2, y: 1, stride: screen_width })
                &&& made.chat().origin() == (ScreenOrigin {
                    x: (VIDEO_WIDTH + 4) as usize,
                    y: 1,
                    stride: screen_width,
                })
                &&& made.chat().size() == (
                    (screen_width - VIDEO_WIDTH - 4) as usize,
                    (screen_height - 2) as usize,
                )
            },
    {
        if screen_width < VIDEO_WIDTH + 4 || screen_height < VIDEO_HEIGHT / 2 + 1 {
            return None;
        }
        let buffer_size: usize = match screen_width.checked_mul(screen_height) {
            Some(size) => size,
            None => {
                return None;
            },
        };
        let video = Video::new(
            VIDEO_WIDTH,
            VIDEO_HEIGHT,
            ScreenOrigin { x: 2, y: 1, stride: screen_width },
        );
        assert((screen_width - VIDEO_WIDTH - 4) * (screen_height - 2) <= screen_width
            * screen_height) by (nonlinear_arith)
            requires
                screen_width >= VIDEO_WIDTH + 4,
                screen_height >= 2,
        ;
        let chatbox = Chatbox::new(
            screen_width - VIDEO_WIDTH - 4,
            screen_height - 2,
            ScreenOrigin { x: VIDEO_WIDTH + 4, y: 1, stride: screen_width },
        );
        let mut screen_buffer: Vec<Tile> = Vec::new();
        screen_buffer.resize(buffer_size, Tile::default());
        assert(screen_buffer@ =~= Seq::new(
            (screen_width * screen_height) as nat,
            |index: int| Tile { content: UPPER_HALF_BLOCK, top_brightness: 0, bottom_brightness: 0 },
        ));
        assert((1 + VIDEO_HEIGHT / 2) * screen_width <= screen_width * screen_height
            && (1 + (screen_height - 2)) * screen_width <= screen_width * screen_height)
            by (nonlinear_arith)
            requires
                screen_height >= VIDEO_HEIGHT / 2 + 1,
                screen_width >= 0,
        ;
        Some(Screen { screen_buffer, screen_width, video, chatbox })
    }

    /// The tiles of the screen, row by row.
    pub fn screen_buffer(&self) -> (tiles: &[Tile])
        ensures
            tiles@ == self.tiles(),
    {
        self.screen_buffer.as_slice()
    }

    /// Tiles in a row of the screen.
    pub fn screen_width(&self) -> (columns: usize)
        ensures
            columns == self.columns(),
    {
        self.screen_width
    }

    /// Takes in a frame of the camera for the picture; see
    /// `Video::receive_frame`.
    pub fn receive_frame(&mut self, width: usize, height: usize, rgb_buffer: &[u8]) -> (taken: bool)
        requires
            old(self).wf(),
        ensures
            final(self).wf(),
            final(self).tiles() == old(self).tiles(),
            final(self).columns() == old(self).columns(),
            final(self).chat() == old(self).chat(),
            taken == (width >= 1 && height >= 1 && rgb_buffer@.len() == width * height * 3),
    {
        self.video.receive_frame(width, height, rgb_buffer)
    }

}

/// The tile at `index` of a buffer once the picture has been drawn into
/// it: a tile of the picture gets the brightness of the two samples behind
/// it, every other tile is as before.
pub open spec fn drawn_picture(before: Seq<Tile>, video: Video, index: int) -> Tile {
    if in_region(video.origin(), video.size().0 as int, video.size().1 as int, index) {
        picture_tile(
            before[index],
            video.grid(),
            video.size().0 as int,
            video.sample_rows() as int,
            tile_column(video.origin(), index),
            tile_row(video.origin(), index),
        )
    } else {
        before[index]
    }
}

/// The tile at `index` of a buffer once the chat box has been drawn into
/// it: a tile of the box shows the character that the box has for it, every
/// other tile is as before.
pub open spec fn drawn_chat(before: Seq<Tile>, chatbox: Chatbox, index: int) -> Tile {
    if in_region(chatbox.origin(), chatbox.size().0 as int, chatbox.size().1 as int, index) {
        with_content(
            before[index],
            chat_content(
                message_rows(chatbox.sent(), chatbox.size().0),
                crate::text::wrapped_lines(chatbox.buffered(), chatbox.size().0),
                chatbox.size().1 as int,
                tile_column(chatbox.origin(), index),
                tile_row(chatbox.origin(), index),
            ),
        )
    } else {
        before[index]
    }
}

impl Screen {
    /// Whether `after` is this screen once `input` has been taken in. A
    /// tick leaves the chat box alone and draws the picture. Any other
    /// input goes to the chat box, which takes it into the message being
    /// typed or the messages sent and is then drawn. The picture itself and
    /// the size of the screen never change.
    pub open spec fn updated(self, input: InputType, after: Screen) -> bool {
        &&& after.columns() == self.columns()
        &&& after.picture() == self.picture()
        &&& after.tiles().len() == self.tiles().len()
        &&& input == InputType::TickUpdate ==> {
            &&& after.chat() == self.chat()
            &&& forall|index: int|
                0 <= index < self.tiles().len() ==> #[trigger] after.tiles()[index]
                    == drawn_picture(self.tiles(), self.picture(), index)
        }
        &&& input != InputType::TickUpdate ==> {
            &&& after.chat().origin() == self.chat().origin()
            &&& after.chat().size() == self.chat().size()
            &&& after.chat().sent() == updated_sent(
                self.chat().sent(),
                self.chat().buffered(),
                input,
            )
            &&& after.chat().buffered() == updated_buffered(self.chat().buffered(), input)
            &&& forall|index: int|
                0 <= index < self.tiles().len() ==> #[trigger] after.tiles()[index] == drawn_chat(
                    self.tiles(),
                    after.chat(),
                    index,
                )
        }
    }
}

impl Updatable for Screen {
    open spec fn ready(&self) -> bool {
        self.wf()
    }

    /// Takes in one input and redraws the component that it concerns: the
    /// picture on a tick, the chat box on anything else; see `updated`.
    fn update(&mut self, input: InputType)
        ensures
            old(self).updated(input, *final(self)),
            final(self).columns() == old(self).columns(),
            final(self).tiles().len() == old(self).tiles().len(),
            final(self).picture() == old(self).picture(),
            input == InputType::TickUpdate ==> final(self).chat() == old(self).chat(),
            input != InputType::TickUpdate ==> final(self).chat().sent() == updated_sent(
                old(self).chat().sent(),
                old(self).chat().buffered(),
                input,
            ) && final(self).chat().buffered() == updated_buffered(
                old(self).chat().buffered(),
                input,
            ),
    {
        match input {
            InputType::TickUpdate => {
                self.video.write_to_screen(&mut self.screen_buffer);
            },
            _ => {
                self.chatbox.update(input);
                self.chatbox.write_to_screen(&mut self.screen_buffer);
            },
        }
    }
}


impl Printable for Screen {
    open spec fn printed(&self) -> Seq<Seq<StyledTile>> {
        printed_lines(self.tiles(), self.columns() as int)
    }

    /// Cuts the buffer into the lines of the screen and styles each tile.
    fn print(&self) -> (lines: Vec<Vec<StyledTile>>) {
        let mut lines: Vec<Vec<StyledTile>> = Vec::new();
        let width: usize = self.screen_width;
        let total: usize = self.screen_buffer.len();
        if width == 0 {
            assert(line_tiles(lines@) =~= self.printed());
            return lines;
        }
        let ghost tiles = self.screen_buffer@;
        let ghost wanted = printed_lines(tiles, width as int);
        let mut begin: usize = 0;
        proof {
            if total == 0 {
                assert((total + width - 1) / (width as int) == 0) by (nonlinear_arith)
                    requires
                        total == 0,
                        width > 0,
                ;
            } else {
                lemma_line_count(total as int, width as int, 0);
            }
        }
        while begin < total
            invariant
                width > 0,
                total == tiles.len(),
                tiles == self.screen_buffer@,
                wanted == printed_lines(tiles, width as int),
                begin <= total,
                begin == lines@.len() * width || begin == total,
                begin == total ==> lines@.len() == (total + width - 1) / (width as int),
                begin < total ==> lines@.len() < (total + width - 1) / (width as int),
                forall|row: int| 0 <= row < lines@.len() ==> (#[trigger] lines@[row])@ == wanted[row],
            decreases total - begin,
        {
            let ghost row = lines@.len() as int;
            let end: usize = if total - begin < width {
                total
            } else {
                begin + width
            };
            proof {
                lemma_line_count(total as int, width as int, row);
            }
            let mut line: Vec<StyledTile> = Vec::new();
            let mut index: usize = begin;
            while index < end
                invariant
                    begin <= index <= end,
                    end <= total,
                    total == tiles.len(),
                    tiles == self.screen_buffer@,
                    line@.len() == index - begin,
                    forall|column: int|
                        0 <= column < line@.len() ==> #[trigger] line@[column] == tiles[begin
                            + column].styled_spec(),
                decreases end - index,
            {
                line.push(self.screen_buffer[index].styled());
                index = index + 1;
            }
            assert(line@ =~= wanted[row]);
            let ghost before = lines@;
            lines.push(line);
            assert forall|r: int| 0 <= r < lines@.len() implies (#[trigger] lines@[r])@
                == wanted[r] by {
                if r < row {
                    assert(lines@[r] == before[r]);
                }
            }
            begin = end;
        }
        assert(line_tiles(lines@) =~= wanted);
        lines
    }
}

/// Where the lines of a buffer of `total` tiles begin and how many there
/// are, for lines of `width` tiles.
proof fn lemma_line_count(total: int, width: int, row: int)
    requires
        width > 0,
        0 <= row,
        row * width < total,
    ensures
        row < (total + width - 1) / width,
        (row + 1) * width == row * width + width,
        (row + 1) * width >= total ==> row + 1 == (total + width - 1) / width,
        (row + 1) * width < total ==> row + 1 < (total + width - 1) / width,
{
    let count = (total + width - 1) / width;
    vstd::arithmetic::div_mod::lemma_fundamental_div_mod(total + width - 1, width);
    vstd::arithmetic::div_mod::lemma_mod_bound(total + width - 1, width);
    let rest = (total + width - 1) % width;
    assert(width * count == count * width) by (nonlinear_arith);
    assert((row + 1) * width == row * width + width) by (nonlinear_arith);
    assert(row < count) by (nonlinear_arith)
        requires
            total + width - 1 == count * width + rest,
            0 <= rest < width,
            row * width < total,
            width > 0,
    ;
    if (row + 1) * width >= total {
        assert(row + 1 >= count) by (nonlinear_arith)
            requires
                total + width - 1 == count * width + rest,
                0 <= rest < width,
                (row + 1) * width >= total,
                width > 0,
        ;
    } else {
        assert(row + 1 < count) by (nonlinear_arith)
            requires
                total + width - 1 == count * width + rest,
                0 <= rest < width,
                (row + 1) * width < total,
                width > 0,
        ;
    }
}

} // verus!
