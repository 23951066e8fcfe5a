//! The video path: NAL framing, the decode and encode pipelines, the
//! resampler and the terminal cell renderer.

use vstd::prelude::*;

use crate::layout::Drawable;
use crate::video::error::Error;
use crate::video::handler::{is_picture, LocalVideoHandler, PeerVideoHandler, VideoHandler};
use crate::video::interpolater::{resampled, BilinearInterpolater};

pub mod codec;
pub mod encoding;
pub mod error;
pub mod framing;
pub mod handler;
pub mod interpolater;
pub mod webcam;

verus! {

/// The glyph of every picture cell: its upper half shows the foreground
/// colour, its lower half the background colour.
pub const UPPER_HALF_BLOCK: char = '\u{2580}';

/// The first ANSI colour index of the 24-step grayscale ramp.
pub const ANSI_GRAYSCALE_BEGIN: u8 = 232;

/// The step of the 24-entry grayscale ramp that a luminance falls into:
/// `value / 256 * 24`, cut down to a whole number.
pub open spec fn ramp_step_spec(value: u8) -> int {
    (value as int * 24) / 256
}

/// The ANSI colour index of a luminance: the ramp begins at 232.
pub open spec fn normalize_spec(value: u8) -> int {
    232 + ramp_step_spec(value)
}

/// Quantizes a luminance to a step of the grayscale ramp, by truncation.
pub fn ramp_step(value: u8) -> (step: u8)
    ensures
        step == ramp_step_spec(value),
        step <= 23,
{
    let wide: u32 = value as u32;
    (wide * 24 / 256) as u8
}

/// Quantizes a luminance to the ANSI colour index of its step of the
/// grayscale ramp.
pub fn normalize(value: u8) -> (ansi: u8)
    ensures
        ansi == normalize_spec(value),
        232 <= ansi <= 255,
{
    232 + ramp_step(value)
}

/// Black maps to the first colour of the ramp and full white to the last;
/// every luminance stays within the ramp.
pub proof fn lemma_normalize_range(value: u8)
    ensures
        normalize_spec(0) == 232,
        normalize_spec(255) == 255,
        232 <= normalize_spec(value) <= 255,
{
}

/// A brighter luminance never maps to a darker colour.
pub proof fn lemma_normalize_monotonic(darker: u8, brighter: u8)
    requires
        darker <= brighter,
    ensures
        normalize_spec(darker) <= normalize_spec(brighter),
        ramp_step_spec(darker) <= ramp_step_spec(brighter),
{
}

/// One character of the terminal that shows two samples of the picture,
/// one above the other.
#[derive(Clone, Copy, Debug, PartialEq, Eq, Structural)]
pub struct TerminalCell {
    /// Column of the cell on the screen.
    pub column: u16,
    /// Row of the cell on the screen.
    pub row: u16,
    /// The character to print.
    pub glyph: char,
    /// Ramp step of the upper sample, `0..=23`: the foreground colour.
    pub top_color: u8,
    /// Ramp step of the lower sample, `0..=23`: the background colour.
    pub bottom_color: u8,
}

impl TerminalCell {
    /// The ANSI colour index of the upper half.
    pub fn top_ansi(&self) -> (ansi: u8)
        requires
            self.top_color <= 23,
        ensures
            ansi == 232 + self.top_color,
    {
        ANSI_GRAYSCALE_BEGIN + self.top_color
    }

    /// The ANSI colour index of the lower half.
    pub fn bottom_ansi(&self) -> (ansi: u8)
        requires
            self.bottom_color <= 23,
        ensures
            ansi == 232 + self.bottom_color,
    {
        ANSI_GRAYSCALE_BEGIN + self.bottom_color
    }
}

/// The cell in column `column` of cell row `row` of a grid with `width`
/// samples per row, drawn with its first cell at `(left, top)`. Row `2 *
/// row` of the grid gives the upper colour and row `2 * row + 1` the lower.
pub open spec fn cell_at(
    grid: Seq<u8>,
    width: int,
    column: int,
    row: int,
    left: int,
    top: int,
) -> TerminalCell {
    TerminalCell {
        column: (left + column) as u16,
        row: (top + row) as u16,
        glyph: UPPER_HALF_BLOCK,
        top_color: ramp_step_spec(grid[2 * row * width + column]) as u8,
        bottom_color: ramp_step_spec(grid[(2 * row + 1) * width + column]) as u8,
    }
}

/// Whether `rows` holds the cells of a grid: `height` rows of `width`
/// cells, each as `cell_at` gives it.
pub open spec fn is_rendering(
    rows: Seq<Vec<TerminalCell>>,
    grid: Seq<u8>,
    width: int,
    height: int,
    left: int,
    top: int,
) -> bool {
    &&& rows.len() == height
    &&& forall|row: int| 0 <= row < height ==> (#[trigger] rows[row])@.len() == width
    &&& forall|row: int, column: int|
        0 <= row < height && 0 <= column < width ==> #[trigger] rows[row]@[column] == cell_at(
            grid,
            width,
            column,
            row,
            left,
            top,
        )
}

/// Turns a brightness grid into rows of terminal cells.
///
/// The grid holds `2 * height` rows of `width` samples. Each pair of rows
/// becomes one row of cells: the even row gives a cell's upper colour, the
/// odd row its lower colour, both as steps of the grayscale ramp. The cell
/// in column `c` of row `r` is placed at `(left + c, top + r)`.
pub fn render(grid: &[u8], width: usize, height: usize, left: u16, top: u16) -> (rows: Vec<
    Vec<TerminalCell>,
>)
    requires
        grid@.len() == width * height * 2,
        left + width <= 0x1_0000,
        top + height <= 0x1_0000,
    ensures
        is_rendering(rows@, grid@, width as int, height as int, left as int, top as int),
        forall|row: int, column: int|
            0 <= row < height && 0 <= column < width ==> (#[trigger] rows@[row]@[column]).top_color
                <= 23 && rows@[row]@[column].bottom_color <= 23,
{
    let mut rows: Vec<Vec<TerminalCell>> = Vec::new();
    let total: usize = grid.len();
    let mut row: usize = 0;
    while row < height
        invariant
            row <= height,
            total == grid@.len(),
            total == width * height * 2,
            left + width <= 0x1_0000,
            top + height <= 0x1_0000,
            is_rendering(rows@, grid@, width as int, row as int, left as int, top as int),
            forall|r: int, c: int|
                0 <= r < row && 0 <= c < width ==> (#[trigger] rows@[r]@[c]).top_color <= 23
                    && rows@[r]@[c].bottom_color <= 23,
        decreases height - row,
    {
        assert(0 <= 2 * row * width && (2 * row + 1) * width == 2 * row * width + width && (2 * row
            + 1) * width + width <= width * height * 2) by (nonlinear_arith)
            requires
                0 <= row < height,
                0 <= width,
        ;
        let upper: usize = 2 * row * width;
        let lower: usize = upper + width;
        let mut cells: Vec<TerminalCell> = Vec::new();
        let mut column: usize = 0;
        while column < width
            invariant
                column <= width,
                row < height,
                total == grid@.len(),
                upper == 2 * row * width,
                lower == upper + width,
                lower == (2 * row + 1) * width,
                lower + width <= total,
                left + width <= 0x1_0000,
                top + height <= 0x1_0000,
                cells@.len() == column,
                forall|c: int|
                    0 <= c < column ==> #[trigger] cells@[c] == cell_at(
                        grid@,
                        width as int,
                        c,
                        row as int,
                        left as int,
                        top as int,
                    ),
                forall|c: int|
                    0 <= c < column ==> (#[trigger] cells@[c]).top_color <= 23
                        && cells@[c].bottom_color <= 23,
            decreases width - column,
        {
            let cell = TerminalCell {
                column: (left as usize + column) as u16,
                row: (top as usize + row) as u16,
                glyph: UPPER_HALF_BLOCK,
                top_color: ramp_step(grid[upper + column]),
                bottom_color: ramp_step(grid[lower + column]),
            };
            cells.push(cell);
            column = column + 1;
        }
        let ghost before = rows@;
        rows.push(cells);
        assert forall|r: int, c: int| 0 <= r < row + 1 && 0 <= c < width implies #[trigger] rows@[r]@[c]
            == cell_at(grid@, width as int, c, r, left as int, top as int) by {
            if r < row {
                assert(rows@[r] == before[r]);
            }
        }
        assert forall|r: int, c: int| 0 <= r < row + 1 && 0 <= c < width implies (
        #[trigger] rows@[r]@[c]).top_color <= 23 && rows@[r]@[c].bottom_color <= 23 by {
            if r < row {
                assert(rows@[r] == before[r]);
            }
        }
        assert forall|r: int| 0 <= r < row + 1 implies (#[trigger] rows@[r])@.len() == width by {
            if r < row {
                assert(rows@[r] == before[r]);
            }
        }
        row = row + 1;
    }
    rows
}

/// A bordered panel of the screen that shows the frames of one video
/// source as a grid of half-block cells.
pub struct VideoPanel<T: VideoHandler> {
    x: u16,
    y: u16,
    width: u16,
    height: u16,
    video_handler: T,
    bilinear_interpolater: BilinearInterpolater,
}

/// A panel for the frames of the local camera.
pub type LocalVideoPanel = VideoPanel<LocalVideoHandler>;

/// A panel for the frames of a remote peer.
pub type PeerVideoPanel = VideoPanel<PeerVideoHandler>;

/// Cells between the border of a panel and its picture, on the left and on
/// the right.
pub const PADDING: u16 = 1;

/// Columns of cells inside a panel of the given width: what is left after
/// the border and the padding on both sides.
pub open spec fn picture_columns(width: u16) -> u16 {
    if width >= 4 {
        (width - 4) as u16
    } else {
        0
    }
}

/// Rows of cells inside a panel of the given height: what is left after the
/// border above and below.
pub open spec fn picture_rows(height: u16) -> u16 {
    if height >= 2 {
        (height - 2) as u16
    } else {
        0
    }
}

impl LocalVideoPanel {
    /// A panel for the local camera, whose frames have the given size.
    pub fn new_local(
        x: u16,
        y: u16,
        width: u16,
        height: u16,
        camera_width: usize,
        camera_height: usize,
    ) -> (panel: Result<Self, Error>)
        requires
            x + width <= 0x1_0000,
            y + height <= 0x1_0000,
            picture_columns(width) * picture_rows(height) * 2 <= usize::MAX,
        ensures
            panel matches Ok(made) ==> made.wf() && made.rect() == (x, y, width, height)
                && made.handler().frame_size() == (camera_width, camera_height)
                && made.handler().frame() == Seq::new(
                (camera_width * camera_height * 3) as nat,
                |i: int| 0u8,
            ),
            panel matches Err(error) ==> error is CameraNotReady,
            panel is Ok <==> camera_width >= 1 && camera_height >= 1 && camera_width * camera_height
                * 3 <= usize::MAX,
    {
        match LocalVideoHandler::new(camera_width, camera_height) {
            Ok(video_handler) => Self::new(x, y, width, height, video_handler),
            Err(error) => Err(error),
        }
    }
}

impl PeerVideoPanel {
    /// A panel for a remote peer, with a decoder of its own.
    pub fn new_peer(x: u16, y: u16, width: u16, height: u16) -> (panel: Result<Self, Error>)
        requires
            x + width <= 0x1_0000,
            y + height <= 0x1_0000,
            picture_columns(width) * picture_rows(height) * 2 <= usize::MAX,
        ensures
            panel matches Ok(made) ==> made.wf() && made.rect() == (x, y, width, height)
                && made.handler().sps_view().is_none() && made.handler().pps_view().is_none()
                && made.handler().buffer_view() == Seq::<u8>::empty()
                && made.handler().frame() == Seq::<u8>::empty(),
            panel matches Err(error) ==> error is OpenH264,
    {
        match PeerVideoHandler::new() {
            Ok(video_handler) => Self::new(x, y, width, height, video_handler),
            Err(error) => Err(error),
        }
    }
}

impl<T: VideoHandler> VideoPanel<T> {
    /// Left edge, top edge, width and height of the panel, border included.
    pub closed spec fn rect(&self) -> (u16, u16, u16, u16) {
        (self.x, self.y, self.width, self.height)
    }

    /// The source of the panel's frames.
    pub closed spec fn handler(&self) -> T {
        self.video_handler
    }

    /// The brightness grid of the frame shown.
    pub closed spec fn grid(&self) -> Seq<u8> {
        self.bilinear_interpolater.grid()
    }

    /// The panel lies within the screen's coordinates, and its resampler is
    /// made for the cells inside its border: one column of samples for each
    /// column of cells, and two rows of samples for each row of cells.
    pub closed spec fn wf(&self) -> bool {
        &&& self.x + self.width <= 0x1_0000
        &&& self.y + self.height <= 0x1_0000
        &&& self.bilinear_interpolater.wf()
        &&& self.bilinear_interpolater.display_size() == (
            picture_columns(self.width) as usize,
            (2 * picture_rows(self.height)) as usize,
        )
    }

    /// The brightness grid of a panel holds two values for each of its
    /// cells, whatever frames the panel has taken in.
    pub proof fn lemma_grid_length(&self)
        requires
            self.wf(),
        ensures
            self.grid().len() == picture_columns(self.rect().2) * picture_rows(self.rect().3) * 2,
    {
        assert(picture_columns(self.width) * (2 * picture_rows(self.height)) == picture_columns(
            self.width,
        ) * picture_rows(self.height) * 2) by (nonlinear_arith);
    }

    /// A panel at `(x, y)` of the given size around the given source. A
    /// panel too small for its border and padding has no picture cells.
    pub fn new(x: u16, y: u16, width: u16, height: u16, video_handler: T) -> (panel: Result<
        Self,
        Error,
    >)
        requires
            x + width <= 0x1_0000,
            y + height <= 0x1_0000,
            picture_columns(width) * picture_rows(height) * 2 <= usize::MAX,
        ensures
            panel matches Ok(made) && made.wf() && made.rect() == (x, y, width, height)
                && made.handler() == video_handler && made.grid() == Seq::new(
                (picture_columns(width) * picture_rows(height) * 2) as nat,
                |index: int| 0u8,
            ),
    {
        let columns: u16 = if width >= 2 * (PADDING + 1) {
            width - 2 * (PADDING + 1)
        } else {
            0
        };
        let rows: u16 = if height >= 2 {
            height - 2
        } else {
            0
        };
        assert(columns * (2 * rows) == columns * rows * 2) by (nonlinear_arith);
        let bilinear_interpolater = BilinearInterpolater::with_size(
            columns as usize,
            2 * (rows as usize),
        );
        Ok(VideoPanel { x, y, width, height, video_handler, bilinear_interpolater })
    }

    /// Hands one message of the panel's stream to the source of its frames
    /// and answers as the source does: the message is taken exactly if the
    /// source takes it, and an error of the source is passed on. A frame
    /// that the message yields is resampled into the brightness grid; on an
    /// error the grid stays as it is.
    pub fn receive_stream(&mut self, stream: &Vec<u8>) -> (taken: Result<(), Error>)
        requires
            old(self).wf(),
        ensures
            final(self).wf(),
            final(self).rect() == old(self).rect(),
            final(self).grid().len() == picture_columns(old(self).rect().2) * picture_rows(
                old(self).rect().3,
            ) * 2,
            taken is Ok ==> old(self).handler().answers(
                stream@,
                Ok(final(self).handler().frame_size()),
                final(self).handler(),
            ),
            taken matches Err(error) ==> old(self).handler().answers(
                stream@,
                Err(error),
                final(self).handler(),
            ),
            taken is Ok ==> is_picture(
                final(self).handler().frame_size().0,
                final(self).handler().frame_size().1,
                final(self).handler().frame(),
            ) && final(self).grid() == resampled(
                final(self).handler().frame(),
                final(self).handler().frame_size().0 as int,
                final(self).handler().frame_size().1 as int,
                picture_columns(old(self).rect().2) as int,
                2 * picture_rows(old(self).rect().3),
            ),
            taken is Err ==> final(self).grid() == old(self).grid(),
    {
        proof {
            self.lemma_grid_length();
        }
        let (width, height) = match self.video_handler.receive_stream(stream) {
            Ok(size) => size,
            Err(error) => {
                return Err(error);
            },
        };
        self.bilinear_interpolater.update_weights_if_needed(width, height);
        self.bilinear_interpolater.update_grayscale_buffer(self.video_handler.rgb_buffer());
        proof {
            let columns = picture_columns(self.width) as int;
            let rows = 2 * picture_rows(self.height);
            if columns == 0 || rows == 0 {
                assert(columns * rows == 0) by (nonlinear_arith)
                    requires
                        columns == 0 || rows == 0,
                ;
                assert(self.grid() =~= resampled(
                    self.video_handler.frame(),
                    width as int,
                    height as int,
                    columns,
                    rows,
                ));
            } else {
                assert(columns * rows > 0) by (nonlinear_arith)
                    requires
                        columns > 0,
                        rows > 0,
                ;
            }
        }
        Ok(())
    }

    /// The cells that show the current frame: one row of cells for each
    /// pair of rows of the brightness grid, placed inside the panel's border
    /// and padding.
    pub fn cells(&self) -> (rows: Vec<Vec<TerminalCell>>)
        requires
            self.wf(),
        ensures
            is_rendering(
                rows@,
                self.grid(),
                picture_columns(self.rect().2) as int,
                picture_rows(self.rect().3) as int,
                self.rect().0 + 2,
                self.rect().1 + 1,
            ),
            forall|row: int, column: int|
                0 <= row < rows@.len() && 0 <= column < picture_columns(self.rect().2) ==> (
                #[trigger] rows@[row]@[column]).top_color <= 23 && rows@[row]@[column].bottom_color
                    <= 23,
    {
        let columns: usize = if self.width >= 4 {
            (self.width - 4) as usize
        } else {
            0
        };
        let rows: usize = if self.height >= 2 {
            (self.height - 2) as usize
        } else {
            0
        };
        if columns == 0 || rows == 0 {
            let mut empty: Vec<Vec<TerminalCell>> = Vec::new();
            let mut row: usize = 0;
            while row < rows
                invariant
                    row <= rows,
                    columns == 0 || rows == 0,
                    empty@.len() == row,
                    forall|r: int| 0 <= r < row ==> (#[trigger] empty@[r])@.len() == 0,
                decreases rows - row,
            {
                empty.push(Vec::new());
                row = row + 1;
            }
            return empty;
        }
        let grid = self.bilinear_interpolater.grayscale_buffer();
        assert(grid@.len() == columns * rows * 2) by (nonlinear_arith)
            requires
                grid@.len() == columns * (2 * rows),
        ;
        render(grid, columns, rows, self.x + PADDING + 1, self.y + 1)
    }
}

impl<T: VideoHandler> Drawable for VideoPanel<T> {
    open spec fn bounds(&self) -> (u16, u16, u16, u16) {
        self.rect()
    }

    fn x(&self) -> (x: u16) {
        self.x
    }

    fn y(&self) -> (y: u16) {
        self.y
    }

    fn width(&self) -> (width: u16) {
        self.width
    }

    fn height(&self) -> (height: u16) {
        self.height
    }
}

} // verus!
