//! The picture on the screen: the frame of the camera, resampled to rows of
//! brightness samples, two rows for each row of tiles.

use vstd::prelude::*;

use crate::ui::screen::{
    fits, in_region, lemma_region_index, lemma_tile_in_buffer, tile_column, tile_row,
    ScreenComponent, ScreenOrigin,
};
use crate::ui::tile::Tile;
use crate::video::handler::holds_picture;
use crate::video::interpolater::{resampled, BilinearInterpolater};

verus! {

/// The picture: a resampler and the place of the picture on the screen.
pub struct Video {
    interpolater: BilinearInterpolater,
    display_width: usize,
    display_height: usize,
    origin: ScreenOrigin,
}

/// The rows of tiles that `height` rows of brightness samples take: two
/// rows of samples go into one row of tiles, and a last row of samples
/// left alone takes a row of tiles of its own.
pub open spec fn tile_rows(height: int) -> int {
    (height + 1) / 2
}

/// The tile of the picture in column `column` and row `row`: the tile as it
/// was, with the brightness of the samples behind it. Row `2 * row` of the
/// grid gives the upper half and row `2 * row + 1` the lower; where the
/// grid of `height` rows has no such row, the lower half stays as it was.
pub open spec fn picture_tile(
    before: Tile,
    grid: Seq<u8>,
    width: int,
    height: int,
    column: int,
    row: int,
) -> Tile {
    Tile {
        content: before.content,
        top_brightness: grid[2 * row * width + column],
        bottom_brightness: if 2 * row + 1 < height {
            grid[(2 * row + 1) * width + column]
        } else {
            before.bottom_brightness
        },
    }
}

impl Video {
    /// The brightness grid of the frame shown: `sample_rows()` rows of
    /// `size().0` samples.
    pub closed spec fn grid(&self) -> Seq<u8> {
        self.interpolater.grid()
    }

    /// Rows of brightness samples of the picture.
    pub closed spec fn sample_rows(&self) -> usize {
        self.display_height
    }

    /// Tiles in a row of the picture.
    pub fn width(&self) -> (columns: usize)
        ensures
            columns == self.size().0,
    {
        self.display_width
    }

    /// Takes in a frame of the camera and resamples it into the brightness
    /// grid. Bytes that are no picture of the given size are refused and
    /// change nothing.
    pub fn receive_frame(&mut self, width: usize, height: usize, rgb_buffer: &[u8]) -> (taken: bool)
        requires
            old(self).wf(),
        ensures
            final(self).wf(),
            final(self).origin() == old(self).origin(),
            final(self).size() == old(self).size(),
            final(self).sample_rows() == old(self).sample_rows(),
            taken == (width >= 1 && height >= 1 && rgb_buffer@.len() == width * height * 3),
            !taken ==> final(self).grid() == old(self).grid(),
            taken ==> final(self).grid() == resampled(
                rgb_buffer@,
                width as int,
                height as int,
                old(self).size().0 as int,
                old(self).sample_rows() as int,
            ),
    {
        if !holds_picture(width, height, rgb_buffer.len()) {
            return false;
        }
        self.interpolater.update_weights_if_needed(width, height);
        self.interpolater.update_grayscale_buffer(rgb_buffer);
        proof {
            let columns = self.display_width as int;
            let rows = self.display_height as int;
            if columns == 0 || rows == 0 {
                assert(columns * rows == 0) by (nonlinear_arith)
                    requires
                        columns == 0 || rows == 0,
                ;
                assert(self.grid() =~= resampled(
                    rgb_buffer@,
                    width as int,
                    height as int,
                    columns,
                    rows,
                ));
            } else {
                assert(columns * rows > 0) by (nonlinear_arith)
                    requires
                        columns > 0,
                        rows > 0,
                ;
            }
        }
        true
    }
}

impl ScreenComponent for Video {
    /// The resampler is made for the picture's samples.
    closed spec fn wf(&self) -> bool {
        &&& self.interpolater.wf()
        &&& self.interpolater.display_size() == (self.display_width, self.display_height)
    }

    closed spec fn origin(&self) -> ScreenOrigin {
        self.origin
    }

    closed spec fn size(&self) -> (usize, usize) {
        (self.display_width, tile_rows(self.display_height as int) as usize)
    }

    /// A black picture of `display_height` rows of `display_width`
    /// brightness samples, two rows of samples for each row of tiles.
    fn new(display_width: usize, display_height: usize, origin: ScreenOrigin) -> (made: Self)
        ensures
            made.size() == (display_width, tile_rows(display_height as int) as usize),
            made.sample_rows() == display_height,
            made.grid() == Seq::new((display_width * display_height) as nat, |index: int| 0u8),
    {
        let interpolater = BilinearInterpolater::with_size(display_width, display_height);
        Video { interpolater, display_width, display_height, origin }
    }

    /// Writes the brightness of the frame into the tiles of the picture:
    /// the even rows of the grid into the upper halves, the odd rows into
    /// the lower halves. The characters of the tiles stay as they are.
    fn write_to_screen(&self, screen_buffer: &mut Vec<Tile>)
        ensures
            forall|index: int|
                0 <= index < old(screen_buffer)@.len() && in_region(
                    self.origin(),
                    self.size().0 as int,
                    self.size().1 as int,
                    index,
                ) ==> #[trigger] final(screen_buffer)@[index] == picture_tile(
                    old(screen_buffer)@[index],
                    self.grid(),
                    self.size().0 as int,
                    self.sample_rows() as int,
                    tile_column(self.origin(), index),
                    tile_row(self.origin(), index),
                ),
    {
        let grid = self.interpolater.grayscale_buffer();
        let width: usize = self.display_width;
        let samples: usize = self.display_height;
        let height: usize = samples / 2 + samples % 2;
        let stride: usize = self.origin.stride;
        let total: usize = screen_buffer.len();
        let length: usize = grid.len();
        assert(length == width * samples);
        let ghost before = screen_buffer@;
        let ghost origin = self.origin;
        let mut row: usize = 0;
        while row < height
            invariant
                row <= height,
                width == self.size().0,
                height == self.size().1,
                samples == self.sample_rows(),
                height == tile_rows(samples as int),
                origin == self.origin(),
                stride == origin.stride,
                total == before.len(),
                screen_buffer@.len() == total,
                grid@ == self.grid(),
                grid@.len() == width * samples,
                length == grid@.len(),
                fits(origin, width as int, height as int, total as int),
                forall|index: int|
                    0 <= index < total ==> #[trigger] screen_buffer@[index] == if in_region(
                        origin,
                        width as int,
                        row as int,
                        index,
                    ) {
                        picture_tile(
                            before[index],
                            grid@,
                            width as int,
                            samples as int,
                            tile_column(origin, index),
                            tile_row(origin, index),
                        )
                    } else {
                        before[index]
                    },
            decreases height - row,
        {
            let has_lower: bool = samples - 2 * row >= 2;
            proof {
                if width > 0 {
                    lemma_tile_in_buffer(
                        origin,
                        width as int,
                        height as int,
                        total as int,
                        0,
                        row as int,
                    );
                }
                assert(0 <= 2 * row * width && 2 * row * width + width <= width * samples && (2
                    * row + 1) * width == 2 * row * width + width) by (nonlinear_arith)
                    requires
                        0 <= 2 * row < samples,
                        0 <= width,
                ;
                if has_lower {
                    assert((2 * row + 1) * width + width <= width * samples) by (nonlinear_arith)
                        requires
                            2 * row + 2 <= samples,
                            0 <= width,
                    ;
                }
            }
            let upper: usize = 2 * row * width;
            let lower: usize = upper + width;
            let mut column: usize = 0;
            while column < width
                invariant
                    column <= width,
                    row < height,
                    width == self.size().0,
                    height == self.size().1,
                    samples == self.sample_rows(),
                    has_lower == (2 * row + 1 < samples),
                    origin == self.origin(),
                    stride == origin.stride,
                    total == before.len(),
                    screen_buffer@.len() == total,
                    grid@ == self.grid(),
                    upper == 2 * row * width,
                    lower == upper + width,
                    lower == (2 * row + 1) * width,
                    lower <= grid@.len(),
                    has_lower ==> lower + width <= grid@.len(),
                    fits(origin, width as int, height as int, total as int),
                    forall|index: int|
                        0 <= index < total ==> #[trigger] screen_buffer@[index] == if in_region(
                            origin,
                            width as int,
                            row as int,
                            index,
                        ) || (in_region(origin, width as int, height as int, index) && tile_row(
                            origin,
                            index,
                        ) == row && tile_column(origin, index) < column) {
                            picture_tile(
                                before[index],
                                grid@,
                                width as int,
                                samples as int,
                                tile_column(origin, index),
                                tile_row(origin, index),
                            )
                        } else {
                            before[index]
                        },
                decreases width - column,
            {
                proof {
                    lemma_tile_in_buffer(
                        origin,
                        width as int,
                        height as int,
                        total as int,
                        column as int,
                        row as int,
                    );
                }
                assert(stride >= 1 && origin.y + row <= (origin.y + row) * stride)
                    by (nonlinear_arith)
                    requires
                        origin.x + width <= stride,
                        column < width,
                        0 <= origin.y + row,
                ;
                let index: usize = (self.origin.y + row) * stride + self.origin.x + column;
                let mut tile = screen_buffer[index];
                tile.top_brightness = grid[upper + column];
                if has_lower {
                    tile.bottom_brightness = grid[lower + column];
                }
                let ghost earlier = screen_buffer@;
                screen_buffer.set(index, tile);
                proof {
                    assert(earlier[index as int] == before[index as int]);
                    assert forall|other: int| 0 <= other < total implies #[trigger] screen_buffer@[other]
                        == if in_region(origin, width as int, row as int, other) || (in_region(
                        origin,
                        width as int,
                        height as int,
                        other,
                    ) && tile_row(origin, other) == row && tile_column(origin, other) < column
                        + 1) {
                        picture_tile(
                            before[other],
                            grid@,
                            width as int,
                            samples as int,
                            tile_column(origin, other),
                            tile_row(origin, other),
                        )
                    } else {
                        before[other]
                    } by {
                        if other != index {
                            assert(screen_buffer@[other] == earlier[other]);
                            if in_region(origin, width as int, height as int, other) && tile_row(
                                origin,
                                other,
                            ) == row && tile_column(origin, other) == column {
                                lemma_region_index(origin, width as int, height as int, other);
                            }
                        }
                    }
                }
                column = column + 1;
            }
            row = row + 1;
        }
    }
}

} // verus!
