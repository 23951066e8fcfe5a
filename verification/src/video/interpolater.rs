//! The bilinear resampler: from a decoded RGB picture to a grid of
//! luminance values. A video panel asks for two rows of the grid for each
//! of its rows of terminal cells.
//!
//! All arithmetic is exact. The position of output sample `i` along an axis
//! of `input` pixels and `output` samples is the fraction
//! `i * (input - 1) / output`; a weight keeps its integer part, the next
//! pixel, and the numerator of what is left. Luminance is kept in
//! ten-thousandths, so that the BT.709 coefficients are whole numbers.

use vstd::arithmetic::div_mod::{
    lemma_fundamental_div_mod, lemma_fundamental_div_mod_converse, lemma_mod_bound,
};
use vstd::arithmetic::mul::{lemma_mul_nonnegative, lemma_mul_upper_bound};
use vstd::prelude::*;

verus! {

/// The numerator of the position of output sample `i` along an axis of
/// `input` pixels; the denominator is the number of output samples.
pub open spec fn scaled_position(i: int, input: int) -> int {
    i * (input - 1)
}

/// The pixel at or before the position of output sample `i`.
pub open spec fn lower_sample(i: int, input: int, output: int) -> int {
    scaled_position(i, input) / output
}

/// What the position of output sample `i` has beyond `lower_sample`, as a
/// numerator over `output`.
pub open spec fn sample_fraction(i: int, input: int, output: int) -> int {
    scaled_position(i, input) % output
}

/// The pixel at or after the position of output sample `i`.
pub open spec fn upper_sample(i: int, input: int, output: int) -> int {
    if sample_fraction(i, input, output) > 0 {
        lower_sample(i, input, output) + 1
    } else {
        lower_sample(i, input, output)
    }
}

/// The four pixels around the position of one output sample, and how far
/// the position lies from the first towards the others: `dx` out of the
/// grid's width, `dy` out of the grid's height.
#[derive(Clone, Copy, Debug, PartialEq, Eq, Structural)]
pub struct BilinearWeight {
    pub x0: usize,
    pub y0: usize,
    pub x1: usize,
    pub y1: usize,
    pub dx: usize,
    pub dy: usize,
}

/// The weight of the output sample in column `x` and row `y` of a grid of
/// `grid_width` by `grid_height` samples over a picture of `input_width` by
/// `input_height` pixels.
pub open spec fn weight_for(
    x: int,
    y: int,
    input_width: int,
    input_height: int,
    grid_width: int,
    grid_height: int,
) -> BilinearWeight {
    BilinearWeight {
        x0: lower_sample(x, input_width, grid_width) as usize,
        y0: lower_sample(y, input_height, grid_height) as usize,
        x1: upper_sample(x, input_width, grid_width) as usize,
        y1: upper_sample(y, input_height, grid_height) as usize,
        dx: sample_fraction(x, input_width, grid_width) as usize,
        dy: sample_fraction(y, input_height, grid_height) as usize,
    }
}

/// The samples of an output position stay inside the picture: the last
/// output sample lies before the last pixel, so that even its upper
/// neighbour exists.
pub proof fn lemma_samples_in_range(i: int, input: int, output: int)
    requires
        0 <= i < output,
        input >= 1,
    ensures
        0 <= lower_sample(i, input, output) <= upper_sample(i, input, output) < input,
        0 <= sample_fraction(i, input, output) < output,
        lower_sample(i, input, output) * output + sample_fraction(i, input, output) == i * (input
            - 1),
{
    let n = scaled_position(i, input);
    let q = n / output;
    let r = n % output;
    lemma_mul_nonnegative(i, input - 1);
    lemma_fundamental_div_mod(n, output);
    lemma_mod_bound(n, output);
    assert(n == output * q + r);
    assert(output * q == q * output) by (nonlinear_arith);
    assert(q >= 0) by (nonlinear_arith)
        requires
            n == q * output + r,
            0 <= r < output,
            n >= 0,
    ;
    if input == 1 {
        assert(n == 0) by (nonlinear_arith)
            requires
                n == i * (input - 1),
                input == 1,
        ;
        assert(q == 0 && r == 0) by (nonlinear_arith)
            requires
                0 == q * output + r,
                0 <= r < output,
                q >= 0,
        ;
    } else {
        assert(n < output * (input - 1)) by (nonlinear_arith)
            requires
                n == i * (input - 1),
                0 <= i < output,
                input >= 2,
        ;
        assert(q < input - 1) by (nonlinear_arith)
            requires
                n == q * output + r,
                0 <= r,
                n < output * (input - 1),
                output > 0,
        ;
    }
}

impl BilinearWeight {
    /// Computes the weight of the output sample in column `x` and row `y`.
    pub fn new(
        x: usize,
        y: usize,
        input_width: usize,
        input_height: usize,
        grid_width: usize,
        grid_height: usize,
    ) -> (weight: Self)
        requires
            x < grid_width,
            y < grid_height,
            input_width >= 1,
            input_height >= 1,
        ensures
            weight == weight_for(
                x as int,
                y as int,
                input_width as int,
                input_height as int,
                grid_width as int,
                grid_height as int,
            ),
            weight.x0 <= weight.x1 < input_width,
            weight.y0 <= weight.y1 < input_height,
            weight.dx < grid_width,
            weight.dy < grid_height,
    {
        let (x0, x1, dx) = sample(x, input_width, grid_width);
        let (y0, y1, dy) = sample(y, input_height, grid_height);
        BilinearWeight { x0, y0, x1, y1, dx, dy }
    }
}

/// The two pixels around the position of output sample `i` along one axis,
/// and the numerator of the distance from the first.
fn sample(i: usize, input: usize, output: usize) -> (found: (usize, usize, usize))
    requires
        i < output,
        input >= 1,
    ensures
        found.0 == lower_sample(i as int, input as int, output as int),
        found.1 == upper_sample(i as int, input as int, output as int),
        found.2 == sample_fraction(i as int, input as int, output as int),
        found.0 <= found.1 < input,
        found.2 < output,
{
    proof {
        lemma_samples_in_range(i as int, input as int, output as int);
        lemma_mul_upper_bound(i as int, usize::MAX as int, (input - 1) as int, usize::MAX as int);
        assert(usize::MAX * usize::MAX <= u128::MAX) by (nonlinear_arith)
            requires
                usize::MAX <= 0xffff_ffff_ffff_ffff,
        ;
    }
    let position: u128 = (i as u128) * ((input - 1) as u128);
    let lower: usize = (position / (output as u128)) as usize;
    let rest: usize = (position % (output as u128)) as usize;
    let upper: usize = if rest > 0 {
        lower + 1
    } else {
        lower
    };
    (lower, upper, rest)
}

/// The luminance of a pixel in ten-thousandths, by the BT.709 weights.
pub open spec fn luminance(red: u8, green: u8, blue: u8) -> int {
    2126 * red as int + 7152 * green as int + 722 * blue as int
}

/// The luminance, in ten-thousandths, of the pixel in column `x` and row
/// `y` of a picture with `stride` pixels per row.
pub open spec fn luminance_at(rgb: Seq<u8>, x: int, y: int, stride: int) -> int {
    let base = (y * stride + x) * 3;
    luminance(rgb[base], rgb[base + 1], rgb[base + 2])
}

/// The four luminances around an output position, each multiplied by the
/// share of the position that falls to it. The shares add up to
/// `grid_width * grid_height`.
pub open spec fn weighted_luminance(
    rgb: Seq<u8>,
    stride: int,
    weight: BilinearWeight,
    grid_width: int,
    grid_height: int,
) -> int {
    let left = grid_width - weight.dx;
    let top = grid_height - weight.dy;
    luminance_at(rgb, weight.x0 as int, weight.y0 as int, stride) * (left * top) + luminance_at(
        rgb,
        weight.x1 as int,
        weight.y0 as int,
        stride,
    ) * (weight.dx * top) + luminance_at(rgb, weight.x0 as int, weight.y1 as int, stride) * (left
        * weight.dy) + luminance_at(rgb, weight.x1 as int, weight.y1 as int, stride) * (weight.dx
        * weight.dy)
}

/// The brightness of one output sample: the bilinear combination of the
/// four luminances around its position, cut down to a whole number and
/// kept within `0..=255`.
pub open spec fn interpolated(
    rgb: Seq<u8>,
    stride: int,
    weight: BilinearWeight,
    grid_width: int,
    grid_height: int,
) -> int {
    let value = weighted_luminance(rgb, stride, weight, grid_width, grid_height) / (10000
        * grid_width * grid_height);
    if value < 0 {
        0
    } else if value > 255 {
        255
    } else {
        value
    }
}

/// Where the three bytes of a pixel begin, and that they lie inside the
/// picture.
proof fn lemma_pixel_in_picture(x: int, y: int, width: int, height: int)
    requires
        0 <= x < width,
        0 <= y < height,
    ensures
        0 <= (y * width + x) * 3,
        (y * width + x) * 3 + 2 < width * height * 3,
        0 <= y * width <= width * height - width,
{
    assert(0 <= y * width <= width * height - width) by (nonlinear_arith)
        requires
            0 <= y < height,
            0 < width,
    ;
}

/// The luminance, in ten-thousandths, of one pixel of a picture.
pub fn at(x: usize, y: usize, stride: usize, rgb_buffer: &[u8]) -> (value: u64)
    requires
        x < stride,
        (y * stride + x) * 3 + 2 < rgb_buffer@.len(),
    ensures
        value == luminance_at(rgb_buffer@, x as int, y as int, stride as int),
        value <= 2550000,
{
    assert(0 <= y * stride <= y * stride + x <= (y * stride + x) * 3) by (nonlinear_arith)
        requires
            0 <= y,
            0 <= x,
            0 <= stride,
    ;
    let length: usize = rgb_buffer.len();
    assert((y * stride + x) * 3 + 2 < length);
    let base: usize = (y * stride + x) * 3;
    let red: u64 = rgb_buffer[base] as u64;
    let green: u64 = rgb_buffer[base + 1] as u64;
    let blue: u64 = rgb_buffer[base + 2] as u64;
    2126 * red + 7152 * green + 722 * blue
}

/// A weighted sum of four values, none above `bound`, whose shares add up
/// to `total`, is at most `bound * total`.
proof fn lemma_blend_bound(
    a: int,
    b: int,
    c: int,
    d: int,
    dx: int,
    dy: int,
    width: int,
    height: int,
    bound: int,
)
    requires
        0 <= a <= bound,
        0 <= b <= bound,
        0 <= c <= bound,
        0 <= d <= bound,
        0 <= dx < width,
        0 <= dy < height,
    ensures
        0 <= a * ((width - dx) * (height - dy)) + b * (dx * (height - dy)) + c * ((width - dx) * dy)
            + d * (dx * dy) <= bound * (width * height),
        0 <= (width - dx) * (height - dy) <= width * height,
        0 <= dx * (height - dy) <= width * height,
        0 <= (width - dx) * dy <= width * height,
        0 <= dx * dy <= width * height,
        0 <= a * ((width - dx) * (height - dy)) <= bound * (width * height),
        0 <= b * (dx * (height - dy)) <= bound * (width * height),
        0 <= c * ((width - dx) * dy) <= bound * (width * height),
        0 <= d * (dx * dy) <= bound * (width * height),
{
    let s00 = (width - dx) * (height - dy);
    let s10 = dx * (height - dy);
    let s01 = (width - dx) * dy;
    let s11 = dx * dy;
    assert(s00 >= 0 && s10 >= 0 && s01 >= 0 && s11 >= 0) by (nonlinear_arith)
        requires
            s00 == (width - dx) * (height - dy),
            s10 == dx * (height - dy),
            s01 == (width - dx) * dy,
            s11 == dx * dy,
            0 <= dx < width,
            0 <= dy < height,
    ;
    assert(s00 + s10 + s01 + s11 == width * height) by (nonlinear_arith)
        requires
            s00 == (width - dx) * (height - dy),
            s10 == dx * (height - dy),
            s01 == (width - dx) * dy,
            s11 == dx * dy,
    ;
    assert(0 <= a * s00 <= bound * s00) by (nonlinear_arith)
        requires
            0 <= a <= bound,
            s00 >= 0,
    ;
    assert(0 <= b * s10 <= bound * s10) by (nonlinear_arith)
        requires
            0 <= b <= bound,
            s10 >= 0,
    ;
    assert(0 <= c * s01 <= bound * s01) by (nonlinear_arith)
        requires
            0 <= c <= bound,
            s01 >= 0,
    ;
    assert(0 <= d * s11 <= bound * s11) by (nonlinear_arith)
        requires
            0 <= d <= bound,
            s11 >= 0,
    ;
    assert(bound * s00 + bound * s10 + bound * s01 + bound * s11 == bound * (width * height))
        by (nonlinear_arith)
        requires
            s00 + s10 + s01 + s11 == width * height,
    ;
    assert(bound * s00 <= bound * (width * height) && bound * s10 <= bound * (width * height)
        && bound * s01 <= bound * (width * height) && bound * s11 <= bound * (width * height))
        by (nonlinear_arith)
        requires
            s00 + s10 + s01 + s11 == width * height,
            s00 >= 0,
            s10 >= 0,
            s01 >= 0,
            s11 >= 0,
            bound >= 0,
    ;
}

/// The brightness of one output sample: the bilinear combination of the
/// luminances of the four pixels that its weight names.
pub fn interpolate(
    stride: usize,
    rgb_buffer: &[u8],
    weight: &BilinearWeight,
    grid_width: usize,
    grid_height: usize,
) -> (value: u8)
    requires
        weight.x0 < stride,
        weight.x1 < stride,
        (weight.y0 * stride + weight.x0) * 3 + 2 < rgb_buffer@.len(),
        (weight.y0 * stride + weight.x1) * 3 + 2 < rgb_buffer@.len(),
        (weight.y1 * stride + weight.x0) * 3 + 2 < rgb_buffer@.len(),
        (weight.y1 * stride + weight.x1) * 3 + 2 < rgb_buffer@.len(),
        weight.dx < grid_width,
        weight.dy < grid_height,
        grid_width * grid_height <= usize::MAX,
    ensures
        value == interpolated(
            rgb_buffer@,
            stride as int,
            *weight,
            grid_width as int,
            grid_height as int,
        ),
        value == weighted_luminance(
            rgb_buffer@,
            stride as int,
            *weight,
            grid_width as int,
            grid_height as int,
        ) / (10000 * grid_width * grid_height),
{
    let a: u128 = at(weight.x0, weight.y0, stride, rgb_buffer) as u128;
    let b: u128 = at(weight.x1, weight.y0, stride, rgb_buffer) as u128;
    let c: u128 = at(weight.x0, weight.y1, stride, rgb_buffer) as u128;
    let d: u128 = at(weight.x1, weight.y1, stride, rgb_buffer) as u128;
    let dx: u128 = weight.dx as u128;
    let dy: u128 = weight.dy as u128;
    let left: u128 = grid_width as u128 - dx;
    let top: u128 = grid_height as u128 - dy;
    let ghost whole = grid_width as int * grid_height as int;
    proof {
        lemma_blend_bound(
            a as int,
            b as int,
            c as int,
            d as int,
            dx as int,
            dy as int,
            grid_width as int,
            grid_height as int,
            2550000,
        );
        assert(0 < whole) by (nonlinear_arith)
            requires
                whole == grid_width as int * grid_height as int,
                0 < grid_width,
                0 < grid_height,
        ;
        assert(4 * (2550000 * whole) <= u128::MAX) by (nonlinear_arith)
            requires
                0 < whole <= 0xffff_ffff_ffff_ffff,
        ;
        assert(10000 * grid_width * grid_height == 10000 * whole) by (nonlinear_arith)
            requires
                whole == grid_width as int * grid_height as int,
        ;
    }
    let share_a: u128 = left * top;
    let share_b: u128 = dx * top;
    let share_c: u128 = left * dy;
    let share_d: u128 = dx * dy;
    let sum: u128 = a * share_a + b * share_b + c * share_c + d * share_d;
    let scale: u128 = 10000 * (grid_width as u128 * grid_height as u128);
    let value: u128 = sum / scale;
    proof {
        assert(sum == weighted_luminance(
            rgb_buffer@,
            stride as int,
            *weight,
            grid_width as int,
            grid_height as int,
        ));
        assert(scale == 10000 * whole);
        assert(value <= 255) by (nonlinear_arith)
            requires
                value == sum / scale,
                0 <= sum <= 2550000 * whole,
                scale == 10000 * whole,
                whole > 0,
        ;
    }
    value as u8
}

/// The weight table of a grid over a picture: one weight per output sample,
/// row by row. A picture without pixels has an empty table.
pub open spec fn weight_table(
    input_width: int,
    input_height: int,
    grid_width: int,
    grid_height: int,
) -> Seq<BilinearWeight> {
    if input_width < 1 || input_height < 1 || grid_width < 1 || grid_height < 1 {
        Seq::empty()
    } else {
        Seq::new(
            (grid_width * grid_height) as nat,
            |index: int|
                weight_for(
                    index % grid_width,
                    index / grid_width,
                    input_width,
                    input_height,
                    grid_width,
                    grid_height,
                ),
        )
    }
}

/// The brightness grid of a picture: one value per output sample, row by
/// row.
pub open spec fn resampled(
    rgb: Seq<u8>,
    input_width: int,
    input_height: int,
    grid_width: int,
    grid_height: int,
) -> Seq<u8> {
    Seq::new(
        (grid_width * grid_height) as nat,
        |index: int|
            interpolated(
                rgb,
                input_width,
                weight_for(
                    index % grid_width,
                    index / grid_width,
                    input_width,
                    input_height,
                    grid_width,
                    grid_height,
                ),
                grid_width,
                grid_height,
            ) as u8,
    )
}

/// Column and row of a position in a grid stored row by row.
proof fn lemma_grid_position(index: int, width: int, height: int)
    requires
        0 <= index < width * height,
        width > 0,
    ensures
        0 <= index % width < width,
        0 <= index / width < height,
        (index / width) * width + index % width == index,
{
    lemma_fundamental_div_mod(index, width);
    lemma_mod_bound(index, width);
    let q = index / width;
    let r = index % width;
    assert(width * q == q * width) by (nonlinear_arith);
    assert(0 <= q < height) by (nonlinear_arith)
        requires
            index == q * width + r,
            0 <= r < width,
            0 <= index < width * height,
    ;
}

/// The position in a grid stored row by row of a given column and row.
proof fn lemma_grid_index(x: int, y: int, width: int, height: int)
    requires
        0 <= x < width,
        0 <= y < height,
    ensures
        0 <= y * width + x < width * height,
        (y * width + x) % width == x,
        (y * width + x) / width == y,
{
    assert(0 <= y * width + x < width * height) by (nonlinear_arith)
        requires
            0 <= x < width,
            0 <= y < height,
    ;
    lemma_fundamental_div_mod_converse(y * width + x, width, y, x);
}

/// The resampler of one picture on the screen. It keeps the weight table
/// of the picture size seen last, and the brightness grid of the picture
/// resampled last.
pub struct BilinearInterpolater {
    display_width: usize,
    display_height: usize,
    input_width: usize,
    input_height: usize,
    bilinear_weights: Vec<BilinearWeight>,
    grayscale_buffer: Vec<u8>,
}

impl BilinearInterpolater {
    /// Samples in a row of the grid, and rows of the grid.
    pub closed spec fn display_size(&self) -> (usize, usize) {
        (self.display_width, self.display_height)
    }

    /// Width and height of the picture that the weight table was made for;
    /// `(0, 0)` before the first.
    pub closed spec fn input_size(&self) -> (usize, usize) {
        (self.input_width, self.input_height)
    }

    /// The weight table.
    pub closed spec fn weights(&self) -> Seq<BilinearWeight> {
        self.bilinear_weights@
    }

    /// The brightness grid.
    pub closed spec fn grid(&self) -> Seq<u8> {
        self.grayscale_buffer@
    }

    /// Samples in a row of the grid.
    pub open spec fn grid_width(&self) -> int {
        self.display_size().0 as int
    }

    /// Rows of the grid.
    pub open spec fn grid_height(&self) -> int {
        self.display_size().1 as int
    }

    /// The grid has one value for each sample, and the weight table is the
    /// one of the cached picture size.
    pub open spec fn wf(&self) -> bool {
        &&& self.grid().len() == self.grid_width() * self.grid_height()
        &&& self.weights() == weight_table(
            self.input_size().0 as int,
            self.input_size().1 as int,
            self.grid_width(),
            self.grid_height(),
        )
    }

    /// A resampler for a grid of `display_height` rows of `display_width`
    /// brightness samples, with a black grid and no picture size yet.
    pub fn new(display_width: u16, display_height: u16) -> (made: Self)
        ensures
            made.wf(),
            made.display_size() == (display_width as usize, display_height as usize),
            made.input_size() == (0usize, 0usize),
            made.grid() == Seq::new((display_width * display_height) as nat, |index: int| 0u8),
    {
        assert(display_width * display_height <= 0xffff * 0xffff) by (nonlinear_arith)
            requires
                display_width <= 0xffff,
                display_height <= 0xffff,
        ;
        Self::with_size(display_width as usize, display_height as usize)
    }

    /// A resampler for a grid of `display_height` rows of `display_width`
    /// brightness samples, where these are not bound to the coordinates of
    /// a terminal. The grid must fit in memory.
    pub fn with_size(display_width: usize, display_height: usize) -> (made: Self)
        requires
            display_width * display_height <= usize::MAX,
        ensures
            made.wf(),
            made.display_size() == (display_width, display_height),
            made.input_size() == (0usize, 0usize),
            made.grid() == Seq::new((display_width * display_height) as nat, |index: int| 0u8),
    {
        let length: usize = display_width * display_height;
        let mut grayscale_buffer: Vec<u8> = Vec::new();
        grayscale_buffer.resize(length, 0);
        assert(grayscale_buffer@ =~= Seq::new(
            (display_width * display_height) as nat,
            |index: int| 0u8,
        ));
        BilinearInterpolater {
            display_width,
            display_height,
            input_width: 0,
            input_height: 0,
            bilinear_weights: Vec::new(),
            grayscale_buffer,
        }
    }

    /// Makes the weight table that of a picture of the given size. The
    /// table is computed anew only if the size differs from the one it was
    /// made for; with the same size nothing changes.
    pub fn update_weights_if_needed(&mut self, input_width: usize, input_height: usize)
        requires
            old(self).wf(),
        ensures
            final(self).wf(),
            final(self).input_size() == (input_width, input_height),
            final(self).display_size() == old(self).display_size(),
            final(self).grid() == old(self).grid(),
            (input_width, input_height) == old(self).input_size() ==> final(self).weights() == old(
                self,
            ).weights(),
    {
        if input_width == self.input_width && input_height == self.input_height {
            return ;
        }
        let grid_width: usize = self.display_width;
        let grid_height: usize = self.display_height;
        let total: usize = self.grayscale_buffer.len();
        assert(total == grid_width * grid_height);
        let mut table: Vec<BilinearWeight> = Vec::new();
        if input_width >= 1 && input_height >= 1 && grid_width >= 1 && grid_height >= 1 {
            let mut y: usize = 0;
            while y < grid_height
                invariant
                    input_width >= 1,
                    input_height >= 1,
                    grid_width >= 1,
                    y <= grid_height,
                    grid_width * grid_height <= usize::MAX,
                    table@.len() == y * grid_width,
                    forall|index: int|
                        0 <= index < table@.len() ==> #[trigger] table@[index] == weight_for(
                            index % (grid_width as int),
                            index / (grid_width as int),
                            input_width as int,
                            input_height as int,
                            grid_width as int,
                            grid_height as int,
                        ),
                decreases grid_height - y,
            {
                let mut x: usize = 0;
                while x < grid_width
                    invariant
                        input_width >= 1,
                        input_height >= 1,
                        grid_width >= 1,
                        y < grid_height,
                        x <= grid_width,
                        grid_width * grid_height <= usize::MAX,
                        table@.len() == y * grid_width + x,
                        forall|index: int|
                            0 <= index < table@.len() ==> #[trigger] table@[index] == weight_for(
                                index % (grid_width as int),
                                index / (grid_width as int),
                                input_width as int,
                                input_height as int,
                                grid_width as int,
                                grid_height as int,
                            ),
                    decreases grid_width - x,
                {
                    proof {
                        lemma_grid_index(
                            x as int,
                            y as int,
                            grid_width as int,
                            grid_height as int,
                        );
                    }
                    let weight = BilinearWeight::new(
                        x,
                        y,
                        input_width,
                        input_height,
                        grid_width,
                        grid_height,
                    );
                    table.push(weight);
                    x = x + 1;
                }
                assert((y + 1) * grid_width == y * grid_width + grid_width) by (nonlinear_arith);
                y = y + 1;
            }
            assert(table@.len() == grid_width * grid_height) by (nonlinear_arith)
                requires
                    table@.len() == y * grid_width,
                    y == grid_height,
            ;
        }
        self.input_width = input_width;
        self.input_height = input_height;
        self.bilinear_weights = table;
        assert(self.weights() =~= weight_table(
            input_width as int,
            input_height as int,
            grid_width as int,
            grid_height as int,
        ));
    }

    /// Resamples a picture of the cached size into the brightness grid.
    /// Each value of the grid becomes the bilinear combination of the four
    /// luminances that its weight names. Bytes of the buffer behind the
    /// picture are not read. Without a weight table (no picture size yet,
    /// or an empty grid) the grid stays as it is.
    pub fn update_grayscale_buffer(&mut self, rgb_buffer: &[u8])
        requires
            old(self).wf(),
            rgb_buffer@.len() >= old(self).input_size().0 * old(self).input_size().1 * 3,
        ensures
            final(self).wf(),
            final(self).input_size() == old(self).input_size(),
            final(self).display_size() == old(self).display_size(),
            final(self).weights() == old(self).weights(),
            final(self).grid().len() == old(self).display_size().0 * old(self).display_size().1,
            old(self).weights().len() > 0 ==> final(self).grid() == resampled(
                rgb_buffer@,
                old(self).input_size().0 as int,
                old(self).input_size().1 as int,
                old(self).grid_width(),
                old(self).grid_height(),
            ),
            old(self).weights().len() == 0 ==> final(self).grid() == old(self).grid(),
    {
        let count: usize = self.bilinear_weights.len();
        let grid_width: usize = self.display_width;
        let grid_height: usize = self.display_height;
        let stride: usize = self.input_width;
        let ghost input_height = self.input_height as int;
        let total: usize = self.grayscale_buffer.len();
        assert(total == grid_width * grid_height);
        let mut index: usize = 0;
        while index < count
            invariant
                self.wf(),
                count == self.weights().len(),
                index <= count,
                grid_width == self.grid_width(),
                grid_height == self.grid_height(),
                stride == self.input_size().0,
                input_height == self.input_size().1,
                rgb_buffer@.len() >= stride * input_height * 3,
                grid_width * grid_height <= usize::MAX,
                self.input_size() == old(self).input_size(),
                self.display_size() == old(self).display_size(),
                self.weights() == old(self).weights(),
                count == 0 ==> self.grid() == old(self).grid(),
                forall|done: int|
                    0 <= done < index ==> #[trigger] self.grid()[done] == interpolated(
                        rgb_buffer@,
                        stride as int,
                        self.weights()[done],
                        grid_width as int,
                        grid_height as int,
                    ) as u8,
            decreases count - index,
        {
            let weight = self.bilinear_weights[index];
            proof {
                let x = index as int % (grid_width as int);
                let y = index as int / (grid_width as int);
                lemma_grid_position(index as int, grid_width as int, grid_height as int);
                lemma_samples_in_range(x, stride as int, grid_width as int);
                lemma_samples_in_range(y, input_height, grid_height as int);
                assert(weight == weight_for(
                    x,
                    y,
                    stride as int,
                    input_height,
                    grid_width as int,
                    grid_height as int,
                ));
                lemma_pixel_in_picture(weight.x0 as int, weight.y0 as int, stride as int, input_height);
                lemma_pixel_in_picture(weight.x1 as int, weight.y0 as int, stride as int, input_height);
                lemma_pixel_in_picture(weight.x0 as int, weight.y1 as int, stride as int, input_height);
                lemma_pixel_in_picture(weight.x1 as int, weight.y1 as int, stride as int, input_height);
            }
            let value: u8 = interpolate(stride, rgb_buffer, &weight, grid_width, grid_height);
            self.grayscale_buffer.set(index, value);
            index = index + 1;
        }
        proof {
            if old(self).weights().len() > 0 {
                assert(self.grid() =~= resampled(
                    rgb_buffer@,
                    stride as int,
                    input_height,
                    grid_width as int,
                    grid_height as int,
                ));
            } else {
                assert(self.grid() =~= old(self).grid());
            }
        }
    }

    /// The brightness grid, row by row.
    pub fn grayscale_buffer(&self) -> (grid: &[u8])
        ensures
            grid@ == self.grid(),
    {
        self.grayscale_buffer.as_slice()
    }

    /// The weight table, row by row.
    pub fn bilinear_weights(&self) -> (table: &[BilinearWeight])
        ensures
            table@ == self.weights(),
    {
        self.bilinear_weights.as_slice()
    }

    /// Width and height of the picture that the weight table was made for.
    pub fn input_resolution(&self) -> (size: (usize, usize))
        ensures
            size == self.input_size(),
    {
        (self.input_width, self.input_height)
    }

    /// The grid cut into groups of two rows: in a group the first half is
    /// the upper row of samples and the second half the lower. Of a grid
    /// with an odd number of rows, the last group holds the last row alone.
    /// A grid without columns has no groups.
    pub fn grouped_rows(&self) -> (groups: Vec<&[u8]>)
        requires
            self.wf(),
        ensures
            groups@.len() == if self.display_size().0 == 0 {
                0
            } else {
                (self.display_size().1 + 1) / 2
            },
            forall|row: int|
                0 <= row < groups@.len() ==> (#[trigger] groups@[row])@ == self.grid().subrange(
                    row * (2 * self.grid_width()),
                    if (row + 1) * (2 * self.grid_width()) <= self.grid().len() {
                        (row + 1) * (2 * self.grid_width())
                    } else {
                        self.grid().len() as int
                    },
                ),
    {
        let mut groups: Vec<&[u8]> = Vec::new();
        let width: usize = self.display_width;
        if width == 0 {
            return groups;
        }
        let height: usize = self.display_height;
        let total: usize = self.grayscale_buffer.len();
        assert(total == width * height);
        let mut row: usize = 0;
        let mut begin: usize = 0;
        assert(total > 0 ==> height > 0) by (nonlinear_arith)
            requires
                total == width * height,
                height >= 0,
        ;
        assert(total == 0 ==> height == 0) by (nonlinear_arith)
            requires
                total == width * height,
                width > 0,
                height >= 0,
        ;
        while begin < total
            invariant
                width > 0,
                width == self.grid_width(),
                height == self.grid_height(),
                total == width * height,
                total == self.grid().len(),
                begin <= total,
                begin == row * (2 * width) || begin == total,
                begin < total ==> 2 * row < height,
                begin == total ==> row == (height + 1) / 2,
                groups@.len() == row,
                forall|done: int|
                    0 <= done < row ==> (#[trigger] groups@[done])@ == self.grid().subrange(
                        done * (2 * width),
                        if (done + 1) * (2 * width) <= total {
                            (done + 1) * (2 * width)
                        } else {
                            total as int
                        },
                    ),
            decreases total - begin,
        {
            assert((row + 1) * (2 * width) == row * (2 * width) + 2 * width) by (nonlinear_arith);
            let end: usize = if total - begin < width || total - begin - width < width {
                total
            } else {
                begin + width + width
            };
            proof {
                // The rows that are left: `height - 2 * row`, each of `width` samples.
                assert(total - begin == (height - 2 * row) * width) by (nonlinear_arith)
                    requires
                        total == width * height,
                        begin == row * (2 * width),
                ;
                if height - 2 * row >= 2 {
                    assert((height - 2 * row) * width >= 2 * width) by (nonlinear_arith)
                        requires
                            height - 2 * row >= 2,
                            width > 0,
                    ;
                    if end == total {
                        assert((height - 2 * row) * width == 2 * width);
                        assert(height - 2 * row == 2) by (nonlinear_arith)
                            requires
                                (height - 2 * row) * width == 2 * width,
                                width > 0,
                        ;
                    } else {
                        assert(height - 2 * row > 2) by (nonlinear_arith)
                            requires
                                (height - 2 * row) * width > 2 * width,
                                width > 0,
                        ;
                    }
                } else {
                    assert(height - 2 * row == 1);
                    assert((height - 2 * row) * width == width) by (nonlinear_arith)
                        requires
                            height - 2 * row == 1,
                    ;
                }
            }
            let group = vstd::slice::slice_subrange(self.grayscale_buffer.as_slice(), begin, end);
            let ghost before = groups@;
            groups.push(group);
            assert forall|done: int| 0 <= done < row + 1 implies (#[trigger] groups@[done])@
                == self.grid().subrange(
                done * (2 * width),
                if (done + 1) * (2 * width) <= total {
                    (done + 1) * (2 * width)
                } else {
                    total as int
                },
            ) by {
                if done < row {
                    assert(groups@[done] == before[done]);
                }
            }
            row = row + 1;
            begin = end;
        }
        groups
    }
}

/// Whether a change of the picture size from `first` to `second` shows in
/// a grid of the given size: the width has changed and the grid has at
/// least two columns, or the height has changed and the grid has at least
/// two rows. (With a single column every sample sits on the first pixel of
/// its row, whatever the width.)
pub open spec fn change_shows(
    first: (usize, usize),
    second: (usize, usize),
    grid_width: int,
    grid_height: int,
) -> bool {
    &&& grid_width >= 1 && grid_height >= 1
    &&& first.0 >= 1 && first.1 >= 1
    &&& second.0 >= 1 && second.1 >= 1
    &&& (first.0 != second.0 && grid_width >= 2) || (first.1 != second.1 && grid_height >= 2)
}

/// Two weight tables for the same grid differ wherever the change of the
/// picture size shows in the grid.
pub proof fn lemma_tables_differ(
    first: (usize, usize),
    second: (usize, usize),
    grid_width: int,
    grid_height: int,
)
    requires
        change_shows(first, second, grid_width, grid_height),
    ensures
        weight_table(first.0 as int, first.1 as int, grid_width, grid_height) != weight_table(
            second.0 as int,
            second.1 as int,
            grid_width,
            grid_height,
        ),
{
    let one = weight_table(first.0 as int, first.1 as int, grid_width, grid_height);
    let other = weight_table(second.0 as int, second.1 as int, grid_width, grid_height);
    if first.0 != second.0 && grid_width >= 2 {
        lemma_grid_index(1, 0, grid_width, grid_height);
        lemma_samples_in_range(1, first.0 as int, grid_width);
        lemma_samples_in_range(1, second.0 as int, grid_width);
        assert(one[1].x0 == lower_sample(1, first.0 as int, grid_width));
        assert(one[1].dx == sample_fraction(1, first.0 as int, grid_width));
        assert(other[1].x0 == lower_sample(1, second.0 as int, grid_width));
        assert(other[1].dx == sample_fraction(1, second.0 as int, grid_width));
        assert(one[1] != other[1]);
    } else {
        lemma_grid_index(0, 1, grid_width, grid_height);
        lemma_samples_in_range(1, first.1 as int, grid_height);
        lemma_samples_in_range(1, second.1 as int, grid_height);
        assert(one[grid_width].y0 == lower_sample(1, first.1 as int, grid_height));
        assert(one[grid_width].dy == sample_fraction(1, first.1 as int, grid_height));
        assert(other[grid_width].y0 == lower_sample(1, second.1 as int, grid_height));
        assert(other[grid_width].dy == sample_fraction(1, second.1 as int, grid_height));
        assert(one[grid_width] != other[grid_width]);
    }
}

/// The weight table is a function of the picture size: two resamplers for
/// the same grid hold the same table if they were last given the same
/// picture size, and different tables if they were given different ones
/// and the change shows in the grid.
pub proof fn lemma_table_follows_resolution(one: &BilinearInterpolater, other: &BilinearInterpolater)
    requires
        one.wf(),
        other.wf(),
        one.display_size() == other.display_size(),
    ensures
        one.input_size() == other.input_size() ==> one.weights() == other.weights(),
        change_shows(one.input_size(), other.input_size(), one.grid_width(), one.grid_height())
            ==> one.weights() != other.weights(),
{
    if change_shows(one.input_size(), other.input_size(), one.grid_width(), one.grid_height()) {
        lemma_tables_differ(
            one.input_size(),
            other.input_size(),
            one.grid_width(),
            one.grid_height(),
        );
    }
}

} // verus!
