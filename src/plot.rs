use vstd::prelude::*;
use vstd::arithmetic::div_mod::lemma_fundamental_div_mod_converse;
use crate::color::{alpha, channel, color_of, lemma_color_channels, pixel_color, unpack_rgba};

verus! {

/// Bit pattern of positive infinity in IEEE 754 binary64.
pub const POSITIVE_INFINITY_BITS: u64 = 0x7ff0_0000_0000_0000;

/// Whether `bits`, read as an IEEE 754 binary64 value, is greater than zero.
///
/// Such a value has its sign bit clear, is not zero, and is not a NaN (whose
/// patterns lie above that of positive infinity).
pub open spec fn is_positive_bits(bits: u64) -> bool {
    0 < bits <= POSITIVE_INFINITY_BITS
}

/// Tests whether the binary64 value with bit pattern `bits` is greater than zero.
pub fn is_positive(bits: u64) -> (r: bool)
    ensures
        r == is_positive_bits(bits),
{
    0 < bits && bits <= POSITIVE_INFINITY_BITS
}

/// Why a plot could not be constructed.
#[derive(Debug, Clone, Copy, PartialEq, Eq, Structural)]
pub enum PlotError {
    /// A pixel dimension or the iteration cap is zero, or an extent or the
    /// divergence bound is not a positive number.
    InvalidArgument,
    /// The buffer's size in bytes does not fit in `usize`.
    CapacityExceeded,
}

/// Whether the construction parameters describe a plot at all.
pub open spec fn arguments_valid(
    pixel_width: u32,
    pixel_height: u32,
    real_range: u64,
    imag_range: u64,
    max_iterations: u32,
    divergence_bound: u64,
) -> bool {
    &&& pixel_width > 0
    &&& pixel_height > 0
    &&& is_positive_bits(real_range)
    &&& is_positive_bits(imag_range)
    &&& max_iterations > 0
    &&& is_positive_bits(divergence_bound)
}

/// Whether a buffer of `pixel_width * pixel_height` four-byte cells can be addressed.
pub open spec fn buffer_fits(pixel_width: u32, pixel_height: u32) -> bool {
    pixel_width * pixel_height * 4 <= usize::MAX
}

/// The buffer that escape counts `counts` (one row of `width` counts per
/// pixel row, top row first) produce: row-major, one color cell per pixel.
pub open spec fn rendered(counts: Seq<Seq<u32>>, width: nat, max_iterations: u32) -> Seq<u32> {
    Seq::new(
        counts.len() * width,
        |i: int| color_of(counts[i / width as int][i % width as int], max_iterations),
    )
}

/// The bytes of a cell buffer, four per cell, in the order red, green, blue, alpha.
pub open spec fn rgba_bytes(pixels: Seq<u32>) -> Seq<u8> {
    Seq::new(4 * pixels.len(), |k: int| channel(pixels[k / 4], k % 4))
}

/// What a plot holds. The floating-point parameters are kept as their
/// IEEE 754 binary64 bit patterns.
pub struct PlotView {
    pub min_real: u64,
    pub real_range: u64,
    pub min_imag: u64,
    pub imag_range: u64,
    pub pixel_width: u32,
    pub pixel_height: u32,
    pub max_iterations: u32,
    pub divergence_bound: u64,
    pub pixels: Seq<u32>,
}

impl PlotView {
    /// Valid parameters and a buffer of one cell per pixel.
    pub open spec fn wf(self) -> bool {
        &&& arguments_valid(
            self.pixel_width,
            self.pixel_height,
            self.real_range,
            self.imag_range,
            self.max_iterations,
            self.divergence_bound,
        )
        &&& buffer_fits(self.pixel_width, self.pixel_height)
        &&& self.pixels.len() == self.pixel_width * self.pixel_height
    }

    /// Whether `counts` holds one escape count per pixel: `pixel_height`
    /// rows of `pixel_width` counts.
    pub open spec fn counts_fit(self, counts: Seq<Seq<u32>>) -> bool {
        &&& counts.len() == self.pixel_height
        &&& forall|r: int| 0 <= r < counts.len() ==> #[trigger] counts[r].len() == self.pixel_width
    }

    /// The plot after its buffer was filled from `counts`.
    pub open spec fn computed(self, counts: Seq<Seq<u32>>) -> PlotView {
        PlotView {
            pixels: rendered(counts, self.pixel_width as nat, self.max_iterations),
            ..self
        }
    }
}

/// An escape-time raster of a rectangle of the complex plane.
pub struct Plot {
    min_real: u64,
    real_range: u64,
    min_imag: u64,
    imag_range: u64,
    pixel_width: u32,
    pixel_height: u32,
    max_iterations: u32,
    divergence_bound: u64,
    pixels: Vec<u32>,
}

impl View for Plot {
    type V = PlotView;

    closed spec fn view(&self) -> PlotView {
        PlotView {
            min_real: self.min_real,
            real_range: self.real_range,
            min_imag: self.min_imag,
            imag_range: self.imag_range,
            pixel_width: self.pixel_width,
            pixel_height: self.pixel_height,
            max_iterations: self.max_iterations,
            divergence_bound: self.divergence_bound,
            pixels: self.pixels@,
        }
    }
}

/// Cell `(row, col)` of a `width`-wide raster of `height` rows lies inside it,
/// and the cell after the last of a row starts the next row.
proof fn lemma_cell_in_range(row: int, col: int, width: int, height: int)
    requires
        0 <= row < height,
        0 <= col < width,
    ensures
        0 <= row * width + col < height * width,
        row * width + width == (row + 1) * width,
        height * width == width * height,
{
    assert(0 <= row * width + col < height * width) by (nonlinear_arith)
        requires
            0 <= row < height,
            0 <= col < width,
    ;
    assert(row * width + width == (row + 1) * width) by (nonlinear_arith);
    assert(height * width == width * height) by (nonlinear_arith);
}

/// The buffer is row-major: the cell of row `row` and column `col` sits at
/// offset `row * width + col` and holds the color of that pixel's escape count.
pub proof fn lemma_pixel_at(counts: Seq<Seq<u32>>, width: nat, max_iterations: u32, row: int, col: int)
    requires
        0 <= row < counts.len(),
        0 <= col < width,
    ensures
        0 <= row * width + col < rendered(counts, width, max_iterations).len(),
        rendered(counts, width, max_iterations)[row * width + col] == color_of(
            counts[row][col],
            max_iterations,
        ),
{
    lemma_cell_in_range(row, col, width as int, counts.len() as int);
    lemma_fundamental_div_mod_converse(row * width + col, width as int, row, col);
}

/// Filling a valid plot's buffer gives exactly `pixel_width * pixel_height * 4`
/// bytes, and every cell is opaque: each fourth byte, the alpha channel, is 255.
pub proof fn lemma_computed_opaque(plot: PlotView, counts: Seq<Seq<u32>>)
    requires
        plot.wf(),
        plot.counts_fit(counts),
    ensures
        rgba_bytes(plot.computed(counts).pixels).len() == plot.pixel_width * plot.pixel_height * 4,
        forall|k: int|
            0 <= k < rgba_bytes(plot.computed(counts).pixels).len() && k % 4 == 3 ==> #[trigger] rgba_bytes(
                plot.computed(counts).pixels,
            )[k] == 255,
{
    let w = plot.pixel_width as int;
    let h = plot.pixel_height as int;
    let pixels = plot.computed(counts).pixels;
    assert(h * w == w * h) by (nonlinear_arith);
    assert forall|k: int| 0 <= k < rgba_bytes(pixels).len() && k % 4 == 3 implies #[trigger] rgba_bytes(
        pixels,
    )[k] == 255 by {
        let i = k / 4;
        let n = counts[i / w][i % w];
        lemma_color_channels(n, plot.max_iterations);
        assert(pixels[i] == color_of(n, plot.max_iterations));
        assert(rgba_bytes(pixels)[k] == alpha(pixels[i]));
    }
}

/// Filling the buffer depends on the plot's parameters and the escape counts
/// alone, so filling it a second time from the same counts changes nothing.
pub proof fn lemma_compute_idempotent(plot: PlotView, counts: Seq<Seq<u32>>)
    ensures
        plot.computed(counts).computed(counts) == plot.computed(counts),
        rgba_bytes(plot.computed(counts).computed(counts).pixels) == rgba_bytes(
            plot.computed(counts).pixels,
        ),
{
}

impl Plot {
    /// The plot's invariant: see [`PlotView::wf`].
    pub open spec fn wf(&self) -> bool {
        self@.wf()
    }

    /// Makes a plot of `pixel_width` by `pixel_height` pixels over the
    /// rectangle whose lower-left corner is `(min_real, min_imag)` and whose
    /// extents are `real_range` and `imag_range`, with every cell zero.
    ///
    /// The four floating-point parameters and `divergence_bound` are passed
    /// as IEEE 754 binary64 bit patterns.
    pub fn new(
        pixel_width: u32,
        pixel_height: u32,
        min_real: u64,
        real_range: u64,
        min_imag: u64,
        imag_range: u64,
        max_iterations: u32,
        divergence_bound: u64,
    ) -> (r: Result<Plot, PlotError>)
        ensures
            match r {
                Ok(plot) => {
                    &&& arguments_valid(
                        pixel_width,
                        pixel_height,
                        real_range,
                        imag_range,
                        max_iterations,
                        divergence_bound,
                    )
                    &&& buffer_fits(pixel_width, pixel_height)
                    &&& plot.wf()
                    &&& plot@ == (PlotView {
                        min_real,
                        real_range,
                        min_imag,
                        imag_range,
                        pixel_width,
                        pixel_height,
                        max_iterations,
                        divergence_bound,
                        pixels: Seq::new((pixel_width * pixel_height) as nat, |i: int| 0u32),
                    })
                },
                Err(PlotError::InvalidArgument) => !arguments_valid(
                    pixel_width,
                    pixel_height,
                    real_range,
                    imag_range,
                    max_iterations,
                    divergence_bound,
                ),
                Err(PlotError::CapacityExceeded) => {
                    &&& arguments_valid(
                        pixel_width,
                        pixel_height,
                        real_range,
                        imag_range,
                        max_iterations,
                        divergence_bound,
                    )
                    &&& !buffer_fits(pixel_width, pixel_height)
                },
            },
    {
        if pixel_width == 0 || pixel_height == 0 || !is_positive(real_range) || !is_positive(
            imag_range,
        ) || max_iterations == 0 || !is_positive(divergence_bound) {
            return Err(PlotError::InvalidArgument);
        }
        let cells = match (pixel_width as usize).checked_mul(pixel_height as usize) {
            Some(cells) => cells,
            None => {
                assert(pixel_width * pixel_height * 4 > usize::MAX) by (nonlinear_arith)
                    requires
                        pixel_width * pixel_height > usize::MAX,
                ;
                return Err(PlotError::CapacityExceeded);
            },
        };
        if cells.checked_mul(4).is_none() {
            return Err(PlotError::CapacityExceeded);
        }
        let pixels: Vec<u32> = vec![0u32; cells];
        let plot = Plot {
            min_real,
            real_range,
            min_imag,
            imag_range,
            pixel_width,
            pixel_height,
            max_iterations,
            divergence_bound,
            pixels,
        };
        assert(plot@.pixels =~= Seq::new((pixel_width * pixel_height) as nat, |i: int| 0u32));
        Ok(plot)
    }

    /// Writes the color of escape count `iterations` into cell `index`.
    fn draw_pixel(&mut self, index: usize, iterations: u32)
        requires
            index < old(self)@.pixels.len(),
        ensures
            final(self)@ == (PlotView {
                pixels: old(self)@.pixels.update(
                    index as int,
                    color_of(iterations, old(self)@.max_iterations),
                ),
                ..old(self)@
            }),
    {
        let color = pixel_color(iterations, self.max_iterations);
        self.pixels.set(index, color);
    }

    /// Fills every cell from the escape count of its pixel: `escape_counts`
    /// holds one row per pixel row, top row first, each with one count per
    /// column, left to right.
    pub fn calc_pixels(&mut self, escape_counts: &Vec<Vec<u32>>)
        requires
            old(self).wf(),
            old(self)@.counts_fit(escape_counts.deep_view()),
        ensures
            final(self).wf(),
            final(self)@ == old(self)@.computed(escape_counts.deep_view()),
    {
        let width = self.pixel_width as usize;
        let height = self.pixel_height as usize;
        let ghost start = self@;
        let ghost counts = escape_counts.deep_view();
        let ghost target = rendered(counts, width as nat, start.max_iterations);
        proof {
            lemma_cell_in_range(0, 0, width as int, height as int);
        }
        let mut index: usize = 0;
        let mut row: usize = 0;
        while row < height
            invariant
                row <= height,
                width == start.pixel_width,
                height == start.pixel_height,
                start.wf(),
                start.counts_fit(counts),
                counts == escape_counts.deep_view(),
                target == rendered(counts, width as nat, start.max_iterations),
                target.len() == start.pixels.len(),
                index == row * width,
                self@ == (PlotView { pixels: self@.pixels, ..start }),
                self@.pixels.len() == target.len(),
                forall|i: int| 0 <= i < index ==> self@.pixels[i] == target[i],
            decreases height - row,
        {
            let mut col: usize = 0;
            while col < width
                invariant
                    row < height,
                    col <= width,
                    width == start.pixel_width,
                    height == start.pixel_height,
                    start.wf(),
                    start.counts_fit(counts),
                    counts == escape_counts.deep_view(),
                    target == rendered(counts, width as nat, start.max_iterations),
                    target.len() == start.pixels.len(),
                    index == row * width + col,
                    self@ == (PlotView { pixels: self@.pixels, ..start }),
                    self@.pixels.len() == target.len(),
                    forall|i: int| 0 <= i < index ==> self@.pixels[i] == target[i],
                decreases width - col,
            {
                proof {
                    lemma_pixel_at(counts, width as nat, start.max_iterations, row as int, col as int);
                    let line = escape_counts@[row as int];
                    assert(counts[row as int] == line.deep_view());
                    assert(line@.len() == counts[row as int].len());
                    assert(line@[col as int] == line.deep_view()[col as int]);
                }
                let iterations = escape_counts[row][col];
                self.draw_pixel(index, iterations);
                index += 1;
                col += 1;
            }
            proof {
                lemma_cell_in_range(row as int, 0, width as int, height as int);
            }
            row += 1;
        }
        assert(self@.pixels =~= target);
    }

    /// The pixel buffer: one packed cell per pixel, row-major, top row first.
    pub fn pixels(&self) -> (r: &Vec<u32>)
        ensures
            r@ == self@.pixels,
    {
        &self.pixels
    }

    /// The buffer's bytes, four per pixel in the order red, green, blue, alpha.
    pub fn to_rgba_bytes(&self) -> (bytes: Vec<u8>)
        ensures
            bytes@ == rgba_bytes(self@.pixels),
    {
        let mut bytes: Vec<u8> = Vec::new();
        let mut i: usize = 0;
        while i < self.pixels.len()
            invariant
                i <= self@.pixels.len(),
                bytes@.len() == 4 * i,
                forall|k: int| 0 <= k < 4 * i ==> bytes@[k] == channel(self@.pixels[k / 4], k % 4),
            decreases self@.pixels.len() - i,
        {
            let channels = unpack_rgba(self.pixels[i]);
            bytes.push(channels[0]);
            bytes.push(channels[1]);
            bytes.push(channels[2]);
            bytes.push(channels[3]);
            i += 1;
        }
        assert(bytes@ =~= rgba_bytes(self@.pixels));
        bytes
    }

    /// Length of the buffer in bytes: four per pixel.
    pub fn byte_len(&self) -> (r: usize)
        requires
            self.wf(),
        ensures
            r == 4 * self@.pixels.len(),
            r == self@.pixel_width * self@.pixel_height * 4,
    {
        self.pixels.len() * 4
    }

    /// Number of pixel columns.
    pub fn pixel_width(&self) -> (r: u32)
        ensures
            r == self@.pixel_width,
    {
        self.pixel_width
    }

    /// Number of pixel rows.
    pub fn pixel_height(&self) -> (r: u32)
        ensures
            r == self@.pixel_height,
    {
        self.pixel_height
    }

    /// The escape-time cutoff.
    pub fn max_iterations(&self) -> (r: u32)
        ensures
            r == self@.max_iterations,
    {
        self.max_iterations
    }

    /// Bit pattern of the rectangle's smallest real part.
    pub fn min_real(&self) -> (r: u64)
        ensures
            r == self@.min_real,
    {
        self.min_real
    }

    /// Bit pattern of the rectangle's real extent.
    pub fn real_range(&self) -> (r: u64)
        ensures
            r == self@.real_range,
    {
        self.real_range
    }

    /// Bit pattern of the rectangle's smallest imaginary part.
    pub fn min_imag(&self) -> (r: u64)
        ensures
            r == self@.min_imag,
    {
        self.min_imag
    }

    /// Bit pattern of the rectangle's imaginary extent.
    pub fn imag_range(&self) -> (r: u64)
        ensures
            r == self@.imag_range,
    {
        self.imag_range
    }

    /// Bit pattern of the squared magnitude beyond which a point escapes.
    pub fn divergence_bound(&self) -> (r: u64)
        ensures
            r == self@.divergence_bound,
    {
        self.divergence_bound
    }
}

} // verus!
