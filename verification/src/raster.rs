//! The raster: a grid of gray pixels computed from iteration counts.

use vstd::arithmetic::div_mod::{
    lemma_fundamental_div_mod, lemma_fundamental_div_mod_converse, lemma_multiply_divide_lt,
};
use vstd::prelude::*;

use crate::buffer::{buffer_bytes, buffer_size, into_raw, new_buffer, put_pixel};
use crate::color::{color_channels, colors_from_rgb, gray};

verus! {

/// The intensity that stands for an iteration count: the count modulo 256.
pub open spec fn shade_of(count: u32) -> u8 {
    (count % 256) as u8
}

/// The place of pixel `(x, y)` in a raster of the given width, rows first.
pub open spec fn cell_index(width: nat, x: nat, y: nat) -> nat {
    y * width + x
}

/// The intensities that stand for a sequence of iteration counts.
pub open spec fn shades(counts: Seq<u32>) -> Seq<u8> {
    Seq::new(counts.len(), |i: int| shade_of(counts[i]))
}

/// What a raster is: its size and the intensity of each pixel, row by row.
pub ghost struct Grid {
    pub width: nat,
    pub height: nat,
    pub cells: Seq<u8>,
}

/// `counts[cell_index(width, x, y)]` is a count that `count_at` gave for
/// pixel `(x, y)`.
pub open spec fn sampled<F: Fn(u32, u32) -> u32>(
    count_at: F,
    width: nat,
    counts: Seq<u32>,
    x: u32,
    y: u32,
) -> bool {
    call_ensures(count_at, (x, y), counts[cell_index(width, x as nat, y as nat) as int])
}

/// `counts` holds, row by row, a count that `count_at` gave for each pixel of
/// a raster of the given size.
pub open spec fn samples<F: Fn(u32, u32) -> u32>(
    count_at: F,
    width: nat,
    height: nat,
    counts: Seq<u32>,
) -> bool {
    &&& counts.len() == width * height
    &&& forall|x: u32, y: u32|
        x < width && y < height ==> #[trigger] sampled(count_at, width, counts, x, y)
}

/// `grid` is a rendering of `count_at`: each of its cells is the shade of a
/// count that `count_at` gave for that pixel.
pub open spec fn renders<F: Fn(u32, u32) -> u32>(count_at: F, grid: Grid) -> bool {
    exists|counts: Seq<u32>|
        samples(count_at, grid.width, grid.height, counts) && grid.cells == shades(counts)
}

/// `count_at` gives one count for each pixel, whenever it is asked.
pub open spec fn single_valued<F: Fn(u32, u32) -> u32>(count_at: F) -> bool {
    forall|x: u32, y: u32, a: u32, b: u32|
        call_ensures(count_at, (x, y), a) && call_ensures(count_at, (x, y), b) ==> a == b
}

/// Cell `k` of a raster under construction is done: `counts[k]` is a count
/// that `count_at` gave for the pixel at place `k`, and the three bytes of
/// that pixel hold its shade.
spec fn filled_at<F: Fn(u32, u32) -> u32>(
    count_at: F,
    width: nat,
    counts: Seq<u32>,
    bytes: Seq<u8>,
    k: int,
) -> bool {
    &&& call_ensures(count_at, ((k % width as int) as u32, (k / width as int) as u32), counts[k])
    &&& bytes[3 * k] == shade_of(counts[k])
    &&& bytes[3 * k + 1] == shade_of(counts[k])
    &&& bytes[3 * k + 2] == shade_of(counts[k])
}

/// Every cell that has a count is done.
spec fn filled<F: Fn(u32, u32) -> u32>(
    count_at: F,
    width: nat,
    counts: Seq<u32>,
    bytes: Seq<u8>,
) -> bool {
    forall|k: int| 0 <= k < counts.len() ==> #[trigger] filled_at(count_at, width, counts, bytes, k)
}

/// Reduces an iteration count to a grayscale intensity.
pub fn shade(count: u32) -> (g: u8)
    ensures
        g == shade_of(count),
{
    (count % 256) as u8
}

/// A grid of gray pixels, `width` by `height`, stored row by row.
pub struct Raster {
    width: u32,
    height: u32,
    pixels: Vec<egui::Color32>,
}

impl View for Raster {
    type V = Grid;

    open spec fn view(&self) -> Grid {
        Grid {
            width: self.size().0,
            height: self.size().1,
            cells: Seq::new(self.colors().len(), |i: int| color_channels(self.colors()[i]).0),
        }
    }
}

impl Raster {
    /// The width and the height, in pixels.
    pub closed spec fn size(&self) -> (nat, nat) {
        (self.width as nat, self.height as nat)
    }

    /// The colours of the pixels, row by row.
    pub closed spec fn colors(&self) -> Seq<egui::Color32> {
        self.pixels@
    }

    /// The raster is whole: small enough to be drawn, with one opaque gray
    /// pixel for each cell.
    pub open spec fn wf(&self) -> bool {
        &&& self.size().0 <= u32::MAX
        &&& self.size().1 <= u32::MAX
        &&& 3 * (self.size().0 * self.size().1) <= isize::MAX
        &&& self.colors().len() == self.size().0 * self.size().1
        &&& forall|i: int|
            0 <= i < self.colors().len() ==> color_channels(#[trigger] self.colors()[i]) == gray(
                self@.cells[i],
            )
    }

    /// Whether a raster of the given size can be made: its pixels, at three
    /// bytes each, have to fit a vector.
    pub fn fits(width: u32, height: u32) -> (fits: bool)
        ensures
            fits == (3 * (width * height) <= isize::MAX),
    {
        assert(width * height <= 0xffff_ffff * 0xffff_ffff) by (nonlinear_arith)
            requires
                width <= 0xffff_ffff,
                height <= 0xffff_ffff,
        ;
        let bytes: u128 = 3 * (width as u128 * height as u128);
        bytes <= isize::MAX as u128
    }

    /// A black raster of the given size.
    pub fn new(width: u32, height: u32) -> (raster: Raster)
        requires
            3 * (width * height) <= isize::MAX,
        ensures
            raster.wf(),
            raster@ == (Grid {
                width: width as nat,
                height: height as nat,
                cells: Seq::new((width * height) as nat, |i: int| 0u8),
            }),
    {
        let total: usize = width as usize * height as usize;
        let mut pixels: Vec<egui::Color32> = Vec::new();
        let mut made: usize = 0;
        while made < total
            invariant
                made <= total,
                pixels.len() == made,
                forall|i: int|
                    0 <= i < pixels.len() ==> color_channels(#[trigger] pixels[i]) == gray(0u8),
            decreases total - made,
        {
            pixels.push(egui::Color32::from_rgb(0, 0, 0));
            made = made + 1;
        }
        let raster = Raster { width, height, pixels };
        assert(raster@.cells =~= Seq::new((width * height) as nat, |i: int| 0u8));
        raster
    }

    /// Computes every pixel anew: pixel `(x, y)` becomes the gray whose
    /// intensity is the shade of `count_at(x, y)`.
    ///
    /// The pixels are asked for row by row, and nothing of the old contents
    /// is kept.
    pub fn recompute<F: Fn(u32, u32) -> u32>(&mut self, count_at: F)
        requires
            old(self).wf(),
            forall|x: u32, y: u32|
                x < old(self).size().0 && y < old(self).size().1 ==> call_requires(
                    count_at,
                    (x, y),
                ),
        ensures
            final(self).wf(),
            final(self).size() == old(self).size(),
            renders(count_at, final(self)@),
    {
        let width = self.width;
        let height = self.height;
        let mut buffer = new_buffer(width, height);
        let ghost mut counts: Seq<u32> = Seq::empty();
        let mut y: u32 = 0;
        while y < height
            invariant
                y <= height,
                3 * (width * height) <= isize::MAX,
                buffer_size(buffer) == (width, height),
                buffer_bytes(buffer).len() == 3 * (width * height),
                counts.len() == y * width,
                filled(count_at, width as nat, counts, buffer_bytes(buffer)),
                forall|x: u32, y: u32| x < width && y < height ==> call_requires(count_at, (x, y)),
            decreases height - y,
        {
            let mut x: u32 = 0;
            while x < width
                invariant
                    x <= width,
                    y < height,
                    3 * (width * height) <= isize::MAX,
                    buffer_size(buffer) == (width, height),
                    buffer_bytes(buffer).len() == 3 * (width * height),
                    counts.len() == y * width + x,
                    filled(count_at, width as nat, counts, buffer_bytes(buffer)),
                    forall|x: u32, y: u32|
                        x < width && y < height ==> call_requires(count_at, (x, y)),
                decreases width - x,
            {
                let count = count_at(x, y);
                let g = shade(count);
                let ghost before = buffer_bytes(buffer);
                let ghost k = counts.len() as int;
                proof {
                    lemma_fundamental_div_mod_converse(k, width as int, y as int, x as int);
                    assert(k + 1 <= width * height) by (nonlinear_arith)
                        requires
                            k == y * width + x,
                            x < width,
                            y < height,
                    ;
                }
                put_pixel(&mut buffer, x, y, g, g, g);
                proof {
                    let longer = counts.push(count);
                    let after = buffer_bytes(buffer);
                    assert forall|j: int| 0 <= j < longer.len() implies #[trigger] filled_at(
                        count_at,
                        width as nat,
                        longer,
                        after,
                        j,
                    ) by {
                        if j < k {
                            assert(filled_at(count_at, width as nat, counts, before, j));
                        }
                    }
                    counts = longer;
                }
                x = x + 1;
            }
            assert((y + 1) * width == y * width + width) by (nonlinear_arith);
            y = y + 1;
        }
        assert(height * width == width * height) by (nonlinear_arith);
        let raw = into_raw(buffer);
        self.pixels = colors_from_rgb(&raw);
        proof {
            assert forall|x: u32, y: u32| x < width && y < height implies #[trigger] sampled(
                count_at,
                width as nat,
                counts,
                x,
                y,
            ) by {
                let k = cell_index(width as nat, x as nat, y as nat) as int;
                lemma_fundamental_div_mod_converse(k, width as int, y as int, x as int);
                assert(k < width * height) by (nonlinear_arith)
                    requires
                        k == y * width + x,
                        x < width,
                        y < height,
                ;
                assert(filled_at(count_at, width as nat, counts, raw@, k));
            }
            assert forall|i: int| 0 <= i < self.pixels@.len() implies color_channels(
                #[trigger] self.pixels@[i],
            ) == gray(shade_of(counts[i])) by {
                assert(filled_at(count_at, width as nat, counts, raw@, i));
            }
            assert(self@.cells =~= shades(counts));
        }
    }

    /// The number of pixels in a row.
    pub fn width(&self) -> (w: u32)
        ensures
            w == self@.width,
    {
        self.width
    }

    /// The number of rows.
    pub fn height(&self) -> (h: u32)
        ensures
            h == self@.height,
    {
        self.height
    }

    /// The pixels, row by row, from the top.
    pub fn pixels(&self) -> (pixels: &Vec<egui::Color32>)
        ensures
            pixels@ == self.colors(),
    {
        &self.pixels
    }
}

/// Rendering is a function of its inputs: where `count_at` is single-valued,
/// any two rasters of one size that render it hold the same intensities and
/// the same channels, pixel for pixel.
pub proof fn lemma_rendering_unique<F: Fn(u32, u32) -> u32>(count_at: F, a: Raster, b: Raster)
    requires
        single_valued(count_at),
        a.wf(),
        b.wf(),
        a.size() == b.size(),
        renders(count_at, a@),
        renders(count_at, b@),
    ensures
        a@ == b@,
        a.colors().len() == b.colors().len(),
        forall|i: int|
            0 <= i < a.colors().len() ==> color_channels(#[trigger] a.colors()[i])
                == color_channels(b.colors()[i]),
{
    let width = a@.width;
    let height = a@.height;
    let from_a = choose|counts: Seq<u32>|
        samples(count_at, width, height, counts) && a@.cells == shades(counts);
    let from_b = choose|counts: Seq<u32>|
        samples(count_at, width, height, counts) && b@.cells == shades(counts);
    assert forall|i: int| 0 <= i < width * height implies from_a[i] == from_b[i] by {
        if width > 0 {
            lemma_fundamental_div_mod(i, width as int);
            lemma_multiply_divide_lt(i, width as int, height as int);
            let x = (i % width as int) as u32;
            let y = (i / width as int) as u32;
            assert(cell_index(width, x as nat, y as nat) == i) by (nonlinear_arith)
                requires
                    i == width * (i / width as int) + i % width as int,
                    x == i % width as int,
                    y == i / width as int,
                    0 <= x,
                    0 <= y,
            ;
            assert(sampled(count_at, width, from_a, x, y));
            assert(sampled(count_at, width, from_b, x, y));
        }
    }
    assert(a@.cells =~= b@.cells);
}

} // verus!
