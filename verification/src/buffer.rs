//! The RGB byte buffer of the `image` crate, as far as the raster uses it.
//!
//! Nothing here is proved. The contracts say what the source of the `image`
//! crate shows of the three calls that the raster makes.

use vstd::prelude::*;

verus! {

/// An `image::ImageBuffer` of RGB pixels over a byte vector. Verus sees
/// nothing inside it: what it holds goes by the names `buffer_size` and
/// `buffer_bytes`.
#[verifier::external_body]
pub struct RgbBuffer {
    inner: image::ImageBuffer<image::Rgb<u8>, Vec<u8>>,
}

/// The width and the height that a buffer was made with.
pub uninterp spec fn buffer_size(buffer: RgbBuffer) -> (u32, u32);

/// The bytes that a buffer holds: three to a pixel, the pixels row by row.
pub uninterp spec fn buffer_bytes(buffer: RgbBuffer) -> Seq<u8>;

/// `image::ImageBuffer::new`: a buffer of the given size whose bytes are all
/// zero. The call panics where the bytes would not fit a vector, which the
/// precondition rules out.
#[verifier::external_body]
pub(crate) fn new_buffer(width: u32, height: u32) -> (buffer: RgbBuffer)
    requires
        3 * (width * height) <= isize::MAX,
    ensures
        buffer_size(buffer) == (width, height),
        buffer_bytes(buffer) == Seq::new((3 * (width * height)) as nat, |i: int| 0u8),
{
    RgbBuffer { inner: image::ImageBuffer::new(width, height) }
}

/// `image::ImageBuffer::put_pixel`: the three bytes of the pixel at `(x, y)`
/// become `r`, `g` and `b`, and nothing else changes. The call panics where
/// `(x, y)` lies outside the buffer, which the precondition rules out.
#[verifier::external_body]
pub(crate) fn put_pixel(buffer: &mut RgbBuffer, x: u32, y: u32, r: u8, g: u8, b: u8)
    requires
        x < buffer_size(*old(buffer)).0,
        y < buffer_size(*old(buffer)).1,
    ensures
        buffer_size(*final(buffer)) == buffer_size(*old(buffer)),
        buffer_bytes(*final(buffer)) == buffer_bytes(*old(buffer))
            .update(3 * (y * buffer_size(*old(buffer)).0 + x), r)
            .update(3 * (y * buffer_size(*old(buffer)).0 + x) + 1, g)
            .update(3 * (y * buffer_size(*old(buffer)).0 + x) + 2, b),
{
    buffer.inner.put_pixel(x, y, image::Rgb([r, g, b]))
}

/// `image::ImageBuffer::into_raw`: the bytes of the buffer, as a vector.
#[verifier::external_body]
pub(crate) fn into_raw(buffer: RgbBuffer) -> (raw: Vec<u8>)
    ensures
        raw@ == buffer_bytes(buffer),
{
    buffer.inner.into_raw()
}

} // verus!
