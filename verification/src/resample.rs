//! Resizes a buffer with the Lanczos filter of the `image` crate.
//!
//! The filter itself is that crate's; this module guards its inputs, so that
//! no zero-sized or oversized buffer reaches it, and carries the result back
//! into a [`Raster`].

use crate::raster::{Raster, RasterView};
use vstd::prelude::*;

verus! {

/// Largest edge, in pixels, that is handed to the filter. The filter places
/// its taps with `f32` arithmetic, which holds every pixel position exactly
/// only below this bound.
pub const MAX_EDGE: u32 = 16_777_216;

/// Why a buffer was not resized.
#[derive(Debug, Clone, Copy, PartialEq, Eq, Structural)]
pub enum ResizeError {
    /// The source or the requested size has a zero dimension.
    ZeroSized,
    /// An edge is longer than [`MAX_EDGE`], or a buffer the filter needs
    /// does not fit the machine's address space.
    TooLarge,
}

/// The RGB bytes that `image::imageops::resize` gives, with the Lanczos
/// filter of window 3, for the `width` by `height` image `bytes` and the
/// requested size.
pub uninterp spec fn lanczos3(
    width: nat,
    height: nat,
    bytes: Seq<u8>,
    new_width: nat,
    new_height: nat,
) -> Seq<u8>;

/// Whether one of the four dimensions is zero.
pub open spec fn is_zero_sized(width: nat, height: nat, new_width: nat, new_height: nat) -> bool {
    width == 0 || height == 0 || new_width == 0 || new_height == 0
}

/// Whether the filter can take the sizes: every edge is at most
/// [`MAX_EDGE`], and both the intermediate buffer, of four `f32` per pixel,
/// and the result fit in `isize::MAX` bytes.
pub open spec fn within_limits(width: nat, height: nat, new_width: nat, new_height: nat) -> bool {
    &&& width <= MAX_EDGE
    &&& height <= MAX_EDGE
    &&& new_width <= MAX_EDGE
    &&& new_height <= MAX_EDGE
    &&& 16 * (width * new_height) <= isize::MAX
    &&& 3 * (new_width * new_height) <= isize::MAX
}

/// What [`resize`] gives for a source and a requested size.
pub open spec fn resized(src: RasterView, new_width: nat, new_height: nat) -> Result<
    RasterView,
    ResizeError,
> {
    if is_zero_sized(src.width, src.height, new_width, new_height) {
        Err(ResizeError::ZeroSized)
    } else if !within_limits(src.width, src.height, new_width, new_height) {
        Err(ResizeError::TooLarge)
    } else {
        Ok(
            RasterView {
                width: new_width,
                height: new_height,
                bytes: lanczos3(src.width, src.height, src.bytes, new_width, new_height),
            },
        )
    }
}

/// Calls `image::imageops::resize` with `FilterType::Lanczos3` on the RGB
/// image that `bytes` holds row by row.
///
/// Trusted: the result is what that function computes, which has the
/// requested dimensions, three bytes per pixel; and where the requested
/// size is the source's own, that function copies the source instead of
/// filtering it.
#[verifier::external_body]
fn lanczos3_resize(width: u32, height: u32, bytes: &[u8], new_width: u32, new_height: u32) -> (out: Vec<u8>)
    requires
        !is_zero_sized(width as nat, height as nat, new_width as nat, new_height as nat),
        within_limits(width as nat, height as nat, new_width as nat, new_height as nat),
        bytes@.len() == 3 * (width * height),
    ensures
        out@ == lanczos3(width as nat, height as nat, bytes@, new_width as nat, new_height as nat),
        out@.len() == 3 * (new_width * new_height),
        new_width == width && new_height == height ==> out@ == bytes@,
{
    let source = image::ImageBuffer::<image::Rgb<u8>, &[u8]>::from_raw(width, height, bytes).unwrap();
    image::imageops::resize(&source, new_width, new_height, image::imageops::FilterType::Lanczos3).into_raw()
}

/// Whether the filter can take the sizes.
fn check_limits(width: u32, height: u32, new_width: u32, new_height: u32) -> (ok: bool)
    ensures
        ok == within_limits(width as nat, height as nat, new_width as nat, new_height as nat),
{
    if width > MAX_EDGE || height > MAX_EDGE || new_width > MAX_EDGE || new_height > MAX_EDGE {
        return false;
    }
    assert(width * new_height <= 16_777_216 * 16_777_216) by (nonlinear_arith)
        requires
            width <= 16_777_216,
            new_height <= 16_777_216,
    ;
    assert(new_width * new_height <= 16_777_216 * 16_777_216) by (nonlinear_arith)
        requires
            new_width <= 16_777_216,
            new_height <= 16_777_216,
    ;
    let between: u64 = 16 * (width as u64 * new_height as u64);
    let after: u64 = 3 * (new_width as u64 * new_height as u64);
    let most: u64 = isize::MAX as u64;
    between <= most && after <= most
}

/// Resizes `src` to `new_width` by `new_height` pixels.
///
/// A zero-sized source or target is refused, and so is a size beyond what
/// the filter can take. A resize to the source's own size gives a copy of the
/// source.
pub fn resize(src: &Raster, new_width: u32, new_height: u32) -> (out: Result<Raster, ResizeError>)
    requires
        src.wf(),
    ensures
        match out {
            Ok(r) => resized(src@, new_width as nat, new_height as nat) == Ok::<RasterView, ResizeError>(r@) && r.wf(),
            Err(e) => resized(src@, new_width as nat, new_height as nat) == Err::<RasterView, ResizeError>(e),
        },
        out is Ok && new_width == src@.width && new_height == src@.height ==> out->Ok_0@ == src@,
{
    let width = src.width();
    let height = src.height();
    if width == 0 || height == 0 || new_width == 0 || new_height == 0 {
        return Err(ResizeError::ZeroSized);
    }
    if !check_limits(width, height, new_width, new_height) {
        return Err(ResizeError::TooLarge);
    }
    let bytes = lanczos3_resize(width, height, src.as_bytes(), new_width, new_height);
    Ok(Raster::from_bytes(new_width, new_height, bytes).unwrap())
}

} // verus!
