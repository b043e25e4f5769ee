//! Puts the resized disk onto the wallpaper's canvas.
//!
//! Without a background the canvas is black and the whole disk buffer is
//! laid over its centre. With a background only the pixels inside the
//! detected circle are copied, so that the background shows around the disk.

use crate::config::Config;
use crate::disk::{boundary_of, detect, distance, span, BoundaryEstimate};
use crate::raster::{in_rect, lemma_with_pixel, Raster, RasterView, Rgb};
use crate::resample::{resize, resized, ResizeError};
use vstd::prelude::*;

verus! {

/// Why no canvas was produced.
#[derive(Debug, Clone, Copy, PartialEq, Eq, Structural)]
pub enum CompositeError {
    /// The requested resolution has a zero dimension.
    InvalidResolution,
    /// The disk size is not a percentage between 1 and 100.
    InvalidDiskSize,
    /// The source image could not be resized to the disk's size.
    Disk(ResizeError),
    /// The background could not be resized to the resolution.
    Background(ResizeError),
    /// The disk buffer has no pixels.
    EmptyDisk,
    /// The disk buffer is wider or higher than the canvas.
    DiskTooLarge,
    /// The canvas does not fit the machine's address space.
    CanvasTooLarge,
}

/// The finished wallpaper.
#[derive(Debug)]
pub struct Canvas {
    /// The pixels, at the requested resolution.
    pub image: Raster,
    /// Whether the wallpaper carries an alpha channel, opaque throughout:
    /// it does where no background was given.
    pub alpha: bool,
}

/// Edge of the disk: the given percentage of the smaller dimension, rounded
/// down.
pub open spec fn spec_disk_dim(resolution_x: nat, resolution_y: nat, disk_size: nat) -> nat {
    (if resolution_x <= resolution_y {
        resolution_x
    } else {
        resolution_y
    }) * disk_size / 100
}

/// Where a buffer of size `inner` starts so that it sits in the middle of
/// `outer`.
pub open spec fn spec_centered(outer: nat, inner: nat) -> nat {
    ((outer - inner) / 2) as nat
}

/// Whether `(x, y)`, in the disk buffer, lies inside the circle: nearer to the
/// centre than the radius.
pub open spec fn inside(est: BoundaryEstimate, x: int, y: int) -> bool {
    (est.center_x - x) * (est.center_x - x) + (est.center_y - y) * (est.center_y - y) < est.radius
        * est.radius
}

/// Pixel `(x, y)` of the canvas after the circle `est` of `disk` was cut out
/// onto `background` with the disk buffer's corner at `(ox, oy)`.
pub open spec fn cutout_pixel(
    background: RasterView,
    disk: RasterView,
    est: BoundaryEstimate,
    ox: int,
    oy: int,
    x: int,
    y: int,
) -> Rgb {
    if in_rect(x, y, ox, oy, disk.width as int, disk.height as int) && inside(est, x - ox, y - oy) {
        disk.pixel(x - ox, y - oy)
    } else {
        background.pixel(x, y)
    }
}

/// Pixel `(x, y)` of the black canvas after `disk` was laid over it with its
/// corner at `(ox, oy)`.
pub open spec fn plain_pixel(disk: RasterView, ox: int, oy: int, x: int, y: int) -> Rgb {
    if in_rect(x, y, ox, oy, disk.width as int, disk.height as int) {
        disk.pixel(x - ox, y - oy)
    } else {
        Rgb { r: 0, g: 0, b: 0 }
    }
}

/// The background at the canvas's resolution: itself where it has that
/// resolution, resized where it has not.
pub open spec fn fitted(background: RasterView, resolution_x: nat, resolution_y: nat) -> Result<
    RasterView,
    ResizeError,
> {
    if background.width == resolution_x && background.height == resolution_y {
        Ok(background)
    } else {
        resized(background, resolution_x, resolution_y)
    }
}

/// The content of an optional buffer.
pub open spec fn view_of(background: Option<&Raster>) -> Option<RasterView> {
    match background {
        Some(b) => Some(b@),
        None => None,
    }
}

/// The error with which [`composite`] refuses its arguments, if it does.
pub open spec fn composite_error(
    resolution_x: nat,
    resolution_y: nat,
    disk: RasterView,
    background: Option<RasterView>,
) -> Option<CompositeError> {
    if disk.width == 0 || disk.height == 0 {
        Some(CompositeError::EmptyDisk)
    } else if disk.width > resolution_x || disk.height > resolution_y {
        Some(CompositeError::DiskTooLarge)
    } else {
        match background {
            None => if 3 * (resolution_x * resolution_y) > usize::MAX {
                Some(CompositeError::CanvasTooLarge)
            } else {
                None
            },
            Some(b) => match fitted(b, resolution_x, resolution_y) {
                Ok(_) => None,
                Err(e) => Some(CompositeError::Background(e)),
            },
        }
    }
}

/// Whether `canvas` is what [`composite`] gives for arguments it accepts.
pub open spec fn is_composite(
    resolution_x: nat,
    resolution_y: nat,
    disk: RasterView,
    background: Option<RasterView>,
    image: RasterView,
    alpha: bool,
) -> bool {
    let ox = spec_centered(resolution_x, disk.width) as int;
    let oy = spec_centered(resolution_y, disk.height) as int;
    &&& image.wf()
    &&& image.width == resolution_x
    &&& image.height == resolution_y
    &&& alpha == (background is None)
    &&& match background {
        None => forall|x: int, y: int|
            image.contains(x, y) ==> #[trigger] image.pixel(x, y) == plain_pixel(disk, ox, oy, x, y),
        Some(b) => forall|x: int, y: int|
            image.contains(x, y) ==> #[trigger] image.pixel(x, y) == cutout_pixel(
                fitted(b, resolution_x, resolution_y)->Ok_0,
                disk,
                boundary_of(disk),
                ox,
                oy,
                x,
                y,
            ),
    }
}

/// The error with which [`generate`] refuses its arguments, if it does.
pub open spec fn generate_error(
    resolution_x: nat,
    resolution_y: nat,
    disk_size: nat,
    source: RasterView,
    background: Option<RasterView>,
) -> Option<CompositeError> {
    let d = spec_disk_dim(resolution_x, resolution_y, disk_size);
    if resolution_x == 0 || resolution_y == 0 {
        Some(CompositeError::InvalidResolution)
    } else if disk_size < 1 || disk_size > 100 {
        Some(CompositeError::InvalidDiskSize)
    } else {
        match resized(source, d, d) {
            Err(e) => Some(CompositeError::Disk(e)),
            Ok(disk) => composite_error(resolution_x, resolution_y, disk, background),
        }
    }
}

/// The bytes of a wallpaper: its pixels row by row, each followed by an
/// opaque alpha byte where `alpha` is set.
pub open spec fn canvas_bytes(image: RasterView, alpha: bool) -> Seq<u8> {
    if alpha {
        Seq::new(
            4 * (image.width * image.height),
            |i: int|
                if i % 4 == 3 {
                    255u8
                } else {
                    image.bytes[3 * (i / 4) + i % 4]
                },
        )
    } else {
        image.bytes
    }
}

/// Whether `root` is the square root of `n`, rounded down.
pub open spec fn is_floor_sqrt(n: int, root: int) -> bool {
    0 <= root && root * root <= n < (root + 1) * (root + 1)
}

/// A pixel lies inside the circle exactly where the distance to the centre,
/// rounded down to a whole number, is below the radius.
pub proof fn lemma_inside_by_distance(est: BoundaryEstimate, x: int, y: int, root: int)
    requires
        is_floor_sqrt(
            (est.center_x - x) * (est.center_x - x) + (est.center_y - y) * (est.center_y - y),
            root,
        ),
    ensures
        inside(est, x, y) <==> root < est.radius,
{
    let n = (est.center_x - x) * (est.center_x - x) + (est.center_y - y) * (est.center_y - y);
    let r = est.radius as int;
    assert(n < r * r <==> root < r) by (nonlinear_arith)
        requires
            0 <= root,
            0 <= r,
            root * root <= n < (root + 1) * (root + 1),
    ;
}

/// Edge of the disk for a resolution and a size in percent.
pub fn disk_dim(resolution_x: u32, resolution_y: u32, disk_size: u32) -> (d: u32)
    requires
        disk_size <= 100,
    ensures
        d == spec_disk_dim(resolution_x as nat, resolution_y as nat, disk_size as nat),
        d <= resolution_x,
        d <= resolution_y,
{
    let smaller: u32 = if resolution_x <= resolution_y {
        resolution_x
    } else {
        resolution_y
    };
    assert(smaller * disk_size <= smaller * 100) by (nonlinear_arith)
        requires
            disk_size <= 100,
            0 <= smaller,
    ;
    (smaller as u64 * disk_size as u64 / 100) as u32
}

/// Where a buffer of size `inner` starts so that it sits in the middle of
/// `outer`.
pub fn centered(outer: u32, inner: u32) -> (offset: u32)
    requires
        inner <= outer,
    ensures
        offset == spec_centered(outer as nat, inner as nat),
        offset + inner <= outer,
{
    (outer - inner) / 2
}

/// Whether `(x, y)` lies inside the circle.
fn is_inside(est: BoundaryEstimate, x: u32, y: u32) -> (b: bool)
    ensures
        b == inside(est, x as int, y as int),
{
    let dx: u64 = distance(est.center_x, x) as u64;
    let dy: u64 = distance(est.center_y, y) as u64;
    let r: u64 = est.radius as u64;
    proof {
        lemma_square_fits(dx as int);
        lemma_square_fits(dy as int);
        lemma_square_fits(r as int);
        lemma_square_of_span(est.center_x as int, x as int);
        lemma_square_of_span(est.center_y as int, y as int);
    }
    let near: u128 = (dx * dx) as u128 + (dy * dy) as u128;
    let far: u128 = (r * r) as u128;
    near < far
}

/// The square of a 32-bit number fits in 64 bits.
proof fn lemma_square_fits(d: int)
    requires
        0 <= d <= u32::MAX,
    ensures
        0 <= d * d <= u64::MAX,
{
    assert(0 <= d * d <= 0xffff_ffff * 0xffff_ffff) by (nonlinear_arith)
        requires
            0 <= d <= 0xffff_ffff,
    ;
}

/// A difference and its absolute value have the same square.
proof fn lemma_square_of_span(a: int, b: int)
    ensures
        span(a, b) * span(a, b) == (a - b) * (a - b),
{
    assert((b - a) * (b - a) == (a - b) * (a - b)) by (nonlinear_arith);
}

/// Copies onto `bg`, at `(offset_x, offset_y)`, the pixels of `earth` that lie
/// inside its lit disk, and leaves every other pixel of `bg` as it was. Gives
/// the circle that was cut out.
///
/// Nothing is written where `earth` is empty or does not lie wholly inside
/// `bg`.
pub fn cutout_disk(bg: &mut Raster, earth: &Raster, offset_x: u32, offset_y: u32) -> (out: Result<
    BoundaryEstimate,
    CompositeError,
>)
    requires
        old(bg).wf(),
        earth.wf(),
    ensures
        final(bg).wf(),
        final(bg)@.same_size(old(bg)@),
        out == (if earth@.width == 0 || earth@.height == 0 {
            Err::<BoundaryEstimate, CompositeError>(CompositeError::EmptyDisk)
        } else if !old(bg)@.fits(
            offset_x as int,
            offset_y as int,
            earth@.width as int,
            earth@.height as int,
        ) {
            Err::<BoundaryEstimate, CompositeError>(CompositeError::DiskTooLarge)
        } else {
            Ok::<BoundaryEstimate, CompositeError>(boundary_of(earth@))
        }),
        out is Ok ==> forall|x: int, y: int|
            old(bg)@.contains(x, y) ==> #[trigger] final(bg)@.pixel(x, y) == cutout_pixel(
                old(bg)@,
                earth@,
                boundary_of(earth@),
                offset_x as int,
                offset_y as int,
                x,
                y,
            ),
        out is Err ==> final(bg)@ == old(bg)@,
{
    let width = earth.width();
    let height = earth.height();
    if width == 0 || height == 0 {
        return Err(CompositeError::EmptyDisk);
    }
    if width > bg.width() || offset_x > bg.width() - width {
        return Err(CompositeError::DiskTooLarge);
    }
    if height > bg.height() || offset_y > bg.height() - height {
        return Err(CompositeError::DiskTooLarge);
    }
    let est = detect(earth);
    let ghost before = bg@;
    let ghost top = earth@;
    let ghost ox = offset_x as int;
    let ghost oy = offset_y as int;
    let mut j: u32 = 0;
    while j < height
        invariant
            j <= height,
            width == top.width,
            height == top.height,
            top == earth@,
            earth.wf(),
            bg.wf(),
            before.wf(),
            bg@.same_size(before),
            ox == offset_x,
            oy == offset_y,
            before.fits(ox, oy, top.width as int, top.height as int),
            forall|x: int, y: int|
                before.contains(x, y) ==> #[trigger] bg@.pixel(x, y) == (if y < oy + j {
                    cutout_pixel(before, top, est, ox, oy, x, y)
                } else {
                    before.pixel(x, y)
                }),
        decreases height - j,
    {
        let mut i: u32 = 0;
        while i < width
            invariant
                i <= width,
                j < height,
                width == top.width,
                height == top.height,
                top == earth@,
                earth.wf(),
                bg.wf(),
                before.wf(),
                bg@.same_size(before),
                ox == offset_x,
                oy == offset_y,
                before.fits(ox, oy, top.width as int, top.height as int),
                forall|x: int, y: int|
                    before.contains(x, y) ==> #[trigger] bg@.pixel(x, y) == (if y < oy + j || (y == oy
                        + j && x < ox + i) {
                        cutout_pixel(before, top, est, ox, oy, x, y)
                    } else {
                        before.pixel(x, y)
                    }),
            decreases width - i,
        {
            if is_inside(est, i, j) {
                let p = earth.at(i, j);
                proof {
                    lemma_with_pixel(bg@, ox + i, oy + j, p);
                }
                bg.set(offset_x + i, offset_y + j, p);
            }
            i = i + 1;
        }
        j = j + 1;
    }
    Ok(est)
}

/// Builds the wallpaper at `resolution_x` by `resolution_y` from the resized
/// disk and, where one is given, a background.
///
/// The disk sits in the middle of the canvas. Without a background the
/// canvas is black and the whole disk buffer replaces what is under it;
/// with one, the background is first brought to the resolution and only
/// the pixels inside the disk's detected circle are copied onto it.
pub fn composite(resolution_x: u32, resolution_y: u32, disk: &Raster, background: Option<&Raster>) -> (out:
    Result<Canvas, CompositeError>)
    requires
        disk.wf(),
        background matches Some(b) ==> b.wf(),
    ensures
        match out {
            Ok(c) => composite_error(
                resolution_x as nat,
                resolution_y as nat,
                disk@,
                view_of(background),
            ) is None && is_composite(
                resolution_x as nat,
                resolution_y as nat,
                disk@,
                view_of(background),
                c.image@,
                c.alpha,
            ),
            Err(e) => composite_error(resolution_x as nat, resolution_y as nat, disk@, view_of(background))
                == Some(e),
        },
{
    if disk.width() == 0 || disk.height() == 0 {
        return Err(CompositeError::EmptyDisk);
    }
    if disk.width() > resolution_x || disk.height() > resolution_y {
        return Err(CompositeError::DiskTooLarge);
    }
    let offset_x = centered(resolution_x, disk.width());
    let offset_y = centered(resolution_y, disk.height());
    match background {
        None => {
            let mut image = match Raster::new(resolution_x, resolution_y) {
                Some(image) => image,
                None => {
                    return Err(CompositeError::CanvasTooLarge);
                },
            };
            image.overlay_at(disk, offset_x, offset_y);
            Ok(Canvas { image, alpha: true })
        },
        Some(b) => {
            let mut image = if b.width() == resolution_x && b.height() == resolution_y {
                b.duplicate()
            } else {
                match resize(b, resolution_x, resolution_y) {
                    Ok(image) => image,
                    Err(e) => {
                        return Err(CompositeError::Background(e));
                    },
                }
            };
            match cutout_disk(&mut image, disk, offset_x, offset_y) {
                Ok(_) => Ok(Canvas { image, alpha: false }),
                Err(e) => Err(e),
            }
        },
    }
}

/// Builds the wallpaper that `config` asks for from the full-resolution
/// `source` image: the source is resized to the disk's edge and then put
/// onto the canvas as [`composite`] does.
pub fn generate(config: &Config, source: &Raster, background: Option<&Raster>) -> (out: Result<
    Canvas,
    CompositeError,
>)
    requires
        source.wf(),
        background matches Some(b) ==> b.wf(),
    ensures
        match out {
            Ok(c) => {
                let d = spec_disk_dim(
                    config.resolution_x as nat,
                    config.resolution_y as nat,
                    config.disk_size as nat,
                );
                &&& generate_error(
                    config.resolution_x as nat,
                    config.resolution_y as nat,
                    config.disk_size as nat,
                    source@,
                    view_of(background),
                ) is None
                &&& is_composite(
                    config.resolution_x as nat,
                    config.resolution_y as nat,
                    resized(source@, d, d)->Ok_0,
                    view_of(background),
                    c.image@,
                    c.alpha,
                )
            },
            Err(e) => generate_error(
                config.resolution_x as nat,
                config.resolution_y as nat,
                config.disk_size as nat,
                source@,
                view_of(background),
            ) == Some(e),
        },
{
    if config.resolution_x == 0 || config.resolution_y == 0 {
        return Err(CompositeError::InvalidResolution);
    }
    if config.disk_size < 1 || config.disk_size > 100 {
        return Err(CompositeError::InvalidDiskSize);
    }
    let d = disk_dim(config.resolution_x, config.resolution_y, config.disk_size);
    let disk = match resize(source, d, d) {
        Ok(disk) => disk,
        Err(e) => {
            return Err(CompositeError::Disk(e));
        },
    };
    composite(config.resolution_x, config.resolution_y, &disk, background)
}

impl Canvas {
    /// The wallpaper's bytes, row by row: three per pixel, or four where it
    /// carries an alpha channel.
    pub fn to_bytes(&self) -> (bytes: Vec<u8>)
        requires
            self.image.wf(),
        ensures
            bytes@ == canvas_bytes(self.image@, self.alpha),
    {
        if !self.alpha {
            return self.image.duplicate().into_bytes();
        }
        let rgb = self.image.as_bytes();
        let mut out: Vec<u8> = Vec::new();
        let cells: usize = rgb.len() / 3;
        let ghost goal = canvas_bytes(self.image@, true);
        let mut k: usize = 0;
        while k < cells
            invariant
                k <= cells,
                rgb@ == self.image@.bytes,
                rgb@.len() == 3 * cells,
                3 * cells <= usize::MAX,
                cells == self.image@.width * self.image@.height,
                goal == canvas_bytes(self.image@, true),
                out@.len() == 4 * k,
                forall|i: int| 0 <= i < 4 * k ==> out@[i] == goal[i],
            decreases cells - k,
        {
            out.push(rgb[3 * k]);
            out.push(rgb[3 * k + 1]);
            out.push(rgb[3 * k + 2]);
            out.push(255u8);
            k = k + 1;
        }
        assert(out@ =~= goal);
        out
    }
}

} // verus!
