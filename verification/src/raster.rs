//! A bounds-checked RGB pixel buffer.
//!
//! Pixels are stored row by row, three bytes each. Every access goes through
//! `(x, y)` coordinates that are checked against the buffer's dimensions.

use vstd::prelude::*;

verus! {

/// One pixel: red, green and blue.
#[derive(Debug, Clone, Copy, PartialEq, Eq, Structural)]
pub struct Rgb {
    pub r: u8,
    pub g: u8,
    pub b: u8,
}

/// The mathematical content of a [`Raster`].
pub struct RasterView {
    pub width: nat,
    pub height: nat,
    /// Row-major, three bytes per pixel.
    pub bytes: Seq<u8>,
}

impl RasterView {
    /// The byte buffer holds exactly `width * height` pixels.
    pub open spec fn wf(self) -> bool {
        &&& self.width <= u32::MAX
        &&& self.height <= u32::MAX
        &&& self.bytes.len() == 3 * (self.width * self.height)
    }

    /// Whether `(x, y)` names a pixel of the buffer.
    pub open spec fn contains(self, x: int, y: int) -> bool {
        0 <= x < self.width && 0 <= y < self.height
    }

    /// Position in `bytes` of the red byte of pixel `(x, y)`.
    pub open spec fn index_of(self, x: int, y: int) -> int {
        3 * (y * self.width + x)
    }

    /// The pixel at `(x, y)`.
    pub open spec fn pixel(self, x: int, y: int) -> Rgb {
        let i = self.index_of(x, y);
        Rgb { r: self.bytes[i], g: self.bytes[i + 1], b: self.bytes[i + 2] }
    }

    /// The buffer with pixel `(x, y)` replaced by `p`.
    pub open spec fn with_pixel(self, x: int, y: int, p: Rgb) -> RasterView {
        let i = self.index_of(x, y);
        RasterView { bytes: self.bytes.update(i, p.r).update(i + 1, p.g).update(i + 2, p.b), ..self }
    }

    /// Two buffers of the same dimensions.
    pub open spec fn same_size(self, other: RasterView) -> bool {
        self.width == other.width && self.height == other.height
    }

    /// Whether the `w` by `h` rectangle at `(ox, oy)` lies inside the buffer.
    pub open spec fn fits(self, ox: int, oy: int, w: int, h: int) -> bool {
        0 <= ox && 0 <= oy && 0 <= w && 0 <= h && ox + w <= self.width && oy + h <= self.height
    }

    /// Every pixel is `p`.
    pub open spec fn is_solid(self, p: Rgb) -> bool {
        forall|x: int, y: int| self.contains(x, y) ==> #[trigger] self.pixel(x, y) == p
    }
}

/// Whether `(x, y)` lies in the `w` by `h` rectangle whose corner is `(ox, oy)`.
pub open spec fn in_rect(x: int, y: int, ox: int, oy: int, w: int, h: int) -> bool {
    ox <= x < ox + w && oy <= y < oy + h
}

/// Pixel `(x, y)` of `base` after `top` was laid over it with its corner at `(ox, oy)`.
pub open spec fn overlaid_pixel(base: RasterView, top: RasterView, ox: int, oy: int, x: int, y: int) -> Rgb {
    if in_rect(x, y, ox, oy, top.width as int, top.height as int) {
        top.pixel(x - ox, y - oy)
    } else {
        base.pixel(x, y)
    }
}

/// A pixel inside a `w` by `h` grid has its cell number below `w * h`.
pub proof fn lemma_cell_bound(x: int, y: int, w: int, h: int)
    requires
        0 <= x < w,
        0 <= y < h,
    ensures
        0 <= y * w,
        0 <= y * w + x < w * h,
        3 * (y * w + x) + 3 <= 3 * (w * h),
{
    assert(y * w + x < w * h) by (nonlinear_arith)
        requires
            0 <= x < w,
            0 <= y < h,
    ;
    assert(0 <= y * w) by (nonlinear_arith)
        requires
            0 <= y,
            0 <= w,
    ;
}

/// Distinct pixels of one row-major grid have distinct cell numbers.
pub proof fn lemma_cell_injective(x1: int, y1: int, x2: int, y2: int, w: int)
    requires
        0 <= x1 < w,
        0 <= x2 < w,
        y1 * w + x1 == y2 * w + x2,
    ensures
        x1 == x2,
        y1 == y2,
{
    if y1 < y2 {
        assert(y2 * w >= y1 * w + w) by (nonlinear_arith)
            requires
                y1 < y2,
                0 <= w,
        ;
    } else if y2 < y1 {
        assert(y1 * w >= y2 * w + w) by (nonlinear_arith)
            requires
                y2 < y1,
                0 <= w,
        ;
    }
}

/// Replacing one pixel changes that pixel and no other.
pub proof fn lemma_with_pixel(v: RasterView, x: int, y: int, p: Rgb)
    requires
        v.wf(),
        v.contains(x, y),
    ensures
        v.with_pixel(x, y, p).wf(),
        v.with_pixel(x, y, p).same_size(v),
        v.with_pixel(x, y, p).pixel(x, y) == p,
        forall|x2: int, y2: int|
            v.contains(x2, y2) && !(x2 == x && y2 == y) ==> #[trigger] v.with_pixel(x, y, p).pixel(
                x2,
                y2,
            ) == v.pixel(x2, y2),
{
    let n = v.with_pixel(x, y, p);
    let w = v.width as int;
    lemma_cell_bound(x, y, w, v.height as int);
    assert forall|x2: int, y2: int| v.contains(x2, y2) && !(x2 == x && y2 == y) implies #[trigger] n.pixel(
        x2,
        y2,
    ) == v.pixel(x2, y2) by {
        lemma_cell_bound(x2, y2, w, v.height as int);
        if y2 * w + x2 == y * w + x {
            lemma_cell_injective(x2, y2, x, y, w);
        }
    }
}

/// A well-formed buffer is determined by its dimensions and its pixels.
pub proof fn lemma_pixels_determine_bytes(a: RasterView, b: RasterView)
    requires
        a.wf(),
        b.wf(),
        a.same_size(b),
        forall|x: int, y: int| a.contains(x, y) ==> #[trigger] a.pixel(x, y) == b.pixel(x, y),
    ensures
        a == b,
{
    let w = a.width as int;
    let h = a.height as int;
    assert forall|i: int| 0 <= i < a.bytes.len() implies a.bytes[i] == b.bytes[i] by {
        let k = i / 3;
        let c = i % 3;
        assert(0 <= k < w * h);
        assert(w > 0) by (nonlinear_arith)
            requires
                0 <= k < w * h,
                0 <= w,
        ;
        let x = k % w;
        let y = k / w;
        vstd::arithmetic::div_mod::lemma_fundamental_div_mod(k, w);
        vstd::arithmetic::div_mod::lemma_mod_bound(k, w);
        assert(w * y == y * w) by (nonlinear_arith);
        assert(k == y * w + x);
        assert(0 <= y < h) by (nonlinear_arith)
            requires
                k == y * w + x,
                0 <= x < w,
                0 <= k < w * h,
        ;
        assert(a.contains(x, y));
        assert(a.pixel(x, y) == b.pixel(x, y));
        assert(a.index_of(x, y) == 3 * k);
        assert(b.index_of(x, y) == 3 * k);
        assert(i == 3 * k + c);
    }
    assert(a.bytes =~= b.bytes);
}

/// An RGB pixel buffer of `width` by `height` pixels.
#[derive(Debug)]
pub struct Raster {
    width: u32,
    height: u32,
    data: Vec<u8>,
}

impl View for Raster {
    type V = RasterView;

    closed spec fn view(&self) -> RasterView {
        RasterView { width: self.width as nat, height: self.height as nat, bytes: self.data@ }
    }
}

impl Raster {
    /// The buffer holds exactly `width * height` pixels.
    pub open spec fn wf(&self) -> bool {
        self@.wf()
    }

    /// A black buffer of the given dimensions, or `None` where its byte
    /// count does not fit the machine's `usize`.
    pub fn new(width: u32, height: u32) -> (out: Option<Raster>)
        ensures
            out is Some <==> 3 * (width * height) <= usize::MAX,
            out matches Some(r) ==> {
                &&& r.wf()
                &&& r@.width == width
                &&& r@.height == height
                &&& r@.is_solid(Rgb { r: 0, g: 0, b: 0 })
            },
    {
        let cells: u64 = cell_count(width, height);
        if cells > (usize::MAX / 3) as u64 {
            return None;
        }
        let len: usize = cells as usize * 3;
        let data: Vec<u8> = vec![0u8; len];
        let r = Raster { width, height, data };
        proof {
            assert forall|x: int, y: int| r@.contains(x, y) implies #[trigger] r@.pixel(x, y) == (Rgb {
                r: 0,
                g: 0,
                b: 0,
            }) by {
                lemma_cell_bound(x, y, width as int, height as int);
            }
        }
        Some(r)
    }

    /// Wraps row-major RGB bytes, or gives `None` where their count is not
    /// `3 * width * height`.
    pub fn from_bytes(width: u32, height: u32, data: Vec<u8>) -> (out: Option<Raster>)
        ensures
            out is Some <==> data@.len() == 3 * (width * height),
            out matches Some(r) ==> {
                &&& r.wf()
                &&& r@.width == width
                &&& r@.height == height
                &&& r@.bytes == data@
            },
    {
        let cells: u64 = cell_count(width, height);
        let len: usize = data.len();
        if cells > (usize::MAX / 3) as u64 {
            return None;
        }
        if len != cells as usize * 3 {
            return None;
        }
        Some(Raster { width, height, data })
    }

    /// Width in pixels.
    pub fn width(&self) -> (w: u32)
        ensures
            w == self@.width,
    {
        self.width
    }

    /// Height in pixels.
    pub fn height(&self) -> (h: u32)
        ensures
            h == self@.height,
    {
        self.height
    }

    /// The row-major RGB bytes.
    pub fn as_bytes(&self) -> (bytes: &[u8])
        ensures
            bytes@ == self@.bytes,
    {
        self.data.as_slice()
    }

    /// Gives up the buffer for its row-major RGB bytes.
    pub fn into_bytes(self) -> (bytes: Vec<u8>)
        ensures
            bytes@ == self@.bytes,
    {
        self.data
    }

    /// A copy of the buffer.
    pub fn duplicate(&self) -> (copy: Raster)
        ensures
            copy@ == self@,
    {
        let data = self.data.clone();
        assert(data@ =~= self.data@);
        Raster { width: self.width, height: self.height, data }
    }

    /// The pixel at `(x, y)`, or `None` outside the buffer.
    pub fn get(&self, x: u32, y: u32) -> (p: Option<Rgb>)
        requires
            self.wf(),
        ensures
            p == if self@.contains(x as int, y as int) {
                Some(self@.pixel(x as int, y as int))
            } else {
                None::<Rgb>
            },
    {
        if x >= self.width || y >= self.height {
            return None;
        }
        Some(self.at(x, y))
    }

    /// The pixel at `(x, y)`, which lies inside the buffer.
    pub(crate) fn at(&self, x: u32, y: u32) -> (p: Rgb)
        requires
            self.wf(),
            self@.contains(x as int, y as int),
        ensures
            p == self@.pixel(x as int, y as int),
    {
        let len: usize = self.data.len();
        proof {
            lemma_cell_bound(x as int, y as int, self.width as int, self.height as int);
        }
        let i: usize = (y as usize * self.width as usize + x as usize) * 3;
        Rgb { r: self.data[i], g: self.data[i + 1], b: self.data[i + 2] }
    }

    /// Writes `p` at `(x, y)` and says whether `(x, y)` lies inside the
    /// buffer; outside it nothing is written.
    pub fn set(&mut self, x: u32, y: u32, p: Rgb) -> (done: bool)
        requires
            old(self).wf(),
        ensures
            done == old(self)@.contains(x as int, y as int),
            done ==> final(self)@ == old(self)@.with_pixel(x as int, y as int, p),
            !done ==> final(self)@ == old(self)@,
            final(self).wf(),
    {
        if x >= self.width || y >= self.height {
            return false;
        }
        let len: usize = self.data.len();
        proof {
            lemma_cell_bound(x as int, y as int, self.width as int, self.height as int);
        }
        let i: usize = (y as usize * self.width as usize + x as usize) * 3;
        self.data.set(i, p.r);
        self.data.set(i + 1, p.g);
        self.data.set(i + 2, p.b);
        true
    }

    /// Lays `top` over the buffer with its top-left corner at `(x, y)`,
    /// replacing every pixel under it. Says whether `top` lies wholly inside
    /// the buffer; where it does not, nothing is written.
    pub fn overlay_at(&mut self, top: &Raster, x: u32, y: u32) -> (done: bool)
        requires
            old(self).wf(),
            top.wf(),
        ensures
            done == old(self)@.fits(x as int, y as int, top@.width as int, top@.height as int),
            final(self).wf(),
            final(self)@.same_size(old(self)@),
            done ==> forall|px: int, py: int|
                old(self)@.contains(px, py) ==> #[trigger] final(self)@.pixel(px, py) == overlaid_pixel(
                    old(self)@,
                    top@,
                    x as int,
                    y as int,
                    px,
                    py,
                ),
            !done ==> final(self)@ == old(self)@,
    {
        if top.width > self.width || x > self.width - top.width {
            return false;
        }
        if top.height > self.height || y > self.height - top.height {
            return false;
        }
        let ghost before = self@;
        let mut j: u32 = 0;
        while j < top.height
            invariant
                j <= top.height,
                top.wf(),
                self.wf(),
                before.wf(),
                self@.same_size(before),
                before.fits(x as int, y as int, top@.width as int, top@.height as int),
                forall|px: int, py: int|
                    before.contains(px, py) ==> #[trigger] self@.pixel(px, py) == (if in_rect(
                        px,
                        py,
                        x as int,
                        y as int,
                        top@.width as int,
                        j as int,
                    ) {
                        top@.pixel(px - x, py - y)
                    } else {
                        before.pixel(px, py)
                    }),
            decreases top.height - j,
        {
            let mut i: u32 = 0;
            while i < top.width
                invariant
                    i <= top.width,
                    j < top.height,
                    top.wf(),
                    self.wf(),
                    before.wf(),
                    self@.same_size(before),
                    before.fits(x as int, y as int, top@.width as int, top@.height as int),
                    forall|px: int, py: int|
                        before.contains(px, py) ==> #[trigger] self@.pixel(px, py) == (if in_rect(
                            px,
                            py,
                            x as int,
                            y as int,
                            top@.width as int,
                            j as int,
                        ) || (py == y + j && x <= px < x + i) {
                            top@.pixel(px - x, py - y)
                        } else {
                            before.pixel(px, py)
                        }),
                decreases top.width - i,
            {
                let p = top.at(i, j);
                proof {
                    lemma_with_pixel(self@, x + i, y + j, p);
                }
                self.set(x + i, y + j, p);
                i = i + 1;
            }
            j = j + 1;
        }
        true
    }
}

/// Number of pixels in a `width` by `height` buffer.
fn cell_count(width: u32, height: u32) -> (n: u64)
    ensures
        n == width * height,
{
    assert(width * height <= u64::MAX) by (nonlinear_arith)
        requires
            width <= u32::MAX,
            height <= u32::MAX,
    ;
    width as u64 * height as u64
}

} // verus!
