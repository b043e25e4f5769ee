//! The imagery service: where its tiles are found and how one is decoded.
//!
//! The service publishes, per satellite, the dates and times for which it
//! has imagery, and serves the image of one time as a grid of PNG tiles.
//! This module forms the addresses and turns the bytes of one tile into a
//! [`Tile`]; sending the requests is left to the caller.

use crate::config::Satellite;
use crate::mosaic::{FetchError, Tile};
use crate::raster::{Raster, RasterView};
use vstd::prelude::*;
use vstd::string::StringExecFns;

verus! {

/// Colour type of a PNG whose pixels are red, green and blue samples.
pub const PNG_RGB: u8 = 2;

/// Bit depth of a PNG with one byte per sample.
pub const PNG_EIGHT_BITS: u8 = 8;

/// The time of an image, as the service writes it: a number of fourteen
/// digits, year first.
#[derive(Debug, Clone, Copy, PartialEq, Eq, Structural)]
pub struct Time {
    pub timestamp: u64,
}

/// A day for which the service has imagery, as the service writes it: the
/// number `yyyymmdd`.
#[derive(Debug, Clone, Copy, PartialEq, Eq, Structural)]
pub struct Date {
    pub date: u64,
}

/// The first of the values that the service lists, which is the latest.
pub open spec fn first_of(values: Seq<u64>) -> Option<u64> {
    if values.len() == 0 {
        None
    } else {
        Some(values[0])
    }
}

impl Time {
    /// The latest of the listed times, which the service puts first; `None`
    /// for an empty list.
    pub fn latest(values: &[u64]) -> (out: Option<Time>)
        ensures
            out == match first_of(values@) {
                Some(v) => Some(Time { timestamp: v }),
                None => None::<Time>,
            },
    {
        if values.len() == 0 {
            None
        } else {
            Some(Time { timestamp: values[0] })
        }
    }

    /// The time as the number the service writes.
    pub fn as_int(&self) -> (t: u64)
        ensures
            t == self.timestamp,
    {
        self.timestamp
    }
}

impl Date {
    /// The latest of the listed dates, which the service puts first; `None`
    /// for an empty list.
    pub fn latest(values: &[u64]) -> (out: Option<Date>)
        ensures
            out == match first_of(values@) {
                Some(v) => Some(Date { date: v }),
                None => None::<Date>,
            },
    {
        if values.len() == 0 {
            None
        } else {
            Some(Date { date: values[0] })
        }
    }

    /// The year: the four digits before the month's.
    pub open spec fn spec_year(self) -> nat {
        ((self.date / 10_000) % 10_000) as nat
    }

    /// The month: the two digits before the day's.
    pub open spec fn spec_month(self) -> nat {
        ((self.date / 100) % 100) as nat
    }

    /// The day: the last two digits.
    pub open spec fn spec_day(self) -> nat {
        (self.date % 100) as nat
    }

    /// Splits date into year, month, and day
    pub fn split(&self) -> (parts: (u16, u8, u8))
        ensures
            parts.0 == self.spec_year(),
            parts.1 == self.spec_month(),
            parts.2 == self.spec_day(),
    {
        (
            ((self.date / 10_000) % 10_000) as u16,
            ((self.date / 100) % 100) as u8,
            (self.date % 100) as u8,
        )
    }
}

/// The character of a decimal digit.
pub open spec fn digit_char(d: int) -> char {
    if d == 0 {
        '0'
    } else if d == 1 {
        '1'
    } else if d == 2 {
        '2'
    } else if d == 3 {
        '3'
    } else if d == 4 {
        '4'
    } else if d == 5 {
        '5'
    } else if d == 6 {
        '6'
    } else if d == 7 {
        '7'
    } else if d == 8 {
        '8'
    } else {
        '9'
    }
}

/// `n` in decimal, without leading zeros.
pub open spec fn decimal(n: nat) -> Seq<char>
    decreases n,
{
    if n < 10 {
        seq![digit_char(n as int)]
    } else {
        decimal(n / 10).push(digit_char((n % 10) as int))
    }
}

/// `count` zeros.
pub open spec fn zeros(count: nat) -> Seq<char> {
    Seq::new(count, |i: int| '0')
}

/// `n` in decimal, with zeros in front where it has fewer than `width`
/// digits.
pub open spec fn padded(n: nat, width: nat) -> Seq<char> {
    if decimal(n).len() >= width {
        decimal(n)
    } else {
        zeros((width - decimal(n).len()) as nat) + decimal(n)
    }
}

/// The digits before the last one: none for a number below ten.
pub open spec fn leading(n: nat) -> Seq<char> {
    if n == 0 {
        Seq::<char>::empty()
    } else {
        decimal(n)
    }
}

/// Digits that were collected last digit first, in reading order.
pub open spec fn rendered(digits: Seq<u8>) -> Seq<char> {
    Seq::new(digits.len(), |i: int| digit_char(digits[digits.len() - 1 - i] as int))
}

/// A number is its leading digits followed by its last digit.
proof fn lemma_decimal_step(n: nat)
    ensures
        decimal(n) == leading(n / 10).push(digit_char((n % 10) as int)),
{
    if n < 10 {
        assert(decimal(n) =~= Seq::<char>::empty().push(digit_char(n as int)));
    }
}

/// The string of one decimal digit.
fn digit_str(d: u8) -> (s: &'static str)
    requires
        d < 10,
    ensures
        s@ == seq![digit_char(d as int)],
{
    proof {
        reveal_strlit("0");
        reveal_strlit("1");
        reveal_strlit("2");
        reveal_strlit("3");
        reveal_strlit("4");
        reveal_strlit("5");
        reveal_strlit("6");
        reveal_strlit("7");
        reveal_strlit("8");
        reveal_strlit("9");
    }
    let s = if d == 0 {
        "0"
    } else if d == 1 {
        "1"
    } else if d == 2 {
        "2"
    } else if d == 3 {
        "3"
    } else if d == 4 {
        "4"
    } else if d == 5 {
        "5"
    } else if d == 6 {
        "6"
    } else if d == 7 {
        "7"
    } else if d == 8 {
        "8"
    } else {
        "9"
    };
    assert(s@ =~= seq![digit_char(d as int)]);
    s
}

/// Appends `n` in decimal to `out`, with zeros in front where it has fewer
/// than `width` digits.
pub fn push_padded(out: &mut String, n: u64, width: usize)
    ensures
        final(out)@ == old(out)@ + padded(n as nat, width as nat),
{
    let ghost start = out@;
    let mut digits: Vec<u8> = Vec::new();
    digits.push((n % 10) as u8);
    let mut rest: u64 = n / 10;
    proof {
        lemma_decimal_step(n as nat);
        assert(rendered(digits@) =~= seq![digit_char((n % 10) as int)]);
        assert(decimal(n as nat) =~= leading(rest as nat) + rendered(digits@));
    }
    while rest > 0
        invariant
            digits@.len() >= 1,
            forall|i: int| 0 <= i < digits@.len() ==> digits@[i] < 10,
            decimal(n as nat) == leading(rest as nat) + rendered(digits@),
        decreases rest,
    {
        let ghost before = digits@;
        let d: u8 = (rest % 10) as u8;
        digits.push(d);
        proof {
            lemma_decimal_step(rest as nat);
            assert(rendered(digits@) =~= seq![digit_char(d as int)] + rendered(before));
            assert(leading(rest as nat) + rendered(before) =~= leading((rest / 10) as nat) + rendered(
                digits@,
            ));
        }
        rest = rest / 10;
    }
    assert(decimal(n as nat) =~= rendered(digits@));
    let len: usize = digits.len();
    let mut filled: usize = len;
    while filled < width
        invariant
            len <= filled,
            len == digits@.len(),
            filled <= width || filled == len,
            out@ == start + zeros((filled - len) as nat),
        decreases width - filled,
    {
        proof {
            reveal_strlit("0");
            assert(zeros((filled + 1 - len) as nat) =~= zeros((filled - len) as nat) + "0"@);
        }
        out.append("0");
        filled = filled + 1;
    }
    let ghost front = out@;
    assert(zeros(0) =~= Seq::<char>::empty());
    assert(front =~= start + (padded(n as nat, width as nat).subrange(
        0,
        padded(n as nat, width as nat).len() - len,
    )));
    let mut i: usize = len;
    while i > 0
        invariant
            i <= len,
            len == digits@.len(),
            forall|k: int| 0 <= k < digits@.len() ==> digits@[k] < 10,
            out@ == front + rendered(digits@).subrange(0, len - i),
        decreases i,
    {
        i = i - 1;
        proof {
            assert(rendered(digits@).subrange(0, len - i) =~= rendered(digits@).subrange(0, len - i - 1)
                + seq![digit_char(digits@[i as int] as int)]);
        }
        out.append(digit_str(digits[i]));
    }
    assert(rendered(digits@).subrange(0, len as int) =~= rendered(digits@));
    assert(out@ =~= start + padded(n as nat, width as nat));
}

/// Address of the tile in cell `(row, col)` of the image that `satellite`
/// took on the day `date` at the time `time`.
pub open spec fn spec_tile_url(satellite: Satellite, date: Date, time: Time, row: nat, col: nat) -> Seq<char> {
    "https://rammb-slider.cira.colostate.edu/data/imagery/"@ + padded(date.spec_year(), 4) + "/"@ + padded(
        date.spec_month(),
        2,
    ) + "/"@ + padded(date.spec_day(), 2) + "/"@ + satellite.spec_id() + "---full_disk/geocolor/"@ + decimal(
        time.timestamp as nat,
    ) + "/"@ + padded(satellite.spec_max_zoom(), 2) + "/"@ + padded(row, 3) + "_"@ + padded(col, 3)
        + ".png"@
}

/// Address of the list of times for which the service has images of
/// `satellite`.
pub open spec fn spec_times_url(satellite: Satellite) -> Seq<char> {
    "https://rammb-slider.cira.colostate.edu/data/json/"@ + satellite.spec_id()
        + "/full_disk/geocolor/latest_times.json"@
}

/// Address of the list of days for which the service has images of
/// `satellite`.
pub open spec fn spec_dates_url(satellite: Satellite) -> Seq<char> {
    "https://rammb-slider.cira.colostate.edu/data/json/"@ + satellite.spec_id()
        + "/full_disk/geocolor/available_dates.json"@
}

/// Address of the tile in cell `(row, col)` of the image that `satellite`
/// took on the day `date` at the time `time`.
pub fn tile_url(satellite: Satellite, date: Date, time: Time, row: u32, col: u32) -> (url: String)
    ensures
        url@ == spec_tile_url(satellite, date, time, row as nat, col as nat),
{
    let (year, month, day) = date.split();
    let mut url = String::from_str("https://rammb-slider.cira.colostate.edu/data/imagery/");
    push_padded(&mut url, year as u64, 4);
    url.append("/");
    push_padded(&mut url, month as u64, 2);
    url.append("/");
    push_padded(&mut url, day as u64, 2);
    url.append("/");
    url.append(satellite.id());
    url.append("---full_disk/geocolor/");
    push_padded(&mut url, time.as_int(), 0);
    url.append("/");
    push_padded(&mut url, satellite.max_zoom() as u64, 2);
    url.append("/");
    push_padded(&mut url, row as u64, 3);
    url.append("_");
    push_padded(&mut url, col as u64, 3);
    url.append(".png");
    url
}

/// Address of the list of times for which the service has images of
/// `satellite`.
pub fn times_url(satellite: Satellite) -> (url: String)
    ensures
        url@ == spec_times_url(satellite),
{
    let mut url = String::from_str("https://rammb-slider.cira.colostate.edu/data/json/");
    url.append(satellite.id());
    url.append("/full_disk/geocolor/latest_times.json");
    url
}

/// Address of the list of days for which the service has images of
/// `satellite`.
pub fn dates_url(satellite: Satellite) -> (url: String)
    ensures
        url@ == spec_dates_url(satellite),
{
    let mut url = String::from_str("https://rammb-slider.cira.colostate.edu/data/json/");
    url.append(satellite.id());
    url.append("/full_disk/geocolor/available_dates.json");
    url
}

/// The first frame of a PNG as the decoder gives it.
#[derive(Debug)]
pub struct PngFrame {
    pub width: u32,
    pub height: u32,
    /// The PNG colour type of the decoded samples.
    pub color_type: u8,
    /// Bits per sample.
    pub bit_depth: u8,
    /// The buffer that the frame was decoded into.
    pub data: Vec<u8>,
}

/// Why the `png` crate could not decode an image.
#[verifier::external_type_specification]
#[verifier::external_body]
pub struct ExDecodingError(png::DecodingError);

/// What the `png` crate's reader gives for the first frame of the PNG file
/// `bytes`, decoded into a zeroed buffer of `capacity` bytes: width, height,
/// colour type, bit depth and the buffer; or `None` where it reports an
/// error.
pub uninterp spec fn png_frame(bytes: Seq<u8>, capacity: nat) -> Option<(u32, u32, u8, u8, Seq<u8>)>;

/// Calls `png::Decoder::read_info` on `bytes` and then
/// `png::Reader::next_frame` with a zeroed buffer of `capacity` bytes.
///
/// Trusted: the result is what those two calls give, and the buffer that
/// comes back is the one that was handed in, so it has `capacity` bytes.
#[verifier::external_body]
fn read_png(bytes: &[u8], capacity: usize) -> (out: Result<PngFrame, png::DecodingError>)
    ensures
        match out {
            Ok(f) => png_frame(bytes@, capacity as nat) == Some(
                (f.width, f.height, f.color_type, f.bit_depth, f.data@),
            ) && f.data@.len() == capacity,
            Err(_) => png_frame(bytes@, capacity as nat) is None,
        },
{
    let mut reader = png::Decoder::new(bytes).read_info()?;
    let mut data = vec![0u8; capacity];
    let info = reader.next_frame(&mut data)?;
    Ok(
        PngFrame {
            width: info.width,
            height: info.height,
            color_type: info.color_type as u8,
            bit_depth: info.bit_depth as u8,
            data,
        },
    )
}

/// What a decoded frame is worth as the tile of cell `(row, col)` of a
/// grid with tiles of `tile_edge` pixels: the frame's pixels where it is an
/// RGB image of one byte per sample and of the tile's size, and an error
/// where it is not.
pub open spec fn checked_frame(
    width: u32,
    height: u32,
    color_type: u8,
    bit_depth: u8,
    data: Seq<u8>,
    tile_edge: u32,
) -> Result<RasterView, FetchError> {
    if width != tile_edge || height != tile_edge || color_type != PNG_RGB || bit_depth != PNG_EIGHT_BITS {
        Err(FetchError::DimensionMismatch)
    } else if data.len() != 3 * (tile_edge * tile_edge) {
        Err(FetchError::Malformed)
    } else {
        Ok(RasterView { width: tile_edge as nat, height: tile_edge as nat, bytes: data })
    }
}

/// What the bytes of a PNG file are worth as a tile of `tile_edge` pixels.
pub open spec fn decoded(bytes: Seq<u8>, tile_edge: u32) -> Result<RasterView, FetchError> {
    if 3 * (tile_edge * tile_edge) > usize::MAX {
        Err(FetchError::DimensionMismatch)
    } else {
        match png_frame(bytes, (3 * (tile_edge * tile_edge)) as nat) {
            None => Err(FetchError::Malformed),
            Some(f) => checked_frame(f.0, f.1, f.2, f.3, f.4, tile_edge),
        }
    }
}

/// Whether `out` is the tile of cell `(row, col)` with the pixels `pixels`,
/// or the error that stands in their place.
pub open spec fn is_tile(out: Result<Tile, FetchError>, row: u32, col: u32, pixels: Result<RasterView, FetchError>) -> bool {
    match out {
        Ok(t) => pixels == Ok::<RasterView, FetchError>(t.pixels@) && t.row == row && t.col == col
            && t.pixels.wf(),
        Err(e) => pixels == Err::<RasterView, FetchError>(e),
    }
}

/// Takes a decoded frame as the tile of cell `(row, col)`.
///
/// A frame that is not `tile_edge` pixels wide and high, or not RGB with
/// one byte per sample, is refused as a mismatch; one whose buffer does not
/// hold exactly the tile's pixels as malformed.
pub fn tile_from_frame(frame: PngFrame, row: u32, col: u32, tile_edge: u32) -> (out: Result<Tile, FetchError>)
    ensures
        is_tile(
            out,
            row,
            col,
            checked_frame(frame.width, frame.height, frame.color_type, frame.bit_depth, frame.data@, tile_edge),
        ),
{
    if frame.width != tile_edge || frame.height != tile_edge || frame.color_type != PNG_RGB || frame.bit_depth
        != PNG_EIGHT_BITS {
        return Err(FetchError::DimensionMismatch);
    }
    match Raster::from_bytes(tile_edge, tile_edge, frame.data) {
        Some(pixels) => Ok(Tile { row, col, pixels }),
        None => Err(FetchError::Malformed),
    }
}

/// Decodes the bytes of a PNG file as the tile of cell `(row, col)` of a
/// grid with tiles of `tile_edge` pixels.
pub fn decode_tile(bytes: &[u8], row: u32, col: u32, tile_edge: u32) -> (out: Result<Tile, FetchError>)
    ensures
        is_tile(out, row, col, decoded(bytes@, tile_edge)),
{
    assert(tile_edge * tile_edge <= 0xffff_ffff * 0xffff_ffff) by (nonlinear_arith)
        requires
            tile_edge <= 0xffff_ffff,
    ;
    let cells: u64 = tile_edge as u64 * tile_edge as u64;
    if cells > (usize::MAX / 3) as u64 {
        return Err(FetchError::DimensionMismatch);
    }
    let capacity: usize = cells as usize * 3;
    match read_png(bytes, capacity) {
        Ok(frame) => tile_from_frame(frame, row, col, tile_edge),
        Err(_) => Err(FetchError::Malformed),
    }
}

} // verus!
