//! ESC/POS raster encoding: Pillow-compatible luma, inversion and Floyd-Steinberg dithering to
//! one bit per pixel, MSB-first packing, and the `GS v 0` command layout.
use vstd::prelude::*;

use crate::domain::RenderedReceiptImage;
use crate::text::{decimal_digits, decimal_string};

verus! {

pub const BYTES_PER_RGB_PIXEL: usize = 3;

pub const ESC_POS_ESC: u8 = 0x1B;

pub const ESC_POS_GS: u8 = 0x1D;

pub const ESC_POS_CUT_COMMAND: u8 = 0x56;

pub const ESC_POS_PRINT_AND_FEED_COMMAND: u8 = 0x64;

pub const ESC_POS_RASTER_MODE_NORMAL: u8 = 0x00;

pub const ESC_POS_RASTER_HEADER_LEN: usize = 8;

pub const ESC_POS_DEFAULT_CUT_FEED_LINES: u8 = 6;

pub const ESC_POS_DEFAULT_IMAGE_FRAGMENT_HEIGHT_PX: u16 = 960;

pub const PILLOW_BILEVEL_THRESHOLD: i32 = 128;

pub const PILLOW_LUMA_RED: u32 = 19595;

pub const PILLOW_LUMA_GREEN: u32 = 38470;

pub const PILLOW_LUMA_BLUE: u32 = 7471;

pub const PILLOW_LUMA_ROUNDING: u32 = 0x8000;

/// Why an image could not be encoded.
#[derive(Debug, Clone, PartialEq, Eq, Structural)]
pub enum EscPosEncodingError {
    InvalidImageDimensions { width_px: u32, height_px: u32 },
    RasterDimensionsTooLarge { width_bytes: u32, height_px: u32 },
    InvalidRgbBufferLength {
        width_px: u32,
        height_px: u32,
        expected_len: usize,
        actual_len: usize,
    },
    AllocationFailed { byte_len: usize },
}

/// The text an `EscPosEncodingError` is shown with.
pub open spec fn escpos_error_text(e: EscPosEncodingError) -> Seq<char> {
    match e {
        EscPosEncodingError::InvalidImageDimensions { width_px, height_px } =>
            "rendered image dimensions must be non-zero: "@ + decimal_digits(width_px as nat) + "x"@
                + decimal_digits(height_px as nat) + "px"@,
        EscPosEncodingError::RasterDimensionsTooLarge { width_bytes, height_px } =>
            "rendered image is too large for ESC/POS raster header: "@ + decimal_digits(
                width_bytes as nat,
            ) + " bytes wide, "@ + decimal_digits(height_px as nat) + "px high"@,
        EscPosEncodingError::InvalidRgbBufferLength {
            width_px,
            height_px,
            expected_len,
            actual_len,
        } => "rendered image "@ + decimal_digits(width_px as nat) + "x"@ + decimal_digits(
            height_px as nat,
        ) + "px has invalid RGB buffer length: expected "@ + decimal_digits(expected_len as nat)
            + " bytes, got "@ + decimal_digits(actual_len as nat),
        EscPosEncodingError::AllocationFailed { byte_len } =>
            "failed to allocate ESC/POS raster command buffer of "@ + decimal_digits(byte_len as nat)
                + " bytes"@,
    }
}

impl EscPosEncodingError {
    /// The text this error is shown with.
    pub fn message(&self) -> (r: String)
        ensures
            r@ == escpos_error_text(*self),
    {
        match self {
            EscPosEncodingError::InvalidImageDimensions { width_px, height_px } => {
                let mut r = "rendered image dimensions must be non-zero: ".to_owned();
                r.append(decimal_string(*width_px as u64).as_str());
                r.append("x");
                r.append(decimal_string(*height_px as u64).as_str());
                r.append("px");
                r
            },
            EscPosEncodingError::RasterDimensionsTooLarge { width_bytes, height_px } => {
                let mut r = "rendered image is too large for ESC/POS raster header: ".to_owned();
                r.append(decimal_string(*width_bytes as u64).as_str());
                r.append(" bytes wide, ");
                r.append(decimal_string(*height_px as u64).as_str());
                r.append("px high");
                r
            },
            EscPosEncodingError::InvalidRgbBufferLength {
                width_px,
                height_px,
                expected_len,
                actual_len,
            } => {
                let mut r = "rendered image ".to_owned();
                r.append(decimal_string(*width_px as u64).as_str());
                r.append("x");
                r.append(decimal_string(*height_px as u64).as_str());
                r.append("px has invalid RGB buffer length: expected ");
                r.append(decimal_string(*expected_len as u64).as_str());
                r.append(" bytes, got ");
                r.append(decimal_string(*actual_len as u64).as_str());
                r
            },
            EscPosEncodingError::AllocationFailed { byte_len } => {
                let mut r = "failed to allocate ESC/POS raster command buffer of ".to_owned();
                r.append(decimal_string(*byte_len as u64).as_str());
                r.append(" bytes");
                r
            },
        }
    }
}

/// The checked geometry of an image that can be encoded.
#[derive(Debug, Clone, Copy)]
pub struct RasterImageSize {
    pub width_px: usize,
    pub height_px: usize,
    pub width_bytes: usize,
    pub width_bytes_u16: u16,
}

/// Bytes per raster row: the width rounded up to whole bytes.
pub open spec fn raster_width_bytes(width_px: nat) -> nat {
    (width_px + 7) / 8
}

/// The rule for an encodable image and the geometry it gets.
pub open spec fn raster_image_check(width_px: u32, height_px: u32, rgb_len: nat) -> Result<
    RasterImageSize,
    EscPosEncodingError,
> {
    let width_bytes = raster_width_bytes(width_px as nat);
    let expected_len = width_px * height_px * 3;
    if width_px == 0 || height_px == 0 {
        Err(EscPosEncodingError::InvalidImageDimensions { width_px, height_px })
    } else if width_bytes > u16::MAX {
        Err(
            EscPosEncodingError::RasterDimensionsTooLarge {
                width_bytes: width_bytes as u32,
                height_px,
            },
        )
    } else if expected_len > usize::MAX {
        Err(
            EscPosEncodingError::RasterDimensionsTooLarge {
                width_bytes: width_bytes as u32,
                height_px,
            },
        )
    } else if rgb_len != expected_len {
        Err(
            EscPosEncodingError::InvalidRgbBufferLength {
                width_px,
                height_px,
                expected_len: expected_len as usize,
                actual_len: rgb_len as usize,
            },
        )
    } else {
        Ok(
            RasterImageSize {
                width_px: width_px as usize,
                height_px: height_px as usize,
                width_bytes: width_bytes as usize,
                width_bytes_u16: width_bytes as u16,
            },
        )
    }
}

/// The rule applied to an image.
pub open spec fn image_check(image: &RenderedReceiptImage) -> Result<
    RasterImageSize,
    EscPosEncodingError,
> {
    raster_image_check(image.width_px, image.height_px, image.rgb_pixels@.len())
}

/// Pillow's integer RGB-to-luma conversion.
pub open spec fn pillow_luma_value(red: u8, green: u8, blue: u8) -> int {
    (red * 19595 + green * 38470 + blue * 7471 + 32768) / 65536
}

/// `255 - luma` of the pixel at column `x` of row `y`.
pub open spec fn inverted_luma_at(rgb: Seq<u8>, width: nat, y: nat, x: nat) -> int {
    let offset = ((y * width + x) * 3) as int;
    255 - pillow_luma_value(rgb[offset], rgb[offset + 1], rgb[offset + 2])
}

/// `v` clamped to `0..=255`.
pub open spec fn clip_u8(v: int) -> int {
    if v < 0 {
        0
    } else if v > 255 {
        255
    } else {
        v
    }
}

/// Division by 16 rounding toward zero, as Rust's `/` on signed integers.
pub open spec fn div16_toward_zero(v: int) -> int {
    if v >= 0 {
        v / 16
    } else {
        -((-v) / 16)
    }
}

/// The error terms carried from one pixel to the next within a row.
pub struct DitherCarry {
    pub l: int,
    pub l0: int,
    pub l1: int,
}

/// Pillow's Floyd-Steinberg pass over the first `n` pixels of row `y`, given the error terms
/// `prev` left by the row above: the carry after pixel `n - 1`, the error terms written for this
/// row so far, and which pixels came out black.
pub open spec fn dither_row(rgb: Seq<u8>, width: nat, y: nat, prev: Seq<int>, n: nat) -> (
    DitherCarry,
    Seq<int>,
    Seq<bool>,
)
    decreases n,
{
    if n == 0 {
        (DitherCarry { l: 0, l0: 0, l1: 0 }, Seq::empty(), Seq::empty())
    } else {
        let (carry, errors, bits) = dither_row(rgb, width, y, prev, (n - 1) as nat);
        let x = (n - 1) as nat;
        let v = clip_u8(inverted_luma_at(rgb, width, y, x) + div16_toward_zero(
            carry.l + prev[x + 1int],
        ));
        let black = v > 128;
        let e = v - if black {
            255int
        } else {
            0int
        };
        (
            DitherCarry { l: 7 * e, l0: 5 * e + carry.l1, l1: e },
            errors.push(3 * e + carry.l0),
            bits.push(black),
        )
    }
}

/// The black pixels of `rows` rows from `y_start`, dithered as one image, and the error terms
/// left for the next row.
pub open spec fn dither_rows(rgb: Seq<u8>, width: nat, y_start: nat, rows: nat) -> (
    Seq<Seq<bool>>,
    Seq<int>,
)
    decreases rows,
{
    if rows == 0 {
        (Seq::empty(), Seq::new(width + 1, |i: int| 0int))
    } else {
        let (done, prev) = dither_rows(rgb, width, y_start, (rows - 1) as nat);
        let (carry, errors, bits) = dither_row(
            rgb,
            width,
            (y_start + rows - 1) as nat,
            prev,
            width,
        );
        (done.push(bits), errors.push(carry.l0))
    }
}

/// The value of bit `k` (0 = most significant) of a byte.
pub open spec fn bit_weight(k: nat) -> nat
    decreases k,
{
    if k == 0 {
        128
    } else {
        bit_weight((k - 1) as nat) / 2
    }
}

/// The first `n` bits of byte `j` of a packed row: pixel `8 * j + k` sets bit `k`; pixels past
/// the row's end are white.
pub open spec fn packed_byte_bits(bits: Seq<bool>, j: nat, n: nat) -> nat
    decreases n,
{
    if n == 0 {
        0
    } else {
        let x = (j * 8 + (n - 1)) as int;
        packed_byte_bits(bits, j, (n - 1) as nat) + if x < bits.len() && bits[x] {
            bit_weight((n - 1) as nat)
        } else {
            0
        }
    }
}

/// One row packed MSB-first into `width_bytes` bytes.
pub open spec fn packed_row(bits: Seq<bool>, width_bytes: nat) -> Seq<u8> {
    Seq::new(width_bytes, |j: int| packed_byte_bits(bits, j as nat, 8) as u8)
}

/// Rows packed and concatenated.
pub open spec fn packed_rows(rows: Seq<Seq<bool>>, width_bytes: nat) -> Seq<u8>
    decreases rows.len(),
{
    if rows.len() == 0 {
        Seq::empty()
    } else {
        packed_rows(rows.drop_last(), width_bytes) + packed_row(rows.last(), width_bytes)
    }
}

/// The raster data of `height` rows from `y_start`, dithered on their own and packed.
pub open spec fn raster_rows(
    rgb: Seq<u8>,
    width: nat,
    width_bytes: nat,
    y_start: nat,
    height: nat,
) -> Seq<u8> {
    packed_rows(dither_rows(rgb, width, y_start, height).0, width_bytes)
}

/// The `GS v 0` header: normal mode, then width in bytes and height in dots, little-endian.
pub open spec fn gs_v0_header(width_bytes: u16, height_px: u16) -> Seq<u8> {
    seq![
        0x1Du8,
        0x76u8,
        0x30u8,
        0x00u8,
        (width_bytes % 256) as u8,
        (width_bytes / 256) as u8,
        (height_px % 256) as u8,
        (height_px / 256) as u8,
    ]
}

/// The length an allocation failure reports for a request of `n` bytes or items: `n`, or
/// `usize::MAX` where `n` does not fit in a `usize`.
pub open spec fn requested_len(n: int) -> usize {
    if 0 <= n <= usize::MAX {
        n as usize
    } else {
        usize::MAX
    }
}

/// Whether `e` is the failure of one of the allocations that encoding `height_px` rows of an
/// image of `size` requests: the packed rows, the dithering errors of a row (one more than the
/// width), or the command (its header and the packed rows).
pub open spec fn rows_allocation_failure(size: RasterImageSize, height_px: nat, e: EscPosEncodingError) -> bool {
    ||| e == EscPosEncodingError::AllocationFailed {
        byte_len: requested_len(size.width_bytes * height_px),
    }
    ||| e == EscPosEncodingError::AllocationFailed { byte_len: requested_len(size.width_px + 1) }
    ||| e == EscPosEncodingError::AllocationFailed {
        byte_len: requested_len(ESC_POS_RASTER_HEADER_LEN + size.width_bytes * height_px),
    }
}

/// Dithering `rows` rows gives that many rows of bits.
proof fn lemma_dither_rows_len(rgb: Seq<u8>, width: nat, y_start: nat, rows: nat)
    ensures
        dither_rows(rgb, width, y_start, rows).0.len() == rows,
    decreases rows,
{
    if rows > 0 {
        lemma_dither_rows_len(rgb, width, y_start, (rows - 1) as nat);
    }
}

/// Packed rows take `width_bytes` bytes each.
proof fn lemma_packed_rows_len(rows: Seq<Seq<bool>>, width_bytes: nat)
    ensures
        packed_rows(rows, width_bytes).len() == rows.len() * width_bytes,
    decreases rows.len(),
{
    if rows.len() > 0 {
        lemma_packed_rows_len(rows.drop_last(), width_bytes);
        assert((rows.len() - 1) * width_bytes + width_bytes == rows.len() * width_bytes)
            by (nonlinear_arith);
    }
}

/// The raster data of `height` rows is `height * width_bytes` bytes long.
proof fn lemma_raster_rows_len(rgb: Seq<u8>, width: nat, width_bytes: nat, y_start: nat, height: nat)
    ensures
        raster_rows(rgb, width, width_bytes, y_start, height).len() == width_bytes * height,
{
    lemma_dither_rows_len(rgb, width, y_start, height);
    lemma_packed_rows_len(dither_rows(rgb, width, y_start, height).0, width_bytes);
    assert(height * width_bytes == width_bytes * height) by (nonlinear_arith);
}

proof fn lemma_bit_weight(k: nat)
    requires
        k <= 7,
    ensures
        bit_weight(k) >= 1,
        k < 7 ==> bit_weight(k) == 2 * bit_weight(k + 1),
{
    reveal_with_fuel(bit_weight, 9);
    assert(bit_weight(0) == 128);
    assert(bit_weight(1) == 64);
    assert(bit_weight(2) == 32);
    assert(bit_weight(3) == 16);
    assert(bit_weight(4) == 8);
    assert(bit_weight(5) == 4);
    assert(bit_weight(6) == 2);
    assert(bit_weight(7) == 1);
}

proof fn lemma_pixel_offset(y: int, x: int, w: int, h: int)
    by (nonlinear_arith)
    requires
        0 <= y < h,
        0 <= x < w,
    ensures
        0 <= y * w,
        y * w + x < w * h,
        (y * w + x) * 3 + 2 < w * h * 3,
{
}

proof fn lemma_width_bytes_bound(w: int, h: int)
    by (nonlinear_arith)
    requires
        w >= 1,
        h >= 1,
    ensures
        (w + 7) / 8 <= w,
        ((w + 7) / 8) * h <= w * h,
        w + 1 <= w * h * 3,
{
}

/// Pillow's luma of one RGB pixel.
pub fn pillow_luma(red: u8, green: u8, blue: u8) -> (r: u8)
    ensures
        r as int == pillow_luma_value(red, green, blue),
{
    let sum = red as u32 * PILLOW_LUMA_RED + green as u32 * PILLOW_LUMA_GREEN + blue as u32
        * PILLOW_LUMA_BLUE + PILLOW_LUMA_ROUNDING;
    assert(sum >> 16 == sum / 65536) by (bit_vector);
    (sum >> 16) as u8
}

/// `value` clamped to `0..=255`.
pub fn clip_u8_i32(value: i32) -> (r: i32)
    ensures
        r as int == clip_u8(value as int),
{
    if value < 0 {
        0
    } else if value > 255 {
        255
    } else {
        value
    }
}

/// `width_px * height_px * 3`, if that fits a `usize`.
pub fn checked_rgb_buffer_len(width_px: u32, height_px: u32) -> (r: Option<usize>)
    ensures
        r matches Some(n) ==> n == width_px * height_px * 3,
        r is None <==> width_px * height_px * 3 > usize::MAX,
{
    let width = width_px as usize;
    let height = height_px as usize;
    match width.checked_mul(height) {
        Some(pixels) => pixels.checked_mul(BYTES_PER_RGB_PIXEL),
        None => {
            assert(width_px * height_px * 3 > usize::MAX) by (nonlinear_arith)
                requires
                    width_px * height_px > usize::MAX,
            ;
            None
        },
    }
}

/// Checks that an image can be encoded and returns its raster geometry.
pub fn validate_raster_image(image: &RenderedReceiptImage) -> (r: Result<
    RasterImageSize,
    EscPosEncodingError,
>)
    ensures
        r == image_check(image),
{
    if image.width_px == 0 || image.height_px == 0 {
        return Err(
            EscPosEncodingError::InvalidImageDimensions {
                width_px: image.width_px,
                height_px: image.height_px,
            },
        );
    }
    let width_bytes_u32 = image.width_px / 8 + if image.width_px % 8 != 0 {
        1u32
    } else {
        0u32
    };
    assert(width_bytes_u32 == raster_width_bytes(image.width_px as nat));
    if width_bytes_u32 > u16::MAX as u32 {
        return Err(
            EscPosEncodingError::RasterDimensionsTooLarge {
                width_bytes: width_bytes_u32,
                height_px: image.height_px,
            },
        );
    }
    let width_bytes_u16 = width_bytes_u32 as u16;
    let expected_len = match checked_rgb_buffer_len(image.width_px, image.height_px) {
        Some(len) => len,
        None => {
            return Err(
                EscPosEncodingError::RasterDimensionsTooLarge {
                    width_bytes: width_bytes_u32,
                    height_px: image.height_px,
                },
            );
        },
    };
    if image.rgb_pixels.len() != expected_len {
        return Err(
            EscPosEncodingError::InvalidRgbBufferLength {
                width_px: image.width_px,
                height_px: image.height_px,
                expected_len,
                actual_len: image.rgb_pixels.len(),
            },
        );
    }
    Ok(
        RasterImageSize {
            width_px: image.width_px as usize,
            height_px: image.height_px as usize,
            width_bytes: width_bytes_u16 as usize,
            width_bytes_u16,
        },
    )
}

/// The values of a sequence of `i32` as integers.
pub open spec fn int_seq(v: Seq<i32>) -> Seq<int> {
    v.map_values(|e: i32| e as int)
}

/// Whether every error term is within the bounds the dithering keeps.
pub open spec fn errors_bounded(v: Seq<i32>) -> bool {
    forall|i: int| 0 <= i < v.len() ==> -1152 <= #[trigger] v[i] <= 1152
}

/// Dithers row `source_y` of `image`, reading the error terms the row above left in `errors`
/// and leaving this row's terms there.
fn dither_row_into(
    image: &RenderedReceiptImage,
    width: usize,
    height: usize,
    source_y: usize,
    errors: &mut Vec<i32>,
    bits: &mut Vec<bool>,
)
    requires
        old(errors).len() == width + 1,
        old(bits).len() == 0,
        errors_bounded(old(errors)@),
        width * height * 3 == image.rgb_pixels@.len() <= usize::MAX,
        source_y < height,
    ensures
        final(bits)@ == dither_row(
            image.rgb_pixels@,
            width as nat,
            source_y as nat,
            int_seq(old(errors)@),
            width as nat,
        ).2,
        int_seq(final(errors)@) == dither_row(
            image.rgb_pixels@,
            width as nat,
            source_y as nat,
            int_seq(old(errors)@),
            width as nat,
        ).1.push(
            dither_row(
                image.rgb_pixels@,
                width as nat,
                source_y as nat,
                int_seq(old(errors)@),
                width as nat,
            ).0.l0,
        ),
        final(errors).len() == width + 1,
        errors_bounded(final(errors)@),
{
    let ghost rgb = image.rgb_pixels@;
    let ghost prev = int_seq(errors@);
    let mut l: i32 = 0;
    let mut l0: i32 = 0;
    let mut l1: i32 = 0;
    let mut x: usize = 0;
    while x < width
        invariant
            0 <= x <= width,
            errors.len() == width + 1,
            prev.len() == width + 1,
            width * height * 3 == rgb.len() <= usize::MAX,
            rgb == image.rgb_pixels@,
            source_y < height,
            dither_row(rgb, width as nat, source_y as nat, prev, x as nat).0 == (DitherCarry {
                l: l as int,
                l0: l0 as int,
                l1: l1 as int,
            }),
            dither_row(rgb, width as nat, source_y as nat, prev, x as nat).1 == int_seq(
                errors@,
            ).take(x as int),
            dither_row(rgb, width as nat, source_y as nat, prev, x as nat).2 == bits@,
            forall|i: int| x <= i <= width ==> errors@[i] as int == #[trigger] prev[i],
            -896 <= l <= 896,
            -768 <= l0 <= 768,
            -128 <= l1 <= 128,
            errors_bounded(errors@),
        decreases width - x,
    {
        proof {
            lemma_pixel_offset(source_y as int, x as int, width as int, height as int);
        }
        let pixel_offset = (source_y * width + x) * BYTES_PER_RGB_PIXEL;
        let luma = pillow_luma(
            image.rgb_pixels[pixel_offset],
            image.rgb_pixels[pixel_offset + 1],
            image.rgb_pixels[pixel_offset + 2],
        );
        let inverted_luma = 255 - luma as i32;
        let next_error = errors[x + 1];
        let sum = l + next_error;
        let quotient = if sum >= 0 {
            sum / 16
        } else {
            -((-sum) / 16)
        };
        l = clip_u8_i32(inverted_luma + quotient);
        let black = l > PILLOW_BILEVEL_THRESHOLD;
        let output: i32 = if black {
            255
        } else {
            0
        };
        bits.push(black);
        l -= output;
        let l2 = l;
        let d2 = l + l;
        l += d2;
        let ghost before = int_seq(errors@);
        errors.set(x, l + l0);
        assert(int_seq(errors@).take(x as int + 1) == before.take(x as int).push(l as int + l0 as int));
        l += d2;
        l0 = l + l1;
        l1 = l2;
        l += d2;
        x += 1;
    }
    let ghost before = int_seq(errors@);
    errors.set(width, l0);
    assert(int_seq(errors@) == before.take(width as int).push(l0 as int));
}

/// Appends `bits` packed MSB-first into `width_bytes` bytes to `data`.
fn pack_row_bits(bits: &Vec<bool>, width_bytes: usize, data: &mut Vec<u8>)
    requires
        width_bytes <= u16::MAX,
    ensures
        final(data)@ == old(data)@ + packed_row(bits@, width_bytes as nat),
{
    let ghost start = data@;
    let mut j: usize = 0;
    let mut base: usize = 0;
    while j < width_bytes
        invariant
            j <= width_bytes <= u16::MAX,
            base == j * 8,
            data@ == start + packed_row(bits@, width_bytes as nat).take(j as int),
        decreases width_bytes - j,
    {
        let mut byte: u8 = 0;
        let mut weight: u8 = 128;
        let mut k: usize = 0;
        while k < 8
            invariant
                k <= 8,
                base == j * 8,
                j < width_bytes <= u16::MAX,
                byte as nat == packed_byte_bits(bits@, j as nat, k as nat),
                k <= 7 ==> weight as nat == bit_weight(k as nat),
                byte as int + 2 * weight as int <= 256,
            decreases 8 - k,
        {
            proof {
                lemma_bit_weight(k as nat);
            }
            let index = base + k;
            if index < bits.len() && bits[index] {
                byte = byte + weight;
            }
            weight = weight / 2;
            k += 1;
        }
        let ghost row = packed_row(bits@, width_bytes as nat);
        data.push(byte);
        assert(row.take(j as int + 1) == row.take(j as int).push(byte));
        j += 1;
        base += 8;
    }
    assert(packed_row(bits@, width_bytes as nat).take(width_bytes as int) == packed_row(
        bits@,
        width_bytes as nat,
    ));
}

/// The raster data of `height_px` rows from `y_start_px`: Pillow luma, inverted, dithered with
/// Floyd-Steinberg error diffusion, and packed MSB-first with white padding bits.
pub fn pack_python_escpos_raster_bits(
    image: &RenderedReceiptImage,
    size: &RasterImageSize,
    y_start_px: usize,
    height_px: usize,
) -> (r: Result<Vec<u8>, EscPosEncodingError>)
    requires
        image_check(image) == Ok::<RasterImageSize, EscPosEncodingError>(*size),
        y_start_px + height_px <= size.height_px,
    ensures
        match r {
            Ok(data) => data@ == raster_rows(
                image.rgb_pixels@,
                size.width_px as nat,
                size.width_bytes as nat,
                y_start_px as nat,
                height_px as nat,
            ),
            Err(e) => e == EscPosEncodingError::AllocationFailed {
                byte_len: requested_len(size.width_bytes * height_px),
            } || e == EscPosEncodingError::AllocationFailed {
                byte_len: requested_len(size.width_px + 1),
            },
        },
{
    let ghost rgb = image.rgb_pixels@;
    let width = size.width_px;
    let width_bytes = size.width_bytes;
    proof {
        lemma_width_bytes_bound(width as int, size.height_px as int);
        assert(width_bytes * height_px <= width_bytes * size.height_px) by (nonlinear_arith)
            requires
                height_px <= size.height_px,
        ;
    }
    let data_len = match width_bytes.checked_mul(height_px) {
        Some(len) => len,
        None => {
            return Err(EscPosEncodingError::AllocationFailed { byte_len: usize::MAX });
        },
    };
    let mut raster_data: Vec<u8> = Vec::new();
    match raster_data.try_reserve(data_len) {
        Ok(()) => {},
        Err(_) => {
            return Err(EscPosEncodingError::AllocationFailed { byte_len: data_len });
        },
    }
    let error_len = match width.checked_add(1) {
        Some(len) => len,
        None => {
            return Err(EscPosEncodingError::AllocationFailed { byte_len: usize::MAX });
        },
    };
    let mut errors: Vec<i32> = Vec::new();
    match errors.try_reserve(error_len) {
        Ok(()) => {},
        Err(_) => {
            return Err(EscPosEncodingError::AllocationFailed { byte_len: error_len });
        },
    }
    let mut i: usize = 0;
    while i < error_len
        invariant
            i <= error_len,
            errors@.len() == i,
            forall|j: int| 0 <= j < i ==> errors@[j] == 0,
        decreases error_len - i,
    {
        errors.push(0);
        i += 1;
    }
    assert(int_seq(errors@) == Seq::new(width as nat + 1, |i: int| 0int));
    assert(raster_data@ == packed_rows(Seq::<Seq<bool>>::empty(), width_bytes as nat));
    let mut y: usize = 0;
    while y < height_px
        invariant
            y <= height_px,
            y_start_px + height_px <= size.height_px,
            image_check(image) == Ok::<RasterImageSize, EscPosEncodingError>(*size),
            width == size.width_px,
            width_bytes == size.width_bytes,
            rgb == image.rgb_pixels@,
            errors.len() == width + 1,
            errors_bounded(errors@),
            raster_data@ == packed_rows(
                dither_rows(rgb, width as nat, y_start_px as nat, y as nat).0,
                width_bytes as nat,
            ),
            int_seq(errors@) == dither_rows(rgb, width as nat, y_start_px as nat, y as nat).1,
        decreases height_px - y,
    {
        let mut bits: Vec<bool> = Vec::new();
        dither_row_into(image, width, size.height_px, y_start_px + y, &mut errors, &mut bits);
        let ghost done = dither_rows(rgb, width as nat, y_start_px as nat, y as nat).0;
        pack_row_bits(&bits, width_bytes, &mut raster_data);
        assert(done.push(bits@).drop_last() == done);
        y += 1;
    }
    Ok(raster_data)
}

/// The views of a sequence of byte vectors.
pub open spec fn byte_vec_views(v: Seq<Vec<u8>>) -> Seq<Seq<u8>> {
    v.map_values(|x: Vec<u8>| x@)
}

/// A `GS v 0` command: the header, then the raster data.
pub fn gs_v0_raster_bit_image_command_from_data(
    width_bytes_u16: u16,
    height_px_u16: u16,
    raster_data: &[u8],
) -> (r: Result<Vec<u8>, EscPosEncodingError>)
    ensures
        match r {
            Ok(command) => command@ == gs_v0_header(width_bytes_u16, height_px_u16) + raster_data@,
            Err(e) => e == EscPosEncodingError::AllocationFailed {
                byte_len: requested_len(ESC_POS_RASTER_HEADER_LEN + raster_data@.len()),
            },
        },
{
    let command_len = match ESC_POS_RASTER_HEADER_LEN.checked_add(raster_data.len()) {
        Some(len) => len,
        None => {
            return Err(EscPosEncodingError::AllocationFailed { byte_len: usize::MAX });
        },
    };
    let mut command: Vec<u8> = Vec::new();
    match command.try_reserve(command_len) {
        Ok(()) => {},
        Err(_) => {
            return Err(EscPosEncodingError::AllocationFailed { byte_len: command_len });
        },
    }
    command.push(ESC_POS_GS);
    command.push(0x76u8);
    command.push(0x30u8);
    command.push(ESC_POS_RASTER_MODE_NORMAL);
    command.push((width_bytes_u16 % 256) as u8);
    command.push((width_bytes_u16 / 256) as u8);
    command.push((height_px_u16 % 256) as u8);
    command.push((height_px_u16 / 256) as u8);
    let ghost header = command@;
    assert(header == gs_v0_header(width_bytes_u16, height_px_u16));
    let mut i: usize = 0;
    while i < raster_data.len()
        invariant
            i <= raster_data.len(),
            command@ == header + raster_data@.take(i as int),
        decreases raster_data.len() - i,
    {
        command.push(raster_data[i]);
        assert(raster_data@.take(i as int + 1) == raster_data@.take(i as int).push(raster_data@[i as int]));
        i += 1;
    }
    assert(raster_data@.take(raster_data.len() as int) == raster_data@);
    Ok(command)
}

/// The command for `height_px` rows from `y_start_px`, or the error that decides it.
pub open spec fn rows_command_error(size: RasterImageSize, image_height_px: u32, height_px: nat) -> Option<
    EscPosEncodingError,
> {
    if height_px > u16::MAX {
        Some(
            EscPosEncodingError::RasterDimensionsTooLarge {
                width_bytes: size.width_bytes_u16 as u32,
                height_px: image_height_px,
            },
        )
    } else {
        None
    }
}

/// The `GS v 0` command for `height_px` rows from `y_start_px`.
pub open spec fn rows_command(
    image: &RenderedReceiptImage,
    size: RasterImageSize,
    y_start_px: nat,
    height_px: nat,
) -> Seq<u8> {
    gs_v0_header(size.width_bytes_u16, height_px as u16) + raster_rows(
        image.rgb_pixels@,
        size.width_px as nat,
        size.width_bytes as nat,
        y_start_px,
        height_px,
    )
}

/// The `GS v 0` command for `height_px` rows from `y_start_px`.
pub fn gs_v0_raster_bit_image_command_for_rows(
    image: &RenderedReceiptImage,
    size: &RasterImageSize,
    y_start_px: usize,
    height_px: usize,
) -> (r: Result<Vec<u8>, EscPosEncodingError>)
    requires
        image_check(image) == Ok::<RasterImageSize, EscPosEncodingError>(*size),
        y_start_px + height_px <= size.height_px,
    ensures
        rows_command_error(*size, image.height_px, height_px as nat) matches Some(e) ==> r == Err::<
            Vec<u8>,
            EscPosEncodingError,
        >(e),
        r matches Ok(command) ==> rows_command_error(*size, image.height_px, height_px as nat) is None
            && command@ == rows_command(image, *size, y_start_px as nat, height_px as nat),
        r matches Err(e) ==> rows_command_error(*size, image.height_px, height_px as nat) == Some(e)
            || rows_allocation_failure(*size, height_px as nat, e),
{
    if height_px > u16::MAX as usize {
        return Err(
            EscPosEncodingError::RasterDimensionsTooLarge {
                width_bytes: size.width_bytes_u16 as u32,
                height_px: image.height_px,
            },
        );
    }
    let height_px_u16 = height_px as u16;
    let raster_data = pack_python_escpos_raster_bits(image, size, y_start_px, height_px)?;
    proof {
        lemma_raster_rows_len(
            image.rgb_pixels@,
            size.width_px as nat,
            size.width_bytes as nat,
            y_start_px as nat,
            height_px as nat,
        );
    }
    gs_v0_raster_bit_image_command_from_data(
        size.width_bytes_u16,
        height_px_u16,
        raster_data.as_slice(),
    )
}

/// The error that decides the single-command encoding of `image`, if any.
pub open spec fn raster_command_error(image: &RenderedReceiptImage) -> Option<EscPosEncodingError> {
    match image_check(image) {
        Err(e) => Some(e),
        Ok(size) => rows_command_error(size, image.height_px, size.height_px as nat),
    }
}

/// The whole image as one `GS v 0` command.
pub fn gs_v0_raster_bit_image_command(image: &RenderedReceiptImage) -> (r: Result<
    Vec<u8>,
    EscPosEncodingError,
>)
    ensures
        raster_command_error(image) matches Some(e) ==> r == Err::<Vec<u8>, EscPosEncodingError>(e),
        r matches Ok(command) ==> raster_command_error(image) is None && image_check(
            image,
        ) is Ok && command@ == rows_command(
            image,
            image_check(image)->Ok_0,
            0,
            image.height_px as nat,
        ),
        r matches Err(e) ==> raster_command_error(image) == Some(e) || rows_allocation_failure(
            image_check(image)->Ok_0,
            image.height_px as nat,
            e,
        ),
{
    let size = validate_raster_image(image)?;
    if size.height_px > u16::MAX as usize {
        return Err(
            EscPosEncodingError::RasterDimensionsTooLarge {
                width_bytes: size.width_bytes_u16 as u32,
                height_px: image.height_px,
            },
        );
    }
    gs_v0_raster_bit_image_command_for_rows(image, &size, 0, size.height_px)
}

/// The commands for the fragments from row `y`: each fragment holds at most `max_height` rows,
/// dithered on its own.
pub open spec fn fragment_commands_from(
    image: &RenderedReceiptImage,
    size: RasterImageSize,
    max_height: nat,
    y: nat,
) -> Seq<Seq<u8>>
    decreases size.height_px - y,
{
    if max_height == 0 || y >= size.height_px {
        Seq::empty()
    } else {
        let height = if size.height_px - y < max_height {
            (size.height_px - y) as nat
        } else {
            max_height
        };
        seq![rows_command(image, size, y, height)] + fragment_commands_from(
            image,
            size,
            max_height,
            y + height,
        )
    }
}

/// The rows in fragment `i` of an image `h` rows high cut every `max` rows: `max`, except for a
/// last, shorter fragment.
pub open spec fn fragment_height(h: nat, max: nat, i: nat) -> nat {
    if h - i * max < max {
        (h - i * max) as nat
    } else {
        max
    }
}

proof fn lemma_fragments_from(image: &RenderedReceiptImage, size: RasterImageSize, max: nat, j: nat)
    requires
        max > 0,
        j * max <= size.height_px,
    ensures
        fragment_commands_from(image, size, max, j * max).len() == (size.height_px - j * max + max
            - 1) / max as int,
        forall|i: int|
            0 <= i < fragment_commands_from(image, size, max, j * max).len() ==> #[trigger] fragment_commands_from(
                image,
                size,
                max,
                j * max,
            )[i] == rows_command(
                image,
                size,
                ((j + i) * max) as nat,
                fragment_height(size.height_px as nat, max, (j + i) as nat),
            ),
    decreases size.height_px - j * max,
{
    let h = size.height_px as int;
    let m = max as int;
    let y = j * max;
    if y >= h {
        assert((h - y + m - 1) / m == 0) by (nonlinear_arith)
            requires
                y == h,
                m > 0,
        ;
    } else {
        let height = if h - y < m {
            (h - y) as nat
        } else {
            max
        };
        let rest = fragment_commands_from(image, size, max, (y + height) as nat);
        let all = fragment_commands_from(image, size, max, y);
        assert(all == seq![rows_command(image, size, y, height)] + rest);
        assert(fragment_height(h as nat, max, j) == height);
        if h - y < m {
            assert(rest.len() == 0);
            assert((h - y + m - 1) / m == 1) by (nonlinear_arith)
                requires
                    0 < h - y < m,
            ;
        } else {
            assert((j + 1) * max == y + m) by (nonlinear_arith)
                requires
                    y == j * max,
                    m == max,
            ;
            lemma_fragments_from(image, size, max, j + 1);
            assert((h - y + m - 1) / m == 1 + (h - (y + m) + m - 1) / m) by (nonlinear_arith)
                requires
                    h - y >= m,
                    m > 0,
            ;
            assert forall|i: int| 0 <= i < all.len() implies #[trigger] all[i] == rows_command(
                image,
                size,
                ((j + i) * max) as nat,
                fragment_height(h as nat, max, (j + i) as nat),
            ) by {
                if i > 0 {
                    assert(all[i] == rest[i - 1]);
                    assert((j + 1 + (i - 1)) == j + i);
                }
            }
        }
    }
}

/// An image `h` rows high goes out in `⌈h / max⌉` fragments; fragment `i` holds the rows from
/// `i * max`, `max` of them, except for a last fragment that holds the rest. An image of at most
/// `max` rows goes out as the single command for all its rows.
pub proof fn lemma_fragment_layout(image: &RenderedReceiptImage, size: RasterImageSize, max: nat)
    requires
        max > 0,
    ensures
        fragment_commands_from(image, size, max, 0).len() == (size.height_px + max - 1) / max as int,
        forall|i: int|
            0 <= i < fragment_commands_from(image, size, max, 0).len() ==> #[trigger] fragment_commands_from(
                image,
                size,
                max,
                0,
            )[i] == rows_command(
                image,
                size,
                (i * max) as nat,
                fragment_height(size.height_px as nat, max, i as nat),
            ),
        forall|i: int|
            0 <= i < fragment_commands_from(image, size, max, 0).len() ==> 0 < #[trigger] fragment_height(
                size.height_px as nat,
                max,
                i as nat,
            ) <= max,
        0 < size.height_px <= max ==> fragment_commands_from(image, size, max, 0) == seq![
            rows_command(image, size, 0, size.height_px as nat),
        ],
{
    lemma_fragments_from(image, size, max, 0);
    let n = fragment_commands_from(image, size, max, 0).len();
    let h = size.height_px as int;
    let m = max as int;
    assert forall|i: int| 0 <= i < n implies 0 < #[trigger] fragment_height(h as nat, max, i as nat)
        <= max by {
        assert(i * m < h) by (nonlinear_arith)
            requires
                0 <= i < (h + m - 1) / m,
                m > 0,
                h >= 0,
        ;
    }
    if 0 < h <= m {
        assert((h + m - 1) / m == 1) by (nonlinear_arith)
            requires
                0 < h <= m,
        ;
        assert(fragment_height(h as nat, max, 0) == h);
        assert(fragment_commands_from(image, size, max, 0) =~= seq![
            rows_command(image, size, 0, size.height_px as nat),
        ]);
    }
}

/// The error that decides the fragmented encoding of `image`, if any.
pub open spec fn fragment_commands_error(image: &RenderedReceiptImage, max_height: u16) -> Option<
    EscPosEncodingError,
> {
    match image_check(image) {
        Err(e) => Some(e),
        Ok(size) => if max_height == 0 {
            Some(EscPosEncodingError::InvalidImageDimensions { width_px: image.width_px, height_px: 0 })
        } else {
            None
        },
    }
}

/// Whether `e` is the failure of one of the allocations that encoding `image` in fragments of at
/// most `max` rows requests: the list of commands, one per fragment, or the buffers of one
/// fragment's command.
pub open spec fn fragments_allocation_failure(image: &RenderedReceiptImage, max: nat, e: EscPosEncodingError) -> bool {
    image_check(image) matches Ok(size) && ({
        ||| e == EscPosEncodingError::AllocationFailed {
            byte_len: requested_len(
                size.height_px as int / max as int + if size.height_px as int % max as int != 0 {
                    1int
                } else {
                    0int
                },
            ),
        }
        ||| exists|height_px: nat|
            0 < height_px <= max && height_px <= size.height_px && rows_allocation_failure(
                size,
                height_px,
                e,
            )
    })
}

/// The image as `GS v 0` commands of at most `max_fragment_height_px` rows each.
pub fn gs_v0_raster_bit_image_fragment_commands(
    image: &RenderedReceiptImage,
    max_fragment_height_px: u16,
) -> (r: Result<Vec<Vec<u8>>, EscPosEncodingError>)
    ensures
        fragment_commands_error(image, max_fragment_height_px) matches Some(e) ==> r == Err::<
            Vec<Vec<u8>>,
            EscPosEncodingError,
        >(e),
        r matches Ok(commands) ==> fragment_commands_error(image, max_fragment_height_px) is None
            && image_check(image) is Ok && byte_vec_views(commands@) == fragment_commands_from(
            image,
            image_check(image)->Ok_0,
            max_fragment_height_px as nat,
            0,
        ),
        r matches Err(e) ==> fragment_commands_error(image, max_fragment_height_px) == Some(e)
            || fragments_allocation_failure(image, max_fragment_height_px as nat, e),
{
    let size = validate_raster_image(image)?;
    let fragment_height = max_fragment_height_px as usize;
    if fragment_height == 0 {
        return Err(
            EscPosEncodingError::InvalidImageDimensions { width_px: image.width_px, height_px: 0 },
        );
    }
    proof {
        let h = size.height_px as int;
        let f = fragment_height as int;
        assert(h % f != 0 ==> h / f + 1 <= h) by (nonlinear_arith)
            requires
                f > 0,
                h >= 0,
        ;
        assert(h / f <= h) by (nonlinear_arith)
            requires
                f > 0,
                h >= 0,
        ;
    }
    let command_count = size.height_px / fragment_height + if size.height_px % fragment_height
        != 0 {
        1usize
    } else {
        0usize
    };
    let mut commands: Vec<Vec<u8>> = Vec::new();
    match commands.try_reserve(command_count) {
        Ok(()) => {},
        Err(_) => {
            return Err(EscPosEncodingError::AllocationFailed { byte_len: command_count });
        },
    }
    let ghost all = fragment_commands_from(image, size, fragment_height as nat, 0);
    let mut y_start_px: usize = 0;
    while y_start_px < size.height_px
        invariant
            y_start_px <= size.height_px,
            fragment_height == max_fragment_height_px as usize,
            fragment_height > 0,
            image_check(image) == Ok::<RasterImageSize, EscPosEncodingError>(size),
            all == fragment_commands_from(image, size, fragment_height as nat, 0),
            byte_vec_views(commands@) + fragment_commands_from(
                image,
                size,
                fragment_height as nat,
                y_start_px as nat,
            ) == all,
        decreases size.height_px - y_start_px,
    {
        let fragment_height_px = if size.height_px - y_start_px < fragment_height {
            size.height_px - y_start_px
        } else {
            fragment_height
        };
        let command = match gs_v0_raster_bit_image_command_for_rows(
            image,
            &size,
            y_start_px,
            fragment_height_px,
        ) {
            Ok(command) => command,
            Err(e) => {
                assert(rows_allocation_failure(size, fragment_height_px as nat, e));
                assert(fragments_allocation_failure(image, fragment_height as nat, e));
                return Err(e);
            },
        };
        let ghost rest = fragment_commands_from(
            image,
            size,
            fragment_height as nat,
            (y_start_px + fragment_height_px) as nat,
        );
        let ghost before = byte_vec_views(commands@);
        commands.push(command);
        assert(byte_vec_views(commands@) == before.push(command@));
        assert(before + fragment_commands_from(image, size, fragment_height as nat, y_start_px as nat)
            == before.push(command@) + rest);
        y_start_px += fragment_height_px;
    }
    assert(byte_vec_views(commands@) == all);
    Ok(commands)
}

/// The image as `GS v 0` commands of at most 960 rows each, as `python-escpos` sends images.
pub fn gs_v0_raster_bit_image_commands(image: &RenderedReceiptImage) -> (r: Result<
    Vec<Vec<u8>>,
    EscPosEncodingError,
>)
    ensures
        fragment_commands_error(image, ESC_POS_DEFAULT_IMAGE_FRAGMENT_HEIGHT_PX) matches Some(e)
            ==> r == Err::<Vec<Vec<u8>>, EscPosEncodingError>(e),
        r matches Ok(commands) ==> fragment_commands_error(
            image,
            ESC_POS_DEFAULT_IMAGE_FRAGMENT_HEIGHT_PX,
        ) is None && image_check(image) is Ok && byte_vec_views(commands@)
            == fragment_commands_from(
            image,
            image_check(image)->Ok_0,
            ESC_POS_DEFAULT_IMAGE_FRAGMENT_HEIGHT_PX as nat,
            0,
        ),
        r matches Err(e) ==> fragment_commands_error(image, ESC_POS_DEFAULT_IMAGE_FRAGMENT_HEIGHT_PX)
            == Some(e) || fragments_allocation_failure(
            image,
            ESC_POS_DEFAULT_IMAGE_FRAGMENT_HEIGHT_PX as nat,
            e,
        ),
{
    gs_v0_raster_bit_image_fragment_commands(image, ESC_POS_DEFAULT_IMAGE_FRAGMENT_HEIGHT_PX)
}

/// `ESC d n`: print and feed `lines` lines.
pub fn esc_d_feed_command(lines: u8) -> (r: [u8; 3])
    ensures
        r@ == seq![ESC_POS_ESC, ESC_POS_PRINT_AND_FEED_COMMAND, lines],
{
    [ESC_POS_ESC, ESC_POS_PRINT_AND_FEED_COMMAND, lines]
}

/// `GS V 0`: full cut.
pub fn gs_v_cut_command() -> (r: [u8; 3])
    ensures
        r@ == seq![ESC_POS_GS, ESC_POS_CUT_COMMAND, 0u8],
{
    [ESC_POS_GS, ESC_POS_CUT_COMMAND, 0x00]
}

} // verus!
