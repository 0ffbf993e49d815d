//! The receipt image's geometry and the rules around GDI text rendering: font style from the
//! face name, face matching, image size limits, and the BGRA-to-RGB conversion of the bitmap.
use vstd::prelude::*;

use crate::domain::{
    domain_error_text, DomainError, DomainErrorView, RenderedReceiptImage,
    TextImageLayout,
};
use crate::text::{
    chars_of, contains_str, contains_text, decimal_digits, decimal_string, trim, trim_chars,
};
use crate::wrap::TextWrapError;

use windows_sys::Win32::Graphics::Gdi::{
    FW_BLACK, FW_BOLD, FW_DEMIBOLD, FW_LIGHT, FW_NORMAL, FW_SEMIBOLD,
};

verus! {

pub const BYTES_PER_BGRA_PIXEL: usize = 4;

pub const WHITE_COLORREF: u32 = 0x00FF_FFFF;

pub const BLACK_COLORREF: u32 = 0x0000_0000;

/// `windows_sys::Win32::Graphics::Gdi::FW_BLACK`, the GDI weight of black (heavy) faces, which `windows-sys`
/// defines as 900.
#[verifier::external_body]
fn weight_black() -> (r: i32)
    ensures
        r == 900,
{
    FW_BLACK as i32
}

/// `windows_sys::Win32::Graphics::Gdi::FW_SEMIBOLD`, the GDI weight of semibold faces, which `windows-sys`
/// defines as 600.
#[verifier::external_body]
fn weight_semibold() -> (r: i32)
    ensures
        r == 600,
{
    FW_SEMIBOLD as i32
}

/// `windows_sys::Win32::Graphics::Gdi::FW_DEMIBOLD`, the GDI weight of demibold faces, which `windows-sys`
/// defines as 600.
#[verifier::external_body]
fn weight_demibold() -> (r: i32)
    ensures
        r == 600,
{
    FW_DEMIBOLD as i32
}

/// `windows_sys::Win32::Graphics::Gdi::FW_BOLD`, the GDI weight of bold faces, which `windows-sys`
/// defines as 700.
#[verifier::external_body]
fn weight_bold() -> (r: i32)
    ensures
        r == 700,
{
    FW_BOLD as i32
}

/// `windows_sys::Win32::Graphics::Gdi::FW_LIGHT`, the GDI weight of light faces, which `windows-sys`
/// defines as 300.
#[verifier::external_body]
fn weight_light() -> (r: i32)
    ensures
        r == 300,
{
    FW_LIGHT as i32
}

/// `windows_sys::Win32::Graphics::Gdi::FW_NORMAL`, the GDI weight of normal faces, which `windows-sys`
/// defines as 400.
#[verifier::external_body]
fn weight_normal() -> (r: i32)
    ensures
        r == 400,
{
    FW_NORMAL as i32
}

/// Why GDI rendering failed.
#[derive(Debug, Clone, PartialEq, Eq)]
pub enum GdiRenderError {
    Layout(DomainError),
    FontFaceUnavailable { requested_face: String, selected_face: Option<String> },
    InvalidWin32Dimension { name: &'static str, value: u32 },
    ImageTooLarge { width_px: u32, height_px: u32 },
    TextTooLongForWin32 { utf16_units: usize },
    Win32CallFailed { function: &'static str },
}

/// A `GdiRenderError` with its texts as character sequences.
pub enum GdiRenderErrorView {
    Layout(DomainErrorView),
    FontFaceUnavailable { requested_face: Seq<char>, selected_face: Option<Seq<char>> },
    InvalidWin32Dimension { name: Seq<char>, value: u32 },
    ImageTooLarge { width_px: u32, height_px: u32 },
    TextTooLongForWin32 { utf16_units: usize },
    Win32CallFailed { function: Seq<char> },
}

impl View for GdiRenderError {
    type V = GdiRenderErrorView;

    open spec fn view(&self) -> GdiRenderErrorView {
        match self {
            GdiRenderError::Layout(e) => GdiRenderErrorView::Layout(e@),
            GdiRenderError::FontFaceUnavailable { requested_face, selected_face } =>
                GdiRenderErrorView::FontFaceUnavailable {
                    requested_face: requested_face@,
                    selected_face: match selected_face {
                        Some(face) => Some(face@),
                        None => None,
                    },
                },
            GdiRenderError::InvalidWin32Dimension { name, value } =>
                GdiRenderErrorView::InvalidWin32Dimension { name: name@, value: *value },
            GdiRenderError::ImageTooLarge { width_px, height_px } =>
                GdiRenderErrorView::ImageTooLarge { width_px: *width_px, height_px: *height_px },
            GdiRenderError::TextTooLongForWin32 { utf16_units } =>
                GdiRenderErrorView::TextTooLongForWin32 { utf16_units: *utf16_units },
            GdiRenderError::Win32CallFailed { function } => GdiRenderErrorView::Win32CallFailed {
                function: function@,
            },
        }
    }
}

/// The text a `GdiRenderError` is shown with.
pub open spec fn gdi_error_text(e: GdiRenderErrorView) -> Seq<char> {
    match e {
        GdiRenderErrorView::Layout(d) => domain_error_text(d),
        GdiRenderErrorView::FontFaceUnavailable { requested_face, selected_face } =>
            "failed to select installed font face: requested="@ + requested_face + ", selected="@
                + match selected_face {
                Some(face) => face,
                None => "none"@,
            },
        GdiRenderErrorView::InvalidWin32Dimension { name, value } => name + " value "@
            + decimal_digits(value as nat) + "px is too large for Win32 GDI"@,
        GdiRenderErrorView::ImageTooLarge { width_px, height_px } =>
            "rendered image is too large: "@ + decimal_digits(width_px as nat) + "x"@
                + decimal_digits(height_px as nat) + "px"@,
        GdiRenderErrorView::TextTooLongForWin32 { utf16_units } =>
            "text is too long for Win32 GDI call: "@ + decimal_digits(utf16_units as nat)
                + " UTF-16 units"@,
        GdiRenderErrorView::Win32CallFailed { function } => function + " failed"@,
    }
}

impl GdiRenderError {
    /// The text this error is shown with.
    pub fn message(&self) -> (r: String)
        ensures
            r@ == gdi_error_text(self@),
    {
        match self {
            GdiRenderError::Layout(e) => e.message(),
            GdiRenderError::FontFaceUnavailable { requested_face, selected_face } => {
                let mut r = "failed to select installed font face: requested=".to_owned();
                r.append(requested_face.as_str());
                r.append(", selected=");
                match selected_face {
                    Some(face) => r.append(face.as_str()),
                    None => r.append("none"),
                }
                r
            },
            GdiRenderError::InvalidWin32Dimension { name, value } => {
                let mut r = (*name).to_owned();
                r.append(" value ");
                r.append(decimal_string(*value as u64).as_str());
                r.append("px is too large for Win32 GDI");
                r
            },
            GdiRenderError::ImageTooLarge { width_px, height_px } => {
                let mut r = "rendered image is too large: ".to_owned();
                r.append(decimal_string(*width_px as u64).as_str());
                r.append("x");
                r.append(decimal_string(*height_px as u64).as_str());
                r.append("px");
                r
            },
            GdiRenderError::TextTooLongForWin32 { utf16_units } => {
                let mut r = "text is too long for Win32 GDI call: ".to_owned();
                r.append(decimal_string(*utf16_units as u64).as_str());
                r.append(" UTF-16 units");
                r
            },
            GdiRenderError::Win32CallFailed { function } => {
                let mut r = (*function).to_owned();
                r.append(" failed");
                r
            },
        }
    }
}

impl From<DomainError> for GdiRenderError {
    fn from(error: DomainError) -> (r: Self) {
        GdiRenderError::Layout(error)
    }
}

impl vstd::std_specs::convert::FromSpecImpl<DomainError> for GdiRenderError {
    open spec fn obeys_from_spec() -> bool {
        true
    }

    open spec fn from_spec(v: DomainError) -> Self {
        GdiRenderError::Layout(v)
    }
}

impl From<TextWrapError<GdiRenderError>> for GdiRenderError {
    fn from(error: TextWrapError<GdiRenderError>) -> (r: Self) {
        match error {
            TextWrapError::Layout(e) => GdiRenderError::Layout(e),
            TextWrapError::Measure(e) => e,
        }
    }
}

impl vstd::std_specs::convert::FromSpecImpl<TextWrapError<GdiRenderError>> for GdiRenderError {
    open spec fn obeys_from_spec() -> bool {
        true
    }

    open spec fn from_spec(v: TextWrapError<GdiRenderError>) -> Self {
        match v {
            TextWrapError::Layout(e) => GdiRenderError::Layout(e),
            TextWrapError::Measure(e) => e,
        }
    }
}

/// What `str::to_lowercase` gives for `s` (Unicode lower-case mapping).
pub uninterp spec fn unicode_lowercase(s: Seq<char>) -> Seq<char>;

/// `str::to_lowercase`: the Unicode lower-case form of `s`, named by `unicode_lowercase`.
#[verifier::external_body]
fn lowercase_text(s: &str) -> (r: String)
    ensures
        r@ == unicode_lowercase(s@),
{
    s.to_lowercase()
}

/// The UTF-16 code units of `c`: one unit below `0x10000`, else a surrogate pair.
pub open spec fn utf16_of_char(c: char) -> Seq<u16> {
    let v = c as u32;
    if v < 0x10000 {
        seq![v as u16]
    } else {
        let u = (v - 0x10000) as int;
        seq![(0xD800 + u / 0x400) as u16, (0xDC00 + u % 0x400) as u16]
    }
}

/// The UTF-16 code units of `s`, character by character.
pub open spec fn utf16_of(s: Seq<char>) -> Seq<u16>
    decreases s.len(),
{
    if s.len() == 0 {
        Seq::empty()
    } else {
        utf16_of(s.drop_last()) + utf16_of_char(s.last())
    }
}

/// The UTF-16 code units of `text`, as `str::encode_utf16` gives them.
fn utf16_units(text: &str) -> (r: Vec<u16>)
    ensures
        r@ == utf16_of(text@),
{
    let chars = chars_of(text);
    let mut units: Vec<u16> = Vec::new();
    let mut i: usize = 0;
    assert(chars@.take(0) =~= Seq::<char>::empty());
    while i < chars.len()
        invariant
            i <= chars.len(),
            chars@ == text@,
            units@ == utf16_of(chars@.take(i as int)),
        decreases chars.len() - i,
    {
        let c = chars[i];
        let v = c as u32;
        assert(chars@.take(i as int + 1).drop_last() =~= chars@.take(i as int));
        if v < 0x10000 {
            units.push(v as u16);
        } else {
            let u = v - 0x10000;
            units.push((0xD800 + u / 0x400) as u16);
            units.push((0xDC00 + u % 0x400) as u16);
        }
        assert(units@ == utf16_of(chars@.take(i as int + 1)));
        i += 1;
    }
    assert(chars@.take(chars.len() as int) =~= chars@);
    units
}

/// `text` as UTF-16 for a Win32 call, with its length in code units as the `i32` those calls
/// take; too long a text is refused.
pub fn encode_utf16_for_win32(text: &str) -> (r: Result<(Vec<u16>, i32), GdiRenderError>)
    ensures
        match r {
            Ok((units, len)) => units@ == utf16_of(text@) && len == units@.len(),
            Err(e) => utf16_of(text@).len() > i32::MAX && e == GdiRenderError::TextTooLongForWin32 {
                utf16_units: utf16_of(text@).len() as usize,
            },
        },
{
    let units = utf16_units(text);
    if units.len() <= i32::MAX as usize {
        let len = units.len() as i32;
        Ok((units, len))
    } else {
        let count = units.len();
        Err(GdiRenderError::TextTooLongForWin32 { utf16_units: count })
    }
}

/// `text` as UTF-16 with a terminating zero, as Win32 takes strings.
pub fn wide_null_from_str(text: &str) -> (r: Vec<u16>)
    ensures
        r@ == utf16_of(text@).push(0),
{
    let mut units = utf16_units(text);
    units.push(0);
    units
}

/// The weight and slant a font is requested with.
#[derive(Debug, Clone, Copy, PartialEq, Eq, Structural)]
pub struct FontStyle {
    pub weight: i32,
    pub italic: bool,
}

/// The style a lower-case face name `text` names: weight words are searched for, strongest
/// first, and `italic` or `oblique`.
pub open spec fn style_of_lowercase_name(text: Seq<char>) -> FontStyle {
    let weight = if contains_text(text, "black"@) || contains_text(text, "heavy"@) {
        900
    } else if contains_text(text, "semibold"@) {
        600
    } else if contains_text(text, "demibold"@) {
        600
    } else if contains_text(text, "bold"@) {
        700
    } else if contains_text(text, "light"@) {
        300
    } else {
        400
    };
    FontStyle {
        weight,
        italic: contains_text(text, "italic"@) || contains_text(text, "oblique"@),
    }
}

/// The style named in a face name: that of its lower-case form.
pub open spec fn style_of_name(name: Seq<char>) -> FontStyle {
    style_of_lowercase_name(unicode_lowercase(name))
}

impl FontStyle {
    /// The style a face name asks for.
    pub fn from_name(requested_name: &str) -> (r: Self)
        ensures
            r == style_of_name(requested_name@),
    {
        let lowered = lowercase_text(requested_name);
        FontStyle::from_lowercase_name(lowered.as_str())
    }

    /// The style a face name already in lower case asks for.
    pub fn from_lowercase_name(lowered: &str) -> (r: Self)
        ensures
            r == style_of_lowercase_name(lowered@),
    {
        let text = chars_of(lowered);
        let weight = if contains_str(&text, "black") || contains_str(&text, "heavy") {
            weight_black()
        } else if contains_str(&text, "semibold") {
            weight_semibold()
        } else if contains_str(&text, "demibold") {
            weight_demibold()
        } else if contains_str(&text, "bold") {
            weight_bold()
        } else if contains_str(&text, "light") {
            weight_light()
        } else {
            weight_normal()
        };
        FontStyle {
            weight,
            italic: contains_str(&text, "italic") || contains_str(&text, "oblique"),
        }
    }
}

/// A face name as compared: trimmed, then in lower case.
pub open spec fn normalized_font_name(name: Seq<char>) -> Seq<char> {
    unicode_lowercase(trim(name))
}

/// `name` trimmed and in lower case.
pub fn normalize_font_name(name: &str) -> (r: String)
    ensures
        r@ == normalized_font_name(name@),
{
    let chars = chars_of(name);
    let trimmed = trim_chars(&chars);
    let text = crate::text::string_from_chars(trimmed.as_slice());
    lowercase_text(text.as_str())
}

/// Whether the face GDI selected is the one requested, ignoring case and surrounding white
/// space.
pub fn font_face_matches(selected_face: &str, requested_face: &str) -> (r: bool)
    ensures
        r == (normalized_font_name(selected_face@) == normalized_font_name(requested_face@)),
{
    let a = normalize_font_name(selected_face);
    let b = normalize_font_name(requested_face);
    crate::text::str_equal(a.as_str(), b.as_str())
}

/// Accepts the face GDI selected when it is the requested one; otherwise the error names both.
pub fn selected_face_check(requested_face: &str, selected_face: String) -> (r: Result<
    (),
    GdiRenderError,
>)
    ensures
        normalized_font_name(selected_face@) == normalized_font_name(requested_face@) ==> r is Ok,
        normalized_font_name(selected_face@) != normalized_font_name(requested_face@) ==> (r matches Err(e)
            && e@ == (GdiRenderErrorView::FontFaceUnavailable {
            requested_face: requested_face@,
            selected_face: Some(selected_face@),
        })),
{
    if font_face_matches(selected_face.as_str(), requested_face) {
        Ok(())
    } else {
        Err(
            GdiRenderError::FontFaceUnavailable {
                requested_face: requested_face.to_owned(),
                selected_face: Some(selected_face),
            },
        )
    }
}

/// `value` as a GDI coordinate, or the error naming it.
pub fn dimension_to_i32(name: &'static str, value: u32) -> (r: Result<i32, GdiRenderError>)
    ensures
        value <= i32::MAX ==> r == Ok::<i32, GdiRenderError>(value as i32),
        value > i32::MAX ==> (r matches Err(e) && e@ == (GdiRenderErrorView::InvalidWin32Dimension {
            name: name@,
            value,
        })),
{
    if value <= i32::MAX as u32 {
        Ok(value as i32)
    } else {
        Err(GdiRenderError::InvalidWin32Dimension { name, value })
    }
}

/// The number of pixels of a `width_px` by `height_px` image, when it fits in `usize`.
pub fn checked_pixel_count(width_px: u32, height_px: u32) -> (r: Option<usize>)
    ensures
        width_px * height_px <= usize::MAX ==> r == Some((width_px * height_px) as usize),
        width_px * height_px > usize::MAX ==> r is None,
{
    (width_px as usize).checked_mul(height_px as usize)
}

/// The height of one line: the font size plus a fifth of it as spacing.
pub open spec fn line_height(font_size_px: u32) -> int {
    font_size_px + font_size_px / 5
}

/// The rows of lines an image holds: one at least.
pub open spec fn line_rows(line_count: nat) -> nat {
    if line_count == 0 {
        1
    } else {
        line_count
    }
}

/// The height of an image of `line_count` lines: the lines, with a margin above and below.
pub open spec fn receipt_height(layout: &TextImageLayout, line_count: nat) -> int {
    line_height(layout.font_size_px) * line_rows(line_count) + 2 * layout.margin_px
}

/// The error that stops an image of `line_count` lines before anything is drawn, if any: its
/// height must fit in `u32`, both sides must be GDI coordinates, and its 32-bit pixels must fit
/// in a `u32` byte count.
pub open spec fn receipt_plan_error(layout: &TextImageLayout, line_count: nat) -> Option<
    GdiRenderErrorView,
> {
    let w = layout.paper_width_px;
    let lh = line_height(layout.font_size_px);
    if lh > u32::MAX || line_count > u32::MAX || lh * line_rows(line_count) > u32::MAX || 2
        * layout.margin_px > u32::MAX || receipt_height(layout, line_count) > u32::MAX {
        Some(GdiRenderErrorView::ImageTooLarge { width_px: w, height_px: u32::MAX })
    } else {
        let h = receipt_height(layout, line_count);
        if w > i32::MAX {
            Some(GdiRenderErrorView::InvalidWin32Dimension { name: "image width"@, value: w })
        } else if h > i32::MAX {
            Some(
                GdiRenderErrorView::InvalidWin32Dimension { name: "image height"@, value: h as u32 },
            )
        } else if w * h * 4 > u32::MAX {
            Some(GdiRenderErrorView::ImageTooLarge { width_px: w, height_px: h as u32 })
        } else {
            None
        }
    }
}

/// The lines among the first `k` that are drawn, each with its index and top edge: line `i`
/// starts `top + i * line_height_px` down, and empty lines take their row without drawing.
pub open spec fn drawn_lines(lines: Seq<Seq<char>>, top: int, line_height_px: int, k: nat) -> Seq<
    (usize, i32),
>
    decreases k,
{
    if k == 0 {
        Seq::empty()
    } else {
        let before = drawn_lines(lines, top, line_height_px, (k - 1) as nat);
        if lines[k - 1].len() == 0 {
            before
        } else {
            before.push(((k - 1) as usize, (top + (k - 1) * line_height_px) as i32))
        }
    }
}

/// Where a receipt's lines go on its image.
#[derive(Debug, Clone, PartialEq, Eq)]
pub struct ReceiptPlan {
    pub width_px: u32,
    pub height_px: u32,
    pub left_px: i32,
    /// The lines that are drawn, each with its index and top edge.
    pub draws: Vec<(usize, i32)>,
}

/// Whether `plan` places `lines` on a receipt for `layout`: paper-wide, as high as the lines
/// need, every line at the left margin.
pub open spec fn plans_receipt(plan: ReceiptPlan, layout: &TextImageLayout, lines: Seq<Seq<char>>) -> bool {
    &&& plan.width_px == layout.paper_width_px
    &&& plan.height_px == receipt_height(layout, lines.len())
    &&& plan.left_px == layout.margin_px
    &&& plan.draws@ == drawn_lines(
        lines,
        layout.margin_px as int,
        line_height(layout.font_size_px),
        lines.len(),
    )
}

/// The image geometry for wrapped `lines` and where each is drawn, or the size error that stops
/// rendering before any drawing.
pub fn receipt_plan(layout: &TextImageLayout, lines: &Vec<String>) -> (r: Result<
    ReceiptPlan,
    GdiRenderError,
>)
    ensures
        match receipt_plan_error(layout, lines.len() as nat) {
            Some(e) => r matches Err(x) && x@ == e,
            None => r matches Ok(plan) && plans_receipt(plan, layout, crate::wrap::string_views(lines@)),
        },
{
    let width_px = layout.paper_width_px;
    let line_spacing_px = layout.font_size_px / 5;
    let too_large = GdiRenderError::ImageTooLarge { width_px, height_px: u32::MAX };
    let line_height_px = match layout.font_size_px.checked_add(line_spacing_px) {
        Some(v) => v,
        None => {
            return Err(too_large);
        },
    };
    if lines.len() > u32::MAX as usize {
        return Err(too_large);
    }
    let total_lines = lines.len() as u32;
    let rows = if total_lines == 0 {
        1u32
    } else {
        total_lines
    };
    let content_height_px = match line_height_px.checked_mul(rows) {
        Some(v) => v,
        None => {
            return Err(too_large);
        },
    };
    let vertical_margin_px = match layout.margin_px.checked_mul(2) {
        Some(v) => v,
        None => {
            return Err(too_large);
        },
    };
    let height_px = match content_height_px.checked_add(vertical_margin_px) {
        Some(v) => v,
        None => {
            return Err(too_large);
        },
    };
    dimension_to_i32("image width", width_px)?;
    dimension_to_i32("image height", height_px)?;
    let pixel_count = match checked_pixel_count(width_px, height_px) {
        Some(v) => v,
        None => {
            return Err(GdiRenderError::ImageTooLarge { width_px, height_px });
        },
    };
    let byte_len = match pixel_count.checked_mul(BYTES_PER_BGRA_PIXEL) {
        Some(v) => v,
        None => {
            return Err(GdiRenderError::ImageTooLarge { width_px, height_px });
        },
    };
    if byte_len > u32::MAX as usize {
        return Err(GdiRenderError::ImageTooLarge { width_px, height_px });
    }
    let left_px = layout.margin_px as i32;
    proof {
        let lhv = line_height_px as int;
        let nv = lines.len() as int;
        assert(nv * lhv <= lhv * rows) by (nonlinear_arith)
            requires
                nv <= rows,
                lhv >= 0,
        ;
    }
    let ghost views = crate::wrap::string_views(lines@);
    let ghost lh = line_height_px as int;
    let ghost n = lines.len() as int;
    let mut draws: Vec<(usize, i32)> = Vec::new();
    let mut y_px: u32 = layout.margin_px;
    let mut i: usize = 0;
    while i < lines.len()
        invariant
            i <= lines.len() <= u32::MAX,
            views == crate::wrap::string_views(lines@),
            lh == line_height_px,
            n == lines.len(),
            y_px == layout.margin_px + i * lh,
            layout.margin_px + n * lh <= height_px <= i32::MAX,
            draws@ == drawn_lines(views, layout.margin_px as int, lh, i as nat),
        decreases lines.len() - i,
    {
        proof {
            assert((i + 1) * lh <= n * lh) by (nonlinear_arith)
                requires
                    i + 1 <= n,
                    lh >= 0,
            ;
            assert((i + 1) * lh == i * lh + lh) by (nonlinear_arith);
        }
        if !lines[i].as_str().is_empty() {
            draws.push((i, y_px as i32));
        }
        y_px = y_px + line_height_px;
        i = i + 1;
    }
    Ok(ReceiptPlan { width_px, height_px, left_px, draws })
}

/// RGB bytes of the first `n` pixels of a BGRA buffer: each pixel's red, green and blue, in
/// that order; the fourth byte is dropped.
pub open spec fn rgb_from_bgra(bgra: Seq<u8>, n: nat) -> Seq<u8>
    decreases n,
{
    if n == 0 {
        Seq::empty()
    } else {
        let p = 4 * (n - 1);
        rgb_from_bgra(bgra, (n - 1) as nat) + seq![bgra[p + 2], bgra[p + 1], bgra[p]]
    }
}

/// The RGB image of a `width_px` by `height_px` bitmap whose 32-bit BGRA pixels are `bgra`, top
/// row first; the only failure is the allocation of the RGB buffer.
pub fn rgb_image_from_bgra(width_px: u32, height_px: u32, bgra: &[u8]) -> (r: Result<
    RenderedReceiptImage,
    GdiRenderError,
>)
    requires
        bgra@.len() == width_px * height_px * 4,
    ensures
        match r {
            Ok(image) => image.width_px == width_px && image.height_px == height_px
                && image.rgb_pixels@ == rgb_from_bgra(bgra@, (width_px * height_px) as nat),
            Err(e) => e@ == (GdiRenderErrorView::ImageTooLarge { width_px, height_px }),
        },
{
    let too_large = GdiRenderError::ImageTooLarge { width_px, height_px };
    let pixel_count = bgra.len() / BYTES_PER_BGRA_PIXEL;
    assert(pixel_count == width_px * height_px);
    assert(bgra@.len() == bgra.len());
    let rgb_len = pixel_count * 3;
    let mut rgb_pixels: Vec<u8> = Vec::new();
    match rgb_pixels.try_reserve(rgb_len) {
        Ok(()) => {},
        Err(_) => {
            return Err(too_large);
        },
    }
    let mut i: usize = 0;
    while i < pixel_count
        invariant
            i <= pixel_count,
            bgra@.len() == 4 * pixel_count,
            4 * pixel_count <= usize::MAX,
            rgb_pixels@ == rgb_from_bgra(bgra@, i as nat),
        decreases pixel_count - i,
    {
        let p = 4 * i;
        rgb_pixels.push(bgra[p + 2]);
        rgb_pixels.push(bgra[p + 1]);
        rgb_pixels.push(bgra[p]);
        i = i + 1;
    }
    Ok(RenderedReceiptImage { width_px, height_px, rgb_pixels })
}

/// The index of the first NUL among the first `max_len` units of `buffer`, or `max_len` when
/// there is none.
pub fn first_nul_or_len(buffer: &[u16], max_len: usize) -> (r: usize)
    ensures
        r <= max_len,
        forall|i: int| 0 <= i < r && i < buffer@.len() ==> buffer@[i] != 0,
        r < max_len ==> r < buffer@.len() && buffer@[r as int] == 0,
        r == max_len ==> forall|i: int| 0 <= i < max_len && i < buffer@.len() ==> buffer@[i] != 0,
{
    let mut i: usize = 0;
    while i < max_len && i < buffer.len()
        invariant
            i <= max_len,
            forall|j: int| 0 <= j < i && j < buffer@.len() ==> buffer@[j] != 0,
        decreases max_len - i,
    {
        if buffer[i] == 0 {
            return i;
        }
        i = i + 1;
    }
    max_len
}
} // verus!
