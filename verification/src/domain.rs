//! Print settings, their validation rules, and the validated print job.
use vstd::prelude::*;

use crate::host::{is_valid_printer_host, is_valid_printer_host_chars};
use crate::text::{
    chars_of, decimal_digits, decimal_string, is_white_space, joined_with, lemma_joined_no_double,
    lemma_split_joined, parts_without, string_from_chars, trim, trim_chars, trim_end, trim_start,
    trimmed_string,
};

verus! {

pub const DEFAULT_PRINTER_IP: &'static str = "192.168.0.1";

pub const DEFAULT_PRINTER_PORT: u16 = 9100;

pub const DEFAULT_FONT_SIZE_PX: u32 = 42;

pub const DEFAULT_PAPER_WIDTH_PX: u32 = 576;

pub const DEFAULT_FONT_FACE_NAME: &'static str = "Malgun Gothic";

pub const DEFAULT_MARGIN_PX: u32 = 10;

pub const MIN_FONT_SIZE_PX: u32 = 5;

pub const MIN_PAPER_WIDTH_PX: u32 = 100;

/// Visual theme of the desktop window; it never changes the printed output.
#[derive(Debug, Clone, Copy, PartialEq, Eq, Structural)]
pub enum UiTheme {
    Light,
    Dark,
}

impl Default for UiTheme {
    fn default() -> (r: Self)
        ensures
            r == UiTheme::Light,
    {
        UiTheme::Light
    }
}

/// Display language of the desktop window; it never changes the printed output.
#[derive(Debug, Clone, Copy, PartialEq, Eq, Structural)]
pub enum UiLanguage {
    English,
    Korean,
}

impl Default for UiLanguage {
    fn default() -> (r: Self)
        ensures
            r == UiLanguage::English,
    {
        UiLanguage::English
    }
}

/// User-interface preferences kept in the settings file.
#[derive(Debug, Clone, Copy, PartialEq, Eq, Structural)]
pub struct UiSettings {
    pub theme: UiTheme,
    pub language: UiLanguage,
}

impl Default for UiSettings {
    fn default() -> (r: Self)
        ensures
            r.theme == UiTheme::Light,
            r.language == UiLanguage::English,
    {
        UiSettings { theme: UiTheme::Light, language: UiLanguage::English }
    }
}

/// The network endpoint of an ESC/POS printer.
#[derive(Debug, Clone, PartialEq, Eq)]
pub struct NetworkPrinterTarget {
    pub ip: String,
    pub port: u16,
}

/// Font and paper geometry used to render the receipt image.
#[derive(Debug, Clone, PartialEq, Eq)]
pub struct TextImageLayout {
    pub font_size_px: u32,
    pub paper_width_px: u32,
    pub margin_px: u32,
    pub font_face_name: String,
}

/// Printer target and layout together.
#[derive(Debug, Clone, PartialEq, Eq)]
pub struct PrintSettings {
    pub printer: NetworkPrinterTarget,
    pub layout: TextImageLayout,
}

/// Everything the settings file holds.
#[derive(Debug, Clone, PartialEq, Eq)]
pub struct AppSettings {
    pub print: PrintSettings,
    pub ui: UiSettings,
}

/// Validated settings plus non-empty, trimmed print text.
#[derive(Debug, Clone, PartialEq, Eq)]
pub struct PrintJob {
    pub settings: PrintSettings,
    pub text: String,
}

/// An RGB raster image, three bytes per pixel, rows top to bottom.
#[derive(Debug, Clone, PartialEq, Eq)]
pub struct RenderedReceiptImage {
    pub width_px: u32,
    pub height_px: u32,
    pub rgb_pixels: Vec<u8>,
}

/// Why settings or a print job were refused.
#[allow(inconsistent_fields)]
#[derive(Debug, Clone, PartialEq, Eq)]
pub enum DomainError {
    EmptyPrinterHost,
    InvalidPrinterHost { value: String },
    InvalidPrinterPort { value: u16 },
    EmptyFontFaceName,
    FontSizeTooSmall { min_px: u32, actual_px: u32 },
    PaperWidthTooSmall { min_px: u32, actual_px: u32 },
    PrintableWidthTooSmall { paper_width_px: u32, margin_px: u32 },
    EmptyText,
}

/// A `DomainError` with its text as a character sequence.
#[allow(inconsistent_fields)]
pub enum DomainErrorView {
    EmptyPrinterHost,
    InvalidPrinterHost { value: Seq<char> },
    InvalidPrinterPort { value: u16 },
    EmptyFontFaceName,
    FontSizeTooSmall { min_px: u32, actual_px: u32 },
    PaperWidthTooSmall { min_px: u32, actual_px: u32 },
    PrintableWidthTooSmall { paper_width_px: u32, margin_px: u32 },
    EmptyText,
}

impl View for DomainError {
    type V = DomainErrorView;

    open spec fn view(&self) -> DomainErrorView {
        match self {
            DomainError::EmptyPrinterHost => DomainErrorView::EmptyPrinterHost,
            DomainError::InvalidPrinterHost { value } => DomainErrorView::InvalidPrinterHost {
                value: value@,
            },
            DomainError::InvalidPrinterPort { value } => DomainErrorView::InvalidPrinterPort {
                value: *value,
            },
            DomainError::EmptyFontFaceName => DomainErrorView::EmptyFontFaceName,
            DomainError::FontSizeTooSmall { min_px, actual_px } =>
                DomainErrorView::FontSizeTooSmall { min_px: *min_px, actual_px: *actual_px },
            DomainError::PaperWidthTooSmall { min_px, actual_px } =>
                DomainErrorView::PaperWidthTooSmall { min_px: *min_px, actual_px: *actual_px },
            DomainError::PrintableWidthTooSmall { paper_width_px, margin_px } =>
                DomainErrorView::PrintableWidthTooSmall {
                    paper_width_px: *paper_width_px,
                    margin_px: *margin_px,
                },
            DomainError::EmptyText => DomainErrorView::EmptyText,
        }
    }
}

/// A validation outcome with the error taken by its view.
pub open spec fn check_view(r: Result<(), DomainError>) -> Result<(), DomainErrorView> {
    match r {
        Ok(()) => Ok(()),
        Err(e) => Err(e@),
    }
}

/// The rule for a printer target: a non-empty trimmed host that is an IP literal or a DNS-style
/// name, and a non-zero port.
pub open spec fn printer_target_check(ip: Seq<char>, port: u16) -> Result<(), DomainErrorView> {
    let host = trim(ip);
    if host.len() == 0 {
        Err(DomainErrorView::EmptyPrinterHost)
    } else if !is_valid_printer_host(host) {
        Err(DomainErrorView::InvalidPrinterHost { value: host })
    } else if port == 0 {
        Err(DomainErrorView::InvalidPrinterPort { value: port })
    } else {
        Ok(())
    }
}

/// Paper width minus both horizontal margins, when that is representable.
pub open spec fn printable_width(paper_width_px: u32, margin_px: u32) -> Option<u32> {
    if margin_px * 2 > u32::MAX || paper_width_px < margin_px * 2 {
        None
    } else {
        Some((paper_width_px - margin_px * 2) as u32)
    }
}

/// The rule for a layout: minimum font size and paper width, a positive printable width, and a
/// non-empty trimmed font face name, checked in that order.
pub open spec fn layout_check(
    font_size_px: u32,
    paper_width_px: u32,
    margin_px: u32,
    font_face_name: Seq<char>,
) -> Result<(), DomainErrorView> {
    if font_size_px < MIN_FONT_SIZE_PX {
        Err(DomainErrorView::FontSizeTooSmall { min_px: MIN_FONT_SIZE_PX, actual_px: font_size_px })
    } else if paper_width_px < MIN_PAPER_WIDTH_PX {
        Err(
            DomainErrorView::PaperWidthTooSmall {
                min_px: MIN_PAPER_WIDTH_PX,
                actual_px: paper_width_px,
            },
        )
    } else if !(printable_width(paper_width_px, margin_px) matches Some(w) && w > 0) {
        Err(DomainErrorView::PrintableWidthTooSmall { paper_width_px, margin_px })
    } else if trim(font_face_name).len() == 0 {
        Err(DomainErrorView::EmptyFontFaceName)
    } else {
        Ok(())
    }
}

impl TextImageLayout {
    /// The rule for this layout.
    pub open spec fn spec_check(&self) -> Result<(), DomainErrorView> {
        layout_check(self.font_size_px, self.paper_width_px, self.margin_px, self.font_face_name@)
    }
}

impl NetworkPrinterTarget {
    /// The rule for this target.
    pub open spec fn spec_check(&self) -> Result<(), DomainErrorView> {
        printer_target_check(self.ip@, self.port)
    }
}

/// The rule for print settings: the printer target first, then the layout.
pub open spec fn print_settings_check(settings: PrintSettings) -> Result<(), DomainErrorView> {
    match settings.printer.spec_check() {
        Err(e) => Err(e),
        Ok(()) => settings.layout.spec_check(),
    }
}

/// The rule for a print job built from `settings` and raw `text`.
pub open spec fn print_job_check(settings: PrintSettings, text: Seq<char>) -> Result<
    (),
    DomainErrorView,
> {
    match print_settings_check(settings) {
        Err(e) => Err(e),
        Ok(()) => if trim(text).len() == 0 {
            Err(DomainErrorView::EmptyText)
        } else {
            Ok(())
        },
    }
}

/// The text a `DomainError` is shown with.
pub open spec fn domain_error_text(e: DomainErrorView) -> Seq<char> {
    match e {
        DomainErrorView::EmptyPrinterHost => "printer host must not be empty"@,
        DomainErrorView::InvalidPrinterHost { value } => "printer host is not valid: "@ + value,
        DomainErrorView::InvalidPrinterPort { value } => "printer port must be between 1 and 65535: "@
            + decimal_digits(value as nat),
        DomainErrorView::EmptyFontFaceName => "font face name must not be empty"@,
        DomainErrorView::FontSizeTooSmall { min_px, actual_px } =>
            "font size is too small: expected at least "@ + decimal_digits(min_px as nat) + "px, got "@
                + decimal_digits(actual_px as nat) + "px"@,
        DomainErrorView::PaperWidthTooSmall { min_px, actual_px } =>
            "paper width is too small: expected at least "@ + decimal_digits(min_px as nat)
                + "px, got "@ + decimal_digits(actual_px as nat) + "px"@,
        DomainErrorView::PrintableWidthTooSmall { paper_width_px, margin_px } => "paper width "@
            + decimal_digits(paper_width_px as nat) + "px is too small for "@ + decimal_digits(
            margin_px as nat,
        ) + "px margins"@,
        DomainErrorView::EmptyText => "print text must not be empty"@,
    }
}

impl DomainError {
    /// The text this error is shown with.
    pub fn message(&self) -> (r: String)
        ensures
            r@ == domain_error_text(self@),
    {
        match self {
            DomainError::EmptyPrinterHost => "printer host must not be empty".to_owned(),
            DomainError::InvalidPrinterHost { value } => {
                let mut r = "printer host is not valid: ".to_owned();
                r.append(value.as_str());
                r
            },
            DomainError::InvalidPrinterPort { value } => {
                let mut r = "printer port must be between 1 and 65535: ".to_owned();
                r.append(decimal_string(*value as u64).as_str());
                r
            },
            DomainError::EmptyFontFaceName => "font face name must not be empty".to_owned(),
            DomainError::FontSizeTooSmall { min_px, actual_px } => {
                let mut r = "font size is too small: expected at least ".to_owned();
                r.append(decimal_string(*min_px as u64).as_str());
                r.append("px, got ");
                r.append(decimal_string(*actual_px as u64).as_str());
                r.append("px");
                r
            },
            DomainError::PaperWidthTooSmall { min_px, actual_px } => {
                let mut r = "paper width is too small: expected at least ".to_owned();
                r.append(decimal_string(*min_px as u64).as_str());
                r.append("px, got ");
                r.append(decimal_string(*actual_px as u64).as_str());
                r.append("px");
                r
            },
            DomainError::PrintableWidthTooSmall { paper_width_px, margin_px } => {
                let mut r = "paper width ".to_owned();
                r.append(decimal_string(*paper_width_px as u64).as_str());
                r.append("px is too small for ");
                r.append(decimal_string(*margin_px as u64).as_str());
                r.append("px margins");
                r
            },
            DomainError::EmptyText => "print text must not be empty".to_owned(),
        }
    }
}

impl Default for NetworkPrinterTarget {
    fn default() -> (r: Self)
        ensures
            r.ip@ == DEFAULT_PRINTER_IP@,
            r.port == DEFAULT_PRINTER_PORT,
    {
        NetworkPrinterTarget { ip: DEFAULT_PRINTER_IP.to_owned(), port: DEFAULT_PRINTER_PORT }
    }
}

impl NetworkPrinterTarget {
    /// Checks the host (trimmed, an IP literal or DNS-style name) and the port.
    pub fn validate(&self) -> (r: Result<(), DomainError>)
        ensures
            check_view(r) == self.spec_check(),
    {
        let ip = chars_of(self.ip.as_str());
        let host = trim_chars(&ip);
        if host.len() == 0 {
            return Err(DomainError::EmptyPrinterHost);
        }
        if !is_valid_printer_host_chars(&host) {
            return Err(DomainError::InvalidPrinterHost { value: string_from_chars(host.as_slice()) });
        }
        if self.port == 0 {
            return Err(DomainError::InvalidPrinterPort { value: self.port });
        }
        Ok(())
    }

    /// `host:port`, as the target is named in messages.
    pub fn display_text(&self) -> (r: String)
        ensures
            r@ == self.ip@ + ":"@ + decimal_digits(self.port as nat),
    {
        let mut r = self.ip.clone();
        r.append(":");
        r.append(decimal_string(self.port as u64).as_str());
        r
    }
}

impl Default for TextImageLayout {
    fn default() -> (r: Self)
        ensures
            r.font_size_px == DEFAULT_FONT_SIZE_PX,
            r.paper_width_px == DEFAULT_PAPER_WIDTH_PX,
            r.margin_px == DEFAULT_MARGIN_PX,
            r.font_face_name@ == DEFAULT_FONT_FACE_NAME@,
    {
        TextImageLayout {
            font_size_px: DEFAULT_FONT_SIZE_PX,
            paper_width_px: DEFAULT_PAPER_WIDTH_PX,
            margin_px: DEFAULT_MARGIN_PX,
            font_face_name: DEFAULT_FONT_FACE_NAME.to_owned(),
        }
    }
}

impl TextImageLayout {
    /// Checks font size, paper width, printable width and font face name, in that order.
    pub fn validate(&self) -> (r: Result<(), DomainError>)
        ensures
            check_view(r) == self.spec_check(),
    {
        if self.font_size_px < MIN_FONT_SIZE_PX {
            return Err(
                DomainError::FontSizeTooSmall {
                    min_px: MIN_FONT_SIZE_PX,
                    actual_px: self.font_size_px,
                },
            );
        }
        if self.paper_width_px < MIN_PAPER_WIDTH_PX {
            return Err(
                DomainError::PaperWidthTooSmall {
                    min_px: MIN_PAPER_WIDTH_PX,
                    actual_px: self.paper_width_px,
                },
            );
        }
        let positive = match self.safe_width_px() {
            Some(width_px) => width_px > 0,
            None => false,
        };
        if !positive {
            return Err(
                DomainError::PrintableWidthTooSmall {
                    paper_width_px: self.paper_width_px,
                    margin_px: self.margin_px,
                },
            );
        }
        let face = trimmed_string(self.font_face_name.as_str());
        if face.as_str().is_empty() {
            return Err(DomainError::EmptyFontFaceName);
        }
        Ok(())
    }

    /// The width text may occupy: the printable width.
    pub fn safe_width_px(&self) -> (r: Option<u32>)
        ensures
            r == printable_width(self.paper_width_px, self.margin_px),
    {
        self.printable_width_px()
    }

    /// Paper width minus both margins, or `None` when that is not representable.
    pub fn printable_width_px(&self) -> (r: Option<u32>)
        ensures
            r == printable_width(self.paper_width_px, self.margin_px),
    {
        match self.margin_px.checked_mul(2) {
            Some(margins) => self.paper_width_px.checked_sub(margins),
            None => None,
        }
    }

    /// The layout as it is described in diagnostics; the printable width reads 0 when it is not
    /// representable.
    pub fn display_text(&self) -> (r: String)
        ensures
            r@ == "font="@ + decimal_digits(self.font_size_px as nat) + "px, paper="@
                + decimal_digits(self.paper_width_px as nat) + "px, margin="@ + decimal_digits(
                self.margin_px as nat,
            ) + "px, printable="@ + decimal_digits(
                match printable_width(self.paper_width_px, self.margin_px) {
                    Some(w) => w as nat,
                    None => 0nat,
                },
            ) + "px, font_face="@ + self.font_face_name@,
    {
        let printable = match self.printable_width_px() {
            Some(w) => w,
            None => 0,
        };
        let mut r = "font=".to_owned();
        r.append(decimal_string(self.font_size_px as u64).as_str());
        r.append("px, paper=");
        r.append(decimal_string(self.paper_width_px as u64).as_str());
        r.append("px, margin=");
        r.append(decimal_string(self.margin_px as u64).as_str());
        r.append("px, printable=");
        r.append(decimal_string(printable as u64).as_str());
        r.append("px, font_face=");
        r.append(self.font_face_name.as_str());
        r
    }
}

impl Default for PrintSettings {
    fn default() -> (r: Self)
        ensures
            r.printer.ip@ == DEFAULT_PRINTER_IP@,
            r.printer.port == DEFAULT_PRINTER_PORT,
            r.layout.font_size_px == DEFAULT_FONT_SIZE_PX,
            r.layout.paper_width_px == DEFAULT_PAPER_WIDTH_PX,
            r.layout.margin_px == DEFAULT_MARGIN_PX,
            r.layout.font_face_name@ == DEFAULT_FONT_FACE_NAME@,
    {
        PrintSettings { printer: NetworkPrinterTarget::default(), layout: TextImageLayout::default() }
    }
}

impl PrintSettings {
    /// Checks the printer target, then the layout.
    pub fn validate(&self) -> (r: Result<(), DomainError>)
        ensures
            check_view(r) == print_settings_check(*self),
    {
        self.printer.validate()?;
        self.layout.validate()
    }
}

impl Default for AppSettings {
    fn default() -> (r: Self)
        ensures
            r.print.printer.ip@ == DEFAULT_PRINTER_IP@,
            r.print.printer.port == DEFAULT_PRINTER_PORT,
            r.print.layout.font_size_px == DEFAULT_FONT_SIZE_PX,
            r.print.layout.paper_width_px == DEFAULT_PAPER_WIDTH_PX,
            r.print.layout.margin_px == DEFAULT_MARGIN_PX,
            r.print.layout.font_face_name@ == DEFAULT_FONT_FACE_NAME@,
            r.ui.theme == UiTheme::Light,
            r.ui.language == UiLanguage::English,
    {
        AppSettings { print: PrintSettings::default(), ui: UiSettings::default() }
    }
}

impl AppSettings {
    /// Checks the print settings; UI preferences are always valid.
    pub fn validate(&self) -> (r: Result<(), DomainError>)
        ensures
            check_view(r) == print_settings_check(self.print),
    {
        self.print.validate()
    }
}

impl PrintJob {
    /// Validates `settings` and trims `text`, which must not be empty then.
    pub fn new(settings: PrintSettings, text: &str) -> (r: Result<Self, DomainError>)
        ensures
            match r {
                Ok(job) => print_job_check(settings, text@) == Ok::<(), DomainErrorView>(())
                    && job.settings == settings && job.text@ == trim(text@),
                Err(e) => print_job_check(settings, text@) == Err::<(), DomainErrorView>(e@),
            },
    {
        settings.validate()?;
        let text = trimmed_string(text);
        if text.as_str().is_empty() {
            return Err(DomainError::EmptyText);
        }
        Ok(PrintJob { settings, text })
    }
}

/// Whether `c` is an ASCII letter or digit, by its code.
pub open spec fn is_letter_or_digit_code(c: char) -> bool {
    let v = c as u32;
    (48 <= v <= 57) || (65 <= v <= 90) || (97 <= v <= 122)
}

/// Whether `c` is a hexadecimal digit, by its code.
pub open spec fn is_hex_digit_code(c: char) -> bool {
    let v = c as u32;
    (48 <= v <= 57) || (65 <= v <= 70) || (97 <= v <= 102)
}

/// Whether `label` is a host-name label as DNS writes them: 1 to 63 ASCII letters, digits or
/// hyphens, not starting or ending with a hyphen.
pub open spec fn is_host_label_text(label: Seq<char>) -> bool {
    &&& 1 <= label.len() <= 63
    &&& forall|j: int|
        0 <= j < label.len() ==> is_letter_or_digit_code(#[trigger] label[j]) || label[j] == '-'
    &&& label[0] != '-'
    &&& label[label.len() - 1] != '-'
}

proof fn lemma_plain_text_trims_to_itself(h: Seq<char>)
    requires
        h.len() > 0,
        !is_white_space(h[0]),
        !is_white_space(h[h.len() - 1]),
    ensures
        trim(h) == h,
{
    assert(trim_start(h) == h);
    assert(trim_end(h) == h);
}

/// Every host name whose dot-separated labels are DNS labels (1 to 63 ASCII letters, digits or
/// inner hyphens), at most 253 characters long and not made only of digits and dots, is a valid
/// printer host: with any port but 0 the target passes its checks.
pub proof fn lemma_dns_host_names_are_valid_targets(labels: Seq<Seq<char>>, port: u16)
    requires
        labels.len() >= 1,
        forall|i: int| 0 <= i < labels.len() ==> is_host_label_text(#[trigger] labels[i]),
        joined_with(labels, '.').len() <= 253,
        exists|i: int|
            0 <= i < joined_with(labels, '.').len() && !(48 <= (#[trigger] joined_with(labels, '.')[i]) as u32 <= 57
                || joined_with(labels, '.')[i] == '.'),
        port != 0,
    ensures
        printer_target_check(joined_with(labels, '.'), port) == Ok::<(), DomainErrorView>(()),
{
    let h = joined_with(labels, '.');
    assert(parts_without(labels, '.')) by {
        assert forall|i: int, j: int|
            0 <= i < labels.len() && 0 <= j < labels[i].len() implies #[trigger] labels[i][j]
            != '.' by {
            assert(is_host_label_text(labels[i]));
        }
    }
    lemma_split_joined(labels, '.');
    assert(is_host_label_text(labels[0]));
    assert(is_host_label_text(labels[labels.len() - 1]));
    let first = labels[0][0];
    let last = labels[labels.len() - 1][labels[labels.len() - 1].len() - 1];
    assert(is_letter_or_digit_code(first) || first == '-');
    assert(is_letter_or_digit_code(last) || last == '-');
    lemma_plain_text_trims_to_itself(h);
    assert forall|i: int| 0 <= i < labels.len() implies crate::host::is_valid_dns_label(
        #[trigger] labels[i],
    ) by {
        assert(is_host_label_text(labels[i]));
    }
    assert(crate::host::is_valid_dns_hostname(h));
    assert(!crate::host::looks_like_ipv4_literal(h));
}

/// Eight colon-separated groups of one to four hexadecimal digits form a valid printer host (a
/// full IPv6 address, which `IpAddr` parses): with any port but 0 the target passes its checks.
pub proof fn lemma_full_ipv6_addresses_are_valid_targets(groups: Seq<Seq<char>>, port: u16)
    requires
        groups.len() == 8,
        forall|i: int|
            0 <= i < 8 ==> 1 <= (#[trigger] groups[i]).len() <= 4 && forall|j: int|
                0 <= j < groups[i].len() ==> is_hex_digit_code(#[trigger] groups[i][j]),
        port != 0,
    ensures
        printer_target_check(joined_with(groups, ':'), port) == Ok::<(), DomainErrorView>(()),
{
    let h = joined_with(groups, ':');
    assert(parts_without(groups, ':')) by {
        assert forall|i: int, j: int|
            0 <= i < groups.len() && 0 <= j < groups[i].len() implies #[trigger] groups[i][j]
            != ':' by {
            assert(is_hex_digit_code(groups[i][j]));
        }
    }
    lemma_split_joined(groups, ':');
    lemma_joined_no_double(groups, ':');
    assert(is_hex_digit_code(groups[0][0]));
    assert(is_hex_digit_code(groups[7][groups[7].len() - 1]));
    lemma_plain_text_trims_to_itself(h);
    assert forall|i: int| 0 <= i < 8 implies crate::host::is_hex_group(#[trigger] groups[i]) by {
        assert(forall|j: int| 0 <= j < groups[i].len() ==> is_hex_digit_code(groups[i][j]));
    }
    assert(crate::host::ipv6_piece_count(h, true) == Some(8nat));
    assert forall|i: int| !crate::host::double_colon_at(h, i) by {
        if 0 <= i && i + 1 < h.len() {
            assert(!(h[i] == ':' && h[i + 1] == ':'));
        }
    }
    assert(crate::host::is_ipv6_literal(h));
}

} // verus!
