//! The print workflow: form input into a validated job, the application's errors, and running a
//! job through a renderer and a printer.
use vstd::prelude::*;

use std::path::{Path, PathBuf};

use crate::domain::{
    domain_error_text, layout_check, print_settings_check, printer_target_check,
    AppSettings, DomainError, DomainErrorView, NetworkPrinterTarget, PrintJob, PrintSettings,
    RenderedReceiptImage,
    TextImageLayout, UiLanguage, UiTheme, DEFAULT_FONT_FACE_NAME, DEFAULT_FONT_SIZE_PX,
    DEFAULT_MARGIN_PX, DEFAULT_PAPER_WIDTH_PX, DEFAULT_PRINTER_IP, DEFAULT_PRINTER_PORT,
};
use crate::platform::{default_owner_window, NativeWindowHandle};
use crate::printer::{infra_error_text, EscPosPrinter, InfraError, InfraErrorView, TextImageRenderer};
use crate::settings::{
    settings_error_path_text, settings_error_text, SettingsFileError, SettingsFileErrorView,
};
use crate::text::{
    chars_of, decimal_digits, decimal_string, lemma_decimal_digits_parse, lemma_trim_idempotent,
    parse_unsigned_decimal,
    parsed_unsigned, trim, trim_chars, trimmed_string,
};

verus! {

/// Why form input could not be read as numbers.
#[derive(Debug, Clone, Copy, PartialEq, Eq, Structural)]
pub enum InputValidationError {
    NumericFieldsMustBeNumbers,
}

/// The text an `InputValidationError` is shown with.
pub open spec fn input_error_text(e: InputValidationError) -> Seq<char> {
    match e {
        InputValidationError::NumericFieldsMustBeNumbers =>
            "printer port, font size, and paper width must be numeric"@,
    }
}

impl InputValidationError {
    /// The text this error is shown with.
    pub fn message(&self) -> (r: String)
        ensures
            r@ == input_error_text(*self),
    {
        match self {
            InputValidationError::NumericFieldsMustBeNumbers =>
                "printer port, font size, and paper width must be numeric".to_owned(),
        }
    }
}

/// Any error of the application.
#[derive(Debug, Clone, PartialEq, Eq)]
pub enum AppError {
    Input(InputValidationError),
    Domain(DomainError),
    Infra(InfraError),
    Settings(SettingsFileError),
    Ui(String),
}

/// An `AppError` taken by the views of its parts.
pub enum AppErrorView {
    Input(InputValidationError),
    Domain(DomainErrorView),
    Infra(InfraErrorView),
    Settings(SettingsFileErrorView),
    Ui(Seq<char>),
}

impl View for AppError {
    type V = AppErrorView;

    open spec fn view(&self) -> AppErrorView {
        match self {
            AppError::Input(e) => AppErrorView::Input(*e),
            AppError::Domain(e) => AppErrorView::Domain(e@),
            AppError::Infra(e) => AppErrorView::Infra(e@),
            AppError::Settings(e) => AppErrorView::Settings(e@),
            AppError::Ui(details) => AppErrorView::Ui(details@),
        }
    }
}

/// The text an `AppError` is shown with, where `path` is how a settings error's path is written:
/// the text of the error it holds.
pub open spec fn app_error_text(e: AppErrorView, path: Seq<char>) -> Seq<char> {
    match e {
        AppErrorView::Input(x) => input_error_text(x),
        AppErrorView::Domain(x) => domain_error_text(x),
        AppErrorView::Infra(x) => infra_error_text(x),
        AppErrorView::Settings(x) => settings_error_text(x, path),
        AppErrorView::Ui(details) => details,
    }
}

/// How the path of a settings error held by `e` is written in its message; nothing for any
/// other error.
pub open spec fn app_error_path_text(e: AppError) -> Seq<char> {
    match e {
        AppError::Settings(x) => settings_error_path_text(x),
        _ => Seq::empty(),
    }
}

impl AppError {
    /// The text this error is shown with: that of the error it holds.
    pub fn message(&self) -> (r: String)
        ensures
            r@ == app_error_text(self@, app_error_path_text(*self)),
    {
        match self {
            AppError::Input(e) => e.message(),
            AppError::Domain(e) => e.message(),
            AppError::Infra(e) => e.message(),
            AppError::Settings(e) => e.message(),
            AppError::Ui(details) => details.clone(),
        }
    }
}

impl From<InputValidationError> for AppError {
    fn from(error: InputValidationError) -> (r: Self) {
        AppError::Input(error)
    }
}

impl vstd::std_specs::convert::FromSpecImpl<InputValidationError> for AppError {
    open spec fn obeys_from_spec() -> bool {
        true
    }

    open spec fn from_spec(v: InputValidationError) -> Self {
        AppError::Input(v)
    }
}

impl From<DomainError> for AppError {
    fn from(error: DomainError) -> (r: Self) {
        AppError::Domain(error)
    }
}

impl vstd::std_specs::convert::FromSpecImpl<DomainError> for AppError {
    open spec fn obeys_from_spec() -> bool {
        true
    }

    open spec fn from_spec(v: DomainError) -> Self {
        AppError::Domain(v)
    }
}

impl From<InfraError> for AppError {
    fn from(error: InfraError) -> (r: Self) {
        AppError::Infra(error)
    }
}

impl vstd::std_specs::convert::FromSpecImpl<InfraError> for AppError {
    open spec fn obeys_from_spec() -> bool {
        true
    }

    open spec fn from_spec(v: InfraError) -> Self {
        AppError::Infra(v)
    }
}

impl From<SettingsFileError> for AppError {
    fn from(error: SettingsFileError) -> (r: Self) {
        AppError::Settings(error)
    }
}

impl vstd::std_specs::convert::FromSpecImpl<SettingsFileError> for AppError {
    open spec fn obeys_from_spec() -> bool {
        true
    }

    open spec fn from_spec(v: SettingsFileError) -> Self {
        AppError::Settings(v)
    }
}

/// The application's settings, where they are stored, and the window that owns its dialogs.
#[derive(Debug)]
pub struct AppState {
    app_settings: AppSettings,
    settings_file_path: PathBuf,
    owner_window: NativeWindowHandle,
}

impl AppState {
    /// The settings held.
    pub closed spec fn spec_app_settings(&self) -> AppSettings {
        self.app_settings
    }

    /// The settings file's path.
    pub closed spec fn spec_settings_file_path(&self) -> PathBuf {
        self.settings_file_path
    }

    /// The owner of dialogs.
    pub closed spec fn spec_owner_window(&self) -> NativeWindowHandle {
        self.owner_window
    }

    /// The state for settings loaded (`loaded`) from the file at `settings_file_path`: a load
    /// error is passed on, loaded settings must validate, and dialogs get the default owner.
    pub fn bootstrap(
        settings_file_path: PathBuf,
        loaded: Result<AppSettings, SettingsFileError>,
    ) -> (r: Result<Self, AppError>)
        ensures
            match loaded {
                Err(e) => r == Err::<Self, AppError>(AppError::Settings(e)),
                Ok(settings) => match print_settings_check(settings.print) {
                    Err(d) => r matches Err(x) && x@ == AppErrorView::Domain(d),
                    Ok(()) => r matches Ok(state) && state.spec_app_settings() == settings
                        && state.spec_settings_file_path() == settings_file_path
                        && state.spec_owner_window().spec_raw() == 0,
                },
            },
    {
        let app_settings = match loaded {
            Ok(settings) => settings,
            Err(e) => {
                return Err(AppError::Settings(e));
            },
        };
        match app_settings.validate() {
            Ok(()) => {},
            Err(e) => {
                return Err(AppError::Domain(e));
            },
        }
        Ok(AppState { app_settings, settings_file_path, owner_window: default_owner_window() })
    }

    /// The print settings that new input starts from.
    pub fn default_settings(&self) -> (r: &PrintSettings)
        ensures
            *r == self.spec_app_settings().print,
    {
        &self.app_settings.print
    }

    /// All settings.
    pub fn app_settings(&self) -> (r: &AppSettings)
        ensures
            *r == self.spec_app_settings(),
    {
        &self.app_settings
    }

    /// The window theme.
    pub fn ui_theme(&self) -> (r: UiTheme)
        ensures
            r == self.spec_app_settings().ui.theme,
    {
        self.app_settings.ui.theme
    }

    /// The window language.
    pub fn ui_language(&self) -> (r: UiLanguage)
        ensures
            r == self.spec_app_settings().ui.language,
    {
        self.app_settings.ui.language
    }

    /// Where the settings are stored.
    pub fn settings_file_path(&self) -> (r: &PathBuf)
        ensures
            *r == self.spec_settings_file_path(),
    {
        &self.settings_file_path
    }

    /// The owner of dialogs.
    pub fn owner_window(&self) -> (r: NativeWindowHandle)
        ensures
            r == self.spec_owner_window(),
    {
        self.owner_window
    }
}

/// The print form's fields, as typed.
#[derive(Debug, Clone, PartialEq, Eq)]
pub struct PrintJobInput {
    pub printer_ip: String,
    pub printer_port: String,
    pub font_size_px: String,
    pub paper_width_px: String,
    pub font_face_name: String,
    pub text: String,
}

impl Default for PrintJobInput {
    fn default() -> (r: Self)
        ensures
            r.printer_ip@ == DEFAULT_PRINTER_IP@,
            r.printer_port@ == decimal_digits(DEFAULT_PRINTER_PORT as nat),
            r.font_size_px@ == decimal_digits(DEFAULT_FONT_SIZE_PX as nat),
            r.paper_width_px@ == decimal_digits(DEFAULT_PAPER_WIDTH_PX as nat),
            r.font_face_name@ == DEFAULT_FONT_FACE_NAME@,
            r.text@ == Seq::<char>::empty(),
    {
        PrintJobInput {
            printer_ip: DEFAULT_PRINTER_IP.to_owned(),
            printer_port: decimal_string(DEFAULT_PRINTER_PORT as u64),
            font_size_px: decimal_string(DEFAULT_FONT_SIZE_PX as u64),
            paper_width_px: decimal_string(DEFAULT_PAPER_WIDTH_PX as u64),
            font_face_name: DEFAULT_FONT_FACE_NAME.to_owned(),
            text: String::new(),
        }
    }
}

/// The first problem with form input, in the order it is checked: text, font face, the three
/// numbers, then the settings and text as a print job.
pub open spec fn input_error(input: PrintJobInput) -> Option<AppErrorView> {
    let port = parsed_unsigned(trim(input.printer_port@), u16::MAX as nat);
    let font = parsed_unsigned(trim(input.font_size_px@), u32::MAX as nat);
    let paper = parsed_unsigned(trim(input.paper_width_px@), u32::MAX as nat);
    if trim(input.text@).len() == 0 {
        Some(AppErrorView::Domain(DomainErrorView::EmptyText))
    } else if trim(input.font_face_name@).len() == 0 {
        Some(AppErrorView::Domain(DomainErrorView::EmptyFontFaceName))
    } else if port is None || font is None || paper is None {
        Some(AppErrorView::Input(InputValidationError::NumericFieldsMustBeNumbers))
    } else {
        match printer_target_check(trim(input.printer_ip@), port->0 as u16) {
            Err(d) => Some(AppErrorView::Domain(d)),
            Ok(()) => match layout_check(
                font->0 as u32,
                paper->0 as u32,
                DEFAULT_MARGIN_PX,
                trim(input.font_face_name@),
            ) {
                Err(d) => Some(AppErrorView::Domain(d)),
                Ok(()) => None,
            },
        }
    }
}

/// Whether `job` is what valid form `input` describes: trimmed host, font face and text, the
/// numbers as typed, and the default margin.
pub open spec fn job_from_input(input: PrintJobInput, job: PrintJob) -> bool {
    &&& job.settings.printer.ip@ == trim(input.printer_ip@)
    &&& parsed_unsigned(trim(input.printer_port@), u16::MAX as nat) == Some(
        job.settings.printer.port as nat,
    )
    &&& parsed_unsigned(trim(input.font_size_px@), u32::MAX as nat) == Some(
        job.settings.layout.font_size_px as nat,
    )
    &&& parsed_unsigned(trim(input.paper_width_px@), u32::MAX as nat) == Some(
        job.settings.layout.paper_width_px as nat,
    )
    &&& job.settings.layout.margin_px == DEFAULT_MARGIN_PX
    &&& job.settings.layout.font_face_name@ == trim(input.font_face_name@)
    &&& job.text@ == trim(input.text@)
}

/// The form filled from valid settings (with the default margin, and host and font face already
/// trimmed), given text that is not blank, is valid, and the job it describes carries exactly
/// those settings and the trimmed text.
pub proof fn lemma_settings_form_round_trip(settings: PrintSettings, input: PrintJobInput, job: PrintJob)
    requires
        print_settings_check(settings) is Ok,
        settings.layout.margin_px == DEFAULT_MARGIN_PX,
        trim(settings.printer.ip@) == settings.printer.ip@,
        trim(settings.layout.font_face_name@) == settings.layout.font_face_name@,
        input.printer_ip@ == settings.printer.ip@,
        input.printer_port@ == decimal_digits(settings.printer.port as nat),
        input.font_size_px@ == decimal_digits(settings.layout.font_size_px as nat),
        input.paper_width_px@ == decimal_digits(settings.layout.paper_width_px as nat),
        input.font_face_name@ == settings.layout.font_face_name@,
        trim(input.text@).len() > 0,
    ensures
        input_error(input) is None,
        job_from_input(input, job) ==> {
            &&& job.settings.printer.ip@ == settings.printer.ip@
            &&& job.settings.printer.port == settings.printer.port
            &&& job.settings.layout.font_size_px == settings.layout.font_size_px
            &&& job.settings.layout.paper_width_px == settings.layout.paper_width_px
            &&& job.settings.layout.margin_px == settings.layout.margin_px
            &&& job.settings.layout.font_face_name@ == settings.layout.font_face_name@
            &&& job.text@ == trim(input.text@)
        },
{
    lemma_decimal_digits_parse(settings.printer.port as nat, u16::MAX as nat);
    lemma_decimal_digits_parse(settings.layout.font_size_px as nat, u32::MAX as nat);
    lemma_decimal_digits_parse(settings.layout.paper_width_px as nat, u32::MAX as nat);
    lemma_trim_idempotent(settings.printer.ip@);
}

/// Reads a form field as an unsigned number no larger than `max`, ignoring surrounding white space.
fn parse_numeric_field(value: &String, max: u64) -> (r: Result<u64, InputValidationError>)
    requires
        max <= u32::MAX,
    ensures
        match parsed_unsigned(trim(value@), max as nat) {
            Some(v) => r == Ok::<u64, InputValidationError>(v as u64),
            None => r == Err::<u64, InputValidationError>(
                InputValidationError::NumericFieldsMustBeNumbers,
            ),
        },
{
    let chars = chars_of(value.as_str());
    let trimmed = trim_chars(&chars);
    match parse_unsigned_decimal(&trimmed, max) {
        Some(v) => Ok(v),
        None => Err(InputValidationError::NumericFieldsMustBeNumbers),
    }
}

impl PrintJobInput {
    /// The form filled from `settings`, with no text.
    pub fn from_settings(settings: &PrintSettings) -> (r: Self)
        ensures
            r.printer_ip@ == settings.printer.ip@,
            r.printer_port@ == decimal_digits(settings.printer.port as nat),
            r.font_size_px@ == decimal_digits(settings.layout.font_size_px as nat),
            r.paper_width_px@ == decimal_digits(settings.layout.paper_width_px as nat),
            r.font_face_name@ == settings.layout.font_face_name@,
            r.text@ == Seq::<char>::empty(),
    {
        PrintJobInput {
            printer_ip: settings.printer.ip.clone(),
            printer_port: decimal_string(settings.printer.port as u64),
            font_size_px: decimal_string(settings.layout.font_size_px as u64),
            paper_width_px: decimal_string(settings.layout.paper_width_px as u64),
            font_face_name: settings.layout.font_face_name.clone(),
            text: String::new(),
        }
    }

    /// The validated job this input describes, or the first problem with it.
    pub fn into_print_job(self) -> (r: Result<PrintJob, AppError>)
        ensures
            match input_error(self) {
                Some(e) => r matches Err(x) && x@ == e,
                None => r matches Ok(job) && job_from_input(self, job),
            },
    {
        let text = trimmed_string(self.text.as_str());
        if text.as_str().is_empty() {
            return Err(AppError::Domain(DomainError::EmptyText));
        }
        let font_face_name = trimmed_string(self.font_face_name.as_str());
        if font_face_name.as_str().is_empty() {
            return Err(AppError::Domain(DomainError::EmptyFontFaceName));
        }
        let printer_port = match parse_numeric_field(&self.printer_port, u16::MAX as u64) {
            Ok(v) => v as u16,
            Err(e) => {
                return Err(AppError::Input(e));
            },
        };
        let font_size_px = match parse_numeric_field(&self.font_size_px, u32::MAX as u64) {
            Ok(v) => v as u32,
            Err(e) => {
                return Err(AppError::Input(e));
            },
        };
        let paper_width_px = match parse_numeric_field(&self.paper_width_px, u32::MAX as u64) {
            Ok(v) => v as u32,
            Err(e) => {
                return Err(AppError::Input(e));
            },
        };
        let settings = PrintSettings {
            printer: NetworkPrinterTarget {
                ip: trimmed_string(self.printer_ip.as_str()),
                port: printer_port,
            },
            layout: TextImageLayout {
                font_size_px,
                paper_width_px,
                margin_px: DEFAULT_MARGIN_PX,
                font_face_name,
            },
        };
        proof {
            lemma_trim_idempotent(self.text@);
        }
        match PrintJob::new(settings, text.as_str()) {
            Ok(job) => Ok(job),
            Err(e) => Err(AppError::Domain(e)),
        }
    }
}

/// The validated job `input` describes, or the first problem with it.
pub fn build_print_job(input: PrintJobInput) -> (r: Result<PrintJob, AppError>)
    ensures
        match input_error(input) {
            Some(e) => r matches Err(x) && x@ == e,
            None => r matches Ok(job) && job_from_input(input, job),
        },
{
    input.into_print_job()
}

/// What the print workflow makes of the renderer's answer: the image to send, or the rendering
/// error as an application error, which ends the workflow before anything is sent.
pub fn image_to_send(rendered: Result<RenderedReceiptImage, InfraError>) -> (r: Result<
    RenderedReceiptImage,
    AppError,
>)
    ensures
        match rendered {
            Ok(image) => r == Ok::<RenderedReceiptImage, AppError>(image),
            Err(e) => r == Err::<RenderedReceiptImage, AppError>(AppError::Infra(e)),
        },
{
    match rendered {
        Ok(image) => Ok(image),
        Err(e) => Err(AppError::Infra(e)),
    }
}

/// What the print workflow makes of the printer's answer: success, or the printing error as an
/// application error.
pub fn print_outcome(sent: Result<(), InfraError>) -> (r: Result<(), AppError>)
    ensures
        r == print_result(sent),
{
    match sent {
        Ok(()) => Ok(()),
        Err(e) => Err(AppError::Infra(e)),
    }
}

/// What the print workflow returns for the printer's answer `sent`.
pub open spec fn print_result(sent: Result<(), InfraError>) -> Result<(), AppError> {
    match sent {
        Ok(()) => Ok(()),
        Err(e) => Err(AppError::Infra(e)),
    }
}

/// Renders `job`, then sends the image to the job's printer. A rendering error stops the
/// workflow before anything is sent; either step's error comes back as `AppError::Infra`.
/// The contract ties the result to answers the renderer may give for `job` and the printer may
/// give for the job's target and the rendered image.
pub fn execute_print_job<R: TextImageRenderer, P: EscPosPrinter>(
    job: &PrintJob,
    renderer: &R,
    printer: &P,
) -> (r: Result<(), AppError>)
    ensures
        exists|rendered: Result<RenderedReceiptImage, InfraError>|
            #[trigger] call_ensures(R::render_text, (renderer, job), rendered) && match rendered {
                Err(e) => r == Err::<(), AppError>(AppError::Infra(e)),
                Ok(image) => exists|sent: Result<(), InfraError>|
                    #[trigger] call_ensures(
                        P::send_image_and_cut,
                        (printer, &job.settings.printer, &image),
                        sent,
                    ) && r == print_result(sent),
            },
        r matches Err(e) ==> e is Infra,
{
    let rendered = renderer.render_text(job);
    let image = match image_to_send(rendered) {
        Ok(image) => image,
        Err(e) => {
            return Err(e);
        },
    };
    let sent = printer.send_image_and_cut(&job.settings.printer, &image);
    let r = print_outcome(sent);
    assert(r == print_result(sent));
    r
}

} // verus!
