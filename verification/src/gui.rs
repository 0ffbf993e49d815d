//! What the desktop window shows and decides, apart from drawing it: labels in both languages,
//! the messages for each error, the print button's states, the settings panel layout, and the
//! About window's content.
use vstd::prelude::*;

use std::path::{Path, PathBuf};

use crate::domain::{DomainError, DomainErrorView, UiLanguage, UiTheme};
use crate::printer::{InfraError, InfraErrorView};
use crate::receipt::{normalize_font_name, normalized_font_name};
use crate::text::{chars_of, contains_str, contains_text, text_equals, trim, trim_chars};
use crate::domain::PrintJob;
use crate::settings::{
    empty_path, joined_name, parent_path, path_is_empty, path_joined_name, path_parent,
};
use crate::workflow::{
    app_error_path_text, app_error_text, build_print_job, input_error, job_from_input, AppError,
    AppErrorView,
    InputValidationError, PrintJobInput,
};

verus! {

pub const WINDOW_TITLE: &'static str = "ESC/POS Printer Text to Image";

pub const WINDOW_CLASS_NAME: &'static str = "J3EcsNetPrintWindow";

pub const ABOUT_WINDOW_CLASS_NAME: &'static str = "J3EcsNetPrintAboutWindow";

pub const APP_ICON_RESOURCE_ID: u16 = 1;

pub const WORKER_COMPLETION_TIMER_ID: usize = 1;

pub const WORKER_COMPLETION_POLL_MS: u32 = 250;

pub const ID_PRINT_BUTTON: i32 = 1001;

pub const ID_FONT_FACE_COMBO: i32 = 1002;

pub const ID_THEME_COMBO: i32 = 1003;

pub const ID_SETTINGS_TOGGLE_BUTTON: i32 = 1004;

pub const ID_LANGUAGE_COMBO: i32 = 1005;

pub const ID_GITHUB_LINK: i32 = 1006;

pub const ID_ABOUT_LINK: i32 = 1007;

pub const ID_ABOUT_OK_BUTTON: i32 = 2001;

pub const ID_ABOUT_PROJECT_LINK: i32 = 2002;

pub const APP_VERSION: &'static str = "0.2.0";

pub const APP_NAME: &'static str = "j3Ecs NetPrint";

pub const PROJECT_LINK_LABEL: &'static str = "edgarp9/j3Ecs_NetPrint";

pub const PROJECT_LINK_URL: &'static str = "https://github.com/edgarp9/j3Ecs_NetPrint";

pub const ABOUT_TEXT_FILE: &'static str = "about.txt";

/// The About text shown when no `about.txt` is found next to the program.
pub const DEFAULT_ABOUT_TEXT: &'static str = "j3Ecs NetPrint\n\nVersion: 0.2.0\n\nA Windows-native ESC/POS network receipt printing utility that converts text into a raster image and sends it directly to network printers.\n\nLicense: GPL-3.0-or-later\n\nThis program is free software: you can redistribute it and/or modify it under the terms of the GNU General Public License as published by the Free Software Foundation, either version 3 of the License, or (at your option) any later version.\n\nThis program is distributed in the hope that it will be useful, but WITHOUT ANY WARRANTY; without even the implied warranty of MERCHANTABILITY or FITNESS FOR A PARTICULAR PURPOSE. See the GNU General Public License for more details.\n\nFull license text:\nLICENSE\n\nProject:\nhttps://github.com/edgarp9/j3Ecs_NetPrint\n\nThird-party notices:\nTHIRD_PARTY_NOTICES.txt\nRUST_STANDARD_LIBRARY_NOTICES.html\n";

pub const SHELL_EXECUTE_SUCCESS_MIN: isize = 33;

pub const STATIC_NOTIFY_STYLE: u32 = 0x0000_0100;

pub const WINDOW_WIDTH: i32 = 520;

pub const WINDOW_HEIGHT: i32 = 632;

pub const EDIT_HEIGHT: i32 = 24;

pub const LABEL_HEIGHT: i32 = 20;

pub const TEXT_EDIT_FONT_HEIGHT_PX: i32 = 16;

pub const TEXT_EDIT_FONT_FACE_NAME: &'static str = "Malgun Gothic";

pub const ABOUT_BODY_FONT_HEIGHT_PX: i32 = 14;

pub const ABOUT_BODY_FONT_FACE_NAME: &'static str = "Consolas";

pub const ABOUT_WINDOW_WIDTH: i32 = 620;

pub const ABOUT_WINDOW_HEIGHT: i32 = 430;

/// The labels of the main window in one language.
#[derive(Debug, Clone, Copy)]
pub struct UiText {
    pub settings_group_label: &'static str,
    pub text_group_label: &'static str,
    pub ip_label: &'static str,
    pub port_label: &'static str,
    pub font_size_label: &'static str,
    pub paper_width_label: &'static str,
    pub font_face_label: &'static str,
    pub theme_label: &'static str,
    pub language_label: &'static str,
    pub theme_light_label: &'static str,
    pub theme_dark_label: &'static str,
    pub language_english_label: &'static str,
    pub language_korean_label: &'static str,
    pub version_label: &'static str,
    pub about_link_label: &'static str,
    pub settings_hide_button_label: &'static str,
    pub settings_show_button_label: &'static str,
    pub print_button_label: &'static str,
    pub printing_button_label: &'static str,
}

/// Whether `t` holds the English labels.
pub open spec fn is_english_ui_text(t: UiText) -> bool {
    &&& t.settings_group_label@ == "Printer and Font Settings"@
    &&& t.text_group_label@ == "Print Text"@
    &&& t.ip_label@ == "IP/Host:"@
    &&& t.port_label@ == "Port:"@
    &&& t.font_size_label@ == "Font Size:"@
    &&& t.paper_width_label@ == "Paper Width:"@
    &&& t.font_face_label@ == "Font:"@
    &&& t.theme_label@ == "Theme:"@
    &&& t.language_label@ == "Language:"@
    &&& t.theme_light_label@ == "Light"@
    &&& t.theme_dark_label@ == "Dark"@
    &&& t.language_english_label@ == "English"@
    &&& t.language_korean_label@ == "Korean"@
    &&& t.version_label@ == "Version"@
    &&& t.about_link_label@ == "About"@
    &&& t.settings_hide_button_label@ == "Hide Settings"@
    &&& t.settings_show_button_label@ == "Show Settings"@
    &&& t.print_button_label@ == "Convert to Image and Print"@
    &&& t.printing_button_label@ == "Printing..."@
}

/// Whether `t` holds the Korean labels.
pub open spec fn is_korean_ui_text(t: UiText) -> bool {
    &&& t.settings_group_label@ == "프린터 및 폰트 설정"@
    &&& t.text_group_label@ == "출력할 내용"@
    &&& t.ip_label@ == "IP/호스트:"@
    &&& t.port_label@ == "Port:"@
    &&& t.font_size_label@ == "폰트 크기:"@
    &&& t.paper_width_label@ == "용지 폭:"@
    &&& t.font_face_label@ == "폰트:"@
    &&& t.theme_label@ == "테마:"@
    &&& t.language_label@ == "언어:"@
    &&& t.theme_light_label@ == "라이트"@
    &&& t.theme_dark_label@ == "다크"@
    &&& t.language_english_label@ == "영어"@
    &&& t.language_korean_label@ == "한글"@
    &&& t.version_label@ == "버전"@
    &&& t.about_link_label@ == "정보"@
    &&& t.settings_hide_button_label@ == "설정 숨기기"@
    &&& t.settings_show_button_label@ == "설정 보이기"@
    &&& t.print_button_label@ == "이미지로 변환 및 출력"@
    &&& t.printing_button_label@ == "출력 중..."@
}

/// Whether `t` holds the labels of `language`.
pub open spec fn is_ui_text_of(t: UiText, language: UiLanguage) -> bool {
    match language {
        UiLanguage::English => is_english_ui_text(t),
        UiLanguage::Korean => is_korean_ui_text(t),
    }
}

/// The main window's labels in `language`.
pub fn ui_text(language: UiLanguage) -> (r: UiText)
    ensures
        is_ui_text_of(r, language),
{
    match language {
        UiLanguage::English => UiText {
            settings_group_label: "Printer and Font Settings",
            text_group_label: "Print Text",
            ip_label: "IP/Host:",
            port_label: "Port:",
            font_size_label: "Font Size:",
            paper_width_label: "Paper Width:",
            font_face_label: "Font:",
            theme_label: "Theme:",
            language_label: "Language:",
            theme_light_label: "Light",
            theme_dark_label: "Dark",
            language_english_label: "English",
            language_korean_label: "Korean",
            version_label: "Version",
            about_link_label: "About",
            settings_hide_button_label: "Hide Settings",
            settings_show_button_label: "Show Settings",
            print_button_label: "Convert to Image and Print",
            printing_button_label: "Printing...",
        },
        UiLanguage::Korean => UiText {
            settings_group_label: "프린터 및 폰트 설정",
            text_group_label: "출력할 내용",
            ip_label: "IP/호스트:",
            port_label: "Port:",
            font_size_label: "폰트 크기:",
            paper_width_label: "용지 폭:",
            font_face_label: "폰트:",
            theme_label: "테마:",
            language_label: "언어:",
            theme_light_label: "라이트",
            theme_dark_label: "다크",
            language_english_label: "영어",
            language_korean_label: "한글",
            version_label: "버전",
            about_link_label: "정보",
            settings_hide_button_label: "설정 숨기기",
            settings_show_button_label: "설정 보이기",
            print_button_label: "이미지로 변환 및 출력",
            printing_button_label: "출력 중...",
        },
    }
}

/// `english` or `korean`, by `language`.
pub open spec fn localized_text(language: UiLanguage, english: Seq<char>, korean: Seq<char>) -> Seq<
    char,
> {
    match language {
        UiLanguage::English => english,
        UiLanguage::Korean => korean,
    }
}

/// The text of `language` of the two given.
pub fn localized(language: UiLanguage, english: &'static str, korean: &'static str) -> (r:
    &'static str)
    ensures
        r == (match language {
            UiLanguage::English => english,
            UiLanguage::Korean => korean,
        }),
{
    match language {
        UiLanguage::English => english,
        UiLanguage::Korean => korean,
    }
}

/// The label of `theme` shown in `language`.
pub open spec fn theme_label_text(theme: UiTheme, language: UiLanguage) -> Seq<char> {
    localized_text(
        language,
        match theme {
            UiTheme::Light => "Light"@,
            UiTheme::Dark => "Dark"@,
        },
        match theme {
            UiTheme::Light => "라이트"@,
            UiTheme::Dark => "다크"@,
        },
    )
}

/// The label of `language` shown in `display_language`.
pub open spec fn language_label_text(language: UiLanguage, display_language: UiLanguage) -> Seq<
    char,
> {
    localized_text(
        display_language,
        match language {
            UiLanguage::English => "English"@,
            UiLanguage::Korean => "Korean"@,
        },
        match language {
            UiLanguage::English => "영어"@,
            UiLanguage::Korean => "한글"@,
        },
    )
}

/// A word with no white space at either end is its own trimmed form.
proof fn lemma_trim_plain(w: Seq<char>)
    requires
        w.len() > 0,
        !crate::text::is_white_space(w[0]),
        !crate::text::is_white_space(w.last()),
    ensures
        trim(w) == w,
{
    assert(crate::text::trim_start(w) == w);
    assert(crate::text::trim_end(w) == w);
}

/// A label the window shows for a theme or language, in either language, reads back as that
/// theme or language.
pub proof fn lemma_ui_labels_round_trip(theme: UiTheme, language: UiLanguage, display: UiLanguage)
    ensures
        theme_from_label(theme_label_text(theme, display)) == Some(theme),
        language_from_label(language_label_text(language, display)) == Some(language),
{
    reveal_strlit("Light");
    reveal_strlit("Dark");
    reveal_strlit("라이트");
    reveal_strlit("다크");
    reveal_strlit("English");
    reveal_strlit("Korean");
    reveal_strlit("영어");
    reveal_strlit("한글");
    reveal_strlit("한국어");
    lemma_trim_plain("Light"@);
    lemma_trim_plain("Dark"@);
    lemma_trim_plain("라이트"@);
    lemma_trim_plain("다크"@);
    lemma_trim_plain("English"@);
    lemma_trim_plain("Korean"@);
    lemma_trim_plain("영어"@);
    lemma_trim_plain("한글"@);
    assert("Dark"@.len() != "Light"@.len());
    assert("Dark"@.len() != "라이트"@.len());
    assert("다크"@.len() != "Light"@.len());
    assert("다크"@.len() != "라이트"@.len());
    assert("Korean"@.len() != "English"@.len());
    assert("Korean"@[0] != "영어"@[0]);
    assert("한글"@.len() != "English"@.len());
    assert("한글"@[0] != "영어"@[0]);
}

/// The label of `theme` in `language`.
pub fn ui_theme_label(theme: UiTheme, language: UiLanguage) -> (r: &'static str)
    ensures
        r@ == theme_label_text(theme, language),
{
    let text = ui_text(language);
    match theme {
        UiTheme::Light => text.theme_light_label,
        UiTheme::Dark => text.theme_dark_label,
    }
}

/// The theme a label names, in either language, ignoring surrounding white space.
pub open spec fn theme_from_label(label: Seq<char>) -> Option<UiTheme> {
    let t = trim(label);
    if t == "Light"@ || t == "라이트"@ {
        Some(UiTheme::Light)
    } else if t == "Dark"@ || t == "다크"@ {
        Some(UiTheme::Dark)
    } else {
        None
    }
}

/// The theme `label` names.
pub fn ui_theme_from_label(label: &str) -> (r: Option<UiTheme>)
    ensures
        r == theme_from_label(label@),
{
    let chars = chars_of(label);
    let t = trim_chars(&chars);
    if text_equals(&t, "Light") || text_equals(&t, "라이트") {
        Some(UiTheme::Light)
    } else if text_equals(&t, "Dark") || text_equals(&t, "다크") {
        Some(UiTheme::Dark)
    } else {
        None
    }
}

/// The label of `language` shown in `display_language`.
pub fn ui_language_label(language: UiLanguage, display_language: UiLanguage) -> (r: &'static str)
    ensures
        r@ == language_label_text(language, display_language),
{
    let text = ui_text(display_language);
    match language {
        UiLanguage::English => text.language_english_label,
        UiLanguage::Korean => text.language_korean_label,
    }
}

/// The language a label names, in either language, ignoring surrounding white space.
pub open spec fn language_from_label(label: Seq<char>) -> Option<UiLanguage> {
    let t = trim(label);
    if t == "English"@ || t == "영어"@ {
        Some(UiLanguage::English)
    } else if t == "Korean"@ || t == "한국어"@ || t == "한글"@ {
        Some(UiLanguage::Korean)
    } else {
        None
    }
}

/// The language `label` names.
pub fn ui_language_from_label(label: &str) -> (r: Option<UiLanguage>)
    ensures
        r == language_from_label(label@),
{
    let chars = chars_of(label);
    let t = trim_chars(&chars);
    if text_equals(&t, "English") || text_equals(&t, "영어") {
        Some(UiLanguage::English)
    } else if text_equals(&t, "Korean") || text_equals(&t, "한국어") || text_equals(&t, "한글") {
        Some(UiLanguage::Korean)
    } else {
        None
    }
}

/// Why the window failed.
#[derive(Debug, Clone, PartialEq, Eq)]
pub enum GuiError {
    Win32CallFailed(&'static str),
    WindowTextTooLong { control: &'static str },
    WorkerStartFailed { details: String },
    App(AppError),
}

/// A `GuiError` taken by the views of its parts.
pub enum GuiErrorView {
    Win32CallFailed(Seq<char>),
    WindowTextTooLong { control: Seq<char> },
    WorkerStartFailed { details: Seq<char> },
    App(AppErrorView),
}

impl View for GuiError {
    type V = GuiErrorView;

    open spec fn view(&self) -> GuiErrorView {
        match self {
            GuiError::Win32CallFailed(function) => GuiErrorView::Win32CallFailed(function@),
            GuiError::WindowTextTooLong { control } => GuiErrorView::WindowTextTooLong {
                control: control@,
            },
            GuiError::WorkerStartFailed { details } => GuiErrorView::WorkerStartFailed {
                details: details@,
            },
            GuiError::App(e) => GuiErrorView::App(e@),
        }
    }
}

/// The text a `GuiError` is shown with, where `path` is how a settings error's path is written.
pub open spec fn gui_error_text(e: GuiErrorView, path: Seq<char>) -> Seq<char> {
    match e {
        GuiErrorView::Win32CallFailed(function) => "Win32 call failed: "@ + function,
        GuiErrorView::WindowTextTooLong { control } => "window text is too long: "@ + control,
        GuiErrorView::WorkerStartFailed { details } => "failed to start print worker: "@ + details,
        GuiErrorView::App(x) => app_error_text(x, path),
    }
}

/// How the path of a settings error that `e` holds is written in its message; nothing for any
/// other error.
pub open spec fn gui_error_path_text(e: GuiError) -> Seq<char> {
    match e {
        GuiError::App(x) => app_error_path_text(x),
        _ => Seq::empty(),
    }
}

impl GuiError {
    /// The text this error is shown with.
    pub fn message(&self) -> (r: String)
        ensures
            r@ == gui_error_text(self@, gui_error_path_text(*self)),
    {
        match self {
            GuiError::Win32CallFailed(function) => {
                let mut r = "Win32 call failed: ".to_owned();
                r.append(function);
                assert(r@ == gui_error_text(self@, gui_error_path_text(*self)));
                r
            },
            GuiError::WindowTextTooLong { control } => {
                let mut r = "window text is too long: ".to_owned();
                r.append(control);
                assert(r@ == gui_error_text(self@, gui_error_path_text(*self)));
                r
            },
            GuiError::WorkerStartFailed { details } => {
                let mut r = "failed to start print worker: ".to_owned();
                r.append(details.as_str());
                assert(r@ == gui_error_text(self@, gui_error_path_text(*self)));
                r
            },
            GuiError::App(e) => {
                e.message()
            },
        }
    }
}

/// The icon of a message box.
#[derive(Debug, Clone, Copy, PartialEq, Eq, Structural)]
pub enum MessageIcon {
    Info,
    Warning,
    Error,
}

/// A message box to show: title, body and icon.
#[derive(Debug, Clone, PartialEq, Eq)]
pub struct UserMessage {
    pub title: String,
    pub body: String,
    pub icon: MessageIcon,
}

/// A `UserMessage` with its texts as character sequences.
pub struct UserMessageView {
    pub title: Seq<char>,
    pub body: Seq<char>,
    pub icon: MessageIcon,
}

impl View for UserMessage {
    type V = UserMessageView;

    open spec fn view(&self) -> UserMessageView {
        UserMessageView { title: self.title@, body: self.body@, icon: self.icon }
    }
}

impl UserMessage {
    /// An information message.
    pub fn info(title: &str, body: &str) -> (r: Self)
        ensures
            r@ == (UserMessageView { title: title@, body: body@, icon: MessageIcon::Info }),
    {
        UserMessage { title: title.to_owned(), body: body.to_owned(), icon: MessageIcon::Info }
    }

    /// A warning.
    pub fn warning(title: &str, body: &str) -> (r: Self)
        ensures
            r@ == (UserMessageView { title: title@, body: body@, icon: MessageIcon::Warning }),
    {
        UserMessage { title: title.to_owned(), body: body.to_owned(), icon: MessageIcon::Warning }
    }

    /// An error message.
    pub fn error(title: &str, body: String) -> (r: Self)
        ensures
            r@ == (UserMessageView { title: title@, body: body@, icon: MessageIcon::Error }),
    {
        UserMessage { title: title.to_owned(), body, icon: MessageIcon::Error }
    }
}

/// Whether a rendering failure is about the font: its text mentions a font face or an
/// installed font.
pub open spec fn is_font_error_text(details: Seq<char>) -> bool {
    contains_text(details, "font face"@) || contains_text(details, "installed font"@)
}

/// Whether the rendering failure `details` is about the font.
pub fn is_font_error(details: &str) -> (r: bool)
    ensures
        r == is_font_error_text(details@),
{
    let chars = chars_of(details);
    contains_str(&chars, "font face") || contains_str(&chars, "installed font")
}

/// A summary in `language`, a blank line, then the error's own text.
pub open spec fn explained(
    language: UiLanguage,
    english: Seq<char>,
    korean: Seq<char>,
    error_text: Seq<char>,
) -> Seq<char> {
    localized_text(language, english, korean) + "\n\n"@ + error_text
}

/// The message shown for `e` in `language`, where `error_text` is the error's own text.
pub open spec fn app_error_message(
    e: AppErrorView,
    language: UiLanguage,
    error_text: Seq<char>,
) -> UserMessageView {
    let input_error = localized_text(language, "Input Error"@, "입력 오류"@);
    let print_failed = localized_text(language, "Print Failed"@, "출력 실패"@);
    match e {
        AppErrorView::Input(InputValidationError::NumericFieldsMustBeNumbers) => UserMessageView {
            title: input_error,
            body: localized_text(
                language,
                "Port, font size, and paper width must be numbers."@,
                "포트, 폰트 크기, 용지 폭은 숫자여야 합니다."@,
            ),
            icon: MessageIcon::Error,
        },
        AppErrorView::Domain(DomainErrorView::EmptyText) => UserMessageView {
            title: localized_text(language, "Warning"@, "경고"@),
            body: localized_text(language, "Enter text to print."@, "출력할 내용을 입력해주세요."@),
            icon: MessageIcon::Warning,
        },
        AppErrorView::Domain(DomainErrorView::EmptyFontFaceName) => UserMessageView {
            title: localized_text(language, "Warning"@, "경고"@),
            body: localized_text(language, "Select a font."@, "폰트를 선택해주세요."@),
            icon: MessageIcon::Warning,
        },
        AppErrorView::Domain(DomainErrorView::EmptyPrinterHost) => UserMessageView {
            title: input_error,
            body: localized_text(
                language,
                "Enter an IP address or host name."@,
                "IP 주소 또는 호스트명을 입력해주세요."@,
            ),
            icon: MessageIcon::Warning,
        },
        AppErrorView::Domain(DomainErrorView::InvalidPrinterHost { .. }) => UserMessageView {
            title: input_error,
            body: explained(
                language,
                "The IP address or host name is invalid."@,
                "IP 주소 또는 호스트명 형식이 올바르지 않습니다."@,
                error_text,
            ),
            icon: MessageIcon::Error,
        },
        AppErrorView::Domain(DomainErrorView::InvalidPrinterPort { .. }) => UserMessageView {
            title: input_error,
            body: explained(language, "Check the Port value."@, "Port 값을 확인해주세요."@, error_text),
            icon: MessageIcon::Error,
        },
        AppErrorView::Domain(_) => UserMessageView {
            title: input_error,
            body: explained(
                language,
                "Check the font size or paper width."@,
                "폰트 크기 또는 용지 폭 값을 확인해주세요."@,
                error_text,
            ),
            icon: MessageIcon::Error,
        },
        AppErrorView::Infra(InfraErrorView::TextRendering { details }) => if is_font_error_text(
            details,
        ) {
            UserMessageView {
                title: localized_text(language, "Font Error"@, "폰트 오류"@),
                body: explained(
                    language,
                    "The selected font cannot be used."@,
                    "폰트를 사용할 수 없습니다."@,
                    details,
                ),
                icon: MessageIcon::Error,
            }
        } else {
            UserMessageView {
                title: print_failed,
                body: explained(
                    language,
                    "An error occurred while creating the image."@,
                    "이미지 생성 중 오류가 발생했습니다."@,
                    details,
                ),
                icon: MessageIcon::Error,
            }
        },
        AppErrorView::Infra(InfraErrorView::NetworkIo { .. }) => UserMessageView {
            title: print_failed,
            body: explained(
                language,
                "An error occurred while communicating with the printer."@,
                "프린터 통신 중 오류가 발생했습니다."@,
                error_text,
            ),
            icon: MessageIcon::Error,
        },
        AppErrorView::Infra(InfraErrorView::EscPosEncoding(_)) => UserMessageView {
            title: print_failed,
            body: explained(
                language,
                "An error occurred while creating ESC/POS output data."@,
                "ESC/POS 출력 데이터 생성 중 오류가 발생했습니다."@,
                error_text,
            ),
            icon: MessageIcon::Error,
        },
        AppErrorView::Infra(_) => UserMessageView {
            title: print_failed,
            body: error_text,
            icon: MessageIcon::Error,
        },
        AppErrorView::Settings(_) => UserMessageView {
            title: localized_text(language, "Settings Save Failed"@, "설정 저장 실패"@),
            body: explained(
                language,
                "The settings file could not be saved."@,
                "설정파일을 저장할 수 없습니다."@,
                error_text,
            ),
            icon: MessageIcon::Error,
        },
        AppErrorView::Ui(details) => UserMessageView {
            title: localized_text(language, "Error"@, "오류"@),
            body: details,
            icon: MessageIcon::Error,
        },
    }
}

/// A summary in `language`, a blank line, then `details`.
fn explanation(language: UiLanguage, english: &'static str, korean: &'static str, details: &str) -> (r:
    String)
    ensures
        r@ == explained(language, english@, korean@, details@),
{
    let mut r = localized(language, english, korean).to_owned();
    r.append("\n\n");
    r.append(details);
    r
}

/// The message box for `error` in `language`.
pub fn user_message_for_app_error(error: &AppError, language: UiLanguage) -> (r: UserMessage)
    ensures
        r@ == app_error_message(
            error@,
            language,
            app_error_text(error@, app_error_path_text(*error)),
        ),
{
    let text = error.message();
    let ghost path = app_error_path_text(*error);
    let input_error = localized(language, "Input Error", "입력 오류");
    let print_failed = localized(language, "Print Failed", "출력 실패");
    let r = match error {
        AppError::Input(InputValidationError::NumericFieldsMustBeNumbers) => UserMessage::error(
            input_error,
            localized(
                language,
                "Port, font size, and paper width must be numbers.",
                "포트, 폰트 크기, 용지 폭은 숫자여야 합니다.",
            ).to_owned(),
        ),
        AppError::Domain(DomainError::EmptyText) => UserMessage::warning(
            localized(language, "Warning", "경고"),
            localized(language, "Enter text to print.", "출력할 내용을 입력해주세요."),
        ),
        AppError::Domain(DomainError::EmptyFontFaceName) => UserMessage::warning(
            localized(language, "Warning", "경고"),
            localized(language, "Select a font.", "폰트를 선택해주세요."),
        ),
        AppError::Domain(DomainError::EmptyPrinterHost) => UserMessage::warning(
            input_error,
            localized(
                language,
                "Enter an IP address or host name.",
                "IP 주소 또는 호스트명을 입력해주세요.",
            ),
        ),
        AppError::Domain(DomainError::InvalidPrinterHost { .. }) => UserMessage::error(
            input_error,
            explanation(
                language,
                "The IP address or host name is invalid.",
                "IP 주소 또는 호스트명 형식이 올바르지 않습니다.",
                text.as_str(),
            ),
        ),
        AppError::Domain(DomainError::InvalidPrinterPort { .. }) => UserMessage::error(
            input_error,
            explanation(language, "Check the Port value.", "Port 값을 확인해주세요.", text.as_str()),
        ),
        AppError::Domain(_) => UserMessage::error(
            input_error,
            explanation(
                language,
                "Check the font size or paper width.",
                "폰트 크기 또는 용지 폭 값을 확인해주세요.",
                text.as_str(),
            ),
        ),
        AppError::Infra(InfraError::TextRendering { details }) => {
            if is_font_error(details.as_str()) {
                UserMessage::error(
                    localized(language, "Font Error", "폰트 오류"),
                    explanation(
                        language,
                        "The selected font cannot be used.",
                        "폰트를 사용할 수 없습니다.",
                        details.as_str(),
                    ),
                )
            } else {
                UserMessage::error(
                    print_failed,
                    explanation(
                        language,
                        "An error occurred while creating the image.",
                        "이미지 생성 중 오류가 발생했습니다.",
                        details.as_str(),
                    ),
                )
            }
        },
        AppError::Infra(InfraError::NetworkIo { .. }) => UserMessage::error(
            print_failed,
            explanation(
                language,
                "An error occurred while communicating with the printer.",
                "프린터 통신 중 오류가 발생했습니다.",
                text.as_str(),
            ),
        ),
        AppError::Infra(InfraError::EscPosEncoding(_)) => UserMessage::error(
            print_failed,
            explanation(
                language,
                "An error occurred while creating ESC/POS output data.",
                "ESC/POS 출력 데이터 생성 중 오류가 발생했습니다.",
                text.as_str(),
            ),
        ),
        AppError::Infra(_) => UserMessage::error(print_failed, text),
        AppError::Settings(_) => UserMessage::error(
            localized(language, "Settings Save Failed", "설정 저장 실패"),
            explanation(
                language,
                "The settings file could not be saved.",
                "설정파일을 저장할 수 없습니다.",
                text.as_str(),
            ),
        ),
        AppError::Ui(details) => UserMessage::error(
            localized(language, "Error", "오류"),
            details.clone(),
        ),
    };
    assert(r@ == app_error_message(error@, language, app_error_text(error@, path)));
    r
}

/// The message shown for `e` in `language`, where `path` is how a settings error's path is
/// written: that of the application error it holds, or a plain error with its text.
pub open spec fn gui_error_message(e: GuiErrorView, language: UiLanguage, path: Seq<char>) -> UserMessageView {
    match e {
        GuiErrorView::App(x) => app_error_message(x, language, app_error_text(x, path)),
        _ => UserMessageView {
            title: localized_text(language, "Error"@, "오류"@),
            body: gui_error_text(e, path),
            icon: MessageIcon::Error,
        },
    }
}

/// The message box for `error` in `language`.
pub fn user_message_for_gui_error(error: &GuiError, language: UiLanguage) -> (r: UserMessage)
    ensures
        r@ == gui_error_message(error@, language, gui_error_path_text(*error)),
{
    match error {
        GuiError::App(e) => user_message_for_app_error(e, language),
        _ => {
            let text = error.message();
            UserMessage::error(localized(language, "Error", "오류"), text)
        },
    }
}

/// What a finished print worker reports.
#[derive(Debug, Clone, PartialEq, Eq)]
pub struct WorkerResult {
    pub message: UserMessage,
}

/// The report of a print workflow that ended with `result`, in `language`.
pub fn worker_result_from_app_result(result: Result<(), AppError>, language: UiLanguage) -> (r:
    WorkerResult)
    ensures
        match result {
            Ok(()) => r.message@ == (UserMessageView {
                title: localized_text(language, "Success"@, "성공"@),
                body: localized_text(language, "Printing is complete."@, "출력이 완료되었습니다."@),
                icon: MessageIcon::Info,
            }),
            Err(e) => r.message@ == app_error_message(
                e@,
                language,
                app_error_text(e@, app_error_path_text(e)),
            ),
        },
{
    let message = match result {
        Ok(()) => UserMessage::info(
            localized(language, "Success", "성공"),
            localized(language, "Printing is complete.", "출력이 완료되었습니다."),
        ),
        Err(error) => user_message_for_app_error(&error, language),
    };
    WorkerResult { message }
}

/// The report of a print worker that ended without a result (it panicked), in `language`.
pub fn worker_panicked_result(language: UiLanguage) -> (r: WorkerResult)
    ensures
        r.message@ == (UserMessageView {
            title: localized_text(language, "Print Failed"@, "출력 실패"@),
            body: localized_text(
                language,
                "The print worker exited unexpectedly."@,
                "출력 작업이 비정상적으로 종료되었습니다."@,
            ),
            icon: MessageIcon::Error,
        }),
{
    WorkerResult {
        message: UserMessage::error(
            localized(language, "Print Failed", "출력 실패"),
            localized(
                language,
                "The print worker exited unexpectedly.",
                "출력 작업이 비정상적으로 종료되었습니다.",
            ).to_owned(),
        ),
    }
}

/// Whether a print is running.
#[derive(Debug, Clone, Copy, PartialEq, Eq, Structural)]
pub enum PrintWorkflowState {
    Idle,
    WorkerRunning,
}

impl PrintWorkflowState {
    /// The print button's enabled flag: 1 when idle, 0 while printing.
    pub fn print_button_enabled(self) -> (r: i32)
        ensures
            r == (if self is Idle {
                1i32
            } else {
                0i32
            }),
    {
        match self {
            PrintWorkflowState::Idle => 1,
            PrintWorkflowState::WorkerRunning => 0,
        }
    }

    /// The print button's label in the labels `text`.
    pub fn print_button_label(self, text: &UiText) -> (r: &'static str)
        ensures
            r == (if self is Idle {
                text.print_button_label
            } else {
                text.printing_button_label
            }),
    {
        match self {
            PrintWorkflowState::Idle => text.print_button_label,
            PrintWorkflowState::WorkerRunning => text.printing_button_label,
        }
    }

    /// Whether a print worker is running.
    pub fn is_worker_running(self) -> (r: bool)
        ensures
            r == (self is WorkerRunning),
    {
        match self {
            PrintWorkflowState::Idle => false,
            PrintWorkflowState::WorkerRunning => true,
        }
    }
}

/// Whether the worker's completion message reached the window.
#[derive(Debug, Clone, Copy, PartialEq, Eq, Structural)]
pub enum WorkerCompletionPostState {
    Posted,
    FallbackPending,
}

/// What the completion poll does next.
#[derive(Debug, Clone, Copy, PartialEq, Eq, Structural)]
pub enum WorkerCompletionPollAction {
    Wait,
    Complete,
    Stop,
}

/// The post state for the result `posted` of posting the completion message (0 is failure; the
/// poll then picks the result up).
pub fn worker_completion_post_state(posted: i32) -> (r: WorkerCompletionPostState)
    ensures
        r == (if posted == 0 {
            WorkerCompletionPostState::FallbackPending
        } else {
            WorkerCompletionPostState::Posted
        }),
{
    if posted == 0 {
        WorkerCompletionPostState::FallbackPending
    } else {
        WorkerCompletionPostState::Posted
    }
}

/// The poll's next action: complete a finished worker, wait for a running one, stop when there
/// is none.
pub fn worker_completion_poll_action(has_worker_handle: bool, worker_finished: bool) -> (r:
    WorkerCompletionPollAction)
    ensures
        r == (if !has_worker_handle {
            WorkerCompletionPollAction::Stop
        } else if worker_finished {
            WorkerCompletionPollAction::Complete
        } else {
            WorkerCompletionPollAction::Wait
        }),
{
    match (has_worker_handle, worker_finished) {
        (true, true) => WorkerCompletionPollAction::Complete,
        (true, false) => WorkerCompletionPollAction::Wait,
        (false, _) => WorkerCompletionPollAction::Stop,
    }
}

/// A control's position and size in the window.
#[derive(Debug, Clone, Copy, PartialEq, Eq, Structural)]
pub struct ControlRect {
    pub x: i32,
    pub y: i32,
    pub width: i32,
    pub height: i32,
}

/// The settings group box.
pub fn settings_group_rect() -> (r: ControlRect)
    ensures
        r == (ControlRect { x: 16, y: 12, width: 472, height: 212 }),
{
    ControlRect { x: 16, y: 12, width: 472, height: 212 }
}

/// The button that shows or hides the settings.
pub fn settings_toggle_rect() -> (r: ControlRect)
    ensures
        r == (ControlRect { x: 370, y: 12, width: 104, height: EDIT_HEIGHT }),
{
    ControlRect { x: 370, y: 12, width: 104, height: EDIT_HEIGHT }
}

/// The text group box below visible settings.
pub fn text_group_expanded_rect() -> (r: ControlRect)
    ensures
        r == (ControlRect { x: 16, y: 237, width: 472, height: 260 }),
{
    ControlRect { x: 16, y: 237, width: 472, height: 260 }
}

/// The text box below visible settings.
pub fn text_edit_expanded_rect() -> (r: ControlRect)
    ensures
        r == (ControlRect { x: 30, y: 262, width: 444, height: 220 }),
{
    ControlRect { x: 30, y: 262, width: 444, height: 220 }
}

/// The text group box when the settings are hidden.
pub fn text_group_collapsed_rect() -> (r: ControlRect)
    ensures
        r == (ControlRect { x: 16, y: 48, width: 472, height: 377 }),
{
    ControlRect { x: 16, y: 48, width: 472, height: 377 }
}

/// The text box when the settings are hidden.
pub fn text_edit_collapsed_rect() -> (r: ControlRect)
    ensures
        r == (ControlRect { x: 30, y: 73, width: 444, height: 337 }),
{
    ControlRect { x: 30, y: 73, width: 444, height: 337 }
}

/// The print button.
pub fn print_button_rect() -> (r: ControlRect)
    ensures
        r == (ControlRect { x: 16, y: 512, width: 472, height: 44 }),
{
    ControlRect { x: 16, y: 512, width: 472, height: 44 }
}

/// The About window's version label.
pub fn about_version_label_rect() -> (r: ControlRect)
    ensures
        r == (ControlRect { x: 16, y: 16, width: 570, height: LABEL_HEIGHT }),
{
    ControlRect { x: 16, y: 16, width: 570, height: LABEL_HEIGHT }
}

/// The About window's text.
pub fn about_body_edit_rect() -> (r: ControlRect)
    ensures
        r == (ControlRect { x: 16, y: 48, width: 570, height: 298 }),
{
    ControlRect { x: 16, y: 48, width: 570, height: 298 }
}

/// The About window's project link.
pub fn about_project_link_rect() -> (r: ControlRect)
    ensures
        r == (ControlRect { x: 16, y: 366, width: 360, height: LABEL_HEIGHT }),
{
    ControlRect { x: 16, y: 366, width: 360, height: LABEL_HEIGHT }
}

/// The About window's OK button.
pub fn about_ok_button_rect() -> (r: ControlRect)
    ensures
        r == (ControlRect { x: 490, y: 362, width: 96, height: 28 }),
{
    ControlRect { x: 490, y: 362, width: 96, height: 28 }
}

/// Where the text area goes.
#[derive(Debug, Clone, Copy, PartialEq, Eq, Structural)]
pub struct SettingsPanelLayout {
    pub text_group: ControlRect,
    pub text_edit: ControlRect,
}

/// The settings panel's visibility after the toggle is pressed.
pub fn toggled_settings_panel_visibility(visible: bool) -> (r: bool)
    ensures
        r == !visible,
{
    !visible
}

/// The text area's layout: below the settings when they show, taller in their place when not.
pub fn settings_panel_layout(settings_panel_visible: bool) -> (r: SettingsPanelLayout)
    ensures
        settings_panel_visible ==> r == (SettingsPanelLayout {
            text_group: ControlRect { x: 16, y: 237, width: 472, height: 260 },
            text_edit: ControlRect { x: 30, y: 262, width: 444, height: 220 },
        }),
        !settings_panel_visible ==> r == (SettingsPanelLayout {
            text_group: ControlRect { x: 16, y: 48, width: 472, height: 377 },
            text_edit: ControlRect { x: 30, y: 73, width: 444, height: 337 },
        }),
{
    if settings_panel_visible {
        SettingsPanelLayout {
            text_group: text_group_expanded_rect(),
            text_edit: text_edit_expanded_rect(),
        }
    } else {
        SettingsPanelLayout {
            text_group: text_group_collapsed_rect(),
            text_edit: text_edit_collapsed_rect(),
        }
    }
}

/// The settings toggle's label in the labels `text`: hide while shown, show while hidden.
pub fn settings_toggle_button_label(settings_panel_visible: bool, text: &UiText) -> (r:
    &'static str)
    ensures
        r == (if settings_panel_visible {
            text.settings_hide_button_label
        } else {
            text.settings_show_button_label
        }),
{
    if settings_panel_visible {
        text.settings_hide_button_label
    } else {
        text.settings_show_button_label
    }
}

/// The version line of the labels `text`: its version label, a space, the version.
pub fn program_version_text(text: &UiText) -> (r: String)
    ensures
        r@ == text.version_label@ + " "@ + APP_VERSION@,
{
    let mut r = text.version_label.to_owned();
    r.append(" ");
    r.append(APP_VERSION);
    r
}

/// What the About window shows.
#[derive(Debug, Clone, PartialEq, Eq)]
pub struct AboutWindowContent {
    pub title: String,
    pub version_label: String,
    pub body_text: String,
    pub project_url: &'static str,
    pub ok_label: &'static str,
}

/// Where `about.txt` is looked for: in the directory of the executable at `executable_path`;
/// `None` where that path has no directory, or an empty one.
pub fn about_text_path_for_executable(executable_path: &Path) -> (r: Option<PathBuf>)
    ensures
        r == match path_parent(executable_path) {
            Some(directory) => if path_is_empty(directory) {
                None
            } else {
                Some(path_joined_name(directory, ABOUT_TEXT_FILE@))
            },
            None => None::<PathBuf>,
        },
{
    match parent_path(executable_path) {
        Some(directory) => if empty_path(&directory) {
            None
        } else {
            Some(joined_name(&directory, ABOUT_TEXT_FILE))
        },
        None => None,
    }
}

/// The About window's content, with the text of an `about.txt` found next to the program, or
/// the built-in text.
pub fn about_window_content(about_text: Option<String>) -> (r: AboutWindowContent)
    ensures
        r.title@ == "About "@ + APP_NAME@,
        r.version_label@ == APP_NAME@ + " "@ + APP_VERSION@,
        r.body_text@ == match about_text {
            Some(text) => text@,
            None => DEFAULT_ABOUT_TEXT@,
        },
        r.project_url == PROJECT_LINK_URL,
        r.ok_label@ == "OK"@,
{
    let mut title = "About ".to_owned();
    title.append(APP_NAME);
    let mut version_label = APP_NAME.to_owned();
    version_label.append(" ");
    version_label.append(APP_VERSION);
    let body_text = match about_text {
        Some(text) => text,
        None => DEFAULT_ABOUT_TEXT.to_owned(),
    };
    AboutWindowContent {
        title,
        version_label,
        body_text,
        project_url: PROJECT_LINK_URL,
        ok_label: "OK",
    }
}

/// `text` with every line break (`\r\n`, a lone `\r` or a lone `\n`) written as `\r\n`, as a
/// multi-line edit control needs.
pub open spec fn crlf_text(text: Seq<char>) -> Seq<char>
    decreases text.len(),
{
    if text.len() == 0 {
        Seq::empty()
    } else if text[0] == '\r' && text.len() > 1 && text[1] == '\n' {
        seq!['\r', '\n'] + crlf_text(text.skip(2))
    } else if text[0] == '\r' || text[0] == '\n' {
        seq!['\r', '\n'] + crlf_text(text.skip(1))
    } else {
        seq![text[0]] + crlf_text(text.skip(1))
    }
}

/// `text` with Windows line breaks throughout.
pub fn win32_edit_multiline_text(text: &str) -> (r: String)
    ensures
        r@ == crlf_text(text@),
{
    let chars = chars_of(text);
    let n = chars.len();
    let mut out: Vec<char> = Vec::new();
    let mut i: usize = 0;
    assert(chars@.skip(0) == chars@);
    while i < n
        invariant
            i <= n == chars@.len(),
            out@ + crlf_text(chars@.skip(i as int)) == crlf_text(chars@),
        decreases n - i,
    {
        let ghost rest = chars@.skip(i as int);
        let c = chars[i];
        if c == '\r' && i + 1 < n && chars[i + 1] == '\n' {
            assert(rest.skip(2) == chars@.skip(i + 2));
            out.push('\r');
            out.push('\n');
            i = i + 2;
        } else if c == '\r' || c == '\n' {
            assert(rest.skip(1) == chars@.skip(i + 1));
            out.push('\r');
            out.push('\n');
            i = i + 1;
        } else {
            assert(rest.skip(1) == chars@.skip(i + 1));
            out.push(c);
            i = i + 1;
        }
    }
    assert(chars@.skip(n as int) == Seq::<char>::empty());
    assert(out@ == crlf_text(chars@));
    crate::text::string_from_chars(out.as_slice())
}

/// Whether `ShellExecuteW` succeeded: it returns a value above 32 then.
pub fn shell_execute_open_succeeded(result: isize) -> (r: bool)
    ensures
        r == (result >= SHELL_EXECUTE_SUCCESS_MIN),
{
    result >= SHELL_EXECUTE_SUCCESS_MIN
}

/// The index of the first NUL in `buffer`, or its length when there is none.
pub fn first_nul_or_buffer_len(buffer: &[u16]) -> (r: usize)
    ensures
        r <= buffer@.len(),
        forall|i: int| 0 <= i < r ==> buffer@[i] != 0,
        r < buffer@.len() ==> buffer@[r as int] == 0,
{
    let mut i: usize = 0;
    while i < buffer.len()
        invariant
            i <= buffer@.len(),
            forall|j: int| 0 <= j < i ==> buffer@[j] != 0,
        decreases buffer@.len() - i,
    {
        if buffer[i] == 0 {
            return i;
        }
        i = i + 1;
    }
    i
}

/// A font face name as compared: trimmed and in lower case.
pub fn normalize_font_face_name(value: &str) -> (r: String)
    ensures
        r@ == normalized_font_name(value@),
{
    normalize_font_name(value)
}

/// A GDI color value of red, green and blue.
pub fn rgb(red: u8, green: u8, blue: u8) -> (r: u32)
    ensures
        r == blue * 65536 + green * 256 + red,
{
    let b = blue as u32;
    let g = green as u32;
    let red32 = red as u32;
    assert((b << 16u32) | (g << 8u32) | red32 == b * 65536 + g * 256 + red32) by (bit_vector)
        requires
            b < 256,
            g < 256,
            red32 < 256,
    ;
    (b << 16u32) | (g << 8u32) | red32
}

/// The window background of the dark theme.
pub fn dark_background_color() -> (r: u32)
    ensures
        r == 36 * 65536 + 33 * 256 + 32,
{
    rgb(32, 33, 36)
}

/// The background of edit fields and lists in the dark theme.
pub fn dark_field_background_color() -> (r: u32)
    ensures
        r == 49 * 65536 + 45 * 256 + 43,
{
    rgb(43, 45, 49)
}

/// The background of buttons in the dark theme.
pub fn dark_button_background_color() -> (r: u32)
    ensures
        r == 64 * 65536 + 58 * 256 + 55,
{
    rgb(55, 58, 64)
}

/// The text color of the dark theme.
pub fn dark_text_color() -> (r: u32)
    ensures
        r == 244 * 65536 + 243 * 256 + 241,
{
    rgb(241, 243, 244)
}

/// The color of link labels in `theme`.
pub fn link_text_color(theme: UiTheme) -> (r: u32)
    ensures
        r == match theme {
            UiTheme::Light => 204 * 65536 + 102 * 256 + 0,
            UiTheme::Dark => 248 * 65536 + 180 * 256 + 138,
        },
{
    match theme {
        UiTheme::Light => rgb(0, 102, 204),
        UiTheme::Dark => rgb(138, 180, 248),
    }
}

/// The low 16 bits of a message parameter.
pub fn loword(value: usize) -> (r: i32)
    ensures
        r == value % 65536,
{
    let low = value & 0xFFFF;
    assert(value & 0xFFFF == value % 65536) by (bit_vector);
    low as i32
}

/// Bits 16 to 31 of a message parameter.
pub fn hiword(value: usize) -> (r: u16)
    ensures
        r == (value / 65536) % 65536,
{
    let high = (value >> 16usize) & 0xFFFF;
    assert((value >> 16usize) & 0xFFFF == (value / 65536) % 65536) by (bit_vector);
    high as u16
}

/// The message shown when a window handler finds no window state: titled for what was being
/// done (in English, since the chosen language is part of the missing state).
pub fn window_state_unavailable_message(english_title: &'static str) -> (r: UserMessage)
    ensures
        r@ == (UserMessageView {
            title: english_title@,
            body: "The window state could not be read."@,
            icon: MessageIcon::Error,
        }),
{
    UserMessage::error(english_title, "The window state could not be read.".to_owned())
}

/// A summary in `language`, a blank line, then the text of `error`.
fn explained_gui_error(
    language: UiLanguage,
    english: &'static str,
    korean: &'static str,
    error: &GuiError,
) -> (r: String)
    ensures
        r@ == explained(
            language,
            english@,
            korean@,
            gui_error_text(error@, gui_error_path_text(*error)),
        ),
{
    let text = error.message();
    explanation(language, english, korean, text.as_str())
}

/// The message shown when the form's fields could not be read.
pub fn input_read_failed_message(error: &GuiError, language: UiLanguage) -> (r: UserMessage)
    ensures
        r@.title == localized_text(language, "Input Error"@, "입력 오류"@),
        r@.icon == MessageIcon::Error,
        r@.body == explained(
                language,
                "The input values could not be read."@,
                "입력값을 읽을 수 없습니다."@,
                gui_error_text(error@, gui_error_path_text(*error)),
            ),
{
    UserMessage::error(
        localized(language, "Input Error", "입력 오류"),
        explained_gui_error(
            language,
            "The input values could not be read.",
            "입력값을 읽을 수 없습니다.",
            error,
        ),
    )
}

/// What pressing Print makes of the form's fields (`input`, or the error reading them), in
/// `language`: the validated job, or the message to show instead.
pub fn print_request_from_input(input: Result<PrintJobInput, GuiError>, language: UiLanguage) -> (r:
    Result<PrintJob, UserMessage>)
    ensures
        match input {
            Err(g) => r matches Err(m) && m@.title == localized_text(
                language,
                "Input Error"@,
                "입력 오류"@,
            ),
            Ok(i) => match input_error(i) {
                Some(e) => r matches Err(m) && m@ == app_error_message(
                    e,
                    language,
                    app_error_text(e, Seq::empty()),
                ),
                None => r matches Ok(job) && job_from_input(i, job),
            },
        },
{
    match input {
        Err(error) => Err(input_read_failed_message(&error, language)),
        Ok(input) => match build_print_job(input) {
            Ok(job) => Ok(job),
            Err(error) => Err(user_message_for_app_error(&error, language)),
        },
    }
}

/// The message shown when the print worker could not be started for the reason `details`.
pub fn worker_start_failed_message(details: String, language: UiLanguage) -> (r: UserMessage)
    ensures
        r@ == (UserMessageView {
            title: localized_text(language, "Print Failed"@, "출력 실패"@),
            body: explained(
                language,
                "The print worker could not be started."@,
                "출력 작업을 시작할 수 없습니다."@,
                "failed to start print worker: "@ + details@,
            ),
            icon: MessageIcon::Error,
        }),
{
    let error = GuiError::WorkerStartFailed { details };
    let text = error.message();
    UserMessage::error(
        localized(language, "Print Failed", "출력 실패"),
        explanation(
            language,
            "The print worker could not be started.",
            "출력 작업을 시작할 수 없습니다.",
            text.as_str(),
        ),
    )
}

/// What a selector could not be read for.
#[derive(Debug, Clone, Copy, PartialEq, Eq, Structural)]
pub enum SelectionKind {
    Theme,
    Language,
}

/// The message shown when the chosen theme or language could not be read from its selector.
pub fn selection_read_failed_message(kind: SelectionKind, error: &GuiError, language: UiLanguage) -> (r:
    UserMessage)
    ensures
        r@.title == match kind {
            SelectionKind::Theme => localized_text(language, "Theme Error"@, "테마 오류"@),
            SelectionKind::Language => localized_text(language, "Language Error"@, "언어 오류"@),
        },
        r@.icon == MessageIcon::Error,
        r@.body == match kind {
                SelectionKind::Theme => explained(
                    language,
                    "The selected theme could not be read."@,
                    "선택한 테마를 읽을 수 없습니다."@,
                    gui_error_text(error@, gui_error_path_text(*error)),
                ),
                SelectionKind::Language => explained(
                    language,
                    "The selected language could not be read."@,
                    "선택한 언어를 읽을 수 없습니다."@,
                    gui_error_text(error@, gui_error_path_text(*error)),
                ),
            },
{
    match kind {
        SelectionKind::Theme => UserMessage::error(
            localized(language, "Theme Error", "테마 오류"),
            explained_gui_error(
                language,
                "The selected theme could not be read.",
                "선택한 테마를 읽을 수 없습니다.",
                error,
            ),
        ),
        SelectionKind::Language => UserMessage::error(
            localized(language, "Language Error", "언어 오류"),
            explained_gui_error(
                language,
                "The selected language could not be read.",
                "선택한 언어를 읽을 수 없습니다.",
                error,
            ),
        ),
    }
}

/// The message shown when the project link could not be opened, from the main window or (with
/// `from_about_window`) from the About window.
pub fn link_open_failed_message(error: &GuiError, language: UiLanguage, from_about_window: bool) -> (r:
    UserMessage)
    ensures
        r@.title == localized_text(language, "Link Error"@, "링크 오류"@),
        r@.icon == MessageIcon::Error,
        r@.body == if from_about_window {
                explained(
                    language,
                    "The project URL could not be opened."@,
                    "프로젝트 URL을 열 수 없습니다."@,
                    gui_error_text(error@, gui_error_path_text(*error)),
                )
            } else {
                explained(
                    language,
                    "The project link could not be opened."@,
                    "프로젝트 링크를 열 수 없습니다."@,
                    gui_error_text(error@, gui_error_path_text(*error)),
                )
            },
{
    let body = if from_about_window {
        explained_gui_error(
            language,
            "The project URL could not be opened.",
            "프로젝트 URL을 열 수 없습니다.",
            error,
        )
    } else {
        explained_gui_error(
            language,
            "The project link could not be opened.",
            "프로젝트 링크를 열 수 없습니다.",
            error,
        )
    };
    UserMessage::error(localized(language, "Link Error", "링크 오류"), body)
}

/// What a print completion does.
#[derive(Debug, Clone, Copy, PartialEq, Eq, Structural)]
pub enum PrintCompletionAction {
    /// Collect the worker's result and show it.
    JoinWorker,
    /// Show that the worker's state was lost.
    ReportMissingWorker,
    /// Nothing is pending.
    Ignore,
}

/// What a print completion does: join a worker that exists; without one, report the loss if a
/// print was running, else ignore the completion.
pub fn print_completion_action(has_worker_handle: bool, worker_was_running: bool) -> (r:
    PrintCompletionAction)
    ensures
        r == (if has_worker_handle {
            PrintCompletionAction::JoinWorker
        } else if worker_was_running {
            PrintCompletionAction::ReportMissingWorker
        } else {
            PrintCompletionAction::Ignore
        }),
{
    if has_worker_handle {
        PrintCompletionAction::JoinWorker
    } else if worker_was_running {
        PrintCompletionAction::ReportMissingWorker
    } else {
        PrintCompletionAction::Ignore
    }
}

/// The report when a print completed but its worker's state was lost, in `language`.
pub fn missing_worker_result(language: UiLanguage) -> (r: WorkerResult)
    ensures
        r.message@ == (UserMessageView {
            title: localized_text(language, "Print Failed"@, "출력 실패"@),
            body: localized_text(
                language,
                "The print worker state could not be read."@,
                "출력 작업 상태를 읽을 수 없습니다."@,
            ),
            icon: MessageIcon::Error,
        }),
{
    WorkerResult {
        message: UserMessage::error(
            localized(language, "Print Failed", "출력 실패"),
            localized(
                language,
                "The print worker state could not be read.",
                "출력 작업 상태를 읽을 수 없습니다.",
            ).to_owned(),
        ),
    }
}

} // verus!
