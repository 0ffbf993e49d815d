use j3ecs_netprint::domain::{DomainError, UiLanguage, UiTheme};
use j3ecs_netprint::escpos::EscPosEncodingError;
use j3ecs_netprint::gui::{
    about_body_edit_rect, about_text_path_for_executable, about_window_content, first_nul_or_buffer_len, hiword, loword,
    normalize_font_face_name, print_button_rect, program_version_text, rgb,
    settings_panel_layout, settings_toggle_button_label, shell_execute_open_succeeded,
    text_edit_collapsed_rect, text_edit_expanded_rect, text_group_collapsed_rect,
    text_group_expanded_rect, toggled_settings_panel_visibility, ui_language_from_label,
    ui_language_label, ui_text, ui_theme_from_label, ui_theme_label, user_message_for_app_error,
    user_message_for_gui_error, win32_edit_multiline_text, worker_completion_poll_action,
    worker_completion_post_state, worker_panicked_result, worker_result_from_app_result,
    GuiError, MessageIcon, PrintWorkflowState, SettingsPanelLayout, WorkerCompletionPollAction,
    WorkerCompletionPostState, ABOUT_BODY_FONT_FACE_NAME, ABOUT_BODY_FONT_HEIGHT_PX,
    ABOUT_TEXT_FILE, ABOUT_WINDOW_HEIGHT, ABOUT_WINDOW_WIDTH, APP_ICON_RESOURCE_ID, APP_NAME,
    APP_VERSION, DEFAULT_ABOUT_TEXT, PROJECT_LINK_LABEL, PROJECT_LINK_URL,
    TEXT_EDIT_FONT_FACE_NAME, TEXT_EDIT_FONT_HEIGHT_PX, WINDOW_TITLE,
};
use j3ecs_netprint::gui::{
    link_open_failed_message, missing_worker_result, print_completion_action,
    selection_read_failed_message, window_state_unavailable_message, worker_start_failed_message,
    PrintCompletionAction, SelectionKind,
};
use j3ecs_netprint::printer::InfraError;
use j3ecs_netprint::workflow::{AppError, InputValidationError, PrintJobInput};

#[test]
fn gui_contract_matches_python_window_and_defaults() {
    let defaults = PrintJobInput::default();
    let english = ui_text(UiLanguage::English);
    let korean = ui_text(UiLanguage::Korean);

    assert_eq!(WINDOW_TITLE, "ESC/POS Printer Text to Image");
    assert_eq!(APP_ICON_RESOURCE_ID, 1);
    assert_eq!(english.settings_group_label, "Printer and Font Settings");
    assert_eq!(english.text_group_label, "Print Text");
    assert_eq!(
        [
            english.ip_label,
            english.port_label,
            english.font_size_label,
            english.paper_width_label,
            english.font_face_label,
            english.theme_label,
            english.language_label
        ],
        [
            "IP/Host:",
            "Port:",
            "Font Size:",
            "Paper Width:",
            "Font:",
            "Theme:",
            "Language:"
        ]
    );
    assert_eq!(ui_theme_label(UiTheme::Light, UiLanguage::English), "Light");
    assert_eq!(ui_theme_label(UiTheme::Dark, UiLanguage::English), "Dark");
    assert_eq!(
        ui_language_label(UiLanguage::English, UiLanguage::English),
        "English"
    );
    assert_eq!(
        ui_language_label(UiLanguage::Korean, UiLanguage::English),
        "Korean"
    );
    assert_eq!(english.settings_hide_button_label, "Hide Settings");
    assert_eq!(english.settings_show_button_label, "Show Settings");
    assert_eq!(english.version_label, "Version");
    assert_eq!(english.about_link_label, "About");
    assert_eq!(english.print_button_label, "Convert to Image and Print");
    assert_eq!(
        program_version_text(&english),
        format!("Version {APP_VERSION}")
    );
    assert_eq!(PROJECT_LINK_LABEL, "edgarp9/j3Ecs_NetPrint");
    assert_eq!(
        PROJECT_LINK_URL,
        "https://github.com/edgarp9/j3Ecs_NetPrint"
    );
    assert_eq!(korean.settings_group_label, "프린터 및 폰트 설정");
    assert_eq!(korean.text_group_label, "출력할 내용");
    assert_eq!(korean.version_label, "버전");
    assert_eq!(korean.about_link_label, "정보");
    assert_eq!(program_version_text(&korean), format!("버전 {APP_VERSION}"));
    assert_eq!(ui_theme_label(UiTheme::Light, UiLanguage::Korean), "라이트");
    assert_eq!(ui_theme_label(UiTheme::Dark, UiLanguage::Korean), "다크");
    assert_eq!(ui_theme_from_label("라이트"), Some(UiTheme::Light));
    assert_eq!(ui_theme_from_label("다크"), Some(UiTheme::Dark));
    assert_eq!(
        ui_language_label(UiLanguage::English, UiLanguage::Korean),
        "영어"
    );
    assert_eq!(
        ui_language_label(UiLanguage::Korean, UiLanguage::Korean),
        "한글"
    );
    assert_eq!(ui_language_from_label("English"), Some(UiLanguage::English));
    assert_eq!(ui_language_from_label("영어"), Some(UiLanguage::English));
    assert_eq!(ui_language_from_label("Korean"), Some(UiLanguage::Korean));
    assert_eq!(ui_language_from_label("한글"), Some(UiLanguage::Korean));
    assert_eq!(TEXT_EDIT_FONT_FACE_NAME, "Malgun Gothic");
    assert_eq!(TEXT_EDIT_FONT_HEIGHT_PX, 16);
    assert_eq!(ABOUT_BODY_FONT_FACE_NAME, "Consolas");
    assert_eq!(ABOUT_BODY_FONT_HEIGHT_PX, 14);
    assert_eq!(ABOUT_TEXT_FILE, "about.txt");
    assert!(DEFAULT_ABOUT_TEXT.contains("GPL-3.0-or-later"));
    assert!(DEFAULT_ABOUT_TEXT.contains("LICENSE"));
    assert!(DEFAULT_ABOUT_TEXT.contains("THIRD_PARTY_NOTICES.txt"));
    assert_eq!(defaults.printer_ip, "192.168.0.1");
    assert_eq!(defaults.printer_port, "9100");
    assert_eq!(defaults.font_size_px, "42");
    assert_eq!(defaults.paper_width_px, "576");
    assert_eq!(defaults.font_face_name, "Malgun Gothic");
}

#[test]
fn about_window_content_matches_required_dialog_contract() {
    assert_eq!(ABOUT_WINDOW_WIDTH, 620);
    assert_eq!(ABOUT_WINDOW_HEIGHT, 430);
    assert_eq!(about_body_edit_rect().height, 298);

    let content = about_window_content(None);
    assert_eq!(content.title, "About j3Ecs NetPrint");
    assert_eq!(content.version_label, format!("{APP_NAME} {APP_VERSION}"));
    assert_eq!(content.project_url, PROJECT_LINK_URL);
    assert_eq!(content.ok_label, "OK");
    assert!(content.body_text.contains("j3Ecs NetPrint"));
    assert!(content.body_text.contains("Version: 0.2.0"));
    assert!(content.body_text.contains("GPL-3.0-or-later"));
    assert!(content.body_text.contains("WARRANTY"));
    assert!(content.body_text.contains("Full license text:\nLICENSE"));
    assert!(content.body_text.contains(PROJECT_LINK_URL));
    assert!(content.body_text.contains("THIRD_PARTY_NOTICES.txt"));
    assert!(content
        .body_text
        .contains("RUST_STANDARD_LIBRARY_NOTICES.html"));
}

#[test]
fn about_window_content_uses_text_found_next_to_program() {
    let content = about_window_content(Some("disk about text".to_owned()));
    assert_eq!(content.body_text, "disk about text");
}

#[test]
fn win32_edit_multiline_text_uses_crlf_line_endings() {
    assert_eq!(
        win32_edit_multiline_text("Project\nLibrary\r\nLicense\rNotice"),
        "Project\r\nLibrary\r\nLicense\r\nNotice"
    );

    let content = about_window_content(None);
    let edit_text = win32_edit_multiline_text(&content.body_text);
    assert!(edit_text.contains("j3Ecs NetPrint\r\n\r\nVersion"));
    assert!(edit_text.contains("Full license text:\r\nLICENSE"));
    assert!(!edit_text.contains("j3Ecs NetPrintVersion"));
}

#[test]
fn win32_edit_multiline_text_handles_runs_of_breaks() {
    assert_eq!(win32_edit_multiline_text("\r\r\n\n"), "\r\n\r\n\r\n");
    assert_eq!(win32_edit_multiline_text(""), "");
}

#[test]
fn workflow_state_controls_print_button_contract() {
    let english = ui_text(UiLanguage::English);
    let korean = ui_text(UiLanguage::Korean);

    assert_eq!(PrintWorkflowState::Idle.print_button_enabled(), 1);
    assert_eq!(
        PrintWorkflowState::Idle.print_button_label(&english),
        "Convert to Image and Print"
    );
    assert_eq!(
        PrintWorkflowState::Idle.print_button_label(&korean),
        "이미지로 변환 및 출력"
    );
    assert!(!PrintWorkflowState::Idle.is_worker_running());

    assert_eq!(PrintWorkflowState::WorkerRunning.print_button_enabled(), 0);
    assert_eq!(
        PrintWorkflowState::WorkerRunning.print_button_label(&english),
        "Printing..."
    );
    assert_eq!(
        PrintWorkflowState::WorkerRunning.print_button_label(&korean),
        "출력 중..."
    );
    assert!(PrintWorkflowState::WorkerRunning.is_worker_running());
}

#[test]
fn settings_panel_toggle_contract() {
    let english = ui_text(UiLanguage::English);
    let korean = ui_text(UiLanguage::Korean);
    let expanded_layout = settings_panel_layout(true);
    let collapsed_layout = settings_panel_layout(false);

    assert!(!toggled_settings_panel_visibility(true));
    assert!(toggled_settings_panel_visibility(false));
    assert_eq!(settings_toggle_button_label(true, &english), "Hide Settings");
    assert_eq!(
        settings_toggle_button_label(false, &english),
        "Show Settings"
    );
    assert_eq!(settings_toggle_button_label(true, &korean), "설정 숨기기");
    assert_eq!(settings_toggle_button_label(false, &korean), "설정 보이기");
    assert_eq!(
        expanded_layout,
        SettingsPanelLayout {
            text_group: text_group_expanded_rect(),
            text_edit: text_edit_expanded_rect(),
        }
    );
    assert_eq!(
        collapsed_layout,
        SettingsPanelLayout {
            text_group: text_group_collapsed_rect(),
            text_edit: text_edit_collapsed_rect(),
        }
    );
    assert!(collapsed_layout.text_group.y < expanded_layout.text_group.y);
    assert!(collapsed_layout.text_edit.height > expanded_layout.text_edit.height);
    assert!(expanded_layout.text_group.y + expanded_layout.text_group.height < print_button_rect().y);
}

#[test]
fn shell_execute_open_success_contract_matches_windows_api() {
    assert!(!shell_execute_open_succeeded(0));
    assert!(!shell_execute_open_succeeded(32));
    assert!(shell_execute_open_succeeded(33));
}

#[test]
fn failed_completion_post_uses_poll_fallback_contract() {
    assert_eq!(
        worker_completion_post_state(0),
        WorkerCompletionPostState::FallbackPending
    );
    assert_eq!(
        worker_completion_post_state(1),
        WorkerCompletionPostState::Posted
    );
}

#[test]
fn worker_completion_poll_completes_only_finished_workers() {
    assert_eq!(
        worker_completion_poll_action(true, false),
        WorkerCompletionPollAction::Wait
    );
    assert_eq!(
        worker_completion_poll_action(true, true),
        WorkerCompletionPollAction::Complete
    );
    assert_eq!(
        worker_completion_poll_action(false, true),
        WorkerCompletionPollAction::Stop
    );
    assert_eq!(
        worker_completion_poll_action(false, false),
        WorkerCompletionPollAction::Stop
    );
}

fn assert_user_message(
    error: AppError,
    language: UiLanguage,
    expected_title: &str,
    expected_body: &str,
) {
    let message = user_message_for_app_error(&error, language);

    assert_eq!(message.title, expected_title);
    assert_eq!(message.body, expected_body);
}

#[test]
fn user_messages_cover_required_korean_validation_errors() {
    assert_user_message(
        AppError::Domain(DomainError::EmptyText),
        UiLanguage::Korean,
        "경고",
        "출력할 내용을 입력해주세요.",
    );
    assert_user_message(
        AppError::Domain(DomainError::EmptyFontFaceName),
        UiLanguage::Korean,
        "경고",
        "폰트를 선택해주세요.",
    );
    assert_user_message(
        AppError::Input(InputValidationError::NumericFieldsMustBeNumbers),
        UiLanguage::Korean,
        "입력 오류",
        "포트, 폰트 크기, 용지 폭은 숫자여야 합니다.",
    );
}

#[test]
fn user_messages_cover_required_english_validation_errors() {
    assert_user_message(
        AppError::Domain(DomainError::EmptyText),
        UiLanguage::English,
        "Warning",
        "Enter text to print.",
    );
    assert_user_message(
        AppError::Domain(DomainError::EmptyFontFaceName),
        UiLanguage::English,
        "Warning",
        "Select a font.",
    );
    assert_user_message(
        AppError::Input(InputValidationError::NumericFieldsMustBeNumbers),
        UiLanguage::English,
        "Input Error",
        "Port, font size, and paper width must be numbers.",
    );
}

#[test]
fn user_messages_cover_required_korean_runtime_errors() {
    let font_message = user_message_for_app_error(
        &AppError::Infra(InfraError::TextRendering {
            details: "failed to select installed font face: requested=Missing, selected=Arial"
                .to_owned(),
        }),
        UiLanguage::Korean,
    );
    assert_eq!(font_message.title, "폰트 오류");
    assert!(font_message.body.contains("폰트를 사용할 수 없습니다."));

    let output_message = user_message_for_app_error(
        &AppError::Infra(InfraError::NetworkIo {
            target: "127.0.0.1:9100".to_owned(),
            operation: "connect",
            details: "connection refused".to_owned(),
        }),
        UiLanguage::Korean,
    );
    assert_eq!(output_message.title, "출력 실패");
    assert!(output_message
        .body
        .contains("프린터 통신 중 오류가 발생했습니다."));

    let encoding_message = user_message_for_app_error(
        &AppError::Infra(InfraError::EscPosEncoding(
            EscPosEncodingError::InvalidImageDimensions {
                width_px: 0,
                height_px: 1,
            },
        )),
        UiLanguage::Korean,
    );
    assert_eq!(encoding_message.title, "출력 실패");
    assert!(encoding_message
        .body
        .contains("ESC/POS 출력 데이터 생성 중 오류가 발생했습니다."));
}

#[test]
fn user_messages_cover_required_english_runtime_errors() {
    let font_message = user_message_for_app_error(
        &AppError::Infra(InfraError::TextRendering {
            details: "failed to select installed font face: requested=Missing, selected=Arial"
                .to_owned(),
        }),
        UiLanguage::English,
    );
    assert_eq!(font_message.title, "Font Error");
    assert!(font_message
        .body
        .contains("The selected font cannot be used."));

    let output_message = user_message_for_app_error(
        &AppError::Infra(InfraError::NetworkIo {
            target: "127.0.0.1:9100".to_owned(),
            operation: "connect",
            details: "connection refused".to_owned(),
        }),
        UiLanguage::English,
    );
    assert_eq!(output_message.title, "Print Failed");
    assert!(output_message
        .body
        .contains("An error occurred while communicating with the printer."));

    let encoding_message = user_message_for_app_error(
        &AppError::Infra(InfraError::EscPosEncoding(
            EscPosEncodingError::InvalidImageDimensions {
                width_px: 0,
                height_px: 1,
            },
        )),
        UiLanguage::English,
    );
    assert_eq!(encoding_message.title, "Print Failed");
    assert!(encoding_message
        .body
        .contains("An error occurred while creating ESC/POS output data."));
}

#[test]
fn user_messages_append_the_error_text() {
    let message = user_message_for_app_error(
        &AppError::Infra(InfraError::NetworkIo {
            target: "127.0.0.1:9100".to_owned(),
            operation: "connect",
            details: "connection refused".to_owned(),
        }),
        UiLanguage::English,
    );
    assert_eq!(
        message.body,
        "An error occurred while communicating with the printer.\n\nESC/POS network connect failed for 127.0.0.1:9100: connection refused"
    );
    assert_eq!(message.icon, MessageIcon::Error);

    let image_message = user_message_for_app_error(
        &AppError::Infra(InfraError::TextRendering {
            details: "GdiFlush failed".to_owned(),
        }),
        UiLanguage::English,
    );
    assert_eq!(image_message.title, "Print Failed");
    assert_eq!(
        image_message.body,
        "An error occurred while creating the image.\n\nGdiFlush failed"
    );

    let host_message =
        user_message_for_app_error(&AppError::Domain(DomainError::EmptyPrinterHost), UiLanguage::English);
    assert_eq!(host_message.icon, MessageIcon::Warning);
    assert_eq!(host_message.body, "Enter an IP address or host name.");

    let gui_message = user_message_for_gui_error(
        &GuiError::Win32CallFailed("CreateWindowExW(main)"),
        UiLanguage::Korean,
    );
    assert_eq!(gui_message.title, "오류");
    assert_eq!(gui_message.body, "Win32 call failed: CreateWindowExW(main)");
}

#[test]
fn worker_result_maps_success_to_localized_completion_message() {
    let result = worker_result_from_app_result(Ok(()), UiLanguage::Korean);

    assert_eq!(result.message.title, "성공");
    assert_eq!(result.message.body, "출력이 완료되었습니다.");

    let result = worker_result_from_app_result(Ok(()), UiLanguage::English);

    assert_eq!(result.message.title, "Success");
    assert_eq!(result.message.body, "Printing is complete.");

    let panicked = worker_panicked_result(UiLanguage::English);
    assert_eq!(panicked.message.title, "Print Failed");
    assert_eq!(panicked.message.body, "The print worker exited unexpectedly.");
}

#[test]
fn labels_read_back_as_their_theme_and_language() {
    for display in [UiLanguage::English, UiLanguage::Korean] {
        for theme in [UiTheme::Light, UiTheme::Dark] {
            assert_eq!(ui_theme_from_label(ui_theme_label(theme, display)), Some(theme));
        }
        for language in [UiLanguage::English, UiLanguage::Korean] {
            assert_eq!(
                ui_language_from_label(ui_language_label(language, display)),
                Some(language)
            );
        }
    }
    assert_eq!(ui_language_from_label(" 한국어 "), Some(UiLanguage::Korean));
    assert_eq!(ui_theme_from_label("Sepia"), None);
}

#[test]
fn small_window_helpers() {
    assert_eq!(rgb(0x12, 0x34, 0x56), 0x0056_3412);
    assert_eq!(loword(0x0012_ABCD), 0xABCD);
    assert_eq!(hiword(0x0012_ABCD), 0x0012);
    assert_eq!(first_nul_or_buffer_len(&[65, 66, 0, 67]), 2);
    assert_eq!(first_nul_or_buffer_len(&[65, 66]), 2);
    assert_eq!(normalize_font_face_name("  Malgun GOTHIC "), "malgun gothic");
}

#[test]
fn print_request_reads_the_form_or_explains_why_not() {
    let input = PrintJobInput {
        text: "hello".to_owned(),
        ..PrintJobInput::default()
    };
    let job = j3ecs_netprint::gui::print_request_from_input(Ok(input), UiLanguage::English)
        .expect("valid form should give a job");
    assert_eq!(job.text, "hello");

    let empty = j3ecs_netprint::gui::print_request_from_input(
        Ok(PrintJobInput::default()),
        UiLanguage::Korean,
    )
    .expect_err("empty text should be refused");
    assert_eq!(empty.title, "경고");
    assert_eq!(empty.body, "출력할 내용을 입력해주세요.");

    let unreadable = j3ecs_netprint::gui::print_request_from_input(
        Err(GuiError::WindowTextTooLong { control: "Port" }),
        UiLanguage::English,
    )
    .expect_err("unreadable form should be refused");
    assert_eq!(unreadable.title, "Input Error");
    assert_eq!(
        unreadable.body,
        "The input values could not be read.\n\nwindow text is too long: Port"
    );
}

#[test]
fn handler_messages_name_what_failed() {
    let started = worker_start_failed_message("no threads".to_owned(), UiLanguage::English);
    assert_eq!(started.title, "Print Failed");
    assert_eq!(
        started.body,
        "The print worker could not be started.\n\nfailed to start print worker: no threads"
    );
    let theme = selection_read_failed_message(
        SelectionKind::Theme,
        &GuiError::Win32CallFailed("SendMessageW(CB_GETCURSEL)"),
        UiLanguage::Korean,
    );
    assert_eq!(theme.title, "테마 오류");
    assert_eq!(
        theme.body,
        "선택한 테마를 읽을 수 없습니다.\n\nWin32 call failed: SendMessageW(CB_GETCURSEL)"
    );
    let link = link_open_failed_message(
        &GuiError::Win32CallFailed("ShellExecuteW(open URL)"),
        UiLanguage::English,
        true,
    );
    assert_eq!(link.title, "Link Error");
    assert!(link.body.starts_with("The project URL could not be opened."));
    let missing = window_state_unavailable_message("Print Failed");
    assert_eq!(missing.title, "Print Failed");
    assert_eq!(missing.body, "The window state could not be read.");
    assert_eq!(
        print_completion_action(true, false),
        PrintCompletionAction::JoinWorker
    );
    assert_eq!(
        print_completion_action(false, true),
        PrintCompletionAction::ReportMissingWorker
    );
    assert_eq!(
        print_completion_action(false, false),
        PrintCompletionAction::Ignore
    );
    assert_eq!(
        missing_worker_result(UiLanguage::English).message.body,
        "The print worker state could not be read."
    );
}

#[test]
fn theme_colors_are_the_gdi_values_of_the_palette() {
    assert_eq!(j3ecs_netprint::gui::dark_background_color(), 0x0024_2120);
    assert_eq!(j3ecs_netprint::gui::dark_field_background_color(), 0x0031_2D2B);
    assert_eq!(j3ecs_netprint::gui::dark_button_background_color(), 0x0040_3A37);
    assert_eq!(j3ecs_netprint::gui::dark_text_color(), 0x00F4_F3F1);
    assert_eq!(j3ecs_netprint::gui::link_text_color(UiTheme::Light), 0x00CC_6600);
    assert_eq!(j3ecs_netprint::gui::link_text_color(UiTheme::Dark), 0x00F8_B48A);
}

#[test]
fn about_text_path_is_next_to_executable() {
    let executable_path = std::path::Path::new("release").join("j3ecs-netprint.exe");
    let about_path = about_text_path_for_executable(&executable_path)
        .expect("executable with parent directory should resolve about.txt");

    assert_eq!(about_path, std::path::Path::new("release").join(ABOUT_TEXT_FILE));
    assert_eq!(
        about_text_path_for_executable(std::path::Path::new("j3ecs-netprint.exe")),
        None
    );
}
