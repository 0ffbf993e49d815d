use std::{cell::RefCell, path::PathBuf, rc::Rc};

use j3ecs_netprint::domain::{
    AppSettings, DomainError, NetworkPrinterTarget, PrintJob, PrintSettings,
    RenderedReceiptImage, TextImageLayout, UiLanguage, UiTheme,
};
use j3ecs_netprint::printer::{EscPosPrinter, InfraError, TextImageRenderer};
use j3ecs_netprint::settings::SettingsFileError;
use j3ecs_netprint::workflow::{
    build_print_job, execute_print_job, image_to_send, print_outcome, AppError, AppState,
    InputValidationError, PrintJobInput,
};

fn valid_input() -> PrintJobInput {
    PrintJobInput {
        text: "hello\nworld".to_owned(),
        ..PrintJobInput::default()
    }
}

#[test]
fn build_print_job_uses_python_defaults() {
    let job = build_print_job(valid_input()).expect("default input should build");

    assert_eq!(job.settings.printer.ip, "192.168.0.1");
    assert_eq!(job.settings.printer.port, 9100);
    assert_eq!(job.settings.layout.font_size_px, 42);
    assert_eq!(job.settings.layout.paper_width_px, 576);
    assert_eq!(job.settings.layout.margin_px, 10);
    assert_eq!(job.settings.layout.safe_width_px(), Some(556));
    assert_eq!(job.settings.layout.font_face_name, "Malgun Gothic");
    assert_eq!(job.text, "hello\nworld");
}

#[test]
fn default_app_state_ui_preferences_are_light_theme_and_english_language() {
    assert_eq!(AppSettings::default().ui.theme, UiTheme::Light);
    assert_eq!(AppSettings::default().ui.language, UiLanguage::English);
}

#[test]
fn print_job_input_from_settings_uses_settings_without_text() {
    let settings = PrintSettings {
        printer: NetworkPrinterTarget {
            ip: "127.0.0.1".to_owned(),
            port: 9101,
        },
        layout: TextImageLayout {
            font_size_px: 36,
            paper_width_px: 384,
            margin_px: 12,
            font_face_name: "Arial".to_owned(),
        },
    };

    let input = PrintJobInput::from_settings(&settings);

    assert_eq!(input.printer_ip, "127.0.0.1");
    assert_eq!(input.printer_port, "9101");
    assert_eq!(input.font_size_px, "36");
    assert_eq!(input.paper_width_px, "384");
    assert_eq!(input.font_face_name, "Arial");
    assert_eq!(input.text, "");
}

#[test]
fn build_print_job_rejects_empty_text_before_numeric_fields() {
    let input = PrintJobInput {
        text: " \n\t ".to_owned(),
        printer_port: "not-a-port".to_owned(),
        ..valid_input()
    };

    assert_eq!(
        build_print_job(input),
        Err(AppError::Domain(DomainError::EmptyText))
    );
}

#[test]
fn build_print_job_rejects_empty_font_face_name() {
    let input = PrintJobInput {
        font_face_name: "   ".to_owned(),
        ..valid_input()
    };

    assert_eq!(
        build_print_job(input),
        Err(AppError::Domain(DomainError::EmptyFontFaceName))
    );
}

#[test]
fn build_print_job_rejects_non_numeric_port() {
    assert_eq!(
        build_print_job(PrintJobInput {
            printer_port: "not-a-port".to_owned(),
            ..valid_input()
        }),
        Err(AppError::Input(
            InputValidationError::NumericFieldsMustBeNumbers
        ))
    );
}

#[test]
fn build_print_job_rejects_non_numeric_font_size() {
    assert_eq!(
        build_print_job(PrintJobInput {
            font_size_px: "large".to_owned(),
            ..valid_input()
        }),
        Err(AppError::Input(
            InputValidationError::NumericFieldsMustBeNumbers
        ))
    );
}

#[test]
fn build_print_job_rejects_non_numeric_paper_width() {
    assert_eq!(
        build_print_job(PrintJobInput {
            paper_width_px: "wide".to_owned(),
            ..valid_input()
        }),
        Err(AppError::Input(
            InputValidationError::NumericFieldsMustBeNumbers
        ))
    );
}

#[test]
fn build_print_job_rejects_font_size_below_minimum() {
    let input = PrintJobInput {
        font_size_px: "4".to_owned(),
        ..valid_input()
    };

    assert_eq!(
        build_print_job(input),
        Err(AppError::Domain(DomainError::FontSizeTooSmall {
            min_px: 5,
            actual_px: 4,
        }))
    );
}

#[test]
fn build_print_job_rejects_paper_width_below_minimum() {
    let input = PrintJobInput {
        paper_width_px: "99".to_owned(),
        ..valid_input()
    };

    assert_eq!(
        build_print_job(input),
        Err(AppError::Domain(DomainError::PaperWidthTooSmall {
            min_px: 100,
            actual_px: 99,
        }))
    );
}

#[test]
fn build_print_job_accepts_minimum_font_size_and_paper_width() {
    let job = build_print_job(PrintJobInput {
        font_size_px: "5".to_owned(),
        paper_width_px: "100".to_owned(),
        ..valid_input()
    })
    .expect("minimum valid font size and paper width should build");

    assert_eq!(job.settings.layout.font_size_px, 5);
    assert_eq!(job.settings.layout.paper_width_px, 100);
    assert_eq!(job.settings.layout.safe_width_px(), Some(80));
}

struct RecordingRenderer {
    events: Rc<RefCell<Vec<&'static str>>>,
    image: RenderedReceiptImage,
}

impl TextImageRenderer for RecordingRenderer {
    fn render_text(&self, job: &PrintJob) -> Result<RenderedReceiptImage, InfraError> {
        self.events.borrow_mut().push("render");
        assert_eq!(job.text, "hello\nworld");

        Ok(self.image.clone())
    }
}

struct RecordingPrinter {
    events: Rc<RefCell<Vec<&'static str>>>,
    captured: RefCell<Option<(NetworkPrinterTarget, RenderedReceiptImage)>>,
}

impl EscPosPrinter for RecordingPrinter {
    fn send_image_and_cut(
        &self,
        target: &NetworkPrinterTarget,
        image: &RenderedReceiptImage,
    ) -> Result<(), InfraError> {
        self.events.borrow_mut().push("send");
        self.captured
            .borrow_mut()
            .replace((target.clone(), image.clone()));

        Ok(())
    }
}

#[test]
fn execute_print_job_renders_then_sends_image_to_configured_printer() {
    let job = build_print_job(valid_input()).expect("valid input should build");
    let events = Rc::new(RefCell::new(Vec::new()));
    let image = RenderedReceiptImage {
        width_px: 2,
        height_px: 1,
        rgb_pixels: vec![255, 255, 255, 0, 0, 0],
    };
    let renderer = RecordingRenderer {
        events: Rc::clone(&events),
        image: image.clone(),
    };
    let printer = RecordingPrinter {
        events: Rc::clone(&events),
        captured: RefCell::new(None),
    };

    execute_print_job(&job, &renderer, &printer).expect("print workflow should execute");

    assert_eq!(*events.borrow(), vec!["render", "send"]);
    assert_eq!(
        *printer.captured.borrow(),
        Some((job.settings.printer.clone(), image))
    );
}

struct FailingRenderer;

impl TextImageRenderer for FailingRenderer {
    fn render_text(&self, _job: &PrintJob) -> Result<RenderedReceiptImage, InfraError> {
        Err(InfraError::text_rendering("no font".to_owned()))
    }
}

#[test]
fn execute_print_job_stops_before_sending_when_rendering_fails() {
    let job = build_print_job(valid_input()).expect("valid input should build");
    let events = Rc::new(RefCell::new(Vec::new()));
    let printer = RecordingPrinter {
        events: Rc::clone(&events),
        captured: RefCell::new(None),
    };

    assert_eq!(
        execute_print_job(&job, &FailingRenderer, &printer),
        Err(AppError::Infra(InfraError::TextRendering {
            details: "no font".to_owned()
        }))
    );
    assert!(events.borrow().is_empty());
}

#[test]
fn build_print_job_trims_fields_and_reads_numbers_like_parse() {
    let job = build_print_job(PrintJobInput {
        printer_ip: "  10.1.2.3 ".to_owned(),
        printer_port: " +9101 ".to_owned(),
        font_size_px: "036".to_owned(),
        paper_width_px: "\t384\n".to_owned(),
        font_face_name: " Arial ".to_owned(),
        text: "  body  ".to_owned(),
    })
    .expect("input should build");

    assert_eq!(job.settings.printer.ip, "10.1.2.3");
    assert_eq!(job.settings.printer.port, 9101);
    assert_eq!(job.settings.layout.font_size_px, 36);
    assert_eq!(job.settings.layout.paper_width_px, 384);
    assert_eq!(job.settings.layout.font_face_name, "Arial");
    assert_eq!(job.text, "body");

    for port in ["65536", "-1", "", "+", "9 100"] {
        assert_eq!(
            build_print_job(PrintJobInput {
                printer_port: port.to_owned(),
                ..valid_input()
            }),
            Err(AppError::Input(
                InputValidationError::NumericFieldsMustBeNumbers
            )),
            "{port}"
        );
    }
    assert_eq!(
        build_print_job(PrintJobInput {
            printer_port: "0".to_owned(),
            ..valid_input()
        }),
        Err(AppError::Domain(DomainError::InvalidPrinterPort { value: 0 }))
    );
}

#[test]
fn app_state_bootstrap_validates_loaded_settings() {
    let path = PathBuf::from("settings.toml");
    let state = AppState::bootstrap(path.clone(), Ok(AppSettings::default()))
        .expect("default settings should bootstrap");
    assert_eq!(state.app_settings(), &AppSettings::default());
    assert_eq!(state.default_settings(), &PrintSettings::default());
    assert_eq!(state.ui_theme(), UiTheme::Light);
    assert_eq!(state.ui_language(), UiLanguage::English);
    assert_eq!(state.settings_file_path(), &path);
    assert_eq!(state.owner_window().raw(), 0);
    assert_eq!(state.owner_window().describe(), "none");

    let mut bad = AppSettings::default();
    bad.print.printer.port = 0;
    assert_eq!(
        AppState::bootstrap(path.clone(), Ok(bad)).err(),
        Some(AppError::Domain(DomainError::InvalidPrinterPort { value: 0 }))
    );

    let read_error = SettingsFileError::Read {
        path: path.clone(),
        details: "denied".to_owned(),
    };
    assert_eq!(
        AppState::bootstrap(path, Err(read_error.clone())).err(),
        Some(AppError::Settings(read_error))
    );
}

#[test]
fn app_error_messages_are_those_of_the_inner_errors() {
    assert_eq!(
        AppError::Input(InputValidationError::NumericFieldsMustBeNumbers).message(),
        "printer port, font size, and paper width must be numeric"
    );
    assert_eq!(
        AppError::Domain(DomainError::EmptyText).message(),
        "print text must not be empty"
    );
    assert_eq!(AppError::Ui("window gone".to_owned()).message(), "window gone");
    assert_eq!(
        AppError::from(DomainError::EmptyFontFaceName),
        AppError::Domain(DomainError::EmptyFontFaceName)
    );
}

#[test]
fn workflow_answers_become_application_results() {
    let image = RenderedReceiptImage {
        width_px: 1,
        height_px: 1,
        rgb_pixels: vec![0, 0, 0],
    };
    assert_eq!(image_to_send(Ok(image.clone())), Ok(image));
    assert_eq!(
        image_to_send(Err(InfraError::UnsupportedPlatform("rendering"))),
        Err(AppError::Infra(InfraError::UnsupportedPlatform("rendering")))
    );
    assert_eq!(print_outcome(Ok(())), Ok(()));
    assert_eq!(
        print_outcome(Err(InfraError::UnsupportedPlatform("printing"))),
        Err(AppError::Infra(InfraError::UnsupportedPlatform("printing")))
    );
}

#[test]
fn form_filled_from_settings_gives_back_those_settings() {
    let settings = PrintSettings::default();
    let input = PrintJobInput {
        text: "  hello \n".to_owned(),
        ..PrintJobInput::from_settings(&settings)
    };
    let job = input.into_print_job().expect("settings should make a valid form");

    assert_eq!(job.settings, settings);
    assert_eq!(job.text, "hello");
}
