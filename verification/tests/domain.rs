use j3ecs_netprint::domain::{
    AppSettings, DomainError, NetworkPrinterTarget, PrintJob, PrintSettings, TextImageLayout,
    UiLanguage, UiTheme, DEFAULT_PRINTER_PORT,
};
use j3ecs_netprint::wrap::{
    try_wrap_text_for_layout, try_wrap_text_to_width, wrap_text_for_layout, wrap_text_to_width,
    FallibleTextWidthMeasurer, TextWidthMeasurer, TextWrapError,
};

struct FakeTextMeasurer {
    default_width_px: u32,
    widths_by_char: &'static [(char, u32)],
}

impl FakeTextMeasurer {
    const fn new(default_width_px: u32, widths_by_char: &'static [(char, u32)]) -> Self {
        Self {
            default_width_px,
            widths_by_char,
        }
    }
}

impl TextWidthMeasurer for FakeTextMeasurer {
    fn measure_text_width_px(&self, text: &str) -> u32 {
        text.chars()
            .map(|character| {
                self.widths_by_char
                    .iter()
                    .find_map(|(candidate, width_px)| {
                        (*candidate == character).then_some(*width_px)
                    })
                    .unwrap_or(self.default_width_px)
            })
            .sum()
    }
}

struct MonospaceWidth(u32);

impl TextWidthMeasurer for MonospaceWidth {
    fn measure_text_width_px(&self, text: &str) -> u32 {
        text.chars().count() as u32 * self.0
    }
}

fn monospace_width(width_px: u32) -> MonospaceWidth {
    MonospaceWidth(width_px)
}

#[test]
fn default_layout_matches_python_safe_width() {
    let layout = TextImageLayout::default();

    assert_eq!(layout.margin_px, 10);
    assert_eq!(layout.paper_width_px, 576);
    assert_eq!(layout.safe_width_px(), Some(556));
}

#[test]
fn default_app_settings_use_light_ui_theme_and_english_language() {
    let settings = AppSettings::default();

    assert_eq!(settings.print, PrintSettings::default());
    assert_eq!(settings.ui.theme, UiTheme::Light);
    assert_eq!(settings.ui.language, UiLanguage::English);
    assert_eq!(settings.validate(), Ok(()));
}

#[test]
fn layout_rejects_empty_font_face_name() {
    let layout = TextImageLayout {
        font_face_name: " \t ".to_owned(),
        ..TextImageLayout::default()
    };

    assert_eq!(layout.validate(), Err(DomainError::EmptyFontFaceName));
}

#[test]
fn printer_target_accepts_ip_literals_and_dns_hostnames() {
    for host in ["127.0.0.1", "::1", "localhost", "receipt-printer.local"] {
        let target = NetworkPrinterTarget {
            ip: host.to_owned(),
            port: DEFAULT_PRINTER_PORT,
        };

        assert_eq!(target.validate(), Ok(()));
    }
}

#[test]
fn printer_target_rejects_empty_or_invalid_hosts() {
    for host in ["", " \t ", "bad host", "-printer.local", "printer-.local"] {
        let target = NetworkPrinterTarget {
            ip: host.to_owned(),
            port: DEFAULT_PRINTER_PORT,
        };

        assert!(matches!(
            target.validate(),
            Err(DomainError::EmptyPrinterHost | DomainError::InvalidPrinterHost { .. })
        ));
    }

    let invalid_ipv4 = NetworkPrinterTarget {
        ip: "999.999.999.999".to_owned(),
        port: DEFAULT_PRINTER_PORT,
    };

    assert_eq!(
        invalid_ipv4.validate(),
        Err(DomainError::InvalidPrinterHost {
            value: "999.999.999.999".to_owned()
        })
    );
}

#[test]
fn wrap_text_moves_candidate_that_exceeds_safe_width_to_next_line() {
    let lines = wrap_text_to_width("abcde", 20, &monospace_width(8));

    assert_eq!(lines, vec!["ab", "cd", "e"]);
}

#[test]
fn wrap_text_keeps_empty_paragraphs() {
    let measurer = FakeTextMeasurer::new(10, &[]);
    let lines = wrap_text_to_width("first\n\nlast\n", 100, &measurer);

    assert_eq!(lines, vec!["first", "", "last", ""]);
}

#[test]
fn wrap_text_matches_python_for_long_korean_and_english_text() {
    let measurer =
        FakeTextMeasurer::new(4, &[('가', 9), ('나', 9), ('다', 9), ('라', 9), ('마', 9)]);
    let lines = wrap_text_to_width("가나다라마abcdef", 20, &measurer);

    assert_eq!(lines, vec!["가나", "다라", "마ab", "cdef"]);
}

#[test]
fn wrap_text_keeps_line_when_candidate_width_is_exactly_safe_width() {
    let layout = TextImageLayout {
        paper_width_px: 120,
        margin_px: 10,
        ..TextImageLayout::default()
    };
    let measurer = FakeTextMeasurer::new(10, &[]);

    let exact_lines =
        wrap_text_for_layout("abcdefghij", &layout, &measurer).expect("layout should be valid");
    let overflow_lines =
        wrap_text_for_layout("abcdefghijk", &layout, &measurer).expect("layout should be valid");

    assert_eq!(layout.safe_width_px(), Some(100));
    assert_eq!(exact_lines, vec!["abcdefghij"]);
    assert_eq!(overflow_lines, vec!["abcdefghij", "k"]);
}

#[test]
fn wrap_text_matches_python_when_single_character_exceeds_safe_width() {
    let measurer = FakeTextMeasurer::new(20, &[]);
    let lines = wrap_text_to_width("가", 10, &measurer);

    assert_eq!(lines, vec!["", "가"]);
}

#[test]
fn wrap_text_for_layout_uses_layout_safe_width() {
    let layout = TextImageLayout {
        paper_width_px: 120,
        margin_px: 10,
        ..TextImageLayout::default()
    };

    let lines = wrap_text_for_layout("abcdef", &layout, &monospace_width(25))
        .expect("layout should be valid");

    assert_eq!(lines, vec!["abcd", "ef"]);
}

#[test]
fn try_wrap_text_for_layout_propagates_measurement_errors() {
    struct FailingMeasurer;

    impl FallibleTextWidthMeasurer for FailingMeasurer {
        type Error = &'static str;

        fn try_measure_text_width_px(&self, _text: &str) -> Result<u32, Self::Error> {
            Err("measurement failed")
        }
    }

    let error = try_wrap_text_for_layout("abc", &TextImageLayout::default(), &FailingMeasurer)
        .expect_err("measurement error should be returned");

    assert_eq!(error, TextWrapError::Measure("measurement failed"));
}

#[test]
fn wrapped_lines_join_back_to_the_text_without_newlines() {
    let measurer = FakeTextMeasurer::new(7, &[('가', 15)]);
    let text = "가나다 abc\n\nxyz 가가가가";
    let lines = wrap_text_to_width(text, 30, &measurer);

    assert_eq!(lines.concat(), text.replace('\n', ""));
    assert!(lines.len() >= text.matches('\n').count() + 1);
    for line in &lines {
        if line.chars().count() >= 2 {
            assert!(measurer.measure_text_width_px(line) <= 30);
        }
    }
}

#[test]
fn try_wrap_text_for_layout_reports_invalid_layout() {
    let layout = TextImageLayout {
        paper_width_px: 120,
        margin_px: 60,
        ..TextImageLayout::default()
    };

    assert_eq!(
        try_wrap_text_for_layout("abc", &layout, &monospace_width(1)),
        Err(TextWrapError::Layout(DomainError::PrintableWidthTooSmall {
            paper_width_px: 120,
            margin_px: 60,
        }))
    );
}

#[test]
fn layout_reports_each_invalid_field() {
    let small_font = TextImageLayout {
        font_size_px: 4,
        ..TextImageLayout::default()
    };
    let narrow_paper = TextImageLayout {
        paper_width_px: 99,
        ..TextImageLayout::default()
    };
    let huge_margin = TextImageLayout {
        margin_px: u32::MAX,
        ..TextImageLayout::default()
    };

    assert_eq!(
        small_font.validate(),
        Err(DomainError::FontSizeTooSmall {
            min_px: 5,
            actual_px: 4
        })
    );
    assert_eq!(
        narrow_paper.validate(),
        Err(DomainError::PaperWidthTooSmall {
            min_px: 100,
            actual_px: 99
        })
    );
    assert_eq!(
        huge_margin.validate(),
        Err(DomainError::PrintableWidthTooSmall {
            paper_width_px: 576,
            margin_px: u32::MAX
        })
    );
    assert_eq!(huge_margin.safe_width_px(), None);
}

#[test]
fn printer_target_rejects_port_zero_and_accepts_ipv6_forms() {
    let zero_port = NetworkPrinterTarget {
        ip: "127.0.0.1".to_owned(),
        port: 0,
    };
    assert_eq!(
        zero_port.validate(),
        Err(DomainError::InvalidPrinterPort { value: 0 })
    );

    for host in ["fe80::1", "2001:db8::8a2e:370:7334", "::ffff:192.168.0.1", " 10.0.0.7 "] {
        let target = NetworkPrinterTarget {
            ip: host.to_owned(),
            port: 9100,
        };
        assert_eq!(target.validate(), Ok(()), "{host}");
    }
    for host in ["1::2::3", "12345::1", "01.2.3.4", "1.2.3", "a..b"] {
        let target = NetworkPrinterTarget {
            ip: host.to_owned(),
            port: 9100,
        };
        assert!(target.validate().is_err(), "{host}");
    }
}

#[test]
fn domain_error_messages_name_the_values() {
    assert_eq!(
        DomainError::FontSizeTooSmall {
            min_px: 5,
            actual_px: 4
        }
        .message(),
        "font size is too small: expected at least 5px, got 4px"
    );
    assert_eq!(
        DomainError::InvalidPrinterPort { value: 0 }.message(),
        "printer port must be between 1 and 65535: 0"
    );
    assert_eq!(
        DomainError::PrintableWidthTooSmall {
            paper_width_px: 120,
            margin_px: 60
        }
        .message(),
        "paper width 120px is too small for 60px margins"
    );
    assert_eq!(
        NetworkPrinterTarget {
            ip: "10.0.0.7".to_owned(),
            port: 9100
        }
        .display_text(),
        "10.0.0.7:9100"
    );
}

#[test]
fn print_job_trims_text_and_rejects_empty_text() {
    let job = PrintJob::new(PrintSettings::default(), "  hello \n").expect("valid job");
    assert_eq!(job.text, "hello");
    assert_eq!(
        PrintJob::new(PrintSettings::default(), " \n\t "),
        Err(DomainError::EmptyText)
    );
}

#[test]
fn layout_description_names_every_field() {
    assert_eq!(
        TextImageLayout::default().display_text(),
        "font=42px, paper=576px, margin=10px, printable=556px, font_face=Malgun Gothic"
    );
    let broken = TextImageLayout {
        paper_width_px: 10,
        ..TextImageLayout::default()
    };
    assert!(broken.display_text().contains("printable=0px"));
}

#[test]
fn try_wrap_text_to_width_needs_no_measurement_for_newlines_only() {
    struct FailingMeasurer;

    impl FallibleTextWidthMeasurer for FailingMeasurer {
        type Error = &'static str;

        fn try_measure_text_width_px(&self, _text: &str) -> Result<u32, Self::Error> {
            Err("measurement failed")
        }
    }

    assert_eq!(try_wrap_text_to_width("", 10, &FailingMeasurer), Ok(vec![String::new()]));
    assert_eq!(
        try_wrap_text_to_width("\n\n", 10, &FailingMeasurer),
        Ok(vec![String::new(), String::new(), String::new()])
    );
    assert_eq!(
        try_wrap_text_to_width("a", 10, &FailingMeasurer),
        Err("measurement failed")
    );
}

#[test]
fn infallible_measurer_answers_its_width() {
    let measurer = MonospaceWidth(7);
    assert_eq!(measurer.try_measure_text_width_px("abc"), Ok(measurer.measure_text_width_px("abc")));
}
