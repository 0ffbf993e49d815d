use std::path::{Path, PathBuf};

use j3ecs_netprint::domain::{
    AppSettings, NetworkPrinterTarget, PrintSettings, TextImageLayout, UiLanguage, UiSettings,
    UiTheme, DEFAULT_FONT_FACE_NAME, DEFAULT_MARGIN_PX, DEFAULT_PAPER_WIDTH_PX,
    DEFAULT_PRINTER_PORT,
};
use j3ecs_netprint::settings::{
    app_settings_after_read, app_settings_file_contents, app_settings_from_document,
    app_settings_to_toml, ConfigDocument, ConfigItem, ConfigScalar,
    existing_ui_settings_or_default, parse_app_settings_toml, parse_print_settings_toml,
    print_settings_file_contents, print_settings_to_toml, settings_file_path_for_executable,
    settings_write_error, temp_file_step,
    temporary_file_name_suffix, LoadedSettings, SettingsFileError, SettingsFileRead,
    TempFileCreation, TempFileStep,
};

fn sample_print_settings() -> PrintSettings {
    PrintSettings {
        printer: NetworkPrinterTarget {
            ip: "127.0.0.1".to_owned(),
            port: 9101,
        },
        layout: TextImageLayout {
            font_size_px: 36,
            paper_width_px: 384,
            margin_px: 12,
            font_face_name: "Arial".to_owned(),
        },
    }
}

#[test]
fn print_settings_toml_round_trips() {
    let settings = sample_print_settings();

    let contents = print_settings_to_toml(&settings).expect("settings should serialize as TOML");
    let parsed = parse_print_settings_toml(&contents, Path::new("settings.toml"))
        .expect("serialized settings should parse");

    assert_eq!(parsed, settings);
}

#[test]
fn app_settings_toml_round_trips_ui_preferences() {
    let settings = AppSettings {
        print: sample_print_settings(),
        ui: UiSettings {
            theme: UiTheme::Dark,
            language: UiLanguage::Korean,
        },
    };

    let contents = app_settings_to_toml(&settings).expect("settings should serialize as TOML");
    let parsed = parse_app_settings_toml(&contents, Path::new("settings.toml"))
        .expect("serialized settings should parse");

    assert_eq!(parsed, settings);
    assert!(contents.contains("[ui]"));
    assert!(contents.contains("theme = \"dark\""));
    assert!(contents.contains("language = \"korean\""));
}

#[test]
fn parse_print_settings_toml_uses_defaults_for_missing_fields() {
    let settings = parse_print_settings_toml(
        r#"
[printer]
ip = "127.0.0.1"

[layout]
font_size_px = 36
"#,
        Path::new("settings.toml"),
    )
    .expect("partial settings should parse with defaults");

    assert_eq!(settings.printer.ip, "127.0.0.1");
    assert_eq!(settings.printer.port, DEFAULT_PRINTER_PORT);
    assert_eq!(settings.layout.font_size_px, 36);
    assert_eq!(settings.layout.paper_width_px, DEFAULT_PAPER_WIDTH_PX);
    assert_eq!(settings.layout.margin_px, DEFAULT_MARGIN_PX);
    assert_eq!(settings.layout.font_face_name, DEFAULT_FONT_FACE_NAME);
}

#[test]
fn parse_app_settings_toml_uses_default_ui_preferences() {
    let settings = parse_app_settings_toml(
        r#"
[printer]
ip = "127.0.0.1"
"#,
        Path::new("settings.toml"),
    )
    .expect("partial app settings should parse with defaults");

    assert_eq!(settings.ui.theme, UiTheme::Light);
    assert_eq!(settings.ui.language, UiLanguage::English);
}

#[test]
fn parse_app_settings_toml_rejects_unknown_ui_theme() {
    let error = parse_app_settings_toml(
        r#"
[ui]
theme = "sepia"
"#,
        Path::new("settings.toml"),
    )
    .expect_err("unknown UI theme should be rejected");

    assert!(matches!(
        error,
        SettingsFileError::InvalidValue { field, .. } if field == "ui.theme"
    ));
}

#[test]
fn parse_app_settings_toml_rejects_unknown_ui_language() {
    let error = parse_app_settings_toml(
        r#"
[ui]
language = "pirate"
"#,
        Path::new("settings.toml"),
    )
    .expect_err("unknown UI language should be rejected");

    assert!(matches!(
        error,
        SettingsFileError::InvalidValue { field, .. } if field == "ui.language"
    ));
}

#[test]
fn parse_print_settings_toml_trims_strings_used_for_io() {
    let settings = parse_print_settings_toml(
        r#"
[printer]
ip = "  127.0.0.1  "

[layout]
font_face_name = "  Arial  "
"#,
        Path::new("settings.toml"),
    )
    .expect("settings with surrounding whitespace should parse");

    assert_eq!(settings.printer.ip, "127.0.0.1");
    assert_eq!(settings.layout.font_face_name, "Arial");
}

#[test]
fn parse_print_settings_toml_ignores_legacy_font_file_names() {
    let settings = parse_print_settings_toml(
        r#"
[layout]
font_file_name = "IM_Hyemin-Bold.ttf"
"#,
        Path::new("settings.toml"),
    )
    .expect("legacy font file setting should fall back to the default system font");

    assert_eq!(settings.layout.font_face_name, DEFAULT_FONT_FACE_NAME);
}

#[test]
fn parse_print_settings_toml_accepts_legacy_font_face_names() {
    let settings = parse_print_settings_toml(
        r#"
[layout]
font_file_name = "Arial"
"#,
        Path::new("settings.toml"),
    )
    .expect("legacy face-name setting should migrate");

    assert_eq!(settings.layout.font_face_name, "Arial");
}

#[test]
fn parse_print_settings_toml_rejects_invalid_field_type() {
    let error = parse_print_settings_toml(
        r#"
[printer]
port = "9100"
"#,
        Path::new("settings.toml"),
    )
    .expect_err("string port should be rejected");

    assert!(matches!(
        error,
        SettingsFileError::InvalidValue { field, .. } if field == "printer.port"
    ));
}

#[test]
fn parse_app_settings_toml_reports_parse_and_validation_errors() {
    let path = Path::new("settings.toml");
    assert!(matches!(
        parse_app_settings_toml("[printer\nip = 1", path),
        Err(SettingsFileError::Parse { .. })
    ));
    assert!(matches!(
        parse_app_settings_toml("[printer]\nport = 70000\n", path),
        Err(SettingsFileError::InvalidValue { field, .. }) if field == "printer.port"
    ));
    assert!(matches!(
        parse_app_settings_toml("printer = 3\n", path),
        Err(SettingsFileError::InvalidValue { field, .. }) if field == "printer"
    ));
    assert_eq!(
        parse_app_settings_toml("[layout]\nfont_size_px = 4\n", path),
        Err(SettingsFileError::InvalidSettings {
            path: PathBuf::from("settings.toml"),
            details: "font size is too small: expected at least 5px, got 4px".to_owned(),
        })
    );
    let ui = parse_app_settings_toml("[ui]\ntheme = \" DARK \"\nlanguage = \"ko\"\n", path)
        .expect("case and surrounding space are ignored");
    assert_eq!(ui.ui.theme, UiTheme::Dark);
    assert_eq!(ui.ui.language, UiLanguage::Korean);
}

#[test]
fn saving_print_settings_keeps_existing_ui_preferences() {
    let path = Path::new("j3ecs-netprint.toml");
    let existing = app_settings_to_toml(&AppSettings {
        print: PrintSettings::default(),
        ui: UiSettings {
            theme: UiTheme::Dark,
            language: UiLanguage::Korean,
        },
    })
    .expect("settings should serialize");
    let print = PrintSettings {
        printer: NetworkPrinterTarget {
            ip: "127.0.0.1".to_owned(),
            port: 9101,
        },
        ..PrintSettings::default()
    };

    let contents = print_settings_file_contents(path, &print, Some(existing.as_str()))
        .expect("valid settings should be written");
    let parsed = parse_app_settings_toml(&contents, path).expect("written settings should parse");

    assert_eq!(parsed.print, print);
    assert_eq!(parsed.ui.theme, UiTheme::Dark);
    assert_eq!(parsed.ui.language, UiLanguage::Korean);

    let fresh = print_settings_file_contents(path, &print, Some("not toml"))
        .expect("valid settings should be written");
    let parsed = parse_app_settings_toml(&fresh, path).expect("written settings should parse");
    assert_eq!(parsed.ui, UiSettings::default());
    assert_eq!(existing_ui_settings_or_default(None, path), UiSettings::default());
}

#[test]
fn invalid_settings_are_not_written() {
    let mut settings = AppSettings::default();
    settings.print.layout.paper_width_px = 20;
    assert_eq!(
        app_settings_file_contents(Path::new("s.toml"), &settings),
        Err(SettingsFileError::InvalidSettings {
            path: PathBuf::from("s.toml"),
            details: "paper width is too small: expected at least 100px, got 20px".to_owned(),
        })
    );
}

#[test]
fn missing_settings_file_gives_defaults_to_create() {
    let path = Path::new("j3ecs-netprint.toml");
    match app_settings_after_read(path, SettingsFileRead::Missing) {
        Ok(LoadedSettings::Created { settings, contents }) => {
            assert_eq!(settings, AppSettings::default());
            assert!(contents.contains("[printer]"));
            assert!(contents.contains("[layout]"));
            assert!(contents.contains("[ui]"));
            assert!(contents.contains("theme = \"light\""));
            assert!(contents.contains("language = \"english\""));
            assert!(contents.ends_with('\n'));
        }
        other => panic!("unexpected outcome: {other:?}"),
    }
    assert_eq!(
        app_settings_after_read(
            path,
            SettingsFileRead::Failed {
                details: "denied".to_owned()
            }
        ),
        Err(SettingsFileError::Read {
            path: path.to_path_buf(),
            details: "denied".to_owned()
        })
    );
    assert_eq!(
        app_settings_after_read(path, SettingsFileRead::Contents("[ui]\ntheme = \"dark\"\n".to_owned())),
        Ok(LoadedSettings::Existing(AppSettings {
            print: PrintSettings::default(),
            ui: UiSettings {
                theme: UiTheme::Dark,
                language: UiLanguage::English
            }
        }))
    );
}

#[test]
fn temporary_file_attempts_retry_taken_names_sixteen_times() {
    let path = Path::new("j3ecs-netprint.toml");
    assert_eq!(temporary_file_name_suffix(42, 7), ".42.7.new");
    assert_eq!(
        temp_file_step(path, 0, TempFileCreation::Created),
        TempFileStep::WriteContents
    );
    assert_eq!(
        temp_file_step(path, 14, TempFileCreation::AlreadyExists),
        TempFileStep::TryAnotherName
    );
    assert_eq!(
        temp_file_step(path, 15, TempFileCreation::AlreadyExists),
        TempFileStep::Stop(SettingsFileError::Write {
            path: path.to_path_buf(),
            details: "failed to create a unique temporary settings file".to_owned()
        })
    );
    assert_eq!(
        temp_file_step(
            path,
            3,
            TempFileCreation::Failed {
                details: "disk full".to_owned()
            }
        ),
        TempFileStep::Stop(SettingsFileError::Write {
            path: path.to_path_buf(),
            details: "create temporary settings file: disk full".to_owned()
        })
    );
    assert_eq!(
        settings_write_error(path, "replace settings file", "busy".to_owned()),
        SettingsFileError::Write {
            path: path.to_path_buf(),
            details: "replace settings file: busy".to_owned()
        }
    );
}

#[test]
fn settings_error_messages_show_the_path() {
    let error = SettingsFileError::InvalidValue {
        path: PathBuf::from("settings.toml"),
        field: "ui.theme".to_owned(),
    };
    assert_eq!(
        error.message(),
        "settings file settings.toml has an invalid value for ui.theme"
    );
    assert_eq!(
        SettingsFileError::CurrentExecutablePath {
            details: "gone".to_owned()
        }
        .message(),
        "failed to resolve current executable path: gone"
    );
}

#[test]
fn font_file_names_are_judged_by_the_path_file_name() {
    let judge = |value: &str| {
        j3ecs_netprint::settings::looks_like_font_file_name_text(&value.chars().collect())
    };
    assert!(judge("Arial.ttf"));
    assert!(judge("fonts/NanumGothic.OTF"));
    assert!(judge("C:\\Fonts\\msgothic.ttc"));
    assert!(judge("Arial.ttf/."));
    assert!(judge("Arial.ttf/./"));
    assert!(judge("fonts/./Arial.ttf"));
    assert!(!judge("."));
    assert!(!judge("./."));
    assert!(!judge("fonts/.."));
    assert!(!judge(".ttf"));
    assert!(!judge("Malgun Gothic"));
    assert!(!judge("Arial.ttf/x"));
}

#[test]
fn settings_file_path_uses_executable_stem_next_to_executable() {
    let executable_path = Path::new("bin").join("j3ecs-netprint.exe");

    let settings_path =
        settings_file_path_for_executable(&executable_path).expect("path should resolve");

    assert_eq!(settings_path, Path::new("bin").join("j3ecs-netprint.toml"));
}

#[test]
fn settings_file_path_needs_a_directory_and_a_file_name() {
    assert_eq!(
        settings_file_path_for_executable(Path::new("")),
        Err(SettingsFileError::ExecutableDirectoryUnavailable {
            executable_path: PathBuf::new(),
        })
    );
    assert_eq!(
        settings_file_path_for_executable(Path::new("bin/..")),
        Err(SettingsFileError::ExecutableFileNameUnavailable {
            executable_path: PathBuf::from("bin/.."),
        })
    );
}

#[test]
fn settings_error_messages_name_the_file() {
    let error = SettingsFileError::Read {
        path: PathBuf::from("bin").join("j3ecs-netprint.toml"),
        details: "denied".to_owned(),
    };
    assert_eq!(
        error.message(),
        format!("failed to read settings file {}: denied", Path::new("bin").join("j3ecs-netprint.toml").display())
    );
}

#[test]
fn parsed_document_tables_become_settings() {
    let path = Path::new("settings.toml");
    let document = ConfigDocument {
        items: vec![(
            "printer".to_owned(),
            ConfigItem::Table(vec![
                ("ip".to_owned(), Some(ConfigScalar::Text("10.0.0.5".to_owned()))),
                ("port".to_owned(), Some(ConfigScalar::Integer(9101))),
            ]),
        )],
    };
    let settings = app_settings_from_document(&document, path).expect("document should be valid");
    assert_eq!(settings.print.printer.ip, "10.0.0.5");
    assert_eq!(settings.print.printer.port, 9101);
    assert_eq!(settings.print.layout, AppSettings::default().print.layout);
    assert_eq!(settings.ui, AppSettings::default().ui);

    let bad = ConfigDocument {
        items: vec![(
            "printer".to_owned(),
            ConfigItem::Table(vec![(
                "port".to_owned(),
                Some(ConfigScalar::Text("x".to_owned())),
            )]),
        )],
    };
    assert_eq!(
        app_settings_from_document(&bad, path),
        Err(SettingsFileError::InvalidValue {
            path: path.to_path_buf(),
            field: "printer.port".to_owned(),
        })
    );
}
