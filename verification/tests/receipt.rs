use j3ecs_netprint::domain::{DomainError, TextImageLayout};
use j3ecs_netprint::platform::{default_owner_window, NativeWindowHandle};
use j3ecs_netprint::receipt::{
    checked_pixel_count, dimension_to_i32, first_nul_or_len, font_face_matches,
    normalize_font_name, receipt_plan, rgb_image_from_bgra, selected_face_check, FontStyle,
    GdiRenderError,
};
use j3ecs_netprint::wrap::TextWrapError;

fn lines(texts: &[&str]) -> Vec<String> {
    texts.iter().map(|text| (*text).to_owned()).collect()
}

#[test]
fn receipt_height_is_lines_times_line_height_plus_margins() {
    let layout = TextImageLayout {
        font_size_px: 24,
        paper_width_px: 180,
        margin_px: 10,
        font_face_name: "Arial".to_owned(),
    };

    let plan = receipt_plan(&layout, &lines(&["Hi", "", "there"])).expect("small image");

    assert_eq!(plan.width_px, 180);
    assert_eq!(plan.height_px, 3 * (24 + 4) + 20);
    assert_eq!(plan.left_px, 10);
    assert_eq!(plan.draws, vec![(0, 10), (2, 10 + 2 * 28)]);

    let empty = receipt_plan(&layout, &Vec::new()).expect("small image");
    assert_eq!(empty.height_px, 28 + 20);
    assert!(empty.draws.is_empty());
}

#[test]
fn receipt_plan_refuses_images_gdi_cannot_hold() {
    let tall = TextImageLayout {
        font_size_px: u32::MAX,
        paper_width_px: 180,
        margin_px: 10,
        font_face_name: "Arial".to_owned(),
    };
    assert_eq!(
        receipt_plan(&tall, &lines(&["x"])),
        Err(GdiRenderError::ImageTooLarge {
            width_px: 180,
            height_px: u32::MAX
        })
    );

    let wide = TextImageLayout {
        font_size_px: 10,
        paper_width_px: 3_000_000_000,
        margin_px: 10,
        font_face_name: "Arial".to_owned(),
    };
    assert_eq!(
        receipt_plan(&wide, &lines(&["x"])),
        Err(GdiRenderError::InvalidWin32Dimension {
            name: "image width",
            value: 3_000_000_000
        })
    );

    let huge = TextImageLayout {
        font_size_px: 50_000,
        paper_width_px: 50_000,
        margin_px: 10,
        font_face_name: "Arial".to_owned(),
    };
    assert_eq!(
        receipt_plan(&huge, &lines(&["x"])),
        Err(GdiRenderError::ImageTooLarge {
            width_px: 50_000,
            height_px: 60_020
        })
    );
}

#[test]
fn bitmap_pixels_convert_from_bgra_to_rgb() {
    let bgra = [1, 2, 3, 0, 10, 20, 30, 255];
    let image = rgb_image_from_bgra(2, 1, &bgra).expect("small image");

    assert_eq!(image.width_px, 2);
    assert_eq!(image.height_px, 1);
    assert_eq!(image.rgb_pixels, vec![3, 2, 1, 30, 20, 10]);
}

#[test]
fn font_style_follows_the_face_name() {
    assert_eq!(
        FontStyle::from_name("Malgun Gothic"),
        FontStyle {
            weight: 400,
            italic: false
        }
    );
    assert_eq!(FontStyle::from_name("Arial Black").weight, 900);
    assert_eq!(FontStyle::from_name("Segoe UI Semibold").weight, 600);
    assert_eq!(FontStyle::from_name("Noto Sans Bold Italic").weight, 700);
    assert!(FontStyle::from_name("Noto Sans Bold Italic").italic);
    assert_eq!(FontStyle::from_name("Segoe UI Light").weight, 300);
    assert!(FontStyle::from_name("Some OBLIQUE").italic);
}

#[test]
fn selected_face_must_match_requested_face() {
    assert!(font_face_matches(" arial ", "Arial"));
    assert!(!font_face_matches("Arial", "Missing"));
    assert_eq!(normalize_font_name("  Segoe UI "), "segoe ui");
    assert_eq!(selected_face_check("Arial", "ARIAL".to_owned()), Ok(()));
    let error = selected_face_check("Missing", "Arial".to_owned()).expect_err("different face");
    assert_eq!(
        error,
        GdiRenderError::FontFaceUnavailable {
            requested_face: "Missing".to_owned(),
            selected_face: Some("Arial".to_owned())
        }
    );
    assert_eq!(
        error.message(),
        "failed to select installed font face: requested=Missing, selected=Arial"
    );
    assert_eq!(
        GdiRenderError::FontFaceUnavailable {
            requested_face: "Missing".to_owned(),
            selected_face: None
        }
        .message(),
        "failed to select installed font face: requested=Missing, selected=none"
    );
}

#[test]
fn gdi_errors_convert_and_read() {
    assert_eq!(
        GdiRenderError::from(DomainError::EmptyText),
        GdiRenderError::Layout(DomainError::EmptyText)
    );
    assert_eq!(
        GdiRenderError::from(TextWrapError::Measure(GdiRenderError::Win32CallFailed {
            function: "GetTextExtentPoint32W"
        })),
        GdiRenderError::Win32CallFailed {
            function: "GetTextExtentPoint32W"
        }
    );
    assert_eq!(
        GdiRenderError::ImageTooLarge {
            width_px: 1,
            height_px: 2
        }
        .message(),
        "rendered image is too large: 1x2px"
    );
    assert_eq!(
        dimension_to_i32("font size", 3_000_000_000),
        Err(GdiRenderError::InvalidWin32Dimension {
            name: "font size",
            value: 3_000_000_000
        })
    );
    assert_eq!(dimension_to_i32("font size", 42), Ok(42));
    assert_eq!(checked_pixel_count(3, 4), Some(12));
    assert_eq!(first_nul_or_len(&[1, 2, 0, 4], 4), 2);
    assert_eq!(first_nul_or_len(&[1, 2, 0, 4], 2), 2);
}

#[test]
fn owner_window_handles() {
    assert_eq!(default_owner_window(), NativeWindowHandle::none());
    assert_eq!(NativeWindowHandle::none().describe(), "none");
    assert_eq!(NativeWindowHandle::from_raw(7).raw(), 7);
    assert_eq!(NativeWindowHandle::from_raw(7).describe(), "provided");
}

#[test]
fn lower_case_face_names_give_their_style() {
    assert_eq!(
        FontStyle::from_lowercase_name("arial black italic"),
        FontStyle { weight: 900, italic: true }
    );
    assert_eq!(
        FontStyle::from_lowercase_name("segoe ui semibold"),
        FontStyle { weight: 600, italic: false }
    );
    assert_eq!(
        FontStyle::from_lowercase_name("Arial Bold"),
        FontStyle { weight: 400, italic: false }
    );
}

#[test]
fn win32_text_is_utf16_with_its_length() {
    let text = "a가😀";
    let expected: Vec<u16> = text.encode_utf16().collect();
    assert_eq!(j3ecs_netprint::receipt::encode_utf16_for_win32(text), Ok((expected.clone(), 4)));
    let mut terminated = expected;
    terminated.push(0);
    assert_eq!(j3ecs_netprint::receipt::wide_null_from_str(text), terminated);
    assert_eq!(j3ecs_netprint::receipt::wide_null_from_str(""), vec![0]);
}
