use j3ecs_netprint::domain::{DomainError, NetworkPrinterTarget, RenderedReceiptImage};
use j3ecs_netprint::escpos::{
    esc_d_feed_command, gs_v0_raster_bit_image_command, gs_v0_raster_bit_image_commands,
    gs_v_cut_command, pack_python_escpos_raster_bits, pillow_luma, validate_raster_image,
    EscPosEncodingError, BYTES_PER_RGB_PIXEL, ESC_POS_DEFAULT_CUT_FEED_LINES,
    ESC_POS_DEFAULT_IMAGE_FRAGMENT_HEIGHT_PX, ESC_POS_RASTER_HEADER_LEN,
};
use j3ecs_netprint::printer::{printer_output_commands, InfraError};

fn white_image(width_px: u32, height_px: u32) -> RenderedReceiptImage {
    let pixel_count = usize::try_from(width_px)
        .expect("test width should fit usize")
        .checked_mul(usize::try_from(height_px).expect("test height should fit usize"))
        .expect("test image should be small");
    let rgb_len = pixel_count
        .checked_mul(BYTES_PER_RGB_PIXEL)
        .expect("test image should be small");

    RenderedReceiptImage {
        width_px,
        height_px,
        rgb_pixels: vec![255; rgb_len],
    }
}

fn set_pixel(image: &mut RenderedReceiptImage, x: u32, y: u32, rgb: [u8; 3]) {
    let width = usize::try_from(image.width_px).expect("test width should fit usize");
    let x = usize::try_from(x).expect("test x should fit usize");
    let y = usize::try_from(y).expect("test y should fit usize");
    let offset = (y * width + x) * BYTES_PER_RGB_PIXEL;

    image.rgb_pixels[offset..offset + BYTES_PER_RGB_PIXEL].copy_from_slice(&rgb);
}

#[test]
fn raster_header_uses_byte_rounded_width_and_little_endian_dimensions() {
    let image = white_image(10, 2);

    let command = gs_v0_raster_bit_image_command(&image).expect("valid image should encode");

    assert_eq!(
        &command[..ESC_POS_RASTER_HEADER_LEN],
        &[0x1D, b'v', b'0', 0x00, 0x02, 0x00, 0x02, 0x00]
    );
    assert_eq!(command.len(), ESC_POS_RASTER_HEADER_LEN + 4);
}

#[test]
fn raster_bit_packing_is_msb_first_and_pads_partial_byte_as_white() {
    let mut image = white_image(10, 1);
    set_pixel(&mut image, 0, 0, [0, 0, 0]);
    set_pixel(&mut image, 2, 0, [0, 0, 0]);
    set_pixel(&mut image, 7, 0, [0, 0, 0]);
    set_pixel(&mut image, 8, 0, [0, 0, 0]);
    let size = validate_raster_image(&image).expect("valid image should validate");

    let packed = pack_python_escpos_raster_bits(&image, &size, 0, size.height_px)
        .expect("valid image should pack");

    assert_eq!(packed, vec![0b1010_0001, 0b1000_0000]);
}

#[test]
fn raster_encoding_matches_python_escpos_pillow_dither_for_antialiasing_grays() {
    let mut image = white_image(8, 2);
    set_pixel(&mut image, 1, 0, [200, 200, 200]);
    set_pixel(&mut image, 2, 0, [128, 128, 128]);
    set_pixel(&mut image, 3, 0, [127, 127, 127]);
    set_pixel(&mut image, 4, 0, [55, 55, 55]);
    set_pixel(&mut image, 5, 0, [0, 0, 0]);
    set_pixel(&mut image, 7, 0, [0, 0, 0]);
    set_pixel(&mut image, 0, 1, [30, 30, 30]);
    set_pixel(&mut image, 1, 1, [90, 90, 90]);
    set_pixel(&mut image, 2, 1, [120, 120, 120]);
    set_pixel(&mut image, 3, 1, [128, 128, 128]);
    set_pixel(&mut image, 4, 1, [180, 180, 180]);
    set_pixel(&mut image, 5, 1, [220, 220, 220]);
    set_pixel(&mut image, 6, 1, [40, 40, 40]);
    let command = gs_v0_raster_bit_image_command(&image).expect("valid image should encode");

    assert_eq!(
        &command[..ESC_POS_RASTER_HEADER_LEN],
        &[0x1D, b'v', b'0', 0x00, 0x01, 0x00, 0x02, 0x00]
    );
    assert_eq!(
        &command[ESC_POS_RASTER_HEADER_LEN..],
        &[0b0010_1101, 0b1101_0010]
    );
}

#[test]
fn gs_v_cut_command_uses_full_cut() {
    assert_eq!(gs_v_cut_command(), [0x1D, b'V', 0x00]);
}

#[test]
fn esc_d_feed_command_uses_python_escpos_default_cut_feed() {
    assert_eq!(ESC_POS_DEFAULT_CUT_FEED_LINES, 6);
    assert_eq!(
        esc_d_feed_command(ESC_POS_DEFAULT_CUT_FEED_LINES),
        [0x1B, b'd', 0x06]
    );
}

#[test]
fn raster_fragment_commands_use_python_escpos_default_fragment_height() {
    let mut image = white_image(8, u32::from(ESC_POS_DEFAULT_IMAGE_FRAGMENT_HEIGHT_PX) + 2);
    set_pixel(&mut image, 0, 0, [0, 0, 0]);
    set_pixel(
        &mut image,
        7,
        u32::from(ESC_POS_DEFAULT_IMAGE_FRAGMENT_HEIGHT_PX) - 1,
        [0, 0, 0],
    );
    set_pixel(
        &mut image,
        0,
        u32::from(ESC_POS_DEFAULT_IMAGE_FRAGMENT_HEIGHT_PX),
        [0, 0, 0],
    );
    set_pixel(
        &mut image,
        7,
        u32::from(ESC_POS_DEFAULT_IMAGE_FRAGMENT_HEIGHT_PX) + 1,
        [0, 0, 0],
    );

    let commands = gs_v0_raster_bit_image_commands(&image).expect("valid image should encode");

    assert_eq!(commands.len(), 2);
    assert_eq!(
        &commands[0][..ESC_POS_RASTER_HEADER_LEN],
        &[0x1D, b'v', b'0', 0x00, 0x01, 0x00, 0xC0, 0x03]
    );
    assert_eq!(
        commands[0].len(),
        ESC_POS_RASTER_HEADER_LEN + usize::from(ESC_POS_DEFAULT_IMAGE_FRAGMENT_HEIGHT_PX)
    );
    assert_eq!(commands[0][ESC_POS_RASTER_HEADER_LEN], 0b1000_0000);
    assert_eq!(
        commands[0]
            [ESC_POS_RASTER_HEADER_LEN + usize::from(ESC_POS_DEFAULT_IMAGE_FRAGMENT_HEIGHT_PX) - 1],
        0b0000_0001
    );
    assert_eq!(
        &commands[1][..ESC_POS_RASTER_HEADER_LEN],
        &[0x1D, b'v', b'0', 0x00, 0x01, 0x00, 0x02, 0x00]
    );
    assert_eq!(
        &commands[1][ESC_POS_RASTER_HEADER_LEN..],
        &[0b1000_0000, 0b0000_0001]
    );
}

#[test]
fn raster_encoding_rejects_invalid_rgb_buffer_length() {
    let image = RenderedReceiptImage {
        width_px: 1,
        height_px: 1,
        rgb_pixels: vec![0, 0],
    };

    assert_eq!(
        gs_v0_raster_bit_image_command(&image),
        Err(EscPosEncodingError::InvalidRgbBufferLength {
            width_px: 1,
            height_px: 1,
            expected_len: 3,
            actual_len: 2,
        })
    );
}

#[test]
fn raster_encoding_rejects_empty_images() {
    assert_eq!(
        gs_v0_raster_bit_image_command(&white_image(0, 3)),
        Err(EscPosEncodingError::InvalidImageDimensions {
            width_px: 0,
            height_px: 3
        })
    );
    assert_eq!(
        EscPosEncodingError::InvalidImageDimensions {
            width_px: 0,
            height_px: 3
        }
        .message(),
        "rendered image dimensions must be non-zero: 0x3px"
    );
}

#[test]
fn pillow_luma_uses_itu_r_601_weights() {
    assert_eq!(pillow_luma(255, 255, 255), 255);
    assert_eq!(pillow_luma(0, 0, 0), 0);
    assert_eq!(pillow_luma(255, 0, 0), 76);
    assert_eq!(pillow_luma(0, 255, 0), 150);
    assert_eq!(pillow_luma(0, 0, 255), 29);
}

#[test]
fn fragments_cover_every_row_once() {
    let image = white_image(8, 2 * u32::from(ESC_POS_DEFAULT_IMAGE_FRAGMENT_HEIGHT_PX) + 5);
    let commands = gs_v0_raster_bit_image_commands(&image).expect("valid image should encode");

    assert_eq!(commands.len(), 3);
    let heights: Vec<u16> = commands
        .iter()
        .map(|command| u16::from_le_bytes([command[6], command[7]]))
        .collect();
    assert_eq!(heights, vec![960, 960, 5]);
}

#[test]
fn network_printer_output_is_raster_then_feed_then_cut() {
    let mut image = white_image(9, 2);
    set_pixel(&mut image, 0, 0, [0, 0, 0]);
    set_pixel(&mut image, 8, 0, [0, 0, 0]);
    set_pixel(&mut image, 1, 1, [0, 0, 0]);
    set_pixel(&mut image, 7, 1, [0, 0, 0]);
    let target = NetworkPrinterTarget {
        ip: "127.0.0.1".to_owned(),
        port: 9100,
    };

    let writes = printer_output_commands(&target, &image).expect("valid job should encode");
    let captured: Vec<u8> = writes.concat();

    assert_eq!(writes.len(), 3);
    assert_eq!(captured.len(), ESC_POS_RASTER_HEADER_LEN + 4 + 3 + 3);
    assert_eq!(
        &captured[..ESC_POS_RASTER_HEADER_LEN],
        &[0x1D, b'v', b'0', 0x00, 0x02, 0x00, 0x02, 0x00]
    );
    assert_eq!(
        &captured[ESC_POS_RASTER_HEADER_LEN..ESC_POS_RASTER_HEADER_LEN + 4],
        &[0b1000_0000, 0b1000_0000, 0b0100_0001, 0b0000_0000]
    );
    assert_eq!(writes[1], esc_d_feed_command(ESC_POS_DEFAULT_CUT_FEED_LINES).to_vec());
    assert_eq!(writes[2], gs_v_cut_command().to_vec());
}

#[test]
fn network_printer_output_checks_target_before_image() {
    let image = white_image(0, 1);
    let bad_target = NetworkPrinterTarget {
        ip: " ".to_owned(),
        port: 9100,
    };
    assert_eq!(
        printer_output_commands(&bad_target, &image),
        Err(InfraError::InvalidPrinterTarget(DomainError::EmptyPrinterHost))
    );
    let target = NetworkPrinterTarget {
        ip: "printer.local".to_owned(),
        port: 9100,
    };
    assert_eq!(
        printer_output_commands(&target, &image),
        Err(InfraError::EscPosEncoding(
            EscPosEncodingError::InvalidImageDimensions {
                width_px: 0,
                height_px: 1
            }
        ))
    );
}

#[test]
fn infra_error_messages_name_target_and_operation() {
    let target = NetworkPrinterTarget {
        ip: "127.0.0.1".to_owned(),
        port: 9100,
    };
    let error = InfraError::network_io(&target, "connect", "connection refused".to_owned());
    assert_eq!(
        error,
        InfraError::NetworkIo {
            target: "127.0.0.1:9100".to_owned(),
            operation: "connect",
            details: "connection refused".to_owned()
        }
    );
    assert_eq!(
        error.message(),
        "ESC/POS network connect failed for 127.0.0.1:9100: connection refused"
    );
    assert_eq!(
        InfraError::UnsupportedPlatform("Win32/GDI text rendering").message(),
        "Win32/GDI text rendering is only available on Windows"
    );
}
