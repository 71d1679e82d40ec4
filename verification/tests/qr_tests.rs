use airnc::qr::{qr_dark, qr_light, render_qrcode};
use qrcode::QrCode;

#[test]
fn renders_like_the_qrcode_crate() {
    let content = "http://192.168.1.5:8080/report.pdf";
    let img = render_qrcode(content).expect("fits in a QR code");
    let code = QrCode::new(content.as_bytes()).unwrap();
    let expected = code
        .render::<image::Rgba<u8>>()
        .max_dimensions(1, 1)
        .light_color(image::Rgba([236, 236, 236, 1]))
        .dark_color(image::Rgba([0, 0, 0, 1]))
        .build();
    assert_eq!(img.side, expected.width());
    assert_eq!(img.side, expected.height());
    assert_eq!(img.side as usize, code.width() + 8);
    let expected_pixels: Vec<[u8; 4]> = expected.pixels().map(|p| p.0).collect();
    assert_eq!(img.pixels, expected_pixels);
}

#[test]
fn quiet_zone_is_light() {
    let img = render_qrcode("hello").unwrap();
    let side = img.side as usize;
    assert_eq!(side, 21 + 8);
    for y in 0..side {
        for x in 0..side {
            if x < 4 || y < 4 || x >= side - 4 || y >= side - 4 {
                assert_eq!(img.pixels[y * side + x], qr_light());
            }
        }
    }
    assert!(img.pixels.iter().any(|p| *p == qr_dark()));
}

#[test]
fn too_long_content_has_no_code() {
    let content = "x".repeat(8000);
    assert!(render_qrcode(&content).is_none());
}

#[test]
fn colours() {
    assert_eq!(qr_light(), [236, 236, 236, 1]);
    assert_eq!(qr_dark(), [0, 0, 0, 1]);
}
