use sh_images::ui::info_panel::{field_rows, format_rational, Fmt};
use sh_images::viewer_core::exif::{ExifImage, Rational};

fn sample() -> ExifImage {
    ExifImage {
        make: Some("Nikon".into()),
        model: Some("D750".into()),
        fecha: Some("2020:01:02 03:04:05".into()),
        iso: Some(400),
        f_number: Some(Rational::new(28, 10)),
        shutter_speed: Some(Rational::new(1, 125)),
        focal_length: Some(Rational::new(50, 1)),
        orientacion: Some(6),
    }
}

#[test]
fn row_is_omitted_when_field_absent() {
    let rows = field_rows(&ExifImage::default());
    assert!(rows.is_empty());
}

#[test]
fn present_fields_become_rows() {
    let rows = field_rows(&sample());
    assert_eq!(rows.len(), 8);
    assert_eq!(rows[0], ("Fabricante".into(), "Nikon".into()));
}

#[test]
fn rational_formatting_is_human_readable() {
    assert_eq!(format_rational(Rational::new(50, 1), Fmt::Focal), "50 mm");
    assert_eq!(format_rational(Rational::new(28, 10), Fmt::Aperture), "f/2.8");
    assert_eq!(format_rational(Rational::new(1, 125), Fmt::Shutter), "1/125 s");
}

#[test]
fn all_rows_in_order() {
    let rows = field_rows(&sample());
    let expected: Vec<(String, String)> = vec![
        ("Fabricante".into(), "Nikon".into()),
        ("Modelo".into(), "D750".into()),
        ("Fecha".into(), "2020:01:02 03:04:05".into()),
        ("ISO".into(), "400".into()),
        ("Apertura".into(), "f/2.8".into()),
        ("Obturador".into(), "1/125 s".into()),
        ("Focal".into(), "50 mm".into()),
        ("Orientación".into(), "Rotada (6)".into()),
    ];
    assert_eq!(rows, expected);
}

#[test]
fn degenerate_rationals() {
    assert_eq!(format_rational(Rational::new(1, 0), Fmt::Aperture), "f/NaN");
    assert_eq!(format_rational(Rational::new(1, 0), Fmt::Shutter), "NaN s");
    assert_eq!(format_rational(Rational::new(0, 0), Fmt::Focal), "NaN mm");
    assert_eq!(format_rational(Rational::new(0, 5), Fmt::Aperture), "f/0.0");
    assert_eq!(format_rational(Rational::new(0, 5), Fmt::Shutter), "0 s");
    assert_eq!(format_rational(Rational::new(0, 5), Fmt::Focal), "0 mm");
    assert_eq!(format_rational(Rational::new(3, 1), Fmt::Shutter), "1/0 s");
}

fn float_format(r: Rational, fmt: Fmt) -> String {
    let d = if r.den == 0 { f64::NAN } else { r.num as f64 / r.den as f64 };
    match fmt {
        Fmt::Aperture => format!("f/{d:.1}"),
        Fmt::Shutter => {
            if r.den != 0 && r.num != 0 {
                format!("1/{} s", (r.den as f64 / r.num as f64).round())
            } else {
                format!("{d} s")
            }
        }
        Fmt::Focal => format!("{d:.0} mm"),
    }
}

#[test]
fn rational_formatting_agrees_with_binary64_formulas() {
    let mut cases: Vec<Rational> = Vec::new();
    for num in 0..40u64 {
        for den in 0..40u64 {
            cases.push(Rational::new(num, den));
        }
    }
    for &(n, d) in &[
        (1u64, u64::MAX),
        (u64::MAX, 1),
        (u64::MAX, u64::MAX),
        (1, 1 << 53),
        (1, (1 << 53) + 1),
        (1, (1 << 60) + 12345),
        (3, u64::MAX - 7),
        (7, 1 << 63),
        (1, 10_000_000_000_000_000_000),
        (1, 123_456_789_012_345_678),
        (25, 10),
        (35, 10),
        (45, 100),
        (5, 2),
        (15, 2),
    ] {
        cases.push(Rational::new(n, d));
    }
    let mut seed: u64 = 0x1234_5678_9ABC_DEF1;
    for _ in 0..30000 {
        seed ^= seed << 13;
        seed ^= seed >> 7;
        seed ^= seed << 17;
        let a = seed >> (seed % 64);
        seed ^= seed << 13;
        seed ^= seed >> 7;
        seed ^= seed << 17;
        let b = seed >> (seed % 64);
        cases.push(Rational::new(a, b));
        cases.push(Rational::new(a % 1000, b % 100_000 + 1));
        cases.push(Rational::new(1, b));
    }
    for r in cases {
        for fmt in [Fmt::Aperture, Fmt::Shutter, Fmt::Focal] {
            assert_eq!(format_rational(r, fmt), float_format(r, fmt), "{r:?} {fmt:?}");
        }
    }
}
