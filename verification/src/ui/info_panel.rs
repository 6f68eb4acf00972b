//! The EXIF side panel: whether it shows, and the rows it lists. The camera
//! values are rationals printed as the binary64 formulas print them; the
//! model below follows each rounding of those formulas on integers.
use crate::ui::statusbar::tenths_text;
use crate::utils::float_text::{display_value, display_value_of};
use crate::utils::rounding::{
    binary64_ratio, binary64_ratio_of, binary64_value, div_round_half_even, nearest_binary64,
    round_half_even,
};
use crate::utils::text::{decimal, digit, push_char, push_decimal, push_str};
use crate::viewer_core::exif::{ExifImage, Rational};
use vstd::prelude::*;

verus! {

/// Whether the information panel is shown.
#[derive(Debug)]
pub struct InfoPanelState {
    pub show: bool,
}

impl Default for InfoPanelState {
    /// The panel starts shown.
    fn default() -> (r: Self)
        ensures
            r.show,
    {
        Self { show: true }
    }
}

/// The label of an EXIF orientation: `Horizontal` for 1, `Rotada (o)` for
/// the rotations 3, 6 and 8, `Vertical (o)` for the other values.
pub open spec fn orientation_text(o: u16) -> Seq<char> {
    if o == 1 {
        "Horizontal"@
    } else if o == 3 || o == 6 || o == 8 {
        "Rotada ("@ + decimal(o as nat) + seq![')']
    } else {
        "Vertical ("@ + decimal(o as nat) + seq![')']
    }
}

/// Labels an EXIF orientation value.
pub fn orientation_label(o: u16) -> (r: String)
    ensures
        r@ == orientation_text(o),
{
    if o == 1 {
        return String::from_str("Horizontal");
    }
    let mut s = if o == 3 || o == 6 || o == 8 {
        String::from_str("Rotada (")
    } else {
        String::from_str("Vertical (")
    };
    push_decimal(&mut s, o as u128);
    push_char(&mut s, ')');
    s
}


/// How a camera value is printed.
#[derive(Debug, Clone, Copy, PartialEq, Eq, Structural)]
pub enum Fmt {
    /// `f/<value with one decimal>`.
    Aperture,
    /// `1/<den / num rounded> s`, or `<value> s` when a part is 0.
    Shutter,
    /// `<value rounded> mm`.
    Focal,
}

/// The text of `r` in the style `fmt`, as Rust prints the binary64 value
/// `num as f64 / den as f64` (`NaN` for a zero denominator): one decimal for
/// the aperture and none for the focal length (rounded to nearest, ties to
/// even), and for the shutter `1/` and the rounded (half away from zero)
/// `den / num` printed by `{}`.
pub open spec fn rational_text(r: Rational, fmt: Fmt) -> Seq<char> {
    if r.den == 0 {
        match fmt {
            Fmt::Aperture => "f/NaN"@,
            Fmt::Shutter => "NaN s"@,
            Fmt::Focal => "NaN mm"@,
        }
    } else if r.num == 0 {
        match fmt {
            Fmt::Aperture => "f/0.0"@,
            Fmt::Shutter => "0 s"@,
            Fmt::Focal => "0 mm"@,
        }
    } else {
        let a = nearest_binary64(r.num as nat);
        let b = nearest_binary64(r.den as nat);
        match fmt {
            Fmt::Aperture => {
                let (n, d) = binary64_ratio(a, b);
                "f/"@ + tenths_text(round_half_even(10 * n, d))
            },
            Fmt::Shutter => {
                let (n, d) = binary64_ratio(b, a);
                "1/"@ + decimal(display_value((2 * n + d) / (2 * d))) + " s"@
            },
            Fmt::Focal => {
                let (n, d) = binary64_ratio(a, b);
                decimal(round_half_even(n, d)) + " mm"@
            },
        }
    }
}

/// Prints a camera value in the style `fmt`.
pub fn format_rational(r: Rational, fmt: Fmt) -> (s: String)
    ensures
        s@ == rational_text(r, fmt),
{
    if r.den == 0 {
        return match fmt {
            Fmt::Aperture => String::from_str("f/NaN"),
            Fmt::Shutter => String::from_str("NaN s"),
            Fmt::Focal => String::from_str("NaN mm"),
        };
    }
    if r.num == 0 {
        return match fmt {
            Fmt::Aperture => String::from_str("f/0.0"),
            Fmt::Shutter => String::from_str("0 s"),
            Fmt::Focal => String::from_str("0 mm"),
        };
    }
    let a = binary64_value(r.num as u128);
    let b = binary64_value(r.den as u128);
    proof {
        assert(a > 0 && b > 0) by {
            crate::utils::rounding::lemma_nearest_binary64_positive(r.num as nat);
            crate::utils::rounding::lemma_nearest_binary64_positive(r.den as nat);
        }
    }
    match fmt {
        Fmt::Aperture => {
            let (n, d) = binary64_ratio_of(a, b);
            let x = div_round_half_even(10 * n, d);
            let mut s = String::from_str("f/");
            push_decimal(&mut s, x / 10);
            push_char(&mut s, '.');
            push_char(&mut s, digit((x % 10) as u8));
            assert(s@ =~= rational_text(r, fmt));
            s
        },
        Fmt::Shutter => {
            let (n, d) = binary64_ratio_of(b, a);
            let v = (2 * n + d) / (2 * d);
            proof {
                assert(v <= n + 1) by (nonlinear_arith)
                    requires
                        v == (2 * n + d) / (2 * d),
                        d > 0,
                ;
            }
            let shown = display_value_of(v);
            let mut s = String::from_str("1/");
            push_decimal(&mut s, shown);
            push_str(&mut s, " s");
            s
        },
        Fmt::Focal => {
            let (n, d) = binary64_ratio_of(a, b);
            let mut s = String::new();
            push_decimal(&mut s, div_round_half_even(n, d));
            push_str(&mut s, " mm");
            s
        },
    }
}


/// A panel row: a label and its value.
pub open spec fn row_views(rows: Seq<(String, String)>) -> Seq<(Seq<char>, Seq<char>)> {
    rows.map_values(|r: (String, String)| (r.0@, r.1@))
}

/// The row `label: value` when there is a value, else none.
pub open spec fn row_if(label: Seq<char>, value: Option<Seq<char>>) -> Seq<(Seq<char>, Seq<char>)> {
    match value {
        Some(v) => seq![(label, v)],
        None => seq![],
    }
}

/// The text of an optional string.
pub open spec fn text_of(v: Option<String>) -> Option<Seq<char>> {
    match v {
        Some(s) => Some(s@),
        None => None,
    }
}

/// The text of an optional rational in the style `fmt`.
pub open spec fn rational_of(v: Option<Rational>, fmt: Fmt) -> Option<Seq<char>> {
    match v {
        Some(r) => Some(rational_text(r, fmt)),
        None => None,
    }
}

/// The rows the panel lists for `img`, in this order: maker, model, date,
/// ISO, aperture, shutter, focal length and orientation, each only when
/// the image has it.
pub open spec fn rows_spec(img: ExifImage) -> Seq<(Seq<char>, Seq<char>)> {
    row_if("Fabricante"@, text_of(img.make)) + row_if("Modelo"@, text_of(img.model)) + row_if(
        "Fecha"@,
        text_of(img.fecha),
    ) + row_if(
        "ISO"@,
        match img.iso {
            Some(v) => Some(decimal(v as nat)),
            None => None,
        },
    ) + row_if("Apertura"@, rational_of(img.f_number, Fmt::Aperture)) + row_if(
        "Obturador"@,
        rational_of(img.shutter_speed, Fmt::Shutter),
    ) + row_if("Focal"@, rational_of(img.focal_length, Fmt::Focal)) + row_if(
        "Orientación"@,
        match img.orientacion {
            Some(o) => Some(orientation_text(o)),
            None => None,
        },
    )
}

/// Appends the row `label: value` when there is a value.
fn push_row(rows: &mut Vec<(String, String)>, label: &str, value: Option<String>)
    ensures
        row_views(final(rows)@) == row_views(old(rows)@) + row_if(label@, text_of(value)),
{
    match value {
        Some(v) => {
            rows.push((String::from_str(label), v));
            assert(row_views(rows@) =~= row_views(old(rows)@) + row_if(label@, text_of(value)));
        },
        None => {
            assert(row_views(rows@) =~= row_views(old(rows)@) + row_if(label@, text_of(value)));
        },
    }
}

/// The value of an optional rational in the style `fmt`.
fn rational_value_text(v: Option<Rational>, fmt: Fmt) -> (r: Option<String>)
    ensures
        text_of(r) == rational_of(v, fmt),
{
    match v {
        Some(x) => Some(format_rational(x, fmt)),
        None => None,
    }
}

/// The rows of the panel for `img`.
pub fn field_rows(img: &ExifImage) -> (rows: Vec<(String, String)>)
    ensures
        row_views(rows@) == rows_spec(*img),
{
    let mut rows: Vec<(String, String)> = Vec::new();
    assert(row_views(rows@) =~= Seq::<(Seq<char>, Seq<char>)>::empty());
    push_row(&mut rows, "Fabricante", img.make.clone());
    push_row(&mut rows, "Modelo", img.model.clone());
    push_row(&mut rows, "Fecha", img.fecha.clone());
    let iso = match img.iso {
        Some(v) => {
            let mut t = String::new();
            push_decimal(&mut t, v as u128);
            assert(t@ =~= decimal(v as nat));
            Some(t)
        },
        None => None,
    };
    push_row(&mut rows, "ISO", iso);
    push_row(&mut rows, "Apertura", rational_value_text(img.f_number, Fmt::Aperture));
    push_row(&mut rows, "Obturador", rational_value_text(img.shutter_speed, Fmt::Shutter));
    push_row(&mut rows, "Focal", rational_value_text(img.focal_length, Fmt::Focal));
    let orientation = match img.orientacion {
        Some(o) => Some(orientation_label(o)),
        None => None,
    };
    push_row(&mut rows, "Orientación", orientation);
    assert(row_views(rows@) =~= rows_spec(*img));
    rows
}

/// Law: for an image with every entry, the panel lists eight rows, each
/// label beside its own entry: maker, model, date, ISO, aperture (as
/// `f/…`), shutter speed, focal length and orientation.
pub proof fn law_rows_pair_labels_with_entries(img: ExifImage)
    requires
        img.make is Some && img.model is Some && img.fecha is Some && img.iso is Some
            && img.f_number is Some && img.shutter_speed is Some && img.focal_length is Some
            && img.orientacion is Some,
    ensures
        rows_spec(img) == seq![
            ("Fabricante"@, img.make->0@),
            ("Modelo"@, img.model->0@),
            ("Fecha"@, img.fecha->0@),
            ("ISO"@, decimal(img.iso->0 as nat)),
            ("Apertura"@, rational_text(img.f_number->0, Fmt::Aperture)),
            ("Obturador"@, rational_text(img.shutter_speed->0, Fmt::Shutter)),
            ("Focal"@, rational_text(img.focal_length->0, Fmt::Focal)),
            ("Orientación"@, orientation_text(img.orientacion->0)),
        ],
{
    assert(rows_spec(img) =~= seq![
        ("Fabricante"@, img.make->0@),
        ("Modelo"@, img.model->0@),
        ("Fecha"@, img.fecha->0@),
        ("ISO"@, decimal(img.iso->0 as nat)),
        ("Apertura"@, rational_text(img.f_number->0, Fmt::Aperture)),
        ("Obturador"@, rational_text(img.shutter_speed->0, Fmt::Shutter)),
        ("Focal"@, rational_text(img.focal_length->0, Fmt::Focal)),
        ("Orientación"@, orientation_text(img.orientacion->0)),
    ]);
}

/// Law: an aperture reads `f/…`, a shutter speed `1/… s` (or `0 s` and
/// `NaN s` for a zero numerator or denominator), and a focal length `… mm`.
pub proof fn law_camera_values_carry_their_units(r: Rational)
    ensures
        rational_text(r, Fmt::Aperture).take(2) == seq!['f', '/'],
        rational_text(r, Fmt::Shutter).skip(rational_text(r, Fmt::Shutter).len() - 2) == seq![
            ' ',
            's',
        ],
        r.den != 0 && r.num != 0 ==> rational_text(r, Fmt::Shutter).take(2) == seq!['1', '/'],
        rational_text(r, Fmt::Focal).skip(rational_text(r, Fmt::Focal).len() - 3) == seq![
            ' ',
            'm',
            'm',
        ],
{
    reveal_strlit("f/NaN");
    reveal_strlit("NaN s");
    reveal_strlit("NaN mm");
    reveal_strlit("f/0.0");
    reveal_strlit("0 s");
    reveal_strlit("0 mm");
    reveal_strlit("f/");
    reveal_strlit("1/");
    reveal_strlit(" s");
    reveal_strlit(" mm");
    let t = rational_text(r, Fmt::Aperture);
    if r.den != 0 && r.num != 0 {
        let a = nearest_binary64(r.num as nat);
        let b = nearest_binary64(r.den as nat);
        let (n, d) = binary64_ratio(a, b);
        assert(("f/"@ + tenths_text(round_half_even(10 * n, d))).take(2) =~= seq!['f', '/']);
        let (n2, d2) = binary64_ratio(b, a);
        let sh = "1/"@ + decimal(display_value((2 * n2 + d2) / (2 * d2))) + " s"@;
        assert(sh.take(2) =~= seq!['1', '/']);
        assert(sh.skip(sh.len() - 2) =~= seq![' ', 's']);
        let fo = decimal(round_half_even(n, d)) + " mm"@;
        assert(fo.skip(fo.len() - 3) =~= seq![' ', 'm', 'm']);
    } else {
        assert(t.take(2) =~= seq!['f', '/']);
        let sh = rational_text(r, Fmt::Shutter);
        assert(sh.skip(sh.len() - 2) =~= seq![' ', 's']);
        let fo = rational_text(r, Fmt::Focal);
        assert(fo.skip(fo.len() - 3) =~= seq![' ', 'm', 'm']);
    }
}

} // verus!
