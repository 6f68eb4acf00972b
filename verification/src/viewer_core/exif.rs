//! The EXIF metadata the information panel shows, curated from the fields of
//! an image's primary IFD.
//!
//! The program reads the file; the library parses its EXIF block with the
//! `exif` crate, then picks and cleans the fields.
use crate::utils::errors::ShImagesError;
use crate::utils::text::{ascii_lower, extension, extension_spec, to_ascii_lower, trim, trim_spec};

use vstd::prelude::*;

verus! {

#[verifier::external_type_specification]
#[verifier::external_body]
pub struct ExExif(::exif::Exif);

#[verifier::external_type_specification]
pub struct ExContext(::exif::Context);

/// An EXIF rational (numerator / denominator).
#[derive(Debug, Clone, Copy, PartialEq, Eq, Structural)]
pub struct Rational {
    pub num: u64,
    pub den: u64,
}

impl Rational {
    /// The rational `num / den`.
    pub fn new(num: u64, den: u64) -> (r: Self)
        ensures
            r.num == num && r.den == den,
    {
        Self { num, den }
    }
}

/// The curated metadata shown by the information panel.
#[derive(Debug, Clone, PartialEq, Eq)]
pub struct ExifImage {
    pub make: Option<String>,
    pub model: Option<String>,
    pub fecha: Option<String>,
    pub iso: Option<u32>,
    pub f_number: Option<Rational>,
    pub shutter_speed: Option<Rational>,
    pub focal_length: Option<Rational>,
    pub orientacion: Option<u16>,
}

impl Default for ExifImage {
    fn default() -> (r: Self)
        ensures
            r.make is None && r.model is None && r.fecha is None && r.iso is None && r.f_number is None
                && r.shutter_speed is None && r.focal_length is None && r.orientacion is None,
    {
        ExifImage {
            make: None,
            model: None,
            fecha: None,
            iso: None,
            f_number: None,
            shutter_speed: None,
            focal_length: None,
            orientacion: None,
        }
    }
}

/// The outcome of reading an image's metadata: found, absent, or failed.
#[derive(Debug)]
pub enum ExifRead {
    /// The metadata that was read.
    Found(ExifImage),
    /// The file carries no EXIF block.
    NoExif,
    /// Reading or parsing failed.
    Error(ShImagesError),
}

/// The value of an EXIF field, as far as the viewer reads it.
#[derive(Debug, Clone, PartialEq, Eq)]
pub enum FieldValue {
    Ascii(Vec<Vec<u8>>),
    Rational(Vec<(u32, u32)>),
    Byte(Vec<u8>),
    Short(Vec<u16>),
    Long(Vec<u32>),
    Other,
}

/// The fields of the primary IFD of `e`, by tag (context and number).
pub uninterp spec fn exif_primary_fields(e: ::exif::Exif) -> Map<(::exif::Context, u16), FieldValue>;

/// `Exif::get_field(Tag(ctx, number), In::PRIMARY)`: the field with that tag
/// in the primary image, its value converted one for one.
#[verifier::external_body]
fn primary_field(e: &::exif::Exif, ctx: ::exif::Context, number: u16) -> (r: Option<FieldValue>)
    ensures
        r == (if exif_primary_fields(*e).contains_key((ctx, number)) {
            Some(exif_primary_fields(*e)[(ctx, number)])
        } else {
            None::<FieldValue>
        }),
{
    match e.get_field(exif::Tag(ctx, number), ::exif::In::PRIMARY) {
        None => None,
        Some(f) => Some(match &f.value {
            ::exif::Value::Ascii(v) => FieldValue::Ascii(v.clone()),
            ::exif::Value::Rational(v) => FieldValue::Rational(v.iter().map(|r| (r.num, r.denom)).collect()),
            ::exif::Value::Byte(v) => FieldValue::Byte(v.clone()),
            ::exif::Value::Short(v) => FieldValue::Short(v.clone()),
            ::exif::Value::Long(v) => FieldValue::Long(v.clone()),
            _ => FieldValue::Other,
        }),
    }
}

/// The text that `String::from_utf8_lossy` makes of `b`.
pub uninterp spec fn utf8_lossy(b: Seq<u8>) -> Seq<char>;

/// `String::from_utf8_lossy`: the UTF-8 text of `b`, invalid sequences
/// replaced by U+FFFD.
#[verifier::external_body]
fn from_utf8_lossy(b: &[u8]) -> (r: String)
    ensures
        r@ == utf8_lossy(b@),
{
    String::from_utf8_lossy(b).into_owned()
}

/// The tags the viewer reads.
#[derive(Debug, Clone, Copy, PartialEq, Eq, Structural)]
pub enum ExifTag {
    Make,
    Model,
    Orientation,
    DateTime,
    ExposureTime,
    FNumber,
    PhotographicSensitivity,
    ISOSpeed,
    DateTimeOriginal,
    FocalLength,
}

/// The context and number of a tag.
pub open spec fn tag_key(t: ExifTag) -> (::exif::Context, u16) {
    match t {
        ExifTag::Make => (::exif::Context::Tiff, 0x10f),
        ExifTag::Model => (::exif::Context::Tiff, 0x110),
        ExifTag::Orientation => (::exif::Context::Tiff, 0x112),
        ExifTag::DateTime => (::exif::Context::Tiff, 0x132),
        ExifTag::ExposureTime => (::exif::Context::Exif, 0x829a),
        ExifTag::FNumber => (::exif::Context::Exif, 0x829d),
        ExifTag::PhotographicSensitivity => (::exif::Context::Exif, 0x8827),
        ExifTag::ISOSpeed => (::exif::Context::Exif, 0x8833),
        ExifTag::DateTimeOriginal => (::exif::Context::Exif, 0x9003),
        ExifTag::FocalLength => (::exif::Context::Exif, 0x920a),
    }
}

fn tag_parts(t: ExifTag) -> (r: (::exif::Context, u16))
    ensures
        r == tag_key(t),
{
    match t {
        ExifTag::Make => (::exif::Context::Tiff, 0x10f),
        ExifTag::Model => (::exif::Context::Tiff, 0x110),
        ExifTag::Orientation => (::exif::Context::Tiff, 0x112),
        ExifTag::DateTime => (::exif::Context::Tiff, 0x132),
        ExifTag::ExposureTime => (::exif::Context::Exif, 0x829a),
        ExifTag::FNumber => (::exif::Context::Exif, 0x829d),
        ExifTag::PhotographicSensitivity => (::exif::Context::Exif, 0x8827),
        ExifTag::ISOSpeed => (::exif::Context::Exif, 0x8833),
        ExifTag::DateTimeOriginal => (::exif::Context::Exif, 0x9003),
        ExifTag::FocalLength => (::exif::Context::Exif, 0x920a),
    }
}

/// The field with tag `t` of the primary image.
pub open spec fn field_of(e: ::exif::Exif, t: ExifTag) -> Option<FieldValue> {
    if exif_primary_fields(e).contains_key(tag_key(t)) {
        Some(exif_primary_fields(e)[tag_key(t)])
    } else {
        None
    }
}

/// The first string of an ASCII field, decoded and trimmed.
pub open spec fn ascii_value_spec(e: ::exif::Exif, t: ExifTag) -> Option<Seq<char>> {
    match field_of(e, t) {
        Some(FieldValue::Ascii(v)) => if v@.len() > 0 {
            Some(trim_spec(utf8_lossy(v@[0]@)))
        } else {
            None
        },
        _ => None,
    }
}

/// The first rational of a RATIONAL field.
pub open spec fn rational_value_spec(e: ::exif::Exif, t: ExifTag) -> Option<Rational> {
    match field_of(e, t) {
        Some(FieldValue::Rational(v)) => if v@.len() > 0 {
            Some(Rational { num: v@[0].0 as u64, den: v@[0].1 as u64 })
        } else {
            None
        },
        _ => None,
    }
}

/// The first unsigned integer of a BYTE, SHORT or LONG field.
pub open spec fn uint_value_spec(e: ::exif::Exif, t: ExifTag) -> Option<u32> {
    match field_of(e, t) {
        Some(FieldValue::Byte(v)) => if v@.len() > 0 {
            Some(v@[0] as u32)
        } else {
            None
        },
        Some(FieldValue::Short(v)) => if v@.len() > 0 {
            Some(v@[0] as u32)
        } else {
            None
        },
        Some(FieldValue::Long(v)) => if v@.len() > 0 {
            Some(v@[0])
        } else {
            None
        },
        _ => None,
    }
}

/// The sensitivity: `PhotographicSensitivity`, else `ISOSpeed`.
pub open spec fn iso_value_spec(e: ::exif::Exif) -> Option<u32> {
    match uint_value_spec(e, ExifTag::PhotographicSensitivity) {
        Some(v) => Some(v),
        None => uint_value_spec(e, ExifTag::ISOSpeed),
    }
}

/// `o`, or `p` when `o` is absent.
pub open spec fn or_else<T>(o: Option<T>, p: Option<T>) -> Option<T> {
    match o {
        Some(v) => Some(v),
        None => p,
    }
}

/// The curated view of the metadata of `e`.
pub open spec fn build_image_spec(e: ::exif::Exif, r: ExifImage) -> bool {
    &&& opt_view(r.make) == ascii_value_spec(e, ExifTag::Make)
    &&& opt_view(r.model) == ascii_value_spec(e, ExifTag::Model)
    &&& opt_view(r.fecha) == or_else(
        ascii_value_spec(e, ExifTag::DateTimeOriginal),
        ascii_value_spec(e, ExifTag::DateTime),
    )
    &&& r.iso == iso_value_spec(e)
    &&& r.f_number == rational_value_spec(e, ExifTag::FNumber)
    &&& r.shutter_speed == rational_value_spec(e, ExifTag::ExposureTime)
    &&& r.focal_length == rational_value_spec(e, ExifTag::FocalLength)
    &&& r.orientacion == (match uint_value_spec(e, ExifTag::Orientation) {
        Some(v) => Some(v as u16),
        None => None,
    })
}

/// The view of an optional string.
pub open spec fn opt_view(o: Option<String>) -> Option<Seq<char>> {
    match o {
        Some(s) => Some(s@),
        None => None,
    }
}

/// The first string of the ASCII field `tag`, decoded and trimmed.
pub fn ascii_value(exif: &::exif::Exif, tag: ExifTag) -> (r: Option<String>)
    ensures
        opt_view(r) == ascii_value_spec(*exif, tag),
{
    let (ctx, number) = tag_parts(tag);
    match primary_field(exif, ctx, number) {
        Some(FieldValue::Ascii(v)) => {
            if v.len() > 0 {
                let text = from_utf8_lossy(v[0].as_slice());
                Some(trim(text.as_str()))
            } else {
                None
            }
        },
        _ => None,
    }
}

/// The first rational of the RATIONAL field `tag`.
pub fn rational_value(exif: &::exif::Exif, tag: ExifTag) -> (r: Option<Rational>)
    ensures
        r == rational_value_spec(*exif, tag),
{
    let (ctx, number) = tag_parts(tag);
    match primary_field(exif, ctx, number) {
        Some(FieldValue::Rational(v)) => {
            if v.len() > 0 {
                Some(Rational::new(v[0].0 as u64, v[0].1 as u64))
            } else {
                None
            }
        },
        _ => None,
    }
}

/// The first unsigned integer of the BYTE, SHORT or LONG field `tag`.
pub fn uint_value(exif: &::exif::Exif, tag: ExifTag) -> (r: Option<u32>)
    ensures
        r == uint_value_spec(*exif, tag),
{
    let (ctx, number) = tag_parts(tag);
    match primary_field(exif, ctx, number) {
        Some(FieldValue::Byte(v)) => if v.len() > 0 {
            Some(v[0] as u32)
        } else {
            None
        },
        Some(FieldValue::Short(v)) => if v.len() > 0 {
            Some(v[0] as u32)
        } else {
            None
        },
        Some(FieldValue::Long(v)) => if v.len() > 0 {
            Some(v[0])
        } else {
            None
        },
        _ => None,
    }
}

/// The sensitivity: `PhotographicSensitivity`, else `ISOSpeed`.
pub fn iso_value(exif: &::exif::Exif) -> (r: Option<u32>)
    ensures
        r == iso_value_spec(*exif),
{
    match uint_value(exif, ExifTag::PhotographicSensitivity) {
        Some(v) => Some(v),
        None => uint_value(exif, ExifTag::ISOSpeed),
    }
}

/// The curated metadata of `exif`.
pub fn build_image(exif: &::exif::Exif) -> (r: ExifImage)
    ensures
        build_image_spec(*exif, r),
{
    let fecha = match ascii_value(exif, ExifTag::DateTimeOriginal) {
        Some(v) => Some(v),
        None => ascii_value(exif, ExifTag::DateTime),
    };
    let orientacion = match uint_value(exif, ExifTag::Orientation) {
        Some(v) => Some(v as u16),
        None => None,
    };
    ExifImage {
        make: ascii_value(exif, ExifTag::Make),
        model: ascii_value(exif, ExifTag::Model),
        fecha,
        iso: iso_value(exif),
        f_number: rational_value(exif, ExifTag::FNumber),
        shutter_speed: rational_value(exif, ExifTag::ExposureTime),
        focal_length: rational_value(exif, ExifTag::FocalLength),
        orientacion,
    }
}

/// `e` is `jpg`, `jpeg`, `tif` or `tiff` without ASCII case.
pub open spec fn is_exif_extension(e: Seq<char>) -> bool {
    let l = e.map_values(|c: char| ascii_lower(c));
    l == "jpg"@ || l == "jpeg"@ || l == "tif"@ || l == "tiff"@
}

/// `true` for the formats that can carry EXIF here: JPEG and TIFF, by
/// extension without ASCII case.
pub fn is_exif_capable(path: &str) -> (r: bool)
    ensures
        r == (match extension_spec(path@) {
            Some(e) => is_exif_extension(e),
            None => false,
        }),
{
    match extension(path) {
        Some(e) => {
            let n = e.unicode_len();
            let mut lower = String::new();
            let mut i: usize = 0;
            while i < n
                invariant
                    n == e@.len(),
                    i <= n,
                    lower@ == e@.take(i as int).map_values(|c: char| ascii_lower(c)),
                decreases n - i,
            {
                crate::utils::text::push_char(&mut lower, to_ascii_lower(e.get_char(i)));
                assert(e@.take(i + 1).map_values(|c: char| ascii_lower(c)) =~= e@.take(
                    i as int,
                ).map_values(|c: char| ascii_lower(c)).push(ascii_lower(e@[i as int])));
                i = i + 1;
            }
            assert(e@.take(i as int) =~= e@);
            let l = lower.as_str();
            let r = crate::utils::text::str_eq(l, "jpg") || crate::utils::text::str_eq(l, "jpeg")
                || crate::utils::text::str_eq(l, "tif") || crate::utils::text::str_eq(l, "tiff");
            r
        },
        None => false,
    }
}


impl ExifRead {
    /// The outcome of a metadata read that returned `r`.
    pub fn from_result(r: Result<Option<ExifImage>, ShImagesError>) -> (o: ExifRead)
        ensures
            match r {
                Ok(Some(img)) => o == ExifRead::Found(img),
                Ok(None) => o == ExifRead::NoExif,
                Err(e) => o == ExifRead::Error(e),
            },
    {
        match r {
            Ok(Some(img)) => ExifRead::Found(img),
            Ok(None) => ExifRead::NoExif,
            Err(e) => ExifRead::Error(e),
        }
    }
}

/// What parsing an image file's EXIF block gives: the block, its absence,
/// or a malformed block with the parser's message.
pub enum ContainerExif {
    Found(::exif::Exif),
    NotFound,
    Malformed(String),
}

/// What `exif::Reader::read_from_container` makes of the image file
/// `bytes`.
pub uninterp spec fn exif_container(bytes: Seq<u8>) -> ContainerExif;

/// `exif::Reader::new().read_from_container` on `bytes`: `NotFound` when
/// the file has no EXIF block, any other failure with its message.
#[verifier::external_body]
fn parse_exif_container(bytes: &[u8]) -> (r: ContainerExif)
    ensures
        r == exif_container(bytes@),
{
    match ::exif::Reader::new().read_from_container(&mut std::io::Cursor::new(bytes)) {
        Ok(e) => ContainerExif::Found(e),
        Err(::exif::Error::NotFound(_)) => ContainerExif::NotFound,
        Err(other) => ContainerExif::Malformed(other.to_string()),
    }
}

/// The curated metadata of the image file `bytes`: `None` when it has no
/// EXIF block, an EXIF error with the parser's message when the block is
/// malformed.
pub fn exif_from_bytes(bytes: &[u8]) -> (r: Result<Option<ExifImage>, ShImagesError>)
    ensures
        container_result(exif_container(bytes@), r),
{
    exif_from_container(parse_exif_container(bytes))
}

/// `r` is what the viewer makes of the parsed container `c`: the curated
/// metadata of a block, `None` without one, the parser's message for a
/// malformed one.
pub open spec fn container_result(c: ContainerExif, r: Result<Option<ExifImage>, ShImagesError>) -> bool {
    match c {
        ContainerExif::Found(e) => r matches Ok(Some(img)) && build_image_spec(e, img),
        ContainerExif::NotFound => r matches Ok(None),
        ContainerExif::Malformed(m) => r matches Err(ShImagesError::Exif(s)) && s@ == m@,
    }
}

/// The curated metadata of a parsed container: `None` when the file has no
/// EXIF block, an EXIF error with the parser's message when it is
/// malformed.
pub fn exif_from_container(c: ContainerExif) -> (r: Result<Option<ExifImage>, ShImagesError>)
    ensures
        container_result(c, r),
{
    match c {
        ContainerExif::Found(e) => Ok(Some(build_image(&e))),
        ContainerExif::NotFound => Ok(None),
        ContainerExif::Malformed(m) => Err(ShImagesError::Exif(m)),
    }
}

/// The field of the primary image of `e` with tag `(ctx, number)`.
pub open spec fn field_at(e: ::exif::Exif, ctx: ::exif::Context, number: u16) -> Option<FieldValue> {
    if exif_primary_fields(e).contains_key((ctx, number)) {
        Some(exif_primary_fields(e)[(ctx, number)])
    } else {
        None
    }
}

/// The first rational of a field, if it is a non-empty RATIONAL field.
pub open spec fn first_rational(f: Option<FieldValue>) -> Option<Rational> {
    match f {
        Some(FieldValue::Rational(v)) => if v@.len() > 0 {
            Some(Rational { num: v@[0].0 as u64, den: v@[0].1 as u64 })
        } else {
            None
        },
        _ => None,
    }
}

/// The first number of a field, if it is a non-empty BYTE, SHORT or LONG
/// field.
pub open spec fn first_number(f: Option<FieldValue>) -> Option<u32> {
    match f {
        Some(FieldValue::Byte(v)) => if v@.len() > 0 {
            Some(v@[0] as u32)
        } else {
            None
        },
        Some(FieldValue::Short(v)) => if v@.len() > 0 {
            Some(v@[0] as u32)
        } else {
            None
        },
        Some(FieldValue::Long(v)) => if v@.len() > 0 {
            Some(v@[0])
        } else {
            None
        },
        _ => None,
    }
}

/// The first text of a field, decoded and trimmed, if it is a non-empty
/// ASCII field.
pub open spec fn first_text(f: Option<FieldValue>) -> Option<Seq<char>> {
    match f {
        Some(FieldValue::Ascii(v)) => if v@.len() > 0 {
            Some(trim_spec(utf8_lossy(v@[0]@)))
        } else {
            None
        },
        _ => None,
    }
}

/// Law: each curated entry is read from its own EXIF tag of the primary
/// image: the maker from TIFF 0x10F, the model from TIFF 0x110, the date
/// from Exif 0x9003 (DateTimeOriginal) or else TIFF 0x132 (DateTime), the
/// sensitivity from Exif 0x8827 or else Exif 0x8833, the aperture from Exif
/// 0x829D (FNumber), the shutter speed from Exif 0x829A (ExposureTime), the
/// focal length from Exif 0x920A and the orientation from TIFF 0x112.
pub proof fn law_each_entry_reads_its_tag(e: ::exif::Exif, img: ExifImage)
    requires
        build_image_spec(e, img),
    ensures
        opt_view(img.make) == first_text(field_at(e, ::exif::Context::Tiff, 0x10f)),
        opt_view(img.model) == first_text(field_at(e, ::exif::Context::Tiff, 0x110)),
        opt_view(img.fecha) == (match first_text(field_at(e, ::exif::Context::Exif, 0x9003)) {
            Some(t) => Some(t),
            None => first_text(field_at(e, ::exif::Context::Tiff, 0x132)),
        }),
        img.iso == (match first_number(field_at(e, ::exif::Context::Exif, 0x8827)) {
            Some(v) => Some(v),
            None => first_number(field_at(e, ::exif::Context::Exif, 0x8833)),
        }),
        img.f_number == first_rational(field_at(e, ::exif::Context::Exif, 0x829d)),
        img.shutter_speed == first_rational(field_at(e, ::exif::Context::Exif, 0x829a)),
        img.focal_length == first_rational(field_at(e, ::exif::Context::Exif, 0x920a)),
        img.orientacion == (match first_number(field_at(e, ::exif::Context::Tiff, 0x112)) {
            Some(v) => Some(v as u16),
            None => None,
        }),
{
}

/// Law: a parsed block gives its curated metadata, a file without a block
/// gives no metadata and no error, and a malformed block gives an EXIF
/// error with the parser's message.
pub proof fn law_containers_become_metadata(c: ContainerExif, r: Result<Option<ExifImage>, ShImagesError>)
    requires
        container_result(c, r),
    ensures
        c matches ContainerExif::Found(e) ==> r matches Ok(Some(img)) && build_image_spec(e, img),
        c is NotFound ==> r == Ok::<Option<ExifImage>, ShImagesError>(None),
        c matches ContainerExif::Malformed(m) ==> r matches Err(ShImagesError::Exif(x)) && x@
            == m@,
{
}

} // verus!
