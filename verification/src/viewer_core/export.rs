//! Saving an edited image: the name of the copy and the format it is
//! written in. Writing the file is done by the program.
use crate::utils::text::{
    ascii_lower, extension, extension_spec, file_stem, push_char, push_str, stem_spec, str_eq,
    to_ascii_lower,
};
use vstd::prelude::*;

verus! {

/// The formats an edited image can be written in.
#[derive(Debug, Clone, Copy, PartialEq, Eq, Structural)]
pub enum SaveFormat {
    Png,
    Jpeg,
    Bmp,
    Gif,
    Tiff,
    WebP,
    Avif,
}

/// The format named by an extension already in lower case; PNG for any
/// other.
pub open spec fn format_of_lower(e: Seq<char>) -> SaveFormat {
    if e == "jpg"@ || e == "jpeg"@ {
        SaveFormat::Jpeg
    } else if e == "bmp"@ {
        SaveFormat::Bmp
    } else if e == "gif"@ {
        SaveFormat::Gif
    } else if e == "tiff"@ || e == "tif"@ {
        SaveFormat::Tiff
    } else if e == "webp"@ {
        SaveFormat::WebP
    } else if e == "avif"@ {
        SaveFormat::Avif
    } else {
        SaveFormat::Png
    }
}

/// The format that the extension of `path` names, without case; PNG when
/// there is no extension or it is unknown. Unicode lower-casing would pick
/// the same format: no other character lower-cases to these ASCII letters
/// alone.
pub open spec fn guess_format_spec(path: Seq<char>) -> SaveFormat {
    match extension_spec(path) {
        Some(e) => format_of_lower(e.map_values(|c: char| ascii_lower(c))),
        None => SaveFormat::Png,
    }
}

/// `s` in ASCII lower case.
fn lower_ascii(s: &str) -> (r: String)
    ensures
        r@ == s@.map_values(|c: char| ascii_lower(c)),
{
    let n = s.unicode_len();
    let mut lower = String::new();
    let mut i: usize = 0;
    while i < n
        invariant
            n == s@.len(),
            i <= n,
            lower@ == s@.take(i as int).map_values(|c: char| ascii_lower(c)),
        decreases n - i,
    {
        push_char(&mut lower, to_ascii_lower(s.get_char(i)));
        proof {
            assert(s@.take(i + 1).map_values(|c: char| ascii_lower(c)) =~= s@.take(
                i as int,
            ).map_values(|c: char| ascii_lower(c)).push(ascii_lower(s@[i as int])));
        }
        i = i + 1;
    }
    assert(s@.take(n as int) =~= s@);
    lower
}

/// The format to write `path` in, from its extension.
pub fn guess_format(path: &str) -> (r: SaveFormat)
    ensures
        r == guess_format_spec(path@),
{
    match extension(path) {
        Some(e) => {
            let l = lower_ascii(e.as_str());
            let s = l.as_str();
            proof {
                reveal_strlit("jpg");
                reveal_strlit("jpeg");
                reveal_strlit("bmp");
                reveal_strlit("gif");
                reveal_strlit("tiff");
                reveal_strlit("tif");
                reveal_strlit("webp");
                reveal_strlit("avif");
            }
            if str_eq(s, "jpg") || str_eq(s, "jpeg") {
                SaveFormat::Jpeg
            } else if str_eq(s, "bmp") {
                SaveFormat::Bmp
            } else if str_eq(s, "gif") {
                SaveFormat::Gif
            } else if str_eq(s, "tiff") || str_eq(s, "tif") {
                SaveFormat::Tiff
            } else if str_eq(s, "webp") {
                SaveFormat::WebP
            } else if str_eq(s, "avif") {
                SaveFormat::Avif
            } else {
                SaveFormat::Png
            }
        },
        None => SaveFormat::Png,
    }
}

/// The file name of the edited copy of `source`, saved beside it:
/// `<stem>_edit.<extension>`, with `imagen` and `png` standing in for a
/// missing stem or extension.
pub open spec fn edit_copy_name_spec(source: Seq<char>) -> Seq<char> {
    let stem = match stem_spec(source) {
        Some(t) => t,
        None => "imagen"@,
    };
    let ext = match extension_spec(source) {
        Some(e) => e,
        None => "png"@,
    };
    stem + "_edit."@ + ext
}

/// The name suggested in the "save as" dialog for the edited copy of
/// `source`: `<stem>_edit`, or `imagen_editada` when it has no stem.
pub open spec fn suggested_edit_name_spec(source: Seq<char>) -> Seq<char> {
    match stem_spec(source) {
        Some(t) => t + "_edit"@,
        None => "imagen_editada"@,
    }
}

/// The file name of the edited copy of `source`.
pub fn edit_copy_name(source: &str) -> (r: String)
    ensures
        r@ == edit_copy_name_spec(source@),
{
    let mut name = match file_stem(source) {
        Some(t) => t,
        None => String::from_str("imagen"),
    };
    push_str(&mut name, "_edit.");
    match extension(source) {
        Some(e) => push_str(&mut name, e.as_str()),
        None => push_str(&mut name, "png"),
    }
    name
}

/// The name suggested for the edited copy of `source` in the "save as"
/// dialog.
pub fn suggested_edit_name(source: &str) -> (r: String)
    ensures
        r@ == suggested_edit_name_spec(source@),
{
    match file_stem(source) {
        Some(t) => {
            let mut name = t;
            push_str(&mut name, "_edit");
            name
        },
        None => String::from_str("imagen_editada"),
    }
}

/// Law: the format of a saved copy follows its extension without case:
/// `jpg`/`jpeg` give JPEG, `bmp` BMP, `gif` GIF, `tif`/`tiff` TIFF, `webp`
/// WebP, `avif` AVIF, and anything else, or no extension, PNG.
pub proof fn law_format_follows_extension(path: Seq<char>)
    ensures
        ({
            let l = match extension_spec(path) {
                Some(e) => e.map_values(|c: char| ascii_lower(c)),
                None => seq![],
            };
            &&& (l == seq!['j', 'p', 'g'] || l == seq!['j', 'p', 'e', 'g']) ==> guess_format_spec(
                path,
            ) == SaveFormat::Jpeg
            &&& l == seq!['b', 'm', 'p'] ==> guess_format_spec(path) == SaveFormat::Bmp
            &&& l == seq!['g', 'i', 'f'] ==> guess_format_spec(path) == SaveFormat::Gif
            &&& (l == seq!['t', 'i', 'f'] || l == seq!['t', 'i', 'f', 'f']) ==> guess_format_spec(
                path,
            ) == SaveFormat::Tiff
            &&& l == seq!['w', 'e', 'b', 'p'] ==> guess_format_spec(path) == SaveFormat::WebP
            &&& l == seq!['a', 'v', 'i', 'f'] ==> guess_format_spec(path) == SaveFormat::Avif
            &&& extension_spec(path) is None ==> guess_format_spec(path) == SaveFormat::Png
            &&& l == seq!['p', 'n', 'g'] ==> guess_format_spec(path) == SaveFormat::Png
        }),
{
    reveal_strlit("jpg");
    reveal_strlit("jpeg");
    reveal_strlit("bmp");
    reveal_strlit("gif");
    reveal_strlit("tiff");
    reveal_strlit("tif");
    reveal_strlit("webp");
    reveal_strlit("avif");
    assert(seq!['j', 'p', 'g'] == "jpg"@);
    assert(seq!['j', 'p', 'e', 'g'] == "jpeg"@);
    assert(seq!['b', 'm', 'p'] == "bmp"@);
    assert(seq!['g', 'i', 'f'] == "gif"@);
    assert(seq!['t', 'i', 'f'] == "tif"@);
    assert(seq!['t', 'i', 'f', 'f'] == "tiff"@);
    assert(seq!['w', 'e', 'b', 'p'] == "webp"@);
    assert(seq!['a', 'v', 'i', 'f'] == "avif"@);
}

/// Law: the edited copy is named after the original: its stem, then
/// `_edit.`, then its extension; `imagen` and `png` stand in for a missing
/// stem or extension. The name suggested for "save as" is the stem and
/// `_edit`, or `imagen_editada`.
pub proof fn law_copy_is_named_after_the_original(source: Seq<char>)
    ensures
        ({
            let stem = match stem_spec(source) {
                Some(t) => t,
                None => seq!['i', 'm', 'a', 'g', 'e', 'n'],
            };
            let ext = match extension_spec(source) {
                Some(e) => e,
                None => seq!['p', 'n', 'g'],
            };
            edit_copy_name_spec(source) == stem + seq!['_', 'e', 'd', 'i', 't', '.'] + ext
        }),
        stem_spec(source) matches Some(t) ==> suggested_edit_name_spec(source) == t + seq![
            '_',
            'e',
            'd',
            'i',
            't',
        ],
        stem_spec(source) is None ==> suggested_edit_name_spec(source) == seq![
            'i',
            'm',
            'a',
            'g',
            'e',
            'n',
            '_',
            'e',
            'd',
            'i',
            't',
            'a',
            'd',
            'a',
        ],
{
    reveal_strlit("imagen");
    reveal_strlit("png");
    reveal_strlit("_edit.");
    reveal_strlit("_edit");
    reveal_strlit("imagen_editada");
    assert(seq!['i', 'm', 'a', 'g', 'e', 'n'] == "imagen"@);
    assert(seq!['p', 'n', 'g'] == "png"@);
    assert(seq!['_', 'e', 'd', 'i', 't', '.'] == "_edit."@);
    assert(seq!['_', 'e', 'd', 'i', 't'] == "_edit"@);
    assert(seq!['i', 'm', 'a', 'g', 'e', 'n', '_', 'e', 'd', 'i', 't', 'a', 'd', 'a']
        == "imagen_editada"@);
}

} // verus!
