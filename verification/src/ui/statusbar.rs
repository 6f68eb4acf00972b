//! The status bar's text: file name, dimensions, size on disk and position
//! in the folder.
use crate::utils::rounding::{binary64_value, div_round_half_even, nearest_binary64, round_half_even};
use crate::utils::text::{
    decimal, digit, digit_char, file_name, file_name_spec, push_char, push_decimal, push_str,
};
use crate::viewer_core::navigation::Navigation;
use vstd::arithmetic::power2::{lemma2_to64, pow2};
use vstd::prelude::*;

verus! {

/// What the status bar shows of the current image.
#[derive(Debug, Clone, PartialEq, Eq)]
pub struct StatusInfo {
    pub name: String,
    pub width: u32,
    pub height: u32,
    pub size_bytes: Option<u64>,
    pub index: usize,
    pub total: usize,
}

/// `x` tenths written with one decimal: `"<x / 10>.<x % 10>"`.
pub open spec fn tenths_text(x: nat) -> Seq<char> {
    decimal(x / 10) + seq!['.', digit_char((x % 10) as int)]
}

/// The size `bytes` in a `unit` of 2^`shift` bytes, with one decimal: the
/// value that `bytes as f64 / unit` prints with `{:.1}`, which rounds the
/// exact binary value to the nearest tenth, ties to even.
pub open spec fn scaled_text(bytes: nat, shift: nat) -> Seq<char> {
    tenths_text(round_half_even(nearest_binary64(bytes) * 10, pow2(shift)))
}

/// The human-readable size: whole bytes below 1 KiB, else one decimal in
/// the largest of KB, MB and GB (binary units) that the size reaches.
pub open spec fn bytes_text(bytes: nat) -> Seq<char> {
    if bytes >= pow2(30) {
        scaled_text(bytes, 30) + seq![' ', 'G', 'B']
    } else if bytes >= pow2(20) {
        scaled_text(bytes, 20) + seq![' ', 'M', 'B']
    } else if bytes >= pow2(10) {
        scaled_text(bytes, 10) + seq![' ', 'K', 'B']
    } else {
        decimal(bytes) + seq![' ', 'B']
    }
}

/// Appends `x` tenths with one decimal.
fn push_tenths(s: &mut String, x: u128)
    ensures
        final(s)@ == old(s)@ + tenths_text(x as nat),
{
    push_decimal(s, x / 10);
    push_char(s, '.');
    push_char(s, digit((x % 10) as u8));
    assert(final(s)@ =~= old(s)@ + tenths_text(x as nat));
}

/// Formats a byte count for the status bar (`"512 B"`, `"1.5 KB"`,
/// `"4.2 MB"`, `"5.0 GB"`).
pub fn format_bytes(bytes: u64) -> (r: String)
    ensures
        r@ == bytes_text(bytes as nat),
{
    proof {
        lemma2_to64();
    }
    let mut s = String::new();
    if bytes < 1024 {
        push_decimal(&mut s, bytes as u128);
        push_char(&mut s, ' ');
        push_char(&mut s, 'B');
        assert(s@ =~= bytes_text(bytes as nat));
        return s;
    }
    let value = binary64_value(bytes as u128);
    if bytes >= 1073741824 {
        push_tenths(&mut s, div_round_half_even(value * 10, 1073741824));
        push_char(&mut s, ' ');
        push_char(&mut s, 'G');
    } else if bytes >= 1048576 {
        push_tenths(&mut s, div_round_half_even(value * 10, 1048576));
        push_char(&mut s, ' ');
        push_char(&mut s, 'M');
    } else {
        push_tenths(&mut s, div_round_half_even(value * 10, 1024));
        push_char(&mut s, ' ');
        push_char(&mut s, 'K');
    }
    push_char(&mut s, 'B');
    assert(s@ =~= bytes_text(bytes as nat));
    s
}

/// The status line: `"<name> · <w>×<h> · <size> · <index>/<total>"`, with
/// `—` where the size is unknown.
pub open spec fn status_text(info: StatusInfo) -> Seq<char> {
    let size = match info.size_bytes {
        Some(b) => bytes_text(b as nat),
        None => seq!['\u{2014}'],
    };
    let sep = seq![' ', '\u{b7}', ' '];
    info.name@ + sep + decimal(info.width as nat) + seq!['\u{d7}'] + decimal(info.height as nat)
        + sep + size + sep + decimal(info.index as nat) + seq!['/'] + decimal(info.total as nat)
}

/// Appends the ` · ` separator.
fn push_separator(s: &mut String)
    ensures
        final(s)@ == old(s)@ + seq![' ', '\u{b7}', ' '],
{
    push_char(s, ' ');
    push_char(s, '\u{b7}');
    push_char(s, ' ');
    assert(final(s)@ =~= old(s)@ + seq![' ', '\u{b7}', ' ']);
}

/// Formats the status line of `info`.
pub fn format_status(info: &StatusInfo) -> (r: String)
    ensures
        r@ == status_text(*info),
{
    let mut s = String::new();
    push_str(&mut s, info.name.as_str());
    push_separator(&mut s);
    push_decimal(&mut s, info.width as u128);
    push_char(&mut s, '\u{d7}');
    push_decimal(&mut s, info.height as u128);
    push_separator(&mut s);
    match info.size_bytes {
        Some(b) => {
            let t = format_bytes(b);
            push_str(&mut s, t.as_str());
        },
        None => {
            push_char(&mut s, '\u{2014}');
        },
    }
    push_separator(&mut s);
    push_decimal(&mut s, info.index as u128);
    push_char(&mut s, '/');
    push_decimal(&mut s, info.total as u128);
    assert(s@ =~= status_text(*info));
    s
}


/// What the status bar shows for the current image of `nav`, drawn at
/// `width` by `height` and `size_bytes` long on disk: its file name and its
/// position (counted from 1). `None` when there is no current image or its
/// path has no file name.
pub fn current_status_info(nav: &Navigation, width: u32, height: u32, size_bytes: u64) -> (r: Option<
    StatusInfo,
>)
    ensures
        match r {
            Some(info) => {
                &&& nav.current < nav.images@.len()
                &&& file_name_spec(nav.images@[nav.current as int]@) == Some(info.name@)
                &&& info.width == width && info.height == height
                &&& info.size_bytes == Some(size_bytes)
                &&& info.index == nav.current + 1
                &&& info.total == nav.images@.len()
            },
            None => nav.current >= nav.images@.len() || file_name_spec(
                nav.images@[nav.current as int]@,
            ) is None,
        },
{
    if nav.current >= nav.images.len() {
        return None;
    }
    let path = &nav.images[nav.current];
    match file_name(path.as_str()) {
        Some(name) => Some(
            StatusInfo {
                name,
                width,
                height,
                size_bytes: Some(size_bytes),
                index: nav.current + 1,
                total: nav.images.len(),
            },
        ),
        None => None,
    }
}

} // verus!
