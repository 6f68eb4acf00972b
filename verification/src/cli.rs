//! The command line: the viewer takes an optional image path as its first
//! argument.
use crate::utils::text::{trim, trim_spec};
use vstd::prelude::*;

verus! {

/// The image path the command line `args` asks to open (`args[0]` is the
/// program): the first argument, unless it is missing or only white space.
pub open spec fn cli_path(args: Seq<Seq<char>>) -> Option<Seq<char>> {
    if args.len() >= 2 && trim_spec(args[1]).len() > 0 {
        Some(args[1])
    } else {
        None
    }
}

/// Extracts the image path from the command line arguments `args` (the
/// program's name first).
pub fn parse_cli_path(args: Vec<String>) -> (r: Option<String>)
    ensures
        r.is_some() == cli_path(args@.map_values(|a: String| a@)).is_some(),
        r.is_some() ==> r.unwrap()@ == cli_path(args@.map_values(|a: String| a@)).unwrap(),
{
    let ghost views = args@.map_values(|a: String| a@);
    if args.len() < 2 {
        return None;
    }
    let arg = &args[1];
    assert(views[1] == arg@);
    let trimmed = trim(arg.as_str());
    if trimmed.unicode_len() == 0 {
        return None;
    }
    Some(arg.clone())
}

} // verus!
