//! The interface themes. Applying one to the window is done by the program.
use crate::utils::text::str_eq;
use vstd::prelude::*;

verus! {

/// The other theme: `dark` and `light` swap; any other name falls back to
/// `dark`.
pub open spec fn toggle_spec(name: Seq<char>) -> Seq<char> {
    if name == "dark"@ {
        "light"@
    } else {
        "dark"@
    }
}

/// The theme to switch to from `name`.
pub fn toggle(name: &str) -> (r: &'static str)
    ensures
        r@ == toggle_spec(name@),
{
    if str_eq(name, "dark") {
        "light"
    } else if str_eq(name, "light") {
        "dark"
    } else {
        "dark"
    }
}


/// Law: toggling twice from `dark` or `light` gives the same theme back.
pub proof fn law_toggle_twice(name: Seq<char>)
    requires
        name == "dark"@ || name == "light"@,
    ensures
        toggle_spec(toggle_spec(name)) == name,
{
    reveal_strlit("dark");
    reveal_strlit("light");
}

} // verus!
