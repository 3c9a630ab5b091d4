//! The "About" panel.

use vstd::prelude::*;

verus! {

/// The "About" panel: a heading and the project link.
pub struct AboutPanel {}

impl AboutPanel {
    /// The panel.
    pub fn new() -> (r: Self) {
        AboutPanel {}
    }

    /// Name of the panel.
    pub fn name(&self) -> (r: &'static str)
        ensures
            r@ == "About"@,
    {
        "About"
    }

    /// Title of the panel's window.
    pub fn window_title(&self) -> (r: &'static str)
        ensures
            r@ == "About"@,
    {
        "About"
    }

    /// The link the panel shows: its label and its address.
    pub fn project_link(&self) -> (r: (&'static str, &'static str))
        ensures
            r.0@ == "github"@,
            r.1@ == "https://github.com/tramex/tramex"@,
    {
        ("github", "https://github.com/tramex/tramex")
    }
}

} // verus!
