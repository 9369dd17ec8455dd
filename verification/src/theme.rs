//! Light and dark display modes.
//!
//! The colours themselves are floating-point values and belong to the
//! application; which palette is in force is decided here.

use vstd::prelude::*;

verus! {

/// The display mode; dark unless toggled.
#[derive(Clone, Copy, Debug, PartialEq, Eq, Structural)]
pub struct ThemeMode {
    pub dark: bool,
}

impl Default for ThemeMode {
    fn default() -> (r: ThemeMode)
        ensures
            r.dark,
    {
        ThemeMode { dark: true }
    }
}

/// The palette in force.
#[derive(Clone, Copy, Debug, PartialEq, Eq, Structural)]
pub enum Palette {
    Dark,
    Light,
}

/// Whether the dark mode is on.
pub fn is_dark_mode(mode: &ThemeMode) -> (r: bool)
    ensures
        r == mode.dark,
{
    mode.dark
}

/// Switches between dark and light.
pub fn toggle_theme(mode: &mut ThemeMode)
    ensures
        final(mode).dark == !old(mode).dark,
{
    mode.dark = !mode.dark;
}

/// The palette of the current mode.
pub fn current_palette(mode: &ThemeMode) -> (r: Palette)
    ensures
        r == (if mode.dark {
            Palette::Dark
        } else {
            Palette::Light
        }),
{
    if mode.dark {
        Palette::Dark
    } else {
        Palette::Light
    }
}

/// Toggling twice restores the mode.
pub proof fn lemma_toggle_twice(a: ThemeMode, b: ThemeMode, c: ThemeMode)
    requires
        b.dark == !a.dark,
        c.dark == !b.dark,
    ensures
        c == a,
{
}

} // verus!
