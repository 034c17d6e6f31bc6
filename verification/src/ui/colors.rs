//! The colours of the interface: the accents follow the terminal's palette
//! where it reported one, else a bright set for a dark or a light background.
use crate::ui::theme::{Palette, Rgb};
use vstd::prelude::*;

verus! {

/// A colour of the interface: the terminal's own, or a true colour.
#[derive(Debug, Clone, Copy, PartialEq, Eq, Structural)]
pub enum Color {
    Reset,
    Rgb(u8, u8, u8),
}

/// Whether the terminal has a dark or a light background.
#[derive(Debug, Clone, Copy, PartialEq, Eq, Structural)]
pub enum ThemeMode {
    Dark,
    Light,
}

/// The colours of the interface.
#[derive(Debug, Clone, Copy, PartialEq, Eq, Structural)]
pub struct Theme {
    pub fg: Color,
    pub fg_dim: Color,
    pub red: Color,
    pub green: Color,
    pub yellow: Color,
    pub border: Color,
    pub accent: Color,
    pub selection_bg: Color,
}

/// The set for a dark background.
pub open spec fn dark_theme() -> Theme {
    Theme {
        fg: Color::Reset,
        fg_dim: Color::Rgb(0x9e, 0x9e, 0x9e),
        red: Color::Rgb(0xf8, 0x51, 0x49),
        green: Color::Rgb(0x3f, 0xb9, 0x50),
        yellow: Color::Rgb(0xd2, 0x99, 0x22),
        border: Color::Rgb(0x7e, 0x77, 0x99),
        accent: Color::Rgb(0xe8, 0x86, 0x2e),
        selection_bg: Color::Rgb(0x4a, 0x4a, 0x55),
    }
}

/// The set for a light background.
pub open spec fn light_theme() -> Theme {
    Theme {
        fg: Color::Reset,
        fg_dim: Color::Rgb(0x61, 0x61, 0x61),
        red: Color::Rgb(0xc6, 0x28, 0x28),
        green: Color::Rgb(0x2e, 0x7d, 0x32),
        yellow: Color::Rgb(0xa0, 0x6c, 0x00),
        border: Color::Rgb(0x5f, 0x58, 0x75),
        accent: Color::Rgb(0xb4, 0x5f, 0x06),
        selection_bg: Color::Rgb(0xd6, 0xd3, 0xde),
    }
}

/// The colour of a reported slot.
pub open spec fn rgb_color(c: Rgb) -> Color {
    Color::Rgb(c.0, c.1, c.2)
}

/// The reported slot, else the first fallback slot, else the fixed colour.
pub open spec fn slot_or(a: Option<Rgb>, b: Option<Rgb>, fallback: Color) -> Color {
    match a {
        Some(c) => rgb_color(c),
        None => match b {
            Some(c) => rgb_color(c),
            None => fallback,
        },
    }
}

/// The theme of a reported palette: dim text from slot 8, red, green and
/// yellow from slots 1 to 3, the border from slot 5 (else 3), the accent
/// from slot 3 (else 2); what is missing comes from the set for the mode.
pub open spec fn palette_theme(p: Palette, mode: ThemeMode) -> Theme {
    let base = match mode {
        ThemeMode::Dark => dark_theme(),
        ThemeMode::Light => light_theme(),
    };
    Theme {
        fg: Color::Reset,
        fg_dim: slot_or(p.color8, None, base.fg_dim),
        red: slot_or(p.color1, None, base.red),
        green: slot_or(p.color2, None, base.green),
        yellow: slot_or(p.color3, None, base.yellow),
        border: slot_or(p.color5, p.color3, base.border),
        accent: slot_or(p.color3, p.color2, base.accent),
        selection_bg: base.selection_bg,
    }
}

fn pick(a: Option<Rgb>, b: Option<Rgb>, fallback: Color) -> (r: Color)
    ensures
        r == slot_or(a, b, fallback),
{
    match a {
        Some(c) => Color::Rgb(c.0, c.1, c.2),
        None => match b {
            Some(c) => Color::Rgb(c.0, c.1, c.2),
            None => fallback,
        },
    }
}

impl Theme {
    /// The set for a dark background.
    pub fn dark() -> (r: Theme)
        ensures
            r == dark_theme(),
    {
        Theme {
            fg: Color::Reset,
            fg_dim: Color::Rgb(0x9e, 0x9e, 0x9e),
            red: Color::Rgb(0xf8, 0x51, 0x49),
            green: Color::Rgb(0x3f, 0xb9, 0x50),
            yellow: Color::Rgb(0xd2, 0x99, 0x22),
            border: Color::Rgb(0x7e, 0x77, 0x99),
            accent: Color::Rgb(0xe8, 0x86, 0x2e),
            selection_bg: Color::Rgb(0x4a, 0x4a, 0x55),
        }
    }

    /// The set for a light background.
    pub fn light() -> (r: Theme)
        ensures
            r == light_theme(),
    {
        Theme {
            fg: Color::Reset,
            fg_dim: Color::Rgb(0x61, 0x61, 0x61),
            red: Color::Rgb(0xc6, 0x28, 0x28),
            green: Color::Rgb(0x2e, 0x7d, 0x32),
            yellow: Color::Rgb(0xa0, 0x6c, 0x00),
            border: Color::Rgb(0x5f, 0x58, 0x75),
            accent: Color::Rgb(0xb4, 0x5f, 0x06),
            selection_bg: Color::Rgb(0xd6, 0xd3, 0xde),
        }
    }

    /// The theme of the terminal's palette; slots it did not report come
    /// from the set for `mode`.
    pub fn from_palette(palette: &Palette, mode: ThemeMode) -> (r: Theme)
        ensures
            r == palette_theme(*palette, mode),
    {
        let base = match mode {
            ThemeMode::Dark => Theme::dark(),
            ThemeMode::Light => Theme::light(),
        };
        Theme {
            fg: Color::Reset,
            fg_dim: pick(palette.color8, None, base.fg_dim),
            red: pick(palette.color1, None, base.red),
            green: pick(palette.color2, None, base.green),
            yellow: pick(palette.color3, None, base.yellow),
            border: pick(palette.color5, palette.color3, base.border),
            accent: pick(palette.color3, palette.color2, base.accent),
            selection_bg: base.selection_bg,
        }
    }
}

/// A palette that reported none of the accent slots gives the fixed set of
/// its mode.
pub proof fn lemma_empty_palette_gives_fixed_set(p: Palette, mode: ThemeMode)
    requires
        p.color1 is None && p.color2 is None && p.color3 is None && p.color5 is None
            && p.color8 is None,
    ensures
        palette_theme(p, mode) == (match mode {
            ThemeMode::Dark => dark_theme(),
            ThemeMode::Light => light_theme(),
        }),
{
}

} // verus!
