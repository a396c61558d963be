//! Theme — the colour palette and style helpers used across the UI: dark
//! surfaces with a pink accent; focused panes get a bold accent border.
//!
//! Colours and styles are plain values here; the terminal front end turns
//! them into its own style type.
use vstd::prelude::*;

verus! {

/// A 24-bit colour.
#[derive(Clone, Copy, Debug, PartialEq, Eq, Structural)]
pub struct Rgb {
    pub r: u8,
    pub g: u8,
    pub b: u8,
}

pub fn rgb(r: u8, g: u8, b: u8) -> (c: Rgb)
    ensures
        c == (Rgb { r, g, b }),
{
    Rgb { r, g, b }
}

/// A text style: optional foreground and background, and modifiers.
#[derive(Clone, Copy, Debug, PartialEq, Eq, Structural)]
pub struct StyleSpec {
    pub fg: Option<Rgb>,
    pub bg: Option<Rgb>,
    pub bold: bool,
    pub italic: bool,
    pub reversed: bool,
}

/// The unstyled default.
pub open spec fn plain() -> StyleSpec {
    StyleSpec { fg: None, bg: None, bold: false, italic: false, reversed: false }
}

/// A style with only a foreground colour.
pub open spec fn fg_only(c: Rgb) -> StyleSpec {
    StyleSpec { fg: Some(c), ..plain() }
}

impl StyleSpec {
    pub fn plain() -> (s: StyleSpec)
        ensures
            s == plain(),
    {
        StyleSpec { fg: None, bg: None, bold: false, italic: false, reversed: false }
    }

    pub fn fg(self, c: Rgb) -> (s: StyleSpec)
        ensures
            s == (StyleSpec { fg: Some(c), ..self }),
    {
        StyleSpec { fg: Some(c), ..self }
    }

    pub fn bg(self, c: Rgb) -> (s: StyleSpec)
        ensures
            s == (StyleSpec { bg: Some(c), ..self }),
    {
        StyleSpec { bg: Some(c), ..self }
    }

    pub fn bold(self) -> (s: StyleSpec)
        ensures
            s == (StyleSpec { bold: true, ..self }),
    {
        StyleSpec { bold: true, ..self }
    }

    pub fn italic(self) -> (s: StyleSpec)
        ensures
            s == (StyleSpec { italic: true, ..self }),
    {
        StyleSpec { italic: true, ..self }
    }

    pub fn reversed(self) -> (s: StyleSpec)
        ensures
            s == (StyleSpec { reversed: true, ..self }),
    {
        StyleSpec { reversed: true, ..self }
    }
}

#[derive(Clone, Copy, Debug, PartialEq, Eq, Structural)]
pub struct Theme {
    // Surfaces
    pub bg: Rgb,
    pub bg_alt: Rgb,
    pub bg_sel: Rgb,
    pub fg: Rgb,
    pub fg_dim: Rgb,
    pub fg_subtle: Rgb,
    // Accents
    pub accent: Rgb,
    pub accent_alt: Rgb,
    // Semantic
    pub success: Rgb,
    pub warning: Rgb,
    pub error: Rgb,
    pub info: Rgb,
    // Borders
    pub border: Rgb,
    pub border_focus: Rgb,
}

/// "Canopy Pink" — dark surfaces with a vivid pink accent.
pub open spec fn pink_theme() -> Theme {
    Theme {
        bg: Rgb { r: 0x1b, g: 0x1b, b: 0x21 },
        bg_alt: Rgb { r: 0x23, g: 0x22, b: 0x29 },
        bg_sel: Rgb { r: 0x3a, g: 0x2a, b: 0x38 },
        fg: Rgb { r: 0xec, g: 0xe6, b: 0xf0 },
        fg_dim: Rgb { r: 0xa3, g: 0x9b, b: 0xb0 },
        fg_subtle: Rgb { r: 0x6e, g: 0x68, b: 0x78 },
        accent: Rgb { r: 0xff, g: 0x6a, b: 0xc1 },
        accent_alt: Rgb { r: 0xc7, g: 0x92, b: 0xea },
        success: Rgb { r: 0x7e, g: 0xe7, b: 0x87 },
        warning: Rgb { r: 0xf0, g: 0xc6, b: 0x74 },
        error: Rgb { r: 0xff, g: 0x6b, b: 0x6b },
        info: Rgb { r: 0x7a, g: 0xd9, b: 0xf5 },
        border: Rgb { r: 0x3a, g: 0x33, b: 0x40 },
        border_focus: Rgb { r: 0xff, g: 0x6a, b: 0xc1 },
    }
}

impl Default for Theme {
    fn default() -> (t: Self)
        ensures
            t == pink_theme(),
    {
        Self::pink()
    }
}

impl Theme {
    /// "Canopy Pink" — dark surfaces with a vivid pink accent.
    pub fn pink() -> (t: Self)
        ensures
            t == pink_theme(),
    {
        Self {
            bg: rgb(0x1b, 0x1b, 0x21),
            bg_alt: rgb(0x23, 0x22, 0x29),
            bg_sel: rgb(0x3a, 0x2a, 0x38),
            fg: rgb(0xec, 0xe6, 0xf0),
            fg_dim: rgb(0xa3, 0x9b, 0xb0),
            fg_subtle: rgb(0x6e, 0x68, 0x78),
            accent: rgb(0xff, 0x6a, 0xc1),
            accent_alt: rgb(0xc7, 0x92, 0xea),
            success: rgb(0x7e, 0xe7, 0x87),
            warning: rgb(0xf0, 0xc6, 0x74),
            error: rgb(0xff, 0x6b, 0x6b),
            info: rgb(0x7a, 0xd9, 0xf5),
            border: rgb(0x3a, 0x33, 0x40),
            border_focus: rgb(0xff, 0x6a, 0xc1),
        }
    }

    // ─── Style helpers ──────────────────────────────────────────────────
    pub open spec fn normal_style(&self) -> StyleSpec {
        StyleSpec { fg: Some(self.fg), bg: Some(self.bg), ..plain() }
    }

    pub fn s_normal(&self) -> (s: StyleSpec)
        ensures
            s == self.normal_style(),
    {
        StyleSpec::plain().fg(self.fg).bg(self.bg)
    }

    pub fn s_dim(&self) -> (s: StyleSpec)
        ensures
            s == fg_only(self.fg_dim),
    {
        StyleSpec::plain().fg(self.fg_dim)
    }

    pub fn s_subtle(&self) -> (s: StyleSpec)
        ensures
            s == fg_only(self.fg_subtle),
    {
        StyleSpec::plain().fg(self.fg_subtle)
    }

    pub fn s_accent(&self) -> (s: StyleSpec)
        ensures
            s == (StyleSpec { bold: true, ..fg_only(self.accent) }),
    {
        StyleSpec::plain().fg(self.accent).bold()
    }

    pub fn s_border(&self) -> (s: StyleSpec)
        ensures
            s == fg_only(self.border),
    {
        StyleSpec::plain().fg(self.border)
    }

    pub fn s_border_focus(&self) -> (s: StyleSpec)
        ensures
            s == (StyleSpec { bold: true, ..fg_only(self.border_focus) }),
    {
        StyleSpec::plain().fg(self.border_focus).bold()
    }

    pub fn s_selection(&self) -> (s: StyleSpec)
        ensures
            s == (StyleSpec { bg: Some(self.bg_sel), bold: true, ..fg_only(self.fg) }),
    {
        StyleSpec::plain().fg(self.fg).bg(self.bg_sel).bold()
    }

    pub fn s_gutter(&self) -> (s: StyleSpec)
        ensures
            s == fg_only(self.fg_subtle),
    {
        StyleSpec::plain().fg(self.fg_subtle)
    }

    pub fn s_gutter_active(&self) -> (s: StyleSpec)
        ensures
            s == (StyleSpec { bold: true, ..fg_only(self.accent) }),
    {
        StyleSpec::plain().fg(self.accent).bold()
    }
}

} // verus!
