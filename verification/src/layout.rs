//! Screen layout and display rules: where overlays and the cursor go, how
//! wide the line-number gutter is, which lines are drawn, and the labels,
//! hints and styles of the panes and the status line. The front end paints
//! what these functions decide.
use vstd::prelude::*;

use crate::app::Screen;
use crate::modes::Mode;
use crate::paths::{file_name_of, opt_seq, parent_of, path_file_name, path_parent};
use crate::theme::{fg_only, plain, Rgb, StyleSpec, Theme};

verus! {

/// A rectangle of terminal cells.
#[derive(Clone, Copy, Debug, PartialEq, Eq, Structural)]
pub struct Area {
    pub x: u16,
    pub y: u16,
    pub width: u16,
    pub height: u16,
}

impl Area {
    /// The area lies within the terminal's coordinate range.
    pub open spec fn fits(self) -> bool {
        self.x + self.width <= u16::MAX && self.y + self.height <= u16::MAX
    }
}

pub open spec fn sat_sub(a: int, b: int) -> int {
    if a >= b {
        a - b
    } else {
        0
    }
}

pub open spec fn min2(a: int, b: int) -> int {
    if a <= b {
        a
    } else {
        b
    }
}

pub open spec fn max2(a: int, b: int) -> int {
    if a >= b {
        a
    } else {
        b
    }
}

/// A `width` × `height` box centred in `outer`: at most `outer` less a margin
/// of 4 columns and 2 rows, at least 20 × 6 where `outer` has room for it,
/// and always inside `outer`.
pub open spec fn centered(width: int, height: int, outer: Area) -> Area {
    let w = min2(max2(min2(width, sat_sub(outer.width as int, 4)), 20), outer.width as int);
    let h = min2(max2(min2(height, sat_sub(outer.height as int, 2)), 6), outer.height as int);
    Area {
        x: (outer.x + (outer.width - w) / 2) as u16,
        y: (outer.y + (outer.height - h) / 2) as u16,
        width: w as u16,
        height: h as u16,
    }
}

/// A centred overlay box of (width, height), clamped inside `outer`.
pub fn centered_rect(width: u16, height: u16, outer: Area) -> (r: Area)
    requires
        outer.fits(),
    ensures
        r == centered(width as int, height as int, outer),
        outer.x <= r.x,
        r.x + r.width <= outer.x + outer.width,
        outer.y <= r.y,
        r.y + r.height <= outer.y + outer.height,
        r.x - outer.x == (outer.width - r.width) / 2,
        r.y - outer.y == (outer.height - r.height) / 2,
{
    let avail_w: u16 = if outer.width >= 4 {
        outer.width - 4
    } else {
        0
    };
    let avail_h: u16 = if outer.height >= 2 {
        outer.height - 2
    } else {
        0
    };
    let w0 = if width < avail_w {
        width
    } else {
        avail_w
    };
    let w1 = if w0 > 20 {
        w0
    } else {
        20
    };
    let w = if w1 < outer.width {
        w1
    } else {
        outer.width
    };
    let h0 = if height < avail_h {
        height
    } else {
        avail_h
    };
    let h1 = if h0 > 6 {
        h0
    } else {
        6
    };
    let h = if h1 < outer.height {
        h1
    } else {
        outer.height
    };
    Area { x: outer.x + (outer.width - w) / 2, y: outer.y + (outer.height - h) / 2, width: w, height: h }
}

/// Border and title styles of a pane: bold accent when focused, muted
/// otherwise.
pub fn pane_styles(theme: &Theme, focused: bool) -> (r: (StyleSpec, StyleSpec))
    ensures
        r.0 == (if focused {
            StyleSpec { bold: true, ..fg_only(theme.border_focus) }
        } else {
            fg_only(theme.border)
        }),
        r.1 == (if focused {
            StyleSpec { bold: true, ..fg_only(theme.accent) }
        } else {
            fg_only(theme.fg_dim)
        }),
{
    if focused {
        (theme.s_border_focus(), theme.s_accent())
    } else {
        (theme.s_border(), StyleSpec::plain().fg(theme.fg_dim))
    }
}

/// The label and style of the coloured mode block at the left of the status
/// line.
pub open spec fn mode_block_spec(theme: Theme, screen: Screen, mode: Option<Mode>) -> (
    Seq<char>,
    StyleSpec,
) {
    let on = |bg: Rgb| StyleSpec { fg: Some(theme.bg), bg: Some(bg), bold: true, ..plain() };
    match screen {
        Screen::Browser => ("BROWSE"@, on(theme.fg_subtle)),
        Screen::Editor { .. } => match mode {
            Some(Mode::Insert) => (
                "INSERT"@,
                StyleSpec { bold: true, reversed: true, ..fg_only(theme.accent) },
            ),
            Some(Mode::Command) => ("COMMAND"@, on(theme.info)),
            _ => ("NORMAL"@, on(theme.accent)),
        },
    }
}

/// The mode block: `BROWSE` on the browser; in the editor, the editing mode
/// (`NORMAL` when none is given).
pub fn mode_block(theme: &Theme, screen: &Screen, mode: Option<Mode>) -> (r: (&'static str, StyleSpec))
    ensures
        r.0@ == mode_block_spec(*theme, *screen, mode).0,
        r.1 == mode_block_spec(*theme, *screen, mode).1,
{
    match screen {
        Screen::Browser => ("BROWSE", StyleSpec::plain().fg(theme.bg).bg(theme.fg_subtle).bold()),
        Screen::Editor { .. } => match mode {
            Some(Mode::Insert) => ("INSERT", theme.s_accent().reversed()),
            Some(Mode::Command) => ("COMMAND", StyleSpec::plain().fg(theme.bg).bg(theme.info).bold()),
            _ => ("NORMAL", StyleSpec::plain().fg(theme.bg).bg(theme.accent).bold()),
        },
    }
}

/// The key hints shown in the status line when there is no status message.
pub fn hint(screen: &Screen) -> (r: &'static str)
    ensures
        r@ == match screen {
            Screen::Browser => "· j/k move · gg/G ends · Enter open · h up · q quit"@,
            Screen::Editor { .. } => "· i insert · :w write · :q quit · Ctrl-B compile · Ctrl-P preview · Ctrl-O files"@,
        },
{
    match screen {
        Screen::Browser => "· j/k move · gg/G ends · Enter open · h up · q quit",
        Screen::Editor { .. } => "· i insert · :w write · :q quit · Ctrl-B compile · Ctrl-P preview · Ctrl-O files",
    }
}

/// Number of decimal digits of `n` (1 for 0).
pub open spec fn digits(n: nat) -> nat
    decreases n,
{
    if n < 10 {
        1
    } else {
        1 + digits(n / 10)
    }
}

pub open spec fn pow10(k: nat) -> nat
    decreases k,
{
    if k == 0 {
        1
    } else {
        10 * pow10((k - 1) as nat)
    }
}

/// A number below `10^k` has at most `k` digits.
proof fn lemma_digits_le(n: nat, k: nat)
    requires
        1 <= k,
        n < pow10(k),
    ensures
        digits(n) <= k,
    decreases k,
{
    if n >= 10 {
        if k == 1 {
            assert(pow10(1) == 10) by {
                reveal_with_fuel(pow10, 2);
            }
        }
        let p = pow10((k - 1) as nat);
        assert(n / 10 < p) by (nonlinear_arith)
            requires
                n < 10 * p,
        ;
        lemma_digits_le(n / 10, (k - 1) as nat);
    }
}

/// Width of the line-number gutter: the digits of the line count, plus a
/// space.
pub fn gutter_width(total_lines: usize) -> (w: u16)
    ensures
        w == digits(total_lines as nat) + 1,
{
    let mut n = total_lines;
    let mut d: u16 = 1;
    proof {
        assert(pow10(20) == 100000000000000000000) by {
            reveal_with_fuel(pow10, 21);
        }
        lemma_digits_le(total_lines as nat, 20);
    }
    while n >= 10
        invariant
            1 <= d <= 20,
            d + digits(n as nat) == digits(total_lines as nat) + 1,
            digits(total_lines as nat) <= 20,
        decreases n,
    {
        assert(digits(n as nat) == 1 + digits((n / 10) as nat));
        assert(digits((n / 10) as nat) >= 1);
        n = n / 10;
        d = d + 1;
    }
    d + 1
}

/// The lines drawn in a pane of `rows` rows scrolled to `scroll`: from
/// `scroll` up to (not including) the returned end.
pub fn visible_end(scroll: usize, rows: u16, total_lines: usize) -> (end: usize)
    ensures
        end == (if scroll >= total_lines {
            scroll as int
        } else {
            min2(scroll + rows, total_lines as int)
        }),
{
    if scroll >= total_lines {
        scroll
    } else if total_lines - scroll < rows as usize {
        total_lines
    } else {
        scroll + rows as usize
    }
}

/// Where the terminal cursor goes for the text cursor at (`line`, `col`) in a
/// pane whose text area is `inner` (gutter included), scrolled to `scroll`:
/// `None` when the line is scrolled out of view; otherwise the cell after
/// the gutter and `col` columns in, clamped to the pane's last column.
pub fn cursor_cell(inner: Area, gutter_w: u16, scroll: usize, line: usize, col: usize) -> (r: Option<
    (u16, u16),
>)
    requires
        inner.fits(),
    ensures
        match r {
            None => !(scroll <= line < scroll + inner.height),
            Some((x, y)) => {
                &&& scroll <= line < scroll + inner.height
                &&& x == min2(inner.x + gutter_w + col, inner.x + sat_sub(inner.width as int, 1))
                &&& y == inner.y + (line - scroll)
            },
        },
{
    if line < scroll || line - scroll >= inner.height as usize {
        return None;
    }
    let max_x: u16 = if inner.width >= 1 {
        inner.x + (inner.width - 1)
    } else {
        inner.x
    };
    let want: u128 = inner.x as u128 + gutter_w as u128 + col as u128;
    let x: u16 = if want < max_x as u128 {
        want as u16
    } else {
        max_x
    };
    let y: u16 = inner.y + (line - scroll) as u16;
    Some((x, y))
}

/// The name a buffer is shown under: its file name, or `[scratch]`.
pub open spec fn buffer_name_spec(path: Option<Seq<char>>) -> Seq<char> {
    match path {
        Some(p) => match file_name_of(p) {
            Some(n) => n,
            None => "[scratch]"@,
        },
        None => "[scratch]"@,
    }
}

/// A pane or title label for a buffer: its name, with ` ●` when it has
/// unsaved changes.
pub fn buffer_label(path: Option<&str>, dirty: bool) -> (r: String)
    ensures
        r@ == buffer_name_spec(match path {
            Some(p) => Some(p@),
            None => None,
        }) + (if dirty {
            " ●"@
        } else {
            Seq::empty()
        }),
{
    let mut s = match path {
        Some(p) => match path_file_name(p) {
            Some(n) => n,
            None => String::from_str("[scratch]"),
        },
        None => String::from_str("[scratch]"),
    };
    if dirty {
        s.append(" ●");
    }
    s
}

/// The directory shown in the title bar for a buffer: its file's parent,
/// when it has a path with one.
pub fn buffer_dir(path: Option<&str>) -> (r: Option<String>)
    ensures
        opt_seq(r) == match path {
            Some(p) => parent_of(p@),
            None => None,
        },
{
    match path {
        Some(p) => path_parent(p),
        None => None,
    }
}

} // verus!
