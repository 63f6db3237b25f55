//! The renderer's pure half: from a snapshot of the screen state and the
//! allotted region, compute where every layout region goes, the input
//! box's horizontal scroll, the text caret position, and which list row
//! is highlighted. Drawing itself — painting widgets into a terminal
//! buffer — is left to the harness, which only follows this plan.
//!
//! The layout, top to bottom inside a margin of two cells: the todo list
//! (all the flexible height), a one-row status line, a three-row bordered
//! input box, and a one-row mode indicator. In `Help` mode a centered
//! overlay box of 35% of the width and height of the whole region is
//! drawn on top.

use vstd::prelude::*;
use crate::mode::Mode;
use crate::home::{Home, ScreenView};
use crate::strutil::push_char;

verus! {

/// The decimal digit character for a value below ten.
pub open spec fn dec_digit(n: int) -> char {
    if n == 0 { '0' }
    else if n == 1 { '1' }
    else if n == 2 { '2' }
    else if n == 3 { '3' }
    else if n == 4 { '4' }
    else if n == 5 { '5' }
    else if n == 6 { '6' }
    else if n == 7 { '7' }
    else if n == 8 { '8' }
    else { '9' }
}

/// The decimal rendering of a non-negative integer, most significant
/// digit first, without leading zeros.
pub open spec fn dec_rep(n: int) -> Seq<char>
    decreases n,
{
    if n < 10 {
        seq![dec_digit(n)]
    } else {
        proof {
            assert(n / 10 < n) by (nonlinear_arith)
                requires
                    n >= 10,
            ;
        }
        dec_rep(n / 10).push(dec_digit(n % 10))
    }
}

/// The text of one todo list row: the display position in decimal, a
/// colon and a space, then the title.
pub open spec fn spec_row_label(i: int, t: Seq<char>) -> Seq<char> {
    dec_rep(i) + seq![':', ' '] + t
}

/// The decimal digit character for a value below ten.
fn dec_digit_char(n: usize) -> (r: char)
    requires
        n < 10,
    ensures
        r == dec_digit(n as int),
{
    if n == 0 { '0' }
    else if n == 1 { '1' }
    else if n == 2 { '2' }
    else if n == 3 { '3' }
    else if n == 4 { '4' }
    else if n == 5 { '5' }
    else if n == 6 { '6' }
    else if n == 7 { '7' }
    else if n == 8 { '8' }
    else { '9' }
}

/// Writes the decimal rendering of `n` at the end of `out`.
fn push_decimal(out: &mut String, n: usize)
    ensures
        final(out)@ == old(out)@ + dec_rep(n as int),
    decreases n,
{
    if n < 10 {
        push_char(out, dec_digit_char(n));
    } else {
        push_decimal(out, n / 10);
        push_char(out, dec_digit_char(n % 10));
        proof {
            assert(out@ =~= old(out)@ + dec_rep(n as int));
        }
    }
}

/// The text of one todo list row, as the harness paints it.
pub fn row_label(i: usize, title: &str) -> (r: String)
    ensures
        r@ == spec_row_label(i as int, title@),
{
    let mut out = String::new();
    push_decimal(&mut out, i);
    push_char(&mut out, ':');
    push_char(&mut out, ' ');
    out.append(title);
    proof {
        assert(out@ =~= spec_row_label(i as int, title@));
    }
    out
}

/// A rectangular region of the terminal, in cells.
#[derive(Clone, Copy, PartialEq, Eq, Structural, Debug)]
pub struct Rect {
    pub x: u16,
    pub y: u16,
    pub width: u16,
    pub height: u16,
}

/// A region is representable when its right and bottom edges stay inside
/// the terminal's coordinate space.
pub open spec fn rect_wf(r: Rect) -> bool {
    &&& r.x + r.width <= u16::MAX
    &&& r.y + r.height <= u16::MAX
}

/// The plan the harness draws from: one rectangle per layout region, the
/// input scroll, the caret, and the highlighted row.
pub struct RenderPlan {
    /// The centered help overlay; present exactly in `Help` mode.
    pub help_overlay: Option<Rect>,
    /// The todo list region.
    pub list_area: Rect,
    /// The one-row status/help line.
    pub status_area: Rect,
    /// The three-row bordered input box.
    pub input_area: Rect,
    /// The one-row mode indicator.
    pub mode_area: Rect,
    /// Horizontal scroll of the input text, in characters.
    pub input_scroll: usize,
    /// Caret cell; present exactly in `Editing` mode.
    pub caret: Option<(u16, u16)>,
    /// The selected list row; present exactly in `Browse` mode.
    pub highlight: Option<usize>,
}

/// The same plan with unbounded integer coordinates: the form the layout
/// arithmetic is stated in.
pub struct PlanModel {
    pub help_overlay: Option<(int, int, int, int)>,
    pub list_area: (int, int, int, int),
    pub status_area: (int, int, int, int),
    pub input_area: (int, int, int, int),
    pub mode_area: (int, int, int, int),
    pub input_scroll: int,
    pub caret: Option<(int, int)>,
    pub highlight: Option<int>,
}

pub open spec fn rect_model(r: Rect) -> (int, int, int, int) {
    (r.x as int, r.y as int, r.width as int, r.height as int)
}

pub open spec fn plan_model(p: RenderPlan) -> PlanModel {
    PlanModel {
        help_overlay: match p.help_overlay {
            Some(r) => Some(rect_model(r)),
            None => None,
        },
        list_area: rect_model(p.list_area),
        status_area: rect_model(p.status_area),
        input_area: rect_model(p.input_area),
        mode_area: rect_model(p.mode_area),
        input_scroll: p.input_scroll as int,
        caret: match p.caret {
            Some((cx, cy)) => Some((cx as int, cy as int)),
            None => None,
        },
        highlight: match p.highlight {
            Some(i) => Some(i as int),
            None => None,
        },
    }
}

/// A box of `px` percent of the width and `py` percent of the height of
/// `r`, centered inside it.
pub open spec fn spec_centered(r: Rect, px: int, py: int) -> (int, int, int, int) {
    let pw = r.width * px / 100;
    let ph = r.height * py / 100;
    (r.x + (r.width - pw) / 2, r.y + (r.height - ph) / 2, pw, ph)
}

/// The full layout arithmetic: a margin of two cells on every side, then,
/// top to bottom, the list with all the remaining height, one status row,
/// three input rows and one mode row — each region shrinking to nothing
/// when the allotted height runs out, lower regions first. The visible
/// input width reserves two border columns and one caret column; the
/// scroll is the least offset that keeps the caret column visible, and
/// the caret sits one cell in from the input box's top-left corner, at
/// the cursor's visible column.
pub open spec fn spec_render_plan(s: ScreenView, area: Rect) -> PlanModel {
    let ix = area.x + (if area.width < 2 { area.width as int } else { 2 });
    let iy = area.y + (if area.height < 2 { area.height as int } else { 2 });
    let iw = if area.width >= 4 { area.width - 4 } else { 0 };
    let ih: int = if area.height >= 4 { area.height - 4 } else { 0 };
    let lh = if ih >= 5 { ih - 5 } else { 0 };
    let rem1 = ih - lh;
    let sh: int = if rem1 >= 1 { 1 } else { 0 };
    let rem2 = rem1 - sh;
    let bh = if rem2 >= 3 { 3 } else { rem2 };
    let mh = rem2 - bh;
    let vis = if iw >= 3 { iw - 3 } else { 0 };
    let scroll = if s.buffer.cursor > vis { s.buffer.cursor - vis } else { 0 };
    PlanModel {
        help_overlay: if s.mode == Mode::Help {
            Some(spec_centered(area, 35, 35))
        } else {
            None
        },
        list_area: (ix, iy, iw as int, lh),
        status_area: (ix, iy + lh, iw as int, sh),
        input_area: (ix, iy + lh + sh, iw as int, bh),
        mode_area: (ix, iy + lh + sh + bh, iw as int, mh),
        input_scroll: scroll,
        caret: if s.mode == Mode::Editing {
            let cx = ix + (s.buffer.cursor - scroll) + 1;
            let cy = iy + lh + sh + 1;
            Some(
                (
                    if cx > u16::MAX { u16::MAX as int } else { cx },
                    if cy > u16::MAX { u16::MAX as int } else { cy },
                ),
            )
        } else {
            None
        },
        highlight: if s.mode == Mode::Browse {
            Some(s.cursor_row)
        } else {
            None
        },
    }
}

/// The centered help overlay box, computed executably.
fn centered_rect(r: Rect, px: u16, py: u16) -> (res: Rect)
    requires
        rect_wf(r),
        px <= 100,
        py <= 100,
    ensures
        rect_model(res) == spec_centered(r, px as int, py as int),
{
    proof {
        assert(r.width as int * px as int <= 65535 * 100 && r.width as int * px as int
            <= r.width as int * 100 && 0 <= r.width as int * px as int) by (nonlinear_arith)
            requires
                px <= 100,
                0 <= r.width <= 65535,
        ;
        assert(r.height as int * py as int <= 65535 * 100 && r.height as int * py as int
            <= r.height as int * 100 && 0 <= r.height as int * py as int) by (nonlinear_arith)
            requires
                py <= 100,
                0 <= r.height <= 65535,
        ;
    }
    let pw32: u32 = r.width as u32 * px as u32 / 100;
    let ph32: u32 = r.height as u32 * py as u32 / 100;
    proof {
        assert(pw32 <= r.width);
        assert(ph32 <= r.height);
    }
    let pw = pw32 as u16;
    let ph = ph32 as u16;
    Rect {
        x: r.x + (r.width - pw) / 2,
        y: r.y + (r.height - ph) / 2,
        width: pw,
        height: ph,
    }
}

/// Computes the render plan for one frame from the current state and the
/// allotted region. Reads the state and changes nothing.
pub fn render_plan(home: &Home, area: Rect) -> (r: RenderPlan)
    requires
        rect_wf(area),
    ensures
        plan_model(r) == spec_render_plan(home@, area),
{
    let ix: u16 = area.x + (if area.width < 2 { area.width } else { 2 });
    let iy: u16 = area.y + (if area.height < 2 { area.height } else { 2 });
    let iw: u16 = if area.width >= 4 { area.width - 4 } else { 0 };
    let ih: u16 = if area.height >= 4 { area.height - 4 } else { 0 };
    let lh: u16 = if ih >= 5 { ih - 5 } else { 0 };
    let rem1: u16 = ih - lh;
    let sh: u16 = if rem1 >= 1 { 1 } else { 0 };
    let rem2: u16 = rem1 - sh;
    let bh: u16 = if rem2 >= 3 { 3 } else { rem2 };
    let mh: u16 = rem2 - bh;
    let vis: u16 = if iw >= 3 { iw - 3 } else { 0 };
    let scroll = home.input_scroll(vis as usize);
    let cursor = home.input_cursor();
    let caret = if matches!(home.mode(), Mode::Editing) {
        let d = cursor - scroll;
        let cx32: u32 = ix as u32 + d as u32 + 1;
        let cy32: u32 = iy as u32 + lh as u32 + sh as u32 + 1;
        let cx: u16 = if cx32 > u16::MAX as u32 { u16::MAX } else { cx32 as u16 };
        let cy: u16 = if cy32 > u16::MAX as u32 { u16::MAX } else { cy32 as u16 };
        Some((cx, cy))
    } else {
        None
    };
    let help_overlay = if matches!(home.mode(), Mode::Help) {
        Some(centered_rect(area, 35, 35))
    } else {
        None
    };
    let highlight = if matches!(home.mode(), Mode::Browse) {
        Some(home.cursor_row())
    } else {
        None
    };
    RenderPlan {
        help_overlay,
        list_area: Rect { x: ix, y: iy, width: iw, height: lh },
        status_area: Rect { x: ix, y: iy + lh, width: iw, height: sh },
        input_area: Rect { x: ix, y: iy + lh + sh, width: iw, height: bh },
        mode_area: Rect { x: ix, y: iy + lh + sh + bh, width: iw, height: mh },
        input_scroll: scroll,
        caret,
        highlight,
    }
}

} // verus!
