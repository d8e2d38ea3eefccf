//! The layout of one frame: what is drawn on each monitor, where, and in
//! which order, and how long the frame loop waits between frames.

use vstd::prelude::*;
use crate::color::{COLOR_ICE, COLOR_MANTLE, COLOR_SUBTEXT, COLOR_TEAL, COLOR_TEXT, COLOR_WARNING};
use crate::monitor::Monitor;
use crate::session::{caret_on, AnimationState, AuthSession};

verus! {

/// Point size of the clock.
pub const SIZE_TIME: u32 = 120;
/// Point size of the date.
pub const SIZE_DATE: u32 = 40;
/// Point size of the user label and the password line.
pub const SIZE_LABEL: u32 = 32;
/// Point size of the status and humour lines.
pub const SIZE_STATUS: u32 = 20;
/// Width of the login box.
pub const BOX_W: u32 = 450;
/// Height of the login box.
pub const BOX_H: u32 = 250;
/// Thickness of the box's accent lines.
pub const ACCENT_H: u32 = 2;
/// Distance from the centre to the left edge of the password line.
pub const INPUT_INSET: i64 = 180;
/// Time budget of one frame, in microseconds.
pub const FRAME_BUDGET_MICROS: u64 = 16000;

/// One drawing step of a frame.
#[derive(Debug)]
pub enum DrawOp {
    /// A filled rectangle, composited as `PixelSurface::draw_rect` does.
    Rect { x: i64, y: i64, w: u32, h: u32, color: u32 },
    /// A line of text whose top-left corner is at `(x, y)`.
    Text { text: String, x: i64, y: i64, size: u32, color: u32 },
}

/// A drawing step with its text as characters.
pub enum OpView {
    Rect { x: int, y: int, w: nat, h: nat, color: u32 },
    Text { text: Seq<char>, x: int, y: int, size: nat, color: u32 },
}

impl DrawOp {
    pub open spec fn view(&self) -> OpView {
        match self {
            DrawOp::Rect { x, y, w, h, color } => OpView::Rect {
                x: *x as int,
                y: *y as int,
                w: *w as nat,
                h: *h as nat,
                color: *color,
            },
            DrawOp::Text { text, x, y, size, color } => OpView::Text {
                text: text@,
                x: *x as int,
                y: *y as int,
                size: *size as nat,
                color: *color,
            },
        }
    }
}

pub open spec fn views(ops: Seq<DrawOp>) -> Seq<OpView> {
    ops.map_values(|o: DrawOp| o.view())
}

/// The texts of one frame, shared by every monitor.
pub struct Labels {
    pub time: String,
    pub date: String,
    pub user: String,
    pub password_line: String,
    pub status: String,
    pub phrase: String,
}

/// How wide each label renders at its point size, in pixels.
#[derive(Clone, Copy, Debug, PartialEq, Eq, Structural)]
pub struct LabelWidths {
    pub time: u32,
    pub date: u32,
    pub user: u32,
    pub password_line: u32,
    pub status: u32,
    pub phrase: u32,
}

/// One masking glyph and a space per typed character.
pub open spec fn mask(n: nat) -> Seq<char>
    decreases n,
{
    if n == 0 {
        Seq::empty()
    } else {
        mask((n - 1) as nat) + "\u{2022} "@
    }
}

/// What the password line reads: a placeholder while nothing is typed,
/// the mask otherwise.
pub open spec fn password_line(len: nat) -> Seq<char> {
    if len == 0 {
        "Start Typing..."@
    } else {
        mask(len)
    }
}

/// Left edge of a text of width `w` centred on `cx`.
pub open spec fn centered(cx: int, w: u32) -> int {
    cx - (w as int) / 2
}

/// The drawing steps for one monitor, in order: clock, date, login box and
/// its two accent lines, user label, password line with its caret, status,
/// and the humour line when there is one.
pub open spec fn monitor_plan(
    m: Monitor,
    shake_offset: int,
    labels: Labels,
    widths: LabelWidths,
    typed: bool,
    caret: bool,
    status_color: u32,
) -> Seq<OpView> {
    let cx = m.x + (m.w as int) / 2 + shake_offset;
    let cy = m.y + (m.h as int) / 2;
    let bx = cx - BOX_W as int / 2;
    let by = cy - BOX_H as int / 2;
    let input_x = cx - INPUT_INSET;
    let head = seq![
        OpView::Text { text: labels.time@, x: centered(cx, widths.time), y: cy - 300, size: SIZE_TIME as nat, color: COLOR_TEXT },
        OpView::Text { text: labels.date@, x: centered(cx, widths.date), y: cy - 190, size: SIZE_DATE as nat, color: COLOR_ICE },
        OpView::Rect { x: bx, y: by, w: BOX_W as nat, h: BOX_H as nat, color: COLOR_MANTLE },
        OpView::Rect { x: bx, y: by, w: BOX_W as nat, h: ACCENT_H as nat, color: COLOR_TEAL },
        OpView::Rect { x: bx, y: by + BOX_H - ACCENT_H, w: BOX_W as nat, h: ACCENT_H as nat, color: COLOR_TEAL },
        OpView::Text { text: labels.user@, x: centered(cx, widths.user), y: cy - 60, size: SIZE_LABEL as nat, color: COLOR_TEXT },
    ];
    let line = if typed {
        OpView::Text { text: labels.password_line@, x: input_x, y: cy + 10, size: SIZE_LABEL as nat, color: COLOR_ICE }
    } else {
        OpView::Text { text: labels.password_line@, x: centered(cx, widths.password_line), y: cy + 10, size: SIZE_LABEL as nat, color: COLOR_SUBTEXT }
    };
    let caret_x = if typed { input_x + widths.password_line + 2 } else { input_x };
    let caret_ops = if caret {
        seq![OpView::Rect { x: caret_x, y: cy + 15, w: 2, h: 25, color: COLOR_TEAL }]
    } else {
        Seq::empty()
    };
    let status = OpView::Text { text: labels.status@, x: centered(cx, widths.status), y: cy + 60, size: SIZE_STATUS as nat, color: status_color };
    let phrase_ops = if labels.phrase@.len() > 0 {
        seq![OpView::Text { text: labels.phrase@, x: centered(cx, widths.phrase), y: cy + 90, size: SIZE_STATUS as nat, color: COLOR_WARNING }]
    } else {
        Seq::empty()
    };
    head.push(line) + caret_ops + seq![status] + phrase_ops
}

fn text_op(text: &String, x: i64, y: i64, size: u32, color: u32) -> (r: DrawOp)
    ensures
        r.view() == (OpView::Text { text: text@, x: x as int, y: y as int, size: size as nat, color }),
{
    DrawOp::Text { text: text.clone(), x, y, size, color }
}

/// The drawing steps for monitor `m`, its centre moved right by
/// `shake_offset` pixels.
pub fn plan_monitor(
    m: Monitor,
    shake_offset: i32,
    session: &AuthSession,
    anim: &AnimationState,
    labels: &Labels,
    widths: &LabelWidths,
) -> (r: Vec<DrawOp>)
    ensures
        views(r@) == monitor_plan(
            m,
            shake_offset as int,
            *labels,
            *widths,
            session.password@.len() > 0,
            caret_on(anim.blink_timer as int),
            session.status_color,
        ),
{
    let cx: i64 = m.x as i64 + (m.w / 2) as i64 + shake_offset as i64;
    let cy: i64 = m.y as i64 + (m.h / 2) as i64;
    let bx: i64 = cx - (BOX_W / 2) as i64;
    let by: i64 = cy - (BOX_H / 2) as i64;
    let input_x: i64 = cx - INPUT_INSET;
    let mut ops: Vec<DrawOp> = Vec::new();
    ops.push(text_op(&labels.time, cx - (widths.time / 2) as i64, cy - 300, SIZE_TIME, COLOR_TEXT));
    ops.push(text_op(&labels.date, cx - (widths.date / 2) as i64, cy - 190, SIZE_DATE, COLOR_ICE));
    ops.push(DrawOp::Rect { x: bx, y: by, w: BOX_W, h: BOX_H, color: COLOR_MANTLE });
    ops.push(DrawOp::Rect { x: bx, y: by, w: BOX_W, h: ACCENT_H, color: COLOR_TEAL });
    ops.push(DrawOp::Rect { x: bx, y: by + (BOX_H - ACCENT_H) as i64, w: BOX_W, h: ACCENT_H, color: COLOR_TEAL });
    ops.push(text_op(&labels.user, cx - (widths.user / 2) as i64, cy - 60, SIZE_LABEL, COLOR_TEXT));
    let typed = session.password.len() > 0;
    let caret_x: i64;
    if typed {
        ops.push(text_op(&labels.password_line, input_x, cy + 10, SIZE_LABEL, COLOR_ICE));
        caret_x = input_x + widths.password_line as i64 + 2;
    } else {
        ops.push(
            text_op(&labels.password_line, cx - (widths.password_line / 2) as i64, cy + 10, SIZE_LABEL, COLOR_SUBTEXT),
        );
        caret_x = input_x;
    }
    let ghost before_caret = ops@;
    if anim.caret_visible() {
        ops.push(DrawOp::Rect { x: caret_x, y: cy + 15, w: 2, h: 25, color: COLOR_TEAL });
    }
    ops.push(text_op(&labels.status, cx - (widths.status / 2) as i64, cy + 60, SIZE_STATUS, session.status_color));
    if !labels.phrase.as_str().is_empty() {
        ops.push(text_op(&labels.phrase, cx - (widths.phrase / 2) as i64, cy + 90, SIZE_STATUS, COLOR_WARNING));
    }
    assert(views(ops@) =~= monitor_plan(
        m,
        shake_offset as int,
        *labels,
        *widths,
        session.password@.len() > 0,
        caret_on(anim.blink_timer as int),
        session.status_color,
    ));
    ops
}

/// The mask for `n` typed characters.
pub fn mask_text(n: usize) -> (r: String)
    ensures
        r@ == mask(n as nat),
{
    let mut out = String::new();
    let mut i: usize = 0;
    while i < n
        invariant
            i <= n,
            out@ == mask(i as nat),
        decreases n - i,
    {
        out.append("\u{2022} ");
        i += 1;
    }
    out
}

/// The texts of a frame: the clock and date as given, the user label, the
/// password line, the status and the humour line.
pub fn frame_labels(session: &AuthSession, time: String, date: String) -> (r: Labels)
    ensures
        r.time@ == time@,
        r.date@ == date@,
        r.user@ == "User: "@ + session.user@,
        r.password_line@ == password_line(session.password@.len()),
        r.status@ == session.status_msg@,
        r.phrase@ == session.funny_phrase@,
{
    let mut user = String::from_str("User: ");
    user.append(session.user.as_str());
    let n = session.password.len();
    let password_line = if n == 0 {
        String::from_str("Start Typing...")
    } else {
        mask_text(n)
    };
    Labels {
        time,
        date,
        user,
        password_line,
        status: session.status_msg.clone(),
        phrase: session.funny_phrase.clone(),
    }
}

/// How long the frame loop sleeps after a frame that took
/// `elapsed_micros`: what is left of the budget, or nothing.
pub fn frame_delay_micros(elapsed_micros: u64) -> (r: u64)
    ensures
        elapsed_micros < FRAME_BUDGET_MICROS ==> r == FRAME_BUDGET_MICROS - elapsed_micros,
        elapsed_micros >= FRAME_BUDGET_MICROS ==> r == 0,
{
    if elapsed_micros < FRAME_BUDGET_MICROS {
        FRAME_BUDGET_MICROS - elapsed_micros
    } else {
        0
    }
}

} // verus!
