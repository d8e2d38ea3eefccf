//! The displays the lock covers.

use vstd::prelude::*;

verus! {

/// One display's rectangle within the virtual screen.
#[derive(Clone, Copy, Debug, PartialEq, Eq, Structural)]
pub struct Monitor {
    pub x: i16,
    pub y: i16,
    pub w: u16,
    pub h: u16,
}

/// What the display server reports of one CRTC: where it scans out, how
/// large, and its mode (0 when it drives nothing).
#[derive(Clone, Copy, Debug, PartialEq, Eq, Structural)]
pub struct CrtcInfo {
    pub x: i16,
    pub y: i16,
    pub width: u16,
    pub height: u16,
    pub mode: u32,
}

/// A CRTC that drives a display of positive size.
pub open spec fn is_active(c: CrtcInfo) -> bool {
    c.width > 0 && c.height > 0 && c.mode != 0
}

pub open spec fn monitor_of(c: CrtcInfo) -> Monitor {
    Monitor { x: c.x, y: c.y, w: c.width, h: c.height }
}

/// The monitors of the active CRTCs, in the order reported.
pub open spec fn active_monitors(crtcs: Seq<CrtcInfo>) -> Seq<Monitor>
    decreases crtcs.len(),
{
    if crtcs.len() == 0 {
        Seq::empty()
    } else {
        let rest = active_monitors(crtcs.drop_last());
        if is_active(crtcs.last()) {
            rest.push(monitor_of(crtcs.last()))
        } else {
            rest
        }
    }
}

/// The monitors the lock draws on: those of the active CRTCs or, when
/// there is none, one covering the whole screen.
pub open spec fn monitors_for(crtcs: Seq<CrtcInfo>, screen_w: u16, screen_h: u16) -> Seq<Monitor> {
    if active_monitors(crtcs).len() > 0 {
        active_monitors(crtcs)
    } else {
        seq![Monitor { x: 0, y: 0, w: screen_w, h: screen_h }]
    }
}

/// Every active monitor has a positive size.
proof fn lemma_active_sizes(crtcs: Seq<CrtcInfo>)
    ensures
        forall|i: int|
            0 <= i < active_monitors(crtcs).len() ==> (#[trigger] active_monitors(crtcs)[i]).w > 0
                && active_monitors(crtcs)[i].h > 0,
    decreases crtcs.len(),
{
    if crtcs.len() > 0 {
        let rest = active_monitors(crtcs.drop_last());
        lemma_active_sizes(crtcs.drop_last());
        if is_active(crtcs.last()) {
            assert forall|i: int| 0 <= i < rest.len() + 1 implies (#[trigger] rest.push(
                monitor_of(crtcs.last()),
            )[i]).w > 0 && rest.push(monitor_of(crtcs.last()))[i].h > 0 by {
                if i < rest.len() {
                    assert(rest.push(monitor_of(crtcs.last()))[i] == rest[i]);
                }
            }
        }
    }
}

/// Turns the CRTCs the display server reports into the monitors the lock
/// draws on, falling back to one monitor covering the whole screen.
pub fn detect_monitors(crtcs: &Vec<CrtcInfo>, screen_w: u16, screen_h: u16) -> (r: Vec<Monitor>)
    ensures
        r@ == monitors_for(crtcs@, screen_w, screen_h),
        screen_w > 0 && screen_h > 0 ==> forall|i: int| 0 <= i < r@.len() ==> (#[trigger] r@[i]).w > 0 && r@[i].h > 0,
        (forall|i: int| 0 <= i < crtcs@.len() ==> !is_active(#[trigger] crtcs@[i])) ==> r@ == seq![
            Monitor { x: 0, y: 0, w: screen_w, h: screen_h },
        ],
{
    proof {
        lemma_active_sizes(crtcs@);
        if forall|i: int| 0 <= i < crtcs@.len() ==> !is_active(#[trigger] crtcs@[i]) {
            lemma_fallback_monitor(crtcs@, screen_w, screen_h);
        }
    }
    let mut out: Vec<Monitor> = Vec::new();
    let n = crtcs.len();
    let mut i: usize = 0;
    while i < n
        invariant
            i <= n,
            n == crtcs@.len(),
            out@ == active_monitors(crtcs@.subrange(0, i as int)),
        decreases n - i,
    {
        let c = crtcs[i];
        proof {
            let prefix = crtcs@.subrange(0, i as int + 1);
            assert(prefix.drop_last() =~= crtcs@.subrange(0, i as int));
            assert(prefix.last() == c);
        }
        if c.width > 0 && c.height > 0 && c.mode != 0 {
            out.push(Monitor { x: c.x, y: c.y, w: c.width, h: c.height });
        }
        i += 1;
    }
    assert(crtcs@.subrange(0, n as int) =~= crtcs@);
    if out.len() == 0 {
        out.push(Monitor { x: 0, y: 0, w: screen_w, h: screen_h });
        assert(out@ =~= seq![Monitor { x: 0, y: 0, w: screen_w, h: screen_h }]);
    }
    out
}

/// No active CRTC, no active monitor.
proof fn lemma_none_active(crtcs: Seq<CrtcInfo>)
    requires
        forall|i: int| 0 <= i < crtcs.len() ==> !is_active(#[trigger] crtcs[i]),
    ensures
        active_monitors(crtcs).len() == 0,
    decreases crtcs.len(),
{
    if crtcs.len() > 0 {
        let init = crtcs.drop_last();
        assert forall|i: int| 0 <= i < init.len() implies !is_active(#[trigger] init[i]) by {
            assert(init[i] == crtcs[i]);
        }
        lemma_none_active(init);
        assert(!is_active(crtcs[crtcs.len() - 1]));
    }
}

/// Fallback law: when no CRTC drives a display (the list may be empty),
/// exactly one monitor is used and it spans the whole screen.
pub proof fn lemma_fallback_monitor(crtcs: Seq<CrtcInfo>, screen_w: u16, screen_h: u16)
    requires
        forall|i: int| 0 <= i < crtcs.len() ==> !is_active(#[trigger] crtcs[i]),
    ensures
        monitors_for(crtcs, screen_w, screen_h) == seq![Monitor { x: 0, y: 0, w: screen_w, h: screen_h }],
{
    lemma_none_active(crtcs);
}

} // verus!
