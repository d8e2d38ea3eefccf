use arctic_lock::color::{COLOR_ICE, COLOR_MANTLE, COLOR_SUBTEXT, COLOR_TEAL, COLOR_TEXT, COLOR_WARNING};
use arctic_lock::frame::{frame_delay_micros, frame_labels, mask_text, plan_monitor, DrawOp, LabelWidths};
use arctic_lock::monitor::{detect_monitors, CrtcInfo, Monitor};
use arctic_lock::session::{AnimationState, AuthSession};

fn widths() -> LabelWidths {
    LabelWidths { time: 200, date: 300, user: 100, password_line: 60, status: 80, phrase: 120 }
}

fn rects(ops: &[DrawOp]) -> Vec<(i64, i64, u32, u32, u32)> {
    ops.iter()
        .filter_map(|o| match o {
            DrawOp::Rect { x, y, w, h, color } => Some((*x, *y, *w, *h, *color)),
            _ => None,
        })
        .collect()
}

fn texts(ops: &[DrawOp]) -> Vec<(String, i64, i64, u32, u32)> {
    ops.iter()
        .filter_map(|o| match o {
            DrawOp::Text { text, x, y, size, color } => Some((text.clone(), *x, *y, *size, *color)),
            _ => None,
        })
        .collect()
}

#[test]
fn no_monitor_falls_back_to_screen() {
    let m = detect_monitors(&vec![], 1920, 1080);
    assert_eq!(m, vec![Monitor { x: 0, y: 0, w: 1920, h: 1080 }]);
    let idle = vec![CrtcInfo { x: 5, y: 5, width: 0, height: 768, mode: 7 }, CrtcInfo { x: 0, y: 0, width: 800, height: 600, mode: 0 }];
    assert_eq!(detect_monitors(&idle, 1024, 768), vec![Monitor { x: 0, y: 0, w: 1024, h: 768 }]);
}

#[test]
fn active_crtcs_become_monitors_in_order() {
    let crtcs = vec![
        CrtcInfo { x: 1920, y: 0, width: 1280, height: 1024, mode: 70 },
        CrtcInfo { x: 0, y: 0, width: 0, height: 0, mode: 0 },
        CrtcInfo { x: 0, y: 0, width: 1920, height: 1080, mode: 68 },
    ];
    assert_eq!(
        detect_monitors(&crtcs, 3200, 1080),
        vec![Monitor { x: 1920, y: 0, w: 1280, h: 1024 }, Monitor { x: 0, y: 0, w: 1920, h: 1080 }]
    );
}

#[test]
fn empty_password_layout() {
    let s = AuthSession::new("bob".to_string());
    let anim = AnimationState::new();
    let labels = frame_labels(&s, "12:34".to_string(), "Monday, January 05".to_string());
    assert_eq!(labels.user, "User: bob");
    assert_eq!(labels.password_line, "Start Typing...");
    let m = Monitor { x: 100, y: 0, w: 1000, h: 800 };
    let ops = plan_monitor(m, 0, &s, &anim, &labels, &widths());
    // Centre (600, 400).
    assert_eq!(
        rects(&ops),
        vec![
            (375, 275, 450, 250, COLOR_MANTLE),
            (375, 275, 450, 2, COLOR_TEAL),
            (375, 523, 450, 2, COLOR_TEAL),
            (420, 415, 2, 25, COLOR_TEAL),
        ]
    );
    assert_eq!(
        texts(&ops),
        vec![
            ("12:34".to_string(), 500, 100, 120, COLOR_TEXT),
            ("Monday, January 05".to_string(), 450, 210, 40, COLOR_ICE),
            ("User: bob".to_string(), 550, 340, 32, COLOR_TEXT),
            ("Start Typing...".to_string(), 570, 410, 32, COLOR_SUBTEXT),
            ("Enter Password".to_string(), 560, 460, 20, COLOR_SUBTEXT),
        ]
    );
}

#[test]
fn typed_password_layout_with_shake_and_phrase() {
    let mut s = AuthSession::new("bob".to_string());
    s.password = vec!['x', 'y'];
    s.funny_phrase = "Git blame: You.".to_string();
    let mut anim = AnimationState::new();
    anim.blink_timer = 20;
    let labels = frame_labels(&s, "t".to_string(), "d".to_string());
    assert_eq!(labels.password_line, "\u{2022} \u{2022} ");
    let m = Monitor { x: 0, y: 0, w: 800, h: 600 };
    let ops = plan_monitor(m, -7, &s, &anim, &labels, &widths());
    // Centre (393, 300); the caret is off at frame 20.
    assert_eq!(rects(&ops).len(), 3);
    let t = texts(&ops);
    assert_eq!(t[3], ("\u{2022} \u{2022} ".to_string(), 213, 310, 32, COLOR_ICE));
    assert_eq!(t[5], ("Git blame: You.".to_string(), 333, 390, 20, COLOR_WARNING));
    anim.blink_timer = 31;
    let ops = plan_monitor(m, -7, &s, &anim, &labels, &widths());
    assert_eq!(rects(&ops)[3], (213 + 60 + 2, 315, 2, 25, COLOR_TEAL));
}

#[test]
fn mask_has_one_glyph_per_character() {
    assert_eq!(mask_text(0), "");
    assert_eq!(mask_text(3), "\u{2022} \u{2022} \u{2022} ");
}

#[test]
fn frame_pacing() {
    assert_eq!(frame_delay_micros(0), 16000);
    assert_eq!(frame_delay_micros(5000), 11000);
    assert_eq!(frame_delay_micros(16000), 0);
    assert_eq!(frame_delay_micros(40000), 0);
}
