use arctic_lock::color::{COLOR_ERROR, COLOR_SUBTEXT};
use arctic_lock::keymap::{keycode_to_char, KEY_BACKSPACE, KEY_CLEAR, KEY_ENTER, KEY_SHIFT_LEFT, KEY_SHIFT_RIGHT};
use arctic_lock::session::{denial_phrase, AnimationState, AuthOutcome, AuthSession, KeyAction, PHRASE_COUNT};

fn pool() -> Vec<String> {
    (0..PHRASE_COUNT).map(|i| denial_phrase(i).to_string()).collect()
}

fn typed(s: &AuthSession) -> String {
    s.password.iter().collect()
}

/// Presses and releases a key; the press's action is returned.
fn tap(s: &mut AuthSession, code: u8) -> KeyAction {
    let a = s.handle_key(code, true);
    s.handle_key(code, false);
    a
}

#[test]
fn new_session_invites_typing() {
    let s = AuthSession::new("alice".to_string());
    assert_eq!(s.status_msg, "Enter Password");
    assert_eq!(s.status_color, COLOR_SUBTEXT);
    assert!(s.password.is_empty());
    assert!(s.funny_phrase.is_empty());
}

#[test]
fn keymap_rows_and_shift() {
    assert_eq!(keycode_to_char(10, false), Some('1'));
    assert_eq!(keycode_to_char(10, true), Some('!'));
    assert_eq!(keycode_to_char(19, true), Some(')'));
    assert_eq!(keycode_to_char(24, false), Some('q'));
    assert_eq!(keycode_to_char(24, true), Some('Q'));
    assert_eq!(keycode_to_char(46, false), Some('l'));
    assert_eq!(keycode_to_char(58, true), Some('M'));
    assert_eq!(keycode_to_char(65, true), Some(' '));
    assert_eq!(keycode_to_char(51, false), Some('\\'));
    assert_eq!(keycode_to_char(51, true), Some('|'));
    assert_eq!(keycode_to_char(48, true), Some('"'));
    assert_eq!(keycode_to_char(61, true), Some('?'));
    assert_eq!(keycode_to_char(36, false), None);
    assert_eq!(keycode_to_char(100, true), None);
}

#[test]
fn shift_table_for_every_mapped_key() {
    let table = [
        ('1', '!'), ('2', '@'), ('3', '#'), ('4', '$'), ('5', '%'), ('6', '^'), ('7', '&'), ('8', '*'),
        ('9', '('), ('0', ')'), ('-', '_'), ('=', '+'), ('[', '{'), (']', '}'), ('\\', '|'), (';', ':'),
        ('\'', '"'), (',', '<'), ('.', '>'), ('/', '?'), (' ', ' '),
    ];
    let mut mapped = 0;
    for code in 0..=255u8 {
        if let Some(c) = keycode_to_char(code, false) {
            mapped += 1;
            let shifted = keycode_to_char(code, true).unwrap();
            if c.is_ascii_lowercase() {
                assert_eq!(shifted, c.to_ascii_uppercase());
            } else {
                let expect = table.iter().find(|(b, _)| *b == c).unwrap().1;
                assert_eq!(shifted, expect);
            }
        } else {
            assert_eq!(keycode_to_char(code, true), None);
        }
    }
    assert_eq!(mapped, 47);
}

#[test]
fn unmapped_keys_leave_the_password() {
    for shift in [false, true] {
        let mut s = AuthSession::new("u".to_string());
        tap(&mut s, 38);
        if shift {
            s.handle_key(KEY_SHIFT_LEFT, true);
        }
        for code in [0u8, 23, 37, 49, 64, 66, 100, 255] {
            assert_eq!(s.handle_key(code, true), KeyAction::Continue);
            assert_eq!(typed(&s), "a");
        }
    }
}

#[test]
fn type_then_erase_round_trip() {
    let mut s = AuthSession::new("u".to_string());
    let codes = [10u8, 24, 38, 52, 65, 20, 61, 30];
    for &c in &codes {
        tap(&mut s, c);
    }
    assert_eq!(typed(&s), "1qaz -/u");
    for _ in &codes {
        tap(&mut s, KEY_BACKSPACE);
    }
    assert!(s.password.is_empty());
    tap(&mut s, KEY_BACKSPACE);
    assert!(s.password.is_empty());
}

#[test]
fn shift_is_tracked_on_press_and_release() {
    let mut s = AuthSession::new("u".to_string());
    s.status_msg = "Access Denied".to_string();
    s.funny_phrase = "x".to_string();
    s.handle_key(KEY_SHIFT_RIGHT, true);
    assert!(s.shift_pressed);
    assert_eq!(s.status_msg, "Access Denied");
    assert_eq!(s.funny_phrase, "x");
    tap(&mut s, 25);
    s.handle_key(KEY_SHIFT_RIGHT, false);
    assert!(!s.shift_pressed);
    tap(&mut s, 25);
    assert_eq!(typed(&s), "Ww");
    assert_eq!(s.status_msg, "Authenticating...");
    assert!(s.funny_phrase.is_empty());
}

#[test]
fn release_of_other_keys_is_ignored() {
    let mut s = AuthSession::new("u".to_string());
    s.status_msg = "Access Denied".to_string();
    assert_eq!(s.handle_key(10, false), KeyAction::Continue);
    assert!(s.password.is_empty());
    assert_eq!(s.status_msg, "Access Denied");
}

#[test]
fn clear_key_empties_password() {
    let mut s = AuthSession::new("u".to_string());
    tap(&mut s, 10);
    tap(&mut s, 11);
    tap(&mut s, KEY_CLEAR);
    assert!(s.password.is_empty());
    assert_eq!(s.status_msg, "Authenticating...");
}

#[test]
fn denial_cycle() {
    let mut s = AuthSession::new("u".to_string());
    let mut anim = AnimationState::new();
    tap(&mut s, 10);
    assert_eq!(tap(&mut s, KEY_ENTER), KeyAction::Authenticate);
    assert_eq!(s.finish_authentication(&mut anim, false), AuthOutcome::Denied);
    assert!(s.password.is_empty());
    assert_eq!(s.status_msg, "Access Denied");
    assert_eq!(s.status_color, COLOR_ERROR);
    assert_eq!(anim.shake_intensity, 20);
    assert!(!s.funny_phrase.is_empty());
    assert!(pool().contains(&s.funny_phrase));
}

#[test]
fn deny_picks_the_given_phrase() {
    let mut s = AuthSession::new("u".to_string());
    let mut anim = AnimationState::new();
    s.deny(&mut anim, 3);
    assert_eq!(s.funny_phrase, "Git blame: You.");
    s.deny(&mut anim, 9);
    assert_eq!(s.funny_phrase, "Compiling... just kidding, wrong password.");
}

#[test]
fn denial_phrases_vary() {
    let mut seen = std::collections::HashSet::new();
    for _ in 0..300 {
        let mut s = AuthSession::new("u".to_string());
        let mut anim = AnimationState::new();
        s.finish_authentication(&mut anim, false);
        assert!(pool().contains(&s.funny_phrase));
        seen.insert(s.funny_phrase.clone());
    }
    assert!(seen.len() > 1);
}

#[test]
fn success_cycle() {
    let mut s = AuthSession::new("u".to_string());
    let mut anim = AnimationState::new();
    tap(&mut s, 11);
    tap(&mut s, 12);
    assert_eq!(tap(&mut s, KEY_ENTER), KeyAction::Authenticate);
    assert_eq!(s.finish_authentication(&mut anim, true), AuthOutcome::Unlocked);
    assert_eq!(typed(&s), "23");
    assert_eq!(s.status_msg, "Authenticating...");
    assert_eq!(anim.shake_intensity, 0);
}

#[test]
fn caret_blinks_every_fifteen_frames() {
    let mut anim = AnimationState::new();
    let mut seen = Vec::new();
    for _ in 0..30 {
        seen.push(anim.caret_visible());
        anim.advance();
    }
    assert!(seen[..15].iter().all(|&v| v));
    assert!(seen[15..].iter().all(|&v| !v));
    assert!(anim.caret_visible());
}

#[test]
fn shake_decays_to_zero() {
    let mut anim = AnimationState::new();
    anim.shake_intensity = 2;
    assert_eq!(anim.advance(), Some(1));
    assert_eq!(anim.advance(), Some(0));
    assert_eq!(anim.advance(), None);
    assert_eq!(anim.blink_timer, 3);
    anim.blink_timer = u32::MAX;
    anim.advance();
    assert_eq!(anim.blink_timer, 0);
}

#[test]
fn end_to_end_failed_attempt() {
    let user = "alice".to_string();
    let mut s = AuthSession::new(user.clone());
    let mut anim = AnimationState::new();
    let mut calls: Vec<(String, String)> = Vec::new();
    for code in [38u8, 56, 54, KEY_ENTER] {
        let action = s.handle_key(code, true);
        if action == KeyAction::Authenticate {
            calls.push((s.user.clone(), typed(&s)));
            s.finish_authentication(&mut anim, false);
        }
        s.handle_key(code, false);
    }
    assert_eq!(calls, vec![(user, "abc".to_string())]);
    assert!(s.password.is_empty());
    assert_eq!(anim.shake_intensity, 20);
    assert_eq!(s.status_color, COLOR_ERROR);
    assert!(pool().contains(&s.funny_phrase));
}
