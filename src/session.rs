//! The password prompt's state machine and the animation counters that
//! give it visual feedback.

use vstd::prelude::*;
use crate::color::{COLOR_ERROR, COLOR_SUBTEXT};
use crate::keymap::{base_char, key_char, shift_of, keycode_to_char, KEY_BACKSPACE, KEY_CLEAR, KEY_ENTER, KEY_SHIFT_LEFT, KEY_SHIFT_RIGHT};

verus! {

/// Shake level set when a password is refused; it decays by one per frame.
pub const SHAKE_ON_DENIAL: u32 = 20;
/// Frames the caret stays on, then off.
pub const BLINK_HALF_PERIOD: u32 = 15;
/// How many humour lines the pool holds.
pub const PHRASE_COUNT: usize = 10;

/// The lines shown, one at random, under a refused password.
pub open spec fn phrase_pool() -> Seq<Seq<char>> {
    seq![
        "It works on my machine..."@,
        "Have you tried turning it off and on again?"@,
        "Layer 8 Issue Detected."@,
        "Git blame: You."@,
        "Unexpected token: You."@,
        "SEGFAULT: User not found."@,
        "404: Password not found."@,
        "Nice try, script kiddie."@,
        "sudo make me a sandwich?"@,
        "Compiling... just kidding, wrong password."@,
    ]
}

/// Humour line number `i` of the pool.
pub fn denial_phrase(i: usize) -> (r: &'static str)
    requires
        i < PHRASE_COUNT,
    ensures
        r@ == phrase_pool()[i as int],
{
    match i {
        0 => "It works on my machine...",
        1 => "Have you tried turning it off and on again?",
        2 => "Layer 8 Issue Detected.",
        3 => "Git blame: You.",
        4 => "Unexpected token: You.",
        5 => "SEGFAULT: User not found.",
        6 => "404: Password not found.",
        7 => "Nice try, script kiddie.",
        8 => "sudo make me a sandwich?",
        _ => "Compiling... just kidding, wrong password.",
    }
}

/// Relies on `rand::thread_rng` and `rand::Rng::gen_range`: a value drawn
/// from `0..n`, which the range documents; it panics only on an empty range.
#[verifier::external_body]
fn random_below(n: usize) -> (r: usize)
    requires
        n > 0,
    ensures
        r < n,
{
    rand::Rng::gen_range(&mut rand::thread_rng(), 0..n)
}

/// Whether the caret shows on frame `t`: on for fifteen frames, off for
/// fifteen, starting on.
pub open spec fn caret_on(t: int) -> bool {
    (t / BLINK_HALF_PERIOD as int) % 2 == 0
}

/// The frame counters behind the shake and the caret.
pub struct AnimationState {
    pub shake_intensity: u32,
    pub blink_timer: u32,
}

impl AnimationState {
    /// No shake, first frame.
    pub fn new() -> (a: Self)
        ensures
            a.shake_intensity == 0,
            a.blink_timer == 0,
    {
        AnimationState { shake_intensity: 0, blink_timer: 0 }
    }

    /// Moves on by one frame: a positive shake level drops by one and the
    /// new level is returned (the caller turns it into a horizontal
    /// offset); the blink counter goes up by one, wrapping.
    pub fn advance(&mut self) -> (r: Option<u32>)
        ensures
            old(self).shake_intensity > 0 ==> r == Some((old(self).shake_intensity - 1) as u32)
                && final(self).shake_intensity == old(self).shake_intensity - 1,
            old(self).shake_intensity == 0 ==> r.is_none() && final(self).shake_intensity == 0,
            final(self).blink_timer == (old(self).blink_timer + 1) % 0x1_0000_0000,
    {
        self.blink_timer = self.blink_timer.wrapping_add(1);
        if self.shake_intensity > 0 {
            self.shake_intensity = self.shake_intensity - 1;
            Some(self.shake_intensity)
        } else {
            None
        }
    }

    /// Whether the caret shows on this frame.
    pub fn caret_visible(&self) -> (r: bool)
        ensures
            r == caret_on(self.blink_timer as int),
    {
        (self.blink_timer / BLINK_HALF_PERIOD) % 2 == 0
    }
}

/// What the caller must do after a key event.
#[derive(Clone, Copy, Debug, PartialEq, Eq, Structural)]
pub enum KeyAction {
    /// Nothing beyond drawing the next frame.
    Continue,
    /// Draw a frame now, then check the user's password.
    Authenticate,
}

/// What became of a password check.
#[derive(Clone, Copy, Debug, PartialEq, Eq, Structural)]
pub enum AuthOutcome {
    /// The password was right: the lock ends.
    Unlocked,
    /// The password was wrong: the prompt shows the refusal.
    Denied,
}

/// Whether `code` is one of the shift keys.
pub open spec fn is_shift_key(code: u8) -> bool {
    code == KEY_SHIFT_LEFT || code == KEY_SHIFT_RIGHT
}

/// The password after key `code` is pressed with the given shift state:
/// backspace drops the last character, clear empties it, Enter leaves it
/// for the check, a key that types a character appends it, and any other
/// key leaves it as it was.
pub open spec fn password_after_key(pw: Seq<char>, code: u8, shift: bool) -> Seq<char> {
    if code == KEY_BACKSPACE {
        if pw.len() > 0 {
            pw.drop_last()
        } else {
            pw
        }
    } else if code == KEY_CLEAR {
        Seq::empty()
    } else if code == KEY_ENTER {
        pw
    } else {
        match key_char(code, shift) {
            Some(c) => pw.push(c),
            None => pw,
        }
    }
}

/// The user, the password typed so far and what the prompt shows.
pub struct AuthSession {
    pub user: String,
    pub password: Vec<char>,
    pub status_msg: String,
    pub status_color: u32,
    pub funny_phrase: String,
    pub shift_pressed: bool,
}

impl AuthSession {
    /// A fresh prompt for `user`: no password, the invitation to type.
    pub fn new(user: String) -> (s: Self)
        ensures
            s.user@ == user@,
            s.password@.len() == 0,
            s.status_msg@ == "Enter Password"@,
            s.status_color == COLOR_SUBTEXT,
            s.funny_phrase@.len() == 0,
            !s.shift_pressed,
    {
        AuthSession {
            user,
            password: Vec::new(),
            status_msg: String::from_str("Enter Password"),
            status_color: COLOR_SUBTEXT,
            funny_phrase: String::new(),
            shift_pressed: false,
        }
    }

    /// Handles one key event. A shift key only records whether shift is
    /// held. Any other key is acted on when pressed and ignored when
    /// released; a press first resets the status to the neutral
    /// "Authenticating..." and clears the humour line, then edits the
    /// password as `password_after_key` says. Enter asks the caller to
    /// check the password.
    pub fn handle_key(&mut self, keycode: u8, pressed: bool) -> (r: KeyAction)
        ensures
            final(self).user@ == old(self).user@,
            is_shift_key(keycode) ==> final(self).shift_pressed == pressed,
            !is_shift_key(keycode) ==> final(self).shift_pressed == old(self).shift_pressed,
            (is_shift_key(keycode) || !pressed) ==> r == KeyAction::Continue
                && final(self).password@ == old(self).password@
                && final(self).status_msg@ == old(self).status_msg@
                && final(self).status_color == old(self).status_color
                && final(self).funny_phrase@ == old(self).funny_phrase@,
            (!is_shift_key(keycode) && pressed) ==> final(self).status_msg@ == "Authenticating..."@
                && final(self).status_color == COLOR_SUBTEXT
                && final(self).funny_phrase@.len() == 0
                && final(self).password@ == password_after_key(old(self).password@, keycode, old(self).shift_pressed)
                && r == (if keycode == KEY_ENTER { KeyAction::Authenticate } else { KeyAction::Continue }),
    {
        if keycode == KEY_SHIFT_LEFT || keycode == KEY_SHIFT_RIGHT {
            self.shift_pressed = pressed;
            return KeyAction::Continue;
        }
        if !pressed {
            return KeyAction::Continue;
        }
        self.status_msg = String::from_str("Authenticating...");
        self.status_color = COLOR_SUBTEXT;
        self.funny_phrase = String::new();
        if keycode == KEY_ENTER {
            KeyAction::Authenticate
        } else {
            if keycode == KEY_BACKSPACE {
                self.password.pop();
            } else if keycode == KEY_CLEAR {
                self.password.clear();
            } else {
                match keycode_to_char(keycode, self.shift_pressed) {
                    Some(ch) => self.password.push(ch),
                    None => {},
                }
            }
            KeyAction::Continue
        }
    }

    /// Shows a refused password: the password is emptied, the status turns
    /// to "Access Denied" in the error colour, the shake starts and humour
    /// line `phrase_index` of the pool is shown.
    pub fn deny(&mut self, anim: &mut AnimationState, phrase_index: usize)
        requires
            phrase_index < PHRASE_COUNT,
        ensures
            final(self).user@ == old(self).user@,
            final(self).shift_pressed == old(self).shift_pressed,
            final(self).password@.len() == 0,
            final(self).status_msg@ == "Access Denied"@,
            final(self).status_color == COLOR_ERROR,
            final(self).funny_phrase@ == phrase_pool()[phrase_index as int],
            final(anim).shake_intensity == SHAKE_ON_DENIAL,
            final(anim).blink_timer == old(anim).blink_timer,
    {
        self.password.clear();
        self.status_msg = String::from_str("Access Denied");
        self.status_color = COLOR_ERROR;
        anim.shake_intensity = SHAKE_ON_DENIAL;
        self.funny_phrase = String::from_str(denial_phrase(phrase_index));
    }

    /// Applies the answer of the password check. Accepted: nothing changes
    /// and the lock ends. Refused: as `deny`, with a humour line drawn at
    /// random from the pool.
    pub fn finish_authentication(&mut self, anim: &mut AnimationState, accepted: bool) -> (r: AuthOutcome)
        ensures
            final(self).user@ == old(self).user@,
            final(self).shift_pressed == old(self).shift_pressed,
            final(anim).blink_timer == old(anim).blink_timer,
            accepted ==> r == AuthOutcome::Unlocked
                && final(self).password@ == old(self).password@
                && final(self).status_msg@ == old(self).status_msg@
                && final(self).status_color == old(self).status_color
                && final(self).funny_phrase@ == old(self).funny_phrase@
                && final(anim).shake_intensity == old(anim).shake_intensity,
            !accepted ==> r == AuthOutcome::Denied
                && final(self).password@.len() == 0
                && final(self).status_msg@ == "Access Denied"@
                && final(self).status_color == COLOR_ERROR
                && phrase_pool().contains(final(self).funny_phrase@)
                && final(anim).shake_intensity == SHAKE_ON_DENIAL,
    {
        if accepted {
            AuthOutcome::Unlocked
        } else {
            let i = random_below(PHRASE_COUNT);
            self.deny(anim, i);
            assert(phrase_pool()[i as int] == self.funny_phrase@);
            AuthOutcome::Denied
        }
    }
}

/// Blink law: the caret shows on the first frame, stays on for the first
/// fifteen frames, and every fifteen frames it flips.
pub proof fn lemma_caret_blink()
    ensures
        caret_on(0),
        forall|t: int| 0 <= t < BLINK_HALF_PERIOD ==> #[trigger] caret_on(t),
        forall|t: int| 0 <= t ==> #[trigger] caret_on(t + BLINK_HALF_PERIOD) != caret_on(t),
{
    assert forall|t: int| 0 <= t implies #[trigger] caret_on(t + BLINK_HALF_PERIOD) != caret_on(t) by {
        assert((t + 15) / 15 == t / 15 + 1);
    }
}

/// The password after a run of key presses, shift held steady.
pub open spec fn password_after_keys(pw: Seq<char>, codes: Seq<u8>, shift: bool) -> Seq<char>
    decreases codes.len(),
{
    if codes.len() == 0 {
        pw
    } else {
        password_after_key(password_after_keys(pw, codes.drop_last(), shift), codes.last(), shift)
    }
}

/// `n` presses of backspace.
pub open spec fn backspaces(n: nat) -> Seq<u8> {
    Seq::new(n, |i: int| KEY_BACKSPACE)
}

proof fn lemma_typing_appends(pw: Seq<char>, codes: Seq<u8>, shift: bool)
    requires
        forall|i: int| 0 <= i < codes.len() ==> (#[trigger] key_char(codes[i], shift)).is_some(),
    ensures
        password_after_keys(pw, codes, shift).len() == pw.len() + codes.len(),
        password_after_keys(pw, codes, shift).subrange(0, pw.len() as int) == pw,
    decreases codes.len(),
{
    if codes.len() > 0 {
        let init = codes.drop_last();
        assert forall|i: int| 0 <= i < init.len() implies (#[trigger] key_char(init[i], shift)).is_some() by {
            assert(init[i] == codes[i]);
        }
        lemma_typing_appends(pw, init, shift);
        let prev = password_after_keys(pw, init, shift);
        assert(key_char(codes[codes.len() - 1], shift).is_some());
        let c = codes.last();
        assert(base_char(c).is_some());
        assert(c != KEY_BACKSPACE && c != KEY_CLEAR && c != KEY_ENTER);
        let ch = key_char(c, shift).unwrap();
        assert(password_after_keys(pw, codes, shift) == prev.push(ch));
        assert(prev.push(ch).subrange(0, pw.len() as int) =~= prev.subrange(0, pw.len() as int));
    }
}

proof fn lemma_backspaces_truncate(q: Seq<char>, n: nat, shift: bool)
    requires
        n <= q.len(),
    ensures
        password_after_keys(q, backspaces(n), shift) == q.subrange(0, q.len() - n),
    decreases n,
{
    if n == 0 {
        assert(q.subrange(0, q.len() as int) =~= q);
    } else {
        assert(backspaces(n).drop_last() =~= backspaces((n - 1) as nat));
        lemma_backspaces_truncate(q, (n - 1) as nat, shift);
        let prev = q.subrange(0, q.len() - (n - 1));
        assert(prev.drop_last() =~= q.subrange(0, q.len() - n));
    }
}

/// Round trip: typing characters and then pressing backspace once for
/// each of them leaves the password as it was.
pub proof fn lemma_type_then_erase(pw: Seq<char>, codes: Seq<u8>, shift: bool)
    requires
        forall|i: int| 0 <= i < codes.len() ==> (#[trigger] key_char(codes[i], shift)).is_some(),
    ensures
        password_after_keys(password_after_keys(pw, codes, shift), backspaces(codes.len()), shift) == pw,
{
    lemma_typing_appends(pw, codes, shift);
    let typed = password_after_keys(pw, codes, shift);
    lemma_backspaces_truncate(typed, codes.len(), shift);
}

/// Shift law: a key with a character types that character without shift
/// and its image under the substitution table with shift; a key without
/// one, other than backspace and clear, never changes the password.
pub proof fn lemma_shift_mapping(code: u8, pw: Seq<char>, shift: bool)
    ensures
        base_char(code) is Some ==> key_char(code, false) == base_char(code) && key_char(code, true) == Some(
            shift_of(base_char(code)->0),
        ),
        base_char(code) is None && code != KEY_BACKSPACE && code != KEY_CLEAR ==> password_after_key(
            pw,
            code,
            shift,
        ) == pw,
{
}

} // verus!
