//! The terminal controller: its keys, its pacing and the text of its screen.

use vstd::prelude::*;
use crate::keys::{ControlKey, elapsed};
use crate::text::owned;

verus! {

/// Commands go out at most this often, in milliseconds.
pub const CONSOLE_SEND_PERIOD_MS: u64 = 50;

/// The screen is redrawn at most this often, in milliseconds.
pub const CONSOLE_DRAW_PERIOD_MS: u64 = 66;

/// Width of the throttle and steering bars.
pub const BAR_WIDTH: usize = 20;

/// What a key press asks of the terminal controller.
#[derive(Clone, Copy, Debug, PartialEq, Eq)]
pub enum KeyAction {
    /// Stop the controller.
    Quit,
    /// Mark a driving key as held.
    Hold(ControlKey),
    /// Nothing.
    Ignore,
}

/// The action for a key press: `c` is the character of the key, if it has
/// one, and `ctrl` whether Control was down.
pub open spec fn key_action_spec(c: Option<char>, ctrl: bool) -> KeyAction {
    match c {
        Some(ch) => if ch == 'q' {
            KeyAction::Quit
        } else if ch == 'c' && ctrl {
            KeyAction::Quit
        } else if ch == 'w' {
            KeyAction::Hold(ControlKey::W)
        } else if ch == 'a' {
            KeyAction::Hold(ControlKey::A)
        } else if ch == 's' {
            KeyAction::Hold(ControlKey::S)
        } else if ch == 'd' {
            KeyAction::Hold(ControlKey::D)
        } else if ch == ' ' {
            KeyAction::Hold(ControlKey::Space)
        } else {
            KeyAction::Ignore
        },
        None => KeyAction::Ignore,
    }
}

/// The action for a key press.
pub fn key_action(c: Option<char>, ctrl: bool) -> (a: KeyAction)
    ensures
        a == key_action_spec(c, ctrl),
{
    match c {
        Some(ch) => if ch == 'q' {
            KeyAction::Quit
        } else if ch == 'c' && ctrl {
            KeyAction::Quit
        } else if ch == 'w' {
            KeyAction::Hold(ControlKey::W)
        } else if ch == 'a' {
            KeyAction::Hold(ControlKey::A)
        } else if ch == 's' {
            KeyAction::Hold(ControlKey::S)
        } else if ch == 'd' {
            KeyAction::Hold(ControlKey::D)
        } else if ch == ' ' {
            KeyAction::Hold(ControlKey::Space)
        } else {
            KeyAction::Ignore
        },
        None => KeyAction::Ignore,
    }
}

/// Something done at most once per period: it is due when more than the
/// period has passed since it was last done.
pub struct RateGate {
    period_ms: u64,
    last_ms: u64,
}

impl RateGate {
    pub closed spec fn period(&self) -> u64 {
        self.period_ms
    }

    pub closed spec fn last(&self) -> u64 {
        self.last_ms
    }

    /// A gate with the given period, last opened at `now`.
    pub fn new(period_ms: u64, now: u64) -> (g: RateGate)
        ensures
            g.period() == period_ms,
            g.last() == now,
    {
        RateGate { period_ms, last_ms: now }
    }

    /// Whether the action is due at `now`; when it is, `now` becomes the
    /// time it was last done.
    pub fn ready(&mut self, now: u64) -> (due: bool)
        ensures
            due == (elapsed(now, old(self).last()) > old(self).period()),
            final(self).period() == old(self).period(),
            final(self).last() == (if due { now } else { old(self).last() }),
    {
        let since: u64 = if now >= self.last_ms { now - self.last_ms } else { 0 };
        if since > self.period_ms {
            self.last_ms = now;
            true
        } else {
            false
        }
    }
}

/// Two actions let through by a gate lie more than its period apart.
pub proof fn lemma_gate_spacing(period: u64, last: u64, t1: u64, t2: u64)
    requires
        elapsed(t1, last) > period,
        elapsed(t2, t1) > period,
    ensures
        t2 > t1,
        t2 - t1 > period,
{
}

/// The sign of the value that a bar shows.
#[derive(Clone, Copy, Debug, PartialEq, Eq)]
pub enum Sign {
    Negative,
    Zero,
    Positive,
}

pub open spec fn repeat(c: char, n: nat) -> Seq<char> {
    Seq::new(n, |i: int| c)
}

/// A bar `width` cells wide. A centred bar has a `|` in the middle and
/// fills `filled` cells to its left for a negative value or to its right
/// for a positive one; a plain bar fills `filled` cells from the left.
pub open spec fn bar_spec(sign: Sign, filled: nat, width: nat, center: bool) -> Seq<char> {
    if center {
        let mid = width / 2;
        match sign {
            Sign::Negative => seq!['['] + repeat(' ', (mid - filled) as nat) + repeat('=', filled) + seq!['|']
                + repeat(' ', mid) + seq![']'],
            Sign::Positive => seq!['['] + repeat(' ', mid) + seq!['|'] + repeat('=', filled)
                + repeat(' ', (mid - filled) as nat) + seq![']'],
            Sign::Zero => seq!['['] + repeat(' ', mid) + seq!['|'] + repeat(' ', mid) + seq![']'],
        }
    } else {
        seq!['['] + repeat('=', filled) + repeat(' ', (width - filled) as nat) + seq![']']
    }
}

/// The fill that a bar accepts: at most half the width for a centred bar
/// with a non-zero value, at most the width for a plain one.
pub open spec fn bar_fill_ok(sign: Sign, filled: nat, width: nat, center: bool) -> bool {
    if center { sign == Sign::Zero || filled <= width / 2 } else { filled <= width }
}

fn push_repeat(s: &mut String, c: &str, n: usize)
    requires
        c@.len() == 1,
    ensures
        final(s)@ == old(s)@ + repeat(c@[0], n as nat),
{
    let mut i: usize = 0;
    while i < n
        invariant
            c@.len() == 1,
            i <= n,
            s@ == old(s)@ + repeat(c@[0], i as nat),
        decreases n - i,
    {
        s.append(c);
        assert(repeat(c@[0], (i + 1) as nat) =~= repeat(c@[0], i as nat) + c@);
        i = i + 1;
    }
}

/// The text of a bar, as `bar_spec` says.
pub fn bar_text(sign: Sign, filled: usize, width: usize, center: bool) -> (bar: String)
    requires
        bar_fill_ok(sign, filled as nat, width as nat, center),
    ensures
        bar@ == bar_spec(sign, filled as nat, width as nat, center),
{
    proof {
        reveal_strlit("[");
        reveal_strlit("]");
        reveal_strlit("|");
        reveal_strlit(" ");
        reveal_strlit("=");
    }
    let mut s = String::new();
    s.append("[");
    if center {
        let mid = width / 2;
        match sign {
            Sign::Negative => {
                push_repeat(&mut s, " ", mid - filled);
                push_repeat(&mut s, "=", filled);
                s.append("|");
                push_repeat(&mut s, " ", mid);
            },
            Sign::Positive => {
                push_repeat(&mut s, " ", mid);
                s.append("|");
                push_repeat(&mut s, "=", filled);
                push_repeat(&mut s, " ", mid - filled);
            },
            Sign::Zero => {
                push_repeat(&mut s, " ", mid);
                s.append("|");
                push_repeat(&mut s, " ", mid);
            },
        }
    } else {
        push_repeat(&mut s, "=", filled);
        push_repeat(&mut s, " ", width - filled);
    }
    s.append("]");
    assert(s@ =~= bar_spec(sign, filled as nat, width as nat, center));
    s
}

/// A bar is always as wide as asked plus its brackets (and, centred and
/// of odd width, one cell narrower), whatever its value.
pub proof fn lemma_bar_width(sign: Sign, filled: nat, width: nat, center: bool)
    requires
        bar_fill_ok(sign, filled, width, center),
    ensures
        center ==> bar_spec(sign, filled, width, center).len() == 2 * (width / 2) + 3,
        !center ==> bar_spec(sign, filled, width, center).len() == width + 2,
{
}

/// The cells of a bar: the `|` of a centred bar stands right after its
/// left half, and `=` fills exactly `filled` cells, next to the `|` on the
/// side of the sign (from the left for a plain bar); every other inner cell
/// is blank.
pub proof fn lemma_bar_layout(sign: Sign, filled: nat, width: nat, center: bool, i: int)
    requires
        bar_fill_ok(sign, filled, width, center),
        0 < i < bar_spec(sign, filled, width, center).len() - 1,
    ensures
        ({
            let b = bar_spec(sign, filled, width, center);
            let mid = (width / 2) as int;
            &&& b[0] == '[' && b[b.len() - 1] == ']'
            &&& center ==> b[mid + 1] == '|'
            &&& center ==> (b[i] == '|' <==> i == mid + 1)
            &&& (b[i] == '=') <==> (if !center {
                i <= filled
            } else {
                match sign {
                    Sign::Positive => mid + 1 < i <= mid + 1 + filled,
                    Sign::Negative => mid - filled < i <= mid,
                    Sign::Zero => false,
                }
            })
            &&& (b[i] != '=' && b[i] != '|') ==> b[i] == ' '
        }),
{
    let b = bar_spec(sign, filled, width, center);
    let mid = (width / 2) as int;
    lemma_bar_width(sign, filled, width, center);
    if center {
        assert(b[mid + 1] == '|');
    }
}

/// How many times `c` occurs in `s`.
pub open spec fn count_char(s: Seq<char>, c: char) -> nat
    decreases s.len(),
{
    if s.len() == 0 {
        0
    } else {
        count_char(s.drop_last(), c) + (if s.last() == c { 1nat } else { 0nat })
    }
}

proof fn lemma_count_concat(a: Seq<char>, b: Seq<char>, c: char)
    ensures
        count_char(a + b, c) == count_char(a, c) + count_char(b, c),
    decreases b.len(),
{
    if b.len() == 0 {
        assert(a + b =~= a);
    } else {
        assert((a + b).drop_last() =~= a + b.drop_last());
        assert((a + b).last() == b.last());
        lemma_count_concat(a, b.drop_last(), c);
    }
}

proof fn lemma_count_repeat(ch: char, n: nat, c: char)
    ensures
        count_char(repeat(ch, n), c) == (if ch == c { n } else { 0 }),
    decreases n,
{
    if n > 0 {
        assert(repeat(ch, n).drop_last() =~= repeat(ch, (n - 1) as nat));
        lemma_count_repeat(ch, (n - 1) as nat, c);
    }
}

proof fn lemma_count_single(ch: char, c: char)
    ensures
        count_char(seq![ch], c) == (if ch == c { 1nat } else { 0nat }),
{
    assert(seq![ch].drop_last() =~= Seq::<char>::empty());
    assert(count_char(Seq::<char>::empty(), c) == 0);
    assert(seq![ch].last() == ch);
}

/// A bar holds exactly `filled` cells of `=` (none for a centred bar of a
/// zero value).
pub proof fn lemma_bar_fill_count(sign: Sign, filled: nat, width: nat, center: bool)
    requires
        bar_fill_ok(sign, filled, width, center),
    ensures
        count_char(bar_spec(sign, filled, width, center), '=') == (if center && sign == Sign::Zero { 0 } else { filled }),
{
    let mid = width / 2;
    lemma_count_single('[', '=');
    lemma_count_single(']', '=');
    lemma_count_single('|', '=');
    lemma_count_repeat('=', filled, '=');
    lemma_count_repeat(' ', filled, '=');
    lemma_count_repeat(' ', mid, '=');
    if center {
        lemma_count_repeat(' ', (mid - filled) as nat, '=');
        match sign {
            Sign::Negative => {
                let a = seq!['['] + repeat(' ', (mid - filled) as nat);
                let b = a + repeat('=', filled);
                let c = b + seq!['|'];
                let d = c + repeat(' ', mid);
                lemma_count_concat(seq!['['], repeat(' ', (mid - filled) as nat), '=');
                lemma_count_concat(a, repeat('=', filled), '=');
                lemma_count_concat(b, seq!['|'], '=');
                lemma_count_concat(c, repeat(' ', mid), '=');
                lemma_count_concat(d, seq![']'], '=');
            },
            Sign::Positive => {
                let a = seq!['['] + repeat(' ', mid);
                let b = a + seq!['|'];
                let c = b + repeat('=', filled);
                let d = c + repeat(' ', (mid - filled) as nat);
                lemma_count_concat(seq!['['], repeat(' ', mid), '=');
                lemma_count_concat(a, seq!['|'], '=');
                lemma_count_concat(b, repeat('=', filled), '=');
                lemma_count_concat(c, repeat(' ', (mid - filled) as nat), '=');
                lemma_count_concat(d, seq![']'], '=');
            },
            Sign::Zero => {
                let a = seq!['['] + repeat(' ', mid);
                let b = a + seq!['|'];
                let c = b + repeat(' ', mid);
                lemma_count_concat(seq!['['], repeat(' ', mid), '=');
                lemma_count_concat(a, seq!['|'], '=');
                lemma_count_concat(b, repeat(' ', mid), '=');
                lemma_count_concat(c, seq![']'], '=');
            },
        }
    } else {
        lemma_count_repeat(' ', (width - filled) as nat, '=');
        let a = seq!['['] + repeat('=', filled);
        let b = a + repeat(' ', (width - filled) as nat);
        lemma_count_concat(seq!['['], repeat('=', filled), '=');
        lemma_count_concat(a, repeat(' ', (width - filled) as nat), '=');
        lemma_count_concat(b, seq![']'], '=');
    }
}

/// The inside of a bar, between its brackets.
pub open spec fn bar_inner(b: Seq<char>) -> Seq<char> {
    b.subrange(1, b.len() - 1)
}

/// A centred bar for a negative value is the mirror image of the bar for
/// the positive value of the same size.
pub proof fn lemma_bar_mirror(filled: nat, width: nat)
    requires
        filled <= width / 2,
    ensures
        bar_inner(bar_spec(Sign::Negative, filled, width, true))
            =~= bar_inner(bar_spec(Sign::Positive, filled, width, true)).reverse(),
{
    let n = bar_spec(Sign::Negative, filled, width, true);
    let p = bar_spec(Sign::Positive, filled, width, true);
    lemma_bar_width(Sign::Negative, filled, width, true);
    lemma_bar_width(Sign::Positive, filled, width, true);
    let len = bar_inner(n).len();
    assert forall|i: int| 0 <= i < len implies #[trigger] bar_inner(n)[i] == bar_inner(p).reverse()[i] by {
        lemma_bar_layout(Sign::Negative, filled, width, true, i + 1);
        lemma_bar_layout(Sign::Positive, filled, width, true, len - i);
    }
}

/// The board's connection state as the screen shows it.
pub fn status_label(connected: bool) -> (s: String)
    ensures
        s@ == (if connected { "CONNECTED"@ } else { "DISCONNECTED"@ }),
{
    if connected { owned("CONNECTED") } else { owned("DISCONNECTED") }
}

/// A key on the screen: in brackets while held, between spaces otherwise.
pub fn key_badge(name: &str, held: bool) -> (s: String)
    ensures
        s@ == (if held { "["@ + name@ + "]"@ } else { " "@ + name@ + " "@ }),
{
    let mut s = if held { owned("[") } else { owned(" ") };
    s.append(name);
    s.append(if held { "]" } else { " " });
    s
}

/// The brake line of the screen.
pub fn brake_line(brake: bool) -> (s: String)
    ensures
        s@ == (if brake { "            >> BRAKE <<"@ } else { "                       "@ }),
{
    if brake { owned("            >> BRAKE <<") } else { owned("                       ") }
}

/// The direction of travel on the screen.
pub fn direction_label(throttle_sign: Sign) -> (s: String)
    ensures
        s@ == match throttle_sign {
            Sign::Positive => "FWD "@,
            Sign::Negative => "REV "@,
            Sign::Zero => "----"@,
        },
{
    match throttle_sign {
        Sign::Positive => owned("FWD "),
        Sign::Negative => owned("REV "),
        Sign::Zero => owned("----"),
    }
}

/// Where the steering points, for the screen: left of -5, right of 5, or
/// the centre in between.
#[derive(Clone, Copy, Debug, PartialEq, Eq)]
pub enum SteerZone {
    Left,
    Center,
    Right,
}

/// The steering direction on the screen.
pub fn steer_label(zone: SteerZone) -> (s: String)
    ensures
        s@ == match zone {
            SteerZone::Left => "LEFT "@,
            SteerZone::Right => "RIGHT"@,
            SteerZone::Center => "CTR  "@,
        },
{
    match zone {
        SteerZone::Left => owned("LEFT "),
        SteerZone::Right => owned("RIGHT"),
        SteerZone::Center => owned("CTR  "),
    }
}


/// Each driving letter holds the key of the same letter, whatever Control
/// does: `w` accelerates, `s` brakes or reverses, `a` steers left, `d`
/// steers right, space is the emergency brake; `q` quits, and `c` quits only
/// with Control.
pub proof fn lemma_letters_hold_their_keys(ctrl: bool)
    ensures
        key_action_spec(Some('w'), ctrl) == KeyAction::Hold(ControlKey::W),
        key_action_spec(Some('a'), ctrl) == KeyAction::Hold(ControlKey::A),
        key_action_spec(Some('s'), ctrl) == KeyAction::Hold(ControlKey::S),
        key_action_spec(Some('d'), ctrl) == KeyAction::Hold(ControlKey::D),
        key_action_spec(Some(' '), ctrl) == KeyAction::Hold(ControlKey::Space),
        key_action_spec(Some('q'), ctrl) == KeyAction::Quit,
        key_action_spec(Some('c'), true) == KeyAction::Quit,
        key_action_spec(Some('c'), false) == KeyAction::Ignore,
        key_action_spec(None, ctrl) == KeyAction::Ignore,
{
}

/// Pressing `a` steers left and `d` steers right: the key held for `a` is
/// the one the control law reads as left, and a tick with it held (and not
/// the other) moves the steering down, one with `d` moves it up.
pub proof fn lemma_a_left_d_right(ctrl: bool, d: crate::controls::Drive, accel: int, decel: int)
    requires
        crate::controls::drive_in_range(d),
        crate::controls::valid_rates(accel, decel),
        accel > 0,
        -100 < d.steering < 100,
    ensures
        key_action_spec(Some('a'), ctrl) matches KeyAction::Hold(k) && k == ControlKey::A,
        key_action_spec(Some('d'), ctrl) matches KeyAction::Hold(k) && k == ControlKey::D,
        crate::controls::control_step(
            d,
            crate::controls::HeldKeys { forward: false, back: false, left: true, right: false, stop: false },
            accel,
            decel,
        ).steering < d.steering,
        crate::controls::control_step(
            d,
            crate::controls::HeldKeys { forward: false, back: false, left: false, right: true, stop: false },
            accel,
            decel,
        ).steering > d.steering,
{
}

} // verus!
