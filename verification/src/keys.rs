//! Which driving keys count as held: a key is held while its last press is
//! more recent than the key timeout.

use std::collections::HashMap;
use vstd::prelude::*;
use vstd::std_specs::hash::*;
use crate::controls::HeldKeys;

verus! {

broadcast use vstd::std_specs::hash::group_hash_axioms;

/// A key press counts as held for this long, in milliseconds.
pub const KEY_TIMEOUT_MS: u64 = 150;

/// The keys that drive the vehicle.
#[derive(Clone, Copy, Debug, PartialEq, Eq)]
pub enum ControlKey {
    W,
    A,
    S,
    D,
    Space,
}

/// The number under which a key's last press is recorded.
pub open spec fn key_code(k: ControlKey) -> u8 {
    match k {
        ControlKey::W => 0,
        ControlKey::A => 1,
        ControlKey::S => 2,
        ControlKey::D => 3,
        ControlKey::Space => 4,
    }
}

fn code_of(k: ControlKey) -> (c: u8)
    ensures
        c == key_code(k),
{
    match k {
        ControlKey::W => 0,
        ControlKey::A => 1,
        ControlKey::S => 2,
        ControlKey::D => 3,
        ControlKey::Space => 4,
    }
}

/// Time from `then` to `now`, zero when `now` lies before `then`
/// (as `Instant::elapsed` saturates).
pub open spec fn elapsed(now: u64, then: u64) -> int {
    if now >= then { now - then } else { 0 }
}

/// A key is held at `now` when it was pressed less than `timeout` ago.
pub open spec fn key_held(presses: Map<u8, u64>, k: ControlKey, now: u64, timeout: u64) -> bool {
    presses.contains_key(key_code(k)) && elapsed(now, presses[key_code(k)]) < timeout
}

/// Last press time of each driving key, in milliseconds.
pub struct KeyTracker {
    presses: HashMap<u8, u64>,
}

impl View for KeyTracker {
    type V = Map<u8, u64>;

    closed spec fn view(&self) -> Map<u8, u64> {
        self.presses@
    }
}

impl KeyTracker {
    /// No key pressed yet.
    pub fn new() -> (t: KeyTracker)
        ensures
            t@ == Map::<u8, u64>::empty(),
    {
        KeyTracker { presses: HashMap::new() }
    }

    /// Records that `key` is down at time `now`.
    pub fn press(&mut self, key: ControlKey, now: u64)
        ensures
            final(self)@ == old(self)@.insert(key_code(key), now),
    {
        let c = code_of(key);
        self.presses.insert(c, now);
    }

    /// Whether `key` counts as held at `now`.
    pub fn is_key_held(&self, key: ControlKey, now: u64) -> (held: bool)
        ensures
            held == key_held(self@, key, now, KEY_TIMEOUT_MS),
    {
        let c = code_of(key);
        match self.presses.get(&c) {
            Some(t) => {
                let since: u64 = if now >= *t { now - *t } else { 0 };
                since < KEY_TIMEOUT_MS
            },
            None => false,
        }
    }

    /// The driving keys held at `now`.
    pub fn held_keys(&self, now: u64) -> (keys: HeldKeys)
        ensures
            keys.forward == key_held(self@, ControlKey::W, now, KEY_TIMEOUT_MS),
            keys.back == key_held(self@, ControlKey::S, now, KEY_TIMEOUT_MS),
            keys.left == key_held(self@, ControlKey::A, now, KEY_TIMEOUT_MS),
            keys.right == key_held(self@, ControlKey::D, now, KEY_TIMEOUT_MS),
            keys.stop == key_held(self@, ControlKey::Space, now, KEY_TIMEOUT_MS),
    {
        HeldKeys {
            forward: self.is_key_held(ControlKey::W, now),
            back: self.is_key_held(ControlKey::S, now),
            left: self.is_key_held(ControlKey::A, now),
            right: self.is_key_held(ControlKey::D, now),
            stop: self.is_key_held(ControlKey::Space, now),
        }
    }
}

/// A key pressed at `now` is held until the timeout has passed, and pressing
/// one key does not change whether another is held.
pub proof fn lemma_press_then_held(presses: Map<u8, u64>, k: ControlKey, other: ControlKey, now: u64, later: u64)
    requires
        now <= later,
        later - now < KEY_TIMEOUT_MS,
    ensures
        key_held(presses.insert(key_code(k), now), k, later, KEY_TIMEOUT_MS),
        !key_held(presses.insert(key_code(k), now), k, (now + KEY_TIMEOUT_MS) as u64, KEY_TIMEOUT_MS)
            || now + KEY_TIMEOUT_MS > u64::MAX,
        other != k ==> (key_held(presses.insert(key_code(k), now), other, later, KEY_TIMEOUT_MS)
            == key_held(presses, other, later, KEY_TIMEOUT_MS)),
{
}

} // verus!
