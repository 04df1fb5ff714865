//! Which keys are held, which hotbar slot is selected, and whether the cursor
//! is captured.

use vstd::prelude::*;

verus! {

/// A keyboard key: a digit key of the main row, or any other key by an id
/// the caller keeps stable.
#[derive(Clone, Copy, Debug, PartialEq, Eq, Structural)]
pub enum Key {
    Digit(u8),
    Other(u32),
}

/// Whether a key event presses or releases its key.
#[derive(Clone, Copy, Debug, PartialEq, Eq, Structural)]
pub enum KeyState {
    Pressed,
    Released,
}

/// Which way a scroll event turned the wheel.
#[derive(Clone, Copy, Debug, PartialEq, Eq, Structural)]
pub enum ScrollDirection {
    /// A positive scroll amount.
    Up,
    /// A negative scroll amount.
    Down,
    /// No amount (zero, or not a number).
    Still,
}

/// The number of hotbar slots.
pub const HOTBAR_SLOTS: u8 = 9;

/// The input state by the set of held keys, cursor capture and selected slot.
pub struct InputView {
    pub pressed: Set<Key>,
    pub cursor_captured: bool,
    pub selected_slot: u8,
}

/// The hotbar slot a key selects: the digit keys 1 to 9 select slots 0 to 8.
pub open spec fn hotbar_slot_spec(key: Key) -> Option<u8> {
    match key {
        Key::Digit(d) => if 1 <= d <= 9 {
            Some((d - 1) as u8)
        } else {
            None
        },
        Key::Other(_) => None,
    }
}

/// The slot selected after scrolling: up moves one slot right, down one slot
/// left, both wrapping around the nine slots.
pub open spec fn scroll_spec(slot: u8, direction: ScrollDirection) -> u8 {
    match direction {
        ScrollDirection::Up => ((slot + 1) % 9) as u8,
        ScrollDirection::Down => ((slot + 8) % 9) as u8,
        ScrollDirection::Still => slot,
    }
}

/// The hotbar slot a key selects, if it is one of the digit keys 1 to 9.
pub fn hotbar_slot(key: Key) -> (r: Option<u8>)
    ensures
        r == hotbar_slot_spec(key),
{
    match key {
        Key::Digit(d) => if 1 <= d && d <= 9 {
            Some(d - 1)
        } else {
            None
        },
        Key::Other(_) => None,
    }
}

/// The position of `key` in `keys`, if it occurs there.
fn position_of(keys: &Vec<Key>, key: Key) -> (r: Option<usize>)
    ensures
        r matches Some(i) ==> i < keys@.len() && keys@[i as int] == key,
        r is None ==> !keys@.contains(key),
{
    let n: usize = keys.len();
    let mut i: usize = 0;
    while i < n
        invariant
            n == keys@.len(),
            i <= n,
            forall|j: int| 0 <= j < i ==> keys@[j] != key,
        decreases n - i,
    {
        if keys[i] == key {
            return Some(i);
        }
        i = i + 1;
    }
    None
}

/// Held keys, the selected hotbar slot and whether the cursor is captured.
pub struct InputState {
    pressed: Vec<Key>,
    cursor_captured: bool,
    selected_slot: u8,
}

impl View for InputState {
    type V = InputView;

    closed spec fn view(&self) -> InputView {
        InputView {
            pressed: self.pressed@.to_set(),
            cursor_captured: self.cursor_captured,
            selected_slot: self.selected_slot,
        }
    }
}

impl InputState {
    #[verifier::type_invariant]
    spec fn inv(self) -> bool {
        &&& self.selected_slot < HOTBAR_SLOTS
        &&& self.pressed@.no_duplicates()
    }

    /// No keys held, the first slot selected, the cursor captured.
    pub fn new() -> (r: Self)
        ensures
            r@ == (InputView { pressed: Set::empty(), cursor_captured: true, selected_slot: 0 }),
    {
        let r = InputState { pressed: Vec::new(), cursor_captured: true, selected_slot: 0 };
        assert(r.pressed@.to_set() =~= Set::<Key>::empty());
        r
    }

    /// Whether `key` is held.
    pub fn key_pressed(&self, key: Key) -> (r: bool)
        ensures
            r == self@.pressed.contains(key),
    {
        let found = position_of(&self.pressed, key);
        found.is_some()
    }

    /// Records a key going down or up; pressing a digit key 1 to 9 also
    /// selects its hotbar slot.
    pub fn on_key_event(&mut self, key: Key, state: KeyState)
        ensures
            final(self)@.cursor_captured == old(self)@.cursor_captured,
            state == KeyState::Pressed ==> final(self)@.pressed == old(self)@.pressed.insert(key),
            state == KeyState::Released ==> final(self)@.pressed == old(self)@.pressed.remove(key),
            final(self)@.selected_slot == (match (state, hotbar_slot_spec(key)) {
                (KeyState::Pressed, Some(slot)) => slot,
                _ => old(self)@.selected_slot,
            }),
    {
        proof {
            use_type_invariant(&*self);
        }
        let ghost before = self.pressed@;
        let found = position_of(&self.pressed, key);
        let mut pressed: Vec<Key> = Vec::new();
        std::mem::swap(&mut pressed, &mut self.pressed);
        match state {
            KeyState::Pressed => {
                if found.is_none() {
                    pressed.push(key);
                    assert(pressed@.no_duplicates()) by {
                        assert forall|a: int, b: int| 0 <= a < pressed@.len() && 0 <= b < pressed@.len() && a != b
                            implies pressed@[a] != pressed@[b] by {
                            if a == before.len() {
                                assert(before.contains(before[b]));
                            } else if b == before.len() {
                                assert(before.contains(before[a]));
                            }
                        }
                    }
                }
                assert forall|k: Key| pressed@.contains(k) <==> before.to_set().insert(key).contains(k) by {
                    if let Some(i) = found {
                        assert(before[i as int] == key);
                    } else {
                        assert(pressed@[before.len() as int] == key);
                        if pressed@.contains(k) {
                            let j = choose|j: int| 0 <= j < pressed@.len() && pressed@[j] == k;
                            if j < before.len() {
                                assert(before[j] == k);
                            }
                        }
                        if before.contains(k) {
                            let j = choose|j: int| 0 <= j < before.len() && before[j] == k;
                            assert(pressed@[j] == k);
                        }
                    }
                }
                assert(pressed@.to_set() =~= before.to_set().insert(key));
                self.pressed = pressed;
                if let Some(slot) = hotbar_slot(key) {
                    self.selected_slot = slot;
                }
            },
            KeyState::Released => {
                if let Some(idx) = found {
                    pressed.remove(idx);
                    assert forall|k: Key| pressed@.contains(k) <==> before.to_set().remove(key).contains(k) by {
                        if pressed@.contains(k) {
                            let j = choose|j: int| 0 <= j < pressed@.len() && pressed@[j] == k;
                            if j < idx {
                                assert(before[j] == k);
                            } else {
                                assert(before[j + 1] == k);
                            }
                        }
                        if before.to_set().remove(key).contains(k) {
                            let j = choose|j: int| 0 <= j < before.len() && before[j] == k;
                            if j < idx {
                                assert(pressed@[j] == k);
                            } else {
                                assert(pressed@[j - 1] == k);
                            }
                        }
                    }
                }
                assert(pressed@.to_set() =~= before.to_set().remove(key));
                self.pressed = pressed;
            },
        }
    }

    /// The selected hotbar slot, from 0 to 8.
    pub fn selected_slot(&self) -> (r: u8)
        ensures
            r == self@.selected_slot,
            r < HOTBAR_SLOTS,
    {
        proof {
            use_type_invariant(self);
        }
        self.selected_slot
    }

    /// Moves the hotbar selection one slot per scroll event, wrapping around.
    pub fn on_scroll(&mut self, direction: ScrollDirection)
        ensures
            final(self)@ == (InputView { selected_slot: scroll_spec(old(self)@.selected_slot, direction), ..old(self)@ }),
    {
        proof {
            use_type_invariant(&*self);
        }
        match direction {
            ScrollDirection::Up => {
                self.selected_slot = (self.selected_slot + 1) % 9;
            },
            ScrollDirection::Down => {
                self.selected_slot = (self.selected_slot + 8) % 9;
            },
            ScrollDirection::Still => {},
        }
    }

    /// Whether the cursor is captured by the window.
    pub fn is_cursor_captured(&self) -> (r: bool)
        ensures
            r == self@.cursor_captured,
    {
        self.cursor_captured
    }
}

/// Scrolling one step up and then one step down, or down and then up, leaves
/// the selected slot where it was.
pub proof fn lemma_scroll_round_trip(slot: u8)
    requires
        slot < HOTBAR_SLOTS,
    ensures
        scroll_spec(scroll_spec(slot, ScrollDirection::Up), ScrollDirection::Down) == slot,
        scroll_spec(scroll_spec(slot, ScrollDirection::Down), ScrollDirection::Up) == slot,
{
}

/// One scroll step moves the selection to the neighbouring slot, up to the
/// right and down to the left, from the last slot round to the first and back,
/// and never leaves the hotbar.
pub proof fn lemma_scroll_step(slot: u8)
    requires
        slot < HOTBAR_SLOTS,
    ensures
        scroll_spec(slot, ScrollDirection::Up) == (if slot + 1 == HOTBAR_SLOTS { 0 } else { slot + 1 }),
        scroll_spec(slot, ScrollDirection::Down) == (if slot == 0 { HOTBAR_SLOTS - 1 } else { slot - 1 }),
        scroll_spec(slot, ScrollDirection::Still) == slot,
        scroll_spec(slot, ScrollDirection::Up) < HOTBAR_SLOTS,
        scroll_spec(slot, ScrollDirection::Down) < HOTBAR_SLOTS,
{
}

} // verus!
