use std::collections::HashSet;
use vstd::prelude::*;

verus! {

broadcast use vstd::std_specs::hash::group_hash_axioms;

/// Keyboard and mouse-button state between two fixed update steps. Keys are
/// identified by their platform scancode, mouse buttons by a button number.
pub struct InputState {
    /// Keys that are down now.
    pub held: HashSet<u32>,
    /// Keys that went down since the last `clear`.
    pub pressed: HashSet<u32>,
    /// Keys that went up since the last `clear`.
    pub released: HashSet<u32>,
    /// Buttons that went down since the last `clear` and are still down.
    pub mouse_buttons: HashSet<u32>,
}

impl InputState {
    /// No key held, nothing pressed or released.
    pub fn new() -> (state: InputState)
        ensures
            state.held@ == Set::<u32>::empty(),
            state.pressed@ == Set::<u32>::empty(),
            state.released@ == Set::<u32>::empty(),
            state.mouse_buttons@ == Set::<u32>::empty(),
    {
        return InputState {
            held: HashSet::new(),
            pressed: HashSet::new(),
            released: HashSet::new(),
            mouse_buttons: HashSet::new(),
        };
    }

    /// Forgets the presses, releases and button presses of the finished step;
    /// held keys stay held.
    pub fn clear(&mut self)
        ensures
            final(self).held@ == old(self).held@,
            final(self).pressed@ == Set::<u32>::empty(),
            final(self).released@ == Set::<u32>::empty(),
            final(self).mouse_buttons@ == Set::<u32>::empty(),
    {
        self.pressed.clear();
        self.released.clear();
        self.mouse_buttons.clear();
    }

    /// Records that `key` went down.
    pub fn key_pressed(&mut self, key: u32)
        ensures
            final(self).held@ == old(self).held@.insert(key),
            final(self).pressed@ == old(self).pressed@.insert(key),
            final(self).released@ == old(self).released@,
            final(self).mouse_buttons@ == old(self).mouse_buttons@,
    {
        self.held.insert(key);
        self.pressed.insert(key);
    }

    /// Records that `key` went up.
    pub fn key_released(&mut self, key: u32)
        ensures
            final(self).held@ == old(self).held@.remove(key),
            final(self).pressed@ == old(self).pressed@,
            final(self).released@ == old(self).released@.insert(key),
            final(self).mouse_buttons@ == old(self).mouse_buttons@,
    {
        self.held.remove(&key);
        self.released.insert(key);
    }

    /// Records that `button` went down.
    pub fn mouse_pressed(&mut self, button: u32)
        ensures
            final(self).held@ == old(self).held@,
            final(self).pressed@ == old(self).pressed@,
            final(self).released@ == old(self).released@,
            final(self).mouse_buttons@ == old(self).mouse_buttons@.insert(button),
    {
        self.mouse_buttons.insert(button);
    }

    /// Records that `button` went up.
    pub fn mouse_released(&mut self, button: u32)
        ensures
            final(self).held@ == old(self).held@,
            final(self).pressed@ == old(self).pressed@,
            final(self).released@ == old(self).released@,
            final(self).mouse_buttons@ == old(self).mouse_buttons@.remove(button),
    {
        self.mouse_buttons.remove(&button);
    }
}

/// A key pressed and then released within one step is no longer held, and is
/// reported both as pressed and as released until the next `clear`; other keys'
/// held state is untouched.
pub proof fn lemma_press_then_release(held: Set<u32>, pressed: Set<u32>, released: Set<u32>, key: u32, other: u32)
    requires
        other != key,
    ensures
        !held.insert(key).remove(key).contains(key),
        pressed.insert(key).contains(key),
        released.insert(key).contains(key),
        held.insert(key).remove(key).contains(other) == held.contains(other),
{
}

/// Pressing a key that is already held changes nothing about what is held.
pub proof fn lemma_press_is_idempotent_on_held(held: Set<u32>, key: u32)
    requires
        held.contains(key),
    ensures
        held.insert(key) == held,
{
    assert(held.insert(key) =~= held);
}

} // verus!
