//! Which keys and mouse buttons are held, and which were pressed during the current frame.
use vstd::prelude::*;
use std::collections::HashSet;

verus! {

broadcast use vstd::std_specs::hash::group_hash_axioms;

/// A keyboard event, the key named by its code.
#[derive(Clone, Copy, Debug, PartialEq, Eq, Structural)]
pub enum KeyEvent {
    /// A key went down.
    Pressed(u32),
    /// A key came up.
    Released(u32),
    /// The window lost the focus.
    FocusLost,
    /// Anything else.
    Other,
}

/// A mouse button event, the button named by its code.
#[derive(Clone, Copy, Debug, PartialEq, Eq, Structural)]
pub enum ButtonEvent {
    /// A button went down.
    Pressed(u32),
    /// A button came up.
    Released(u32),
    /// Anything else.
    Other,
}

/// The keys held down, and those pressed during the current frame.
pub struct Keyboard {
    down: HashSet<u32>,
    pressed: HashSet<u32>,
}

/// The mouse buttons held down, and those pressed during the current frame.
pub struct Mouse {
    down: HashSet<u32>,
    pressed: HashSet<u32>,
}

impl Keyboard {
    /// The keys held down.
    pub closed spec fn down(&self) -> Set<u32> {
        self.down@
    }

    /// The keys pressed during the current frame.
    pub closed spec fn pressed(&self) -> Set<u32> {
        self.pressed@
    }

    /// No key held or pressed.
    pub fn new() -> (r: Keyboard)
        ensures
            r.down() == Set::<u32>::empty(),
            r.pressed() == Set::<u32>::empty(),
    {
        Keyboard { down: HashSet::new(), pressed: HashSet::new() }
    }

    /// Whether `key` is held down.
    pub fn is_key_down(&self, key: u32) -> (r: bool)
        ensures
            r == self.down().contains(key),
    {
        self.down.contains(&key)
    }

    /// Whether `key` was pressed during the current frame.
    pub fn is_key_pressed(&self, key: u32) -> (r: bool)
        ensures
            r == self.pressed().contains(key),
    {
        self.pressed.contains(&key)
    }

    /// Takes an event into account: a key that goes down is held and pressed, a key that comes
    /// up is no longer held, and a lost focus forgets every key.
    pub fn on_event(&mut self, event: &KeyEvent)
        ensures
            match *event {
                KeyEvent::Pressed(k) => final(self).down() == old(self).down().insert(k)
                    && final(self).pressed() == old(self).pressed().insert(k),
                KeyEvent::Released(k) => final(self).down() == old(self).down().remove(k)
                    && final(self).pressed() == old(self).pressed(),
                KeyEvent::FocusLost => final(self).down() == Set::<u32>::empty()
                    && final(self).pressed() == Set::<u32>::empty(),
                KeyEvent::Other => final(self).down() == old(self).down()
                    && final(self).pressed() == old(self).pressed(),
            },
    {
        match *event {
            KeyEvent::Pressed(k) => {
                self.down.insert(k);
                self.pressed.insert(k);
            },
            KeyEvent::Released(k) => {
                self.down.remove(&k);
            },
            KeyEvent::FocusLost => {
                self.down.clear();
                self.pressed.clear();
            },
            KeyEvent::Other => {},
        }
    }

    /// Ends the frame: no key counts as pressed any more.
    pub fn frame_finished(&mut self)
        ensures
            final(self).down() == old(self).down(),
            final(self).pressed() == Set::<u32>::empty(),
    {
        self.pressed.clear();
    }
}

/// The sign of a movement along one axis: 1 where only `plus` is held, -1 where only `minus`
/// is, 0 otherwise.
pub open spec fn axis(plus: bool, minus: bool) -> int {
    (if plus { 1int } else { 0int }) - (if minus { 1int } else { 0int })
}

impl Keyboard {
    /// The direction the held keys move the player in, across (`right` minus `left`) and along
    /// (`back` minus `forward`) the view.
    pub fn movement_direction(&self, forward: u32, back: u32, left: u32, right: u32) -> (r: (i32, i32))
        ensures
            r.0 == axis(self.down().contains(right), self.down().contains(left)),
            r.1 == axis(self.down().contains(back), self.down().contains(forward)),
    {
        let x = (if self.is_key_down(right) { 1i32 } else { 0i32 }) - (if self.is_key_down(left) { 1i32 } else { 0i32 });
        let z = (if self.is_key_down(back) { 1i32 } else { 0i32 }) - (if self.is_key_down(forward) { 1i32 } else { 0i32 });
        (x, z)
    }
}

impl Mouse {
    /// The buttons held down.
    pub closed spec fn down(&self) -> Set<u32> {
        self.down@
    }

    /// The buttons pressed during the current frame.
    pub closed spec fn pressed(&self) -> Set<u32> {
        self.pressed@
    }

    /// No button held or pressed.
    pub fn new() -> (r: Mouse)
        ensures
            r.down() == Set::<u32>::empty(),
            r.pressed() == Set::<u32>::empty(),
    {
        Mouse { down: HashSet::new(), pressed: HashSet::new() }
    }

    /// Whether `button` is held down.
    pub fn is_button_down(&self, button: u32) -> (r: bool)
        ensures
            r == self.down().contains(button),
    {
        self.down.contains(&button)
    }

    /// Whether `button` was pressed during the current frame.
    pub fn is_button_pressed(&self, button: u32) -> (r: bool)
        ensures
            r == self.pressed().contains(button),
    {
        self.pressed.contains(&button)
    }

    /// Takes an event into account: a button that goes down is held and pressed, a button that
    /// comes up is no longer held.
    pub fn on_event(&mut self, event: &ButtonEvent)
        ensures
            match *event {
                ButtonEvent::Pressed(b) => final(self).down() == old(self).down().insert(b)
                    && final(self).pressed() == old(self).pressed().insert(b),
                ButtonEvent::Released(b) => final(self).down() == old(self).down().remove(b)
                    && final(self).pressed() == old(self).pressed(),
                ButtonEvent::Other => final(self).down() == old(self).down()
                    && final(self).pressed() == old(self).pressed(),
            },
    {
        match *event {
            ButtonEvent::Pressed(b) => {
                self.down.insert(b);
                self.pressed.insert(b);
            },
            ButtonEvent::Released(b) => {
                self.down.remove(&b);
            },
            ButtonEvent::Other => {},
        }
    }

    /// Ends the frame: no button counts as pressed any more.
    pub fn frame_finished(&mut self)
        ensures
            final(self).down() == old(self).down(),
            final(self).pressed() == Set::<u32>::empty(),
    {
        self.pressed.clear();
    }
}

} // verus!
