//! Polled input: the events a frame delivers and the set of keys and
//! scancodes currently held down.
//!
//! The embedder drains the window system's events once per frame, converts
//! them to [`SmittenEvent`]s, and feeds them here; the tracker maintains
//! the down-sets that `is_key_down` and `is_scancode_down` answer from.

use vstd::prelude::*;

use vstd::hash_set::HashSetWithView;
use vstd::std_specs::hash::obeys_key_model;

verus! {

/// The keys the toolkit distinguishes: letters, the number row, escape.
#[derive(Clone, Copy, Debug, PartialEq, Eq, Hash, Structural)]
pub enum Key {
    A,
    B,
    C,
    D,
    E,
    F,
    G,
    H,
    I,
    J,
    K,
    L,
    M,
    N,
    O,
    P,
    Q,
    R,
    S,
    T,
    U,
    V,
    W,
    X,
    Y,
    Z,
    Row1,
    Row2,
    Row3,
    Row4,
    Row5,
    Row6,
    Row7,
    Row8,
    Row9,
    Row0,
    Escape,
}

/// A distinct code for each key, the value the down-set stores.
pub open spec fn spec_key_code(k: Key) -> u32 {
    match k {
        Key::A => 0,
        Key::B => 1,
        Key::C => 2,
        Key::D => 3,
        Key::E => 4,
        Key::F => 5,
        Key::G => 6,
        Key::H => 7,
        Key::I => 8,
        Key::J => 9,
        Key::K => 10,
        Key::L => 11,
        Key::M => 12,
        Key::N => 13,
        Key::O => 14,
        Key::P => 15,
        Key::Q => 16,
        Key::R => 17,
        Key::S => 18,
        Key::T => 19,
        Key::U => 20,
        Key::V => 21,
        Key::W => 22,
        Key::X => 23,
        Key::Y => 24,
        Key::Z => 25,
        Key::Row1 => 26,
        Key::Row2 => 27,
        Key::Row3 => 28,
        Key::Row4 => 29,
        Key::Row5 => 30,
        Key::Row6 => 31,
        Key::Row7 => 32,
        Key::Row8 => 33,
        Key::Row9 => 34,
        Key::Row0 => 35,
        Key::Escape => 36,
    }
}

impl Key {
    /// The key's code.
    pub fn code(&self) -> (c: u32)
        ensures
            c == spec_key_code(*self),
    {
        match self {
            Key::A => 0,
            Key::B => 1,
            Key::C => 2,
            Key::D => 3,
            Key::E => 4,
            Key::F => 5,
            Key::G => 6,
            Key::H => 7,
            Key::I => 8,
            Key::J => 9,
            Key::K => 10,
            Key::L => 11,
            Key::M => 12,
            Key::N => 13,
            Key::O => 14,
            Key::P => 15,
            Key::Q => 16,
            Key::R => 17,
            Key::S => 18,
            Key::T => 19,
            Key::U => 20,
            Key::V => 21,
            Key::W => 22,
            Key::X => 23,
            Key::Y => 24,
            Key::Z => 25,
            Key::Row1 => 26,
            Key::Row2 => 27,
            Key::Row3 => 28,
            Key::Row4 => 29,
            Key::Row5 => 30,
            Key::Row6 => 31,
            Key::Row7 => 32,
            Key::Row8 => 33,
            Key::Row9 => 34,
            Key::Row0 => 35,
            Key::Escape => 36,
        }
    }
}

/// One event of a frame: a resize, or a key transition carrying the raw
/// scancode and, when the window system names it, the key.
#[derive(Clone, Copy, Debug, PartialEq, Eq, Structural)]
pub enum SmittenEvent {
    WindowResized { width: u32, height: u32 },
    Keydown { scancode: u32, key: Option<Key> },
    Keyup { scancode: u32, key: Option<Key> },
}

/// The keys and scancodes currently held down.
pub struct InputState {
    down_keys: HashSetWithView<u32>,
    down_scancodes: HashSetWithView<u32>,
}

impl InputState {
    /// The codes of the keys currently down.
    pub closed spec fn keys(&self) -> Set<u32> {
        self.down_keys@
    }

    /// The scancodes currently down.
    pub closed spec fn scancodes(&self) -> Set<u32> {
        self.down_scancodes@
    }

    /// Nothing is down at the start.
    pub fn new() -> (s: InputState)
        ensures
            s.keys() == Set::<u32>::empty(),
            s.scancodes() == Set::<u32>::empty(),
    {
        proof {
            broadcast use vstd::std_specs::hash::axiom_u32_obeys_hash_table_key_model;
        }
        InputState { down_keys: HashSetWithView::new(), down_scancodes: HashSetWithView::new() }
    }

    /// Notes one event: a key press inserts its scancode and, when named,
    /// the key; a release removes them; a resize changes nothing here.
    pub fn note_event(&mut self, event: &SmittenEvent)
        ensures
            match *event {
                SmittenEvent::Keydown { scancode, key } => {
                    &&& final(self).scancodes() == old(self).scancodes().insert(scancode)
                    &&& final(self).keys() == (match key {
                        Some(k) => old(self).keys().insert(spec_key_code(k)),
                        None => old(self).keys(),
                    })
                },
                SmittenEvent::Keyup { scancode, key } => {
                    &&& final(self).scancodes() == old(self).scancodes().remove(scancode)
                    &&& final(self).keys() == (match key {
                        Some(k) => old(self).keys().remove(spec_key_code(k)),
                        None => old(self).keys(),
                    })
                },
                SmittenEvent::WindowResized { .. } => {
                    &&& final(self).scancodes() == old(self).scancodes()
                    &&& final(self).keys() == old(self).keys()
                },
            },
    {
        match event {
            SmittenEvent::Keydown { scancode, key } => {
                self.down_scancodes.insert(*scancode);
                match key {
                    Some(k) => {
                        let code: u32 = k.code();
                        self.down_keys.insert(code);
                    },
                    None => {},
                }
            },
            SmittenEvent::Keyup { scancode, key } => {
                self.down_scancodes.remove(scancode);
                match key {
                    Some(k) => {
                        let code: u32 = k.code();
                        self.down_keys.remove(&code);
                    },
                    None => {},
                }
            },
            SmittenEvent::WindowResized { .. } => {},
        }
    }

    /// Whether `key` is currently held down.
    pub fn is_key_down(&self, key: Key) -> (r: bool)
        ensures
            r == self.keys().contains(spec_key_code(key)),
    {
        let code: u32 = key.code();
        self.down_keys.contains(&code)
    }

    /// Whether the raw `scancode` is currently held down.
    pub fn is_scancode_down(&self, scancode: u32) -> (r: bool)
        ensures
            r == self.scancodes().contains(scancode),
    {
        self.down_scancodes.contains(&scancode)
    }
}

} // verus!
