use vstd::prelude::*;

verus! {

/// Number of keys on the keypad; key codes are 0x0 to 0xF.
pub const KEY_COUNT: usize = 16;

/// The host keys that stand for the sixteen keypad keys, laid out as a
/// 4 by 4 block on a QWERTY keyboard; every other host key is `Other`.
#[derive(Clone, Copy, Debug, PartialEq, Eq, Structural)]
pub enum HostKey {
    Key1,
    Key2,
    Key3,
    Key4,
    Q,
    W,
    E,
    R,
    A,
    S,
    D,
    F,
    Z,
    X,
    C,
    V,
    Other,
}

/// The keypad code that a host key stands for, if any.
pub open spec fn host_key_code(key: HostKey) -> Option<u8> {
    match key {
        HostKey::Key1 => Some(0x1u8),
        HostKey::Key2 => Some(0x2u8),
        HostKey::Key3 => Some(0x3u8),
        HostKey::Key4 => Some(0xCu8),
        HostKey::Q => Some(0x4u8),
        HostKey::W => Some(0x5u8),
        HostKey::E => Some(0x6u8),
        HostKey::R => Some(0xDu8),
        HostKey::A => Some(0x7u8),
        HostKey::S => Some(0x8u8),
        HostKey::D => Some(0x9u8),
        HostKey::F => Some(0xEu8),
        HostKey::Z => Some(0xAu8),
        HostKey::X => Some(0x0u8),
        HostKey::C => Some(0xBu8),
        HostKey::V => Some(0xFu8),
        HostKey::Other => None,
    }
}

/// The keypad code of a host key, or `None` for no key or a key without one.
pub fn get_chip8_keycode_for(key: Option<HostKey>) -> (r: Option<u8>)
    ensures
        r == match key {
            Some(k) => host_key_code(k),
            None => None,
        },
        r matches Some(c) ==> c < 16,
{
    match key {
        Some(HostKey::Key1) => Some(0x1),
        Some(HostKey::Key2) => Some(0x2),
        Some(HostKey::Key3) => Some(0x3),
        Some(HostKey::Key4) => Some(0xC),
        Some(HostKey::Q) => Some(0x4),
        Some(HostKey::W) => Some(0x5),
        Some(HostKey::E) => Some(0x6),
        Some(HostKey::R) => Some(0xD),
        Some(HostKey::A) => Some(0x7),
        Some(HostKey::S) => Some(0x8),
        Some(HostKey::D) => Some(0x9),
        Some(HostKey::F) => Some(0xE),
        Some(HostKey::Z) => Some(0xA),
        Some(HostKey::X) => Some(0x0),
        Some(HostKey::C) => Some(0xB),
        Some(HostKey::V) => Some(0xF),
        _ => None,
    }
}

/// Whether one of `keys` stands for keypad code `code`.
pub open spec fn held(keys: Seq<HostKey>, code: int) -> bool {
    exists|i: int| 0 <= i < keys.len() && #[trigger] host_key_code(keys[i]) == Some(code as u8)
}

/// Sixteen level-triggered key latches, replaced wholesale on each update.
pub struct KeyPad {
    keys: Vec<bool>,
}

impl View for KeyPad {
    type V = Seq<bool>;

    closed spec fn view(&self) -> Seq<bool> {
        self.keys@
    }
}

impl KeyPad {
    /// Whether the keypad holds one latch per key code.
    pub open spec fn wf(&self) -> bool {
        self@.len() == KEY_COUNT
    }

    /// A keypad with no key pressed.
    pub fn new() -> (r: KeyPad)
        ensures
            r.wf(),
            r@ == Seq::new(KEY_COUNT as nat, |c: int| false),
    {
        let r = KeyPad { keys: vec![false; KEY_COUNT] };
        assert(r@ =~= Seq::new(KEY_COUNT as nat, |c: int| false));
        r
    }

    /// Replaces every latch: a code is pressed exactly when one of the host
    /// keys held down stands for it.
    pub fn update_keys(&mut self, keys: Vec<HostKey>)
        requires
            old(self).wf(),
        ensures
            final(self).wf(),
            final(self)@ == Seq::new(KEY_COUNT as nat, |c: int| held(keys@, c)),
    {
        let mut c: usize = 0;
        while c < KEY_COUNT
            invariant
                0 <= c <= KEY_COUNT,
                self.keys@.len() == KEY_COUNT,
                forall|d: int| 0 <= d < c ==> !self.keys@[d],
            decreases KEY_COUNT - c,
        {
            self.keys.set(c, false);
            c = c + 1;
        }
        let mut i: usize = 0;
        while i < keys.len()
            invariant
                0 <= i <= keys.len(),
                self.keys@.len() == KEY_COUNT,
                forall|d: int| 0 <= d < KEY_COUNT ==> self.keys@[d] == held(keys@.take(i as int), d),
            decreases keys.len() - i,
        {
            let ghost before = self.keys@;
            let code = get_chip8_keycode_for(Some(keys[i]));
            if let Some(k) = code {
                self.keys.set(k as usize, true);
            }
            proof {
                let next = keys@.take(i + 1);
                assert forall|d: int| 0 <= d < KEY_COUNT implies self.keys@[d] == held(next, d) by {
                    if held(next, d) && !held(keys@.take(i as int), d) {
                        let j = choose|j: int|
                            0 <= j < next.len() && #[trigger] host_key_code(next[j]) == Some(d as u8);
                        if j < i {
                            assert(keys@.take(i as int)[j] == next[j]);
                        }
                    }
                    if held(keys@.take(i as int), d) {
                        let j = choose|j: int|
                            0 <= j < i && #[trigger] host_key_code(keys@.take(i as int)[j]) == Some(d as u8);
                        assert(next[j] == keys@.take(i as int)[j]);
                    }
                    if code == Some(d as u8) {
                        assert(next[i as int] == keys@[i as int]);
                    }
                }
            }
            i = i + 1;
        }
        assert(keys@.take(keys.len() as int) =~= keys@);
        assert(self@ =~= Seq::new(KEY_COUNT as nat, |c: int| held(keys@, c)));
    }

    /// Whether the key with code `key_code` is pressed; no key has a code above 0xF.
    pub fn is_key_pressed(&self, key_code: u8) -> (r: bool)
        requires
            self.wf(),
        ensures
            r == (key_code < KEY_COUNT && self@[key_code as int]),
    {
        if (key_code as usize) < KEY_COUNT {
            self.keys[key_code as usize]
        } else {
            false
        }
    }
}

/// A single-key latch: at most one key code is held at a time.
pub struct Keyboard {
    key_pressed: Option<u8>,
}

impl View for Keyboard {
    type V = Option<u8>;

    closed spec fn view(&self) -> Option<u8> {
        self.key_pressed
    }
}

impl Keyboard {
    /// A keyboard with no key held.
    pub fn new() -> (r: Keyboard)
        ensures
            r@ == None::<u8>,
    {
        Keyboard { key_pressed: None }
    }

    /// Whether the held key, if any, is `key_code`.
    pub fn is_key_pressed(&self, key_code: u8) -> (r: bool)
        ensures
            r == (self@ == Some(key_code)),
    {
        if let Some(key) = self.key_pressed {
            key == key_code
        } else {
            false
        }
    }

    /// Replaces the held key.
    pub fn set_key_pressed(&mut self, key: Option<u8>)
        ensures
            final(self)@ == key,
    {
        self.key_pressed = key;
    }

    /// The held key, if any.
    pub fn get_key_pressed(&self) -> (r: Option<u8>)
        ensures
            r == self@,
    {
        self.key_pressed
    }
}

} // verus!
