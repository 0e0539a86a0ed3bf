//! The state of a keyboard, as its scancodes tell it.

use vstd::prelude::*;

verus! {

/// A pair of keys which appears on both the left and right side of the
/// keyboard, ex. left shift, right shift.
#[derive(Debug, PartialEq, Eq, Structural, Clone, Copy)]
pub struct Keypair {
    pub left: bool,
    pub right: bool,
}

impl Keypair {
    /// Create a new default keypair: neither key is pressed.
    pub fn new() -> (pair: Keypair)
        ensures
            pair == (Keypair { left: false, right: false }),
    {
        Keypair { left: false, right: false }
    }

    /// Is either of the keys in this pair currently pressed?
    pub fn is_pressed(&self) -> (pressed: bool)
        ensures
            pressed == (self.left || self.right),
    {
        self.left || self.right
    }

    /// Is the left key pressed?
    pub fn left(&self) -> (pressed: bool)
        ensures
            pressed == self.left,
    {
        self.left
    }

    /// Is the right key pressed?
    pub fn right(&self) -> (pressed: bool)
        ensures
            pressed == self.right,
    {
        self.right
    }
}

/// The character with the modifiers applied: a lower-case letter becomes
/// upper case where upper case is in force, and nothing else changes.
pub open spec fn applied(ascii: u8, uppercase: bool) -> u8 {
    if 0x61 <= ascii <= 0x7a && uppercase {
        (ascii - 0x20) as u8
    } else {
        ascii
    }
}

/// The character that the key with the scancode stands for on a US
/// keyboard, if it stands for one.
pub open spec fn key_of(scancode: u8) -> Option<u8> {
    if 0x01 <= scancode <= 0x0E {
        Some(seq![0x1Bu8, 0x31, 0x32, 0x33, 0x34, 0x35, 0x36, 0x37, 0x38, 0x39, 0x30, 0x2D, 0x3D, 0x00][
            scancode - 0x01
        ])
    } else if 0x0F <= scancode <= 0x1C {
        Some(seq![0x09u8, 0x71, 0x77, 0x65, 0x72, 0x74, 0x79, 0x75, 0x69, 0x6F, 0x70, 0x5B, 0x5D, 0x0D][
            scancode - 0x0F
        ])
    } else if 0x1E <= scancode <= 0x28 {
        Some(seq![0x61u8, 0x73, 0x64, 0x66, 0x67, 0x68, 0x6A, 0x6B, 0x6C, 0x3B, 0x27][scancode - 0x1E])
    } else if 0x2C <= scancode <= 0x35 {
        Some(seq![0x7Au8, 0x78, 0x63, 0x76, 0x62, 0x6E, 0x6D, 0x2C, 0x2E, 0x2F][scancode - 0x2C])
    } else if scancode == 0x39 {
        Some(0x20u8)
    } else {
        None
    }
}

/// A PS/2 keyboard: its modifier keys and the scancode it sent last.
#[derive(Debug, PartialEq, Eq, Structural, Clone, Copy)]
pub struct PS2 {
    pub shift: Keypair,
    pub control: Keypair,
    pub alt: Keypair,
    pub caps_lock: bool,
    pub key_down: bool,
    pub scancode: u8,
}

impl PS2 {
    /// A keyboard on which no key is pressed.
    pub fn new() -> (keyboard: PS2)
        ensures
            keyboard == (PS2 {
                shift: Keypair { left: false, right: false },
                control: Keypair { left: false, right: false },
                alt: Keypair { left: false, right: false },
                caps_lock: false,
                key_down: false,
                scancode: 0,
            }),
    {
        PS2 {
            shift: Keypair::new(),
            control: Keypair::new(),
            alt: Keypair::new(),
            caps_lock: false,
            key_down: false,
            scancode: 0,
        }
    }

    /// The keyboard after the scancode: the scancode is remembered, with
    /// whether its top bit is set; a make or break code of a modifier key
    /// presses or releases that key; the make code of caps lock turns caps
    /// lock over.
    pub open spec fn updated(&self, scancode: u8) -> PS2 {
        PS2 {
            shift: Keypair {
                left: if scancode == 0x2A {
                    true
                } else if scancode == 0xAA {
                    false
                } else {
                    self.shift.left
                },
                right: if scancode == 0x36 {
                    true
                } else if scancode == 0xB6 {
                    false
                } else {
                    self.shift.right
                },
            },
            control: Keypair {
                left: if scancode == 0x1D {
                    true
                } else if scancode == 0x9D {
                    false
                } else {
                    self.control.left
                },
                right: self.control.right,
            },
            alt: Keypair {
                left: if scancode == 0x38 {
                    true
                } else if scancode == 0xB8 {
                    false
                } else {
                    self.alt.left
                },
                right: self.alt.right,
            },
            caps_lock: if scancode == 0x3A {
                !self.caps_lock
            } else {
                self.caps_lock
            },
            key_down: scancode >= 0x80,
            scancode,
        }
    }

    /// Whether letters are upper case: shift and caps lock cancel each other.
    pub open spec fn uppercase(&self) -> bool {
        (self.shift.left || self.shift.right) != self.caps_lock
    }

    /// Whether the last scancode is to be printed.
    pub fn should_print_key(&self) -> (r: bool)
        ensures
            r == !self.key_down,
    {
        !self.key_down
    }

    /// Should uppercase letters given the current modifier state.
    pub fn should_use_uppercase(&self) -> (r: bool)
        ensures
            r == self.uppercase(),
    {
        self.shift.is_pressed() ^ self.caps_lock
    }

    /// Apply all modifiers to a given ascii character.
    pub fn apply(&self, ascii: u8) -> (r: u8)
        ensures
            r == applied(ascii, self.uppercase()),
    {
        if 0x61 <= ascii && ascii <= 0x7A {
            if self.should_use_uppercase() {
                return ascii - 0x61 + 0x41;
            }
        }
        ascii
    }

    /// The character of the last scancode, with the modifiers applied if
    /// `should_apply` says so.
    pub fn get_ascii(&self, should_apply: bool) -> (ascii: Option<u8>)
        ensures
            ascii == match key_of(self.scancode) {
                Some(key) => Some(
                    if should_apply {
                        applied(key, self.uppercase())
                    } else {
                        key
                    },
                ),
                None => None,
            },
    {
        let row1: [u8; 14] =
            [0x1B, 0x31, 0x32, 0x33, 0x34, 0x35, 0x36, 0x37, 0x38, 0x39, 0x30, 0x2D, 0x3D, 0x00];
        let row2: [u8; 14] =
            [0x09, 0x71, 0x77, 0x65, 0x72, 0x74, 0x79, 0x75, 0x69, 0x6F, 0x70, 0x5B, 0x5D, 0x0D];
        let row3: [u8; 11] = [0x61, 0x73, 0x64, 0x66, 0x67, 0x68, 0x6A, 0x6B, 0x6C, 0x3B, 0x27];
        let row4: [u8; 10] = [0x7A, 0x78, 0x63, 0x76, 0x62, 0x6E, 0x6D, 0x2C, 0x2E, 0x2F];
        let idx = self.scancode as usize;
        let key = if 0x01 <= self.scancode && self.scancode <= 0x0E {
            Some(row1[idx - 0x01])
        } else if 0x0F <= self.scancode && self.scancode <= 0x1C {
            Some(row2[idx - 0x0F])
        } else if 0x1E <= self.scancode && self.scancode <= 0x28 {
            Some(row3[idx - 0x1E])
        } else if 0x2C <= self.scancode && self.scancode <= 0x35 {
            Some(row4[idx - 0x2C])
        } else if self.scancode == 0x39 {
            Some(0x20)
        } else {
            None
        };
        match key {
            Some(ascii) => {
                if should_apply {
                    Some(self.apply(ascii))
                } else {
                    Some(ascii)
                }
            },
            None => None,
        }
    }

    /// Update modifiers given the current scancode.
    pub fn update(&mut self, scancode: u8)
        ensures
            *final(self) == old(self).updated(scancode),
    {
        self.scancode = scancode;
        self.key_down = scancode >= 0x80;
        if scancode == 0x1D {
            self.control.left = true;
        } else if scancode == 0x2A {
            self.shift.left = true;
        } else if scancode == 0x36 {
            self.shift.right = true;
        } else if scancode == 0x38 {
            self.alt.left = true;
        } else if scancode == 0x3A {
            self.caps_lock = !self.caps_lock;
        } else if scancode == 0x9D {
            self.control.left = false;
        } else if scancode == 0xAA {
            self.shift.left = false;
        } else if scancode == 0xB6 {
            self.shift.right = false;
        } else if scancode == 0xB8 {
            self.alt.left = false;
        }
    }
}

/// What the keyboard interrupt handler keeps: the keyboard it reads from.
#[derive(Debug, PartialEq, Eq, Structural, Clone, Copy)]
pub struct KeyboardHandler {
    pub keyboard: PS2,
}

impl KeyboardHandler {
    /// A handler for a keyboard on which no key is pressed.
    pub fn new() -> (handler: KeyboardHandler)
        ensures
            handler.keyboard == PS2::new_spec(),
    {
        KeyboardHandler { keyboard: PS2::new() }
    }

    /// Takes in the scancode that was read from the keyboard.
    pub fn update(&mut self, scancode: u8)
        ensures
            final(self).keyboard == old(self).keyboard.updated(scancode),
    {
        self.keyboard.update(scancode);
    }

    /// Takes in the scancode that was read from the keyboard, and returns
    /// the character to print for it, if there is one: the character of a key
    /// that went down, with the modifiers applied.
    pub fn handle_irq(&mut self, scancode: u8) -> (ascii: Option<u8>)
        ensures
            final(self).keyboard == old(self).keyboard.updated(scancode),
            ascii == if scancode >= 0x80 {
                None
            } else {
                match key_of(scancode) {
                    Some(key) => Some(applied(key, final(self).keyboard.uppercase())),
                    None => None,
                }
            },
    {
        self.update(scancode);
        if self.keyboard.should_print_key() {
            self.keyboard.get_ascii(true)
        } else {
            None
        }
    }
}

impl PS2 {
    /// A keyboard on which no key is pressed.
    pub open spec fn new_spec() -> PS2 {
        PS2 {
            shift: Keypair { left: false, right: false },
            control: Keypair { left: false, right: false },
            alt: Keypair { left: false, right: false },
            caps_lock: false,
            key_down: false,
            scancode: 0,
        }
    }
}

} // verus!
