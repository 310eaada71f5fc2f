//! Key events: which key, whether it went down or up, and in which frame.

use vstd::prelude::*;

verus! {

/// Whether a key went down or came up.
#[derive(Clone, Copy, Debug, PartialEq, Eq, Hash, Structural)]
pub enum InputEventKind {
    /// The key is being pressed.
    Press,
    /// The key is being released.
    Release,
}

impl InputEventKind {
    /// The bit that stands for this kind in a replay: 0 for a press, 1 for a
    /// release.
    pub open spec fn wire_bit(self) -> u8 {
        match self {
            InputEventKind::Press => 0,
            InputEventKind::Release => 1,
        }
    }

    /// The kind that a number stands for, if any.
    pub open spec fn of_wire_bit(bit: u8) -> Option<InputEventKind> {
        if bit == 0 {
            Some(InputEventKind::Press)
        } else if bit == 1 {
            Some(InputEventKind::Release)
        } else {
            None
        }
    }
}

impl TryFrom<u8> for InputEventKind {
    type Error = ();

    fn try_from(value: u8) -> (kind: Result<Self, Self::Error>) {
        match value {
            0 => Ok(InputEventKind::Press),
            1 => Ok(InputEventKind::Release),
            _ => Err(()),
        }
    }
}

impl vstd::std_specs::convert::TryFromSpecImpl<u8> for InputEventKind {
    open spec fn obeys_try_from_spec() -> bool {
        true
    }

    open spec fn try_from_spec(value: u8) -> Result<Self, Self::Error> {
        match InputEventKind::of_wire_bit(value) {
            Some(kind) => Ok(kind),
            None => Err(()),
        }
    }
}

impl From<bool> for InputEventKind {
    fn from(value: bool) -> (kind: Self) {
        match value {
            false => InputEventKind::Press,
            true => InputEventKind::Release,
        }
    }
}

impl vstd::std_specs::convert::FromSpecImpl<bool> for InputEventKind {
    open spec fn obeys_from_spec() -> bool {
        true
    }

    open spec fn from_spec(value: bool) -> Self {
        if value {
            InputEventKind::Release
        } else {
            InputEventKind::Press
        }
    }
}

impl From<InputEventKind> for u8 {
    fn from(value: InputEventKind) -> (bit: Self) {
        match value {
            InputEventKind::Press => 0,
            InputEventKind::Release => 1,
        }
    }
}

impl vstd::std_specs::convert::FromSpecImpl<InputEventKind> for u8 {
    open spec fn obeys_from_spec() -> bool {
        true
    }

    open spec fn from_spec(value: InputEventKind) -> Self {
        value.wire_bit()
    }
}

impl From<InputEventKind> for bool {
    fn from(value: InputEventKind) -> (released: Self) {
        match value {
            InputEventKind::Press => false,
            InputEventKind::Release => true,
        }
    }
}

impl vstd::std_specs::convert::FromSpecImpl<InputEventKind> for bool {
    open spec fn obeys_from_spec() -> bool {
        true
    }

    open spec fn from_spec(value: InputEventKind) -> Self {
        value == InputEventKind::Release
    }
}

/// The key or button of an event.
#[derive(Clone, Copy, Debug, PartialEq, Eq, Hash, Structural)]
#[allow(missing_docs)]
pub enum InputEventKey {
    MoveLeft,
    MoveRight,
    RotateRight,
    RotateLeft,
    Rotate180,
    HardDrop,
    SoftDrop,
    Hold,
    Function1,
    Function2,
    InstantLeft,
    InstantRight,
    SonicDrop,
    Down1,
    Down4,
    Down10,
    LeftDrop,
    RightDrop,
    LeftZangi,
    RightZangi,
}

impl InputEventKey {
    /// The number that stands for this key in a replay. The numbers are part
    /// of the replay format: 1 to 20, and 0 for no key.
    pub open spec fn wire_code(self) -> u8 {
        match self {
            InputEventKey::MoveLeft => 1,
            InputEventKey::MoveRight => 2,
            InputEventKey::RotateRight => 3,
            InputEventKey::RotateLeft => 4,
            InputEventKey::Rotate180 => 5,
            InputEventKey::HardDrop => 6,
            InputEventKey::SoftDrop => 7,
            InputEventKey::Hold => 8,
            InputEventKey::Function1 => 9,
            InputEventKey::Function2 => 10,
            InputEventKey::InstantLeft => 11,
            InputEventKey::InstantRight => 12,
            InputEventKey::SonicDrop => 13,
            InputEventKey::Down1 => 14,
            InputEventKey::Down4 => 15,
            InputEventKey::Down10 => 16,
            InputEventKey::LeftDrop => 17,
            InputEventKey::RightDrop => 18,
            InputEventKey::LeftZangi => 19,
            InputEventKey::RightZangi => 20,
        }
    }

    /// The key that a number stands for, if any.
    pub open spec fn of_wire_code(code: u8) -> Option<InputEventKey> {
        if code == 1 {
            Some(InputEventKey::MoveLeft)
        } else if code == 2 {
            Some(InputEventKey::MoveRight)
        } else if code == 3 {
            Some(InputEventKey::RotateRight)
        } else if code == 4 {
            Some(InputEventKey::RotateLeft)
        } else if code == 5 {
            Some(InputEventKey::Rotate180)
        } else if code == 6 {
            Some(InputEventKey::HardDrop)
        } else if code == 7 {
            Some(InputEventKey::SoftDrop)
        } else if code == 8 {
            Some(InputEventKey::Hold)
        } else if code == 9 {
            Some(InputEventKey::Function1)
        } else if code == 10 {
            Some(InputEventKey::Function2)
        } else if code == 11 {
            Some(InputEventKey::InstantLeft)
        } else if code == 12 {
            Some(InputEventKey::InstantRight)
        } else if code == 13 {
            Some(InputEventKey::SonicDrop)
        } else if code == 14 {
            Some(InputEventKey::Down1)
        } else if code == 15 {
            Some(InputEventKey::Down4)
        } else if code == 16 {
            Some(InputEventKey::Down10)
        } else if code == 17 {
            Some(InputEventKey::LeftDrop)
        } else if code == 18 {
            Some(InputEventKey::RightDrop)
        } else if code == 19 {
            Some(InputEventKey::LeftZangi)
        } else if code == 20 {
            Some(InputEventKey::RightZangi)
        } else {
            None
        }
    }

    /// The numbers and the keys correspond one to one: a number stands for a
    /// key exactly if it lies between 1 and 20, each key has such a number,
    /// and going from one to the other and back changes nothing.
    pub proof fn lemma_wire_code_bijective(key: InputEventKey, code: u8)
        ensures
            1 <= key.wire_code() <= 20,
            InputEventKey::of_wire_code(key.wire_code()) == Some(key),
            InputEventKey::of_wire_code(code) is Some <==> 1 <= code <= 20,
            InputEventKey::of_wire_code(code) matches Some(k) ==> k.wire_code() == code,
    {
    }
}

impl TryFrom<u8> for InputEventKey {
    type Error = ();

    fn try_from(value: u8) -> (key: Result<Self, Self::Error>) {
        match value {
            1 => Ok(InputEventKey::MoveLeft),
            2 => Ok(InputEventKey::MoveRight),
            3 => Ok(InputEventKey::RotateRight),
            4 => Ok(InputEventKey::RotateLeft),
            5 => Ok(InputEventKey::Rotate180),
            6 => Ok(InputEventKey::HardDrop),
            7 => Ok(InputEventKey::SoftDrop),
            8 => Ok(InputEventKey::Hold),
            9 => Ok(InputEventKey::Function1),
            10 => Ok(InputEventKey::Function2),
            11 => Ok(InputEventKey::InstantLeft),
            12 => Ok(InputEventKey::InstantRight),
            13 => Ok(InputEventKey::SonicDrop),
            14 => Ok(InputEventKey::Down1),
            15 => Ok(InputEventKey::Down4),
            16 => Ok(InputEventKey::Down10),
            17 => Ok(InputEventKey::LeftDrop),
            18 => Ok(InputEventKey::RightDrop),
            19 => Ok(InputEventKey::LeftZangi),
            20 => Ok(InputEventKey::RightZangi),
            _ => Err(()),
        }
    }
}

impl vstd::std_specs::convert::TryFromSpecImpl<u8> for InputEventKey {
    open spec fn obeys_try_from_spec() -> bool {
        true
    }

    open spec fn try_from_spec(value: u8) -> Result<Self, Self::Error> {
        match InputEventKey::of_wire_code(value) {
            Some(key) => Ok(key),
            None => Err(()),
        }
    }
}

impl From<InputEventKey> for u8 {
    fn from(value: InputEventKey) -> (code: Self) {
        match value {
            InputEventKey::MoveLeft => 1,
            InputEventKey::MoveRight => 2,
            InputEventKey::RotateRight => 3,
            InputEventKey::RotateLeft => 4,
            InputEventKey::Rotate180 => 5,
            InputEventKey::HardDrop => 6,
            InputEventKey::SoftDrop => 7,
            InputEventKey::Hold => 8,
            InputEventKey::Function1 => 9,
            InputEventKey::Function2 => 10,
            InputEventKey::InstantLeft => 11,
            InputEventKey::InstantRight => 12,
            InputEventKey::SonicDrop => 13,
            InputEventKey::Down1 => 14,
            InputEventKey::Down4 => 15,
            InputEventKey::Down10 => 16,
            InputEventKey::LeftDrop => 17,
            InputEventKey::RightDrop => 18,
            InputEventKey::LeftZangi => 19,
            InputEventKey::RightZangi => 20,
        }
    }
}

impl vstd::std_specs::convert::FromSpecImpl<InputEventKey> for u8 {
    open spec fn obeys_from_spec() -> bool {
        true
    }

    open spec fn from_spec(value: InputEventKey) -> Self {
        value.wire_code()
    }
}

/// One key event of a replay.
#[derive(Clone, Copy, Debug, PartialEq, Eq, Hash, Structural)]
pub struct GameInputEvent {
    /// The frame in which the event happened. The game starts at frame 180;
    /// the frames before that are the countdown, during which inputs are
    /// recorded too.
    pub frame: u64,
    /// Whether the key went down or came up.
    pub kind: InputEventKind,
    /// The key that went down or came up.
    pub key: InputEventKey,
}

} // verus!
