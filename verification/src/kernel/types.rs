//! Plain value types shared by the whole crate.

use vstd::prelude::*;
use vstd::std_specs::convert::FromSpecImpl;

verus! {

/// A 64-bit identifier.
#[derive(Debug, Clone, Copy, PartialEq, Eq, Structural, Hash, PartialOrd, Ord)]
pub struct UID(pub u64);

/// The character of a hexadecimal digit, in lower case.
pub open spec fn hex_char(digit: u64) -> char {
    if digit == 0 {
        '0'
    } else if digit == 1 {
        '1'
    } else if digit == 2 {
        '2'
    } else if digit == 3 {
        '3'
    } else if digit == 4 {
        '4'
    } else if digit == 5 {
        '5'
    } else if digit == 6 {
        '6'
    } else if digit == 7 {
        '7'
    } else if digit == 8 {
        '8'
    } else if digit == 9 {
        '9'
    } else if digit == 10 {
        'a'
    } else if digit == 11 {
        'b'
    } else if digit == 12 {
        'c'
    } else if digit == 13 {
        'd'
    } else if digit == 14 {
        'e'
    } else {
        'f'
    }
}

/// The lowest `count` hexadecimal digits of `value`, highest first.
pub open spec fn hex_digits(value: u64, count: nat) -> Seq<char>
    decreases count,
{
    if count == 0 {
        Seq::empty()
    } else {
        hex_digits(value / 16, (count - 1) as nat).push(hex_char(value % 16))
    }
}

/// The text of one hexadecimal digit.
fn hex_text(digit: u64) -> (text: &'static str)
    requires
        digit < 16,
    ensures
        text@ == seq![hex_char(digit)],
{
    proof {
        reveal_strlit("0");
        reveal_strlit("1");
        reveal_strlit("2");
        reveal_strlit("3");
        reveal_strlit("4");
        reveal_strlit("5");
        reveal_strlit("6");
        reveal_strlit("7");
        reveal_strlit("8");
        reveal_strlit("9");
        reveal_strlit("a");
        reveal_strlit("b");
        reveal_strlit("c");
        reveal_strlit("d");
        reveal_strlit("e");
        reveal_strlit("f");
    }
    let text = if digit == 0 {
        "0"
    } else if digit == 1 {
        "1"
    } else if digit == 2 {
        "2"
    } else if digit == 3 {
        "3"
    } else if digit == 4 {
        "4"
    } else if digit == 5 {
        "5"
    } else if digit == 6 {
        "6"
    } else if digit == 7 {
        "7"
    } else if digit == 8 {
        "8"
    } else if digit == 9 {
        "9"
    } else if digit == 10 {
        "a"
    } else if digit == 11 {
        "b"
    } else if digit == 12 {
        "c"
    } else if digit == 13 {
        "d"
    } else if digit == 14 {
        "e"
    } else {
        "f"
    };
    text
}

/// Writes the lowest `count` hexadecimal digits of `value`, highest first,
/// at the end of `text`.
fn push_hex(text: &mut String, value: u64, count: u8)
    ensures
        final(text)@ == old(text)@ + hex_digits(value, count as nat),
    decreases count,
{
    if count > 0 {
        push_hex(text, value / 16, count - 1);
        text.append(hex_text(value % 16));
    }
}

impl UID {
    /// The identifier in writing: `0x` and its sixteen hexadecimal digits,
    /// in lower case.
    pub open spec fn text(self) -> Seq<char> {
        seq!['0', 'x'] + hex_digits(self.0, 16)
    }

    /// The identifier in writing: `0x` and its sixteen hexadecimal digits,
    /// in lower case.
    pub fn to_string(&self) -> (text: String)
        ensures
            text@ == self.text(),
            text@.len() == 18,
    {
        proof {
            reveal_strlit("0x");
            lemma_hex_digits_len(self.0, 16);
        }
        let mut text = String::from_str("0x");
        push_hex(&mut text, self.0, 16);
        text
    }
}

/// `count` digits are `count` characters.
proof fn lemma_hex_digits_len(value: u64, count: nat)
    ensures
        hex_digits(value, count).len() == count,
    decreases count,
{
    if count > 0 {
        lemma_hex_digits_len(value / 16, (count - 1) as nat);
    }
}

impl From<u64> for UID {
    fn from(value: u64) -> (uid: Self) {
        UID(value)
    }
}

impl FromSpecImpl<u64> for UID {
    open spec fn obeys_from_spec() -> bool {
        true
    }

    open spec fn from_spec(value: u64) -> Self {
        UID(value)
    }
}

impl From<UID> for u64 {
    fn from(uid: UID) -> (value: Self) {
        uid.0
    }
}

impl FromSpecImpl<UID> for u64 {
    open spec fn obeys_from_spec() -> bool {
        true
    }

    open spec fn from_spec(uid: UID) -> Self {
        uid.0
    }
}

/// Which way a relation points from its anchor.
#[derive(Debug, Clone, Copy, PartialEq, Eq, Structural)]
pub enum Direction {
    /// Towards the previous element of the ring.
    Left,
    /// Towards the next element of the ring.
    Right,
    /// Before the anchor, in the linear reading.
    Before,
    /// After the anchor, in the linear reading.
    After,
}

/// A place named by an anchor, a direction and a distance.
#[derive(Debug, Clone)]
pub struct RelationalPosition {
    pub anchor_uid: UID,
    pub direction: Direction,
    /// May be negative.
    pub distance: i64,
}

impl RelationalPosition {
    /// The start of a sequence: anchored at identifier 0, pointing right, at
    /// distance 0.
    pub fn start() -> (pos: Self)
        ensures
            pos.anchor_uid == UID(0),
            pos.direction == Direction::Right,
            pos.distance == 0,
    {
        RelationalPosition { anchor_uid: UID(0), direction: Direction::Right, distance: 0 }
    }

    /// The place of `anchor_uid` itself: pointing right, at distance 0.
    pub fn from_anchor(anchor_uid: UID) -> (pos: Self)
        ensures
            pos.anchor_uid == anchor_uid,
            pos.direction == Direction::Right,
            pos.distance == 0,
    {
        RelationalPosition { anchor_uid, direction: Direction::Right, distance: 0 }
    }
}

/// Where an element of a ring sequence stands: by the time at which it was
/// put in, which is never given out again, and by its present place.
#[derive(Debug, Clone, Copy, PartialEq, Eq, Structural)]
pub struct LogicOffset {
    /// Given out when the element was put in.
    pub logical_timestamp: u64,
    /// May change as elements come and go.
    pub physical_position: usize,
    /// Whether the element was taken out.
    pub deleted: bool,
}

/// The version of a sequence; one more with each change.
#[derive(Debug, Clone, Copy, PartialEq, Eq, Structural, PartialOrd, Ord)]
pub struct SequenceVersion(pub u32);

/// What went wrong, as a code.
#[derive(Debug, Clone, Copy, PartialEq, Eq, Structural)]
pub enum SystemError {
    /// No such identifier.
    UIDNotFound(UID),
    /// No such position.
    InvalidPosition,
    /// The sequence is not at the version that was expected.
    VersionMismatch,
    /// No such anchor.
    AnchorNotFound(UID),
    /// The operation is not supported.
    OperationNotSupported,
    /// The store failed.
    StorageError,
    /// The input could not be read.
    ParseError,
}

/// What to do when a position no longer holds.
#[derive(Debug, Clone, Copy, PartialEq, Eq, Structural)]
pub enum FallbackStrategy {
    /// Work the position out again.
    Recalculate,
    /// Go back to a snapshot.
    UseSnapshot,
    /// Give up with an error.
    Error,
}

/// How bad an error is, worst first.
#[derive(Debug, Clone, Copy, PartialEq, Eq, Structural, PartialOrd, Ord)]
pub enum ErrorLevel {
    /// The system cannot go on.
    Fatal,
    /// The user has to step in.
    Severe,
    /// The operation went through in part.
    Warning,
    /// For the record.
    Info,
}

} // verus!
