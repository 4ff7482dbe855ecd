use crate::types::CardStatus;
use vstd::prelude::*;

verus! {

/// How a connection shares the card with other applications.
#[derive(Clone, Copy, Debug, PartialEq, Eq, Structural)]
pub enum ShareMode {
    Shared,
    Exclusive,
    Direct,
}

impl ShareMode {
    /// The sharing mode that a caller's number stands for: 0 is shared, 1 is
    /// exclusive, and every other number is direct.
    pub fn from_code(code: u32) -> (mode: ShareMode)
        ensures
            code == 0 ==> mode == ShareMode::Shared,
            code == 1 ==> mode == ShareMode::Exclusive,
            code >= 2 ==> mode == ShareMode::Direct,
    {
        if code == 0 {
            ShareMode::Shared
        } else if code == 1 {
            ShareMode::Exclusive
        } else {
            ShareMode::Direct
        }
    }
}

/// The transmission protocol that a connection asks for.
#[derive(Clone, Copy, Debug, PartialEq, Eq, Structural)]
pub enum Protocol {
    T0,
    T1,
    Raw,
    Any,
}

impl Protocol {
    /// The protocol that a caller's number stands for: 0 is T=0, 1 is T=1,
    /// 2 is raw; every other number, and none at all, is any protocol.
    pub fn from_code(code: Option<u32>) -> (protocol: Protocol)
        ensures
            code == Some(0u32) ==> protocol == Protocol::T0,
            code == Some(1u32) ==> protocol == Protocol::T1,
            code == Some(2u32) ==> protocol == Protocol::Raw,
            (code is None || code->Some_0 >= 3) ==> protocol == Protocol::Any,
    {
        match code {
            Some(0) => Protocol::T0,
            Some(1) => Protocol::T1,
            Some(2) => Protocol::Raw,
            _ => Protocol::Any,
        }
    }
}

/// What happens to the card when a connection to it is closed.
#[derive(Clone, Copy, Debug, PartialEq, Eq, Structural)]
pub enum Disposition {
    Leave,
    Reset,
    Unpower,
    Eject,
}

impl Disposition {
    /// The disposition that a caller's number stands for: 0 leaves the card
    /// as it is, 1 resets it, 2 powers it down, 3 ejects it. No other number
    /// stands for one.
    pub fn from_code(code: u32) -> (disposition: Option<Disposition>)
        ensures
            code == 0 ==> disposition == Some(Disposition::Leave),
            code == 1 ==> disposition == Some(Disposition::Reset),
            code == 2 ==> disposition == Some(Disposition::Unpower),
            code == 3 ==> disposition == Some(Disposition::Eject),
            code >= 4 ==> disposition is None,
    {
        if code == 0 {
            Some(Disposition::Leave)
        } else if code == 1 {
            Some(Disposition::Reset)
        } else if code == 2 {
            Some(Disposition::Unpower)
        } else if code == 3 {
            Some(Disposition::Eject)
        } else {
            None
        }
    }
}

/// No reader before position `end` bears the name `wanted`.
pub open spec fn absent_before(names: Seq<String>, wanted: Seq<char>, end: int) -> bool {
    forall|j: int| 0 <= j < end && j < names.len() ==> (#[trigger] names[j])@ != wanted
}

/// Finds the first reader that bears exactly the name `wanted`, and gives
/// its position; `None` where no reader does.
pub fn find_reader(names: &Vec<String>, wanted: &String) -> (found: Option<usize>)
    ensures
        match found {
            Some(i) => i < names@.len() && names@[i as int]@ == wanted@ && absent_before(
                names@,
                wanted@,
                i as int,
            ),
            None => absent_before(names@, wanted@, names@.len() as int),
        },
{
    let mut i: usize = 0;
    while i < names.len()
        invariant
            i <= names@.len(),
            absent_before(names@, wanted@, i as int),
        decreases names@.len() - i,
    {
        if names[i].eq(wanted) {
            return Some(i);
        }
        i += 1;
    }
    None
}

/// Whether `bits` has a bit of `mask` set.
pub fn has_flag(bits: u64, mask: u64) -> (set: bool)
    ensures
        set == (bits & mask != 0),
{
    bits & mask != 0
}

/// The snapshot that a state word stands for, given the masks of the three
/// flags, and the raw answer-to-reset. An empty answer-to-reset is recorded
/// as absent.
pub fn status_from_bits(
    bits: u64,
    present_mask: u64,
    empty_mask: u64,
    mute_mask: u64,
    atr: Vec<u8>,
) -> (s: CardStatus)
    ensures
        s.present == (bits & present_mask != 0),
        s.empty == (bits & empty_mask != 0),
        s.mute == (bits & mute_mask != 0),
        s.atr is Some <==> atr@.len() > 0,
        s.atr_bytes() == atr@,
{
    CardStatus::from_flags(
        has_flag(bits, present_mask),
        has_flag(bits, empty_mask),
        has_flag(bits, mute_mask),
        atr,
    )
}

} // verus!
