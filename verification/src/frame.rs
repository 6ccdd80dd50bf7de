//! Identifiers and classic CAN frames, held as plain values.
//!
//! `can_hal` decides what a valid identifier and a valid frame is; the functions named `hal_*`
//! are the only ones that call it.
use vstd::prelude::*;

verus! {

/// The largest number of a standard identifier.
pub const STANDARD_MAX: u16 = 0x7FF;

/// The largest number of data bytes in a classic frame.
pub const CAN_MAX_LEN: usize = 8;

/// A bus identifier, standard (11 bits) or extended (29 bits).
///
/// The variants can be built from any number; `new_standard` is the checked way in. Identifiers
/// of different kinds are different even if their numbers agree.
#[derive(Clone, Copy, Debug, PartialEq, Eq, Structural)]
pub enum CanId {
    Standard(u16),
    Extended(u32),
}

impl CanId {
    /// The number of the identifier, whichever kind it is of.
    pub open spec fn number(self) -> u32 {
        match self {
            CanId::Standard(value) => value as u32,
            CanId::Extended(value) => value,
        }
    }

    /// The number of the identifier, whichever kind it is of.
    pub fn raw(&self) -> (raw: u32)
        ensures
            raw == self.number(),
            *self matches CanId::Standard(value) ==> raw == value,
            *self matches CanId::Extended(value) ==> raw == value,
    {
        hal_raw(*self)
    }

    /// The standard identifier with the number `id`, if that fits in 11 bits.
    pub fn new_standard(id: u16) -> (made: Option<CanId>)
        ensures
            made == (if id <= STANDARD_MAX {
                Some(CanId::Standard(id))
            } else {
                None
            }),
    {
        hal_new_standard(id)
    }
}

/// The number of an identifier is the one it was made from, for either kind.
pub proof fn number_is_what_was_put_in(standard: u16, extended: u32)
    ensures
        CanId::Standard(standard).number() == standard,
        CanId::Extended(extended).number() == extended,
{
}

/// `can_hal::CanId::raw`. Claims that it returns the number inside either variant, unchanged.
#[verifier::external_body]
fn hal_raw(id: CanId) -> (raw: u32)
    ensures
        raw == id.number(),
{
    let id = match id {
        CanId::Standard(value) => can_hal::CanId::Standard(value),
        CanId::Extended(value) => can_hal::CanId::Extended(value),
    };
    id.raw()
}

/// `can_hal::CanId::new_standard`. Claims that it returns the standard identifier with that
/// number if the number is at most `0x7FF`, and nothing otherwise.
#[verifier::external_body]
fn hal_new_standard(id: u16) -> (made: Option<CanId>)
    ensures
        made == (if id <= STANDARD_MAX {
            Some(CanId::Standard(id))
        } else {
            None
        }),
{
    match can_hal::CanId::new_standard(id) {
        Some(can_hal::CanId::Standard(value)) => Some(CanId::Standard(value)),
        Some(can_hal::CanId::Extended(value)) => Some(CanId::Extended(value)),
        None => None,
    }
}

/// `can_hal::CanFrame::new`, with the frame it makes read back by `id` and `data`. Claims that
/// there is a frame if and only if there are at most eight data bytes, and that the frame then
/// has the given identifier and the given bytes.
#[verifier::external_body]
fn hal_new_frame(id: CanId, data: &[u8]) -> (made: Option<(CanId, Vec<u8>)>)
    ensures
        made is Some <==> data@.len() <= CAN_MAX_LEN,
        made matches Some(parts) ==> parts.0 == id && parts.1@ == data@,
{
    let hal_id = match id {
        CanId::Standard(value) => can_hal::CanId::Standard(value),
        CanId::Extended(value) => can_hal::CanId::Extended(value),
    };
    let frame = can_hal::CanFrame::new(hal_id, data)?;
    let id = match frame.id() {
        can_hal::CanId::Standard(value) => CanId::Standard(value),
        can_hal::CanId::Extended(value) => CanId::Extended(value),
    };
    Some((id, frame.data().to_vec()))
}

/// What a frame is: the identifier it carries and its data bytes.
#[verifier::ext_equal]
pub struct Frame {
    pub id: CanId,
    pub data: Seq<u8>,
}

/// A classic CAN frame, with at most eight data bytes.
#[derive(Debug)]
pub struct CanFrame {
    id: CanId,
    data: Vec<u8>,
}

impl View for CanFrame {
    type V = Frame;

    closed spec fn view(&self) -> Frame {
        Frame { id: self.id, data: self.data@ }
    }
}

impl CanFrame {
    #[verifier::type_invariant]
    spec fn fits(self) -> bool {
        self.data@.len() <= CAN_MAX_LEN
    }

    /// A frame with that identifier and those bytes, unless there are more than eight of them.
    pub fn new(id: CanId, data: &[u8]) -> (made: Option<CanFrame>)
        ensures
            made is Some <==> data@.len() <= CAN_MAX_LEN,
            made matches Some(frame) ==> frame@ == (Frame { id, data: data@ }),
    {
        match hal_new_frame(id, data) {
            Some((id, data)) => Some(CanFrame { id, data }),
            None => None,
        }
    }

    /// The identifier that the frame carries.
    pub fn id(&self) -> (id: CanId)
        ensures
            id == self@.id,
    {
        self.id
    }

    /// The data bytes.
    pub fn data(&self) -> (data: &[u8])
        ensures
            data@ == self@.data,
            data@.len() <= CAN_MAX_LEN,
    {
        proof {
            use_type_invariant(self);
        }
        self.data.as_slice()
    }
}

} // verus!
