//! What the flash service answers to its requests.
use vstd::prelude::*;

use crate::frame::{CanId, STANDARD_MAX};
use crate::upload::UploadError;

verus! {

/// The largest binary that a request may carry, in bytes.
pub const MAX_BINARY_SIZE: usize = 16 * 1024 * 1024;

pub const STATUS_OK: u16 = 200;

pub const STATUS_BAD_REQUEST: u16 = 400;

pub const STATUS_INTERNAL_SERVER_ERROR: u16 = 500;

/// The answer to a request: an HTTP status and the text that goes with it.
#[derive(Debug)]
pub struct FlashResponse {
    pub status: u16,
    pub body: String,
}

/// What came of a request for an upload.
#[derive(Debug)]
pub enum FlashOutcome {
    /// The upload ran to its end.
    Uploaded(Result<(), UploadError>),
    /// An earlier request broke off while it held the bus.
    LockPoisoned,
    /// The upload could not be run at all, for the reason given.
    NotRun(String),
}

impl FlashOutcome {
    /// The status of the answer.
    pub open spec fn status(self) -> u16 {
        match self {
            FlashOutcome::Uploaded(Ok(_)) => STATUS_OK,
            FlashOutcome::Uploaded(Err(_)) => STATUS_BAD_REQUEST,
            FlashOutcome::LockPoisoned => STATUS_BAD_REQUEST,
            FlashOutcome::NotRun(_) => STATUS_INTERNAL_SERVER_ERROR,
        }
    }

    /// The text of the answer.
    pub open spec fn text(self) -> Seq<char> {
        match self {
            FlashOutcome::Uploaded(Ok(_)) => "flash completed"@,
            FlashOutcome::Uploaded(Err(error)) => error.text(),
            FlashOutcome::LockPoisoned => "flash manager lock is poisoned"@,
            FlashOutcome::NotRun(reason) => reason@,
        }
    }
}

/// The service answers 200 if and only if the upload succeeded, 400 to an upload that failed or
/// that a poisoned lock kept from starting, and 500 only if the upload could not be run; an error
/// is told in its own words, and a reason is passed on unchanged.
pub proof fn answers_tell_what_happened(error: UploadError, reason: String)
    ensures
        forall|outcome: FlashOutcome|
            (#[trigger] outcome.status() == 200) <==> (outcome matches FlashOutcome::Uploaded(
                Ok(_),
            )),
        forall|outcome: FlashOutcome|
            (#[trigger] outcome.status() == 500) <==> outcome is NotRun,
        forall|outcome: FlashOutcome|
            outcome.status() == 200 || outcome.status() == 400 || #[trigger] outcome.status()
                == 500,
        FlashOutcome::Uploaded(Err(error)).text() == error.text(),
        FlashOutcome::NotRun(reason).text() == reason@,
{
}

/// The identifier that the service transmits with.
pub fn self_can_id() -> (id: CanId)
    ensures
        id == CanId::Standard(0x7FF),
{
    CanId::Standard(0x7FF)
}

/// The identifier that a request names as the receiver, or the answer to a request that names
/// none.
pub fn flash_target(raw_can_id: u16) -> (target: Result<CanId, FlashResponse>)
    ensures
        target is Ok <==> raw_can_id <= STANDARD_MAX,
        target is Ok <==> raw_can_id <= 2047,
        target matches Ok(can_id) ==> can_id == CanId::Standard(raw_can_id),
        target matches Err(response) ==> response.status == STATUS_BAD_REQUEST && response.body@
            == "CAN ID must be between 0 and 2047"@,
{
    match CanId::new_standard(raw_can_id) {
        Some(can_id) => Ok(can_id),
        None => Err(
            FlashResponse {
                status: STATUS_BAD_REQUEST,
                body: "CAN ID must be between 0 and 2047".to_owned(),
            },
        ),
    }
}

/// The answer to a request with that outcome.
pub fn flash_response(outcome: FlashOutcome) -> (response: FlashResponse)
    ensures
        response.status == outcome.status(),
        response.body@ == outcome.text(),
        outcome matches FlashOutcome::Uploaded(Ok(_)) ==> response.status == 200
            && response.body@ == "flash completed"@,
        outcome matches FlashOutcome::Uploaded(Err(error)) ==> response.status == 400
            && response.body@ == error.text(),
        outcome is LockPoisoned ==> response.status == 400 && response.body@
            == "flash manager lock is poisoned"@,
        outcome matches FlashOutcome::NotRun(reason) ==> response.status == 500 && response.body@
            == reason@,
{
    match outcome {
        FlashOutcome::Uploaded(Ok(_)) => FlashResponse {
            status: STATUS_OK,
            body: "flash completed".to_owned(),
        },
        FlashOutcome::Uploaded(Err(error)) => FlashResponse {
            status: STATUS_BAD_REQUEST,
            body: error.message().to_owned(),
        },
        FlashOutcome::LockPoisoned => FlashResponse {
            status: STATUS_BAD_REQUEST,
            body: "flash manager lock is poisoned".to_owned(),
        },
        FlashOutcome::NotRun(reason) => FlashResponse {
            status: STATUS_INTERNAL_SERVER_ERROR,
            body: reason,
        },
    }
}

} // verus!
