use can_flash::frame::CanId;
use can_flash::upload::UploadError;
use can_flash::web::{flash_response, flash_target, self_can_id, FlashOutcome, MAX_BINARY_SIZE};

#[test]
fn service_settings() {
    assert_eq!(self_can_id(), CanId::Standard(0x7FF));
    assert_eq!(MAX_BINARY_SIZE, 16_777_216);
}

#[test]
fn targets_are_standard_identifiers() {
    assert_eq!(flash_target(0).unwrap(), CanId::Standard(0));
    assert_eq!(flash_target(2047).unwrap(), CanId::Standard(2047));
    let refused = flash_target(2048).unwrap_err();
    assert_eq!(refused.status, 400);
    assert_eq!(refused.body, "CAN ID must be between 0 and 2047");
}

#[test]
fn outcomes_become_responses() {
    let done = flash_response(FlashOutcome::Uploaded(Ok(())));
    assert_eq!((done.status, done.body.as_str()), (200, "flash completed"));
    let poisoned = flash_response(FlashOutcome::LockPoisoned);
    assert_eq!(
        (poisoned.status, poisoned.body.as_str()),
        (400, "flash manager lock is poisoned")
    );
    let not_run = flash_response(FlashOutcome::NotRun("pool is gone".to_owned()));
    assert_eq!((not_run.status, not_run.body.as_str()), (500, "pool is gone"));
}

#[test]
fn upload_errors_are_told_in_words() {
    for (error, text) in [
        (
            UploadError::InvalidWindowSize,
            "the sliding-window size must be greater than zero",
        ),
        (
            UploadError::BinaryTooLarge,
            "binary is too large for 16-bit chunk sequence numbers",
        ),
        (UploadError::Transmit, "failed to transmit a CAN frame"),
        (UploadError::Receive, "failed to receive a CAN frame"),
        (
            UploadError::AcknowledgementTimeout,
            "timed out waiting for an acknowledgement",
        ),
        (
            UploadError::InvalidAcknowledgement,
            "received an acknowledgement outside the current window",
        ),
    ] {
        assert_eq!(error.message(), text);
        let response = flash_response(FlashOutcome::Uploaded(Err(error)));
        assert_eq!((response.status, response.body.as_str()), (400, text));
    }
}
