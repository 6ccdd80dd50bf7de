use can_flash::chunks::{chunk_count, cut_chunk};
use can_flash::frame::{CanFrame, CanId};
use can_flash::upload::{receive_ack, remaining_timeout, Action, Event, Upload, UploadError};
use can_flash::wire::{AckFrame, ACK_MAGIC};

const SENDER: CanId = CanId::Extended(0x1ABCDEF);
const TARGET: CanId = CanId::Standard(0x7F);

fn frame(id: CanId, bytes: &[u8]) -> CanFrame {
    CanFrame::new(id, bytes).unwrap()
}

fn ack(next: u16) -> CanFrame {
    let [lo, hi] = next.to_le_bytes();
    frame(TARGET, &[0x5a, 0xa5, lo, hi])
}

fn transmitted(upload: &mut Upload) -> Vec<u8> {
    let bytes = match upload.action() {
        Action::Transmit(frame) => {
            assert_eq!(frame.id(), SENDER);
            frame.data().to_vec()
        }
        other => panic!("not a transmission: {other:?}"),
    };
    upload.advance(Event::Transmitted);
    bytes
}

/// Runs an upload against a receiver that takes the chunks in order and acknowledges at most
/// `step` new ones at a time. Returns what the receiver has, and the number of data frames.
fn deliver(binary: &[u8], window: usize, step: u16) -> (Vec<u8>, usize) {
    let mut upload = Upload::upload_binary(SENDER, TARGET, binary, window);
    let mut size: Option<usize> = None;
    let mut collected: Vec<u8> = vec![];
    let mut acked: u16 = 0;
    let mut frames: usize = 0;
    loop {
        let event = match upload.action() {
            Action::Transmit(frame) => {
                let data = frame.data();
                if size.is_none() {
                    assert_eq!(&data[..4], &[0x7f, 0, 0, 0]);
                    size = Some(u32::from_le_bytes(data[4..].try_into().unwrap()) as usize);
                } else {
                    frames += 1;
                    let number = u16::from_le_bytes(data[..2].try_into().unwrap());
                    if number as usize * 6 == collected.len() {
                        collected.extend_from_slice(&data[2..]);
                    }
                }
                Event::Transmitted
            }
            Action::StartClock | Action::ReadClock => Event::Elapsed(0),
            Action::Receive(_) => {
                acked = acked.saturating_add(step).min((collected.len() / 6) as u16);
                Event::Received(ack(acked))
            }
            Action::Finish(outcome) => {
                outcome.unwrap();
                collected.truncate(size.unwrap());
                return (collected, frames);
            }
        };
        upload.advance(event);
    }
}

#[test]
fn identifiers_give_their_numbers() {
    assert_eq!(CanId::Standard(0x7FF).raw(), 0x7FF);
    assert_eq!(CanId::Extended(0x1FFF_FFFF).raw(), 0x1FFF_FFFF);
    assert_ne!(CanId::Standard(5), CanId::Extended(5));
}

#[test]
fn standard_identifiers_have_eleven_bits() {
    assert_eq!(CanId::new_standard(0), Some(CanId::Standard(0)));
    assert_eq!(CanId::new_standard(0x7FF), Some(CanId::Standard(0x7FF)));
    assert_eq!(CanId::new_standard(0x800), None);
    assert_eq!(CanId::new_standard(u16::MAX), None);
}

#[test]
fn frames_hold_at_most_eight_bytes() {
    for id in [SENDER, TARGET] {
        for len in 0..=8u8 {
            let bytes: Vec<u8> = (1..=len).collect();
            let made = frame(id, &bytes);
            assert_eq!(made.id(), id);
            assert_eq!(made.data(), &bytes[..]);
        }
        assert!(CanFrame::new(id, &[0; 9]).is_none());
    }
}

#[test]
fn ack_errors_say_what_is_wrong() {
    assert_eq!(
        AckFrame::new_from_frame(frame(TARGET, &[0x5a, 0xa5, 1])).unwrap_err(),
        "ack frame must be 4 bytes"
    );
    assert_eq!(
        AckFrame::new_from_frame(frame(TARGET, &[0x5a, 0xa4, 1, 0])).unwrap_err(),
        "ack frame has invalid magic number"
    );
}

#[test]
fn acks_give_back_their_number() {
    for next in [0, 1, 255, 256, 0xFFFF] {
        let read = AckFrame::new_from_frame(ack(next)).unwrap();
        assert_eq!(read.magic, ACK_MAGIC);
        assert_eq!(read.next_seq_num, next);
    }
}

#[test]
fn chunk_counts_round_up() {
    for (len, count) in [(0, 0), (1, 1), (5, 1), (6, 1), (7, 2), (12, 2), (13, 3)] {
        assert_eq!(chunk_count(len), count);
    }
    assert_eq!(chunk_count(usize::MAX), usize::MAX / 6 + 1);
}

#[test]
fn last_chunk_is_padded_with_zeros() {
    let binary = [1, 2, 3, 4, 5, 6, 7, 8];
    let first = cut_chunk(&binary, 0);
    assert_eq!(first.seq_num, 0);
    assert_eq!(first.payload, [1, 2, 3, 4, 5, 6]);
    let last = cut_chunk(&binary, 1);
    assert_eq!(last.seq_num, 1);
    assert_eq!(last.payload, [7, 8, 0, 0, 0, 0]);
}

#[test]
fn ack_number_must_not_leave_the_window() {
    assert_eq!(receive_ack(ack(3), 3, 7), Ok(3));
    assert_eq!(receive_ack(ack(7), 3, 7), Ok(7));
    for next in [2, 8] {
        assert_eq!(
            receive_ack(ack(next), 3, 7),
            Err(UploadError::InvalidAcknowledgement)
        );
    }
    assert_eq!(
        receive_ack(frame(TARGET, &[]), 3, 7),
        Err(UploadError::InvalidAcknowledgement)
    );
}

#[test]
fn remaining_time_runs_out_after_one_second() {
    assert_eq!(remaining_timeout(0), Some(1_000_000_000));
    assert_eq!(remaining_timeout(999_999_999), Some(1));
    assert_eq!(remaining_timeout(1_000_000_000), Some(0));
    assert_eq!(remaining_timeout(1_000_000_001), None);
    assert_eq!(remaining_timeout(u128::MAX), None);
}

#[test]
fn success_delivers_the_binary_whatever_the_acks() {
    for len in [0, 1, 6, 25, 100] {
        let binary: Vec<u8> = (0..len).map(|i| (i * 91 + 3) as u8).collect();
        for window in [1, 2, 5, 40] {
            for step in [1, 2, 3, 40] {
                assert_eq!(deliver(&binary, window, step).0, binary);
            }
        }
    }
}

#[test]
fn cooperation_sends_every_chunk_once_on_an_example() {
    let binary = [9; 50];
    assert_eq!(deliver(&binary, 4, 4), (binary.to_vec(), 9));
    // With windows of four and one new chunk per acknowledgement: 4 * 6 + 3 + 2 + 1.
    assert_eq!(deliver(&binary, 4, 1).1, 30);
}

#[test]
fn deadline_is_not_moved_by_unrelated_frames() {
    let mut upload = Upload::upload_binary(SENDER, TARGET, &[1], 1);
    transmitted(&mut upload);
    assert_eq!(transmitted(&mut upload), [0, 0, 1, 0, 0, 0, 0, 0]);
    assert!(matches!(upload.action(), Action::StartClock));
    upload.advance(Event::Elapsed(10));
    assert!(matches!(upload.action(), Action::Receive(999_999_990)));
    upload.advance(Event::Received(frame(SENDER, &[1])));
    assert!(matches!(upload.action(), Action::ReadClock));
    upload.advance(Event::Elapsed(1_000_000_000));
    assert!(matches!(upload.action(), Action::Receive(0)));
    upload.advance(Event::Received(frame(SENDER, &[2])));
    assert!(matches!(upload.action(), Action::ReadClock));
    upload.advance(Event::Elapsed(1_000_000_001));
    assert!(matches!(
        upload.action(),
        Action::Finish(Err(UploadError::AcknowledgementTimeout))
    ));
}

#[test]
fn late_start_of_the_wait_times_out() {
    let mut upload = Upload::upload_binary(SENDER, TARGET, &[1], 1);
    transmitted(&mut upload);
    transmitted(&mut upload);
    upload.advance(Event::Elapsed(2_000_000_000));
    assert!(matches!(
        upload.action(),
        Action::Finish(Err(UploadError::AcknowledgementTimeout))
    ));
}

#[test]
fn events_that_answer_nothing_change_nothing() {
    let mut upload = Upload::upload_binary(SENDER, TARGET, &[1], 1);
    upload.advance(Event::Received(ack(1)));
    upload.advance(Event::Elapsed(5));
    upload.advance(Event::TimedOut);
    upload.advance(Event::ReceiveFailed);
    assert_eq!(transmitted(&mut upload), [0x7f, 0, 0, 0, 1, 0, 0, 0]);
    upload.advance(Event::TimedOut);
    assert_eq!(transmitted(&mut upload), [0, 0, 1, 0, 0, 0, 0, 0]);
    upload.advance(Event::TransmitFailed);
    assert!(matches!(upload.action(), Action::StartClock));
}

#[test]
fn a_finished_upload_stays_finished() {
    let mut upload = Upload::upload_binary(SENDER, TARGET, &[], 1);
    transmitted(&mut upload);
    for event in [
        Event::Transmitted,
        Event::TransmitFailed,
        Event::Elapsed(0),
        Event::Received(ack(0)),
        Event::TimedOut,
        Event::ReceiveFailed,
    ] {
        upload.advance(event);
        assert!(matches!(upload.action(), Action::Finish(Ok(()))));
    }
}
