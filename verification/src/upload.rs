//! The sliding-window upload, as a state machine.
//!
//! An [`Upload`] never touches the bus. It says what is to be done next ([`Upload::action`]),
//! whoever holds the bus does that, and tells it what came of it ([`Upload::advance`]).
//!
//! A transfer opens with a header. The chunks follow in windows: all chunks of a window are
//! transmitted in order, then the receiver has a fixed time to acknowledge. It names the first
//! chunk that it has not got, and the next window starts there, so that chunks of the last window
//! may be transmitted again.
use vstd::prelude::*;

use crate::chunks::{chunk_count, chunk_payload, chunks_in, cut_chunk};
use crate::frame::{CanFrame, CanId, Frame};
use crate::wire::{ack_next, chunk_data, header_data, u16_at, AckFrame, DataHeader};

verus! {

/// How long the receiver has to acknowledge a window, in nanoseconds.
pub const ACK_TIMEOUT_NANOS: u64 = 1_000_000_000;

/// Why an upload ended before all of the binary was acknowledged.
#[derive(Clone, Copy, Debug, PartialEq, Eq, Structural)]
pub enum UploadError {
    InvalidWindowSize,
    BinaryTooLarge,
    Transmit,
    Receive,
    AcknowledgementTimeout,
    InvalidAcknowledgement,
}

impl UploadError {
    /// What the error means, in words.
    pub open spec fn text(self) -> Seq<char> {
        match self {
            UploadError::InvalidWindowSize =>
                "the sliding-window size must be greater than zero"@,
            UploadError::BinaryTooLarge =>
                "binary is too large for 16-bit chunk sequence numbers"@,
            UploadError::Transmit => "failed to transmit a CAN frame"@,
            UploadError::Receive => "failed to receive a CAN frame"@,
            UploadError::AcknowledgementTimeout => "timed out waiting for an acknowledgement"@,
            UploadError::InvalidAcknowledgement =>
                "received an acknowledgement outside the current window"@,
        }
    }

    /// What the error means, in words.
    pub fn message(&self) -> (message: &'static str)
        ensures
            message@ == self.text(),
    {
        match self {
            UploadError::InvalidWindowSize => "the sliding-window size must be greater than zero",
            UploadError::BinaryTooLarge => "binary is too large for 16-bit chunk sequence numbers",
            UploadError::Transmit => "failed to transmit a CAN frame",
            UploadError::Receive => "failed to receive a CAN frame",
            UploadError::AcknowledgementTimeout => "timed out waiting for an acknowledgement",
            UploadError::InvalidAcknowledgement => {
                "received an acknowledgement outside the current window"
            },
        }
    }
}

/// What is to be done next.
#[derive(Debug)]
pub enum Action<F> {
    /// Put the frame on the bus.
    Transmit(F),
    /// Set the clock of the acknowledgement to zero, and read it.
    StartClock,
    /// Read the clock of the acknowledgement.
    ReadClock,
    /// Wait for a frame, for at most that many nanoseconds.
    Receive(u64),
    /// Nothing: the upload is over.
    Finish(Result<(), UploadError>),
}

/// What came of an action.
#[derive(Debug)]
pub enum Event<F> {
    /// The frame is on the bus.
    Transmitted,
    /// The frame could not be put on the bus.
    TransmitFailed,
    /// The clock of the acknowledgement stands at that many nanoseconds.
    Elapsed(u128),
    /// A frame came in.
    Received(F),
    /// No frame came in in time.
    TimedOut,
    /// The bus could not be read.
    ReceiveFailed,
}

impl<F: View> View for Action<F> {
    type V = Action<F::V>;

    open spec fn view(&self) -> Action<F::V> {
        match self {
            Action::Transmit(frame) => Action::Transmit(frame@),
            Action::StartClock => Action::StartClock,
            Action::ReadClock => Action::ReadClock,
            Action::Receive(timeout) => Action::Receive(*timeout),
            Action::Finish(outcome) => Action::Finish(*outcome),
        }
    }
}

impl<F: View> View for Event<F> {
    type V = Event<F::V>;

    open spec fn view(&self) -> Event<F::V> {
        match self {
            Event::Transmitted => Event::Transmitted,
            Event::TransmitFailed => Event::TransmitFailed,
            Event::Elapsed(nanos) => Event::Elapsed(*nanos),
            Event::Received(frame) => Event::Received(frame@),
            Event::TimedOut => Event::TimedOut,
            Event::ReceiveFailed => Event::ReceiveFailed,
        }
    }
}

/// What is said of an action is said of the action itself: its frame is seen as what it is, and
/// its numbers as they are.
pub proof fn action_is_seen_as_it_is<F: View>(action: Action<F>)
    ensures
        action@ matches Action::Transmit(seen) ==> (action matches Action::Transmit(frame)
            && frame@ == seen),
        action@ is StartClock ==> action is StartClock,
        action@ is ReadClock ==> action is ReadClock,
        action@ matches Action::Receive(timeout) ==> action == Action::<F>::Receive(timeout),
        action@ matches Action::Finish(outcome) ==> action == Action::<F>::Finish(outcome),
{
}

/// What is said of an event is said of the event itself: its frame is seen as what it is, and its
/// numbers as they are.
pub proof fn event_is_seen_as_it_is<F: View>(event: Event<F>)
    ensures
        event is Transmitted ==> event@ is Transmitted,
        event is TransmitFailed ==> event@ is TransmitFailed,
        event matches Event::Elapsed(nanos) ==> event@ == Event::<F::V>::Elapsed(nanos),
        event matches Event::Received(frame) ==> event@ == Event::Received(frame@),
        event is TimedOut ==> event@ is TimedOut,
        event is ReceiveFailed ==> event@ is ReceiveFailed,
{
}

/// How far an upload has come.
pub enum Stage {
    /// The header is to be transmitted.
    Header,
    /// Chunk `next` of the window `first..end` is to be transmitted.
    Sending { first: nat, next: nat, end: nat },
    /// The window `first..end` is on the bus, and the receiver's time is about to start.
    Sent { first: nat, end: nat },
    /// A frame that does not concern the upload came in while the window `first..end` waits for
    /// its acknowledgement.
    Interrupted { first: nat, end: nat },
    /// The window `first..end` waits for its acknowledgement, for at most `timeout` nanoseconds.
    Waiting { first: nat, end: nat, timeout: u64 },
    /// The upload is over.
    Finished(Result<(), UploadError>),
}

/// What an upload is: what goes from where to where, in windows of which size, and how far it
/// has come.
pub struct Session {
    pub sender: CanId,
    pub target: CanId,
    pub binary: Seq<u8>,
    pub window: nat,
    pub stage: Stage,
}

impl Session {
    /// The number of chunks of the binary.
    pub open spec fn count(self) -> nat {
        chunks_in(self.binary.len())
    }

    /// The end of the window that starts at chunk `first`.
    pub open spec fn window_end(self, first: nat) -> nat {
        if first + self.window <= self.count() {
            first + self.window
        } else {
            self.count()
        }
    }

    /// The transfer header.
    pub open spec fn header_frame(self) -> Frame {
        Frame {
            id: self.sender,
            data: header_data(self.target.number(), self.binary.len() as u32),
        }
    }

    /// The data frame of chunk `k`.
    pub open spec fn chunk_frame(self, k: nat) -> Frame {
        Frame { id: self.sender, data: chunk_data(k as u16, chunk_payload(self.binary, k)) }
    }

    /// The same upload at another stage.
    pub open spec fn at(self, stage: Stage) -> Session {
        Session { stage, ..self }
    }

    /// The same upload, ended by an error.
    pub open spec fn fail(self, error: UploadError) -> Session {
        self.at(Stage::Finished(Err(error)))
    }

    /// All chunks before `first` are acknowledged: the window that starts there is next, unless
    /// there is no chunk left.
    pub open spec fn resume_at(self, first: nat) -> Session {
        if first < self.count() {
            self.at(Stage::Sending { first, next: first, end: self.window_end(first) })
        } else {
            self.at(Stage::Finished(Ok(())))
        }
    }

    /// The upload before anything is done. Every chunk needs a sequence number of 16 bits, and
    /// the next one after the last must fit too.
    pub open spec fn start(sender: CanId, target: CanId, binary: Seq<u8>, window: nat) -> Session {
        let fresh = Session { sender, target, binary, window, stage: Stage::Header };
        if window == 0 {
            fresh.fail(UploadError::InvalidWindowSize)
        } else if fresh.count() > u16::MAX {
            fresh.fail(UploadError::BinaryTooLarge)
        } else {
            fresh
        }
    }

    /// What is to be done next.
    pub open spec fn action(self) -> Action<Frame> {
        match self.stage {
            Stage::Header => Action::Transmit(self.header_frame()),
            Stage::Sending { next, .. } => Action::Transmit(self.chunk_frame(next)),
            Stage::Sent { .. } => Action::StartClock,
            Stage::Interrupted { .. } => Action::ReadClock,
            Stage::Waiting { timeout, .. } => Action::Receive(timeout),
            Stage::Finished(outcome) => Action::Finish(outcome),
        }
    }

    /// The clock stands at `nanos` while the window `first..end` waits.
    pub open spec fn after_clock(self, first: nat, end: nat, nanos: u128) -> Session {
        if nanos <= ACK_TIMEOUT_NANOS {
            self.at(Stage::Waiting { first, end, timeout: (ACK_TIMEOUT_NANOS - nanos) as u64 })
        } else {
            self.fail(UploadError::AcknowledgementTimeout)
        }
    }

    /// `frame` came in while the window `first..end` waits. Frames of others are passed over. A
    /// frame of the target must acknowledge at least one chunk of the window, and none after it.
    pub open spec fn after_frame(self, first: nat, end: nat, frame: Frame) -> Session {
        if frame.id != self.target {
            self.at(Stage::Interrupted { first, end })
        } else {
            match ack_next(frame.data) {
                Some(next) if first < next <= end => self.resume_at(next as nat),
                _ => self.fail(UploadError::InvalidAcknowledgement),
            }
        }
    }

    /// The upload after `event`. An event that is no answer to the action changes nothing.
    pub open spec fn after(self, event: Event<Frame>) -> Session {
        match (self.stage, event) {
            (Stage::Header, Event::Transmitted) => self.resume_at(0),
            (Stage::Header, Event::TransmitFailed) => self.fail(UploadError::Transmit),
            (Stage::Sending { first, next, end }, Event::Transmitted) => if next + 1 < end {
                self.at(Stage::Sending { first, next: next + 1, end })
            } else {
                self.at(Stage::Sent { first, end })
            },
            (Stage::Sending { .. }, Event::TransmitFailed) => self.fail(UploadError::Transmit),
            (Stage::Sent { first, end }, Event::Elapsed(nanos)) => self.after_clock(
                first,
                end,
                nanos,
            ),
            (Stage::Interrupted { first, end }, Event::Elapsed(nanos)) => self.after_clock(
                first,
                end,
                nanos,
            ),
            (Stage::Waiting { first, end, .. }, Event::Received(frame)) => self.after_frame(
                first,
                end,
                frame,
            ),
            (Stage::Waiting { .. }, Event::TimedOut) => self.fail(
                UploadError::AcknowledgementTimeout,
            ),
            (Stage::Waiting { .. }, Event::ReceiveFailed) => self.fail(UploadError::Receive),
            _ => self,
        }
    }

    /// `first..end` is a window of this upload.
    pub open spec fn is_window(self, first: nat, end: nat) -> bool {
        first < end && end == self.window_end(first)
    }

    /// What holds of an upload at every stage.
    pub open spec fn wf(self) -> bool {
        &&& !(self.stage is Finished) ==> 0 < self.window && self.count() <= u16::MAX
        &&& match self.stage {
            Stage::Header => true,
            Stage::Sending { first, next, end } => self.is_window(first, end) && first <= next
                < end,
            Stage::Sent { first, end } => self.is_window(first, end),
            Stage::Interrupted { first, end } => self.is_window(first, end),
            Stage::Waiting { first, end, timeout } => self.is_window(first, end) && timeout
                <= ACK_TIMEOUT_NANOS,
            Stage::Finished(_) => true,
        }
    }
}

/// The acknowledgement that answers the window `first_unacked..window_end`: the number of the
/// first chunk that the receiver has not got, which is neither before nor after the window.
pub fn receive_ack(response: CanFrame, first_unacked: usize, window_end: usize) -> (next: Result<
    usize,
    UploadError,
>)
    ensures
        match ack_next(response@.data) {
            Some(number) if first_unacked as u16 <= number <= window_end as u16 => next == Ok::<
                usize,
                UploadError,
            >(number as usize),
            _ => next == Err::<usize, UploadError>(UploadError::InvalidAcknowledgement),
        },
        next is Ok <==> response@.data.len() == 4 && response@.data[0] == 0x5A
            && response@.data[1] == 0xA5 && first_unacked as u16 <= u16_at(response@.data, 2)
            <= window_end as u16,
        next matches Ok(number) ==> number == u16_at(response@.data, 2),
{
    match AckFrame::new_from_frame(response) {
        Ok(ack) => {
            if ack.next_seq_num < first_unacked as u16 || ack.next_seq_num > window_end as u16 {
                Err(UploadError::InvalidAcknowledgement)
            } else {
                Ok(ack.next_seq_num as usize)
            }
        },
        Err(_) => Err(UploadError::InvalidAcknowledgement),
    }
}

/// How long to wait for a frame when the clock of the acknowledgement stands at `nanos`, if the
/// receiver's time is not over.
pub fn remaining_timeout(nanos: u128) -> (timeout: Option<u64>)
    ensures
        timeout == (if nanos <= ACK_TIMEOUT_NANOS {
            Some((ACK_TIMEOUT_NANOS - nanos) as u64)
        } else {
            None
        }),
{
    if nanos <= ACK_TIMEOUT_NANOS as u128 {
        Some(ACK_TIMEOUT_NANOS - nanos as u64)
    } else {
        None
    }
}

#[derive(Clone, Copy, Debug)]
enum Phase {
    Header,
    Sending { first: usize, next: usize, end: usize },
    Sent { first: usize, end: usize },
    Interrupted { first: usize, end: usize },
    Waiting { first: usize, end: usize, timeout: u64 },
    Finished(Result<(), UploadError>),
}

impl Phase {
    spec fn stage(self) -> Stage {
        match self {
            Phase::Header => Stage::Header,
            Phase::Sending { first, next, end } => Stage::Sending {
                first: first as nat,
                next: next as nat,
                end: end as nat,
            },
            Phase::Sent { first, end } => Stage::Sent { first: first as nat, end: end as nat },
            Phase::Interrupted { first, end } => Stage::Interrupted {
                first: first as nat,
                end: end as nat,
            },
            Phase::Waiting { first, end, timeout } => Stage::Waiting {
                first: first as nat,
                end: end as nat,
                timeout,
            },
            Phase::Finished(outcome) => Stage::Finished(outcome),
        }
    }
}

/// An upload in progress.
#[derive(Debug)]
pub struct Upload<'a> {
    sender: CanId,
    target: CanId,
    binary: &'a [u8],
    window_size: usize,
    phase: Phase,
}

impl<'a> View for Upload<'a> {
    type V = Session;

    closed spec fn view(&self) -> Session {
        Session {
            sender: self.sender,
            target: self.target,
            binary: self.binary@,
            window: self.window_size as nat,
            stage: self.phase.stage(),
        }
    }
}

impl<'a> Upload<'a> {
    #[verifier::type_invariant]
    spec fn holds(self) -> bool {
        self@.wf()
    }

    /// Starts the upload of `binary` to `target_can_id`, in frames that carry `self_can_id`, with
    /// at most `window_size` chunks on the bus before each acknowledgement.
    pub fn upload_binary(
        self_can_id: CanId,
        target_can_id: CanId,
        binary: &'a [u8],
        window_size: usize,
    ) -> (upload: Upload<'a>)
        ensures
            upload@ == Session::start(self_can_id, target_can_id, binary@, window_size as nat),
            upload@.wf(),
    {
        let phase = if window_size == 0 {
            Phase::Finished(Err(UploadError::InvalidWindowSize))
        } else if chunk_count(binary.len()) > u16::MAX as usize {
            Phase::Finished(Err(UploadError::BinaryTooLarge))
        } else {
            Phase::Header
        };
        Upload { sender: self_can_id, target: target_can_id, binary, window_size, phase }
    }

    /// What is to be done next.
    pub fn action(&self) -> (action: Action<CanFrame>)
        ensures
            action@ == self@.action(),
            self@.wf(),
    {
        proof {
            use_type_invariant(self);
        }
        match self.phase {
            Phase::Header => {
                let header = DataHeader {
                    can_id: self.target,
                    message_size: self.binary.len() as u32,
                };
                Action::Transmit(header.to_can_frame(self.sender))
            },
            Phase::Sending { next, .. } => {
                let chunk = cut_chunk(self.binary, next);
                Action::Transmit(chunk.to_can_frame(self.sender))
            },
            Phase::Sent { .. } => Action::StartClock,
            Phase::Interrupted { .. } => Action::ReadClock,
            Phase::Waiting { timeout, .. } => Action::Receive(timeout),
            Phase::Finished(outcome) => Action::Finish(outcome),
        }
    }

    /// The window that starts at chunk `first`, or the end of the upload.
    fn resume_at(&self, first: usize) -> (phase: Phase)
        ensures
            phase.stage() == self@.resume_at(first as nat).stage,
    {
        let count: usize = chunk_count(self.binary.len());
        if first < count {
            let end: usize = if self.window_size <= count - first {
                first + self.window_size
            } else {
                count
            };
            Phase::Sending { first, next: first, end }
        } else {
            Phase::Finished(Ok(()))
        }
    }

    fn after_clock(&self, first: usize, end: usize, nanos: u128) -> (phase: Phase)
        ensures
            phase.stage() == self@.after_clock(first as nat, end as nat, nanos).stage,
    {
        match remaining_timeout(nanos) {
            Some(timeout) => Phase::Waiting { first, end, timeout },
            None => Phase::Finished(Err(UploadError::AcknowledgementTimeout)),
        }
    }

    fn after_frame(&self, first: usize, end: usize, frame: CanFrame) -> (phase: Phase)
        requires
            first <= u16::MAX,
            end <= u16::MAX,
        ensures
            phase.stage() == self@.after_frame(first as nat, end as nat, frame@).stage,
    {
        if frame.id() != self.target {
            return Phase::Interrupted { first, end };
        }
        match receive_ack(frame, first, end) {
            Ok(next) => {
                if next <= first || next > end {
                    Phase::Finished(Err(UploadError::InvalidAcknowledgement))
                } else {
                    self.resume_at(next)
                }
            },
            Err(error) => Phase::Finished(Err(error)),
        }
    }

    /// Takes in what came of the action. An event that is no answer to it changes nothing.
    pub fn advance(&mut self, event: Event<CanFrame>)
        ensures
            final(self)@ == old(self)@.after(event@),
            final(self)@.wf(),
    {
        proof {
            use_type_invariant(&*self);
        }
        let phase = match (self.phase, event) {
            (Phase::Header, Event::Transmitted) => self.resume_at(0),
            (Phase::Header, Event::TransmitFailed) => Phase::Finished(Err(UploadError::Transmit)),
            (Phase::Sending { first, next, end }, Event::Transmitted) => if next + 1 < end {
                Phase::Sending { first, next: next + 1, end }
            } else {
                Phase::Sent { first, end }
            },
            (Phase::Sending { .. }, Event::TransmitFailed) => Phase::Finished(
                Err(UploadError::Transmit),
            ),
            (Phase::Sent { first, end }, Event::Elapsed(nanos)) => self.after_clock(
                first,
                end,
                nanos,
            ),
            (Phase::Interrupted { first, end }, Event::Elapsed(nanos)) => self.after_clock(
                first,
                end,
                nanos,
            ),
            (Phase::Waiting { first, end, .. }, Event::Received(frame)) => self.after_frame(
                first,
                end,
                frame,
            ),
            (Phase::Waiting { .. }, Event::TimedOut) => Phase::Finished(
                Err(UploadError::AcknowledgementTimeout),
            ),
            (Phase::Waiting { .. }, Event::ReceiveFailed) => Phase::Finished(
                Err(UploadError::Receive),
            ),
            (phase, _) => phase,
        };
        self.phase = phase;
    }
}

} // verus!
