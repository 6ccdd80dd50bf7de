//! What an upload does next, told from what has happened on the bus.
//!
//! The laws here speak of the arguments that an upload was started with, of the events so far and
//! of the bytes of frames, and not of the stages that the upload goes through.
use vstd::prelude::*;

use crate::chunks::{chunk_holds_its_part, chunk_payload, chunks_are_the_least_that_hold};
use crate::frame::{number_is_what_was_put_in, CanId, Frame};
use crate::laws::{bus_carries_only_the_transfer, bus_log, finished_is_final, run};
use crate::upload::{Action, Event, Session, Stage, UploadError};
use crate::wire::{
    ack_is_read_byte_by_byte, chunk_bytes_spell_number, header_bytes_spell_numbers, u16_at, u32_at,
};

verus! {

/// `frame` opens a transfer of `len` bytes from `sender` to `target`.
pub open spec fn opens_transfer(frame: Frame, sender: CanId, target: CanId, len: nat) -> bool {
    &&& frame.id == sender
    &&& frame.data.len() == 8
    &&& u32_at(frame.data, 0) == (match target {
        CanId::Standard(number) => number as int,
        CanId::Extended(number) => number as int,
    })
    &&& u32_at(frame.data, 4) == len
}

/// `frame` carries the six bytes of `binary` from `6 * k` on, with zeros after the end.
pub open spec fn carries_chunk(frame: Frame, sender: CanId, binary: Seq<u8>, k: int) -> bool {
    &&& frame.id == sender
    &&& frame.data.len() == 8
    &&& u16_at(frame.data, 0) == k
    &&& forall|i: int|
        0 <= i < 6 ==> #[trigger] frame.data[2 + i] == (if 6 * k + i < binary.len() {
            binary[6 * k + i]
        } else {
            0
        })
}

/// What counts of the events so far.
pub struct History {
    /// The chunk that the last good acknowledgement named, or the first one.
    pub acked: int,
    /// The number of data frames put on the bus since then; less than zero before the header.
    pub sent: int,
    /// The target sent something that is no good acknowledgement.
    pub refused: bool,
    /// The last event that answered an action.
    pub last: Option<Event<Frame>>,
}

/// Nothing has happened yet.
pub open spec fn blank() -> History {
    History { acked: 0, sent: -1, refused: false, last: None }
}

/// `data` acknowledges at least one of the `sent` chunks from `acked` on, and no other chunk.
pub open spec fn is_good_ack(data: Seq<u8>, acked: int, sent: int) -> bool {
    &&& data.len() == 4
    &&& data[0] == 0x5A
    &&& data[1] == 0xA5
    &&& acked < u16_at(data, 2) <= acked + sent
}

/// The history with one more event. Only an answer to the action counts.
pub open spec fn remember(
    before: History,
    action: Action<Frame>,
    event: Event<Frame>,
    target: CanId,
) -> History {
    match (action, event) {
        (Action::Transmit(_), Event::Transmitted) => History {
            sent: before.sent + 1,
            last: Some(event),
            ..before
        },
        (Action::Transmit(_), Event::TransmitFailed) => History { last: Some(event), ..before },
        (Action::StartClock, Event::Elapsed(_)) => History { last: Some(event), ..before },
        (Action::ReadClock, Event::Elapsed(_)) => History { last: Some(event), ..before },
        (Action::Receive(_), Event::TimedOut) => History { last: Some(event), ..before },
        (Action::Receive(_), Event::ReceiveFailed) => History { last: Some(event), ..before },
        (Action::Receive(_), Event::Received(frame)) => if frame.id != target {
            History { last: Some(event), ..before }
        } else if is_good_ack(frame.data, before.acked, before.sent) {
            History { acked: u16_at(frame.data, 2), sent: 0, last: Some(event), ..before }
        } else {
            History { refused: true, last: Some(event), ..before }
        },
        _ => before,
    }
}

/// The history with all of `events`, of an upload to `target`.
pub open spec fn recall(
    before: History,
    session: Session,
    events: Seq<Event<Frame>>,
    target: CanId,
) -> History
    decreases events.len(),
{
    if events.len() == 0 {
        before
    } else {
        recall(
            remember(before, session.action(), events.first(), target),
            session.after(events.first()),
            events.drop_first(),
            target,
        )
    }
}

/// What is due when the last answer left nothing to wait for: the next chunk while the window has
/// room and there are bytes left; the end when nothing is outstanding; else the start of the
/// receiver's time.
pub open spec fn is_due_in_window(
    action: Action<Frame>,
    sender: CanId,
    binary: Seq<u8>,
    window: nat,
    history: History,
) -> bool {
    let next = history.acked + history.sent;
    if history.sent < window && 6 * next < binary.len() {
        action matches Action::Transmit(frame) && carries_chunk(frame, sender, binary, next)
    } else if history.sent == 0 {
        action == Action::<Frame>::Finish(Ok(()))
    } else {
        action is StartClock
    }
}

/// What is due after `history`, in an upload with those arguments.
pub open spec fn is_due(
    action: Action<Frame>,
    sender: CanId,
    target: CanId,
    binary: Seq<u8>,
    window: nat,
    history: History,
) -> bool {
    if window == 0 {
        action == Action::<Frame>::Finish(Err(UploadError::InvalidWindowSize))
    } else if binary.len() > 6 * 65535 {
        action == Action::<Frame>::Finish(Err(UploadError::BinaryTooLarge))
    } else {
        match history.last {
            None => action matches Action::Transmit(frame) && opens_transfer(
                frame,
                sender,
                target,
                binary.len(),
            ),
            Some(Event::Transmitted) => is_due_in_window(action, sender, binary, window, history),
            Some(Event::TransmitFailed) => action == Action::<Frame>::Finish(
                Err(UploadError::Transmit),
            ),
            Some(Event::Elapsed(nanos)) => if nanos <= 1_000_000_000 {
                action matches Action::Receive(timeout) && nanos + timeout == 1_000_000_000
            } else {
                action == Action::<Frame>::Finish(Err(UploadError::AcknowledgementTimeout))
            },
            Some(Event::Received(frame)) => if frame.id != target {
                action is ReadClock
            } else if history.refused {
                action == Action::<Frame>::Finish(Err(UploadError::InvalidAcknowledgement))
            } else {
                is_due_in_window(action, sender, binary, window, history)
            },
            Some(Event::TimedOut) => action == Action::<Frame>::Finish(
                Err(UploadError::AcknowledgementTimeout),
            ),
            Some(Event::ReceiveFailed) => action == Action::<Frame>::Finish(
                Err(UploadError::Receive),
            ),
        }
    }
}

proof fn header_opens_transfer(session: Session)
    requires
        session.binary.len() <= 6 * 65535,
    ensures
        opens_transfer(
            session.header_frame(),
            session.sender,
            session.target,
            session.binary.len(),
        ),
{
    header_bytes_spell_numbers(session.target.number(), session.binary.len() as u32);
    match session.target {
        CanId::Standard(number) => number_is_what_was_put_in(number, 0),
        CanId::Extended(number) => number_is_what_was_put_in(0, number),
    }
}

proof fn chunk_frame_carries_chunk(session: Session, k: nat)
    requires
        k <= u16::MAX,
    ensures
        carries_chunk(session.chunk_frame(k), session.sender, session.binary, k as int),
{
    let payload = chunk_payload(session.binary, k);
    chunk_bytes_spell_number(k as u16, payload);
    chunk_holds_its_part(session.binary, k);
    assert forall|i: int| 0 <= i < 6 implies #[trigger] session.chunk_frame(k).data[2 + i] == (
    if 6 * k + i < session.binary.len() {
        session.binary[6 * k + i]
    } else {
        0
    }) by {
        assert(payload[i] == session.chunk_frame(k).data[2 + i]);
    }
}

/// `window` chunks from `first` on, or all that are left.
spec fn is_full_window(first: int, end: int, window: nat, len: nat) -> bool {
    &&& first < end <= first + window
    &&& 6 * (end - 1) < len
    &&& end == first + window || 6 * end >= len
}

spec fn is_fresh(history: History, target: CanId) -> bool {
    &&& !history.refused
    &&& match history.last {
        Some(Event::Transmitted) => true,
        Some(Event::Received(frame)) => frame.id == target,
        _ => false,
    }
}

/// How the stage of an upload goes with its history.
spec fn agrees(session: Session, history: History) -> bool {
    let len = session.binary.len();
    &&& session.window > 0
    &&& len <= 6 * 65535
    &&& match session.stage {
        Stage::Header => history == blank(),
        Stage::Sending { first, next, end } => {
            &&& is_full_window(first as int, end as int, session.window, len)
            &&& first <= next < end
            &&& history.acked == first
            &&& history.sent == next - first
            &&& is_fresh(history, session.target)
        },
        Stage::Sent { first, end } => {
            &&& is_full_window(first as int, end as int, session.window, len)
            &&& history.acked == first
            &&& history.sent == end - first
            &&& !history.refused
            &&& history.last == Some(Event::<Frame>::Transmitted)
        },
        Stage::Interrupted { first, end } => {
            &&& is_full_window(first as int, end as int, session.window, len)
            &&& history.acked == first
            &&& history.sent == end - first
            &&& !history.refused
            &&& history.last matches Some(Event::Received(frame)) && frame.id != session.target
        },
        Stage::Waiting { first, end, timeout } => {
            &&& is_full_window(first as int, end as int, session.window, len)
            &&& history.acked == first
            &&& history.sent == end - first
            &&& !history.refused
            &&& history.last matches Some(Event::Elapsed(nanos)) && nanos + timeout
                == 1_000_000_000
        },
        Stage::Finished(Ok(_)) => {
            &&& history.sent == 0
            &&& 6 * history.acked >= len
            &&& is_fresh(history, session.target)
        },
        Stage::Finished(Err(error)) => match history.last {
            Some(Event::TransmitFailed) => error == UploadError::Transmit,
            Some(Event::Elapsed(nanos)) => nanos > 1_000_000_000 && error
                == UploadError::AcknowledgementTimeout,
            Some(Event::TimedOut) => error == UploadError::AcknowledgementTimeout,
            Some(Event::ReceiveFailed) => error == UploadError::Receive,
            Some(Event::Received(frame)) => frame.id == session.target && history.refused && error
                == UploadError::InvalidAcknowledgement,
            _ => false,
        },
    }
}

proof fn step_keeps_agreement(session: Session, history: History, event: Event<Frame>)
    requires
        session.wf(),
        agrees(session, history),
    ensures
        session.after(event).wf(),
        session.after(event) == session.at(session.after(event).stage),
        agrees(
            session.after(event),
            remember(history, session.action(), event, session.target),
        ),
{
    chunks_are_the_least_that_hold(session.binary.len());
    if let Event::Received(frame) = event {
        ack_is_read_byte_by_byte(frame.data);
    }
}

proof fn run_keeps_agreement(session: Session, history: History, events: Seq<Event<Frame>>)
    requires
        session.wf(),
        agrees(session, history),
    ensures
        run(session, events).wf(),
        run(session, events) == session.at(run(session, events).stage),
        agrees(run(session, events), recall(history, session, events, session.target)),
    decreases events.len(),
{
    if events.len() > 0 {
        step_keeps_agreement(session, history, events.first());
        run_keeps_agreement(
            session.after(events.first()),
            remember(history, session.action(), events.first(), session.target),
            events.drop_first(),
        );
    }
}

proof fn agreement_makes_due(session: Session, history: History)
    requires
        agrees(session, history),
    ensures
        is_due(
            session.action(),
            session.sender,
            session.target,
            session.binary,
            session.window,
            history,
        ),
{
    match session.stage {
        Stage::Header => {
            header_opens_transfer(session);
        },
        Stage::Sending { next, .. } => {
            chunk_frame_carries_chunk(session, next);
        },
        Stage::Finished(Ok(done)) => {
            assert(done == ());
        },
        _ => {},
    }
}

/// At every point of every upload, what is to be done next is what is due after the events so
/// far: the header first; then, of the chunks from the last acknowledged one on, the next one
/// while fewer than a window of them are on the bus; then the acknowledgement, for which the
/// target, and nobody else, has one second from the last chunk of the window on; and the end, with
/// success only when every chunk is acknowledged, or with the error that belongs to what happened.
pub proof fn next_action_follows_from_history(
    sender: CanId,
    target: CanId,
    binary: Seq<u8>,
    window: nat,
    events: Seq<Event<Frame>>,
)
    ensures
        ({
            let start = Session::start(sender, target, binary, window);
            is_due(
                run(start, events).action(),
                sender,
                target,
                binary,
                window,
                recall(blank(), start, events, target),
            )
        }),
{
    let start = Session::start(sender, target, binary, window);
    chunks_are_the_least_that_hold(binary.len());
    if start.stage is Finished {
        finished_is_final(start, events);
    } else {
        run_keeps_agreement(start, blank(), events);
        agreement_makes_due(run(start, events), recall(blank(), start, events, target));
    }
}

proof fn next_action_follows_from_one_more(
    sender: CanId,
    target: CanId,
    binary: Seq<u8>,
    window: nat,
    events: Seq<Event<Frame>>,
    event: Event<Frame>,
)
    ensures
        ({
            let start = Session::start(sender, target, binary, window);
            let now = run(start, events);
            let history = recall(blank(), start, events, target);
            is_due(
                now.after(event).action(),
                sender,
                target,
                binary,
                window,
                remember(history, now.action(), event, target),
            )
        }),
{
    let start = Session::start(sender, target, binary, window);
    let now = run(start, events);
    let history = recall(blank(), start, events, target);
    next_action_follows_from_history(sender, target, binary, window, events);
    if start.stage is Finished {
        finished_is_final(start, events);
    } else {
        chunks_are_the_least_that_hold(binary.len());
        run_keeps_agreement(start, blank(), events);
        step_keeps_agreement(now, history, event);
        agreement_makes_due(
            now.after(event),
            remember(history, now.action(), event, target),
        );
    }
}

/// Since the last acknowledgement never more chunks than the window size are put on the bus, and
/// an acknowledgement is awaited only when there are exactly that many, or when they reach the end
/// of the binary. Every window is as long as the size allows: it ends that many chunks after its
/// start, or with the last chunk, which is the one that holds the last byte.
pub proof fn window_size_is_kept(
    sender: CanId,
    target: CanId,
    binary: Seq<u8>,
    window: nat,
    events: Seq<Event<Frame>>,
)
    ensures
        ({
            let start = Session::start(sender, target, binary, window);
            let now = run(start, events);
            let history = recall(blank(), start, events, target);
            &&& history.sent <= window
            &&& now.action() is StartClock || now.action() is ReadClock || now.action() is Receive
                ==> {
                &&& 0 < history.sent
                &&& 6 * (history.acked + history.sent - 1) < binary.len()
                &&& history.sent == window || 6 * (history.acked + history.sent) >= binary.len()
            }
            &&& now.stage matches Stage::Sending { first, end, .. } ==> first < end <= first
                + window && 6 * (end - 1) < binary.len() && (end == first + window || 6 * end
                >= binary.len())
            &&& now.stage matches Stage::Sent { first, end } ==> first < end <= first + window && 6
                * (end - 1) < binary.len() && (end == first + window || 6 * end >= binary.len())
            &&& now.stage matches Stage::Interrupted { first, end } ==> first < end <= first
                + window && 6 * (end - 1) < binary.len() && (end == first + window || 6 * end
                >= binary.len())
            &&& now.stage matches Stage::Waiting { first, end, .. } ==> first < end <= first
                + window && 6 * (end - 1) < binary.len() && (end == first + window || 6 * end
                >= binary.len())
        }),
{
    let start = Session::start(sender, target, binary, window);
    chunks_are_the_least_that_hold(binary.len());
    if start.stage is Finished {
        finished_is_final(start, events);
        nothing_is_remembered_of_finished(blank(), start, events, target);
    } else {
        run_keeps_agreement(start, blank(), events);
        sent_stays_within_window(start, blank(), events);
    }
}

proof fn nothing_is_remembered_of_finished(
    history: History,
    session: Session,
    events: Seq<Event<Frame>>,
    target: CanId,
)
    requires
        session.stage is Finished,
    ensures
        recall(history, session, events, target) == history,
    decreases events.len(),
{
    if events.len() > 0 {
        nothing_is_remembered_of_finished(history, session, events.drop_first(), target);
    }
}

proof fn sent_stays_within_window(session: Session, history: History, events: Seq<Event<Frame>>)
    requires
        session.wf(),
        agrees(session, history),
        history.sent <= session.window,
    ensures
        recall(history, session, events, session.target).sent <= session.window,
    decreases events.len(),
{
    if events.len() > 0 {
        step_keeps_agreement(session, history, events.first());
        sent_stays_within_window(
            session.after(events.first()),
            remember(history, session.action(), events.first(), session.target),
            events.drop_first(),
        );
    }
}

/// The receiver's time is counted anew for every window: when the last chunk of any window is on
/// the bus, the clock is started, and it is started at no other time. It is read without being
/// started only after a frame that the target did not send came in during the wait. The time that
/// has passed and the time to wait make one second together.
pub proof fn every_window_has_its_own_second(
    sender: CanId,
    target: CanId,
    binary: Seq<u8>,
    window: nat,
    events: Seq<Event<Frame>>,
    event: Event<Frame>,
)
    ensures
        ({
            let now = run(Session::start(sender, target, binary, window), events);
            let next = now.after(event).action();
            &&& now.action() is Transmit && event is Transmitted && binary.len() > 0 ==> next
                is Transmit || next is StartClock
            &&& next is StartClock && !(now.action() is StartClock) ==> now.action() is Transmit
                && event is Transmitted
            &&& next is ReadClock && !(now.action() is ReadClock) ==> now.action() is Receive && (
            event matches Event::Received(frame) && frame.id != target)
            &&& now.action() is StartClock || now.action() is ReadClock ==> (event
                matches Event::Elapsed(nanos) ==> if nanos <= 1_000_000_000 {
                next matches Action::Receive(timeout) && nanos + timeout == 1_000_000_000
            } else {
                next == Action::<Frame>::Finish(Err(UploadError::AcknowledgementTimeout))
            })
        }),
{
    let start = Session::start(sender, target, binary, window);
    let now = run(start, events);
    let history = recall(blank(), start, events, target);
    next_action_follows_from_history(sender, target, binary, window, events);
    next_action_follows_from_one_more(sender, target, binary, window, events, event);
    if !(start.stage is Finished) {
        chunks_are_the_least_that_hold(binary.len());
        run_keeps_agreement(start, blank(), events);
        step_keeps_agreement(now, history, event);
    }
}

/// A transfer is between the two that it was started for. The header names the target, and during
/// a wait a frame is taken as the acknowledgement if and only if it carries the identifier of the
/// target: then the upload goes on or ends, and otherwise it only looks at the clock and waits on.
pub proof fn transfer_is_with_the_target(
    sender: CanId,
    target: CanId,
    binary: Seq<u8>,
    window: nat,
    events: Seq<Event<Frame>>,
    frame: Frame,
)
    ensures
        ({
            let start = Session::start(sender, target, binary, window);
            let log = bus_log(start, events);
            let now = run(start, events);
            let next = now.after(Event::Received(frame)).action();
            let history = recall(blank(), start, events, target);
            &&& log.len() > 0 ==> opens_transfer(log[0], sender, target, binary.len())
            &&& now.action() is Receive ==> {
                &&& next is ReadClock <==> frame.id != target
                &&& frame.id == target && is_good_ack(frame.data, history.acked, history.sent)
                    ==> next is Transmit || next == Action::<Frame>::Finish(Ok(()))
                &&& frame.id == target && !is_good_ack(frame.data, history.acked, history.sent)
                    ==> next == Action::<Frame>::Finish(Err(UploadError::InvalidAcknowledgement))
            }
        }),
{
    let start = Session::start(sender, target, binary, window);
    let now = run(start, events);
    let history = recall(blank(), start, events, target);
    let event = Event::Received(frame);
    chunks_are_the_least_that_hold(binary.len());
    bus_carries_only_the_transfer(sender, target, binary, window, events);
    next_action_follows_from_history(sender, target, binary, window, events);
    next_action_follows_from_one_more(sender, target, binary, window, events, event);
    if start.stage is Finished {
        finished_is_final(start, events);
    } else {
        header_opens_transfer(start);
        run_keeps_agreement(start, blank(), events);
        step_keeps_agreement(now, history, event);
    }
}

/// Every frame that an upload puts on the bus carries the identifier of the sender, and after the
/// header every one carries six bytes of the binary, from the place that its number names, with at
/// least one byte before the end of the binary.
pub proof fn bus_carries_the_binary_of_the_sender(
    sender: CanId,
    target: CanId,
    binary: Seq<u8>,
    window: nat,
    events: Seq<Event<Frame>>,
)
    ensures
        ({
            let log = bus_log(Session::start(sender, target, binary, window), events);
            &&& forall|i: int| 0 <= i < log.len() ==> (#[trigger] log[i]).id == sender
            &&& forall|i: int|
                0 < i < log.len() ==> carries_chunk(
                    #[trigger] log[i],
                    sender,
                    binary,
                    u16_at(log[i].data, 0),
                ) && 6 * u16_at(log[i].data, 0) < binary.len()
        }),
{
    let start = Session::start(sender, target, binary, window);
    let log = bus_log(start, events);
    chunks_are_the_least_that_hold(binary.len());
    bus_carries_only_the_transfer(sender, target, binary, window, events);
    if start.stage is Finished {
        finished_is_final(start, events);
    } else {
        header_opens_transfer(start);
        assert forall|i: int| 0 < i < log.len() implies carries_chunk(
            #[trigger] log[i],
            sender,
            binary,
            u16_at(log[i].data, 0),
        ) && 6 * u16_at(log[i].data, 0) < binary.len() by {
            let k = choose|k: nat| k < start.count() && #[trigger] log[i] == start.chunk_frame(k);
            chunk_frame_carries_chunk(start, k);
        }
    }
}

} // verus!
