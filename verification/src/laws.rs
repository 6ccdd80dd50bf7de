//! What holds of whole uploads, whatever the bus and the receiver do.
use vstd::prelude::*;

use crate::chunks::{chunk_payload, chunks_in, chunks_rebuild_binary, joined, joined_is_padded_binary};
use crate::frame::{CanId, Frame};
use crate::upload::{Action, Event, Session, Stage, UploadError, ACK_TIMEOUT_NANOS};
use crate::wire::{
    ack_data, ack_next, ack_round_trip, chunk_round_trip, header_round_trip, le_value,
    CHUNK_SIZE,
};

verus! {

/// The upload after all of `events`, in order.
pub open spec fn run(session: Session, events: Seq<Event<Frame>>) -> Session
    decreases events.len(),
{
    if events.len() == 0 {
        session
    } else {
        run(session.after(events.first()), events.drop_first())
    }
}

/// The frames that `event` puts on the bus: the one that was to be transmitted, if it was.
pub open spec fn put_on_bus(session: Session, event: Event<Frame>) -> Seq<Frame> {
    match (session.action(), event) {
        (Action::Transmit(frame), Event::Transmitted) => seq![frame],
        _ => seq![],
    }
}

/// The frames that are on the bus after all of `events`, in order.
pub open spec fn bus_log(session: Session, events: Seq<Event<Frame>>) -> Seq<Frame>
    decreases events.len(),
{
    if events.len() == 0 {
        seq![]
    } else {
        put_on_bus(session, events.first()) + bus_log(
            session.after(events.first()),
            events.drop_first(),
        )
    }
}

/// `event` is an answer to the action of the upload.
pub open spec fn answers(session: Session, event: Event<Frame>) -> bool {
    match session.action() {
        Action::Transmit(_) => event is Transmitted || event is TransmitFailed,
        Action::StartClock => event is Elapsed,
        Action::ReadClock => event is Elapsed,
        Action::Receive(_) => event is Received || event is TimedOut || event is ReceiveFailed,
        Action::Finish(_) => false,
    }
}

/// A frame that the target did not send came in.
pub open spec fn is_unrelated(session: Session, event: Event<Frame>) -> bool {
    event matches Event::Received(frame) && frame.id != session.target
}

/// What a receiver has put together from data frames: it appends the payload of the chunk that
/// is next in order, and passes over every other one.
pub open spec fn collected(frames: Seq<Frame>) -> Seq<u8>
    decreases frames.len(),
{
    if frames.len() == 0 {
        seq![]
    } else {
        let before = collected(frames.drop_last());
        let data = frames.last().data;
        if CHUNK_SIZE * le_value(data.take(2)) == before.len() {
            before + data.skip(2)
        } else {
            before
        }
    }
}

/// What a receiver makes of a whole transfer: a header with the size, then data frames.
pub open spec fn received_binary(log: Seq<Frame>) -> Seq<u8> {
    collected(log.drop_first()).take(le_value(log.first().data.skip(4)) as int)
}

/// The data frames of the chunks `first..end`, in order.
pub open spec fn chunk_frames(session: Session, first: nat, end: nat) -> Seq<Frame> {
    Seq::new((end - first) as nat, |i: int| session.chunk_frame((first + i) as nat))
}

/// Every step keeps the upload well-formed, and what goes from where to where.
pub proof fn step_keeps_upload(session: Session, event: Event<Frame>)
    requires
        session.wf(),
    ensures
        session.after(event).wf(),
        session.after(event).sender == session.sender,
        session.after(event).target == session.target,
        session.after(event).binary == session.binary,
        session.after(event).window == session.window,
{
}

/// An upload that is over stays as it is and puts nothing more on the bus.
pub proof fn finished_is_final(session: Session, events: Seq<Event<Frame>>)
    requires
        session.stage is Finished,
    ensures
        run(session, events) == session,
        bus_log(session, events).len() == 0,
    decreases events.len(),
{
    if events.len() > 0 {
        finished_is_final(session, events.drop_first());
    }
}

/// An upload with a window of size zero, or with more chunks than sequence numbers, is over
/// before it starts, and nothing is ever put on the bus.
pub proof fn invalid_inputs_do_not_touch_bus(
    sender: CanId,
    target: CanId,
    binary: Seq<u8>,
    window: nat,
    events: Seq<Event<Frame>>,
)
    requires
        window == 0 || chunks_in(binary.len()) > u16::MAX,
    ensures
        ({
            let start = Session::start(sender, target, binary, window);
            let end = run(start, events);
            &&& end.action() == Action::<Frame>::Finish(
                Err(
                    if window == 0 {
                        UploadError::InvalidWindowSize
                    } else {
                        UploadError::BinaryTooLarge
                    },
                ),
            )
            &&& bus_log(start, events).len() == 0
        }),
{
    finished_is_final(Session::start(sender, target, binary, window), events);
}

/// `log` ends with the frames of `tail`, and holds a frame before them.
pub open spec fn ends_with(log: Seq<Frame>, tail: Seq<Frame>) -> bool {
    &&& tail.len() < log.len()
    &&& log.skip(log.len() - tail.len()) == tail
}

/// The bus carries nothing but the transfer: the header first, and only chunks after it.
pub open spec fn is_orderly(session: Session, log: Seq<Frame>) -> bool {
    &&& log.len() > 0 ==> log.first() == session.header_frame()
    &&& forall|i: int|
        0 < i < log.len() ==> exists|k: nat|
            k < session.count() && #[trigger] log[i] == session.chunk_frame(k)
}

/// A receiver that has seen `log` has the first `n` chunks, and perhaps some after them.
spec fn is_collected(session: Session, log: Seq<Frame>, n: nat) -> bool {
    exists|got: nat|
        n <= got <= session.count() && collected(log.drop_first()) == #[trigger] joined(
            session.binary,
            got,
        )
}

/// What the frames in `log` have to do with the stage that the upload is at.
spec fn is_on_course(session: Session, log: Seq<Frame>) -> bool {
    &&& is_orderly(session, log)
    &&& match session.stage {
        Stage::Header => log.len() == 0,
        Stage::Sending { first, next, .. } => is_collected(session, log, next) && ends_with(
            log,
            chunk_frames(session, first, next),
        ),
        Stage::Sent { first, end } => is_collected(session, log, end) && ends_with(
            log,
            chunk_frames(session, first, end),
        ),
        Stage::Interrupted { first, end } => is_collected(session, log, end) && ends_with(
            log,
            chunk_frames(session, first, end),
        ),
        Stage::Waiting { first, end, .. } => is_collected(session, log, end) && ends_with(
            log,
            chunk_frames(session, first, end),
        ),
        Stage::Finished(Ok(_)) => log.len() > 0 && is_collected(session, log, session.count()),
        Stage::Finished(Err(_)) => true,
    }
}

/// Chunk `k` after a log from which the chunks up to `k` were collected.
proof fn chunk_is_collected(session: Session, log: Seq<Frame>, k: nat)
    requires
        log.len() > 0,
        k < session.count() <= u16::MAX,
        is_collected(session, log, k),
    ensures
        is_collected(session, log.push(session.chunk_frame(k)), k + 1),
{
    let frame = session.chunk_frame(k);
    let longer = log.push(frame);
    let got = choose|got: nat|
        k <= got <= session.count() && collected(log.drop_first()) == #[trigger] joined(
            session.binary,
            got,
        );
    assert(longer.drop_first().drop_last() =~= log.drop_first());
    assert(longer.drop_first().last() == frame);
    chunk_round_trip(k as u16, chunk_payload(session.binary, k));
    joined_is_padded_binary(session.binary, got);
    if got == k {
        assert(collected(longer.drop_first()) == joined(session.binary, k + 1));
    } else {
        assert(collected(longer.drop_first()) == joined(session.binary, got));
    }
}

/// What is to be carried does not depend on the stage.
proof fn transfer_is_the_same(session: Session, later: Session, log: Seq<Frame>)
    requires
        later == session.at(later.stage),
    ensures
        is_orderly(session, log) ==> is_orderly(later, log),
        forall|n: nat, m: nat|
            m <= n && #[trigger] is_collected(session, log, n) ==> #[trigger] is_collected(
                later,
                log,
                m,
            ),
        forall|first: nat, end: nat|
            #[trigger] chunk_frames(later, first, end) == chunk_frames(session, first, end),
{
    assert forall|first: nat, end: nat|
        #[trigger] chunk_frames(later, first, end) == chunk_frames(session, first, end) by {
        assert(chunk_frames(later, first, end) =~= chunk_frames(session, first, end));
    }
    if is_orderly(session, log) {
        assert forall|i: int| 0 < i < log.len() implies exists|k: nat|
            k < later.count() && #[trigger] log[i] == later.chunk_frame(k) by {
            let k = choose|k: nat|
                k < session.count() && #[trigger] log[i] == session.chunk_frame(k);
            assert(log[i] == later.chunk_frame(k));
        }
    }
}

proof fn step_keeps_course(session: Session, log: Seq<Frame>, event: Event<Frame>)
    requires
        session.wf(),
        is_on_course(session, log),
    ensures
        is_on_course(session.after(event), log + put_on_bus(session, event)),
{
    let later = session.after(event);
    let sent = put_on_bus(session, event);
    match (session.stage, event) {
        (Stage::Header, Event::Transmitted) => {
            assert(log + sent =~= seq![session.header_frame()]);
            assert((log + sent).drop_first() =~= seq![]);
            assert(collected((log + sent).drop_first()) == joined(session.binary, 0));
            assert(is_collected(later, log + sent, 0));
            assert((log + sent).skip(1) =~= chunk_frames(later, 0, 0));
        },
        (Stage::Sending { first, next, end }, Event::Transmitted) => {
            let frame = session.chunk_frame(next);
            assert(log + sent =~= log.push(frame));
            chunk_is_collected(session, log, next);
            let before = chunk_frames(session, first, next);
            let after = chunk_frames(session, first, next + 1);
            assert(log.push(frame).skip(log.len() + 1 - after.len()) =~= log.skip(
                log.len() - before.len(),
            ).push(frame));
            assert(before.push(frame) =~= after);
            assert(is_collected(later, log + sent, next + 1));
            assert(chunk_frames(later, first, next + 1) =~= after);
            assert forall|i: int| 0 < i < (log + sent).len() implies exists|k: nat|
                k < later.count() && #[trigger] (log + sent)[i] == later.chunk_frame(k) by {
                if i < log.len() {
                    let k = choose|k: nat|
                        k < session.count() && #[trigger] log[i] == session.chunk_frame(k);
                    assert((log + sent)[i] == later.chunk_frame(k));
                } else {
                    assert((log + sent)[i] == later.chunk_frame(next));
                }
            }
        },
        _ => {
            assert(log + sent =~= log);
            transfer_is_the_same(session, later, log);
            if let Stage::Waiting { first, end, .. } = session.stage {
                assert(chunk_frames(later, first, end) =~= chunk_frames(session, first, end));
                if let Stage::Sending { first: acked, .. } = later.stage {
                    assert(is_collected(later, log, acked));
                    assert(log.skip(log.len() as int) =~= chunk_frames(later, acked, acked));
                }
            }
        },
    }
}

proof fn run_keeps_course(session: Session, log: Seq<Frame>, events: Seq<Event<Frame>>)
    requires
        session.wf(),
        is_on_course(session, log),
    ensures
        run(session, events).wf(),
        run(session, events) == session.at(run(session, events).stage),
        is_on_course(run(session, events), log + bus_log(session, events)),
    decreases events.len(),
{
    if events.len() == 0 {
        assert(log + bus_log(session, events) =~= log);
    } else {
        let event = events.first();
        let sent = put_on_bus(session, event);
        step_keeps_course(session, log, event);
        run_keeps_course(session.after(event), log + sent, events.drop_first());
        assert(log + bus_log(session, events) =~= (log + sent) + bus_log(
            session.after(event),
            events.drop_first(),
        ));
    }
}

proof fn upload_keeps_course(
    sender: CanId,
    target: CanId,
    binary: Seq<u8>,
    window: nat,
    events: Seq<Event<Frame>>,
)
    ensures
        ({
            let start = Session::start(sender, target, binary, window);
            let now = run(start, events);
            &&& now.wf()
            &&& now == start.at(now.stage)
            &&& is_on_course(now, bus_log(start, events))
        }),
{
    let start = Session::start(sender, target, binary, window);
    run_keeps_course(start, seq![], events);
    assert(seq![] + bus_log(start, events) =~= bus_log(start, events));
}

/// An upload that succeeds delivers the binary: the header is on the bus, a receiver that takes
/// the chunks in order, and passes over those it has, gets all of them, and cut to the size in
/// the header they are exactly the bytes that were to be uploaded.
pub proof fn success_delivers_binary(
    sender: CanId,
    target: CanId,
    binary: Seq<u8>,
    window: nat,
    events: Seq<Event<Frame>>,
)
    requires
        run(Session::start(sender, target, binary, window), events).stage == Stage::Finished(
            Ok(()),
        ),
    ensures
        ({
            let start = Session::start(sender, target, binary, window);
            let log = bus_log(start, events);
            &&& log.len() > 0
            &&& log.first() == start.header_frame()
            &&& le_value(log.first().data.skip(4)) == binary.len()
            &&& collected(log.drop_first()) == joined(binary, chunks_in(binary.len()))
            &&& collected(log.drop_first()).len() == CHUNK_SIZE * chunks_in(binary.len())
            &&& received_binary(log) == binary
        }),
{
    let start = Session::start(sender, target, binary, window);
    let now = run(start, events);
    let log = bus_log(start, events);
    upload_keeps_course(sender, target, binary, window, events);
    if start.stage is Finished {
        finished_is_final(start, events);
    }
    let size = binary.len() as u32;
    assert(log.first() == now.header_frame());
    header_round_trip(target.number(), size);
    joined_is_padded_binary(binary, start.count());
    chunks_rebuild_binary(binary);
    let got = choose|got: nat|
        now.count() <= got <= now.count() && collected(log.drop_first()) == #[trigger] joined(
            now.binary,
            got,
        );
    assert(collected(log.drop_first()) == joined(binary, start.count()));
}

/// Whatever happens, the bus carries nothing but the transfer: the header first, and after it
/// only chunks of the binary.
pub proof fn bus_carries_only_the_transfer(
    sender: CanId,
    target: CanId,
    binary: Seq<u8>,
    window: nat,
    events: Seq<Event<Frame>>,
)
    ensures
        ({
            let start = Session::start(sender, target, binary, window);
            is_orderly(start, bus_log(start, events))
        }),
{
    let start = Session::start(sender, target, binary, window);
    upload_keeps_course(sender, target, binary, window, events);
    transfer_is_the_same(run(start, events), start, bus_log(start, events));
}

/// While the acknowledgement of a window is awaited, the last frames on the bus are all the chunks
/// of that window, in order: nothing is received before the whole window has been sent.
pub proof fn wait_follows_whole_window(
    sender: CanId,
    target: CanId,
    binary: Seq<u8>,
    window: nat,
    events: Seq<Event<Frame>>,
)
    ensures
        ({
            let start = Session::start(sender, target, binary, window);
            let now = run(start, events);
            let log = bus_log(start, events);
            match now.stage {
                Stage::Sent { first, end } => ends_with(log, chunk_frames(start, first, end)),
                Stage::Interrupted { first, end } => ends_with(
                    log,
                    chunk_frames(start, first, end),
                ),
                Stage::Waiting { first, end, .. } => ends_with(
                    log,
                    chunk_frames(start, first, end),
                ),
                _ => !(now.action() is StartClock || now.action() is ReadClock || now.action()
                    is Receive),
            }
        }),
{
    let start = Session::start(sender, target, binary, window);
    let now = run(start, events);
    let log = bus_log(start, events);
    upload_keeps_course(sender, target, binary, window, events);
    transfer_is_the_same(start, now, log);
}

/// The chunks of an upload that starts have different sequence numbers, each that of its place:
/// the numbers do not wrap around.
pub proof fn sequence_numbers_do_not_wrap(
    sender: CanId,
    target: CanId,
    binary: Seq<u8>,
    window: nat,
    k: nat,
)
    requires
        k < chunks_in(binary.len()),
        !(Session::start(sender, target, binary, window).stage is Finished),
    ensures
        ({
            let data = Session::start(sender, target, binary, window).chunk_frame(k).data;
            data.len() == 8 && le_value(data.take(2)) == k
        }),
{
    chunk_round_trip(k as u16, chunk_payload(binary, k));
}

/// The upload of an empty binary is the header and nothing else.
pub proof fn empty_binary_sends_only_header(
    sender: CanId,
    target: CanId,
    window: nat,
    events: Seq<Event<Frame>>,
)
    requires
        window > 0,
    ensures
        ({
            let start = Session::start(sender, target, seq![], window);
            &&& start.action() == Action::Transmit(start.header_frame())
            &&& start.after(Event::Transmitted).stage == Stage::Finished(Ok(()))
            &&& run(start, events).stage == Stage::Finished(Ok(())) ==> bus_log(start, events)
                == seq![start.header_frame()]
        }),
    decreases events.len(),
{
    let start = Session::start(sender, target, seq![], window);
    let log = bus_log(start, events);
    if events.len() > 0 {
        let event = events.first();
        if event is Transmitted || event is TransmitFailed {
            finished_is_final(start.after(event), events.drop_first());
            assert(event is Transmitted ==> log =~= seq![start.header_frame()]);
        } else {
            assert(start.after(event) == start);
            empty_binary_sends_only_header(sender, target, window, events.drop_first());
            assert(log =~= bus_log(start, events.drop_first()));
        }
    }
}

/// A bound on the answers that an upload still takes, frames of others not counted.
pub open spec fn steps_left(session: Session) -> int {
    let per_window = session.count() as int + 3;
    match session.stage {
        Stage::Header => session.count() * per_window + 1,
        Stage::Sending { first, next, .. } => (session.count() - first) * per_window - (next
            - first),
        Stage::Sent { first, end } => (session.count() - first) * per_window - (end - first),
        Stage::Interrupted { first, end } => (session.count() - first) * per_window - (end
            - first),
        Stage::Waiting { first, end, .. } => (session.count() - first) * per_window - (end
            - first) - 1,
        Stage::Finished(_) => 0,
    }
}

proof fn later_window_leaves_less(count: int, first: int, acked: int)
    by (nonlinear_arith)
    requires
        0 <= first < acked <= count,
    ensures
        0 <= (count - acked) * (count + 3),
        (count - acked) * (count + 3) + (count + 3) <= (count - first) * (count + 3),
{
}

/// Every answer brings an upload closer to its end, except a frame that the target did not send:
/// that one leaves the window as it was, and the clock is to be read again.
pub proof fn every_answer_makes_progress(session: Session, event: Event<Frame>)
    requires
        session.wf(),
        answers(session, event),
    ensures
        !is_unrelated(session, event) ==> 0 <= steps_left(session.after(event)) < steps_left(
            session,
        ),
        is_unrelated(session, event) ==> (session.stage matches Stage::Waiting { first, end, .. }
            && session.after(event) == session.at(Stage::Interrupted { first, end })),
        is_unrelated(session, event) ==> steps_left(session.after(event)) == steps_left(session)
            + 1,
{
    let later = session.after(event);
    let count = session.count() as int;
    let first = match session.stage {
        Stage::Sending { first, .. } => first as int,
        Stage::Sent { first, .. } => first as int,
        Stage::Interrupted { first, .. } => first as int,
        Stage::Waiting { first, .. } => first as int,
        _ => 0,
    };
    if first < count {
        later_window_leaves_less(count, first, count);
    }
    if let (Stage::Waiting { .. }, Stage::Sending { first: acked, .. }) = (
        session.stage,
        later.stage,
    ) {
        later_window_leaves_less(count, first, acked as int);
    }
}

/// How many of `events` are frames that the target did not send, before the upload is over.
pub open spec fn interruptions(session: Session, events: Seq<Event<Frame>>) -> nat
    decreases events.len(),
{
    if events.len() == 0 || session.stage is Finished {
        0
    } else {
        let rest = interruptions(session.after(events.first()), events.drop_first());
        if is_unrelated(session, events.first()) {
            rest + 1
        } else {
            rest
        }
    }
}

/// Each of `events` is as `expected` of the upload when it has come so far.
pub open spec fn all_along(
    session: Session,
    events: Seq<Event<Frame>>,
    expected: spec_fn(Session, Event<Frame>) -> bool,
) -> bool
    decreases events.len(),
{
    ||| events.len() == 0
    ||| expected(session, events.first()) && all_along(
        session.after(events.first()),
        events.drop_first(),
        expected,
    )
}

/// Each of `events` is an answer to the action that the upload has come to, until it is over.
pub open spec fn all_answer(session: Session, events: Seq<Event<Frame>>) -> bool {
    all_along(session, events, |s: Session, e: Event<Frame>| s.stage is Finished || answers(s, e))
}

/// An upload comes to an end: there is a bound on the answers it takes, if each frame that the
/// target did not send, and the reading of the clock after it, are allowed for.
pub proof fn upload_ends(session: Session, events: Seq<Event<Frame>>)
    requires
        session.wf(),
        all_answer(session, events),
        events.len() >= steps_left(session) + 2 * interruptions(session, events),
    ensures
        run(session, events).stage is Finished,
    decreases events.len(),
{
    if session.stage is Finished {
        finished_is_final(session, events);
    } else {
        if events.len() == 0 {
            nothing_left_means_finished(session);
        }
        every_answer_makes_progress(session, events.first());
        upload_ends(session.after(events.first()), events.drop_first());
    }
}

proof fn nothing_left_means_finished(session: Session)
    requires
        session.wf(),
        steps_left(session) <= 0,
    ensures
        session.stage is Finished,
{
    if session.stage is Header || session.stage is Sending {
        every_answer_makes_progress(session, Event::TransmitFailed);
    } else if session.stage is Sent || session.stage is Interrupted {
        every_answer_makes_progress(session, Event::Elapsed(0));
    } else if session.stage is Waiting {
        every_answer_makes_progress(session, Event::TimedOut);
    }
}

/// `event` is what a bus that carries every frame, and a target that acknowledges at least one
/// chunk of every window in time, answer to the action. Others may use the bus too.
pub open spec fn is_helpful(session: Session, event: Event<Frame>) -> bool {
    match session.stage {
        Stage::Header => event is Transmitted,
        Stage::Sending { .. } => event is Transmitted,
        Stage::Sent { .. } => event matches Event::Elapsed(nanos) && nanos <= ACK_TIMEOUT_NANOS,
        Stage::Interrupted { .. } => event matches Event::Elapsed(nanos) && nanos
            <= ACK_TIMEOUT_NANOS,
        Stage::Waiting { first, end, .. } => is_unrelated(session, event) || exists|next: u16|
            first < next <= end && event == Event::Received(
                Frame { id: session.target, data: #[trigger] ack_data(next) },
            ),
        Stage::Finished(_) => true,
    }
}

/// All of `events` are helpful.
pub open spec fn all_helpful(session: Session, events: Seq<Event<Frame>>) -> bool {
    all_along(session, events, |s: Session, e: Event<Frame>| is_helpful(s, e))
}

/// An upload that has not failed succeeds if the bus carries every frame and the target
/// acknowledges at least one chunk of every window in time, however few that are, and whatever
/// others put on the bus.
pub proof fn advancing_acks_lead_to_success(session: Session, events: Seq<Event<Frame>>)
    requires
        session.wf(),
        !(session.stage matches Stage::Finished(Err(_))),
        all_helpful(session, events),
        events.len() >= steps_left(session) + 2 * interruptions(session, events),
    ensures
        run(session, events).stage == Stage::Finished(Ok(())),
    decreases events.len(),
{
    if let Stage::Finished(outcome) = session.stage {
        finished_is_final(session, events);
        if let Ok(done) = outcome {
            assert(done == ());
        }
    } else {
        if events.len() == 0 {
            nothing_left_means_finished(session);
        }
        let event = events.first();
        if session.stage is Waiting && !is_unrelated(session, event) {
            let (first, end) = (session.stage->Waiting_first, session.stage->Waiting_end);
            let next = choose|next: u16|
                first < next <= end && event == Event::Received(
                    Frame { id: session.target, data: #[trigger] ack_data(next) },
                );
            ack_round_trip(ack_data(next), next);
        }
        every_answer_makes_progress(session, event);
        advancing_acks_lead_to_success(session.after(event), events.drop_first());
    }
}

/// `event` is helpful, and if the target acknowledges a window, then as a whole.
pub open spec fn is_cooperative(session: Session, event: Event<Frame>) -> bool {
    &&& is_helpful(session, event)
    &&& session.stage matches Stage::Waiting { end, .. } ==> is_unrelated(session, event) || event
        == Event::Received(Frame { id: session.target, data: ack_data(end as u16) })
}

/// All of `events` are cooperative.
pub open spec fn all_cooperative(session: Session, events: Seq<Event<Frame>>) -> bool {
    all_along(session, events, |s: Session, e: Event<Frame>| is_cooperative(s, e))
}

/// The frames that are still to come when everything goes well.
spec fn frames_left(session: Session) -> Seq<Frame> {
    match session.stage {
        Stage::Header => seq![session.header_frame()] + chunk_frames(session, 0, session.count()),
        Stage::Sending { next, .. } => chunk_frames(session, next, session.count()),
        Stage::Sent { end, .. } => chunk_frames(session, end, session.count()),
        Stage::Interrupted { end, .. } => chunk_frames(session, end, session.count()),
        Stage::Waiting { end, .. } => chunk_frames(session, end, session.count()),
        Stage::Finished(_) => seq![],
    }
}

proof fn cooperative_step(session: Session, event: Event<Frame>)
    requires
        session.wf(),
        !(session.stage is Finished),
        is_cooperative(session, event),
    ensures
        answers(session, event),
        !(session.after(event).stage matches Stage::Finished(Err(_))),
        frames_left(session) == put_on_bus(session, event) + frames_left(session.after(event)),
{
    let later = session.after(event);
    if let Stage::Waiting { end, .. } = session.stage {
        ack_round_trip(ack_data(end as u16), end as u16);
    }
    assert(frames_left(session) =~= put_on_bus(session, event) + frames_left(later));
}

proof fn cooperation_completes(session: Session, events: Seq<Event<Frame>>)
    requires
        session.wf(),
        !(session.stage matches Stage::Finished(Err(_))),
        all_cooperative(session, events),
        events.len() >= steps_left(session) + 2 * interruptions(session, events),
    ensures
        run(session, events).stage == Stage::Finished(Ok(())),
        bus_log(session, events) == frames_left(session),
    decreases events.len(),
{
    if session.stage is Finished {
        finished_is_final(session, events);
        assert(bus_log(session, events) =~= seq![]);
        if let Stage::Finished(Ok(done)) = session.stage {
            assert(done == ());
        }
    } else {
        if events.len() == 0 {
            nothing_left_means_finished(session);
        }
        let event = events.first();
        cooperative_step(session, event);
        every_answer_makes_progress(session, event);
        cooperation_completes(session.after(event), events.drop_first());
    }
}

/// With a bus that carries every frame, and a target that acknowledges every window as a whole
/// and in time, an upload with valid inputs succeeds, and what it puts on the bus is the header
/// and then every chunk once, in order.
pub proof fn cooperation_sends_every_chunk_once(
    sender: CanId,
    target: CanId,
    binary: Seq<u8>,
    window: nat,
    events: Seq<Event<Frame>>,
)
    requires
        window > 0,
        chunks_in(binary.len()) <= u16::MAX,
        all_cooperative(Session::start(sender, target, binary, window), events),
        events.len() >= steps_left(Session::start(sender, target, binary, window)) + 2
            * interruptions(Session::start(sender, target, binary, window), events),
    ensures
        ({
            let start = Session::start(sender, target, binary, window);
            &&& run(start, events).stage == Stage::Finished(Ok(()))
            &&& bus_log(start, events) == seq![start.header_frame()] + chunk_frames(
                start,
                0,
                start.count(),
            )
        }),
{
    cooperation_completes(Session::start(sender, target, binary, window), events);
}

/// A frame of the target is accepted if and only if it is the acknowledgement of at least one
/// chunk of the window and of none after it. The next window then starts at the chunk that it
/// names; otherwise the upload fails.
pub proof fn ack_must_advance_within_window(
    session: Session,
    first: nat,
    end: nat,
    timeout: u64,
    data: Seq<u8>,
)
    requires
        session.wf(),
        session.stage == (Stage::Waiting { first, end, timeout }),
    ensures
        forall|next: u16|
            first < next <= end && data == #[trigger] ack_data(next) ==> session.after(
                Event::Received(Frame { id: session.target, data }),
            ) == session.resume_at(next as nat),
        (forall|next: u16| first < next <= end ==> data != #[trigger] ack_data(next)) ==> session.after(
            Event::Received(Frame { id: session.target, data }),
        ) == session.fail(UploadError::InvalidAcknowledgement),
{
    assert forall|next: u16| data == #[trigger] ack_data(next) implies ack_next(data) == Some(
        next,
    ) by {
        ack_round_trip(data, next);
    }
    if let Some(next) = ack_next(data) {
        ack_round_trip(data, next);
    }
}

/// Chunk `next` and the rest of its window go out in order, and nothing else with them.
proof fn window_goes_out_in_order(session: Session, first: nat, next: nat, end: nat)
    requires
        session.wf(),
        session.stage == (Stage::Sending { first, next, end }),
    ensures
        run(session, transmissions((end - next) as nat)) == session.at(Stage::Sent { first, end }),
        bus_log(session, transmissions((end - next) as nat)) == chunk_frames(session, next, end),
    decreases end - next,
{
    let events = transmissions((end - next) as nat);
    let later = session.after(Event::Transmitted);
    assert(events.first() == Event::<Frame>::Transmitted);
    assert(events.drop_first() =~= transmissions((end - next - 1) as nat));
    assert(run(session, events) == run(later, events.drop_first()));
    if next + 1 < end {
        window_goes_out_in_order(later, first, next + 1, end);
        assert(later.at(Stage::Sent { first, end }) == session.at(Stage::Sent { first, end }));
    } else {
        assert(run(later, events.drop_first()) == later);
    }
    assert(bus_log(later, events.drop_first()) =~= chunk_frames(session, next + 1, end));
    assert(bus_log(session, events) == seq![session.chunk_frame(next)] + bus_log(
        later,
        events.drop_first(),
    ));
    assert(bus_log(session, events) =~= chunk_frames(session, next, end));
}

/// `n` frames are put on the bus, one after the other.
pub open spec fn transmissions(n: nat) -> Seq<Event<Frame>> {
    Seq::new(n, |i: int| Event::Transmitted)
}

/// After an acknowledgement that names chunk `next` of the window, the chunks from there on are
/// transmitted, those of the old window again, up to the end of the window that starts there.
pub proof fn partial_ack_retransmits_the_rest(
    session: Session,
    first: nat,
    end: nat,
    timeout: u64,
    next: u16,
)
    requires
        session.wf(),
        session.stage == (Stage::Waiting { first, end, timeout }),
        first < next <= end,
        next < session.count(),
    ensures
        ({
            let acked = session.after(
                Event::Received(Frame { id: session.target, data: ack_data(next) }),
            );
            let new_end = session.window_end(next as nat);
            let events = transmissions((new_end - next) as nat);
            &&& end <= new_end
            &&& run(acked, events) == session.at(Stage::Sent { first: next as nat, end: new_end })
            &&& bus_log(acked, events) == chunk_frames(session, next as nat, new_end)
        }),
{
    ack_round_trip(ack_data(next), next);
    let acked = session.resume_at(next as nat);
    let new_end = session.window_end(next as nat);
    window_goes_out_in_order(acked, next as nat, next as nat, new_end);
    assert(chunk_frames(acked, next as nat, new_end) =~= chunk_frames(
        session,
        next as nat,
        new_end,
    ));
}

/// A frame that the target did not send does not restart the clock: the time that is left until
/// the deadline is what is left of the time for the whole window, so the waits for one
/// acknowledgement never grow longer.
pub proof fn unrelated_frames_keep_deadline(
    session: Session,
    first: nat,
    end: nat,
    earlier: u128,
    frame: Frame,
    nanos: u128,
)
    requires
        session.wf(),
        session.stage == (Stage::Sent { first, end }) || session.stage == (Stage::Interrupted {
            first,
            end,
        }),
        earlier <= nanos,
        earlier <= ACK_TIMEOUT_NANOS,
        frame.id != session.target,
    ensures
        ({
            let waiting = session.after(Event::Elapsed(earlier));
            let again = waiting.after(Event::Received(frame));
            let later = again.after(Event::Elapsed(nanos));
            &&& waiting.action() == Action::<Frame>::Receive((ACK_TIMEOUT_NANOS - earlier) as u64)
            &&& again.action() == Action::<Frame>::ReadClock
            &&& later.action() == (if nanos <= ACK_TIMEOUT_NANOS {
                Action::<Frame>::Receive((ACK_TIMEOUT_NANOS - nanos) as u64)
            } else {
                Action::Finish(Err(UploadError::AcknowledgementTimeout))
            })
            &&& waiting.action() matches Action::Receive(first_wait) && (later.action() matches
                Action::Receive(next_wait) ==> next_wait <= first_wait)
        }),
{
}

/// A failure of the bus, or a receiver that stays silent, ends the upload with the error that
/// belongs to it, and nothing more is put on the bus.
pub proof fn failures_abort_upload(
    session: Session,
    event: Event<Frame>,
    events: Seq<Event<Frame>>,
)
    requires
        session.wf(),
        answers(session, event),
        event is TransmitFailed || event is TimedOut || event is ReceiveFailed,
    ensures
        run(session, seq![event] + events) == session.fail(
            match event {
                Event::TransmitFailed => UploadError::Transmit,
                Event::TimedOut => UploadError::AcknowledgementTimeout,
                _ => UploadError::Receive,
            },
        ),
        bus_log(session, seq![event] + events).len() == 0,
{
    let all = seq![event] + events;
    assert(all.drop_first() =~= events);
    finished_is_final(session.after(event), events);
}

} // verus!
