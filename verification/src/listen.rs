//! The listen loop as a state machine.
//!
//! The program that owns the connection performs one action at a time and
//! reports what came of it; `step` decides what happens next. Reading a
//! frame, writing an acknowledgment and running a handler are the program's
//! work. Which of them is due, and when the loop ends, is decided here.

use crate::client::{ack_text, decode_envelope, SlackEnvelope};
use crate::event_handler::{names, EventHandler};
use vstd::prelude::*;

verus! {

/// What one read of the inbound source gave.
#[derive(Debug)]
pub enum Inbound {
    /// A text frame.
    Text(String),
    /// A frame of any other kind.
    Other,
    /// The transport reported an error.
    Failed,
    /// The source yielded nothing: the stream has ended.
    Closed,
}

/// Why the loop ended.
#[derive(Debug, Clone, Copy, PartialEq, Eq, Structural)]
pub enum ListenError {
    /// There is no connection to listen on.
    NotConnected,
    /// An acknowledgment could not be written.
    AckFailed,
    /// An event was reported that the loop was not waiting for.
    OutOfTurn,
}

/// Where the loop stands.
#[derive(Debug)]
pub enum ListenState {
    /// Waiting for the next inbound frame.
    Reading,
    /// Waiting for the acknowledgment of this envelope to be written.
    Acknowledging(SlackEnvelope),
    /// Waiting for a handler of this envelope to finish; the predicates from
    /// the given index on have not been tested yet.
    Dispatching(SlackEnvelope, usize),
    /// The loop has ended.
    Terminated(ListenError),
}

/// What the program reports to the loop.
#[derive(Debug)]
pub enum ListenEvent {
    /// A read of the inbound source returned.
    Frame(Inbound),
    /// The acknowledgment was written to the outbound sink.
    AckWritten,
    /// Writing the acknowledgment failed.
    AckFailed,
    /// The handler that was started has run to its end.
    HandlerDone,
}

/// What the program is to do next.
#[derive(Debug, PartialEq, Eq)]
pub enum ListenAction {
    /// Read the next inbound frame.
    Read,
    /// Write this text frame to the outbound sink.
    SendAck(String),
    /// Run the handler registered at this index on the envelope of the
    /// current state, to its end.
    Run(usize),
    /// Leave the loop with this error.
    Exit(ListenError),
}

/// The outcome of looking for the next handler of `e` among the pairs from
/// `from` on: the first pair whose predicate accepts is run, and where none
/// accepts the loop goes back to reading.
pub open spec fn dispatched<P: Fn(&SlackEnvelope) -> bool, H>(
    handlers: &EventHandler<P, H>,
    e: SlackEnvelope,
    from: int,
    next: ListenState,
    action: ListenAction,
) -> bool {
    ||| exists|k: usize|
        {
            &&& handlers.is_next(e, from, Some(k))
            &&& next == ListenState::Dispatching(e, (k + 1) as usize)
            &&& action == ListenAction::Run(k)
        }
    ||| {
        &&& handlers.is_next(e, from, None)
        &&& next == ListenState::Reading
        &&& action == ListenAction::Read
    }
}

/// The transitions of the loop: from `state`, on `event`, to `next` with
/// `action`.
///
/// - A text frame that decodes to an envelope is acknowledged at once, by
///   the envelope's own id. Every other read leaves the loop reading: a
///   frame that is no envelope is dropped, a transport error and the end of
///   the stream do not end the loop.
/// - Once the acknowledgment is written the handlers run, one at a time, in
///   registration order. A failed write ends the loop.
/// - An event that the state does not wait for ends the loop, and an ended
///   loop stays ended.
pub open spec fn steps<P: Fn(&SlackEnvelope) -> bool, H>(
    handlers: &EventHandler<P, H>,
    state: ListenState,
    event: ListenEvent,
    next: ListenState,
    action: ListenAction,
) -> bool {
    match (state, event) {
        (ListenState::Reading, ListenEvent::Frame(Inbound::Text(text))) => match decode_envelope(
            text@,
        ) {
            Some(v) => {
                &&& next matches ListenState::Acknowledging(e)
                &&& e@ == v
                &&& action matches ListenAction::SendAck(reply)
                &&& reply@ == ack_text(v.envelope_id)
            },
            None => next == ListenState::Reading && action == ListenAction::Read,
        },
        (ListenState::Reading, ListenEvent::Frame(_)) => {
            next == ListenState::Reading && action == ListenAction::Read
        },
        (ListenState::Acknowledging(e), ListenEvent::AckWritten) => dispatched(
            handlers,
            e,
            0,
            next,
            action,
        ),
        (ListenState::Acknowledging(_), ListenEvent::AckFailed) => {
            &&& next == ListenState::Terminated(ListenError::AckFailed)
            &&& action == ListenAction::Exit(ListenError::AckFailed)
        },
        (ListenState::Dispatching(e, from), ListenEvent::HandlerDone) => dispatched(
            handlers,
            e,
            from as int,
            next,
            action,
        ),
        (ListenState::Terminated(error), _) => {
            next == state && action == ListenAction::Exit(error)
        },
        _ => {
            &&& next == ListenState::Terminated(ListenError::OutOfTurn)
            &&& action == ListenAction::Exit(ListenError::OutOfTurn)
        },
    }
}

impl ListenError {
    /// The error in words.
    pub fn message(&self) -> (r: String)
        ensures
            r@ == match *self {
                ListenError::NotConnected => "WSS is not connected"@,
                ListenError::AckFailed => "WebSocket acknowledgment could not be sent"@,
                ListenError::OutOfTurn => "WSS event out of turn"@,
            },
    {
        match self {
            ListenError::NotConnected => "WSS is not connected".to_owned(),
            ListenError::AckFailed => "WebSocket acknowledgment could not be sent".to_owned(),
            ListenError::OutOfTurn => "WSS event out of turn".to_owned(),
        }
    }
}

impl ListenState {
    /// The envelope that is being acknowledged or handled.
    pub fn envelope(&self) -> (r: Option<&SlackEnvelope>)
        ensures
            r == match *self {
                ListenState::Acknowledging(e) => Some(&e),
                ListenState::Dispatching(e, _) => Some(&e),
                _ => None,
            },
    {
        match self {
            ListenState::Acknowledging(e) => Some(e),
            ListenState::Dispatching(e, _) => Some(e),
            _ => None,
        }
    }
}

/// Enters the loop: with a connection the first frame is read, without one
/// the loop ends before it began.
pub fn begin(connected: bool) -> (r: (ListenState, ListenAction))
    ensures
        connected ==> r.0 == ListenState::Reading && r.1 == ListenAction::Read,
        !connected ==> r.0 == ListenState::Terminated(ListenError::NotConnected) && r.1
            == ListenAction::Exit(ListenError::NotConnected),
{
    if connected {
        (ListenState::Reading, ListenAction::Read)
    } else {
        (
            ListenState::Terminated(ListenError::NotConnected),
            ListenAction::Exit(ListenError::NotConnected),
        )
    }
}

/// Looks for the next handler of `envelope` among the pairs from `from` on.
fn dispatch<P: Fn(&SlackEnvelope) -> bool, H>(
    handlers: &EventHandler<P, H>,
    envelope: SlackEnvelope,
    from: usize,
) -> (r: (ListenState, ListenAction))
    ensures
        dispatched(handlers, envelope, from as int, r.0, r.1),
{
    match handlers.next_match(&envelope, from) {
        Some(k) => {
            proof {
                handlers.lemma_count_fits();
            }
            (ListenState::Dispatching(envelope, k + 1), ListenAction::Run(k))
        },
        None => (ListenState::Reading, ListenAction::Read),
    }
}

/// Takes the loop one step: from `state`, on `event`, to the state and the
/// action returned.
pub fn step<P: Fn(&SlackEnvelope) -> bool, H>(
    handlers: &EventHandler<P, H>,
    state: ListenState,
    event: ListenEvent,
) -> (r: (ListenState, ListenAction))
    ensures
        steps(handlers, state, event, r.0, r.1),
{
    match (state, event) {
        (ListenState::Reading, ListenEvent::Frame(Inbound::Text(text))) => {
            match SlackEnvelope::parse(text.as_str()) {
                Some(envelope) => {
                    let reply = envelope.acknowledgment();
                    (ListenState::Acknowledging(envelope), ListenAction::SendAck(reply))
                },
                None => (ListenState::Reading, ListenAction::Read),
            }
        },
        (ListenState::Reading, ListenEvent::Frame(_)) => (ListenState::Reading, ListenAction::Read),
        (ListenState::Acknowledging(envelope), ListenEvent::AckWritten) => dispatch(
            handlers,
            envelope,
            0,
        ),
        (ListenState::Acknowledging(_), ListenEvent::AckFailed) => (
            ListenState::Terminated(ListenError::AckFailed),
            ListenAction::Exit(ListenError::AckFailed),
        ),
        (ListenState::Dispatching(envelope, from), ListenEvent::HandlerDone) => dispatch(
            handlers,
            envelope,
            from,
        ),
        (ListenState::Terminated(error), _) => (
            ListenState::Terminated(error),
            ListenAction::Exit(error),
        ),
        _ => (
            ListenState::Terminated(ListenError::OutOfTurn),
            ListenAction::Exit(ListenError::OutOfTurn),
        ),
    }
}

/// One step of a run, as it was taken.
pub struct Transition {
    pub state: ListenState,
    pub event: ListenEvent,
    pub next: ListenState,
    pub action: ListenAction,
}

/// `run` is a run of the loop over `handlers`: it starts reading, every step
/// is a transition of the loop, and each step starts where the one before it
/// ended.
pub open spec fn is_run<P: Fn(&SlackEnvelope) -> bool, H>(
    handlers: &EventHandler<P, H>,
    run: Seq<Transition>,
) -> bool {
    &&& run.len() > 0 ==> run[0].state == ListenState::Reading
    &&& forall|i: int|
        0 <= i < run.len() ==> steps(
            handlers,
            (#[trigger] run[i]).state,
            run[i].event,
            run[i].next,
            run[i].action,
        )
    &&& forall|i: int| 0 < i < run.len() ==> (#[trigger] run[i]).state == run[i - 1].next
}

/// The envelope that a state holds.
pub open spec fn held(state: ListenState) -> Option<SlackEnvelope> {
    match state {
        ListenState::Acknowledging(e) => Some(e),
        ListenState::Dispatching(e, _) => Some(e),
        _ => None,
    }
}

/// Step `j` of `run` read the frame of `e` and sent its acknowledgment, and
/// every step after it up to step `i` started a handler of `e`.
pub open spec fn acknowledged_at(run: Seq<Transition>, j: int, i: int, e: SlackEnvelope) -> bool {
    &&& 0 <= j <= i < run.len()
    &&& run[j].state == ListenState::Reading
    &&& run[j].event matches ListenEvent::Frame(Inbound::Text(text))
    &&& decode_envelope(text@) == Some(e@)
    &&& run[j].action matches ListenAction::SendAck(reply)
    &&& reply@ == ack_text(e@.envelope_id)
    &&& run[j].next == ListenState::Acknowledging(e)
    &&& forall|m: int|
        j < m <= i ==> (#[trigger] run[m]).action is Run && run[m].next is Dispatching && held(
            run[m].next,
        ) == Some(e)
}

/// A read that gives no envelope changes nothing: a frame that is not text,
/// or whose text does not decode, a transport error and the end of the
/// stream are answered by the next read, with no acknowledgment, no handler
/// and no end of the loop.
pub proof fn lemma_no_envelope_no_effect<P: Fn(&SlackEnvelope) -> bool, H>(
    handlers: &EventHandler<P, H>,
    frame: Inbound,
    next: ListenState,
    action: ListenAction,
)
    requires
        steps(handlers, ListenState::Reading, ListenEvent::Frame(frame), next, action),
        frame matches Inbound::Text(text) ==> decode_envelope(text@) is None,
    ensures
        next == ListenState::Reading,
        action == ListenAction::Read,
{
}

/// An acknowledgment is sent in one situation only: a text frame was read
/// and decoded to an envelope. It carries that envelope's id, and the loop
/// then waits for the write.
pub proof fn lemma_ack_answers_envelope<P: Fn(&SlackEnvelope) -> bool, H>(
    handlers: &EventHandler<P, H>,
    state: ListenState,
    event: ListenEvent,
    next: ListenState,
    action: ListenAction,
)
    requires
        steps(handlers, state, event, next, action),
    ensures
        action is SendAck <==> state == ListenState::Reading && (event matches ListenEvent::Frame(
            Inbound::Text(text),
        ) && decode_envelope(text@) is Some),
        action matches ListenAction::SendAck(reply) ==> next matches ListenState::Acknowledging(e)
            && reply@ == ack_text(e@.envelope_id),
        next is Acknowledging ==> action is SendAck,
{
}

/// A handler is started only when the acknowledgment has been written or the
/// handler before it has finished, and only for the envelope that the loop
/// already held; its index is not below the index that the state had
/// reached.
pub proof fn lemma_run_follows_ack<P: Fn(&SlackEnvelope) -> bool, H>(
    handlers: &EventHandler<P, H>,
    state: ListenState,
    event: ListenEvent,
    next: ListenState,
    action: ListenAction,
)
    requires
        steps(handlers, state, event, next, action),
        action is Run,
    ensures
        (state is Acknowledging && event is AckWritten) || (state is Dispatching && event
            is HandlerDone),
        held(next) == held(state),
        action matches ListenAction::Run(k) ==> {
            &&& handlers.accepts(k as int, held(state)->0)
            &&& next == ListenState::Dispatching(held(state)->0, (k + 1) as usize)
            &&& state matches ListenState::Dispatching(_, from) ==> from <= k
        },
{
}

/// The next frame is read only when nothing is pending: a frame was dropped,
/// or the acknowledgment of the envelope was written and the last of its
/// handlers has finished. The loop then holds no envelope.
pub proof fn lemma_read_when_idle<P: Fn(&SlackEnvelope) -> bool, H>(
    handlers: &EventHandler<P, H>,
    state: ListenState,
    event: ListenEvent,
    next: ListenState,
    action: ListenAction,
)
    requires
        steps(handlers, state, event, next, action),
    ensures
        action == ListenAction::Read <==> next == ListenState::Reading,
        action == ListenAction::Read ==> {
            ||| state == ListenState::Reading && event is Frame
            ||| state is Acknowledging && event is AckWritten
            ||| state is Dispatching && event is HandlerDone
        },
        action is Exit <==> next is Terminated,
{
}

/// Whenever a run holds an envelope, it has acknowledged it: one earlier
/// step read the envelope's frame and sent the acknowledgment, and nothing
/// but handlers of that envelope came after.
proof fn lemma_held_was_acknowledged<P: Fn(&SlackEnvelope) -> bool, H>(
    handlers: &EventHandler<P, H>,
    run: Seq<Transition>,
    i: int,
) -> (j: int)
    requires
        is_run(handlers, run),
        0 <= i < run.len(),
        held(run[i].next) is Some,
    ensures
        acknowledged_at(run, j, i, held(run[i].next)->0),
    decreases i,
{
    let t = run[i];
    assert(steps(handlers, t.state, t.event, t.next, t.action));
    if t.state == ListenState::Reading {
        i
    } else {
        assert(i > 0);
        assert(t.state == run[i - 1].next);
        assert(held(t.state) is Some);
        let j = lemma_held_was_acknowledged(handlers, run, i - 1);
        assert(held(t.next) == held(t.state));
        j
    }
}

/// In every run, a handler is started for an envelope only after the
/// acknowledgment of that envelope was sent, and between that
/// acknowledgment and the handler nothing happened but handlers of the same
/// envelope: one frame, one acknowledgment, then its handlers.
pub proof fn lemma_acknowledged_before_handled<P: Fn(&SlackEnvelope) -> bool, H>(
    handlers: &EventHandler<P, H>,
    run: Seq<Transition>,
    i: int,
)
    requires
        is_run(handlers, run),
        0 <= i < run.len(),
        run[i].action is Run,
    ensures
        held(run[i].next) is Some,
        exists|j: int| 0 <= j < i && acknowledged_at(run, j, i, held(run[i].next)->0),
{
    let t = run[i];
    assert(steps(handlers, t.state, t.event, t.next, t.action));
    let j = lemma_held_was_acknowledged(handlers, run, i);
    assert(j < i);
}

/// The handlers that `run` started in the steps after `j` up to `i`, in the
/// order in which it started them.
pub open spec fn started(run: Seq<Transition>, j: int, i: int) -> Seq<usize> {
    Seq::new((i - j) as nat, |m: int| run[j + 1 + m].action->Run_0)
}

/// The index from which a state goes on testing predicates.
pub open spec fn reached(state: ListenState) -> int {
    match state {
        ListenState::Dispatching(_, from) => from as int,
        _ => 0,
    }
}

/// While a run handles an envelope, the handlers it has started are a
/// dispatch of the envelope over the pairs that it has tested so far.
proof fn lemma_started_so_far<P: Fn(&SlackEnvelope) -> bool, H>(
    handlers: &EventHandler<P, H>,
    run: Seq<Transition>,
    j: int,
    i: int,
    e: SlackEnvelope,
)
    requires
        is_run(handlers, run),
        acknowledged_at(run, j, i, e),
    ensures
        0 <= reached(run[i].next) <= handlers.count(),
        handlers.is_plan_of(e, reached(run[i].next), started(run, j, i)),
    decreases i - j,
{
    if i > j {
        lemma_started_so_far(handlers, run, j, i - 1, e);
        handlers.lemma_count_fits();
        let t = run[i];
        let before = started(run, j, i - 1);
        let now = started(run, j, i);
        let from = reached(run[i - 1].next);
        assert(t.state == run[i - 1].next);
        assert(steps(handlers, t.state, t.event, t.next, t.action));
        assert(held(t.state) == Some(e)) by {
            if i - 1 > j {
                assert(run[i - 1].next is Dispatching);
            }
        }
        assert(dispatched(handlers, e, from, t.next, t.action));
        let k = t.action->Run_0;
        assert(handlers.is_next(e, from, Some(k)));
        assert(now =~= before.push(k));
        assert forall|n: int| 0 <= n < k + 1 implies handlers.rejects(n, e) || names(now, n) by {
            if n < from {
                if names(before, n) {
                    let m = choose|m: int| 0 <= m < before.len() && #[trigger] before[m] == n;
                    assert(now[m] == n);
                }
            } else if n == k {
                assert(now[before.len() as int] == n);
            }
        }
    } else {
        assert(started(run, j, i) =~= Seq::<usize>::empty());
    }
}

/// The handlers that a run starts for one envelope are a dispatch of it:
/// from the acknowledgment at step `j` to the step after `i`, in which the
/// loop goes back to reading, the run started the handlers of the pairs
/// whose predicate accepted the envelope, in registration order and each
/// once, and each only when the one before it had finished.
pub proof fn lemma_handlers_run_in_order<P: Fn(&SlackEnvelope) -> bool, H>(
    handlers: &EventHandler<P, H>,
    run: Seq<Transition>,
    j: int,
    i: int,
    e: SlackEnvelope,
)
    requires
        is_run(handlers, run),
        acknowledged_at(run, j, i, e),
        i + 1 < run.len(),
        run[i + 1].action == ListenAction::Read,
    ensures
        handlers.is_plan(e, started(run, j, i)),
        forall|m: int| j + 1 < m <= i ==> (#[trigger] run[m]).event is HandlerDone,
{
    lemma_started_so_far(handlers, run, j, i, e);
    let t = run[i + 1];
    assert(t.state == run[i].next);
    assert(steps(handlers, t.state, t.event, t.next, t.action));
    assert(held(t.state) == Some(e)) by {
        if i > j {
            assert(run[i].next is Dispatching);
        }
    }
    assert(dispatched(handlers, e, reached(t.state), t.next, t.action));
    assert forall|m: int| j + 1 < m <= i implies (#[trigger] run[m]).event is HandlerDone by {
        let u = run[m];
        assert(u.state == run[m - 1].next);
        assert(run[m - 1].next is Dispatching);
        assert(steps(handlers, u.state, u.event, u.next, u.action));
    }
}

} // verus!
