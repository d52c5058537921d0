//! Incremental delivery of a finished answer.
//!
//! A message is cut into chunks of at most `CHUNK_CHARS` Unicode scalar values.
//! Each chunk travels in one `StreamEvent`; only the last one is marked final
//! and carries the session identifier. An empty message still yields one
//! (empty, final) event, so that every stream ends with exactly one final
//! event. A `StreamEmitter` hands the events out one by one and stops for good
//! once it has been cancelled.

use vstd::prelude::*;
use crate::text::{chars_of, clone_text, substring};

verus! {

/// The greatest number of characters that one event carries.
pub const CHUNK_CHARS: usize = 32;

/// One unit delivered to the subscriber of a request.
#[derive(Clone, Debug, PartialEq, Eq)]
pub struct StreamEvent {
    /// The request that this event belongs to.
    pub request_id: String,
    /// The text that this event adds.
    pub delta: String,
    /// Whether this is the last event of the request.
    pub is_final: bool,
    /// The session identifier; only the final event may carry one.
    pub codeagent_session_id: Option<String>,
}

/// The mathematical content of a `StreamEvent`.
pub struct StreamEventView {
    pub request_id: Seq<char>,
    pub delta: Seq<char>,
    pub is_final: bool,
    pub session_id: Option<Seq<char>>,
}

impl View for StreamEvent {
    type V = StreamEventView;

    open spec fn view(&self) -> StreamEventView {
        StreamEventView {
            request_id: self.request_id@,
            delta: self.delta@,
            is_final: self.is_final,
            session_id: self.codeagent_session_id.deep_view(),
        }
    }
}

/// The number of events that a message of `len` characters is delivered in:
/// `len / 32` rounded up, and one for the empty message.
pub open spec fn event_count(len: nat) -> nat {
    if len == 0 {
        1
    } else {
        ((len + 31) / 32) as nat
    }
}

/// The text carried by event number `i` of `message`.
pub open spec fn delta_at(message: Seq<char>, i: int) -> Seq<char> {
    let lo = 32 * i;
    let hi = if lo + 32 < message.len() {
        lo + 32
    } else {
        message.len() as int
    };
    message.subrange(lo, hi)
}

/// Event number `i` of the stream that delivers `message`.
pub open spec fn event_at(
    request_id: Seq<char>,
    message: Seq<char>,
    session_id: Option<Seq<char>>,
    i: int,
) -> StreamEventView {
    let last = i + 1 == event_count(message.len());
    StreamEventView {
        request_id,
        delta: delta_at(message, i),
        is_final: last,
        session_id: if last {
            session_id
        } else {
            None
        },
    }
}

/// The whole stream that delivers `message`, in emission order.
pub open spec fn event_stream(
    request_id: Seq<char>,
    message: Seq<char>,
    session_id: Option<Seq<char>>,
) -> Seq<StreamEventView> {
    Seq::new(event_count(message.len()), |i: int| event_at(request_id, message, session_id, i))
}

/// The deltas of `events`, joined in order.
pub open spec fn joined_deltas(events: Seq<StreamEventView>) -> Seq<char>
    decreases events.len(),
{
    if events.len() == 0 {
        Seq::empty()
    } else {
        joined_deltas(events.drop_last()) + events.last().delta
    }
}

/// The number of events of `events` that are marked final.
pub open spec fn final_count(events: Seq<StreamEventView>) -> nat
    decreases events.len(),
{
    if events.len() == 0 {
        0
    } else {
        final_count(events.drop_last()) + if events.last().is_final {
            1nat
        } else {
            0nat
        }
    }
}

/// The one event that reports a request that failed before any text could be
/// streamed: it is final, carries `message` and no session identifier.
pub fn error_event(request_id: &str, message: &str) -> (event: StreamEvent)
    ensures
        event@ == (StreamEventView {
            request_id: request_id@,
            delta: message@,
            is_final: true,
            session_id: None,
        }),
{
    StreamEvent {
        request_id: request_id.to_owned(),
        delta: message.to_owned(),
        is_final: true,
        codeagent_session_id: None,
    }
}

/// Where an emitter stands: the stream it delivers, how many of its events it
/// has handed out, and whether it has been cancelled.
pub struct EmitterState {
    pub request_id: Seq<char>,
    pub message: Seq<char>,
    pub session_id: Option<Seq<char>>,
    pub emitted: nat,
    pub cancelled: bool,
}

impl EmitterState {
    /// No event is left to hand out.
    pub open spec fn finished(self) -> bool {
        self.emitted >= event_count(self.message.len())
    }

    /// The state after one request for the next event, and the event handed
    /// out by it. A cancelled or finished emitter hands out nothing and stays
    /// as it is.
    pub open spec fn step(self) -> (EmitterState, Option<StreamEventView>) {
        if self.cancelled || self.finished() {
            (self, None)
        } else {
            (
                EmitterState { emitted: self.emitted + 1, ..self },
                Some(event_at(self.request_id, self.message, self.session_id, self.emitted as int)),
            )
        }
    }

    /// The state after a request to cancel.
    pub open spec fn cancel(self) -> EmitterState {
        EmitterState { cancelled: true, ..self }
    }
}

/// Hands out the events of one stream, one per call, until it is finished or
/// cancelled.
pub struct StreamEmitter {
    request_id: String,
    chars: Vec<char>,
    session_id: Option<String>,
    pos: usize,
    done: bool,
    cancelled: bool,
}

impl StreamEmitter {
    /// The fields describe a position between two chunks of the message.
    pub closed spec fn wf(&self) -> bool {
        &&& self.pos <= self.chars.len()
        &&& self.done ==> self.pos == self.chars.len()
        &&& !self.done ==> self.pos % 32 == 0 && (self.pos < self.chars.len() || self.chars.len()
            == 0)
    }

    /// Where the emitter stands.
    pub closed spec fn state(&self) -> EmitterState {
        EmitterState {
            request_id: self.request_id@,
            message: self.chars@,
            session_id: self.session_id.deep_view(),
            emitted: if self.done {
                event_count(self.chars@.len())
            } else {
                (self.pos / 32) as nat
            },
            cancelled: self.cancelled,
        }
    }

    /// An emitter at the start of the stream that delivers `message`.
    pub fn new(request_id: String, message: &str, session_id: Option<String>) -> (emitter: Self)
        ensures
            emitter.wf(),
            emitter.state() == (EmitterState {
                request_id: request_id@,
                message: message@,
                session_id: session_id.deep_view(),
                emitted: 0,
                cancelled: false,
            }),
    {
        StreamEmitter {
            request_id,
            chars: chars_of(message),
            session_id,
            pos: 0,
            done: false,
            cancelled: false,
        }
    }

    /// Stops the stream: no later call hands out an event.
    pub fn cancel(&mut self)
        requires
            old(self).wf(),
        ensures
            final(self).wf(),
            final(self).state() == old(self).state().cancel(),
    {
        self.cancelled = true;
    }

    /// Whether the stream has been cancelled.
    pub fn is_cancelled(&self) -> (b: bool)
        ensures
            b == self.state().cancelled,
    {
        self.cancelled
    }

    /// Whether every event has been handed out.
    pub fn is_finished(&self) -> (b: bool)
        requires
            self.wf(),
        ensures
            b == self.state().finished(),
    {
        proof {
            lemma_chunk_index(self.chars@.len(), self.pos as nat);
        }
        self.done
    }

    /// Hands out the next event of the stream, or nothing once the stream is
    /// finished or cancelled.
    pub fn next_event(&mut self) -> (event: Option<StreamEvent>)
        requires
            old(self).wf(),
        ensures
            final(self).wf(),
            final(self).state() == old(self).state().step().0,
            match event {
                Some(e) => old(self).state().step().1 == Some(e@),
                None => old(self).state().step().1 is None,
            },
    {
        proof {
            lemma_chunk_index(self.chars@.len(), self.pos as nat);
        }
        if self.cancelled || self.done {
            return None;
        }
        let len = self.chars.len();
        let lo = self.pos;
        let hi = if len - lo > CHUNK_CHARS {
            lo + CHUNK_CHARS
        } else {
            len
        };
        let is_last = hi == len;
        let delta = substring(&self.chars, lo, hi);
        let session = if is_last {
            clone_text(&self.session_id)
        } else {
            None
        };
        let event = StreamEvent {
            request_id: self.request_id.clone(),
            delta,
            is_final: is_last,
            codeagent_session_id: session,
        };
        self.pos = hi;
        self.done = is_last;
        proof {
            lemma_chunk_index(self.chars@.len(), hi as nat);
        }
        Some(event)
    }
}

/// A position `pos` between two chunks of a message of `len` characters lies
/// before the last chunk's end exactly if fewer than all events precede it.
proof fn lemma_chunk_index(len: nat, pos: nat)
    requires
        pos <= len,
    ensures
        pos % 32 == 0 ==> 32 * (pos / 32) == pos,
        pos % 32 == 0 && pos < len ==> pos / 32 < event_count(len),
        pos % 32 == 0 && pos < len && pos + 32 >= len ==> pos / 32 + 1 == event_count(len),
        pos % 32 == 0 && pos + 32 < len ==> pos / 32 + 1 < event_count(len),
        pos % 32 == 0 && pos + 32 < len ==> (pos + 32) / 32 == pos / 32 + 1 && (pos + 32) % 32
            == 0,
        len == 0 ==> event_count(len) == 1,
{
}

/// Cuts `message` into its stream of events, all at once.
pub fn stream_events(request_id: &str, message: &str, session_id: Option<String>) -> (events: Vec<
    StreamEvent,
>)
    ensures
        events@.len() == event_count(message@.len()),
        forall|i: int|
            0 <= i < events@.len() ==> (#[trigger] events@[i])@ == event_at(
                request_id@,
                message@,
                session_id.deep_view(),
                i,
            ),
{
    let mut emitter = StreamEmitter::new(request_id.to_owned(), message, session_id);
    let mut events: Vec<StreamEvent> = Vec::new();
    let ghost start = emitter.state();
    loop
        invariant
            emitter.wf(),
            emitter.state() == (EmitterState { emitted: events@.len() as nat, ..start }),
            start.request_id == request_id@,
            start.message == message@,
            start.session_id == session_id.deep_view(),
            !start.cancelled,
            events@.len() <= event_count(message@.len()),
            forall|i: int|
                0 <= i < events@.len() ==> (#[trigger] events@[i])@ == event_at(
                    request_id@,
                    message@,
                    session_id.deep_view(),
                    i,
                ),
        ensures
            events@.len() == event_count(message@.len()),
            forall|i: int|
                0 <= i < events@.len() ==> (#[trigger] events@[i])@ == event_at(
                    request_id@,
                    message@,
                    session_id.deep_view(),
                    i,
                ),
        decreases event_count(message@.len()) - events@.len(),
    {
        match emitter.next_event() {
            Some(event) => {
                events.push(event);
            },
            None => {
                break ;
            },
        }
    }
    events
}

/// The emitter state before any event of the stream has been handed out.
pub open spec fn initial_state(
    request_id: Seq<char>,
    message: Seq<char>,
    session_id: Option<Seq<char>>,
) -> EmitterState {
    EmitterState { request_id, message, session_id, emitted: 0, cancelled: false }
}

/// The state reached from `state` by `n` requests for the next event, and the
/// events handed out on the way, in order.
pub open spec fn run(state: EmitterState, n: nat) -> (EmitterState, Seq<StreamEventView>)
    decreases n,
{
    if n == 0 {
        (state, Seq::empty())
    } else {
        let (mid, events) = run(state, (n - 1) as nat);
        let (next, event) = mid.step();
        (
            next,
            match event {
                Some(e) => events.push(e),
                None => events,
            },
        )
    }
}

/// The lesser of two naturals.
pub open spec fn at_most(a: nat, b: nat) -> nat {
    if a <= b {
        a
    } else {
        b
    }
}

/// The first `k` events of a stream join to the first `32 * k` characters of
/// its message (to all of it where it is shorter), and none but the stream's
/// last is final.
proof fn lemma_prefix_of_stream(
    request_id: Seq<char>,
    message: Seq<char>,
    session_id: Option<Seq<char>>,
    k: nat,
)
    requires
        k <= event_count(message.len()),
    ensures
        joined_deltas(event_stream(request_id, message, session_id).take(k as int))
            == message.take(at_most(32 * k, message.len()) as int),
        final_count(event_stream(request_id, message, session_id).take(k as int)) == (if k
            == event_count(message.len()) {
            1nat
        } else {
            0nat
        }),
    decreases k,
{
    let events = event_stream(request_id, message, session_id);
    let prefix = events.take(k as int);
    if k == 0 {
        assert(message.take(0) == Seq::<char>::empty());
    } else {
        lemma_prefix_of_stream(request_id, message, session_id, (k - 1) as nat);
        assert(prefix.drop_last() == events.take(k - 1));
        assert(prefix.last() == event_at(request_id, message, session_id, k - 1));
        let lo = at_most(32 * (k - 1) as nat, message.len()) as int;
        let hi = at_most(32 * k, message.len()) as int;
        assert(lo == 32 * (k - 1));
        assert(prefix.last().delta == message.subrange(lo, hi));
        assert(message.take(lo) + message.subrange(lo, hi) == message.take(hi));
    }
}

/// A message of `len` characters is delivered in `len / 32` events, rounded
/// up, and in one event where it is empty. Exactly one event of the stream is
/// final, and it is the last one. The deltas of the stream, joined in the
/// order of emission, are the message.
pub proof fn lemma_stream_delivers_message(
    request_id: Seq<char>,
    message: Seq<char>,
    session_id: Option<Seq<char>>,
)
    ensures
        event_stream(request_id, message, session_id).len() == event_count(message.len()),
        event_count(message.len()) >= 1,
        message.len() > 0 ==> 32 * (event_count(message.len()) - 1) < message.len() <= 32
            * event_count(message.len()),
        final_count(event_stream(request_id, message, session_id)) == 1,
        forall|i: int|
            0 <= i < event_count(message.len()) ==> (#[trigger] event_stream(
                request_id,
                message,
                session_id,
            )[i]).is_final == (i == event_count(message.len()) - 1),
        event_stream(request_id, message, session_id).last().session_id == session_id,
        joined_deltas(event_stream(request_id, message, session_id)) == message,
{
    let events = event_stream(request_id, message, session_id);
    let count = event_count(message.len());
    lemma_prefix_of_stream(request_id, message, session_id, count);
    assert(events.take(count as int) == events);
    assert(message.take(message.len() as int) == message);
}

/// `n` requests to an emitter at the start of a stream hand out the first `n`
/// events of the stream, or all of them where it has fewer.
pub proof fn lemma_run_from_start(
    request_id: Seq<char>,
    message: Seq<char>,
    session_id: Option<Seq<char>>,
    n: nat,
)
    ensures
        run(initial_state(request_id, message, session_id), n).1 == event_stream(
            request_id,
            message,
            session_id,
        ).take(at_most(n, event_count(message.len())) as int),
        run(initial_state(request_id, message, session_id), n).0 == (EmitterState {
            emitted: at_most(n, event_count(message.len())),
            ..initial_state(request_id, message, session_id)
        }),
    decreases n,
{
    let start = initial_state(request_id, message, session_id);
    let events = event_stream(request_id, message, session_id);
    let count = event_count(message.len());
    if n == 0 {
        assert(events.take(0) == Seq::<StreamEventView>::empty());
    } else {
        lemma_run_from_start(request_id, message, session_id, (n - 1) as nat);
        if n <= count {
            assert(events.take(n - 1).push(events[n - 1]) == events.take(n as int));
        }
    }
}

/// A cancelled emitter hands out nothing, however often it is asked, and
/// stays as it is.
pub proof fn lemma_cancelled_stream_is_silent(state: EmitterState, n: nat)
    requires
        state.cancelled,
    ensures
        run(state, n) == (state, Seq::<StreamEventView>::empty()),
    decreases n,
{
    if n > 0 {
        lemma_cancelled_stream_is_silent(state, (n - 1) as nat);
    }
}

/// Cancelling a stream after `k` requests ends it: the events handed out
/// before are the first events of the uncancelled stream, so that one of them
/// is final only if it is the stream's last; and no event follows, whatever
/// number `n` of requests is made afterwards.
pub proof fn lemma_cancel_ends_stream(
    request_id: Seq<char>,
    message: Seq<char>,
    session_id: Option<Seq<char>>,
    k: nat,
    n: nat,
)
    ensures
        ({
            let (reached, before) = run(initial_state(request_id, message, session_id), k);
            let (_, after) = run(reached.cancel(), n);
            &&& after.len() == 0
            &&& before.len() <= k
            &&& before.len() <= event_count(message.len())
            &&& forall|i: int|
                0 <= i < before.len() ==> #[trigger] before[i] == event_at(
                    request_id,
                    message,
                    session_id,
                    i,
                )
            &&& forall|i: int|
                0 <= i < before.len() ==> ((#[trigger] before[i]).is_final <==> i + 1
                    == event_count(message.len()))
        }),
{
    lemma_run_from_start(request_id, message, session_id, k);
    let (reached, before) = run(initial_state(request_id, message, session_id), k);
    lemma_cancelled_stream_is_silent(reached.cancel(), n);
}

} // verus!
