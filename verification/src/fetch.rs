//! The two-phase timeout discipline of a single bounded network call.
//!
//! A call runs in two sequential phases: waiting for the response to
//! start, then waiting for the body to arrive. Each phase races the same
//! timeout duration on its own timer: the timer is reset when the first
//! phase completes, so a slow second phase cannot ride on time left over
//! from a fast first one. The surrounding program performs the actual
//! request and drives this machine with whichever event resolves first.

use vstd::prelude::*;

verus! {

/// Why a single bounded network call failed.
#[derive(Clone, Copy, Debug, PartialEq, Eq, Structural)]
pub enum GetReqError {
    /// One of the two phases did not complete within the timeout.
    Timeout,
    /// The underlying request or response mechanism reported a protocol,
    /// name-resolution, encryption, or connection failure.
    Transport,
}

impl GetReqError {
    /// A human-readable description of the error.
    pub fn message(self) -> (m: &'static str)
        ensures
            self is Timeout ==> m@ == "request timed out"@,
            self is Transport ==> m@ == "transport error"@,
    {
        match self {
            GetReqError::Timeout => "request timed out",
            GetReqError::Transport => "transport error",
        }
    }
}

/// What resolved first while a phase of the call was waiting.
#[derive(Clone, Copy, Debug, PartialEq, Eq, Structural)]
pub enum FetchEvent {
    /// The response started to arrive; only meaningful in the first
    /// phase.
    ResponseArrived,
    /// The whole body arrived; only meaningful in the second phase.
    BodyArrived,
    /// The request or response mechanism failed.
    TransportError,
    /// The phase's timer ran out before anything else resolved.
    TimerFired,
}

/// Where a single call stands.
#[derive(Clone, Copy, Debug, PartialEq, Eq, Structural)]
pub enum FetchPhase {
    /// First phase: the request is issued and the response has not
    /// started.
    AwaitingResponse,
    /// Second phase: the response started and the body is being read.
    AwaitingBody,
    /// The call completed and the body is available.
    Succeeded,
    /// The call failed for the recorded reason.
    Failed(GetReqError),
}

impl FetchPhase {
    /// Whether the call has reached a terminal state.
    pub open spec fn is_terminal(self) -> bool {
        self is Succeeded || self is Failed
    }
}

/// One transition of the call: from `phase`, on `event`. A timer firing
/// in either waiting phase ends the call with a timeout; a transport
/// failure ends it with a transport error; the phases complete only in
/// order. An event that cannot occur in the given phase changes nothing.
pub open spec fn fetch_step(phase: FetchPhase, event: FetchEvent) -> FetchPhase {
    match phase {
        FetchPhase::AwaitingResponse => match event {
            FetchEvent::ResponseArrived => FetchPhase::AwaitingBody,
            FetchEvent::BodyArrived => phase,
            FetchEvent::TransportError => FetchPhase::Failed(GetReqError::Transport),
            FetchEvent::TimerFired => FetchPhase::Failed(GetReqError::Timeout),
        },
        FetchPhase::AwaitingBody => match event {
            FetchEvent::ResponseArrived => phase,
            FetchEvent::BodyArrived => FetchPhase::Succeeded,
            FetchEvent::TransportError => FetchPhase::Failed(GetReqError::Transport),
            FetchEvent::TimerFired => FetchPhase::Failed(GetReqError::Timeout),
        },
        FetchPhase::Succeeded => phase,
        FetchPhase::Failed(_) => phase,
    }
}

/// The state of the call after it has seen `events` from `phase` on: a
/// terminal state absorbs everything after it.
pub open spec fn fetch_run_from(phase: FetchPhase, events: Seq<FetchEvent>) -> FetchPhase
    decreases events.len(),
{
    if events.len() == 0 {
        phase
    } else {
        fetch_run_from(fetch_step(phase, events.first()), events.drop_first())
    }
}

/// The state of a fresh call after it has seen `events`.
pub open spec fn fetch_run(events: Seq<FetchEvent>) -> FetchPhase {
    fetch_run_from(FetchPhase::AwaitingResponse, events)
}

/// A single call driven step by step by the surrounding program.
pub struct FetchCall {
    phase: FetchPhase,
}

impl FetchCall {
    /// Where the call stands.
    pub closed spec fn phase(self) -> FetchPhase {
        self.phase
    }

    /// Starts a call: the request is to be issued and a fresh timer
    /// started on the configured duration.
    pub fn start() -> (c: FetchCall)
        ensures
            c.phase() == FetchPhase::AwaitingResponse,
    {
        FetchCall { phase: FetchPhase::AwaitingResponse }
    }

    /// Feeds the call the event that resolved first. When the first
    /// phase completes the caller must reset the timer to the full
    /// timeout before waiting on the second phase; the result says so.
    pub fn step(&mut self, event: FetchEvent) -> (reset_timer: bool)
        requires
            !old(self).phase().is_terminal(),
        ensures
            final(self).phase() == fetch_step(old(self).phase(), event),
            reset_timer == (old(self).phase() is AwaitingResponse && event
                == FetchEvent::ResponseArrived),
    {
        let reset = matches!(self.phase, FetchPhase::AwaitingResponse) && matches!(
            event,
            FetchEvent::ResponseArrived,
        );
        self.phase = match self.phase {
            FetchPhase::AwaitingResponse => match event {
                FetchEvent::ResponseArrived => FetchPhase::AwaitingBody,
                FetchEvent::BodyArrived => FetchPhase::AwaitingResponse,
                FetchEvent::TransportError => FetchPhase::Failed(GetReqError::Transport),
                FetchEvent::TimerFired => FetchPhase::Failed(GetReqError::Timeout),
            },
            FetchPhase::AwaitingBody => match event {
                FetchEvent::ResponseArrived => FetchPhase::AwaitingBody,
                FetchEvent::BodyArrived => FetchPhase::Succeeded,
                FetchEvent::TransportError => FetchPhase::Failed(GetReqError::Transport),
                FetchEvent::TimerFired => FetchPhase::Failed(GetReqError::Timeout),
            },
            FetchPhase::Succeeded => FetchPhase::Succeeded,
            FetchPhase::Failed(e) => FetchPhase::Failed(e),
        };
        reset
    }

    /// The call's result once it is terminal: the body may be handed to
    /// the caller only on success, and otherwise the recorded error
    /// stands.
    pub fn outcome(&self) -> (r: Option<Result<(), GetReqError>>)
        ensures
            match r {
                Some(Ok(())) => self.phase() is Succeeded,
                Some(Err(e)) => self.phase() == FetchPhase::Failed(e),
                None => !self.phase().is_terminal(),
            },
    {
        match self.phase {
            FetchPhase::Succeeded => Some(Ok(())),
            FetchPhase::Failed(e) => Some(Err(e)),
            _ => None,
        }
    }
}

/// A call whose first phase does not complete within the timeout fails
/// with a timeout, whatever would have happened later.
pub proof fn lemma_first_phase_timeout(rest: Seq<FetchEvent>)
    ensures
        fetch_run(seq![FetchEvent::TimerFired] + rest) == FetchPhase::Failed(GetReqError::Timeout),
{
    let events = seq![FetchEvent::TimerFired] + rest;
    assert(events.drop_first() =~= rest);
    lemma_terminal_absorbs(FetchPhase::Failed(GetReqError::Timeout), rest);
}

/// A call whose first phase completes within the timeout but whose
/// second phase does not fails with a timeout: it is not reported as a
/// success, and the reset timer gives the second phase the full
/// duration, not what the first phase left over.
pub proof fn lemma_second_phase_timeout(rest: Seq<FetchEvent>)
    ensures
        fetch_run(seq![FetchEvent::ResponseArrived, FetchEvent::TimerFired] + rest)
            == FetchPhase::Failed(GetReqError::Timeout),
{
    let events = seq![FetchEvent::ResponseArrived, FetchEvent::TimerFired] + rest;
    assert(events.first() == FetchEvent::ResponseArrived);
    let tail = events.drop_first();
    assert(tail.first() == FetchEvent::TimerFired);
    assert(tail.drop_first() =~= rest);
    assert(fetch_run(events) == fetch_run_from(FetchPhase::AwaitingBody, tail));
    assert(fetch_run_from(FetchPhase::AwaitingBody, tail) == fetch_run_from(
        FetchPhase::Failed(GetReqError::Timeout),
        rest,
    ));
    lemma_terminal_absorbs(FetchPhase::Failed(GetReqError::Timeout), rest);
}

/// A terminal state never changes, whatever else arrives.
pub proof fn lemma_terminal_absorbs(phase: FetchPhase, events: Seq<FetchEvent>)
    requires
        phase.is_terminal(),
    ensures
        fetch_run_from(phase, events) == phase,
    decreases events.len(),
{
    if events.len() > 0 {
        lemma_terminal_absorbs(phase, events.drop_first());
    }
}

/// No false success: a call reports success only if the response arrived
/// and then the body arrived, each before its phase's timer.
pub proof fn lemma_success_needs_both_phases(events: Seq<FetchEvent>)
    requires
        fetch_run(events) is Succeeded,
    ensures
        exists|i: int, j: int|
            0 <= i < j < events.len() && events[i] == FetchEvent::ResponseArrived && events[j]
                == FetchEvent::BodyArrived,
{
    lemma_success_from(FetchPhase::AwaitingResponse, events);
    let j = choose|j: int|
        0 <= j < events.len() && events[j] == FetchEvent::BodyArrived && fetch_run_from(
            FetchPhase::AwaitingResponse,
            events.take(j),
        ) is AwaitingBody;
    lemma_body_phase_needs_response(events.take(j));
    let i = choose|i: int|
        0 <= i < events.take(j).len() && events.take(j)[i] == FetchEvent::ResponseArrived;
    assert(events[i] == FetchEvent::ResponseArrived);
}

/// A success run contains a body arrival that happened while the call
/// was in its second phase.
proof fn lemma_success_from(phase: FetchPhase, events: Seq<FetchEvent>)
    requires
        fetch_run_from(phase, events) is Succeeded,
        !(phase is Succeeded),
    ensures
        exists|j: int|
            0 <= j < events.len() && events[j] == FetchEvent::BodyArrived && fetch_run_from(
                phase,
                events.take(j),
            ) is AwaitingBody,
    decreases events.len(),
{
    if phase is Failed {
        lemma_terminal_absorbs(phase, events);
        assert(false);
    } else {
        assert(events.len() > 0);
        let next = fetch_step(phase, events.first());
        if next is Succeeded {
            assert(phase is AwaitingBody && events.first() == FetchEvent::BodyArrived);
            assert(events.take(0) =~= Seq::<FetchEvent>::empty());
            assert(fetch_run_from(phase, events.take(0)) is AwaitingBody);
            assert(events[0] == FetchEvent::BodyArrived);
        } else {
            lemma_success_from(next, events.drop_first());
            let j0 = choose|j: int|
                0 <= j < events.drop_first().len() && events.drop_first()[j]
                    == FetchEvent::BodyArrived && fetch_run_from(
                    next,
                    events.drop_first().take(j),
                ) is AwaitingBody;
            assert(events.drop_first().take(j0) =~= events.take(j0 + 1).drop_first());
            assert(fetch_run_from(phase, events.take(j0 + 1)) == fetch_run_from(
                next,
                events.take(j0 + 1).drop_first(),
            ));
            assert(events[j0 + 1] == FetchEvent::BodyArrived);
        }
    }
}

/// The call reaches its second phase only after the response arrives.
proof fn lemma_body_phase_needs_response(events: Seq<FetchEvent>)
    requires
        fetch_run_from(FetchPhase::AwaitingResponse, events) is AwaitingBody,
    ensures
        exists|i: int| 0 <= i < events.len() && events[i] == FetchEvent::ResponseArrived,
    decreases events.len(),
{
    assert(events.len() > 0);
    let next = fetch_step(FetchPhase::AwaitingResponse, events.first());
    if next is AwaitingBody {
        assert(events[0] == FetchEvent::ResponseArrived);
    } else if next is AwaitingResponse {
        lemma_body_phase_needs_response(events.drop_first());
        let i0 = choose|i: int|
            0 <= i < events.drop_first().len() && events.drop_first()[i]
                == FetchEvent::ResponseArrived;
        assert(events[i0 + 1] == FetchEvent::ResponseArrived);
    } else {
        lemma_terminal_absorbs(next, events.drop_first());
        assert(false);
    }
}

} // verus!
