//! The polling loop as a state machine.
//!
//! The poller owns the cursor and the diff engine. Whoever drives it performs
//! the action that a step returns and reports what came of it as the next
//! input: it sends the request of [`Action::Fetch`] and reports the body or
//! the failure; it hands out the deliveries of [`Action::Deliver`] and wakes
//! the poller at once; it waits as long as [`Action::Retry`] says and wakes
//! the poller then.
//!
//! From `Idle` a wake-up starts a fetch at the cursor. In `Fetching` exactly
//! one fetch is under way, and nothing but its completion or a shutdown ends
//! that. A body that decodes is diffed, and only then does the cursor move
//! on; a fetch that fails, or a body that does not decode, leaves the cursor
//! where it was. `Stopped` is final.
//!
//! Between `Fetching` and the `Idle` that follows a good body lies the moment
//! in which the batch is decoded and not yet diffed. A step passes through it
//! without resting there: decoding, diffing and moving the cursor happen in
//! one step, so no input ever finds a batch half applied.

use crate::backoff::{delay_of, RetryPolicy};
use crate::decode::{batch_of, cursor_of, decode_batch, decode_cursor, FeedError};
use crate::diff::{events_of_batch, known_after_batch, Known};
use crate::dispatch::{deliveries_for, delivery_views, plan, Delivery, DeliveryView};
use crate::engine::DiffEngine;
use crate::model::EntryView;
use crate::request::{feed_request, feed_request_of, Request, RequestView};
use vstd::prelude::*;

verus! {

/// Where the poller stands.
#[derive(Clone, Copy, Debug, PartialEq, Eq, Structural)]
pub enum Phase {
    /// No fetch is under way.
    Idle,
    /// One fetch is under way, at the current cursor.
    Fetching,
    /// The poller was shut down.
    Stopped,
}

/// What the driver reports to the poller.
#[derive(Debug, PartialEq, Eq)]
pub enum Input {
    /// It is time to go on: right away after a batch, after the delay after
    /// a failure.
    Wake,
    /// The fetch completed with this body.
    Response(Vec<u8>),
    /// The fetch failed: no connection, a timeout, or a status that is not a
    /// success.
    Unreachable,
    /// A handler could not be reached or failed.
    DeliveryFailed,
    /// The loop is to end.
    Shutdown,
}

/// What an [`Input`] stands for.
pub ghost enum InputView {
    Wake,
    Response(Seq<u8>),
    Unreachable,
    DeliveryFailed,
    Shutdown,
}

impl View for Input {
    type V = InputView;

    open spec fn view(&self) -> InputView {
        match self {
            Input::Wake => InputView::Wake,
            Input::Response(body) => InputView::Response(body@),
            Input::Unreachable => InputView::Unreachable,
            Input::DeliveryFailed => InputView::DeliveryFailed,
            Input::Shutdown => InputView::Shutdown,
        }
    }
}

impl Clone for Input {
    fn clone(&self) -> (r: Input)
        ensures
            r@ == self@,
    {
        match self {
            Input::Wake => Input::Wake,
            Input::Response(body) => Input::Response(body.clone()),
            Input::Unreachable => Input::Unreachable,
            Input::DeliveryFailed => Input::DeliveryFailed,
            Input::Shutdown => Input::Shutdown,
        }
    }
}

/// What the driver is to do next.
#[derive(Debug, PartialEq, Eq)]
pub enum Action {
    /// Send this request and report how it ended.
    Fetch(Request),
    /// Hand these to the handlers, in order, and wake the poller without
    /// waiting for them.
    Deliver(Vec<Delivery>),
    /// Wake the poller after this many milliseconds.
    Retry { delay_ms: u64, cause: FeedError },
    /// Nothing: the input changed nothing.
    Nothing,
    /// Stop driving.
    Halt,
}

/// What an [`Action`] stands for.
pub ghost enum ActionView {
    Fetch(RequestView),
    Deliver(Seq<DeliveryView>),
    Retry { delay_ms: u64, cause: FeedError },
    Nothing,
    Halt,
}

impl View for Action {
    type V = ActionView;

    open spec fn view(&self) -> ActionView {
        match self {
            Action::Fetch(request) => ActionView::Fetch(request@),
            Action::Deliver(deliveries) => ActionView::Deliver(delivery_views(deliveries@)),
            Action::Retry { delay_ms, cause } => ActionView::Retry {
                delay_ms: *delay_ms,
                cause: *cause,
            },
            Action::Nothing => ActionView::Nothing,
            Action::Halt => ActionView::Halt,
        }
    }
}

impl Clone for Action {
    fn clone(&self) -> (r: Action)
        ensures
            r@ == self@,
    {
        match self {
            Action::Fetch(request) => Action::Fetch(request.clone()),
            Action::Deliver(deliveries) => {
                let copies = deliveries.clone();
                assert(delivery_views(copies@) =~= delivery_views(deliveries@));
                Action::Deliver(copies)
            },
            Action::Retry { delay_ms, cause } => Action::Retry {
                delay_ms: *delay_ms,
                cause: *cause,
            },
            Action::Nothing => Action::Nothing,
            Action::Halt => Action::Halt,
        }
    }
}

/// The polling loop: the cursor, the phase, the failures in a row, and the
/// diff engine with all it knows.
pub struct Poller {
    cursor: String,
    phase: Phase,
    failures: u32,
    policy: RetryPolicy,
    engine: DiffEngine,
}

/// What a [`Poller`] stands for.
pub ghost struct PollerView {
    pub cursor: Seq<char>,
    pub phase: Phase,
    pub failures: nat,
    pub policy: RetryPolicy,
    pub known: Known,
}

impl View for Poller {
    type V = PollerView;

    closed spec fn view(&self) -> PollerView {
        PollerView {
            cursor: self.cursor@,
            phase: self.phase,
            failures: self.failures as nat,
            policy: self.policy,
            known: self.engine@,
        }
    }
}

/// The poller at `cursor` before anything has happened.
pub open spec fn initial(cursor: Seq<char>, policy: RetryPolicy) -> PollerView {
    PollerView {
        cursor: cursor,
        phase: Phase::Idle,
        failures: 0,
        policy: policy,
        known: Map::<Seq<char>, Seq<EntryView>>::empty(),
    }
}

/// The count of failures in a row after one more. It stops at the largest
/// value the counter holds.
pub open spec fn one_more(failures: nat) -> nat {
    if failures < u32::MAX {
        failures + 1
    } else {
        failures
    }
}

/// Whether `input` reports that a fetch has ended.
pub open spec fn completes(input: InputView) -> bool {
    input is Response || input is Unreachable
}

/// The poller after a fetch has failed for any reason.
pub open spec fn after_failure(s: PollerView) -> PollerView {
    PollerView { phase: Phase::Idle, failures: one_more(s.failures), ..s }
}

/// The poller after a batch has been taken in.
pub open spec fn after_batch(s: PollerView, next_cursor: Seq<char>, known: Known) -> PollerView {
    PollerView { cursor: next_cursor, phase: Phase::Idle, failures: 0, known: known, ..s }
}

/// The state that follows `s` on `input`.
pub open spec fn next_state(s: PollerView, input: InputView) -> PollerView {
    match (s.phase, input) {
        (Phase::Stopped, _) => s,
        (_, InputView::Shutdown) => PollerView { phase: Phase::Stopped, ..s },
        (Phase::Idle, InputView::Wake) => PollerView { phase: Phase::Fetching, ..s },
        (Phase::Fetching, InputView::Response(body)) => match batch_of(body) {
            Some(batch) => after_batch(
                s,
                batch.next_cursor,
                known_after_batch(s.known, batch.containers),
            ),
            None => after_failure(s),
        },
        (Phase::Fetching, InputView::Unreachable) => after_failure(s),
        _ => s,
    }
}

/// The action that `s` answers `input` with.
pub open spec fn action_for(s: PollerView, input: InputView) -> ActionView {
    match (s.phase, input) {
        (Phase::Stopped, _) => ActionView::Halt,
        (_, InputView::Shutdown) => ActionView::Halt,
        (Phase::Idle, InputView::Wake) => ActionView::Fetch(feed_request_of(s.cursor)),
        (Phase::Fetching, InputView::Response(body)) => match batch_of(body) {
            Some(batch) => ActionView::Deliver(
                deliveries_for(events_of_batch(s.known, batch.containers)),
            ),
            None => ActionView::Retry {
                delay_ms: delay_of(s.policy, one_more(s.failures)) as u64,
                cause: FeedError::Parse,
            },
        },
        (Phase::Fetching, InputView::Unreachable) => ActionView::Retry {
            delay_ms: delay_of(s.policy, one_more(s.failures)) as u64,
            cause: FeedError::Network,
        },
        _ => ActionView::Nothing,
    }
}

impl Poller {
    /// A poller that will start at `cursor`.
    pub fn new(cursor: String, policy: RetryPolicy) -> (r: Poller)
        ensures
            r@ == initial(cursor@, policy),
    {
        Poller {
            cursor: cursor,
            phase: Phase::Idle,
            failures: 0,
            policy: policy,
            engine: DiffEngine::new(),
        }
    }

    /// A poller that will start at the cursor that the bootstrap response
    /// `body` names, or the parse error where it names none.
    pub fn from_bootstrap(body: &[u8], policy: RetryPolicy) -> (r: Result<Poller, FeedError>)
        ensures
            match r {
                Ok(p) => cursor_of(body@) is Some && p@ == initial(cursor_of(body@).unwrap(), policy),
                Err(e) => e == FeedError::Parse && cursor_of(body@) is None,
            },
    {
        match decode_cursor(body) {
            Ok(cursor) => Ok(Poller::new(cursor, policy)),
            Err(e) => Err(e),
        }
    }

    /// The cursor of the next fetch, or of the one under way.
    pub fn cursor(&self) -> (r: &str)
        ensures
            r@ == self@.cursor,
    {
        self.cursor.as_str()
    }

    /// Where the poller stands.
    pub fn phase(&self) -> (r: Phase)
        ensures
            r == self@.phase,
    {
        self.phase
    }

    /// How many fetches have failed in a row.
    pub fn failures(&self) -> (r: u32)
        ensures
            r == self@.failures,
    {
        self.failures
    }

    /// The retry policy.
    pub fn policy(&self) -> (r: RetryPolicy)
        ensures
            r == self@.policy,
    {
        self.policy
    }

    /// The diff engine and what it knows.
    pub fn engine(&self) -> (r: &DiffEngine)
        ensures
            r@ == self@.known,
    {
        &self.engine
    }

    fn fail(&mut self, cause: FeedError) -> (action: Action)
        ensures
            final(self)@ == after_failure(old(self)@),
            action@ == (ActionView::Retry {
                delay_ms: delay_of(old(self)@.policy, one_more(old(self)@.failures)) as u64,
                cause: cause,
            }),
    {
        if self.failures < u32::MAX {
            self.failures = self.failures + 1;
        }
        self.phase = Phase::Idle;
        Action::Retry { delay_ms: self.policy.delay(self.failures), cause: cause }
    }

    /// Takes one input and says what to do next.
    pub fn step(&mut self, input: Input) -> (action: Action)
        ensures
            final(self)@ == next_state(old(self)@, input@),
            action@ == action_for(old(self)@, input@),
    {
        match self.phase {
            Phase::Stopped => Action::Halt,
            Phase::Idle => match input {
                Input::Shutdown => {
                    self.phase = Phase::Stopped;
                    Action::Halt
                },
                Input::Wake => {
                    self.phase = Phase::Fetching;
                    Action::Fetch(feed_request(self.cursor.as_str()))
                },
                _ => Action::Nothing,
            },
            Phase::Fetching => match input {
                Input::Shutdown => {
                    self.phase = Phase::Stopped;
                    Action::Halt
                },
                Input::Response(body) => match decode_batch(body.as_slice()) {
                    Ok(batch) => {
                        let events = self.engine.apply(&batch);
                        self.cursor = batch.next_cursor;
                        self.failures = 0;
                        self.phase = Phase::Idle;
                        Action::Deliver(plan(&events))
                    },
                    Err(e) => self.fail(e),
                },
                Input::Unreachable => self.fail(FeedError::Network),
                _ => Action::Nothing,
            },
        }
    }
}

/// The state that `inputs`, taken in order, lead to from `s`.
pub open spec fn run(s: PollerView, inputs: Seq<InputView>) -> PollerView
    decreases inputs.len(),
{
    if inputs.len() == 0 {
        s
    } else {
        next_state(run(s, inputs.drop_last()), inputs.last())
    }
}

/// The action that answers the input at position `n` of `inputs`, when they
/// are taken in order from `s`.
pub open spec fn action_at(s: PollerView, inputs: Seq<InputView>, n: int) -> ActionView
    recommends
        0 <= n < inputs.len(),
{
    action_for(run(s, inputs.take(n)), inputs[n])
}

/// A fetch is started only from `Idle`, by a wake-up, and at the cursor the
/// poller holds; it leaves the poller in `Fetching`.
pub proof fn lemma_fetch_starts_from_idle(s: PollerView, input: InputView)
    requires
        action_for(s, input) is Fetch,
    ensures
        s.phase == Phase::Idle,
        input is Wake,
        action_for(s, input) == ActionView::Fetch(feed_request_of(s.cursor)),
        next_state(s, input).phase == Phase::Fetching,
        next_state(s, input).cursor == s.cursor,
{
}

/// The cursor moves only when the fetch under way completes with a body
/// that decodes, and then to the cursor that this body names. The batch of
/// that body has been diffed by then.
pub proof fn lemma_cursor_moves_on_success_only(s: PollerView, input: InputView)
    ensures
        next_state(s, input).cursor != s.cursor ==> s.phase == Phase::Fetching && input is Response
            && batch_of(input->Response_0) is Some,
        s.phase == Phase::Fetching && input is Response && batch_of(input->Response_0) is Some ==> {
            let batch = batch_of(input->Response_0).unwrap();
            &&& next_state(s, input).cursor == batch.next_cursor
            &&& next_state(s, input).known == known_after_batch(s.known, batch.containers)
            &&& next_state(s, input).phase == Phase::Idle
            &&& next_state(s, input).failures == 0
        },
{
}

/// A fetch that fails, or a body that does not decode, emits nothing,
/// leaves the cursor and the known state as they were, and schedules a retry
/// after the delay of the retry policy.
pub proof fn lemma_failure_keeps_cursor(s: PollerView, input: InputView)
    requires
        s.phase == Phase::Fetching,
        input is Unreachable || (input is Response && batch_of(input->Response_0) is None),
    ensures
        next_state(s, input).cursor == s.cursor,
        next_state(s, input).known == s.known,
        next_state(s, input).phase == Phase::Idle,
        next_state(s, input).failures == one_more(s.failures),
        action_for(s, input) is Retry,
        action_for(s, input)->delay_ms == delay_of(s.policy, one_more(s.failures)),
        action_for(s, input)->delay_ms <= s.policy.cap_ms,
{
}

/// A handler that fails changes nothing: neither the cursor, nor the phase,
/// nor what is known.
pub proof fn lemma_delivery_failure_is_isolated(s: PollerView)
    ensures
        next_state(s, InputView::DeliveryFailed) == s,
        s.phase != Phase::Stopped ==> action_for(s, InputView::DeliveryFailed) == ActionView::Nothing,
{
}

/// No step forgets a container.
pub proof fn lemma_step_keeps_containers(s: PollerView, input: InputView, id: Seq<char>)
    requires
        s.known.contains_key(id),
    ensures
        next_state(s, input).known.contains_key(id),
{
    if s.phase == Phase::Fetching && input is Response {
        if let Some(batch) = batch_of(input->Response_0) {
            crate::diff::lemma_known_only_grows(s.known, batch.containers);
        }
    }
}

/// While the fetch started at position `i` has not completed, the poller
/// is not `Idle`.
proof fn lemma_busy_until_completion(s: PollerView, inputs: Seq<InputView>, i: int, m: int)
    requires
        0 <= i < m <= inputs.len(),
        action_at(s, inputs, i) is Fetch,
        forall|k: int| i < k < m ==> !completes(#[trigger] inputs[k]),
    ensures
        run(s, inputs.take(m)).phase != Phase::Idle,
    decreases m - i,
{
    assert(inputs.take(m).drop_last() =~= inputs.take(m - 1));
    assert(inputs.take(m).last() == inputs[m - 1]);
    if m == i + 1 {
        lemma_fetch_starts_from_idle(run(s, inputs.take(i)), inputs[i]);
    } else {
        lemma_busy_until_completion(s, inputs, i, m - 1);
        assert(!completes(inputs[m - 1]));
    }
}

/// At most one fetch is under way at any time: between any two fetches that
/// the poller starts, the driver has reported the end of a fetch.
pub proof fn lemma_single_flight(s: PollerView, inputs: Seq<InputView>, i: int, j: int)
    requires
        0 <= i < j < inputs.len(),
        action_at(s, inputs, i) is Fetch,
        action_at(s, inputs, j) is Fetch,
    ensures
        exists|k: int| i < k < j && completes(#[trigger] inputs[k]),
{
    if forall|k: int| i < k < j ==> !completes(#[trigger] inputs[k]) {
        lemma_busy_until_completion(s, inputs, i, j);
        lemma_fetch_starts_from_idle(run(s, inputs.take(j)), inputs[j]);
    }
}

/// Every fetch goes to the cursor that the poller holds at that moment,
/// which is the one it started with until a body has decoded, and from then
/// on the cursor named by the body that decoded last.
pub proof fn lemma_fetch_at_latest_cursor(s: PollerView, inputs: Seq<InputView>, n: int)
    requires
        0 <= n < inputs.len(),
        action_at(s, inputs, n) is Fetch,
    ensures
        action_at(s, inputs, n) == ActionView::Fetch(feed_request_of(latest_cursor(s, inputs.take(n)))),
{
    lemma_latest_cursor(s, inputs.take(n));
}

/// The cursor named by the last body among `inputs` that the poller, started
/// from `s`, took in and decoded; the cursor of `s` where there is none.
pub open spec fn latest_cursor(s: PollerView, inputs: Seq<InputView>) -> Seq<char>
    decreases inputs.len(),
{
    if inputs.len() == 0 {
        s.cursor
    } else {
        let before = run(s, inputs.drop_last());
        match inputs.last() {
            InputView::Response(body) => if before.phase == Phase::Fetching && batch_of(
                body,
            ) is Some {
                batch_of(body).unwrap().next_cursor
            } else {
                latest_cursor(s, inputs.drop_last())
            },
            _ => latest_cursor(s, inputs.drop_last()),
        }
    }
}

/// The poller always holds the latest cursor.
pub proof fn lemma_latest_cursor(s: PollerView, inputs: Seq<InputView>)
    ensures
        run(s, inputs).cursor == latest_cursor(s, inputs),
    decreases inputs.len(),
{
    if inputs.len() > 0 {
        lemma_latest_cursor(s, inputs.drop_last());
    }
}

} // verus!
