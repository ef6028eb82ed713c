//! The decisions of the consumer: configure, connect, subscribe, then receive
//! and acknowledge one message at a time until the stream ends or fails.
//!
//! The runner never performs any of this work itself. It is handed what
//! happened (an `Event`) and answers with what to do next (an `Action`).

use vstd::prelude::*;
use crate::config::{ConsumerConfig, ConfigView, ConfigError, config_error_text, load_spec, is_given};
use crate::address::{address_of, broker_address};

verus! {

/// Where the consumer is in its life.
#[derive(Clone, Copy, Debug, PartialEq, Eq, Structural)]
pub enum Phase {
    /// Waiting for the configuration.
    Unconfigured,
    /// Configuration loaded; the connection to the broker is being opened.
    Configured,
    /// Connected; the subscription is being created.
    Connected,
    /// Subscribed; waiting for the next message.
    Receiving,
    /// The message with this delivery number is being acknowledged.
    Acknowledging(u64),
    /// The stream ended.
    Closed,
    /// Receiving or acknowledging failed.
    Faulted,
    /// Connecting or subscribing failed; the failure was reported.
    Stopped,
    /// The configuration could not be loaded.
    Aborted,
}

/// How the broker shares a subscription among its consumers.
#[derive(Clone, Copy, Debug, PartialEq, Eq, Structural)]
pub enum SubscriptionKind {
    Exclusive,
    Shared,
    /// One consumer receives at a time; another takes over when it leaves.
    Failover,
    KeyShared,
}

/// What happened since the last action.
#[derive(Debug)]
pub enum Event {
    Loaded(Result<ConsumerConfig, ConfigError>),
    Connected,
    ConnectFailed(String),
    Subscribed,
    SubscribeFailed(String),
    /// A message arrived; the number identifies it until it is acknowledged.
    Delivered(u64),
    Acknowledged,
    StreamEnded,
    StreamFailed(String),
}

/// What to do next.
#[derive(Debug, PartialEq, Eq)]
pub enum Action {
    /// Open a connection to the broker at this address.
    Connect(String),
    /// Subscribe to a topic under a subscription name.
    Subscribe(String, String, SubscriptionKind),
    /// Wait for the next message.
    Receive,
    /// Acknowledge the message with this delivery number.
    Ack(u64),
    /// Print this line and return.
    Report(String),
    /// Fail the process with this message.
    Abort(String),
    /// Return: the stream is over.
    Finish,
    /// The event does not fit the phase; nothing to do.
    Ignore,
}

pub enum EventView {
    Loaded(Result<ConfigView, ConfigError>),
    Connected,
    ConnectFailed(Seq<char>),
    Subscribed,
    SubscribeFailed(Seq<char>),
    Delivered(u64),
    Acknowledged,
    StreamEnded,
    StreamFailed(Seq<char>),
}

pub enum ActionView {
    Connect(Seq<char>),
    Subscribe(Seq<char>, Seq<char>, SubscriptionKind),
    Receive,
    Ack(u64),
    Report(Seq<char>),
    Abort(Seq<char>),
    Finish,
    Ignore,
}

impl View for Event {
    type V = EventView;

    open spec fn view(&self) -> EventView {
        match self {
            Event::Loaded(Ok(c)) => EventView::Loaded(Ok(c@)),
            Event::Loaded(Err(e)) => EventView::Loaded(Err(*e)),
            Event::Connected => EventView::Connected,
            Event::ConnectFailed(m) => EventView::ConnectFailed(m@),
            Event::Subscribed => EventView::Subscribed,
            Event::SubscribeFailed(m) => EventView::SubscribeFailed(m@),
            Event::Delivered(id) => EventView::Delivered(*id),
            Event::Acknowledged => EventView::Acknowledged,
            Event::StreamEnded => EventView::StreamEnded,
            Event::StreamFailed(m) => EventView::StreamFailed(m@),
        }
    }
}

impl View for Action {
    type V = ActionView;

    open spec fn view(&self) -> ActionView {
        match self {
            Action::Connect(a) => ActionView::Connect(a@),
            Action::Subscribe(t, s, k) => ActionView::Subscribe(t@, s@, *k),
            Action::Receive => ActionView::Receive,
            Action::Ack(id) => ActionView::Ack(*id),
            Action::Report(m) => ActionView::Report(m@),
            Action::Abort(m) => ActionView::Abort(m@),
            Action::Finish => ActionView::Finish,
            Action::Ignore => ActionView::Ignore,
        }
    }
}

/// The consumer's state: its phase, and what it subscribes to once connected.
#[derive(Debug)]
pub struct Runner {
    pub phase: Phase,
    pub topic: String,
    pub subscription_name: String,
}

pub struct RunnerView {
    pub phase: Phase,
    pub topic: Seq<char>,
    pub subscription_name: Seq<char>,
}

impl View for Runner {
    type V = RunnerView;

    open spec fn view(&self) -> RunnerView {
        RunnerView { phase: self.phase, topic: self.topic@, subscription_name: self.subscription_name@ }
    }
}

pub open spec fn config_failed_text(e: ConfigError) -> Seq<char> {
    "invalid configuration: "@ + config_error_text(e)
}

pub open spec fn connect_failed_text(m: Seq<char>) -> Seq<char> {
    "connect failed: "@ + m
}

pub open spec fn subscribe_failed_text(m: Seq<char>) -> Seq<char> {
    "create consumer failed: "@ + m
}

pub open spec fn stream_failed_text(m: Seq<char>) -> Seq<char> {
    "stream failed: "@ + m
}

pub open spec fn in_phase(r: RunnerView, p: Phase) -> RunnerView {
    RunnerView { phase: p, ..r }
}

/// The next state and the action for `e` in state `r`.
pub open spec fn step_spec(r: RunnerView, e: EventView) -> (RunnerView, ActionView) {
    match (r.phase, e) {
        (Phase::Unconfigured, EventView::Loaded(Ok(c))) => (
            RunnerView { phase: Phase::Configured, topic: c.topic, subscription_name: c.subscription_name },
            ActionView::Connect(address_of(c.host, c.port)),
        ),
        (Phase::Unconfigured, EventView::Loaded(Err(x))) => (
            in_phase(r, Phase::Aborted),
            ActionView::Abort(config_failed_text(x)),
        ),
        (Phase::Configured, EventView::Connected) => (
            in_phase(r, Phase::Connected),
            ActionView::Subscribe(r.topic, r.subscription_name, SubscriptionKind::Failover),
        ),
        (Phase::Configured, EventView::ConnectFailed(m)) => (
            in_phase(r, Phase::Stopped),
            ActionView::Report(connect_failed_text(m)),
        ),
        (Phase::Connected, EventView::Subscribed) => (
            in_phase(r, Phase::Receiving),
            ActionView::Receive,
        ),
        (Phase::Connected, EventView::SubscribeFailed(m)) => (
            in_phase(r, Phase::Stopped),
            ActionView::Report(subscribe_failed_text(m)),
        ),
        (Phase::Receiving, EventView::Delivered(id)) => (
            in_phase(r, Phase::Acknowledging(id)),
            ActionView::Ack(id),
        ),
        (Phase::Receiving, EventView::StreamEnded) => (in_phase(r, Phase::Closed), ActionView::Finish),
        (Phase::Receiving, EventView::StreamFailed(m)) => (
            in_phase(r, Phase::Faulted),
            ActionView::Abort(stream_failed_text(m)),
        ),
        (Phase::Acknowledging(_), EventView::Acknowledged) => (
            in_phase(r, Phase::Receiving),
            ActionView::Receive,
        ),
        (Phase::Acknowledging(_), EventView::StreamFailed(m)) => (
            in_phase(r, Phase::Faulted),
            ActionView::Abort(stream_failed_text(m)),
        ),
        _ => (r, ActionView::Ignore),
    }
}

fn prefixed(prefix: &str, m: &str) -> (r: String)
    ensures
        r@ == prefix@ + m@,
{
    let mut out = String::from_str(prefix);
    out.append(m);
    out
}

impl Runner {
    /// A runner that waits for its configuration.
    pub fn new() -> (r: Runner)
        ensures
            r@ == (RunnerView {
                phase: Phase::Unconfigured,
                topic: Seq::empty(),
                subscription_name: Seq::empty(),
            }),
    {
        Runner { phase: Phase::Unconfigured, topic: String::new(), subscription_name: String::new() }
    }

    /// Takes in what happened and says what to do next.
    pub fn step(&mut self, e: Event) -> (a: Action)
        ensures
            (final(self)@, a@) == step_spec(old(self)@, e@),
    {
        proof {
            reveal_strlit("invalid configuration: ");
            reveal_strlit("connect failed: ");
            reveal_strlit("create consumer failed: ");
            reveal_strlit("stream failed: ");
        }
        match (self.phase, e) {
            (Phase::Unconfigured, Event::Loaded(Ok(c))) => {
                let addr = broker_address(&c);
                self.phase = Phase::Configured;
                self.topic = c.topic;
                self.subscription_name = c.subscription_name;
                Action::Connect(addr)
            },
            (Phase::Unconfigured, Event::Loaded(Err(x))) => {
                self.phase = Phase::Aborted;
                let text = x.message();
                Action::Abort(prefixed("invalid configuration: ", text.as_str()))
            },
            (Phase::Configured, Event::Connected) => {
                self.phase = Phase::Connected;
                Action::Subscribe(self.topic.clone(), self.subscription_name.clone(), SubscriptionKind::Failover)
            },
            (Phase::Configured, Event::ConnectFailed(m)) => {
                self.phase = Phase::Stopped;
                Action::Report(prefixed("connect failed: ", m.as_str()))
            },
            (Phase::Connected, Event::Subscribed) => {
                self.phase = Phase::Receiving;
                Action::Receive
            },
            (Phase::Connected, Event::SubscribeFailed(m)) => {
                self.phase = Phase::Stopped;
                Action::Report(prefixed("create consumer failed: ", m.as_str()))
            },
            (Phase::Receiving, Event::Delivered(id)) => {
                self.phase = Phase::Acknowledging(id);
                Action::Ack(id)
            },
            (Phase::Receiving, Event::StreamEnded) => {
                self.phase = Phase::Closed;
                Action::Finish
            },
            (Phase::Receiving, Event::StreamFailed(m)) => {
                self.phase = Phase::Faulted;
                Action::Abort(prefixed("stream failed: ", m.as_str()))
            },
            (Phase::Acknowledging(_), Event::Acknowledged) => {
                self.phase = Phase::Receiving;
                Action::Receive
            },
            (Phase::Acknowledging(_), Event::StreamFailed(m)) => {
                self.phase = Phase::Faulted;
                Action::Abort(prefixed("stream failed: ", m.as_str()))
            },
            _ => Action::Ignore,
        }
    }
}

/// The state reached and the actions taken when `events` happen in order,
/// starting in state `r`.
pub open spec fn run(r: RunnerView, events: Seq<EventView>) -> (RunnerView, Seq<ActionView>)
    decreases events.len(),
{
    if events.len() == 0 {
        (r, Seq::empty())
    } else {
        let (next, a) = step_spec(r, events[0]);
        let (last, rest) = run(next, events.drop_first());
        (last, seq![a] + rest)
    }
}

/// A phase that no event leaves.
pub open spec fn is_final(p: Phase) -> bool {
    p == Phase::Closed || p == Phase::Faulted || p == Phase::Stopped || p == Phase::Aborted
}

/// Between two acknowledgements in `acts` stands a request for the next message.
pub open spec fn receive_between_acks(acts: Seq<ActionView>) -> bool {
    forall|k: int, j: int|
        #![trigger acts[k], acts[j]]
        0 <= k < j < acts.len() && acts[k] is Ack && acts[j] is Ack ==> exists|m: int|
            k < m < j && #[trigger] acts[m] is Receive
}

/// Once the consumer has closed, faulted, stopped or aborted, it stays there
/// and does nothing more, whatever happens.
pub proof fn lemma_final_phase_is_kept(r: RunnerView, events: Seq<EventView>)
    requires
        is_final(r.phase),
    ensures
        run(r, events).0 == r,
        run(r, events).1.len() == events.len(),
        forall|i: int| 0 <= i < events.len() ==> #[trigger] run(r, events).1[i] == ActionView::Ignore,
    decreases events.len(),
{
    if events.len() > 0 {
        lemma_final_phase_is_kept(r, events.drop_first());
    }
}

/// A delivered message is acknowledged at once, and the next message is asked
/// for only when that acknowledgement is confirmed (or right after subscribing).
pub proof fn lemma_ack_before_next_receive(r: RunnerView, e: EventView)
    ensures
        r.phase == Phase::Receiving && e is Delivered ==> step_spec(r, e).1 == ActionView::Ack(e->Delivered_0)
            && step_spec(r, e).0.phase == Phase::Acknowledging(e->Delivered_0),
        step_spec(r, e).1 is Ack ==> r.phase == Phase::Receiving && e is Delivered,
        step_spec(r, e).1 is Receive ==> (r.phase == Phase::Connected && e is Subscribed) || (
        r.phase is Acknowledging && e is Acknowledged),
{
}

proof fn lemma_receive_before_ack_when_acknowledging(r: RunnerView, events: Seq<EventView>)
    requires
        r.phase is Acknowledging,
    ensures
        forall|j: int|
            0 <= j < run(r, events).1.len() && #[trigger] run(r, events).1[j] is Ack ==> exists|m: int|
                0 <= m < j && #[trigger] run(r, events).1[m] is Receive,
    decreases events.len(),
{
    if events.len() > 0 {
        let (next, a) = step_spec(r, events[0]);
        let acts = run(r, events).1;
        let rest = run(next, events.drop_first()).1;
        assert(acts == seq![a] + rest);
        if a is Receive {
            assert forall|j: int| 0 <= j < acts.len() && #[trigger] acts[j] is Ack implies exists|m: int|
                0 <= m < j && #[trigger] acts[m] is Receive by {
                assert(acts[0] is Receive);
            }
        } else if is_final(next.phase) {
            lemma_final_phase_is_kept(next, events.drop_first());
            assert forall|j: int| 0 <= j < acts.len() implies !(#[trigger] acts[j] is Ack) by {
                if j > 0 {
                    assert(acts[j] == rest[j - 1]);
                }
            }
        } else {
            assert(next == r);
            lemma_receive_before_ack_when_acknowledging(next, events.drop_first());
            assert forall|j: int| 0 <= j < acts.len() && #[trigger] acts[j] is Ack implies exists|m: int|
                0 <= m < j && #[trigger] acts[m] is Receive by {
                assert(j > 0);
                assert(acts[j] == rest[j - 1]);
                let m = choose|m: int| 0 <= m < j - 1 && #[trigger] rest[m] is Receive;
                assert(acts[m + 1] == rest[m]);
            }
        }
    }
}

/// Whatever happens, the consumer never acknowledges twice without asking for
/// the next message in between: receive, ack, receive, ack, and so on.
pub proof fn lemma_acks_alternate_with_receives(r: RunnerView, events: Seq<EventView>)
    ensures
        receive_between_acks(run(r, events).1),
    decreases events.len(),
{
    if events.len() > 0 {
        let (next, a) = step_spec(r, events[0]);
        let acts = run(r, events).1;
        let rest = run(next, events.drop_first()).1;
        assert(acts == seq![a] + rest);
        lemma_acks_alternate_with_receives(next, events.drop_first());
        if a is Ack {
            lemma_receive_before_ack_when_acknowledging(next, events.drop_first());
        }
        assert forall|k: int, j: int|
            #![trigger acts[k], acts[j]]
            0 <= k < j < acts.len() && acts[k] is Ack && acts[j] is Ack implies exists|m: int|
                k < m < j && #[trigger] acts[m] is Receive by {
            assert(acts[j] == rest[j - 1]);
            if k == 0 {
                let m = choose|m: int| 0 <= m < j - 1 && #[trigger] rest[m] is Receive;
                assert(acts[m + 1] == rest[m]);
            } else {
                assert(acts[k] == rest[k - 1]);
                let m = choose|m: int| k - 1 < m < j - 1 && #[trigger] rest[m] is Receive;
                assert(acts[m + 1] == rest[m]);
            }
        }
    }
}

/// Without a topic or a subscription name the configuration fails to load,
/// and a consumer handed that failure aborts and never connects, whatever
/// happens afterwards.
pub proof fn lemma_missing_required_never_connects(
    r: RunnerView,
    host: Option<Seq<char>>,
    port: Option<Seq<char>>,
    topic: Option<Seq<char>>,
    subscription_name: Option<Seq<char>>,
    later: Seq<EventView>,
)
    requires
        r.phase == Phase::Unconfigured,
        !is_given(topic) || !is_given(subscription_name),
    ensures
        load_spec(host, port, topic, subscription_name) is Err,
        ({
            let events = seq![EventView::Loaded(load_spec(host, port, topic, subscription_name))] + later;
            &&& run(r, events).0.phase == Phase::Aborted
            &&& run(r, events).1[0] is Abort
            &&& forall|i: int| 0 <= i < run(r, events).1.len() ==> !(#[trigger] run(r, events).1[i] is Connect)
        }),
{
    let events = seq![EventView::Loaded(load_spec(host, port, topic, subscription_name))] + later;
    let (next, a) = step_spec(r, events[0]);
    assert(events.drop_first() =~= later);
    lemma_final_phase_is_kept(next, later);
    let acts = run(r, events).1;
    assert forall|i: int| 0 <= i < acts.len() implies !(#[trigger] acts[i] is Connect) by {
        if i > 0 {
            assert(acts[i] == run(next, later).1[i - 1]);
        }
    }
}

/// A connection that fails is reported, and the consumer stops there: it never
/// asks for a message nor acknowledges one, whatever happens afterwards.
pub proof fn lemma_connect_failure_stops(r: RunnerView, m: Seq<char>, later: Seq<EventView>)
    requires
        r.phase == Phase::Configured,
    ensures
        ({
            let events = seq![EventView::ConnectFailed(m)] + later;
            &&& run(r, events).0.phase == Phase::Stopped
            &&& run(r, events).1[0] == ActionView::Report(connect_failed_text(m))
            &&& forall|i: int|
                0 <= i < run(r, events).1.len() ==> !(#[trigger] run(r, events).1[i] is Receive)
                    && !(run(r, events).1[i] is Ack)
        }),
{
    let events = seq![EventView::ConnectFailed(m)] + later;
    let (next, a) = step_spec(r, events[0]);
    assert(events.drop_first() =~= later);
    lemma_final_phase_is_kept(next, later);
    let acts = run(r, events).1;
    assert forall|i: int| 0 <= i < acts.len() implies !(#[trigger] acts[i] is Receive) && !(acts[i] is Ack) by {
        if i > 0 {
            assert(acts[i] == run(next, later).1[i - 1]);
        }
    }
}

/// The action taken at position `i` of a run is the one that the `i`-th event
/// gives in the state that the earlier events reached.
pub proof fn lemma_run_at(r: RunnerView, events: Seq<EventView>, i: int)
    requires
        0 <= i < events.len(),
    ensures
        run(r, events).1.len() == events.len(),
        run(r, events).1[i] == step_spec(run(r, events.take(i)).0, events[i]).1,
    decreases events.len(),
{
    lemma_run_len(r, events);
    let (next, a) = step_spec(r, events[0]);
    if i > 0 {
        lemma_run_at(next, events.drop_first(), i - 1);
        assert(events.take(i).drop_first() =~= events.drop_first().take(i - 1));
        assert(events.take(i)[0] == events[0]);
    }
}

proof fn lemma_run_len(r: RunnerView, events: Seq<EventView>)
    ensures
        run(r, events).1.len() == events.len(),
    decreases events.len(),
{
    if events.len() > 0 {
        lemma_run_len(step_spec(r, events[0]).0, events.drop_first());
    }
}

/// Every acknowledgement in a run answers the delivery of that same message,
/// made while the consumer waited for one: a message is acknowledged right
/// when it arrives, and nothing else is.
pub proof fn lemma_every_ack_answers_its_delivery(r: RunnerView, events: Seq<EventView>, i: int)
    requires
        0 <= i < events.len(),
    ensures
        run(r, events).1[i] is Ack <==> (run(r, events.take(i)).0.phase == Phase::Receiving
            && events[i] is Delivered),
        run(r, events).1[i] is Ack ==> events[i] == EventView::Delivered(run(r, events).1[i]->Ack_0),
{
    lemma_run_at(r, events, i);
    lemma_ack_before_next_receive(run(r, events.take(i)).0, events[i]);
}

} // verus!
