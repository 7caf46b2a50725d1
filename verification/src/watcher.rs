//! The phase watcher's decisions. The watcher alternates outside work
//! (reading the lockfile, connecting, reading frames, sleeping) with
//! decisions; the decisions are taken here, one step at a time, from what
//! the outside work reported.

use crate::config::DaemonConfig;
use crate::lockfile::{AuthView, LockfileAuth};
use crate::model::{opt_text, Event, EventKind, EventView, PayloadView};
use crate::phase::{message_phase, parse_phase_message, phase_event};
use vstd::prelude::*;

verus! {

/// What the watcher is waiting for.
#[derive(Debug, Clone, Copy, PartialEq, Eq, Structural)]
pub enum WatchStage {
    /// The outcome of the search for the lockfile.
    Discovering,
    /// The outcome of the connection attempt.
    Connecting,
    /// The outcome of the subscription.
    Subscribing,
    /// The answer of the priming request.
    Priming,
    /// The next frame of the websocket.
    Listening,
    /// The outcome of sending a pong.
    Ponging,
    /// The end of a sleep.
    Sleeping,
}

/// A frame read from the websocket, or the end of the stream.
#[derive(Debug, Clone)]
pub enum Frame {
    Text(String),
    Ping(Vec<u8>),
    Pong,
    Binary,
    Raw,
    Close,
    /// The stream reported an error.
    Failed,
    /// The stream ended.
    Ended,
}

/// What the outside work reported.
#[derive(Debug, Clone)]
pub enum WatchReport {
    /// The search for the lockfile ended, with or without a lockfile.
    Lockfile(Option<LockfileAuth>),
    /// The connection attempt ended; `true` if the websocket is open.
    Connected(bool),
    /// The subscription ended; `true` if the first frame was sent. That the
    /// second frame could not be sent is no failure.
    Subscribed(bool),
    /// The priming request ended, with the phase it told, if any.
    Primed(Option<String>),
    /// A frame was read.
    Frame(Frame),
    /// The pong was sent, or could not be.
    PongSent(bool),
    /// The sleep is over.
    Slept,
}

/// What the watcher asks the outside to do next.
#[derive(Debug, Clone)]
pub enum WatchAction {
    /// Look for the lockfile.
    Discover,
    /// Connect to the websocket with these credentials.
    Connect(LockfileAuth),
    /// Send the two subscription frames.
    Subscribe,
    /// Ask for the present phase with these credentials.
    Prime(LockfileAuth),
    /// Read the next frame.
    Read,
    /// Answer a ping with a pong of the same payload.
    Pong(Vec<u8>),
    /// Drop the connection, if any, and sleep for so many milliseconds.
    Sleep(u64),
}

/// One decision: what to do next, and the event to publish before doing it,
/// if any.
#[derive(Debug, Clone)]
pub struct WatchStep {
    pub action: WatchAction,
    pub emit: Option<Event>,
}

/// The watcher's state.
#[derive(Debug, Clone)]
pub struct PhaseWatcher {
    pub stage: WatchStage,
    pub last_phase: Option<String>,
    pub auth: Option<LockfileAuth>,
    pub discovery_interval: u64,
    pub retry_delay: u64,
}

/// What a [`WatchAction`] stands for.
pub enum ActionView {
    Discover,
    Connect(AuthView),
    Subscribe,
    Prime(AuthView),
    Read,
    Pong(Seq<u8>),
    Sleep(u64),
}

impl View for WatchAction {
    type V = ActionView;

    open spec fn view(&self) -> ActionView {
        match *self {
            WatchAction::Discover => ActionView::Discover,
            WatchAction::Connect(auth) => ActionView::Connect(auth@),
            WatchAction::Subscribe => ActionView::Subscribe,
            WatchAction::Prime(auth) => ActionView::Prime(auth@),
            WatchAction::Read => ActionView::Read,
            WatchAction::Pong(payload) => ActionView::Pong(payload@),
            WatchAction::Sleep(millis) => ActionView::Sleep(millis),
        }
    }
}

/// What a [`PhaseWatcher`] stands for.
pub struct WatcherView {
    pub stage: WatchStage,
    pub last_phase: Option<Seq<char>>,
    pub auth: Option<AuthView>,
    pub discovery_interval: u64,
    pub retry_delay: u64,
}

/// What optional credentials stand for.
pub open spec fn opt_auth(auth: Option<LockfileAuth>) -> Option<AuthView> {
    match auth {
        Some(auth) => Some(auth@),
        None => None,
    }
}

impl View for PhaseWatcher {
    type V = WatcherView;

    open spec fn view(&self) -> WatcherView {
        WatcherView {
            stage: self.stage,
            last_phase: opt_text(self.last_phase),
            auth: opt_auth(self.auth),
            discovery_interval: self.discovery_interval,
            retry_delay: self.retry_delay,
        }
    }
}

/// What a report tells, as far as a decision depends on it.
pub enum ReportView {
    Lockfile(Option<AuthView>),
    Connected(bool),
    Subscribed(bool),
    /// The phase that the priming answer told.
    Primed(Option<Seq<char>>),
    /// A text frame, with the phase that it tells.
    Text(Option<Seq<char>>),
    Ping(Seq<u8>),
    /// A frame that is passed over: a pong, a binary or a raw frame.
    Skipped,
    /// The connection is gone: it was closed, it failed, or it ended.
    Gone,
    PongSent(bool),
    Slept,
}

impl View for WatchReport {
    type V = ReportView;

    open spec fn view(&self) -> ReportView {
        match *self {
            WatchReport::Lockfile(auth) => ReportView::Lockfile(opt_auth(auth)),
            WatchReport::Connected(open) => ReportView::Connected(open),
            WatchReport::Subscribed(sent) => ReportView::Subscribed(sent),
            WatchReport::Primed(phase) => ReportView::Primed(opt_text(phase)),
            WatchReport::Frame(frame) => match frame {
                Frame::Text(text) => ReportView::Text(message_phase(text@)),
                Frame::Ping(payload) => ReportView::Ping(payload@),
                Frame::Pong | Frame::Binary | Frame::Raw => ReportView::Skipped,
                Frame::Close | Frame::Failed | Frame::Ended => ReportView::Gone,
            },
            WatchReport::PongSent(sent) => ReportView::PongSent(sent),
            WatchReport::Slept => ReportView::Slept,
        }
    }
}

/// The outcome of a decision: the state after it, the action, and the event
/// to publish.
pub struct Decision {
    pub state: WatcherView,
    pub action: ActionView,
    pub emit: Option<EventView>,
}

/// The event that announces a phase at time `ts`.
pub open spec fn phase_change(phase: Seq<char>, ts: u64) -> EventView {
    EventView { kind: EventKind::PhaseChange, ts, payload: PayloadView::Phase { phase } }
}

/// The decision to go on in `stage` with `action`, without an event.
pub open spec fn proceed(state: WatcherView, stage: WatchStage, action: ActionView) -> Decision {
    Decision { state: WatcherView { stage, ..state }, action, emit: None }
}

/// The decision to give the connection up and try again after the retry
/// delay.
pub open spec fn retry(state: WatcherView) -> Decision {
    proceed(state, WatchStage::Sleeping, ActionView::Sleep(state.retry_delay))
}

/// The decision on a phase that was told: a phase that differs from the last
/// one is published and remembered; then the next frame is read.
pub open spec fn on_phase(state: WatcherView, phase: Option<Seq<char>>, ts: u64) -> Decision {
    match phase {
        Some(told) => if state.last_phase != Some(told) {
            Decision {
                state: WatcherView {
                    stage: WatchStage::Listening,
                    last_phase: Some(told),
                    ..state
                },
                action: ActionView::Read,
                emit: Some(phase_change(told, ts)),
            }
        } else {
            proceed(state, WatchStage::Listening, ActionView::Read)
        },
        None => proceed(state, WatchStage::Listening, ActionView::Read),
    }
}

/// The watcher's rule: what it decides in a state on a report, at time `ts`.
///
/// Without a lockfile it sleeps for the discovery interval and searches
/// again. With one it connects, subscribes, asks for the present phase, and
/// reads frames. A phase that differs from the last one is published. A ping
/// is answered. When the connection cannot be made, is closed, fails or
/// ends, when the subscription or a pong cannot be sent, and on any report
/// that does not answer what was asked, it sleeps for the retry delay and
/// starts over with the search.
pub open spec fn decide(state: WatcherView, report: ReportView, ts: u64) -> Decision {
    match (state.stage, report) {
        (WatchStage::Discovering, ReportView::Lockfile(Some(auth))) => Decision {
            state: WatcherView { stage: WatchStage::Connecting, auth: Some(auth), ..state },
            action: ActionView::Connect(auth),
            emit: None,
        },
        (WatchStage::Discovering, ReportView::Lockfile(None)) => proceed(
            state,
            WatchStage::Sleeping,
            ActionView::Sleep(state.discovery_interval),
        ),
        (WatchStage::Connecting, ReportView::Connected(true)) => proceed(
            state,
            WatchStage::Subscribing,
            ActionView::Subscribe,
        ),
        (WatchStage::Subscribing, ReportView::Subscribed(true)) => match state.auth {
            Some(auth) => proceed(state, WatchStage::Priming, ActionView::Prime(auth)),
            None => retry(state),
        },
        (WatchStage::Priming, ReportView::Primed(phase)) => on_phase(state, phase, ts),
        (WatchStage::Listening, ReportView::Text(phase)) => on_phase(state, phase, ts),
        (WatchStage::Listening, ReportView::Ping(payload)) => proceed(
            state,
            WatchStage::Ponging,
            ActionView::Pong(payload),
        ),
        (WatchStage::Listening, ReportView::Skipped) => proceed(
            state,
            WatchStage::Listening,
            ActionView::Read,
        ),
        (WatchStage::Ponging, ReportView::PongSent(true)) => proceed(
            state,
            WatchStage::Listening,
            ActionView::Read,
        ),
        (WatchStage::Sleeping, ReportView::Slept) => proceed(
            state,
            WatchStage::Discovering,
            ActionView::Discover,
        ),
        _ => retry(state),
    }
}

/// The event that a step publishes, if any.
pub open spec fn opt_event(event: Option<Event>) -> Option<EventView> {
    match event {
        Some(event) => Some(event@),
        None => None,
    }
}

/// The text that asks the client for all events.
pub fn subscribe_all_frame() -> (res: String)
    ensures
        res@ == "[\"subscribe\",\"OnJsonApiEvent\"]"@,
{
    "[\"subscribe\",\"OnJsonApiEvent\"]".to_owned()
}

/// The text that asks the client for the events of the gameflow phase.
pub fn subscribe_phase_frame() -> (res: String)
    ensures
        res@ == "[\"subscribe\",\"/lol-gameflow/v1/gameflow-phase\"]"@,
{
    "[\"subscribe\",\"/lol-gameflow/v1/gameflow-phase\"]".to_owned()
}

/// The value of the `Origin` header of the websocket request.
pub fn websocket_origin() -> (res: String)
    ensures
        res@ == "https://127.0.0.1"@,
{
    "https://127.0.0.1".to_owned()
}

/// A copy of the credentials.
fn copy_auth(auth: &LockfileAuth) -> (res: LockfileAuth)
    ensures
        res@ == auth@,
{
    LockfileAuth {
        port: auth.port,
        password: auth.password.clone(),
        protocol: auth.protocol.clone(),
    }
}

/// A copy of a payload.
fn copy_bytes(bytes: &Vec<u8>) -> (res: Vec<u8>)
    ensures
        res@ == bytes@,
{
    let mut out: Vec<u8> = Vec::new();
    let mut i: usize = 0;
    while i < bytes.len()
        invariant
            0 <= i <= bytes.len(),
            out@ == bytes@.take(i as int),
        decreases bytes.len() - i,
    {
        out.push(bytes[i]);
        i = i + 1;
        assert(bytes@.take(i as int) == bytes@.take(i - 1).push(bytes@[i - 1]));
    }
    assert(bytes@.take(bytes@.len() as int) == bytes@);
    out
}

impl PhaseWatcher {
    /// A watcher that has seen no phase, with the first thing to do: look
    /// for the lockfile.
    pub fn start(config: &DaemonConfig) -> (res: (PhaseWatcher, WatchAction))
        ensures
            res.0@ == (WatcherView {
                stage: WatchStage::Discovering,
                last_phase: None,
                auth: None,
                discovery_interval: config.lcu_discovery_interval,
                retry_delay: config.lcu_retry_delay,
            }),
            res.1@ == ActionView::Discover,
    {
        (
            PhaseWatcher {
                stage: WatchStage::Discovering,
                last_phase: None,
                auth: None,
                discovery_interval: config.lcu_discovery_interval,
                retry_delay: config.lcu_retry_delay,
            },
            WatchAction::Discover,
        )
    }

    /// Goes on in `stage` with `action`.
    fn proceed(&mut self, stage: WatchStage, action: WatchAction) -> (step: WatchStep)
        ensures
            (Decision { state: final(self)@, action: step.action@, emit: opt_event(step.emit) })
                == proceed(old(self)@, stage, action@),
    {
        self.stage = stage;
        WatchStep { action, emit: None }
    }

    /// Gives the connection up.
    fn retry(&mut self) -> (step: WatchStep)
        ensures
            (Decision { state: final(self)@, action: step.action@, emit: opt_event(step.emit) })
                == retry(old(self)@),
    {
        let delay = self.retry_delay;
        self.proceed(WatchStage::Sleeping, WatchAction::Sleep(delay))
    }

    /// Takes note of a phase that was told.
    fn on_phase(&mut self, phase: Option<String>, ts: u64) -> (step: WatchStep)
        ensures
            (Decision { state: final(self)@, action: step.action@, emit: opt_event(step.emit) })
                == on_phase(old(self)@, opt_text(phase), ts),
    {
        match phase {
            Some(told) => {
                let same = match &self.last_phase {
                    Some(last) => *last == told,
                    None => false,
                };
                if same {
                    self.proceed(WatchStage::Listening, WatchAction::Read)
                } else {
                    let event = phase_event(told.as_str(), ts);
                    self.stage = WatchStage::Listening;
                    self.last_phase = Some(told);
                    WatchStep { action: WatchAction::Read, emit: Some(event) }
                }
            },
            None => self.proceed(WatchStage::Listening, WatchAction::Read),
        }
    }

    /// Decides what to do on a report of the outside work. `ts` is the
    /// timestamp that a published event bears.
    pub fn step(&mut self, report: WatchReport, ts: u64) -> (step: WatchStep)
        ensures
            (Decision { state: final(self)@, action: step.action@, emit: opt_event(step.emit) })
                == decide(old(self)@, report@, ts),
    {
        match (self.stage, report) {
            (WatchStage::Discovering, WatchReport::Lockfile(Some(auth))) => {
                let action = WatchAction::Connect(copy_auth(&auth));
                self.stage = WatchStage::Connecting;
                self.auth = Some(auth);
                WatchStep { action, emit: None }
            },
            (WatchStage::Discovering, WatchReport::Lockfile(None)) => {
                let delay = self.discovery_interval;
                self.proceed(WatchStage::Sleeping, WatchAction::Sleep(delay))
            },
            (WatchStage::Connecting, WatchReport::Connected(true)) => {
                self.proceed(WatchStage::Subscribing, WatchAction::Subscribe)
            },
            (WatchStage::Subscribing, WatchReport::Subscribed(true)) => {
                let known = match &self.auth {
                    Some(auth) => Some(copy_auth(auth)),
                    None => None,
                };
                match known {
                    Some(auth) => self.proceed(WatchStage::Priming, WatchAction::Prime(auth)),
                    None => self.retry(),
                }
            },
            (WatchStage::Priming, WatchReport::Primed(phase)) => self.on_phase(phase, ts),
            (WatchStage::Listening, WatchReport::Frame(Frame::Text(text))) => {
                let phase = parse_phase_message(text.as_str());
                self.on_phase(phase, ts)
            },
            (WatchStage::Listening, WatchReport::Frame(Frame::Ping(payload))) => {
                let echo = copy_bytes(&payload);
                self.proceed(WatchStage::Ponging, WatchAction::Pong(echo))
            },
            (WatchStage::Listening, WatchReport::Frame(Frame::Pong)) => {
                self.proceed(WatchStage::Listening, WatchAction::Read)
            },
            (WatchStage::Listening, WatchReport::Frame(Frame::Binary)) => {
                self.proceed(WatchStage::Listening, WatchAction::Read)
            },
            (WatchStage::Listening, WatchReport::Frame(Frame::Raw)) => {
                self.proceed(WatchStage::Listening, WatchAction::Read)
            },
            (WatchStage::Ponging, WatchReport::PongSent(true)) => {
                self.proceed(WatchStage::Listening, WatchAction::Read)
            },
            (WatchStage::Sleeping, WatchReport::Slept) => {
                self.proceed(WatchStage::Discovering, WatchAction::Discover)
            },
            _ => self.retry(),
        }
    }
}

} // verus!
