//! The decisions of the connection worker.
//!
//! The worker owns the connection to the node. Whatever takes time (waiting
//! for a request, talking to the node, handing an event to the consumer) is
//! done by the task that drives it. That task performs one action at a
//! time and reports what came of it; the worker then says what to do next.

use crate::chain::{BackendEvent, BackendRequest, BlockInfo, EventInfo, Header, Phase};
use crate::event::{event_label, event_payload, json_is_null};
use crate::hash::BlockHash;
use crate::queue::into_deque;
use serde_json::Value;
use vstd::prelude::*;

verus! {

broadcast use vstd::std_specs::vecdeque::group_vec_dequeue_axioms;

/// Where the worker stands in its protocol: which report it waits for.
#[derive(Clone, Copy, Debug, PartialEq, Eq, Structural)]
pub enum Stage {
    /// No node was named yet; the worker waits for a request.
    Idle,
    /// Before another attempt to connect: does the consumer still listen?
    Checking,
    /// The connection to the node is being opened.
    Connecting,
    /// The hash of the block at height zero is being fetched.
    Identifying,
    /// The connection is being announced to the consumer.
    Announcing,
    /// The subscription to new headers is being started.
    Subscribing,
    /// A header is being fetched: the best one, or one that was asked for.
    FindingHeader,
    /// The events of a block are being fetched.
    Reading,
    /// A block is being handed to the consumer.
    Pushing,
    /// The connection stands; the worker waits for a request.
    Serving,
    /// The worker has ended.
    Stopped,
}

/// What the worker asks its task to do.
#[derive(Clone, Debug, PartialEq)]
pub enum WorkerAction {
    /// Wait for the next request of the consumer, or for the subscription to fail.
    AwaitRequest,
    /// Find out whether the consumer still listens.
    CheckConsumer,
    /// Drop the connection and the subscription, if any, and connect to the
    /// worker's node.
    Connect,
    /// Fetch the hash of the block at height zero.
    FetchGenesis,
    /// Subscribe to new headers; each of them goes to the consumer as it comes.
    Subscribe,
    /// Fetch the header of the block with this hash; of the best block, if none is given.
    FetchHeader(Option<BlockHash>),
    /// Fetch the events of the block with this header and build the block.
    FetchEvents(Header),
    /// Hand this event to the consumer, waiting for room if need be.
    Emit(BackendEvent),
    /// End.
    Exit,
}

/// What came of fetching a header.
#[derive(Clone, Copy, Debug, PartialEq)]
pub enum HeaderOutcome {
    Found(Header),
    /// The node knows no such block.
    Unknown,
    /// The node could not be asked.
    Failed,
}

/// What the task reports to the worker.
#[derive(Clone, Debug)]
pub enum WorkerInput {
    /// The consumer made this request.
    Request(BackendRequest),
    /// The consumer will make no more requests.
    RequestsClosed,
    /// The subscription to new headers failed.
    StreamFailed,
    /// Whether the consumer still listens.
    Consumer(bool),
    /// Whether the connection was opened.
    Connected(bool),
    /// The hash of the block at height zero, unless it could not be fetched.
    Genesis(Option<BlockHash>),
    /// Whether the subscription was started.
    Subscribed(bool),
    Header(HeaderOutcome),
    /// The block that was built, unless its events could not be fetched.
    Block(Option<BlockInfo>),
    /// Whether the consumer took the event; it does not once it is gone.
    Emitted(bool),
}

/// What the worker remembers.
pub struct WorkerModel {
    pub stage: Stage,
    /// The node to connect to.
    pub url: Seq<char>,
    /// An attempt to connect was made before.
    pub is_reconnect: bool,
}

impl WorkerModel {
    /// The worker before any request.
    pub open spec fn initial() -> WorkerModel {
        WorkerModel { stage: Stage::Idle, url: Seq::empty(), is_reconnect: false }
    }

    /// The worker has ended, and says so.
    pub open spec fn stop(self) -> (WorkerModel, WorkerAction) {
        (WorkerModel { stage: Stage::Stopped, ..self }, WorkerAction::Exit)
    }

    /// The worker waits for the next request.
    pub open spec fn serve(self) -> (WorkerModel, WorkerAction) {
        (WorkerModel { stage: Stage::Serving, ..self }, WorkerAction::AwaitRequest)
    }

    /// The worker starts over after a failure of the connection: every
    /// further attempt is a reconnect, and none is made for a consumer that
    /// is gone.
    pub open spec fn retry(self) -> (WorkerModel, WorkerAction) {
        (
            WorkerModel { stage: Stage::Checking, is_reconnect: true, ..self },
            WorkerAction::CheckConsumer,
        )
    }

    /// The worker connects to the node at `url`.
    pub open spec fn connect_to(self, url: Seq<char>, is_reconnect: bool) -> (
        WorkerModel,
        WorkerAction,
    ) {
        (WorkerModel { stage: Stage::Connecting, url, is_reconnect }, WorkerAction::Connect)
    }

    /// The worker moves on to another stage, with the action that belongs to it.
    pub open spec fn go(self, stage: Stage, action: WorkerAction) -> (WorkerModel, WorkerAction) {
        (WorkerModel { stage, ..self }, action)
    }

    /// What the worker does on a report: its next state and its next action.
    ///
    /// A connection is made in this order: connect, fetch the hash of the
    /// block at height zero and announce the connection with it, subscribe
    /// to new headers, fetch the best header, fetch and push its block, and
    /// then serve requests. A failure of the connection itself starts the
    /// order over as a reconnect. A request that fails is dropped, and the
    /// worker goes on serving. The worker ends when the consumer is gone. A
    /// report that does not answer the worker's last action ends it too.
    pub open spec fn next(self, input: WorkerInput) -> (WorkerModel, WorkerAction) {
        match (self.stage, input) {
            (Stage::Idle, WorkerInput::Request(BackendRequest::ConnectTo(url))) => self.connect_to(
                url@,
                self.is_reconnect,
            ),
            (Stage::Idle, WorkerInput::Request(BackendRequest::GetBlockInfo(_))) => self.go(
                Stage::Idle,
                WorkerAction::AwaitRequest,
            ),
            (Stage::Checking, WorkerInput::Consumer(true)) => self.go(
                Stage::Connecting,
                WorkerAction::Connect,
            ),
            (Stage::Connecting, WorkerInput::Connected(true)) => self.go(
                Stage::Identifying,
                WorkerAction::FetchGenesis,
            ),
            (Stage::Connecting, WorkerInput::Connected(false)) => self.retry(),
            (Stage::Identifying, WorkerInput::Genesis(Some(genesis))) => self.go(
                Stage::Announcing,
                WorkerAction::Emit(
                    BackendEvent::Connected { genesis, is_reconnect: self.is_reconnect },
                ),
            ),
            (Stage::Identifying, WorkerInput::Genesis(None)) => self.retry(),
            (Stage::Announcing, WorkerInput::Emitted(true)) => self.go(
                Stage::Subscribing,
                WorkerAction::Subscribe,
            ),
            (Stage::Subscribing, WorkerInput::Subscribed(true)) => self.go(
                Stage::FindingHeader,
                WorkerAction::FetchHeader(None),
            ),
            (Stage::Subscribing, WorkerInput::Subscribed(false)) => self.retry(),
            (Stage::FindingHeader, WorkerInput::Header(HeaderOutcome::Found(header))) => self.go(
                Stage::Reading,
                WorkerAction::FetchEvents(header),
            ),
            (Stage::FindingHeader, WorkerInput::Header(_)) => self.serve(),
            (Stage::Reading, WorkerInput::Block(Some(block))) => self.go(
                Stage::Pushing,
                WorkerAction::Emit(BackendEvent::BlockInfo(block)),
            ),
            (Stage::Reading, WorkerInput::Block(None)) => self.serve(),
            (Stage::Pushing, WorkerInput::Emitted(true)) => self.serve(),
            (Stage::Serving, WorkerInput::Request(BackendRequest::ConnectTo(url))) => self.connect_to(
                url@,
                true,
            ),
            (Stage::Serving, WorkerInput::Request(BackendRequest::GetBlockInfo(hash))) => self.go(
                Stage::FindingHeader,
                WorkerAction::FetchHeader(Some(hash)),
            ),
            (Stage::Serving, WorkerInput::StreamFailed) => self.retry(),
            _ => self.stop(),
        }
    }
}

/// The connection worker.
pub struct InnerBackend {
    stage: Stage,
    url: String,
    is_reconnect: bool,
}

impl WorkerModel {
    /// What holds of every state that the worker reaches: it asks after the
    /// consumer only once an attempt to connect has failed.
    pub open spec fn wf(self) -> bool {
        self.stage == Stage::Checking ==> self.is_reconnect
    }
}

/// Every state that the worker reaches is well formed.
pub proof fn lemma_worker_wf(s: WorkerModel, input: WorkerInput)
    requires
        s.wf(),
    ensures
        WorkerModel::initial().wf(),
        s.next(input).0.wf(),
{
}

/// Only the first attempt to connect is no reconnect: once an attempt was
/// made, every later one is a reconnect, and so is every attempt that does
/// not answer the first naming of a node.
pub proof fn lemma_later_attempts_reconnect(s: WorkerModel, input: WorkerInput)
    requires
        s.wf(),
    ensures
        s.is_reconnect ==> s.next(input).0.is_reconnect,
        s.next(input).1 == WorkerAction::Connect && s.stage != Stage::Idle ==> s.next(
            input,
        ).0.is_reconnect,
{
}

/// A connection is announced with the hash that the node gave for the block
/// at height zero, and as a reconnect exactly if an attempt was made before.
pub proof fn lemma_announcement(s: WorkerModel, input: WorkerInput, genesis: BlockHash, flag: bool)
    requires
        s.next(input).1 == (WorkerAction::Emit(
            BackendEvent::Connected { genesis, is_reconnect: flag },
        )),
    ensures
        s.stage == Stage::Identifying,
        input == WorkerInput::Genesis(Some(genesis)),
        flag == s.is_reconnect,
{
}

/// The steps of a connection keep their order: the subscription to new
/// headers is asked for only once the connection was announced, and the best
/// header only once the subscription stands.
pub proof fn lemma_connection_order(s: WorkerModel, input: WorkerInput)
    ensures
        s.next(input).1 == WorkerAction::Subscribe ==> s.stage == Stage::Announcing && input
            == WorkerInput::Emitted(true),
        s.next(input).1 == WorkerAction::FetchHeader(None) ==> s.stage == Stage::Subscribing
            && input == WorkerInput::Subscribed(true),
{
}

/// The worker says that it ends exactly when it ends, and a worker that has
/// ended stays so.
pub proof fn lemma_exit(s: WorkerModel, input: WorkerInput)
    ensures
        s.next(input).1 == WorkerAction::Exit <==> s.next(input).0.stage == Stage::Stopped,
        s.stage == Stage::Stopped ==> s.next(input) == s.stop(),
{
}

/// A request that fails does not end the connection: when a header or the
/// events of a block cannot be fetched, the worker goes on serving.
pub proof fn lemma_failed_request_is_dropped(s: WorkerModel)
    ensures
        s.stage == Stage::FindingHeader ==> s.next(WorkerInput::Header(HeaderOutcome::Failed))
            == s.serve(),
        s.stage == Stage::FindingHeader ==> s.next(WorkerInput::Header(HeaderOutcome::Unknown))
            == s.serve(),
        s.stage == Stage::Reading ==> s.next(WorkerInput::Block(None)) == s.serve(),
{
}

impl View for InnerBackend {
    type V = WorkerModel;

    closed spec fn view(&self) -> WorkerModel {
        WorkerModel { stage: self.stage, url: self.url@, is_reconnect: self.is_reconnect }
    }
}

/// One event of a block as the node gave it, before it is decoded.
pub struct RawEvent {
    pub phase: Phase,
    /// The event as a JSON value, or the reason why it could not be encoded.
    pub encoded: Result<Value, String>,
}

/// The event is what decoding gives for the raw event at the given position
/// of the block with the given number.
pub open spec fn decodes(event: EventInfo, number: u32, position: int, raw: RawEvent) -> bool {
    &&& event.block == number
    &&& event.number == position
    &&& event.phase == raw.phase
    &&& event.name@ == event_label(raw.encoded)
    &&& match event_payload(raw.encoded) {
        Some(payload) => event.value == payload,
        None => json_is_null(event.value),
    }
}

impl InnerBackend {
    /// A worker that waits to be told its node, and its first action.
    pub fn start() -> (r: (InnerBackend, WorkerAction))
        ensures
            r.0@ == WorkerModel::initial(),
            r.1 == WorkerAction::AwaitRequest,
    {
        (
            InnerBackend { stage: Stage::Idle, url: String::new(), is_reconnect: false },
            WorkerAction::AwaitRequest,
        )
    }

    /// The node to connect to.
    pub fn url(&self) -> (r: &str)
        ensures
            r@ == self@.url,
    {
        self.url.as_str()
    }

    /// Whether the worker has ended.
    pub fn is_closed(&self) -> (r: bool)
        ensures
            r == (self@.stage == Stage::Stopped),
    {
        self.stage == Stage::Stopped
    }

    fn stop(&mut self) -> (r: WorkerAction)
        ensures
            (final(self)@, r) == old(self)@.stop(),
    {
        self.stage = Stage::Stopped;
        WorkerAction::Exit
    }

    fn serve(&mut self) -> (r: WorkerAction)
        ensures
            (final(self)@, r) == old(self)@.serve(),
    {
        self.stage = Stage::Serving;
        WorkerAction::AwaitRequest
    }

    fn retry(&mut self) -> (r: WorkerAction)
        ensures
            (final(self)@, r) == old(self)@.retry(),
    {
        self.stage = Stage::Checking;
        self.is_reconnect = true;
        WorkerAction::CheckConsumer
    }

    fn go(&mut self, stage: Stage, action: WorkerAction) -> (r: WorkerAction)
        ensures
            (final(self)@, r) == old(self)@.go(stage, action),
    {
        self.stage = stage;
        action
    }

    /// Takes the report on the last action and gives the next action.
    pub fn run(&mut self, input: WorkerInput) -> (r: WorkerAction)
        ensures
            (final(self)@, r) == old(self)@.next(input),
    {
        match self.stage {
            Stage::Idle => match input {
                WorkerInput::Request(BackendRequest::ConnectTo(url)) => {
                    self.url = url;
                    self.go(Stage::Connecting, WorkerAction::Connect)
                },
                WorkerInput::Request(BackendRequest::GetBlockInfo(_)) => self.go(
                    Stage::Idle,
                    WorkerAction::AwaitRequest,
                ),
                _ => self.stop(),
            },
            Stage::Checking => match input {
                WorkerInput::Consumer(true) => self.go(Stage::Connecting, WorkerAction::Connect),
                _ => self.stop(),
            },
            Stage::Connecting => match input {
                WorkerInput::Connected(true) => self.go(
                    Stage::Identifying,
                    WorkerAction::FetchGenesis,
                ),
                WorkerInput::Connected(false) => self.retry(),
                _ => self.stop(),
            },
            Stage::Identifying => match input {
                WorkerInput::Genesis(Some(genesis)) => {
                    let is_reconnect = self.is_reconnect;
                    self.go(
                        Stage::Announcing,
                        WorkerAction::Emit(BackendEvent::Connected { genesis, is_reconnect }),
                    )
                },
                WorkerInput::Genesis(None) => self.retry(),
                _ => self.stop(),
            },
            Stage::Announcing => match input {
                WorkerInput::Emitted(true) => self.go(Stage::Subscribing, WorkerAction::Subscribe),
                _ => self.stop(),
            },
            Stage::Subscribing => match input {
                WorkerInput::Subscribed(true) => self.go(
                    Stage::FindingHeader,
                    WorkerAction::FetchHeader(None),
                ),
                WorkerInput::Subscribed(false) => self.retry(),
                _ => self.stop(),
            },
            Stage::FindingHeader => match input {
                WorkerInput::Header(HeaderOutcome::Found(header)) => self.go(
                    Stage::Reading,
                    WorkerAction::FetchEvents(header),
                ),
                WorkerInput::Header(_) => self.serve(),
                _ => self.stop(),
            },
            Stage::Reading => match input {
                WorkerInput::Block(Some(block)) => self.go(
                    Stage::Pushing,
                    WorkerAction::Emit(BackendEvent::BlockInfo(block)),
                ),
                WorkerInput::Block(None) => self.serve(),
                _ => self.stop(),
            },
            Stage::Pushing => match input {
                WorkerInput::Emitted(true) => self.serve(),
                _ => self.stop(),
            },
            Stage::Serving => match input {
                WorkerInput::Request(BackendRequest::ConnectTo(url)) => {
                    self.url = url;
                    self.is_reconnect = true;
                    self.go(Stage::Connecting, WorkerAction::Connect)
                },
                WorkerInput::Request(BackendRequest::GetBlockInfo(hash)) => self.go(
                    Stage::FindingHeader,
                    WorkerAction::FetchHeader(Some(hash)),
                ),
                WorkerInput::StreamFailed => self.retry(),
                _ => self.stop(),
            },
            Stage::Stopped => self.stop(),
        }
    }

    /// Builds the block to push for a header and the events of its block,
    /// decoding each event with its position.
    pub fn push_block(header: Header, events: Vec<RawEvent>) -> (r: BlockInfo)
        requires
            events@.len() <= u32::MAX,
        ensures
            r.wf(),
            r.hash == header.hash,
            r.header == header,
            r.events@.len() == events@.len(),
            forall|i: int|
                0 <= i < events@.len() ==> decodes(
                    #[trigger] r.events@[i],
                    header.number,
                    i,
                    events@[i],
                ),
    {
        let ghost all = events@;
        let mut rest = into_deque(events);
        let mut decoded: Vec<EventInfo> = Vec::new();
        while rest.len() > 0
            invariant
                all.len() <= u32::MAX,
                decoded@.len() + rest@.len() == all.len(),
                rest@ == all.skip(decoded@.len() as int),
                forall|i: int|
                    0 <= i < decoded@.len() ==> decodes(
                        #[trigger] decoded@[i],
                        header.number,
                        i,
                        all[i],
                    ),
            decreases rest@.len(),
        {
            let position = decoded.len() as u32;
            match rest.pop_front() {
                Some(raw) => {
                    assert(raw == all[position as int]);
                    let event = EventInfo::new(header.number, position, raw.phase, raw.encoded);
                    decoded.push(event);
                    assert(rest@ =~= all.skip(decoded@.len() as int));
                },
                None => {},
            }
        }
        BlockInfo { hash: header.hash(), header, events: decoded }
    }
}

/// What the subscription to new headers gives.
#[derive(Clone, Copy, Debug)]
pub enum WatcherInput {
    /// The node sent this header.
    Header(Header),
    /// The subscription failed.
    Failed,
    /// The subscription has ended.
    Ended,
    /// Whether the consumer took the header; it does not once it is gone.
    Sent(bool),
}

/// What the task that watches the subscription does next.
#[derive(Clone, Debug, PartialEq)]
pub enum WatcherAction {
    /// Wait for the next header.
    Next,
    /// Hand this event to the consumer, waiting for room if need be.
    Send(BackendEvent),
    /// Tell the worker that the subscription failed, and end.
    Fail,
    /// End.
    Stop,
}

/// The forwarding of subscribed headers to the consumer.
pub struct HeaderWatcher {}

impl HeaderWatcher {
    /// What the watcher does on a report. It forwards every header as it
    /// comes, reports the failure of the subscription, and ends with the
    /// subscription or with the consumer.
    pub open spec fn next(input: WatcherInput) -> WatcherAction {
        match input {
            WatcherInput::Header(header) => WatcherAction::Send(BackendEvent::NewHeader(header)),
            WatcherInput::Failed => WatcherAction::Fail,
            WatcherInput::Ended => WatcherAction::Stop,
            WatcherInput::Sent(true) => WatcherAction::Next,
            WatcherInput::Sent(false) => WatcherAction::Stop,
        }
    }

    /// Takes the report on the last action and gives the next action.
    pub fn run(input: WatcherInput) -> (r: WatcherAction)
        ensures
            r == HeaderWatcher::next(input),
    {
        match input {
            WatcherInput::Header(header) => WatcherAction::Send(BackendEvent::NewHeader(header)),
            WatcherInput::Failed => WatcherAction::Fail,
            WatcherInput::Ended => WatcherAction::Stop,
            WatcherInput::Sent(true) => WatcherAction::Next,
            WatcherInput::Sent(false) => WatcherAction::Stop,
        }
    }
}

} // verus!
