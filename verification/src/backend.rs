//! The cache's end of the two queues that join it to the connection worker:
//! events that arrived and wait to be read, requests that wait to be sent.

use crate::chain::{BackendEvent, BackendRequest};
use crate::hash::BlockHash;
use std::collections::VecDeque;
use vstd::prelude::*;
use vstd::string::StringExecFns;

verus! {

broadcast use vstd::std_specs::vecdeque::group_vec_dequeue_axioms;

/// How many events one poll reads at most, and so how many may wait.
pub const MAX_BACKEND_UPDATES: usize = 100;

/// A request, with the text of a URL in place of the string that holds it.
pub enum RequestView {
    ConnectTo(Seq<char>),
    GetBlockInfo(BlockHash),
}

impl View for BackendRequest {
    type V = RequestView;

    open spec fn view(&self) -> RequestView {
        match self {
            BackendRequest::ConnectTo(url) => RequestView::ConnectTo(url@),
            BackendRequest::GetBlockInfo(hash) => RequestView::GetBlockInfo(*hash),
        }
    }
}

/// The views of a sequence of requests.
pub open spec fn request_views(requests: Seq<BackendRequest>) -> Seq<RequestView> {
    requests.map_values(|r: BackendRequest| r@)
}

/// What a [`Backend`] holds.
pub struct BackendModel {
    /// The URL last asked for.
    pub url: Seq<char>,
    /// Events that arrived and were not read yet, oldest first.
    pub events: Seq<BackendEvent>,
    /// Requests that were made and not sent yet, oldest first.
    pub requests: Seq<RequestView>,
}

impl BackendModel {
    /// The waiting events fit one poll, and each of them is well formed.
    pub open spec fn wf(self) -> bool {
        &&& self.events.len() <= MAX_BACKEND_UPDATES
        &&& forall|i: int| 0 <= i < self.events.len() ==> (#[trigger] self.events[i]).wf()
    }

    /// One more event can wait.
    pub open spec fn has_room(self) -> bool {
        self.events.len() < MAX_BACKEND_UPDATES
    }

    /// After an event arrived.
    pub open spec fn delivered(self, event: BackendEvent) -> BackendModel {
        BackendModel { events: self.events.push(event), ..self }
    }

    /// After the oldest waiting event was read.
    pub open spec fn read(self) -> BackendModel {
        BackendModel { events: self.events.drop_first(), ..self }
    }

    /// After the waiting requests were sent.
    pub open spec fn sent(self) -> BackendModel {
        BackendModel { requests: Seq::empty(), ..self }
    }

    /// After a request to connect to `url`.
    pub open spec fn connect_to(self, url: Seq<char>) -> BackendModel {
        BackendModel { url, requests: self.requests.push(RequestView::ConnectTo(url)), ..self }
    }

    /// After a request for the block with the given hash.
    pub open spec fn get_block_info(self, hash: BlockHash) -> BackendModel {
        BackendModel { requests: self.requests.push(RequestView::GetBlockInfo(hash)), ..self }
    }
}

/// The cache's end of the queues to and from the connection worker.
pub struct Backend {
    url: String,
    events: VecDeque<BackendEvent>,
    requests: Vec<BackendRequest>,
}

impl View for Backend {
    type V = BackendModel;

    closed spec fn view(&self) -> BackendModel {
        BackendModel {
            url: self.url@,
            events: self.events@,
            requests: request_views(self.requests@),
        }
    }
}

impl Backend {
    /// A backend that was asked for nothing and has heard nothing.
    pub fn new() -> (r: Backend)
        ensures
            r@.url == Seq::<char>::empty(),
            r@.events == Seq::<BackendEvent>::empty(),
            r@.requests == Seq::<RequestView>::empty(),
    {
        let r = Backend { url: String::new(), events: VecDeque::new(), requests: Vec::new() };
        assert(r@.requests =~= Seq::<RequestView>::empty());
        r
    }

    /// The URL last asked for.
    pub fn get_url(&self) -> (r: &str)
        ensures
            r@ == self@.url,
    {
        self.url.as_str()
    }

    /// Whether `url` is the URL last asked for.
    pub fn is_url(&self, url: &String) -> (r: bool)
        ensures
            r == (self@.url == url@),
    {
        self.url == *url
    }

    /// Asks the worker to connect to `url`.
    pub fn connect_to(&mut self, url: &str)
        ensures
            final(self)@ == old(self)@.connect_to(url@),
    {
        self.url = String::from_str(url);
        self.requests.push(BackendRequest::ConnectTo(String::from_str(url)));
        assert(final(self)@.requests =~= old(self)@.requests.push(RequestView::ConnectTo(url@)));
    }

    /// Asks the worker for the block with the given hash.
    pub fn get_block_info(&mut self, hash: BlockHash)
        ensures
            final(self)@ == old(self)@.get_block_info(hash),
    {
        self.requests.push(BackendRequest::GetBlockInfo(hash));
        assert(final(self)@.requests =~= old(self)@.requests.push(RequestView::GetBlockInfo(hash)));
    }

    /// Takes the oldest event that waits; nothing if none does.
    pub fn next_update(&mut self) -> (r: Option<BackendEvent>)
        ensures
            match r {
                Some(event) => {
                    &&& old(self)@.events.len() > 0
                    &&& event == old(self)@.events[0]
                    &&& final(self)@ == old(self)@.read()
                },
                None => old(self)@.events.len() == 0 && final(self)@ == old(self)@,
            },
    {
        let r = self.events.pop_front();
        if r.is_some() {
            assert(self.events@ =~= old(self).events@.drop_first());
        }
        r
    }

    /// Whether one more event can wait.
    pub fn has_room(&self) -> (r: bool)
        ensures
            r == self@.has_room(),
    {
        self.events.len() < MAX_BACKEND_UPDATES
    }

    /// Hands in an event that the worker reported. Where no more events can
    /// wait, the event comes back and nothing changes.
    pub fn deliver(&mut self, event: BackendEvent) -> (r: Result<(), BackendEvent>)
        ensures
            match r {
                Ok(_) => {
                    &&& old(self)@.has_room()
                    &&& final(self)@ == old(self)@.delivered(event)
                },
                Err(back) => !old(self)@.has_room() && back == event && final(self)@ == old(self)@,
            },
    {
        if self.events.len() < MAX_BACKEND_UPDATES {
            self.events.push_back(event);
            Ok(())
        } else {
            Err(event)
        }
    }

    /// Takes the requests that wait to be sent, oldest first.
    pub fn take_requests(&mut self) -> (r: Vec<BackendRequest>)
        ensures
            request_views(r@) == old(self)@.requests,
            final(self)@ == old(self)@.sent(),
    {
        let mut out: Vec<BackendRequest> = Vec::new();
        std::mem::swap(&mut self.requests, &mut out);
        assert(final(self)@.requests =~= Seq::<RequestView>::empty());
        out
    }
}

} // verus!
