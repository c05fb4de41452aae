use std::collections::HashMap;
use vstd::prelude::*;

use crate::user_session::SessionId;

verus! {

broadcast use vstd::std_specs::hash::group_hash_axioms;

/// The mathematical model of the session counter: the last id handed out
/// and the sessions it keeps.
pub struct ServerModel<A> {
    pub last_id: nat,
    pub sessions: Map<SessionId, A>,
}

impl<A> ServerModel<A> {
    /// A counter that handed out no id and keeps no session.
    pub open spec fn initial() -> ServerModel<A> {
        ServerModel { last_id: 0, sessions: Map::empty() }
    }

    /// A client connects: it gets the next id.
    pub open spec fn connect(self) -> (ServerModel<A>, SessionId) {
        (ServerModel { last_id: self.last_id + 1, ..self }, (self.last_id + 1) as SessionId)
    }

    /// A client disconnects: the counter keeps no per-session state, so
    /// nothing changes.
    pub open spec fn disconnect(self, session_id: SessionId) -> ServerModel<A> {
        self
    }
}

/// The bare session counter: it hands out increasing ids and keeps the
/// session map (by id, with addresses of type `A`) it was started with.
pub struct Server<A> {
    max_session_id: SessionId,
    sessions: HashMap<SessionId, A>,
}

impl<A> View for Server<A> {
    type V = ServerModel<A>;

    closed spec fn view(&self) -> ServerModel<A> {
        ServerModel { last_id: self.max_session_id as nat, sessions: self.sessions@ }
    }
}

impl<A> Server<A> {
    /// A counter that handed out no id and keeps no session.
    pub fn new() -> (server: Server<A>)
        ensures
            server@ == ServerModel::<A>::initial(),
    {
        Server { max_session_id: 0, sessions: HashMap::new() }
    }

    /// The last id handed out (0 before the first).
    pub fn last_session_id(&self) -> (id: SessionId)
        ensures
            id == self@.last_id,
    {
        self.max_session_id
    }

    /// A client connects: it gets the next id.
    pub fn connect(&mut self) -> (session_id: SessionId)
        requires
            old(self)@.last_id < usize::MAX,
        ensures
            (final(self)@, session_id) == old(self)@.connect(),
    {
        self.max_session_id = self.max_session_id + 1;
        self.max_session_id
    }

    /// A client disconnects; nothing changes.
    pub fn disconnect(&mut self, session_id: SessionId)
        ensures
            final(self)@ == old(self)@.disconnect(session_id),
    {
    }
}

/// A request the counter handles.
pub enum ServerRequest {
    Connect,
    Disconnect(SessionId),
}

impl<A> ServerModel<A> {
    /// The counter after one request.
    pub open spec fn apply(self, request: ServerRequest) -> ServerModel<A> {
        match request {
            ServerRequest::Connect => self.connect().0,
            ServerRequest::Disconnect(session_id) => self.disconnect(session_id),
        }
    }
}

/// The counter after a sequence of requests, applied in order.
pub open spec fn run_server_requests<A>(m: ServerModel<A>, requests: Seq<ServerRequest>) -> ServerModel<A>
    decreases requests.len(),
{
    if requests.len() == 0 {
        m
    } else {
        run_server_requests(m, requests.drop_last()).apply(requests.last())
    }
}

/// The ids the counter answers the connects of a sequence with, in order.
pub open spec fn server_connect_answers<A>(m: ServerModel<A>, requests: Seq<ServerRequest>) -> Seq<SessionId>
    decreases requests.len(),
{
    if requests.len() == 0 {
        Seq::empty()
    } else {
        let before = server_connect_answers(m, requests.drop_last());
        match requests.last() {
            ServerRequest::Connect => before.push(
                run_server_requests(m, requests.drop_last()).connect().1,
            ),
            _ => before,
        }
    }
}

/// The number of connects in a sequence of requests.
pub open spec fn connect_count(requests: Seq<ServerRequest>) -> nat
    decreases requests.len(),
{
    if requests.len() == 0 {
        0
    } else {
        connect_count(requests.drop_last()) + if requests.last() is Connect {
            1nat
        } else {
            0nat
        }
    }
}

/// From a new counter, whatever disconnects come in between: the k-th
/// connect gets id k (ids 1, 2, 3, ... are never reused), the counter stands
/// at the number of connects, and the session map stays as it was.
pub proof fn lemma_server_kth_connect_gets_id_k<A>(requests: Seq<ServerRequest>)
    requires
        connect_count(requests) <= usize::MAX,
    ensures
        ({
            let m = run_server_requests(ServerModel::<A>::initial(), requests);
            let ids = server_connect_answers(ServerModel::<A>::initial(), requests);
            &&& ids.len() == connect_count(requests)
            &&& forall|k: int| 0 <= k < ids.len() ==> #[trigger] ids[k] == k + 1
            &&& m.last_id == connect_count(requests)
            &&& m.sessions == Map::<SessionId, A>::empty()
        }),
    decreases requests.len(),
{
    if requests.len() > 0 {
        lemma_server_kth_connect_gets_id_k::<A>(requests.drop_last());
    }
}

} // verus!
