use std::collections::HashMap;
use vstd::hash_map::StringHashMap;
use vstd::prelude::*;

use crate::user_session::SessionId;

verus! {

broadcast use {vstd::std_specs::hash::group_hash_axioms, vstd::hash_map::group_hash_map_axioms};

/// Counts reported by the broker's statistics endpoint.
#[derive(Debug, Clone, Copy, PartialEq, Eq, Structural)]
pub struct BrokerStats {
    pub room_count: usize,
    pub session_count: usize,
}

/// How the broker serves a request to join a room.
#[derive(Debug, Clone, Copy, PartialEq, Eq, Structural)]
pub enum JoinRoomPlan {
    /// Hand out the room kept under the name.
    Reuse,
    /// Start a new room, keep it under the name and hand it out.
    Create,
}

/// The mathematical model of the broker: the last session id it handed out,
/// the connected sessions with their addresses, and the rooms by name.
pub struct BrokerModel<A, W> {
    pub max_session_id: nat,
    pub sessions: Map<SessionId, A>,
    pub rooms: Map<Seq<char>, W>,
}

impl<A, W> BrokerModel<A, W> {
    /// A broker that handed out no id and knows no session and no room.
    pub open spec fn initial() -> BrokerModel<A, W> {
        BrokerModel { max_session_id: 0, sessions: Map::empty(), rooms: Map::empty() }
    }

    /// Both maps are finite and every connected session has an id in
    /// `1..=max_session_id`, so the next id is fresh.
    pub open spec fn wf(self) -> bool {
        &&& self.sessions.dom().finite()
        &&& self.rooms.dom().finite()
        &&& forall|id: SessionId| #[trigger]
            self.sessions.contains_key(id) ==> 1 <= id <= self.max_session_id
    }

    /// A new session: it gets the next id, under which its address is kept.
    pub open spec fn connect(self, client_addr: A) -> (BrokerModel<A, W>, SessionId) {
        let id = (self.max_session_id + 1) as SessionId;
        (
            BrokerModel {
                max_session_id: self.max_session_id + 1,
                sessions: self.sessions.insert(id, client_addr),
                ..self
            },
            id,
        )
    }

    /// A session leaves; the rooms and the id counter stay.
    pub open spec fn disconnect(self, session_id: SessionId) -> BrokerModel<A, W> {
        BrokerModel { sessions: self.sessions.remove(session_id), ..self }
    }

    /// A room is kept under its name, in place of any earlier one.
    pub open spec fn add_room(self, name: Seq<char>, room_addr: W) -> BrokerModel<A, W> {
        BrokerModel { rooms: self.rooms.insert(name, room_addr), ..self }
    }

    /// A room asked to be closed: it is forgotten unless it is still open.
    pub open spec fn close_room(self, name: Seq<char>, still_open: bool) -> BrokerModel<A, W> {
        if still_open {
            self
        } else {
            BrokerModel { rooms: self.rooms.remove(name), ..self }
        }
    }
}

/// The broker: hands out session ids and keeps one room per name. `A` is
/// the address of a user session, `W` the (weak) address of a room.
#[verifier::reject_recursive_types(W)]
pub struct Broker<A, W> {
    max_session_id: SessionId,
    sessions: HashMap<SessionId, A>,
    rooms: StringHashMap<W>,
}

impl<A, W> View for Broker<A, W> {
    type V = BrokerModel<A, W>;

    closed spec fn view(&self) -> BrokerModel<A, W> {
        BrokerModel {
            max_session_id: self.max_session_id as nat,
            sessions: self.sessions@,
            rooms: self.rooms@,
        }
    }
}

impl<A, W> Broker<A, W> {
    /// A broker with no session and no room.
    pub fn new() -> (broker: Broker<A, W>)
        ensures
            broker@ == BrokerModel::<A, W>::initial(),
            broker@.wf(),
    {
        Broker { max_session_id: 0, sessions: HashMap::new(), rooms: StringHashMap::new() }
    }

    /// The last session id handed out (0 before the first).
    pub fn max_session_id(&self) -> (id: SessionId)
        ensures
            id == self@.max_session_id,
    {
        self.max_session_id
    }

    /// Registers a new session and returns its id.
    pub fn connect(&mut self, client_addr: A) -> (session_id: SessionId)
        requires
            old(self)@.wf(),
            old(self)@.max_session_id < usize::MAX,
        ensures
            (final(self)@, session_id) == old(self)@.connect(client_addr),
            !old(self)@.sessions.contains_key(session_id),
            final(self)@.wf(),
    {
        self.max_session_id = self.max_session_id + 1;
        let id = self.max_session_id;
        self.sessions.insert(id, client_addr);
        proof {
            assert(self.sessions@.dom() =~= old(self)@.sessions.dom().insert(id));
        }
        id
    }

    /// Forgets a session.
    pub fn disconnect(&mut self, session_id: SessionId)
        requires
            old(self)@.wf(),
        ensures
            final(self)@ == old(self)@.disconnect(session_id),
            final(self)@.wf(),
    {
        self.sessions.remove(&session_id);
        proof {
            assert(self.sessions@.dom() =~= old(self)@.sessions.dom().remove(session_id));
        }
    }

    /// The room kept under a name, if any.
    pub fn find_room(&self, name: &str) -> (room_addr: Option<&W>)
        ensures
            match room_addr {
                Some(w) => self@.rooms.contains_key(name@) && *w == self@.rooms[name@],
                None => !self@.rooms.contains_key(name@),
            },
    {
        self.rooms.get(name)
    }

    /// Decides how a join request for `name` is served: the room kept under
    /// the name is reused if there is one and it is still open
    /// (`kept_room_open`: a client still holds it), otherwise a new room is
    /// created.
    pub fn join_room_plan(&self, name: &str, kept_room_open: bool) -> (plan: JoinRoomPlan)
        ensures
            plan == (if self@.rooms.contains_key(name@) && kept_room_open {
                JoinRoomPlan::Reuse
            } else {
                JoinRoomPlan::Create
            }),
    {
        if self.rooms.contains_key(name) && kept_room_open {
            JoinRoomPlan::Reuse
        } else {
            JoinRoomPlan::Create
        }
    }

    /// Keeps a (new) room under its name, replacing any earlier one.
    pub fn add_room(&mut self, name: String, room_addr: W)
        requires
            old(self)@.wf(),
        ensures
            final(self)@ == old(self)@.add_room(name@, room_addr),
            final(self)@.wf(),
    {
        let ghost n = name@;
        self.rooms.insert(name, room_addr);
        proof {
            assert(self.rooms@.dom() =~= old(self)@.rooms.dom().insert(n));
        }
    }

    /// A room reports that it stopped: it is forgotten unless a client
    /// still holds it open (`still_open`).
    pub fn close_room(&mut self, name: &str, still_open: bool)
        requires
            old(self)@.wf(),
        ensures
            final(self)@ == old(self)@.close_room(name@, still_open),
            final(self)@.wf(),
    {
        if !still_open {
            self.rooms.remove(name);
            proof {
                assert(self.rooms@.dom() =~= old(self)@.rooms.dom().remove(name@));
            }
        }
    }

    /// The number of rooms and of connected sessions.
    pub fn stats(&self) -> (stats: BrokerStats)
        ensures
            stats.room_count == self@.rooms.len(),
            stats.session_count == self@.sessions.len(),
    {
        BrokerStats { room_count: self.rooms.len(), session_count: self.sessions.len() }
    }
}

/// A new session always gets an id that no connected session has, so the
/// number of sessions grows by exactly one.
pub proof fn lemma_connect_adds_one_session<A, W>(m: BrokerModel<A, W>, client_addr: A)
    requires
        m.wf(),
        m.max_session_id < usize::MAX,
    ensures
        !m.sessions.contains_key(m.connect(client_addr).1),
        m.connect(client_addr).0.sessions.len() == m.sessions.len() + 1,
        m.connect(client_addr).0.wf(),
{
    let (m1, id) = m.connect(client_addr);
    assert(m1.sessions.dom() =~= m.sessions.dom().insert(id));
}

/// Ids increase: of two sessions connected one after the other, the later
/// one has the larger id.
pub proof fn lemma_session_ids_increase<A, W>(m: BrokerModel<A, W>, a: A, b: A)
    requires
        m.wf(),
        m.max_session_id + 1 < usize::MAX,
    ensures
        m.connect(a).1 < m.connect(a).0.connect(b).1,
{
}

/// Disconnecting the session that just connected gives back the sessions
/// the broker had before.
pub proof fn lemma_connect_then_disconnect<A, W>(m: BrokerModel<A, W>, client_addr: A)
    requires
        m.wf(),
        m.max_session_id < usize::MAX,
    ensures
        ({
            let (m1, id) = m.connect(client_addr);
            m1.disconnect(id).sessions == m.sessions && m1.disconnect(id).rooms == m.rooms
        }),
{
    let (m1, id) = m.connect(client_addr);
    assert(!m.sessions.contains_key(id));
    assert(m1.disconnect(id).sessions =~= m.sessions);
}

/// A room that is still open is never forgotten; one that is not is gone.
pub proof fn lemma_close_room_keeps_open_rooms<A, W>(
    m: BrokerModel<A, W>,
    name: Seq<char>,
    still_open: bool,
)
    ensures
        still_open ==> m.close_room(name, still_open).rooms == m.rooms,
        !still_open ==> !m.close_room(name, still_open).rooms.contains_key(name),
{
}

/// The room added under a name is the one found under it; the number of
/// rooms grows only when the name was new.
pub proof fn lemma_add_room_then_find<A, W>(m: BrokerModel<A, W>, name: Seq<char>, room_addr: W)
    requires
        m.wf(),
    ensures
        m.add_room(name, room_addr).rooms[name] == room_addr,
        m.rooms.contains_key(name) ==> m.add_room(name, room_addr).rooms.len() == m.rooms.len(),
        !m.rooms.contains_key(name) ==> m.add_room(name, room_addr).rooms.len() == m.rooms.len()
            + 1,
{
    assert(m.add_room(name, room_addr).rooms.dom() =~= m.rooms.dom().insert(name));
}

/// A request that changes the broker, as the broker's loop applies them.
pub enum BrokerRequest<A, W> {
    Connect(A),
    Disconnect(SessionId),
    AddRoom(Seq<char>, W),
    CloseRoom(Seq<char>, bool),
}

impl<A, W> BrokerModel<A, W> {
    /// The broker after one request.
    pub open spec fn apply(self, request: BrokerRequest<A, W>) -> BrokerModel<A, W> {
        match request {
            BrokerRequest::Connect(client_addr) => self.connect(client_addr).0,
            BrokerRequest::Disconnect(session_id) => self.disconnect(session_id),
            BrokerRequest::AddRoom(name, room_addr) => self.add_room(name, room_addr),
            BrokerRequest::CloseRoom(name, still_open) => self.close_room(name, still_open),
        }
    }
}

/// The broker after a sequence of requests, applied in order.
pub open spec fn run_requests<A, W>(m: BrokerModel<A, W>, requests: Seq<BrokerRequest<A, W>>) -> BrokerModel<A, W>
    decreases requests.len(),
{
    if requests.len() == 0 {
        m
    } else {
        run_requests(m, requests.drop_last()).apply(requests.last())
    }
}

/// The addresses of the connect requests of a sequence, in order.
pub open spec fn connected_addrs<A, W>(requests: Seq<BrokerRequest<A, W>>) -> Seq<A>
    decreases requests.len(),
{
    if requests.len() == 0 {
        Seq::empty()
    } else {
        let before = connected_addrs(requests.drop_last());
        match requests.last() {
            BrokerRequest::Connect(client_addr) => before.push(client_addr),
            _ => before,
        }
    }
}

/// The ids the broker answers the connect requests of a sequence with, in order.
pub open spec fn connect_answers<A, W>(m: BrokerModel<A, W>, requests: Seq<BrokerRequest<A, W>>) -> Seq<SessionId>
    decreases requests.len(),
{
    if requests.len() == 0 {
        Seq::empty()
    } else {
        let before = connect_answers(m, requests.drop_last());
        match requests.last() {
            BrokerRequest::Connect(client_addr) => before.push(
                run_requests(m, requests.drop_last()).connect(client_addr).1,
            ),
            _ => before,
        }
    }
}

/// From a new broker, whatever requests come in between: the k-th connect
/// is answered with id k (so ids start at 1, increase and are never reused,
/// disconnects notwithstanding), the counter equals the number of connects,
/// and every connected session is kept with the address of its own connect.
pub proof fn lemma_kth_connect_gets_id_k<A, W>(requests: Seq<BrokerRequest<A, W>>)
    requires
        connected_addrs(requests).len() <= usize::MAX,
    ensures
        ({
            let m = run_requests(BrokerModel::<A, W>::initial(), requests);
            let ids = connect_answers(BrokerModel::<A, W>::initial(), requests);
            let addrs = connected_addrs(requests);
            &&& ids.len() == addrs.len()
            &&& forall|k: int| 0 <= k < ids.len() ==> #[trigger] ids[k] == k + 1
            &&& m.max_session_id == addrs.len()
            &&& m.wf()
            &&& forall|id: SessionId| #[trigger]
                m.sessions.contains_key(id) ==> 1 <= id <= addrs.len() && m.sessions[id] == addrs[id - 1]
        }),
    decreases requests.len(),
{
    let m0 = BrokerModel::<A, W>::initial();
    if requests.len() == 0 {
        assert(m0.sessions.dom() =~= Set::<SessionId>::empty());
        assert(m0.rooms.dom() =~= Set::<Seq<char>>::empty());
    } else {
        let prev = requests.drop_last();
        assert(connected_addrs(prev).len() <= connected_addrs(requests).len());
        lemma_kth_connect_gets_id_k(prev);
        let mp = run_requests(m0, prev);
        let m = run_requests(m0, requests);
        let addrs = connected_addrs(requests);
        let pa = connected_addrs(prev);
        match requests.last() {
            BrokerRequest::Connect(client_addr) => {
                assert(addrs == pa.push(client_addr));
                assert(m.sessions.dom() =~= mp.sessions.dom().insert((mp.max_session_id + 1) as SessionId));
                assert forall|id: SessionId| #[trigger]
                    m.sessions.contains_key(id) implies 1 <= id <= addrs.len() && m.sessions[id] == addrs[id - 1] by {
                    if id != (mp.max_session_id + 1) as SessionId {
                        assert(mp.sessions.contains_key(id));
                    }
                }
            },
            BrokerRequest::Disconnect(session_id) => {
                assert(m.sessions.dom() =~= mp.sessions.dom().remove(session_id));
                assert forall|id: SessionId| #[trigger]
                    m.sessions.contains_key(id) implies 1 <= id <= addrs.len() && m.sessions[id] == addrs[id - 1] by {
                    assert(mp.sessions.contains_key(id));
                }
            },
            BrokerRequest::AddRoom(name, room_addr) => {
                assert(m.rooms.dom() =~= mp.rooms.dom().insert(name));
            },
            BrokerRequest::CloseRoom(name, still_open) => {
                if !still_open {
                    assert(m.rooms.dom() =~= mp.rooms.dom().remove(name));
                }
            },
        }
    }
}

} // verus!
