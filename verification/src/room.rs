use std::collections::HashMap;
use vstd::prelude::*;

use vstd::std_specs::cmp::PartialEqSpecImpl;

use crate::names::{all_contained, contains_name, lemma_names_push, names, same_names};
use crate::user_session::SessionId;

verus! {

broadcast use vstd::std_specs::hash::group_hash_axioms;

/// What a room shows to its members: its name, the set of names registered
/// in it (kept without repetition; the order of `users` carries no meaning),
/// and the queue of names that took their turn, in the order they took it.
#[derive(Debug, Clone)]
pub struct RoomState {
    pub name: String,
    pub users: Vec<String>,
    pub turns: Vec<String>,
}

/// The room state with every string taken as its characters.
pub struct RoomStateView {
    pub name: Seq<char>,
    pub users: Seq<Seq<char>>,
    pub turns: Seq<Seq<char>>,
}

impl View for RoomState {
    type V = RoomStateView;

    open spec fn view(&self) -> RoomStateView {
        RoomStateView { name: self.name@, users: names(self.users@), turns: names(self.turns@) }
    }
}

impl RoomStateView {
    /// Two room states are equal when they have the same name, the same set
    /// of users and the same turn queue.
    pub open spec fn same_as(self, other: RoomStateView) -> bool {
        &&& self.name == other.name
        &&& self.users.to_set() == other.users.to_set()
        &&& self.turns == other.turns
    }

    /// No name is listed twice among the users or in the turn queue, and
    /// only registered users stand in the queue.
    pub open spec fn wf(self) -> bool {
        &&& self.users.no_duplicates()
        &&& self.turns.no_duplicates()
        &&& forall|i: int| 0 <= i < self.turns.len() ==> self.users.contains(#[trigger] self.turns[i])
    }
}

impl PartialEq for RoomState {
    fn eq(&self, other: &RoomState) -> (r: bool) {
        let r = self.name == other.name && all_contained(&self.users, &other.users)
            && all_contained(&other.users, &self.users) && same_names(&self.turns, &other.turns);
        proof {
            let a = self@.users;
            let b = other@.users;
            assert((forall|i: int| 0 <= i < a.len() ==> b.contains(#[trigger] a[i])) && (forall|
                i: int,
            |
                0 <= i < b.len() ==> a.contains(#[trigger] b[i])) <==> a.to_set() == b.to_set())
                by {
                if a.to_set() == b.to_set() {
                    assert forall|i: int| 0 <= i < a.len() implies b.contains(#[trigger] a[i]) by {
                        assert(a.to_set().contains(a[i]));
                    }
                    assert forall|i: int| 0 <= i < b.len() implies a.contains(#[trigger] b[i]) by {
                        assert(b.to_set().contains(b[i]));
                    }
                }
                if (forall|i: int| 0 <= i < a.len() ==> b.contains(#[trigger] a[i])) && (forall|
                    i: int,
                |
                    0 <= i < b.len() ==> a.contains(#[trigger] b[i])) {
                    assert forall|x: Seq<char>| a.to_set().contains(x) == b.to_set().contains(x) by {
                        if a.contains(x) {
                            let k = choose|k: int| 0 <= k < a.len() && a[k] == x;
                            assert(b.contains(a[k]));
                        }
                        if b.contains(x) {
                            let k = choose|k: int| 0 <= k < b.len() && b[k] == x;
                            assert(a.contains(b[k]));
                        }
                    }
                    assert(a.to_set() =~= b.to_set());
                }
            }
        }
        r
    }
}

impl PartialEqSpecImpl for RoomState {
    open spec fn obeys_eq_spec() -> bool {
        true
    }

    open spec fn eq_spec(&self, other: &RoomState) -> bool {
        self@.same_as(other@)
    }
}

/// A chat line that a registered user sent to a room.
#[derive(Debug, Clone, PartialEq)]
pub struct ChatNotification {
    pub room: String,
    pub username: String,
    pub message: String,
}

/// A chat notification with every string taken as its characters.
pub struct ChatNotificationView {
    pub room: Seq<char>,
    pub username: Seq<char>,
    pub message: Seq<char>,
}

impl View for ChatNotification {
    type V = ChatNotificationView;

    open spec fn view(&self) -> ChatNotificationView {
        ChatNotificationView { room: self.room@, username: self.username@, message: self.message@ }
    }
}

/// Requests a room receives; `A` is the address through which a joining
/// client is reached.
pub enum MailboxMessage<A> {
    Join { session_id: SessionId, client_addr: A },
    Chat { session_id: SessionId, message: String },
    Register { session_id: SessionId, username: String },
    TakeTurn { session_id: SessionId },
    ResetTurn { session_id: SessionId },
}

impl<A> MailboxMessage<A> {
    /// The session that sent the request.
    pub open spec fn sender(self) -> SessionId {
        match self {
            MailboxMessage::Join { session_id, .. } => session_id,
            MailboxMessage::Chat { session_id, .. } => session_id,
            MailboxMessage::Register { session_id, .. } => session_id,
            MailboxMessage::TakeTurn { session_id } => session_id,
            MailboxMessage::ResetTurn { session_id } => session_id,
        }
    }
}

/// What the room has to send after handling a request.
pub enum RoomEffect {
    /// Nothing is sent.
    Nothing,
    /// The current room state goes to the one session that joined.
    SendState { session_id: SessionId },
    /// The current room state goes to every session of the room.
    BroadcastState,
    /// The chat line goes to every session of the room.
    BroadcastChat(ChatNotification),
}

/// A room effect with every string taken as its characters.
pub enum RoomEffectView {
    Nothing,
    SendState { session_id: SessionId },
    BroadcastState,
    BroadcastChat(ChatNotificationView),
}

impl View for RoomEffect {
    type V = RoomEffectView;

    open spec fn view(&self) -> RoomEffectView {
        match self {
            RoomEffect::Nothing => RoomEffectView::Nothing,
            RoomEffect::SendState { session_id } => RoomEffectView::SendState {
                session_id: *session_id,
            },
            RoomEffect::BroadcastState => RoomEffectView::BroadcastState,
            RoomEffect::BroadcastChat(chat) => RoomEffectView::BroadcastChat(chat@),
        }
    }
}

/// The registered names of sessions, as characters.
pub open spec fn registered_names(m: Map<SessionId, String>) -> Map<SessionId, Seq<char>> {
    m.map_values(|s: String| s@)
}

/// The mathematical model of a room: what it shows, the sessions that joined
/// it with their addresses, and the name each registered session chose.
pub struct RoomModel<A> {
    pub state: RoomStateView,
    pub sessions: Map<SessionId, A>,
    pub registered: Map<SessionId, Seq<char>>,
}

impl<A> RoomModel<A> {
    /// A fresh room of the given name: nobody joined, registered or queued.
    pub open spec fn initial(name: Seq<char>) -> RoomModel<A> {
        RoomModel {
            state: RoomStateView { name, users: Seq::empty(), turns: Seq::empty() },
            sessions: Map::empty(),
            registered: Map::empty(),
        }
    }

    /// The room state is well formed and every registered name is a user.
    pub open spec fn wf(self) -> bool {
        &&& self.state.wf()
        &&& forall|id: SessionId| #[trigger]
            self.registered.contains_key(id) ==> self.state.users.contains(self.registered[id])
    }

    /// How the room answers one request: the room afterwards and what it sends.
    pub open spec fn step(self, msg: MailboxMessage<A>) -> (RoomModel<A>, RoomEffectView) {
        match msg {
            MailboxMessage::Join { session_id, client_addr } => (
                RoomModel { sessions: self.sessions.insert(session_id, client_addr), ..self },
                RoomEffectView::SendState { session_id },
            ),
            MailboxMessage::Register { session_id, username } => {
                if self.sessions.contains_key(session_id) {
                    let u = username@;
                    let users = if self.state.users.contains(u) {
                        self.state.users
                    } else {
                        self.state.users.push(u)
                    };
                    (
                        RoomModel {
                            state: RoomStateView { users, ..self.state },
                            registered: self.registered.insert(session_id, u),
                            ..self
                        },
                        RoomEffectView::BroadcastState,
                    )
                } else {
                    (self, RoomEffectView::Nothing)
                }
            },
            MailboxMessage::Chat { session_id, message } => {
                if self.registered.contains_key(session_id) {
                    (
                        self,
                        RoomEffectView::BroadcastChat(
                            ChatNotificationView {
                                room: self.state.name,
                                username: self.registered[session_id],
                                message: message@,
                            },
                        ),
                    )
                } else {
                    (self, RoomEffectView::Nothing)
                }
            },
            MailboxMessage::TakeTurn { session_id } => {
                if self.registered.contains_key(session_id) {
                    let u = self.registered[session_id];
                    let turns = if self.state.turns.contains(u) {
                        self.state.turns
                    } else {
                        self.state.turns.push(u)
                    };
                    (
                        RoomModel { state: RoomStateView { turns, ..self.state }, ..self },
                        RoomEffectView::BroadcastState,
                    )
                } else {
                    (self, RoomEffectView::Nothing)
                }
            },
            MailboxMessage::ResetTurn { session_id } => {
                if self.registered.contains_key(session_id) {
                    (
                        RoomModel {
                            state: RoomStateView { turns: Seq::empty(), ..self.state },
                            ..self
                        },
                        RoomEffectView::BroadcastState,
                    )
                } else {
                    (self, RoomEffectView::Nothing)
                }
            },
        }
    }
}

/// A room: its state, the sessions that joined it (reached through
/// addresses of type `A`) and the names that sessions registered.
pub struct Room<A> {
    state: RoomState,
    sessions: HashMap<SessionId, A>,
    registered_users: HashMap<SessionId, String>,
}

impl<A> View for Room<A> {
    type V = RoomModel<A>;

    closed spec fn view(&self) -> RoomModel<A> {
        RoomModel {
            state: self.state@,
            sessions: self.sessions@,
            registered: registered_names(self.registered_users@),
        }
    }
}

impl<A> Room<A> {
    /// A new, empty room with the given name.
    pub fn new(name: String) -> (room: Room<A>)
        ensures
            room@ == RoomModel::<A>::initial(name@),
            room@.wf(),
    {
        let room = Room {
            state: RoomState { name, users: Vec::new(), turns: Vec::new() },
            sessions: HashMap::new(),
            registered_users: HashMap::new(),
        };
        proof {
            assert(names(room.state.users@) =~= Seq::<Seq<char>>::empty());
            assert(names(room.state.turns@) =~= Seq::<Seq<char>>::empty());
            assert(registered_names(room.registered_users@) =~= Map::<SessionId, Seq<char>>::empty());
        }
        room
    }

    /// The state the room shows.
    pub fn state(&self) -> (state: &RoomState)
        ensures
            state@ == self@.state,
    {
        &self.state
    }

    /// The sessions that joined the room, by id, with their addresses.
    pub fn sessions(&self) -> (sessions: &HashMap<SessionId, A>)
        ensures
            sessions@ == self@.sessions,
    {
        &self.sessions
    }

    /// Forgets the sessions that could not be reached while the room was
    /// broadcasting; nothing else changes.
    pub fn remove_sessions(&mut self, closed: &Vec<SessionId>)
        requires
            old(self)@.wf(),
        ensures
            final(self)@ == (RoomModel {
                sessions: old(self)@.sessions.remove_keys(closed@.to_set()),
                ..old(self)@
            }),
            final(self)@.wf(),
    {
        let ghost m0 = self@;
        proof {
            assert(closed@.take(0).to_set() =~= Set::<SessionId>::empty());
            assert(m0.sessions.remove_keys(Set::<SessionId>::empty()) =~= m0.sessions);
        }
        let mut i: usize = 0;
        while i < closed.len()
            invariant
                0 <= i <= closed.len(),
                self@ == (RoomModel {
                    sessions: m0.sessions.remove_keys(closed@.take(i as int).to_set()),
                    ..m0
                }),
            decreases closed.len() - i,
        {
            self.sessions.remove(&closed[i]);
            proof {
                assert(closed@.take(i + 1) == closed@.take(i as int).push(closed@[i as int]));
                closed@.take(i as int).lemma_push_to_set_commute(closed@[i as int]);
                assert(self.sessions@ =~= m0.sessions.remove_keys(
                    closed@.take(i + 1).to_set(),
                ));
            }
            i = i + 1;
        }
        proof {
            assert(closed@.take(closed@.len() as int) == closed@);
        }
    }

    /// Handles one request; the result says what has to be sent.
    pub fn handle_message(&mut self, message: MailboxMessage<A>) -> (effect: RoomEffect)
        requires
            old(self)@.wf(),
        ensures
            (final(self)@, effect@) == old(self)@.step(message),
            final(self)@.wf(),
            final(self)@.state.name == old(self)@.state.name,
            !(message is TakeTurn) && !(message is ResetTurn) ==> final(self)@.state.turns == old(
                self,
            )@.state.turns,
            !(message is Register) ==> final(self)@.registered == old(self)@.registered,
            message is ResetTurn && old(self)@.registered.contains_key(message.sender()) ==> {
                &&& final(self)@.state.turns.len() == 0
                &&& effect@ == RoomEffectView::BroadcastState
            },
            (match message {
                MailboxMessage::Chat { session_id, message: text } => old(
                    self,
                )@.registered.contains_key(session_id) ==> effect@ == RoomEffectView::BroadcastChat(
                    ChatNotificationView {
                        room: old(self)@.state.name,
                        username: old(self)@.registered[session_id],
                        message: text@,
                    },
                ),
                _ => true,
            }),
    {
        let ghost m0 = self@;
        proof {
            lemma_step_preserves_wf(m0, message);
            lemma_what_each_request_may_change(m0, message);
        }
        match message {
            MailboxMessage::Join { session_id, client_addr } => {
                self.sessions.insert(session_id, client_addr);
                RoomEffect::SendState { session_id }
            },
            MailboxMessage::Register { session_id, username } => {
                if self.sessions.contains_key(&session_id) {
                    if !contains_name(&self.state.users, &username) {
                        let u = username.clone();
                        proof {
                            lemma_names_push(self.state.users@, u);
                        }
                        self.state.users.push(u);
                    }
                    let ghost old_reg = self.registered_users@;
                    self.registered_users.insert(session_id, username);
                    proof {
                        assert(registered_names(self.registered_users@) =~= registered_names(
                            old_reg,
                        ).insert(session_id, username@));
                    }
                    RoomEffect::BroadcastState
                } else {
                    RoomEffect::Nothing
                }
            },
            MailboxMessage::Chat { session_id, message } => {
                match self.registered_users.get(&session_id) {
                    Some(username) => {
                        let chat = ChatNotification {
                            room: self.state.name.clone(),
                            username: username.clone(),
                            message,
                        };
                        RoomEffect::BroadcastChat(chat)
                    },
                    None => RoomEffect::Nothing,
                }
            },
            MailboxMessage::TakeTurn { session_id } => {
                match self.registered_users.get(&session_id) {
                    Some(username) => {
                        if !contains_name(&self.state.turns, username) {
                            let u = username.clone();
                            proof {
                                lemma_names_push(self.state.turns@, u);
                            }
                            self.state.turns.push(u);
                        }
                        RoomEffect::BroadcastState
                    },
                    None => RoomEffect::Nothing,
                }
            },
            MailboxMessage::ResetTurn { session_id } => {
                if self.registered_users.contains_key(&session_id) {
                    self.state.turns.clear();
                    proof {
                        assert(names(self.state.turns@) =~= Seq::<Seq<char>>::empty());
                    }
                    RoomEffect::BroadcastState
                } else {
                    RoomEffect::Nothing
                }
            },
        }
    }
}

/// Every request keeps a well-formed room well formed.
pub proof fn lemma_step_preserves_wf<A>(m: RoomModel<A>, msg: MailboxMessage<A>)
    requires
        m.wf(),
    ensures
        m.step(msg).0.wf(),
{
    match msg {
        MailboxMessage::Register { session_id, username } => {
            if m.sessions.contains_key(session_id) {
                let m1 = m.step(msg).0;
                let u = username@;
                assert forall|i: int| 0 <= i < m1.state.turns.len() implies m1.state.users.contains(
                    #[trigger] m1.state.turns[i],
                ) by {
                    assert(m.state.users.contains(m.state.turns[i]));
                    let k = choose|k: int| 0 <= k < m.state.users.len() && m.state.users[k] == m.state.turns[i];
                    if !m.state.users.contains(u) {
                        assert(m1.state.users[k] == m.state.users[k]);
                    }
                }
                assert forall|id: SessionId| #[trigger]
                    m1.registered.contains_key(id) implies m1.state.users.contains(m1.registered[id]) by {
                    if id == session_id {
                        if !m.state.users.contains(u) {
                            assert(m1.state.users[m1.state.users.len() - 1] == u);
                        }
                    } else {
                        assert(m.state.users.contains(m.registered[id]));
                        let k = choose|k: int| 0 <= k < m.state.users.len() && m.state.users[k] == m.registered[id];
                        if !m.state.users.contains(u) {
                            assert(m1.state.users[k] == m.state.users[k]);
                        }
                    }
                }
            }
        },
        MailboxMessage::TakeTurn { session_id } => {
            if m.registered.contains_key(session_id) {
                let m1 = m.step(msg).0;
                let u = m.registered[session_id];
                assert(m.state.users.contains(u));
                assert forall|i: int| 0 <= i < m1.state.turns.len() implies m1.state.users.contains(
                    #[trigger] m1.state.turns[i],
                ) by {
                    if i < m.state.turns.len() {
                        assert(m1.state.turns[i] == m.state.turns[i]);
                    }
                }
            }
        },
        _ => {},
    }
}

/// Taking a turn a second time leaves the room exactly as the first time
/// left it: nobody stands in the queue twice.
pub proof fn lemma_take_turn_is_idempotent<A>(m: RoomModel<A>, session_id: SessionId)
    requires
        m.wf(),
    ensures
        ({
            let m1 = m.step(MailboxMessage::TakeTurn { session_id }).0;
            m1.step(MailboxMessage::TakeTurn { session_id }).0 == m1
        }),
{
    let m1 = m.step(MailboxMessage::<A>::TakeTurn { session_id }).0;
    if m.registered.contains_key(session_id) {
        let u = m.registered[session_id];
        if !m.state.turns.contains(u) {
            assert(m1.state.turns[m1.state.turns.len() - 1] == u);
        }
        assert(m1.state.turns.contains(u));
    }
}

/// A chat line, a turn request or a reset from a session that has not
/// registered a name changes nothing and is answered by nothing.
pub proof fn lemma_unregistered_requests_are_ignored<A>(m: RoomModel<A>, msg: MailboxMessage<A>)
    requires
        !(msg is Join),
        !(msg is Register),
        !m.registered.contains_key(msg.sender()),
    ensures
        m.step(msg) == (m, RoomEffectView::Nothing),
{
}

/// A session that has not joined the room cannot register a name in it.
pub proof fn lemma_register_needs_join<A>(m: RoomModel<A>, session_id: SessionId, username: String)
    requires
        !m.sessions.contains_key(session_id),
    ensures
        m.step(MailboxMessage::Register { session_id, username }) == (m, RoomEffectView::Nothing),
{
}

/// Only a registration adds a name to the users, and it adds the chosen name
/// and no other; no request removes a user.
pub proof fn lemma_only_register_adds_users<A>(m: RoomModel<A>, msg: MailboxMessage<A>)
    ensures
        match msg {
            MailboxMessage::Register { username, .. } => {
                let users = m.step(msg).0.state.users;
                users == m.state.users || users == m.state.users.push(username@)
            },
            _ => m.step(msg).0.state.users == m.state.users,
        },
{
}

/// Joining adds the session and shows it the room, which itself stays as it was.
pub proof fn lemma_join_keeps_state<A>(m: RoomModel<A>, session_id: SessionId, client_addr: A)
    ensures
        m.step(MailboxMessage::Join { session_id, client_addr }).0.state == m.state,
        m.step(MailboxMessage::Join { session_id, client_addr }).0.sessions[session_id]
            == client_addr,
        m.step(MailboxMessage::Join { session_id, client_addr }).1 == (RoomEffectView::SendState {
            session_id,
        }),
{
}

/// A reset from any registered session empties the turn queue, whatever it
/// holds and whether or not the sender stands in it; users, sessions and
/// registrations stay, and the new state is broadcast.
pub proof fn lemma_reset_empties_queue_for_any_registered_sender<A>(
    m: RoomModel<A>,
    session_id: SessionId,
)
    requires
        m.registered.contains_key(session_id),
    ensures
        m.step(MailboxMessage::ResetTurn { session_id }).0.state.turns == Seq::<Seq<char>>::empty(),
        m.step(MailboxMessage::ResetTurn { session_id }).0.state.users == m.state.users,
        m.step(MailboxMessage::ResetTurn { session_id }).0.state.name == m.state.name,
        m.step(MailboxMessage::ResetTurn { session_id }).0.sessions == m.sessions,
        m.step(MailboxMessage::ResetTurn { session_id }).0.registered == m.registered,
        m.step(MailboxMessage::ResetTurn { session_id }).1 == RoomEffectView::BroadcastState,
{
}

/// A chat line from a registered session is broadcast under the room's name
/// and the name that very session registered, with its text unchanged; the
/// room itself does not change.
pub proof fn lemma_chat_carries_the_senders_name<A>(
    m: RoomModel<A>,
    session_id: SessionId,
    message: String,
)
    requires
        m.registered.contains_key(session_id),
    ensures
        m.step(MailboxMessage::Chat { session_id, message }).1 == RoomEffectView::BroadcastChat(
            ChatNotificationView {
                room: m.state.name,
                username: m.registered[session_id],
                message: message@,
            },
        ),
        m.step(MailboxMessage::Chat { session_id, message }).0 == m,
{
}

/// Registering never touches the turn queue, the room's name or its
/// sessions; from a joined session it adds the name to the users (as a set),
/// records it for the session and broadcasts the state.
pub proof fn lemma_register_keeps_turns<A>(
    m: RoomModel<A>,
    session_id: SessionId,
    username: String,
)
    ensures
        m.step(MailboxMessage::Register { session_id, username }).0.state.turns == m.state.turns,
        m.step(MailboxMessage::Register { session_id, username }).0.state.name == m.state.name,
        m.step(MailboxMessage::Register { session_id, username }).0.sessions == m.sessions,
        m.sessions.contains_key(session_id) ==> {
            &&& m.step(MailboxMessage::Register { session_id, username }).0.state.users.to_set()
                == m.state.users.to_set().insert(username@)
            &&& m.step(MailboxMessage::Register { session_id, username }).0.registered
                == m.registered.insert(session_id, username@)
            &&& m.step(MailboxMessage::Register { session_id, username }).1
                == RoomEffectView::BroadcastState
        },
{
    if m.sessions.contains_key(session_id) {
        let users = m.step(MailboxMessage::Register { session_id, username }).0.state.users;
        if m.state.users.contains(username@) {
            assert(m.state.users.to_set().insert(username@) =~= m.state.users.to_set());
        } else {
            m.state.users.lemma_push_to_set_commute(username@);
        }
    }
}

/// Joining adds the session under its address and leaves every
/// registration, the users and the turn queue as they were.
pub proof fn lemma_join_keeps_registrations<A>(
    m: RoomModel<A>,
    session_id: SessionId,
    client_addr: A,
)
    ensures
        m.step(MailboxMessage::Join { session_id, client_addr }).0.registered == m.registered,
        m.step(MailboxMessage::Join { session_id, client_addr }).0.state.users == m.state.users,
        m.step(MailboxMessage::Join { session_id, client_addr }).0.state.turns == m.state.turns,
        m.step(MailboxMessage::Join { session_id, client_addr }).0.sessions == m.sessions.insert(
            session_id,
            client_addr,
        ),
{
}

/// Only turn requests change the turn queue, only registrations change the
/// registrations, only joins and drops change the sessions, and nothing
/// changes the room's name.
pub proof fn lemma_what_each_request_may_change<A>(m: RoomModel<A>, msg: MailboxMessage<A>)
    ensures
        m.step(msg).0.state.name == m.state.name,
        !(msg is TakeTurn) && !(msg is ResetTurn) ==> m.step(msg).0.state.turns == m.state.turns,
        !(msg is Register) ==> m.step(msg).0.registered == m.registered,
        !(msg is Join) ==> m.step(msg).0.sessions == m.sessions,
{
}

/// A registered session that takes its turn is queued at the end under the
/// name it registered, unless that name already stands in the queue; users,
/// registrations and sessions stay, and the state is broadcast.
pub proof fn lemma_take_turn_queues_the_senders_name<A>(m: RoomModel<A>, session_id: SessionId)
    requires
        m.registered.contains_key(session_id),
    ensures
        !m.state.turns.contains(m.registered[session_id]) ==> m.step(
            MailboxMessage::TakeTurn { session_id },
        ).0.state.turns == m.state.turns.push(m.registered[session_id]),
        m.state.turns.contains(m.registered[session_id]) ==> m.step(
            MailboxMessage::TakeTurn { session_id },
        ).0.state.turns == m.state.turns,
        m.step(MailboxMessage::TakeTurn { session_id }).0.state.users == m.state.users,
        m.step(MailboxMessage::TakeTurn { session_id }).0.registered == m.registered,
        m.step(MailboxMessage::TakeTurn { session_id }).0.sessions == m.sessions,
        m.step(MailboxMessage::TakeTurn { session_id }).1 == RoomEffectView::BroadcastState,
{
}

/// What can happen to a room: a request, or the sessions found unreachable
/// while broadcasting being dropped.
pub enum RoomEvent<A> {
    Request(MailboxMessage<A>),
    DropSessions(Set<SessionId>),
}

impl<A> RoomModel<A> {
    /// The room after one event.
    pub open spec fn apply(self, event: RoomEvent<A>) -> RoomModel<A> {
        match event {
            RoomEvent::Request(msg) => self.step(msg).0,
            RoomEvent::DropSessions(closed) => RoomModel {
                sessions: self.sessions.remove_keys(closed),
                ..self
            },
        }
    }
}

/// The room after a sequence of events, applied in order.
pub open spec fn run_events<A>(m: RoomModel<A>, events: Seq<RoomEvent<A>>) -> RoomModel<A>
    decreases events.len(),
{
    if events.len() == 0 {
        m
    } else {
        run_events(m, events.drop_last()).apply(events.last())
    }
}

/// The names of the registrations the room accepted (those from sessions
/// that had joined) along a sequence of events.
pub open spec fn accepted_names<A>(m: RoomModel<A>, events: Seq<RoomEvent<A>>) -> Set<Seq<char>>
    decreases events.len(),
{
    if events.len() == 0 {
        Set::empty()
    } else {
        let before = accepted_names(m, events.drop_last());
        match events.last() {
            RoomEvent::Request(MailboxMessage::Register { session_id, username }) => {
                if run_events(m, events.drop_last()).sessions.contains_key(session_id) {
                    before.insert(username@)
                } else {
                    before
                }
            },
            _ => before,
        }
    }
}

/// From a new room, after any sequence of requests and drops: the room keeps
/// its name, stays well formed (no repeated user or turn, only users in the
/// queue, every registered name a user), and its users are exactly the names
/// of the registrations it accepted.
pub proof fn lemma_room_after_any_events<A>(name: Seq<char>, events: Seq<RoomEvent<A>>)
    ensures
        ({
            let m = run_events(RoomModel::<A>::initial(name), events);
            &&& m.state.name == name
            &&& m.wf()
            &&& m.state.users.to_set() == accepted_names(RoomModel::<A>::initial(name), events)
        }),
    decreases events.len(),
{
    let m0 = RoomModel::<A>::initial(name);
    if events.len() == 0 {
        assert(m0.state.users.to_set() =~= Set::<Seq<char>>::empty());
    } else {
        let prev = events.drop_last();
        lemma_room_after_any_events(name, prev);
        let mp = run_events(m0, prev);
        let m = run_events(m0, events);
        match events.last() {
            RoomEvent::Request(msg) => {
                lemma_step_preserves_wf(mp, msg);
                lemma_only_register_adds_users(mp, msg);
                match msg {
                    MailboxMessage::Register { session_id, username } => {
                        if mp.sessions.contains_key(session_id) {
                            if mp.state.users.contains(username@) {
                                assert(m.state.users.to_set() =~= mp.state.users.to_set().insert(
                                    username@,
                                ));
                            } else {
                                mp.state.users.lemma_push_to_set_commute(username@);
                            }
                        }
                    },
                    _ => {},
                }
            },
            RoomEvent::DropSessions(closed) => {},
        }
    }
}

} // verus!
