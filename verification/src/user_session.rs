use vstd::hash_map::StringHashMap;
use vstd::prelude::*;

use crate::room::{self, ChatNotification, RoomState};
use crate::ws::{reader, writer};

verus! {

broadcast use vstd::hash_map::group_hash_map_axioms;

/// Identifier the broker gives to each connected user session.
pub type SessionId = usize;

/// What a user session receives: a request from its client, news from a
/// room, or the news that the client's websocket closed.
#[derive(Debug, Clone)]
pub enum MailboxMessage {
    WsMessage(reader::MailboxMessage),
    RoomNotification(RoomState),
    ChatNotification(ChatNotification),
    Close,
}

/// What a user session does next. `A` is the address type of user sessions,
/// which rooms keep for the sessions that joined them.
pub enum UserSessionAction<A> {
    /// Nothing.
    Nothing,
    /// Ask the broker for the room of this name (creating it if need be),
    /// join it with the session's own address and remember it.
    JoinRoom { room: String },
    /// Send the request to the joined room of this name.
    ToRoom { room: String, message: room::MailboxMessage<A> },
    /// Send this to the client over the websocket.
    ToWriter(writer::MailboxMessage),
    /// Leave the broker and stop.
    Stop,
}

/// The mathematical model of a user session: its id and the rooms it
/// joined, by name. `R` is the address type of rooms.
pub struct UserSessionModel<R> {
    pub id: SessionId,
    pub rooms: Map<Seq<char>, R>,
}

impl<R> UserSessionModel<R> {
    /// What the session does with one message; the session itself is not
    /// changed by it.
    pub open spec fn step<A>(self, msg: MailboxMessage) -> UserSessionAction<A> {
        match msg {
            MailboxMessage::WsMessage(req) => match req {
                reader::MailboxMessage::JoinRoom { room } => UserSessionAction::JoinRoom { room },
                reader::MailboxMessage::Register { room, username } => {
                    if self.rooms.contains_key(room@) {
                        UserSessionAction::ToRoom {
                            room,
                            message: room::MailboxMessage::Register { session_id: self.id, username },
                        }
                    } else {
                        UserSessionAction::Nothing
                    }
                },
                reader::MailboxMessage::SendChat { room, message } => {
                    if self.rooms.contains_key(room@) {
                        UserSessionAction::ToRoom {
                            room,
                            message: room::MailboxMessage::Chat { session_id: self.id, message },
                        }
                    } else {
                        UserSessionAction::Nothing
                    }
                },
                reader::MailboxMessage::TakeTurn { room } => {
                    if self.rooms.contains_key(room@) {
                        UserSessionAction::ToRoom {
                            room,
                            message: room::MailboxMessage::TakeTurn { session_id: self.id },
                        }
                    } else {
                        UserSessionAction::Nothing
                    }
                },
                reader::MailboxMessage::ResetTurn { room } => {
                    if self.rooms.contains_key(room@) {
                        UserSessionAction::ToRoom {
                            room,
                            message: room::MailboxMessage::ResetTurn { session_id: self.id },
                        }
                    } else {
                        UserSessionAction::Nothing
                    }
                },
            },
            MailboxMessage::RoomNotification(state) => UserSessionAction::ToWriter(
                writer::MailboxMessage::Room(state),
            ),
            MailboxMessage::ChatNotification(chat) => UserSessionAction::ToWriter(
                writer::MailboxMessage::Chat(chat),
            ),
            MailboxMessage::Close => UserSessionAction::Stop,
        }
    }
}

/// A user session: the id the broker gave it and the rooms it joined.
#[verifier::reject_recursive_types(R)]
pub struct UserSession<R> {
    id: SessionId,
    rooms: StringHashMap<R>,
}

impl<R> View for UserSession<R> {
    type V = UserSessionModel<R>;

    closed spec fn view(&self) -> UserSessionModel<R> {
        UserSessionModel { id: self.id, rooms: self.rooms@ }
    }
}

impl<R> UserSession<R> {
    /// A session that has no id yet (0) and joined no room.
    pub fn new() -> (session: UserSession<R>)
        ensures
            session@.id == 0,
            session@.rooms == Map::<Seq<char>, R>::empty(),
    {
        UserSession { id: 0, rooms: StringHashMap::new() }
    }

    /// The session's id.
    pub fn id(&self) -> (id: SessionId)
        ensures
            id == self@.id,
    {
        self.id
    }

    /// Records the id the broker gave the session.
    pub fn connected(&mut self, session_id: SessionId)
        ensures
            final(self)@ == (UserSessionModel { id: session_id, ..old(self)@ }),
    {
        self.id = session_id;
    }

    /// Remembers the room joined under a name, in place of any earlier one.
    pub fn joined_room(&mut self, name: String, room_addr: R)
        ensures
            final(self)@ == (UserSessionModel {
                rooms: old(self)@.rooms.insert(name@, room_addr),
                ..old(self)@
            }),
    {
        self.rooms.insert(name, room_addr);
    }

    /// The room joined under a name, if any.
    pub fn room_addr(&self, name: &str) -> (room_addr: Option<&R>)
        ensures
            match room_addr {
                Some(r) => self@.rooms.contains_key(name@) && *r == self@.rooms[name@],
                None => !self@.rooms.contains_key(name@),
            },
    {
        self.rooms.get(name)
    }

    /// Decides what to do with one message.
    pub fn handle_message<A>(&self, msg: MailboxMessage) -> (action: UserSessionAction<A>)
        ensures
            action == self@.step::<A>(msg),
            (match msg {
                MailboxMessage::RoomNotification(state) => action == UserSessionAction::<A>::ToWriter(
                    writer::MailboxMessage::Room(state),
                ),
                MailboxMessage::ChatNotification(chat) => action == UserSessionAction::<A>::ToWriter(
                    writer::MailboxMessage::Chat(chat),
                ),
                MailboxMessage::Close => action is Stop,
                _ => true,
            }),
    {
        match msg {
            MailboxMessage::WsMessage(req) => match req {
                reader::MailboxMessage::JoinRoom { room } => UserSessionAction::JoinRoom { room },
                reader::MailboxMessage::Register { room, username } => {
                    if self.rooms.contains_key(room.as_str()) {
                        UserSessionAction::ToRoom {
                            room,
                            message: room::MailboxMessage::Register { session_id: self.id, username },
                        }
                    } else {
                        UserSessionAction::Nothing
                    }
                },
                reader::MailboxMessage::SendChat { room, message } => {
                    if self.rooms.contains_key(room.as_str()) {
                        UserSessionAction::ToRoom {
                            room,
                            message: room::MailboxMessage::Chat { session_id: self.id, message },
                        }
                    } else {
                        UserSessionAction::Nothing
                    }
                },
                reader::MailboxMessage::TakeTurn { room } => {
                    if self.rooms.contains_key(room.as_str()) {
                        UserSessionAction::ToRoom {
                            room,
                            message: room::MailboxMessage::TakeTurn { session_id: self.id },
                        }
                    } else {
                        UserSessionAction::Nothing
                    }
                },
                reader::MailboxMessage::ResetTurn { room } => {
                    if self.rooms.contains_key(room.as_str()) {
                        UserSessionAction::ToRoom {
                            room,
                            message: room::MailboxMessage::ResetTurn { session_id: self.id },
                        }
                    } else {
                        UserSessionAction::Nothing
                    }
                },
            },
            MailboxMessage::RoomNotification(state) => UserSessionAction::ToWriter(
                writer::MailboxMessage::Room(state),
            ),
            MailboxMessage::ChatNotification(chat) => UserSessionAction::ToWriter(
                writer::MailboxMessage::Chat(chat),
            ),
            MailboxMessage::Close => UserSessionAction::Stop,
        }
    }
}

/// A session only sends requests to rooms it joined, and always under its
/// own id.
pub proof fn lemma_requests_go_to_joined_rooms_under_own_id<A, R>(
    m: UserSessionModel<R>,
    msg: MailboxMessage,
)
    ensures
        match m.step::<A>(msg) {
            UserSessionAction::ToRoom { room, message } => m.rooms.contains_key(room@)
                && message.sender() == m.id && !(message is Join),
            _ => true,
        },
{
}

/// Once a room is joined under a name, requests for that name reach it.
pub proof fn lemma_joined_room_receives_requests<A, R>(
    m: UserSessionModel<R>,
    name: String,
    room_addr: R,
    username: String,
)
    ensures
        ({
            let m1 = UserSessionModel { rooms: m.rooms.insert(name@, room_addr), ..m };
            m1.step::<A>(
                MailboxMessage::WsMessage(reader::MailboxMessage::Register { room: name, username }),
            ) == UserSessionAction::<A>::ToRoom {
                room: name,
                message: room::MailboxMessage::Register { session_id: m.id, username },
            }
        }),
{
}

/// Every room state and every chat line a session is sent goes on, unchanged,
/// to its client; a close always stops the session. None depends on the
/// rooms joined or the session's id.
pub proof fn lemma_room_news_reach_the_client<A, R>(
    m: UserSessionModel<R>,
    state: RoomState,
    chat: ChatNotification,
)
    ensures
        m.step::<A>(MailboxMessage::RoomNotification(state)) == UserSessionAction::<A>::ToWriter(
            writer::MailboxMessage::Room(state),
        ),
        m.step::<A>(MailboxMessage::ChatNotification(chat)) == UserSessionAction::<A>::ToWriter(
            writer::MailboxMessage::Chat(chat),
        ),
        (m.step::<A>(MailboxMessage::Close) is Stop),
{
}

/// A join request always goes to the broker, for the room named, whether or
/// not the session already joined it.
pub proof fn lemma_join_request_goes_to_broker<A, R>(m: UserSessionModel<R>, room: String)
    ensures
        (m.step::<A>(MailboxMessage::WsMessage(reader::MailboxMessage::JoinRoom { room }))
            == UserSessionAction::<A>::JoinRoom { room }),
{
}

/// A request for a room the session joined goes to that room, under the
/// session's own id, with its payload unchanged; a request for a room it did
/// not join is dropped.
pub proof fn lemma_requests_reach_their_room_unchanged<A, R>(
    m: UserSessionModel<R>,
    room: String,
    text: String,
)
    ensures
        m.rooms.contains_key(room@) ==> {
            &&& m.step::<A>(
                MailboxMessage::WsMessage(reader::MailboxMessage::Register { room, username: text }),
            ) == UserSessionAction::<A>::ToRoom {
                room,
                message: room::MailboxMessage::Register { session_id: m.id, username: text },
            }
            &&& m.step::<A>(
                MailboxMessage::WsMessage(reader::MailboxMessage::SendChat { room, message: text }),
            ) == UserSessionAction::<A>::ToRoom {
                room,
                message: room::MailboxMessage::Chat { session_id: m.id, message: text },
            }
            &&& m.step::<A>(MailboxMessage::WsMessage(reader::MailboxMessage::TakeTurn { room }))
                == UserSessionAction::<A>::ToRoom {
                room,
                message: room::MailboxMessage::TakeTurn { session_id: m.id },
            }
            &&& m.step::<A>(MailboxMessage::WsMessage(reader::MailboxMessage::ResetTurn { room }))
                == UserSessionAction::<A>::ToRoom {
                room,
                message: room::MailboxMessage::ResetTurn { session_id: m.id },
            }
        },
        !m.rooms.contains_key(room@) ==> {
            &&& m.step::<A>(
                MailboxMessage::WsMessage(reader::MailboxMessage::Register { room, username: text }),
            ) is Nothing
            &&& m.step::<A>(
                MailboxMessage::WsMessage(reader::MailboxMessage::SendChat { room, message: text }),
            ) is Nothing
            &&& m.step::<A>(MailboxMessage::WsMessage(reader::MailboxMessage::TakeTurn { room }))
                is Nothing
            &&& m.step::<A>(MailboxMessage::WsMessage(reader::MailboxMessage::ResetTurn { room }))
                is Nothing
        },
{
}

/// Where the first `Close` stands in a sequence of messages (its length if
/// there is none).
pub open spec fn first_close(msgs: Seq<MailboxMessage>) -> nat
    decreases msgs.len(),
{
    if msgs.len() == 0 {
        0
    } else if msgs[0] is Close {
        0
    } else {
        1 + first_close(msgs.drop_first())
    }
}

/// What a session does, in order, as it reads `msgs` from its mailbox: the
/// action of each message up to the first `Close`, every join being recorded
/// under the room the broker handed out for it (`joined` lists those rooms in
/// order); then, whether the `Close` came or the mailbox ran dry, one `Stop`,
/// on which the session leaves the broker.
pub open spec fn session_run<A, R>(
    m: UserSessionModel<R>,
    msgs: Seq<MailboxMessage>,
    joined: Seq<R>,
) -> Seq<UserSessionAction<A>>
    decreases msgs.len(),
{
    if msgs.len() == 0 {
        seq![UserSessionAction::Stop]
    } else {
        let action = m.step::<A>(msgs[0]);
        match action {
            UserSessionAction::Stop => seq![UserSessionAction::Stop],
            UserSessionAction::JoinRoom { room } => seq![action] + session_run(
                UserSessionModel { rooms: m.rooms.insert(room@, joined[0]), ..m },
                msgs.drop_first(),
                joined.drop_first(),
            ),
            _ => seq![action] + session_run(m, msgs.drop_first(), joined),
        }
    }
}

/// A session leaves the broker exactly once, as its last act: for the
/// messages before the first `Close` it does what each asks (none of which is
/// a `Stop`), then it stops; whatever follows that `Close` is never read.
pub proof fn lemma_session_stops_once_at_first_close<A, R>(
    m: UserSessionModel<R>,
    msgs: Seq<MailboxMessage>,
    joined: Seq<R>,
)
    ensures
        ({
            let out = session_run::<A, R>(m, msgs, joined);
            let i = first_close(msgs);
            &&& out.len() == i + 1
            &&& out.last() is Stop
            &&& forall|k: int| 0 <= k < i ==> !(#[trigger] out[k] is Stop)
            &&& i < msgs.len() ==> out == session_run::<A, R>(m, msgs.take(i + 1 as int), joined)
        }),
    decreases msgs.len(),
{
    if msgs.len() > 0 {
        let rest = msgs.drop_first();
        let action = m.step::<A>(msgs[0]);
        let i = first_close(msgs);
        if !(msgs[0] is Close) {
            assert(!(action is Stop));
            let m1 = match action {
                UserSessionAction::JoinRoom { room } => UserSessionModel {
                    rooms: m.rooms.insert(room@, joined[0]),
                    ..m
                },
                _ => m,
            };
            let j1 = match action {
                UserSessionAction::JoinRoom { .. } => joined.drop_first(),
                _ => joined,
            };
            lemma_session_stops_once_at_first_close::<A, R>(m1, rest, j1);
            let tail = session_run::<A, R>(m1, rest, j1);
            assert(session_run::<A, R>(m, msgs, joined) == seq![action] + tail);
            if i < msgs.len() {
                let t = msgs.take(i + 1 as int);
                assert(t.len() > 0);
                assert(t[0] == msgs[0]);
                assert(t.drop_first() =~= rest.take(first_close(rest) + 1 as int));
                assert(session_run::<A, R>(m, t, joined) == seq![action] + session_run::<A, R>(
                    m1,
                    t.drop_first(),
                    j1,
                ));
            }
            let out = session_run::<A, R>(m, msgs, joined);
            assert forall|k: int| 0 <= k < i implies !(#[trigger] out[k] is Stop) by {
                if k > 0 {
                    assert(out[k] == tail[k - 1]);
                }
            }
        } else {
            if i < msgs.len() {
                let t = msgs.take(i + 1 as int);
                assert(t[0] == msgs[0]);
            }
        }
    }
}

} // verus!
