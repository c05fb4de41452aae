# my_turn

A turn-taking chat service. Clients connect over a websocket, join rooms by
name, register a username in a room, chat, and queue up for turns.

- `src/` is the verified library (Verus): the decision logic of every actor.
  - `room`: a room's state machine (join, register, chat, take and reset
    turns, dropping unreachable sessions), with its model `RoomModel` and the
    laws about it (well-formedness is kept, taking a turn is idempotent,
    unregistered sessions are ignored, ...).
  - `broker`: session ids and the rooms kept by name (`BrokerModel`).
  - `user_session`: how a session routes its client's requests and room news.
  - `ws::reader`: what to do with each websocket frame, heartbeat included;
    `ws::writer`: what clients are sent.
  - `server`: the bare session counter.
- `app/` is the server around it: the tokio actors that run the loops and do
  the sending, the axum routes, and the JSON wire types (serde copies of the
  library's types).
- `tests/` exercise the library, including a full websocket conversation
  replayed through the state machines.
