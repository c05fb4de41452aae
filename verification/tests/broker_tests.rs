use my_turn::broker::{Broker, BrokerStats, JoinRoomPlan};

fn stats(rooms: usize, sessions: usize) -> BrokerStats {
    BrokerStats { room_count: rooms, session_count: sessions }
}

#[test]
fn new_broker_has_nothing() {
    let broker: Broker<u32, u32> = Broker::new();
    assert_eq!(broker.stats(), stats(0, 0));
}

#[test]
fn connect_hands_out_increasing_ids() {
    let mut broker: Broker<u32, u32> = Broker::new();
    assert_eq!(broker.connect(10), 1);
    assert_eq!(broker.connect(20), 2);
    assert_eq!(broker.stats(), stats(0, 2));
    broker.disconnect(1);
    // ids are never reused
    assert_eq!(broker.connect(30), 3);
    assert_eq!(broker.stats(), stats(0, 2));
}

#[test]
fn connect_then_disconnect_restores_count() {
    let mut broker: Broker<u32, u32> = Broker::new();
    broker.connect(10);
    let id = broker.connect(20);
    broker.disconnect(id);
    assert_eq!(broker.stats(), stats(0, 1));
    // disconnecting an unknown session changes nothing
    broker.disconnect(42);
    assert_eq!(broker.stats(), stats(0, 1));
}

#[test]
fn rooms_are_kept_one_per_name() {
    let mut broker: Broker<u32, u32> = Broker::new();
    assert_eq!(broker.find_room("abc"), None);
    broker.add_room("abc".to_string(), 7);
    assert_eq!(broker.find_room("abc"), Some(&7));
    assert_eq!(broker.stats(), stats(1, 0));
    broker.add_room("abc".to_string(), 8);
    assert_eq!(broker.find_room("abc"), Some(&8));
    assert_eq!(broker.stats(), stats(1, 0));
    broker.add_room("xyz".to_string(), 9);
    assert_eq!(broker.stats(), stats(2, 0));
}

#[test]
fn close_room_keeps_rooms_still_open() {
    let mut broker: Broker<u32, u32> = Broker::new();
    broker.add_room("abc".to_string(), 7);
    broker.close_room("abc", true);
    assert_eq!(broker.find_room("abc"), Some(&7));
    broker.close_room("abc", false);
    assert_eq!(broker.find_room("abc"), None);
    assert_eq!(broker.stats(), stats(0, 0));
    // closing an unknown room changes nothing
    broker.close_room("nope", false);
    assert_eq!(broker.stats(), stats(0, 0));
}

#[test]
fn join_reuses_only_open_rooms() {
    let mut broker: Broker<u32, u32> = Broker::new();
    assert_eq!(broker.join_room_plan("abc", false), JoinRoomPlan::Create);
    // a room that is not kept cannot be reused, whatever the caller says
    assert_eq!(broker.join_room_plan("abc", true), JoinRoomPlan::Create);
    broker.add_room("abc".to_string(), 7);
    assert_eq!(broker.join_room_plan("abc", true), JoinRoomPlan::Reuse);
    assert_eq!(broker.join_room_plan("abc", false), JoinRoomPlan::Create);
}

#[test]
fn kth_connect_gets_k_whatever_comes_between() {
    let mut broker: Broker<u32, u32> = Broker::new();
    let mut ids = Vec::new();
    for k in 1..=5u32 {
        ids.push(broker.connect(k * 10));
        broker.add_room(format!("room {}", k), k);
        broker.disconnect(ids[0]);
        broker.close_room("room 1", false);
    }
    assert_eq!(ids, vec![1, 2, 3, 4, 5]);
    assert_eq!(broker.max_session_id(), 5);
    assert_eq!(broker.stats(), stats(4, 4));
}
