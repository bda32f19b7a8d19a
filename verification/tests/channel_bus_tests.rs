use ro_world::map::channel::{ChannelBus, ChatType, GameEvent};
use tokio::sync::mpsc;

fn make_subscriber(id: u128) -> (u128, mpsc::UnboundedSender<Vec<u8>>, mpsc::UnboundedReceiver<Vec<u8>>) {
    let (tx, rx) = mpsc::unbounded_channel();
    (id, tx, rx)
}

#[test]
fn subscribe_adds_subscriber_to_channel() {
    let mut bus = ChannelBus::new();
    let (player_id, tx, _rx) = make_subscriber(1);
    bus.subscribe("map_1", player_id, tx, 10, 10);
    assert_eq!(bus.subscriber_count("map_1"), 1);
}

#[test]
fn unsubscribe_removes_subscriber() {
    let mut bus = ChannelBus::new();
    let (player_id, tx, _rx) = make_subscriber(1);
    bus.subscribe("map_1", player_id, tx, 10, 10);
    assert_eq!(bus.subscriber_count("map_1"), 1);
    bus.unsubscribe("map_1", player_id);
    assert_eq!(bus.subscriber_count("map_1"), 0);
}

#[test]
fn publish_sends_to_subscribers_within_vision_radius() {
    let mut bus = ChannelBus::new();
    let (p1_id, tx1, mut rx1) = make_subscriber(1);
    let (p2_id, tx2, mut rx2) = make_subscriber(2);
    let (p3_id, tx3, mut rx3) = make_subscriber(3);
    bus.subscribe("map_1", p1_id, tx1, 10, 10);
    bus.subscribe("map_1", p2_id, tx2, 15, 10);
    bus.subscribe("map_1", p3_id, tx3, 100, 100);
    let event = GameEvent::PlayerMove { player_id: p1_id, from_x: 10, from_y: 10, to_x: 11, to_y: 10 };
    bus.publish("map_1", &event, vec![1, 2, 3]);
    assert!(rx1.try_recv().is_err());
    assert_eq!(rx2.try_recv().unwrap(), vec![1, 2, 3]);
    assert!(rx3.try_recv().is_err());
}

#[test]
fn publish_does_not_send_to_event_source_player() {
    let mut bus = ChannelBus::new();
    let (p1_id, tx1, mut rx1) = make_subscriber(1);
    let (p2_id, tx2, mut rx2) = make_subscriber(2);
    bus.subscribe("map_1", p1_id, tx1, 10, 10);
    bus.subscribe("map_1", p2_id, tx2, 10, 10);
    let event = GameEvent::PlayerEnter {
        player_id: p1_id,
        name: "Alice".to_string(),
        x: 10,
        y: 10,
        job: 1,
        level: 1,
        hp: 100,
        max_hp: 100,
    };
    bus.publish("map_1", &event, vec![42]);
    assert!(rx1.try_recv().is_err());
    assert!(rx2.try_recv().is_ok());
}

#[test]
fn party_channel_bypasses_vision_filtering() {
    let mut bus = ChannelBus::new();
    let (p1_id, tx1, mut rx1) = make_subscriber(1);
    let (p2_id, tx2, mut rx2) = make_subscriber(2);
    bus.subscribe("party:abc", p1_id, tx1, 10, 10);
    bus.subscribe("party:abc", p2_id, tx2, 100, 100);
    let event = GameEvent::PlayerChat { player_id: p1_id, message: "hello".to_string(), chat_type: ChatType::Party };
    bus.publish("party:abc", &event, vec![1]);
    assert!(rx1.try_recv().is_err());
    assert!(rx2.try_recv().is_ok());
}

#[test]
fn subscriber_count_returns_correct_count() {
    let mut bus = ChannelBus::new();
    assert_eq!(bus.subscriber_count("map_1"), 0);
    let (p1_id, tx1, _rx1) = make_subscriber(1);
    let (p2_id, tx2, _rx2) = make_subscriber(2);
    bus.subscribe("map_1", p1_id, tx1, 0, 0);
    assert_eq!(bus.subscriber_count("map_1"), 1);
    bus.subscribe("map_1", p2_id, tx2, 0, 0);
    assert_eq!(bus.subscriber_count("map_1"), 2);
    bus.unsubscribe("map_1", p1_id);
    assert_eq!(bus.subscriber_count("map_1"), 1);
    assert_eq!(bus.subscriber_count("nonexistent"), 0);
}

#[test]
fn vision_edge_and_moves() {
    let mut bus = ChannelBus::new();
    let (a, txa, _rxa) = make_subscriber(1);
    let (b, txb, _rxb) = make_subscriber(2);
    bus.subscribe("map_1", a, txa, 24, 10);
    bus.subscribe("map_1", b, txb, 25, 10);
    let event = GameEvent::MobMove { mob_id: 99, to_x: 10, to_y: 10 };
    assert_eq!(bus.recipients("map_1", &event), vec![1]);
    bus.update_position("map_1", b, 11, 11);
    let mut r = bus.recipients("map_1", &event);
    r.sort();
    assert_eq!(r, vec![1, 2]);
    // An event with no place reaches everyone but its source.
    let leave = GameEvent::PlayerLeave { player_id: a };
    assert_eq!(bus.recipients("map_1", &leave), vec![2]);
    assert!(bus.recipients("nowhere", &leave).is_empty());
}

#[test]
fn send_to_player_finds_a_listener() {
    let mut bus = ChannelBus::new();
    let (a, txa, mut rxa) = make_subscriber(1);
    bus.subscribe("map_1", a, txa, 0, 0);
    assert!(bus.send_to_player(a, vec![7]));
    assert_eq!(rxa.try_recv().unwrap(), vec![7]);
    assert!(!bus.send_to_player(2, vec![7]));
    drop(rxa);
    assert!(!bus.send_to_player(a, vec![8]));
}
