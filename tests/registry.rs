use chat_presence::registry::ConnectionRegistry;
use chat_presence::room::Room;
use chat_presence::router::{recipients, Target};

fn sorted(mut v: Vec<u64>) -> Vec<u64> {
    v.sort();
    v
}

#[test]
fn room_names_follow_the_two_level_scheme() {
    assert_eq!(Room::server("s1").name(), "server_s1");
    assert_eq!(Room::channel("s1", "c9").name(), "server_s1_channel_c9");
}

#[test]
fn rooms_compare_by_kind_and_ids() {
    assert!(Room::server("a").same(&Room::server("a")));
    assert!(!Room::server("a").same(&Room::server("b")));
    assert!(!Room::server("a").same(&Room::channel("a", "x")));
    assert!(Room::channel("a", "x").same(&Room::channel("a", "x")));
    assert!(!Room::channel("a", "x").same(&Room::channel("a", "y")));
}

#[test]
fn subscribe_fills_both_indices() {
    let mut reg = ConnectionRegistry::new();
    reg.register(1);
    reg.register(2);
    let lobby = Room::channel("s", "lobby");
    assert!(reg.subscribe(1, &lobby));
    assert!(reg.subscribe(2, &lobby));
    assert!(reg.subscribe(1, &Room::server("s")));
    assert_eq!(sorted(reg.connections_in(&lobby)), vec![1, 2]);
    assert_eq!(reg.connections_in(&Room::server("s")), vec![1]);
    let rooms = reg.rooms_of(1);
    assert_eq!(rooms.len(), 2);
    for r in &rooms {
        assert!(reg.connections_in(r).contains(&1));
    }
}

#[test]
fn subscribing_twice_is_one_subscription() {
    let mut reg = ConnectionRegistry::new();
    reg.register(7);
    let room = Room::server("s");
    reg.subscribe(7, &room);
    reg.subscribe(7, &room);
    assert_eq!(reg.connections_in(&room), vec![7]);
    assert_eq!(reg.rooms_of(7).len(), 1);
}

#[test]
fn unknown_connection_cannot_subscribe() {
    let mut reg = ConnectionRegistry::new();
    assert!(!reg.subscribe(3, &Room::server("s")));
    assert!(reg.connections_in(&Room::server("s")).is_empty());
    assert!(!reg.bind_user(3, "u".to_string()));
}

#[test]
fn unsubscribe_removes_from_both_indices() {
    let mut reg = ConnectionRegistry::new();
    reg.register(1);
    let room = Room::channel("s", "c");
    reg.subscribe(1, &room);
    assert!(reg.unsubscribe(1, &room));
    assert!(reg.connections_in(&room).is_empty());
    assert!(reg.rooms_of(1).is_empty());
    assert!(reg.unsubscribe(1, &room));
    assert!(!reg.unsubscribe(9, &room));
}

#[test]
fn unregister_drops_subscriptions_and_returns_user() {
    let mut reg = ConnectionRegistry::new();
    reg.register(1);
    reg.register(2);
    reg.bind_user(1, "alice".to_string());
    let room = Room::channel("s", "c");
    reg.subscribe(1, &room);
    reg.subscribe(2, &room);
    assert_eq!(reg.unregister(1), Some("alice".to_string()));
    assert_eq!(reg.connections_in(&room), vec![2]);
    assert!(!reg.is_registered(1));
    assert!(reg.rooms_of(1).is_empty());
    assert_eq!(reg.unregister(1), None);
}

#[test]
fn connections_of_user_lists_each_tab() {
    let mut reg = ConnectionRegistry::new();
    reg.register(1);
    reg.register(2);
    reg.register(3);
    reg.bind_user(1, "u".to_string());
    reg.bind_user(2, "u".to_string());
    reg.bind_user(3, "v".to_string());
    assert_eq!(sorted(reg.connections_of_user(&"u".to_string())), vec![1, 2]);
    assert_eq!(reg.user_of(3), Some("v".to_string()));
    assert_eq!(reg.user_of(4), None);
}

#[test]
fn broadcast_reaches_only_the_channel_room() {
    let mut reg = ConnectionRegistry::new();
    for c in 1..=4 {
        reg.register(c);
    }
    let ch1 = Room::channel("S", "channel1");
    let ch2 = Room::channel("S", "channel2");
    let server = Room::server("S");
    reg.subscribe(1, &ch1);
    reg.subscribe(2, &ch1);
    reg.subscribe(3, &ch2);
    reg.subscribe(4, &server);
    reg.subscribe(1, &server);
    let to_room = Target::Room(ch1);
    assert_eq!(sorted(recipients(&reg, &to_room)), vec![1, 2]);
    assert_eq!(sorted(recipients(&reg, &Target::Room(ch2))), vec![3]);
    assert_eq!(sorted(recipients(&reg, &Target::Room(server))), vec![1, 4]);
    assert_eq!(recipients(&reg, &Target::Connection(3)), vec![3]);
    assert!(recipients(&reg, &Target::Connection(9)).is_empty());
}
