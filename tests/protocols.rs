use std::collections::HashMap;

use chat_presence::coordinator::{
    compose_chat, disconnect, finish_channel_change, finish_chat, finish_connect,
    finish_connect_user, finish_join, finish_leave, plan_add_channel, plan_chat, plan_connect,
    plan_connect_user, plan_delete, plan_edit_channel, plan_join, plan_leave, plan_repairs,
    repair_occupancy, report, resync_rooms,
};
use chat_presence::error::{CoordError, DbError, StoreStep};
use chat_presence::events::{
    ChannelData, ChatMessage, ChatMessageData, ConnectServerData, DeleteChannelData,
    JoinChannelData, LeaveChannelData,
};
use chat_presence::model::{Channel, MessageType, Server, User, UserGender, UserState};
use chat_presence::registry::ConnectionRegistry;
use chat_presence::room::Room;
use chat_presence::router::{Payload, Target};
use chat_presence::store::{is_unique_violation_code, settle_write, PendingWrite, StoreWrite};

fn user(id: &str, current: Option<&str>) -> User {
    User {
        id: id.to_string(),
        name: format!("name-{id}"),
        account: format!("acct-{id}"),
        password: "hash".to_string(),
        gender: UserGender::Female,
        avatar: None,
        level: 0,
        created_at: 0,
        last_login_at: None,
        state: UserState::Idle,
        current_channel_id: current.map(|c| c.to_string()),
    }
}

fn server(id: &str, members: &[&str], channels: &[&str]) -> Server {
    Server {
        id: id.to_string(),
        name: "srv".to_string(),
        icon: String::new(),
        announcement: String::new(),
        level: 0,
        user_ids: members.iter().map(|m| m.to_string()).collect(),
        channel_ids: channels.iter().map(|c| c.to_string()).collect(),
        created_at: 0,
        applications: HashMap::new(),
        permissions: HashMap::new(),
        nicknames: HashMap::new(),
        contributions: HashMap::new(),
        join_date: HashMap::new(),
    }
}

fn channel(id: &str, occupants: &[&str]) -> Channel {
    Channel {
        id: id.to_string(),
        name: format!("#{id}"),
        permission: "public".to_string(),
        is_lobby: id == "lobby",
        is_category: false,
        user_ids: occupants.iter().map(|o| o.to_string()).collect(),
        message_ids: vec![],
        parent_id: None,
    }
}

fn join_data(s: &str, c: &str, u: &str) -> JoinChannelData {
    JoinChannelData { server_id: s.to_string(), channel_id: c.to_string(), user_id: u.to_string() }
}

fn registry_with(conns: &[u64]) -> ConnectionRegistry {
    let mut reg = ConnectionRegistry::new();
    for c in conns {
        reg.register(*c);
    }
    reg
}

fn written_user(w: &PendingWrite) -> &User {
    match &w.write {
        StoreWrite::UpdateUser(u) => u,
        other => panic!("expected a user write, got {other:?}"),
    }
}

fn written_channel(w: &PendingWrite) -> &Channel {
    match &w.write {
        StoreWrite::UpdateChannel(c) => c,
        other => panic!("expected a channel write, got {other:?}"),
    }
}

#[test]
fn connect_rejects_empty_ids() {
    let data = ConnectServerData { server_id: String::new(), user_id: "u".to_string() };
    let r = plan_connect(&data, Ok(server("S", &[], &[])), Ok(user("u", None)));
    assert!(matches!(r, Err(CoordError::InvalidServerData)));
    assert_eq!(CoordError::InvalidServerData.message(), "Invalid server data");
}

#[test]
fn connect_reports_unknown_server_then_user() {
    let data = ConnectServerData { server_id: "S".to_string(), user_id: "u".to_string() };
    let r = plan_connect(&data, Err(DbError::NotFound), Err(DbError::NotFound));
    let e = r.err().unwrap();
    assert_eq!(e.message(), "Server(S) not found");
    let r = plan_connect(&data, Ok(server("S", &[], &[])), Err(DbError::NotFound));
    assert_eq!(r.err().unwrap().message(), "User(u) not found");
}

#[test]
fn connect_twice_keeps_one_membership() {
    let data = ConnectServerData { server_id: "S".to_string(), user_id: "u".to_string() };
    let first = plan_connect(&data, Ok(server("S", &[], &[])), Ok(user("u", None))).unwrap();
    assert_eq!(first.writes.len(), 1);
    match &first.writes[0].write {
        StoreWrite::AddServerUser { server_id, user_id, permissions } => {
            assert_eq!(server_id, "S");
            assert_eq!(user_id, "u");
            assert_eq!(*permissions, 1);
        }
        other => panic!("unexpected write {other:?}"),
    }
    assert!(settle_write(&first.writes[0], Ok(())).is_ok());
    // A second call that read the server before the first wrote races into a duplicate.
    let racing = plan_connect(&data, Ok(server("S", &[], &[])), Ok(user("u", None))).unwrap();
    assert!(settle_write(&racing.writes[0], Err(DbError::Conflict)).is_ok());
    // A second call that reads after the first wrote plans no write at all.
    let second = plan_connect(&data, Ok(server("S", &["u"], &[])), Ok(user("u", None))).unwrap();
    assert!(second.writes.is_empty());
}

#[test]
fn store_failure_of_membership_is_reported() {
    let data = ConnectServerData { server_id: "S".to_string(), user_id: "u".to_string() };
    let plan = plan_connect(&data, Ok(server("S", &[], &[])), Ok(user("u", None))).unwrap();
    let e = settle_write(&plan.writes[0], Err(DbError::Sqlx("disk".to_string()))).unwrap_err();
    assert_eq!(e.message(), "Failed to add user to server");
    let update = PendingWrite { write: StoreWrite::DeleteChannel("c".to_string()), on_failure: StoreStep::DeleteChannel };
    assert_eq!(settle_write(&update, Err(DbError::Conflict)).unwrap_err().message(), "Failed to delete channel");
}

#[test]
fn connect_snapshot_subscribes_server_and_current_channel() {
    let data = ConnectServerData { server_id: "S".to_string(), user_id: "u".to_string() };
    let plan = plan_connect(&data, Ok(server("S", &["u"], &["general"])), Ok(user("u", Some("general")))).unwrap();
    let mut reg = registry_with(&[5]);
    reg.subscribe(5, &Room::channel("S", "stale"));
    reg.subscribe(5, &Room::channel("T", "other"));
    let out = finish_connect(&mut reg, 5, plan, Ok(vec![channel("general", &["u"])]), Ok(vec![user("u", Some("general"))])).unwrap();
    assert_eq!(out.len(), 3);
    assert_eq!(out[0].payload.event_name(), "server");
    assert_eq!(out[1].payload.event_name(), "channels");
    assert_eq!(out[2].payload.event_name(), "users");
    assert!(matches!(out[0].target, Target::Connection(5)));
    assert_eq!(reg.connections_in(&Room::server("S")), vec![5]);
    assert_eq!(reg.connections_in(&Room::channel("S", "general")), vec![5]);
    assert!(reg.connections_in(&Room::channel("S", "stale")).is_empty());
    assert_eq!(reg.connections_in(&Room::channel("T", "other")), vec![5]);
}

#[test]
fn connect_snapshot_failures_leave_rooms_alone() {
    let data = ConnectServerData { server_id: "S".to_string(), user_id: "u".to_string() };
    let plan = plan_connect(&data, Ok(server("S", &["u"], &[])), Ok(user("u", None))).unwrap();
    let mut reg = registry_with(&[5]);
    let e = finish_connect(&mut reg, 5, plan, Err(DbError::NotFound), Ok(vec![])).unwrap_err();
    assert_eq!(e.message(), "Failed to get channels");
    assert!(reg.rooms_of(5).is_empty());
    let plan = plan_connect(&data, Ok(server("S", &["u"], &[])), Ok(user("u", None))).unwrap();
    let e = finish_connect(&mut reg, 5, plan, Ok(vec![]), Err(DbError::NotFound)).unwrap_err();
    assert_eq!(e.message(), "Failed to get users");
}

#[test]
fn join_places_user_in_channel_and_room() {
    let plan = plan_join(&join_data("S", "general", "u"), Ok(user("u", None)), Ok(server("S", &["u"], &["lobby", "general"])), Ok(channel("general", &["w"]))).unwrap();
    assert_eq!(plan.writes.len(), 2);
    let c = written_channel(&plan.writes[0]);
    assert_eq!(c.user_ids, vec!["w".to_string(), "u".to_string()]);
    assert_eq!(plan.writes[0].on_failure, StoreStep::UpdateChannel);
    let u = written_user(&plan.writes[1]);
    assert_eq!(u.current_channel_id.as_deref(), Some("general"));
    let mut reg = registry_with(&[1, 2]);
    reg.subscribe(2, &Room::server("S"));
    let out = finish_join(&mut reg, 1, plan, Ok(vec![]), Ok(vec![]), Ok(vec![])).unwrap();
    assert_eq!(reg.connections_in(&Room::channel("S", "general")), vec![1]);
    let names: Vec<String> = out.iter().map(|o| o.payload.event_name()).collect();
    assert_eq!(names, vec!["channels", "users", "messages", "user"]);
    match &out[3].payload {
        Payload::User(u) => assert_eq!(u.current_channel_id.as_deref(), Some("general")),
        _ => panic!("expected the user"),
    }
}

#[test]
fn join_is_idempotent_on_occupancy() {
    let plan = plan_join(&join_data("S", "general", "u"), Ok(user("u", Some("general"))), Ok(server("S", &["u"], &[])), Ok(channel("general", &["u"]))).unwrap();
    assert_eq!(written_channel(&plan.writes[0]).user_ids, vec!["u".to_string()]);
}

#[test]
fn join_moves_connection_out_of_previous_room() {
    let plan = plan_join(&join_data("S", "general", "u"), Ok(user("u", Some("lobby"))), Ok(server("S", &["u"], &[])), Ok(channel("general", &[]))).unwrap();
    assert_eq!(plan.previous_channel_id.as_deref(), Some("lobby"));
    let mut reg = registry_with(&[1]);
    reg.subscribe(1, &Room::channel("S", "lobby"));
    finish_join(&mut reg, 1, plan, Ok(vec![]), Ok(vec![]), Ok(vec![])).unwrap();
    assert!(reg.connections_in(&Room::channel("S", "lobby")).is_empty());
    assert_eq!(reg.connections_in(&Room::channel("S", "general")), vec![1]);
}

#[test]
fn join_refusals() {
    let d = join_data("S", "c", "u");
    assert_eq!(plan_join(&d, Err(DbError::NotFound), Ok(server("S", &["u"], &[])), Ok(channel("c", &[]))).err().unwrap().message(), "User(u) not found");
    assert_eq!(plan_join(&d, Ok(user("u", None)), Err(DbError::NotFound), Ok(channel("c", &[]))).err().unwrap().message(), "Server(S) not found");
    assert_eq!(plan_join(&d, Ok(user("u", None)), Ok(server("S", &["u"], &[])), Err(DbError::NotFound)).err().unwrap().message(), "Channel(c) not found");
    let e = plan_join(&d, Ok(user("u", None)), Ok(server("S", &["x"], &[])), Ok(channel("c", &[]))).err().unwrap();
    assert!(matches!(e, CoordError::NotMember { .. }));
    assert_eq!(e.message(), "User(u) is not a member of server(S)");
}

#[test]
fn racing_joins_settle_on_one_channel() {
    let u = user("u", None);
    let s = server("S", &["u"], &["channel1", "channel2"]);
    let a = plan_join(&join_data("S", "channel1", "u"), Ok(u.clone()), Ok(s.clone()), Ok(channel("channel1", &[]))).unwrap();
    let b = plan_join(&join_data("S", "channel2", "u"), Ok(u.clone()), Ok(s.clone()), Ok(channel("channel2", &[]))).unwrap();
    // Both channel writes land; B's user write lands last.
    let stored = vec![written_channel(&a.writes[0]).clone(), written_channel(&b.writes[0]).clone()];
    let last = written_user(&b.writes[1]).clone();
    assert!(stored.iter().all(|c| c.user_ids.contains(&"u".to_string())));
    let repairs = plan_repairs(&last, &stored);
    assert_eq!(repairs.len(), 1);
    let fixed = written_channel(&repairs[0]);
    assert_eq!(fixed.id, "channel1");
    assert!(fixed.user_ids.is_empty());
    assert!(repair_occupancy(&last, &stored[1]).is_none());
    assert_eq!(last.current_channel_id.as_deref(), Some("channel2"));
}

#[test]
fn repair_adds_missing_occupant() {
    let u = user("u", Some("c"));
    let fixed = repair_occupancy(&u, &channel("c", &["x"])).unwrap();
    assert_eq!(fixed.user_ids, vec!["x".to_string(), "u".to_string()]);
    let removed = repair_occupancy(&user("u", None), &channel("c", &["u", "x", "u"])).unwrap();
    assert_eq!(removed.user_ids, vec!["x".to_string()]);
}

#[test]
fn leave_without_channel_is_no_error() {
    let d = LeaveChannelData { server_id: "S".to_string(), channel_id: None, user_id: "u".to_string() };
    let plan = plan_leave(&d, Ok(user("u", None))).unwrap();
    assert!(plan.room.is_none());
    assert_eq!(written_user(&plan.writes[0]).current_channel_id, None);
    let mut reg = registry_with(&[1]);
    reg.subscribe(1, &Room::server("S"));
    finish_leave(&mut reg, 1, &plan);
    assert_eq!(reg.rooms_of(1).len(), 1);
}

#[test]
fn leave_clears_pointer_and_room() {
    let d = LeaveChannelData { server_id: "S".to_string(), channel_id: Some("c".to_string()), user_id: "u".to_string() };
    let plan = plan_leave(&d, Ok(user("u", Some("c")))).unwrap();
    assert_eq!(written_user(&plan.writes[0]).current_channel_id, None);
    let mut reg = registry_with(&[1]);
    reg.subscribe(1, &Room::channel("S", "c"));
    finish_leave(&mut reg, 1, &plan);
    assert!(reg.connections_in(&Room::channel("S", "c")).is_empty());
    assert_eq!(plan_leave(&d, Err(DbError::NotFound)).err().unwrap().message(), "User not found");
}

#[test]
fn delete_clears_every_pointer_first() {
    let d = DeleteChannelData { server_id: "S".to_string(), channel_id: "doomed".to_string() };
    let occupants = vec![user("a", Some("doomed")), user("b", Some("elsewhere")), user("c", Some("doomed"))];
    let writes = plan_delete(&d, Ok(occupants), Ok(server("S", &[], &[]))).unwrap();
    assert_eq!(writes.len(), 3);
    let cleared: Vec<&str> = writes[..2].iter().map(|w| written_user(w).id.as_str()).collect();
    assert_eq!(cleared, vec!["a", "c"]);
    assert!(writes[..2].iter().all(|w| written_user(w).current_channel_id.is_none()));
    assert!(matches!(&writes[2].write, StoreWrite::DeleteChannel(id) if id == "doomed"));
}

#[test]
fn delete_refusals() {
    let d = DeleteChannelData { server_id: "S".to_string(), channel_id: "c".to_string() };
    assert_eq!(plan_delete(&d, Err(DbError::NotFound), Ok(server("S", &[], &[]))).err().unwrap().message(), "Failed to get channel users");
    assert_eq!(plan_delete(&d, Ok(vec![]), Err(DbError::NotFound)).err().unwrap().message(), "Server(S) not found");
}

#[test]
fn stale_room_empties_after_resync() {
    let mut reg = registry_with(&[1, 2]);
    let doomed = Room::channel("S", "doomed");
    reg.subscribe(1, &doomed);
    reg.subscribe(2, &doomed);
    resync_rooms(&mut reg, 1, &"S".to_string(), &None);
    resync_rooms(&mut reg, 2, &"S".to_string(), &Some("lobby".to_string()));
    assert!(reg.connections_in(&doomed).is_empty());
    assert_eq!(reg.connections_in(&Room::channel("S", "lobby")), vec![2]);
}

#[test]
fn chat_without_channel_is_refused() {
    let d = ChatMessageData { server_id: "S".to_string(), message: ChatMessage { content: "hi".to_string(), sender: "U".to_string() } };
    let r = plan_chat(&d, Ok(server("S", &["U"], &["lobby", "general"])), Ok(user("U", None)), "m1".to_string(), 5);
    let e = r.err().unwrap();
    assert!(matches!(e, CoordError::NotInChannel));
    assert!(e.message().contains("not in any channel"));
    assert!(compose_chat(&d, Ok(server("S", &["U"], &[])), Ok(user("U", None))).is_err());
}

#[test]
fn chat_is_stored_and_sent_to_channel_room() {
    let d = ChatMessageData { server_id: "S".to_string(), message: ChatMessage { content: "hi".to_string(), sender: "U".to_string() } };
    let plan = plan_chat(&d, Ok(server("S", &["U"], &[])), Ok(user("U", Some("general"))), "m1".to_string(), 42).unwrap();
    assert_eq!(plan.room.name(), "server_S_channel_general");
    match &plan.writes[0].write {
        StoreWrite::CreateMessage { message, channel_id } => {
            assert_eq!(channel_id, "general");
            assert_eq!(message.id, "m1");
            assert_eq!(message.sender_id, "U");
            assert_eq!(message.content, "hi");
            assert_eq!(message.timestamp, 42);
            assert_eq!(message.message_type, MessageType::General);
        }
        other => panic!("unexpected write {other:?}"),
    }
    let out = finish_chat(plan);
    assert_eq!(out.len(), 1);
    assert_eq!(out[0].payload.event_name(), "message");
    match &out[0].target {
        Target::Room(room) => assert_eq!(room.name(), "server_S_channel_general"),
        _ => panic!("expected a room"),
    }
}

#[test]
fn composed_chat_gets_fresh_id() {
    let d = ChatMessageData { server_id: "S".to_string(), message: ChatMessage { content: "yo".to_string(), sender: "U".to_string() } };
    let plan = compose_chat(&d, Ok(server("S", &["U"], &[])), Ok(user("U", Some("c")))).unwrap();
    match &plan.writes[0].write {
        StoreWrite::CreateMessage { message, .. } => {
            assert_eq!(message.id.len(), 36);
            assert!(message.timestamp > 0);
        }
        other => panic!("unexpected write {other:?}"),
    }
}

#[test]
fn chat_refusals_name_the_cause() {
    let d = ChatMessageData { server_id: "S".to_string(), message: ChatMessage { content: "hi".to_string(), sender: "U".to_string() } };
    assert_eq!(plan_chat(&d, Err(DbError::NotFound), Ok(user("U", Some("c"))), "m".to_string(), 0).err().unwrap().message(), "Server(S) not found");
    assert_eq!(plan_chat(&d, Ok(server("S", &[], &[])), Err(DbError::NotFound), "m".to_string(), 0).err().unwrap().message(), "User not found");
}

#[test]
fn channel_creation_and_edit() {
    let data = ChannelData { server_id: "S".to_string(), channel: channel("new", &[]) };
    let w = plan_add_channel(data, Ok(server("S", &[], &[]))).unwrap();
    assert!(matches!(&w[0].write, StoreWrite::CreateChannel { server_id, channel } if server_id == "S" && channel.id == "new"));
    let mut nameless = channel("x", &[]);
    nameless.name = String::new();
    let e = plan_add_channel(ChannelData { server_id: "S".to_string(), channel: nameless.clone() }, Ok(server("S", &[], &[]))).err().unwrap();
    assert_eq!(e.message(), "Invalid channel data");
    assert!(matches!(plan_edit_channel(ChannelData { server_id: "S".to_string(), channel: nameless }, Ok(server("S", &[], &[]))), Err(CoordError::InvalidChannelData)));
    let e = plan_edit_channel(ChannelData { server_id: "S".to_string(), channel: channel("x", &[]) }, Err(DbError::NotFound)).err().unwrap();
    assert_eq!(e.message(), "Server(S) not found");
    let w = plan_edit_channel(ChannelData { server_id: "S".to_string(), channel: channel("x", &[]) }, Ok(server("S", &[], &[]))).unwrap();
    assert_eq!(w[0].on_failure, StoreStep::UpdateChannel);
    let out = finish_channel_change(&"S".to_string(), Ok(vec![channel("x", &[])])).unwrap();
    assert_eq!(out[0].payload.event_name(), "channels");
    assert!(matches!(&out[0].target, Target::Room(room) if room.name() == "server_S"));
    assert_eq!(finish_channel_change(&"S".to_string(), Err(DbError::NotFound)).err().unwrap().message(), "Failed to get channels");
}

#[test]
fn connect_user_marks_online_and_binds() {
    assert_eq!(plan_connect_user(Err(DbError::NotFound)).err().unwrap().message(), "Failed to get user");
    let w = plan_connect_user(Ok(user("u", None))).unwrap();
    assert_eq!(written_user(&w[0]).state, UserState::Online);
    assert_eq!(w[0].on_failure.text(), "Failed to update user state");
    let mut reg = registry_with(&[8]);
    let out = finish_connect_user(&mut reg, 8, w);
    assert_eq!(reg.user_of(8), Some("u".to_string()));
    assert_eq!(out[0].payload.event_name(), "user");
}

#[test]
fn disconnect_reports_last_connection() {
    let mut reg = registry_with(&[1, 2]);
    reg.bind_user(1, "u".to_string());
    reg.bind_user(2, "u".to_string());
    reg.subscribe(1, &Room::server("S"));
    let d = disconnect(&mut reg, 1);
    assert_eq!(d.user_id.as_deref(), Some("u"));
    assert!(!d.last_connection);
    assert!(reg.connections_in(&Room::server("S")).is_empty());
    let d = disconnect(&mut reg, 2);
    assert!(d.last_connection);
    let d = disconnect(&mut reg, 2);
    assert_eq!(d.user_id, None);
    assert!(!d.last_connection);
}

#[test]
fn errors_are_reported_to_the_asking_connection() {
    let o = report(6, &CoordError::NotInChannel);
    assert!(matches!(o.target, Target::Connection(6)));
    assert_eq!(o.payload.event_name(), "error");
    match o.payload {
        Payload::Error(t) => assert_eq!(t, "You are not in any channel"),
        _ => panic!("expected an error"),
    }
}

#[test]
fn unique_violation_codes() {
    assert!(is_unique_violation_code(Some(&"1555".to_string())));
    assert!(is_unique_violation_code(Some(&"2067".to_string())));
    assert!(!is_unique_violation_code(Some(&"19".to_string())));
    assert!(!is_unique_violation_code(None));
}

#[test]
fn store_errors_describe_themselves() {
    assert_eq!(DbError::NotFound.describe(), "Item not found");
    assert_eq!(DbError::Sqlx("boom".to_string()).describe(), "SQLx error: boom");
    assert_eq!(DbError::InvalidData("bad".to_string()).describe(), "Invalid data: bad");
}
