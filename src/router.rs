//! The broadcast router: who receives an outgoing event.

use vstd::prelude::*;

use crate::model::{Channel, Message, Server, User};
use crate::registry::ConnectionRegistry;
use crate::room::{channel_room_key, Room};

verus! {

/// Where an outgoing event goes. Delivery is at most once per connection
/// and send, with no retry: a connection that missed an event catches up
/// from the next snapshot.
#[derive(Clone, Debug)]
pub enum Target {
    /// Every connection subscribed to the room at the moment of sending.
    Room(Room),
    /// One connection.
    Connection(u64),
}

/// The body of an outgoing event; each kind has its own event name.
#[derive(Clone, Debug)]
pub enum Payload {
    Server(Server),
    Channels(Vec<Channel>),
    Users(Vec<User>),
    Messages(Vec<Message>),
    User(User),
    Message(Message),
    Error(String),
}

/// An event for one or more connections.
#[derive(Clone, Debug)]
pub struct Outgoing {
    pub target: Target,
    pub payload: Payload,
}

pub open spec fn event_name_of(p: Payload) -> Seq<char> {
    match p {
        Payload::Server(_) => "server"@,
        Payload::Channels(_) => "channels"@,
        Payload::Users(_) => "users"@,
        Payload::Messages(_) => "messages"@,
        Payload::User(_) => "user"@,
        Payload::Message(_) => "message"@,
        Payload::Error(_) => "error"@,
    }
}

impl Payload {
    /// The socket event name under which this payload is sent.
    pub fn event_name(&self) -> (s: String)
        ensures
            s@ == event_name_of(*self),
    {
        match self {
            Payload::Server(_) => String::from_str("server"),
            Payload::Channels(_) => String::from_str("channels"),
            Payload::Users(_) => String::from_str("users"),
            Payload::Messages(_) => String::from_str("messages"),
            Payload::User(_) => String::from_str("user"),
            Payload::Message(_) => String::from_str("message"),
            Payload::Error(_) => String::from_str("error"),
        }
    }
}

/// Whether connection `c` receives an event sent to `t`.
pub open spec fn receives(reg: ConnectionRegistry, t: Target, c: u64) -> bool {
    match t {
        Target::Room(room) => reg.subscriptions().contains((c, room@)),
        Target::Connection(d) => c == d && reg.live().contains_key(d),
    }
}

/// The connections that an event sent to `t` reaches now, each once.
pub fn recipients(reg: &ConnectionRegistry, t: &Target) -> (out: Vec<u64>)
    requires
        reg.wf(),
    ensures
        out@.no_duplicates(),
        forall|c: u64| out@.contains(c) <==> receives(*reg, *t, c),
{
    match t {
        Target::Room(room) => reg.connections_in(room),
        Target::Connection(d) => {
            let mut out: Vec<u64> = Vec::new();
            if reg.is_registered(*d) {
                out.push(*d);
                proof {
                    assert(out@[0] == *d);
                }
            }
            out
        },
    }
}

/// An event sent to a channel's room reaches only connections subscribed to
/// that channel's room: one subscribed only to the server-wide room, or only
/// to another channel's room, does not receive it.
pub proof fn lemma_broadcast_isolation(
    reg: ConnectionRegistry,
    server_id: Seq<char>,
    channel_id: Seq<char>,
    room: Room,
    c: u64,
)
    requires
        room@ == channel_room_key(server_id, channel_id),
        !reg.subscriptions().contains((c, channel_room_key(server_id, channel_id))),
    ensures
        !receives(reg, Target::Room(room), c),
{
}

} // verus!
