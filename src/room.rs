//! Broadcast rooms: the server-wide room and the per-channel rooms.

use vstd::prelude::*;

verus! {

/// What identifies a room: the server id, and the channel id for a channel room.
pub type RoomKey = (Seq<char>, Option<Seq<char>>);

/// A named broadcast group that connections subscribe to.
#[derive(Debug)]
pub enum Room {
    /// Server-wide events: member and channel list changes.
    Server { server_id: String },
    /// Channel-scoped events: chat messages.
    Channel { server_id: String, channel_id: String },
}

impl View for Room {
    type V = RoomKey;

    open spec fn view(&self) -> RoomKey {
        match self {
            Room::Server { server_id } => (server_id@, None),
            Room::Channel { server_id, channel_id } => (server_id@, Some(channel_id@)),
        }
    }
}

pub open spec fn server_room_key(server_id: Seq<char>) -> RoomKey {
    (server_id, None)
}

pub open spec fn channel_room_key(server_id: Seq<char>, channel_id: Seq<char>) -> RoomKey {
    (server_id, Some(channel_id))
}

/// The transport's name of a room: `server_{id}` or `server_{id}_channel_{id}`.
pub open spec fn room_name_of(k: RoomKey) -> Seq<char> {
    match k.1 {
        None => "server_"@ + k.0,
        Some(c) => "server_"@ + k.0 + "_channel_"@ + c,
    }
}

impl Clone for Room {
    fn clone(&self) -> (r: Self)
        ensures
            r == *self,
    {
        match self {
            Room::Server { server_id } => Room::Server { server_id: server_id.clone() },
            Room::Channel { server_id, channel_id } => Room::Channel {
                server_id: server_id.clone(),
                channel_id: channel_id.clone(),
            },
        }
    }
}

impl Room {
    pub fn server(server_id: &str) -> (r: Room)
        ensures
            r@ == server_room_key(server_id@),
    {
        Room::Server { server_id: server_id.to_string() }
    }

    pub fn channel(server_id: &str, channel_id: &str) -> (r: Room)
        ensures
            r@ == channel_room_key(server_id@, channel_id@),
    {
        Room::Channel { server_id: server_id.to_string(), channel_id: channel_id.to_string() }
    }

    /// Whether two rooms are the same room.
    pub fn same(&self, other: &Room) -> (b: bool)
        ensures
            b == (self@ == other@),
    {
        match self {
            Room::Server { server_id: a } => match other {
                Room::Server { server_id: b } => *a == *b,
                Room::Channel { .. } => false,
            },
            Room::Channel { server_id: a, channel_id: c } => match other {
                Room::Server { .. } => false,
                Room::Channel { server_id: b, channel_id: d } => *a == *b && *c == *d,
            },
        }
    }

    /// The name under which the transport knows this room.
    pub fn name(&self) -> (s: String)
        ensures
            s@ == room_name_of(self@),
    {
        match self {
            Room::Server { server_id } => {
                let mut s = String::from_str("server_");
                s.append(server_id.as_str());
                s
            },
            Room::Channel { server_id, channel_id } => {
                let mut s = String::from_str("server_");
                s.append(server_id.as_str());
                s.append("_channel_");
                s.append(channel_id.as_str());
                s
            },
        }
    }
}

} // verus!
