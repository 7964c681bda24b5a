//! The membership coordinator: the connect, join, leave, chat and channel
//! protocols, as decisions over what the entity store returned.
//!
//! Each protocol runs in the same shape. A `plan_*` function takes what was
//! read from the store and either refuses the request or says which writes
//! to make, in order. Once the writes have succeeded, a `finish_*` function
//! changes the connection's room subscriptions and says what to send. So a
//! connection is never subscribed to a room whose store write failed, and no
//! broadcast reports a state that was not stored.

use vstd::prelude::*;

use crate::error::{CoordError, DbError, StoreStep};
use crate::clock::{fresh_id, now_millis};
use crate::events::{ChannelData, ChatMessageData, ConnectServerData, DeleteChannelData, JoinChannelData, LeaveChannelData};
use crate::model::{contains_id, holds_id, Channel, Message, MessageType, Server, User, UserState};
use crate::registry::{lists_room, opt_view, ConnectionRegistry};
use crate::room::{channel_room_key, server_room_key, Room, RoomKey};
use crate::router::{Outgoing, Payload, Target};
use crate::store::{PendingWrite, StoreWrite};

verus! {

/// Whether a string holds no character.
pub fn is_blank(s: &String) -> (b: bool)
    ensures
        b == (s@.len() == 0),
{
    s.as_str().is_empty()
}

/// The subscriptions after `conn` re-derived its rooms on server
/// `server_id` from the stored pointer `current`: the server-wide room, the
/// current channel's room, and none of the server's other channel rooms.
/// Other connections, and the rooms of other servers, keep what they had.
pub open spec fn resynced(
    before: Set<(u64, RoomKey)>,
    after: Set<(u64, RoomKey)>,
    conn: u64,
    server_id: Seq<char>,
    current: Option<Seq<char>>,
) -> bool {
    forall|c: u64, k: RoomKey|
        #[trigger] after.contains((c, k)) <==> if c != conn {
            before.contains((c, k))
        } else if k.0 == server_id {
            k.1 == None::<Seq<char>> || k.1 == current
        } else {
            before.contains((c, k))
        }
}

/// The membership write that makes `user_id` a member of `server_id` with
/// the default permission level.
pub open spec fn membership_write(server_id: String, user_id: String) -> PendingWrite {
    PendingWrite {
        write: StoreWrite::AddServerUser { server_id, user_id, permissions: 1 },
        on_failure: StoreStep::AddServerUser,
    }
}

/// What `connect_to_server` decided once the server and the user were read.
pub struct ConnectPlan {
    pub server: Server,
    pub user: User,
    /// The membership write, when the user is not a member yet.
    pub writes: Vec<PendingWrite>,
}

/// The first step of `connect_to_server`: checks the request and what was
/// read for it, and adds the membership when the user lacks it.
pub fn plan_connect(
    data: &ConnectServerData,
    server: Result<Server, DbError>,
    user: Result<User, DbError>,
) -> (r: Result<ConnectPlan, CoordError>)
    ensures
        data.server_id@.len() == 0 || data.user_id@.len() == 0 ==> r == Err::<ConnectPlan, CoordError>(
            CoordError::InvalidServerData,
        ),
        data.server_id@.len() > 0 && data.user_id@.len() > 0 ==> match (server, user) {
            (Err(_), _) => r == Err::<ConnectPlan, CoordError>(
                CoordError::ServerNotFound(data.server_id),
            ),
            (Ok(_), Err(_)) => r == Err::<ConnectPlan, CoordError>(
                CoordError::UserNotFound(data.user_id),
            ),
            (Ok(s), Ok(u)) => r matches Ok(p) && p.server == s && p.user == u && p.writes@ == if holds_id(
                s.user_ids@,
                u.id@,
            ) {
                Seq::<PendingWrite>::empty()
            } else {
                seq![membership_write(s.id, u.id)]
            },
        },
{
    if is_blank(&data.server_id) || is_blank(&data.user_id) {
        return Err(CoordError::InvalidServerData);
    }
    let server = match server {
        Ok(s) => s,
        Err(_) => return Err(CoordError::ServerNotFound(data.server_id.clone())),
    };
    let user = match user {
        Ok(u) => u,
        Err(_) => return Err(CoordError::UserNotFound(data.user_id.clone())),
    };
    let mut writes: Vec<PendingWrite> = Vec::new();
    if !contains_id(&server.user_ids, &user.id) {
        writes.push(
            PendingWrite {
                write: StoreWrite::AddServerUser {
                    server_id: server.id.clone(),
                    user_id: user.id.clone(),
                    permissions: 1,
                },
                on_failure: StoreStep::AddServerUser,
            },
        );
        proof {
            assert(writes@ =~= seq![membership_write(server.id, user.id)]);
        }
    } else {
        proof {
            assert(writes@ =~= Seq::<PendingWrite>::empty());
        }
    }
    Ok(ConnectPlan { server, user, writes })
}

/// Re-derives the rooms of `conn` on server `server_id` from `current`, the
/// channel that the store says its user occupies.
pub fn resync_rooms(
    reg: &mut ConnectionRegistry,
    conn: u64,
    server_id: &String,
    current: &Option<String>,
)
    requires
        old(reg).wf(),
        old(reg).live().contains_key(conn),
    ensures
        final(reg).wf(),
        final(reg).live() == old(reg).live(),
        resynced(
            old(reg).subscriptions(),
            final(reg).subscriptions(),
            conn,
            server_id@,
            opt_view(*current),
        ),
{
    let rooms = reg.rooms_of(conn);
    let ghost before = reg.subscriptions();
    let mut i: usize = 0;
    while i < rooms.len()
        invariant
            reg.wf(),
            reg.live() == old(reg).live(),
            before == old(reg).subscriptions(),
            i <= rooms@.len(),
            forall|k: RoomKey| lists_room(rooms@, k) <==> before.contains((conn, k)),
            forall|c: u64, k: RoomKey|
                #[trigger] reg.subscriptions().contains((c, k)) <==> (before.contains((c, k)) && !(c
                    == conn && k.0 == server_id@ && k.1 != None::<Seq<char>> && exists|x: int|
                    0 <= x < i && (#[trigger] rooms@[x])@ == k)),
        decreases rooms@.len() - i,
    {
        let drop_it = match &rooms[i] {
            Room::Channel { server_id: s, .. } => *s == *server_id,
            Room::Server { .. } => false,
        };
        if drop_it {
            reg.unsubscribe(conn, &rooms[i]);
        }
        proof {
            assert forall|c: u64, k: RoomKey|
                #[trigger] reg.subscriptions().contains((c, k)) <==> (before.contains((c, k)) && !(c
                    == conn && k.0 == server_id@ && k.1 != None::<Seq<char>> && exists|x: int|
                    0 <= x < i + 1 && (#[trigger] rooms@[x])@ == k)) by {
                if exists|x: int| 0 <= x < i + 1 && (#[trigger] rooms@[x])@ == k {
                    let x = choose|x: int| 0 <= x < i + 1 && (#[trigger] rooms@[x])@ == k;
                    if x < i {
                        assert(exists|y: int| 0 <= y < i && (#[trigger] rooms@[y])@ == k);
                    }
                }
                if (exists|x: int| 0 <= x < i && (#[trigger] rooms@[x])@ == k) {
                    let x = choose|x: int| 0 <= x < i && (#[trigger] rooms@[x])@ == k;
                    assert(0 <= x < i + 1 && rooms@[x]@ == k);
                }
            }
        }
        i = i + 1;
    }
    let server_room = Room::server(server_id.as_str());
    reg.subscribe(conn, &server_room);
    let ghost mid = reg.subscriptions();
    match current {
        Some(cid) => {
            let channel_room = Room::channel(server_id.as_str(), cid.as_str());
            reg.subscribe(conn, &channel_room);
        },
        None => {},
    }
    proof {
        assert forall|c: u64, k: RoomKey|
            #[trigger] reg.subscriptions().contains((c, k)) <==> if c != conn {
                before.contains((c, k))
            } else if k.0 == server_id@ {
                k.1 == None::<Seq<char>> || k.1 == opt_view(*current)
            } else {
                before.contains((c, k))
            } by {
            if c == conn && k.0 == server_id@ && k.1 != None::<Seq<char>> && k.1 != opt_view(*current) {
                if before.contains((c, k)) {
                    assert(lists_room(rooms@, k));
                    let x = choose|x: int| 0 <= x < rooms@.len() && (#[trigger] rooms@[x])@ == k;
                    assert(mid.contains((c, k)) == false);
                }
            }
        }
    }
}


/// The last step of `connect_to_server`, once the membership write is done
/// and the channel and member lists were read: re-derives the connection's
/// rooms from the store and sends the full-state snapshot to it alone.
pub fn finish_connect(
    reg: &mut ConnectionRegistry,
    conn: u64,
    plan: ConnectPlan,
    channels: Result<Vec<Channel>, DbError>,
    users: Result<Vec<User>, DbError>,
) -> (r: Result<Vec<Outgoing>, CoordError>)
    requires
        old(reg).wf(),
        old(reg).live().contains_key(conn),
    ensures
        final(reg).wf(),
        final(reg).live() == old(reg).live(),
        channels is Err ==> r == Err::<Vec<Outgoing>, CoordError>(
            CoordError::Store(StoreStep::GetChannels),
        ) && final(reg).subscriptions() == old(reg).subscriptions(),
        channels is Ok && users is Err ==> r == Err::<Vec<Outgoing>, CoordError>(
            CoordError::Store(StoreStep::GetUsers),
        ) && final(reg).subscriptions() == old(reg).subscriptions(),
        channels is Ok && users is Ok ==> (resynced(
            old(reg).subscriptions(),
            final(reg).subscriptions(),
            conn,
            plan.server.id@,
            opt_view(plan.user.current_channel_id),
        ) && (r matches Ok(out) && out@ == seq![
            Outgoing { target: Target::Connection(conn), payload: Payload::Server(plan.server) },
            Outgoing { target: Target::Connection(conn), payload: Payload::Channels(channels->Ok_0) },
            Outgoing { target: Target::Connection(conn), payload: Payload::Users(users->Ok_0) },
        ])),
{
    let channels = match channels {
        Ok(c) => c,
        Err(_) => return Err(CoordError::Store(StoreStep::GetChannels)),
    };
    let users = match users {
        Ok(u) => u,
        Err(_) => return Err(CoordError::Store(StoreStep::GetUsers)),
    };
    resync_rooms(reg, conn, &plan.server.id, &plan.user.current_channel_id);
    let ghost server = plan.server;
    let mut out: Vec<Outgoing> = Vec::new();
    out.push(Outgoing { target: Target::Connection(conn), payload: Payload::Server(plan.server) });
    out.push(Outgoing { target: Target::Connection(conn), payload: Payload::Channels(channels) });
    out.push(Outgoing { target: Target::Connection(conn), payload: Payload::Users(users) });
    proof {
        assert(out@ =~= seq![
            Outgoing { target: Target::Connection(conn), payload: Payload::Server(server) },
            Outgoing { target: Target::Connection(conn), payload: Payload::Channels(channels) },
            Outgoing { target: Target::Connection(conn), payload: Payload::Users(users) },
        ]);
    }
    Ok(out)
}

/// The store's membership rows of one server, as a list of user ids, after
/// it was asked to add `user_id`: a present member is refused as a duplicate.
pub open spec fn add_member(members: Seq<Seq<char>>, user_id: Seq<char>) -> (Seq<Seq<char>>, Result<(), DbError>) {
    if members.contains(user_id) {
        (members, Err(DbError::Conflict))
    } else {
        (members.push(user_id), Ok(()))
    }
}

/// Connecting the same user to the same server twice in a row, even when
/// both calls read the server before either wrote, leaves the user among the
/// members exactly once, and both calls succeed.
pub proof fn lemma_connect_twice(
    members: Seq<Seq<char>>,
    server_id: String,
    user_id: String,
)
    requires
        members.no_duplicates(),
    ensures
        ({
            let (m1, r1) = add_member(members, user_id@);
            let (m2, r2) = add_member(m1, user_id@);
            &&& m2.contains(user_id@)
            &&& m2.no_duplicates()
            &&& crate::store::settled(membership_write(server_id, user_id), r1) is Ok
            &&& crate::store::settled(membership_write(server_id, user_id), r2) is Ok
        }),
{
    let (m1, r1) = add_member(members, user_id@);
    if !members.contains(user_id@) {
        assert(m1[members.len() as int] == user_id@);
        assert forall|i: int, j: int| 0 <= i < m1.len() && 0 <= j < m1.len() && i != j implies m1[i] != m1[j] by {
            if i < members.len() && j < members.len() {
            } else if i < members.len() {
                assert(m1[i] == members[i]);
            } else {
                assert(m1[j] == members[j]);
            }
        }
    }
    assert(m1.contains(user_id@));
}

/// A connection that re-derives its rooms after its user's pointer stopped
/// naming a channel is no longer subscribed to that channel's room.
pub proof fn lemma_resync_leaves_stale_room(
    before: Set<(u64, RoomKey)>,
    after: Set<(u64, RoomKey)>,
    conn: u64,
    server_id: Seq<char>,
    current: Option<Seq<char>>,
    channel_id: Seq<char>,
)
    requires
        resynced(before, after, conn, server_id, current),
        current != Some(channel_id),
    ensures
        !after.contains((conn, channel_room_key(server_id, channel_id))),
{
}


/// `c2` is the channel `c` with `user_id` among its occupants: added when
/// absent, and nothing else changed.
pub open spec fn occupied_by(c2: Channel, c: Channel, user_id: String) -> bool {
    &&& c2.id == c.id
    &&& c2.name == c.name
    &&& c2.permission == c.permission
    &&& c2.is_lobby == c.is_lobby
    &&& c2.is_category == c.is_category
    &&& c2.message_ids == c.message_ids
    &&& c2.parent_id == c.parent_id
    &&& c2.user_ids@ == if holds_id(c.user_ids@, user_id@) {
        c.user_ids@
    } else {
        c.user_ids@.push(user_id)
    }
}

/// The user `u` with its channel pointer set to `current`.
pub open spec fn pointed(u: User, current: Option<String>) -> User {
    User { current_channel_id: current, ..u }
}

/// What `join_channel` plans once the user, the server and the channel were
/// read and the user proved a member: the channel record with the user among
/// its occupants is written first, then the user record pointing at it.
pub open spec fn join_planned(u: User, s: Server, c: Channel, p: JoinPlan) -> bool {
    &&& p.server_id == s.id
    &&& p.channel_id == c.id
    &&& p.previous_channel_id == u.current_channel_id
    &&& p.writes@.len() == 2
    &&& p.writes@[0].on_failure == StoreStep::UpdateChannel
    &&& p.writes@[0].write matches StoreWrite::UpdateChannel(c2) && occupied_by(c2, c, u.id)
    &&& p.writes@[1] == PendingWrite {
        write: StoreWrite::UpdateUser(pointed(u, Some(c.id))),
        on_failure: StoreStep::UpdateUser,
    }
}

/// What `join_channel` decided once the user, the server and the channel were read.
pub struct JoinPlan {
    pub server_id: String,
    pub channel_id: String,
    /// The channel the user occupied before.
    pub previous_channel_id: Option<String>,
    /// The channel write, then the user write.
    pub writes: Vec<PendingWrite>,
}

/// The first step of `join_channel`: refuses a request whose user, server
/// or channel is unknown or whose user is not a member of the server, and
/// otherwise plans the occupancy and pointer writes.
pub fn plan_join(
    data: &JoinChannelData,
    user: Result<User, DbError>,
    server: Result<Server, DbError>,
    channel: Result<Channel, DbError>,
) -> (r: Result<JoinPlan, CoordError>)
    ensures
        user is Err ==> r == Err::<JoinPlan, CoordError>(CoordError::UserNotFound(data.user_id)),
        user is Ok && server is Err ==> r == Err::<JoinPlan, CoordError>(
            CoordError::ServerNotFound(data.server_id),
        ),
        user is Ok && server is Ok && channel is Err ==> r == Err::<JoinPlan, CoordError>(
            CoordError::ChannelNotFound(data.channel_id),
        ),
        user is Ok && server is Ok && channel is Ok ==> ({
            let u = user->Ok_0;
            let s = server->Ok_0;
            let c = channel->Ok_0;
            if holds_id(s.user_ids@, u.id@) {
                r matches Ok(p) && join_planned(u, s, c, p)
            } else {
                r == Err::<JoinPlan, CoordError>(
                    CoordError::NotMember { server_id: s.id, user_id: u.id },
                )
            }
        }),
{
    let mut user = match user {
        Ok(u) => u,
        Err(_) => return Err(CoordError::UserNotFound(data.user_id.clone())),
    };
    let server = match server {
        Ok(s) => s,
        Err(_) => return Err(CoordError::ServerNotFound(data.server_id.clone())),
    };
    let mut channel = match channel {
        Ok(c) => c,
        Err(_) => return Err(CoordError::ChannelNotFound(data.channel_id.clone())),
    };
    if !contains_id(&server.user_ids, &user.id) {
        return Err(CoordError::NotMember { server_id: server.id, user_id: user.id });
    }
    let ghost u0 = user;
    let ghost c0 = channel;
    if !contains_id(&channel.user_ids, &user.id) {
        channel.user_ids.push(user.id.clone());
    }
    let previous = user.current_channel_id.clone();
    let channel_id = channel.id.clone();
    user.current_channel_id = Some(channel.id.clone());
    proof {
        assert(user == pointed(u0, Some(c0.id)));
    }
    let mut writes: Vec<PendingWrite> = Vec::new();
    writes.push(PendingWrite { write: StoreWrite::UpdateChannel(channel), on_failure: StoreStep::UpdateChannel });
    writes.push(PendingWrite { write: StoreWrite::UpdateUser(user), on_failure: StoreStep::UpdateUser });
    Ok(JoinPlan { server_id: server.id, channel_id, previous_channel_id: previous, writes })
}

/// The subscriptions after `join_channel` moved `conn` from the previous
/// channel's room to the joined one's.
pub open spec fn join_subscribed(
    before: Set<(u64, RoomKey)>,
    after: Set<(u64, RoomKey)>,
    conn: u64,
    p: JoinPlan,
) -> bool {
    let left = match p.previous_channel_id {
        Some(prev) => before.remove((conn, channel_room_key(p.server_id@, prev@))),
        None => before,
    };
    after == left.insert((conn, channel_room_key(p.server_id@, p.channel_id@)))
}

/// The last step of `join_channel`, once both writes succeeded: moves the
/// connection to the channel's room, then reports the refreshed channel and
/// member lists to the server's room and the channel's history and the
/// updated user to the joining connection alone.
pub fn finish_join(
    reg: &mut ConnectionRegistry,
    conn: u64,
    plan: JoinPlan,
    channels: Result<Vec<Channel>, DbError>,
    users: Result<Vec<User>, DbError>,
    messages: Result<Vec<crate::model::Message>, DbError>,
) -> (r: Result<Vec<Outgoing>, CoordError>)
    requires
        old(reg).wf(),
        old(reg).live().contains_key(conn),
        plan.writes@.len() == 2,
        plan.writes@[1].write is UpdateUser,
    ensures
        final(reg).wf(),
        final(reg).live() == old(reg).live(),
        join_subscribed(old(reg).subscriptions(), final(reg).subscriptions(), conn, plan),
        channels is Err ==> r == Err::<Vec<Outgoing>, CoordError>(
            CoordError::Store(StoreStep::GetChannels),
        ),
        channels is Ok && users is Err ==> r == Err::<Vec<Outgoing>, CoordError>(
            CoordError::Store(StoreStep::GetUsers),
        ),
        channels is Ok && users is Ok && messages is Err ==> r == Err::<Vec<Outgoing>, CoordError>(
            CoordError::Store(StoreStep::GetMessages),
        ),
        channels is Ok && users is Ok && messages is Ok ==> ({
            let room = Room::Server { server_id: plan.server_id };
            r matches Ok(out) && out@ == seq![
                Outgoing {
                    target: Target::Room(room),
                    payload: Payload::Channels(channels->Ok_0),
                },
                Outgoing {
                    target: Target::Room(room),
                    payload: Payload::Users(users->Ok_0),
                },
                Outgoing { target: Target::Connection(conn), payload: Payload::Messages(messages->Ok_0) },
                Outgoing {
                    target: Target::Connection(conn),
                    payload: Payload::User(plan.writes@[1].write->UpdateUser_0),
                },
            ]
        }),
{
    match &plan.previous_channel_id {
        Some(prev) => {
            let old_room = Room::channel(plan.server_id.as_str(), prev.as_str());
            reg.unsubscribe(conn, &old_room);
        },
        None => {},
    }
    let new_room = Room::channel(plan.server_id.as_str(), plan.channel_id.as_str());
    reg.subscribe(conn, &new_room);
    let channels = match channels {
        Ok(c) => c,
        Err(_) => return Err(CoordError::Store(StoreStep::GetChannels)),
    };
    let users = match users {
        Ok(u) => u,
        Err(_) => return Err(CoordError::Store(StoreStep::GetUsers)),
    };
    let messages = match messages {
        Ok(m) => m,
        Err(_) => return Err(CoordError::Store(StoreStep::GetMessages)),
    };
    let ghost written = plan.writes@[1].write->UpdateUser_0;
    let JoinPlan { server_id, mut writes, .. } = plan;
    let user = match writes.pop() {
        Some(PendingWrite { write: StoreWrite::UpdateUser(u), .. }) => u,
        _ => {
            proof {
                assert(false);
            }
            return Err(CoordError::Store(StoreStep::UpdateUser));
        },
    };
    let room = Room::Server { server_id };
    let mut out: Vec<Outgoing> = Vec::new();
    out.push(Outgoing { target: Target::Room(room.clone()), payload: Payload::Channels(channels) });
    out.push(Outgoing { target: Target::Room(room), payload: Payload::Users(users) });
    out.push(Outgoing { target: Target::Connection(conn), payload: Payload::Messages(messages) });
    out.push(Outgoing { target: Target::Connection(conn), payload: Payload::User(user) });
    proof {
        let room = Room::Server { server_id: plan.server_id };
        assert(out@ =~= seq![
            Outgoing {
                target: Target::Room(room),
                payload: Payload::Channels(channels),
            },
            Outgoing {
                target: Target::Room(room),
                payload: Payload::Users(users),
            },
            Outgoing { target: Target::Connection(conn), payload: Payload::Messages(messages) },
            Outgoing {
                target: Target::Connection(conn),
                payload: Payload::User(written),
            },
        ]);
    }
    Ok(out)
}

/// After a join that went through, the user record written points at the
/// channel, the channel record written holds the user among its occupants,
/// and the connection that asked is subscribed to the channel's room.
pub proof fn lemma_join_places_user(
    u: User,
    s: Server,
    c: Channel,
    p: JoinPlan,
    before: Set<(u64, RoomKey)>,
    after: Set<(u64, RoomKey)>,
    conn: u64,
)
    requires
        join_planned(u, s, c, p),
        join_subscribed(before, after, conn, p),
    ensures
        p.writes@[1].write matches StoreWrite::UpdateUser(u2) && u2.id == u.id
            && u2.current_channel_id == Some(c.id),
        p.writes@[0].write matches StoreWrite::UpdateChannel(c2) && c2.id == c.id && holds_id(
            c2.user_ids@,
            u.id@,
        ),
        after.contains((conn, channel_room_key(s.id@, c.id@))),
{
    let c2 = p.writes@[0].write->UpdateChannel_0;
    if !holds_id(c.user_ids@, u.id@) {
        assert(c2.user_ids@[c.user_ids@.len() as int] == u.id);
    }
}


/// The room that a leave request takes the connection out of: the channel
/// the request names, else the one the user occupied.
pub open spec fn leave_room_key(data: LeaveChannelData, u: User) -> Option<RoomKey> {
    match data.channel_id {
        Some(c) => Some(channel_room_key(data.server_id@, c@)),
        None => match u.current_channel_id {
            Some(c) => Some(channel_room_key(data.server_id@, c@)),
            None => None,
        },
    }
}

/// What `leave_channel` decided once the user was read.
pub struct LeavePlan {
    /// The channel room to leave, if any.
    pub room: Option<Room>,
    /// The user write that clears the channel pointer.
    pub writes: Vec<PendingWrite>,
}

/// The first step of `leave_channel`: clears the user's channel pointer. The
/// channel need not exist any more, and a user in no channel is no error.
pub fn plan_leave(data: &LeaveChannelData, user: Result<User, DbError>) -> (r: Result<
    LeavePlan,
    CoordError,
>)
    ensures
        user is Err ==> r == Err::<LeavePlan, CoordError>(CoordError::UnknownUser),
        user is Ok ==> (r matches Ok(p) && p.writes@ == seq![
            PendingWrite {
                write: StoreWrite::UpdateUser(pointed(user->Ok_0, None)),
                on_failure: StoreStep::UpdateUser,
            },
        ] && match p.room {
            Some(room) => leave_room_key(*data, user->Ok_0) == Some(room@),
            None => leave_room_key(*data, user->Ok_0) == None::<RoomKey>,
        }),
{
    let mut user = match user {
        Ok(u) => u,
        Err(_) => return Err(CoordError::UnknownUser),
    };
    let room = match &data.channel_id {
        Some(c) => Some(Room::channel(data.server_id.as_str(), c.as_str())),
        None => match &user.current_channel_id {
            Some(c) => Some(Room::channel(data.server_id.as_str(), c.as_str())),
            None => None,
        },
    };
    user.current_channel_id = None;
    let mut writes: Vec<PendingWrite> = Vec::new();
    writes.push(PendingWrite { write: StoreWrite::UpdateUser(user), on_failure: StoreStep::UpdateUser });
    Ok(LeavePlan { room, writes })
}

/// The last step of `leave_channel`, once the user write succeeded: takes
/// the connection out of the channel's room.
pub fn finish_leave(reg: &mut ConnectionRegistry, conn: u64, plan: &LeavePlan)
    requires
        old(reg).wf(),
    ensures
        final(reg).wf(),
        final(reg).live() == old(reg).live(),
        final(reg).subscriptions() == match plan.room {
            Some(room) => old(reg).subscriptions().remove((conn, room@)),
            None => old(reg).subscriptions(),
        },
{
    match &plan.room {
        Some(room) => {
            reg.unsubscribe(conn, room);
        },
        None => {},
    }
}

/// Whether the user record `u` points at the channel `channel_id`.
pub open spec fn points_at(u: User, channel_id: Seq<char>) -> bool {
    opt_view(u.current_channel_id) == Some(channel_id)
}

/// The write that clears the channel pointer of `u`.
pub open spec fn clearing_write(u: User) -> PendingWrite {
    PendingWrite { write: StoreWrite::UpdateUser(pointed(u, None)), on_failure: StoreStep::UpdateUser }
}

/// The writes that clear the pointer of each of `occupants` that points at
/// the channel, in the order of the list.
pub open spec fn clearing_writes(occupants: Seq<User>, channel_id: Seq<char>) -> Seq<PendingWrite>
    decreases occupants.len(),
{
    if occupants.len() == 0 {
        Seq::empty()
    } else {
        let rest = clearing_writes(occupants.drop_last(), channel_id);
        let u = occupants.last();
        if points_at(u, channel_id) {
            rest.push(clearing_write(u))
        } else {
            rest
        }
    }
}

/// What `delete_channel` plans once the channel's occupants and the server
/// were read: the pointer of each occupant that points at the channel is
/// cleared, and then the channel is removed.
pub open spec fn delete_planned(channel_id: String, occupants: Seq<User>, writes: Seq<PendingWrite>) -> bool {
    writes == clearing_writes(occupants, channel_id@).push(
        PendingWrite { write: StoreWrite::DeleteChannel(channel_id), on_failure: StoreStep::DeleteChannel },
    )
}

/// The first step of `delete_channel`: every occupant that points at the
/// channel has its pointer cleared before the channel row goes, so that no
/// stored pointer names a channel that does not exist.
pub fn plan_delete(
    data: &DeleteChannelData,
    occupants: Result<Vec<User>, DbError>,
    server: Result<Server, DbError>,
) -> (r: Result<Vec<PendingWrite>, CoordError>)
    ensures
        occupants is Err ==> r == Err::<Vec<PendingWrite>, CoordError>(
            CoordError::Store(StoreStep::GetChannelUsers),
        ),
        occupants is Ok && server is Err ==> r == Err::<Vec<PendingWrite>, CoordError>(
            CoordError::ServerNotFound(data.server_id),
        ),
        occupants is Ok && server is Ok ==> (r matches Ok(w) && delete_planned(
            data.channel_id,
            occupants->Ok_0@,
            w@,
        )),
{
    let mut occupants = match occupants {
        Ok(o) => o,
        Err(_) => return Err(CoordError::Store(StoreStep::GetChannelUsers)),
    };
    match server {
        Ok(_) => {},
        Err(_) => return Err(CoordError::ServerNotFound(data.server_id.clone())),
    }
    let ghost all = occupants@;
    let cid = &data.channel_id;
    let mut writes: Vec<PendingWrite> = Vec::new();
    let ghost mut k: int = 0;
    while occupants.len() > 0
        invariant
            0 <= k <= all.len(),
            occupants@ == all.subrange(k, all.len() as int),
            writes@ == clearing_writes(all.subrange(0, k), cid@),
        decreases occupants@.len(),
    {
        let mut u = occupants.remove(0);
        proof {
            assert(u == all[k]);
            assert(all.subrange(0, k + 1).drop_last() =~= all.subrange(0, k));
            assert(all.subrange(0, k + 1).last() == all[k]);
        }
        let here = match &u.current_channel_id {
            Some(c) => *c == *cid,
            None => false,
        };
        if here {
            u.current_channel_id = None;
            writes.push(PendingWrite { write: StoreWrite::UpdateUser(u), on_failure: StoreStep::UpdateUser });
        }
        proof {
            k = k + 1;
            assert(occupants@ =~= all.subrange(k, all.len() as int));
        }
    }
    proof {
        assert(all.subrange(0, k) =~= all);
    }
    writes.push(PendingWrite { write: StoreWrite::DeleteChannel(cid.clone()), on_failure: StoreStep::DeleteChannel });
    Ok(writes)
}

proof fn lemma_clearing_covers(occupants: Seq<User>, channel_id: Seq<char>, j: int)
    requires
        0 <= j < occupants.len(),
        points_at(occupants[j], channel_id),
    ensures
        exists|i: int|
            0 <= i < clearing_writes(occupants, channel_id).len() && #[trigger] clearing_writes(
                occupants,
                channel_id,
            )[i] == clearing_write(occupants[j]),
    decreases occupants.len(),
{
    let rest = clearing_writes(occupants.drop_last(), channel_id);
    let w = clearing_writes(occupants, channel_id);
    if j == occupants.len() - 1 {
        assert(w[rest.len() as int] == clearing_write(occupants[j]));
    } else {
        assert(occupants.drop_last()[j] == occupants[j]);
        lemma_clearing_covers(occupants.drop_last(), channel_id, j);
        let i = choose|i: int| 0 <= i < rest.len() && #[trigger] rest[i] == clearing_write(occupants[j]);
        assert(w[i] == rest[i]);
    }
}

/// When every write of a channel deletion went through, in order, each
/// occupant that pointed at the channel had its record written with the
/// pointer cleared, and the channel row was removed only after all of them.
pub proof fn lemma_delete_clears_pointers(
    channel_id: String,
    occupants: Seq<User>,
    writes: Seq<PendingWrite>,
    j: int,
)
    requires
        delete_planned(channel_id, occupants, writes),
        0 <= j < occupants.len(),
        points_at(occupants[j], channel_id@),
    ensures
        exists|i: int|
            0 <= i < writes.len() - 1 && (#[trigger] writes[i]).write == StoreWrite::UpdateUser(
                pointed(occupants[j], None),
            ),
        !points_at(pointed(occupants[j], None), channel_id@),
        pointed(occupants[j], None).id == occupants[j].id,
        writes[writes.len() - 1].write == StoreWrite::DeleteChannel(channel_id),
{
    lemma_clearing_covers(occupants, channel_id@, j);
    let cw = clearing_writes(occupants, channel_id@);
    let i = choose|i: int| 0 <= i < cw.len() && #[trigger] cw[i] == clearing_write(occupants[j]);
    assert(writes[i] == cw[i]);
}

/// The last step of creating, editing or deleting a channel, once its
/// writes went through: the refreshed channel list goes to the server's
/// room. Subscriptions are left as they are; a connection still subscribed
/// to a deleted channel's room drops it when it next re-derives its rooms.
pub fn finish_channel_change(
    server_id: &String,
    channels: Result<Vec<Channel>, DbError>,
) -> (r: Result<Vec<Outgoing>, CoordError>)
    ensures
        channels is Err ==> r == Err::<Vec<Outgoing>, CoordError>(
            CoordError::Store(StoreStep::GetChannels),
        ),
        channels is Ok ==> (r matches Ok(out) && out@ == seq![
            Outgoing {
                target: Target::Room(Room::Server { server_id: *server_id }),
                payload: Payload::Channels(channels->Ok_0),
            },
        ]),
{
    let channels = match channels {
        Ok(c) => c,
        Err(_) => return Err(CoordError::Store(StoreStep::GetChannels)),
    };
    let mut out: Vec<Outgoing> = Vec::new();
    out.push(
        Outgoing {
            target: Target::Room(Room::Server { server_id: server_id.clone() }),
            payload: Payload::Channels(channels),
        },
    );
    proof {
        assert(out@ =~= seq![
            Outgoing {
                target: Target::Room(Room::Server { server_id: *server_id }),
                payload: Payload::Channels(channels),
            },
        ]);
    }
    Ok(out)
}


/// Why a chat message is refused, if it is: its server or its sender is
/// unknown, or the sender occupies no channel.
pub open spec fn chat_refusal(
    data: ChatMessageData,
    server: Result<Server, DbError>,
    sender: Result<User, DbError>,
) -> Option<CoordError> {
    match server {
        Err(_) => Some(CoordError::ServerNotFound(data.server_id)),
        Ok(_) => match sender {
            Err(_) => Some(CoordError::UnknownUser),
            Ok(u) => match u.current_channel_id {
                None => Some(CoordError::NotInChannel),
                Some(_) => None,
            },
        },
    }
}

/// The write that stores a chat message from `sender` in the channel it occupies.
pub open spec fn chat_write(content: String, sender: User, channel_id: String, id: String, timestamp: i64) -> PendingWrite {
    PendingWrite {
        write: StoreWrite::CreateMessage {
            message: Message {
                id,
                sender_id: sender.id,
                content,
                timestamp,
                message_type: MessageType::General,
            },
            channel_id,
        },
        on_failure: StoreStep::SaveMessage,
    }
}

/// What a chat message turned into: its write, and the room it goes to.
pub struct ChatPlan {
    /// The room of the channel that the sender occupies.
    pub room: Room,
    /// The message write.
    pub writes: Vec<PendingWrite>,
}

/// The first step of a chat message, given the new message's id and time:
/// refuses it as `chat_refusal` says, and otherwise stores it in the channel
/// that the sender occupies, to be sent to that channel's room.
pub fn plan_chat(
    data: &ChatMessageData,
    server: Result<Server, DbError>,
    sender: Result<User, DbError>,
    id: String,
    timestamp: i64,
) -> (r: Result<ChatPlan, CoordError>)
    ensures
        chat_refusal(*data, server, sender) matches Some(e) ==> r == Err::<ChatPlan, CoordError>(e),
        chat_refusal(*data, server, sender) is None ==> ({
            let s = server->Ok_0;
            let u = sender->Ok_0;
            let c = u.current_channel_id->Some_0;
            r matches Ok(p) && p.room@ == channel_room_key(s.id@, c@) && p.writes@ == seq![
                chat_write(data.message.content, u, c, id, timestamp),
            ]
        }),
{
    let server = match server {
        Ok(s) => s,
        Err(_) => return Err(CoordError::ServerNotFound(data.server_id.clone())),
    };
    let sender = match sender {
        Ok(u) => u,
        Err(_) => return Err(CoordError::UnknownUser),
    };
    let channel_id = match &sender.current_channel_id {
        Some(c) => c.clone(),
        None => return Err(CoordError::NotInChannel),
    };
    let room = Room::channel(server.id.as_str(), channel_id.as_str());
    let message = Message {
        id,
        sender_id: sender.id,
        content: data.message.content.clone(),
        timestamp,
        message_type: MessageType::General,
    };
    let mut writes: Vec<PendingWrite> = Vec::new();
    writes.push(
        PendingWrite {
            write: StoreWrite::CreateMessage { message, channel_id },
            on_failure: StoreStep::SaveMessage,
        },
    );
    Ok(ChatPlan { room, writes })
}

/// The first step of a chat message: gives it a fresh id and the current
/// time, then decides as `plan_chat` does.
pub fn compose_chat(
    data: &ChatMessageData,
    server: Result<Server, DbError>,
    sender: Result<User, DbError>,
) -> (r: Result<ChatPlan, CoordError>)
    ensures
        chat_refusal(*data, server, sender) matches Some(e) ==> r == Err::<ChatPlan, CoordError>(e),
        chat_refusal(*data, server, sender) is None ==> ({
            let s = server->Ok_0;
            let u = sender->Ok_0;
            let c = u.current_channel_id->Some_0;
            r matches Ok(p) && p.room@ == channel_room_key(s.id@, c@) && p.writes@.len() == 1
                && exists|id: String, t: i64| p.writes@[0] == #[trigger] chat_write(data.message.content, u, c, id, t)
        }),
{
    let refused = match &server {
        Err(_) => true,
        Ok(_) => match &sender {
            Err(_) => true,
            Ok(u) => u.current_channel_id.is_none(),
        },
    };
    if refused {
        return plan_chat(data, server, sender, String::new(), 0);
    }
    let id = fresh_id();
    let timestamp = now_millis();
    let r = plan_chat(data, server, sender, id, timestamp);
    proof {
        if r is Ok {
            let p = r->Ok_0;
            let u = sender->Ok_0;
            let c = u.current_channel_id->Some_0;
            assert(p.writes@[0] == chat_write(data.message.content, u, c, id, timestamp));
        }
    }
    r
}

/// The last step of a chat message, once it was stored: it goes to every
/// connection subscribed to the channel's room.
pub fn finish_chat(plan: ChatPlan) -> (out: Vec<Outgoing>)
    requires
        plan.writes@.len() == 1,
        plan.writes@[0].write is CreateMessage,
    ensures
        out@ == seq![
            Outgoing {
                target: Target::Room(plan.room),
                payload: Payload::Message(plan.writes@[0].write->CreateMessage_message),
            },
        ],
{
    let ghost written = plan.writes@[0].write->CreateMessage_message;
    let ghost room0 = plan.room;
    let ChatPlan { room, mut writes } = plan;
    let mut out: Vec<Outgoing> = Vec::new();
    match writes.pop() {
        Some(PendingWrite { write: StoreWrite::CreateMessage { message, .. }, .. }) => {
            out.push(Outgoing { target: Target::Room(room), payload: Payload::Message(message) });
        },
        _ => {
            proof {
                assert(false);
            }
        },
    }
    proof {
        assert(out@ =~= seq![
            Outgoing {
                target: Target::Room(room0),
                payload: Payload::Message(written),
            },
        ]);
    }
    out
}

/// The first step of `create_channel`: refuses an empty name or an unknown
/// server, and otherwise creates the channel in the server.
pub fn plan_add_channel(data: ChannelData, server: Result<Server, DbError>) -> (r: Result<
    Vec<PendingWrite>,
    CoordError,
>)
    ensures
        data.channel.name@.len() == 0 ==> r == Err::<Vec<PendingWrite>, CoordError>(
            CoordError::InvalidChannelData,
        ),
        data.channel.name@.len() > 0 && server is Err ==> r == Err::<Vec<PendingWrite>, CoordError>(
            CoordError::ServerNotFound(data.server_id),
        ),
        data.channel.name@.len() > 0 && server is Ok ==> (r matches Ok(w) && w@ == seq![
            PendingWrite {
                write: StoreWrite::CreateChannel { channel: data.channel, server_id: data.server_id },
                on_failure: StoreStep::CreateChannel,
            },
        ]),
{
    if is_blank(&data.channel.name) {
        return Err(CoordError::InvalidChannelData);
    }
    if server.is_err() {
        return Err(CoordError::ServerNotFound(data.server_id));
    }
    let mut writes: Vec<PendingWrite> = Vec::new();
    writes.push(
        PendingWrite {
            write: StoreWrite::CreateChannel { channel: data.channel, server_id: data.server_id },
            on_failure: StoreStep::CreateChannel,
        },
    );
    Ok(writes)
}

/// The first step of `edit_channel`: refuses an empty name or an unknown
/// server, and otherwise writes the channel record as given.
pub fn plan_edit_channel(data: ChannelData, server: Result<Server, DbError>) -> (r: Result<
    Vec<PendingWrite>,
    CoordError,
>)
    ensures
        data.channel.name@.len() == 0 ==> r == Err::<Vec<PendingWrite>, CoordError>(
            CoordError::InvalidChannelData,
        ),
        data.channel.name@.len() > 0 && server is Err ==> r == Err::<Vec<PendingWrite>, CoordError>(
            CoordError::ServerNotFound(data.server_id),
        ),
        data.channel.name@.len() > 0 && server is Ok ==> (r matches Ok(w) && w@ == seq![
            PendingWrite {
                write: StoreWrite::UpdateChannel(data.channel),
                on_failure: StoreStep::UpdateChannel,
            },
        ]),
{
    if is_blank(&data.channel.name) {
        return Err(CoordError::InvalidChannelData);
    }
    if server.is_err() {
        return Err(CoordError::ServerNotFound(data.server_id));
    }
    let mut writes: Vec<PendingWrite> = Vec::new();
    writes.push(
        PendingWrite { write: StoreWrite::UpdateChannel(data.channel), on_failure: StoreStep::UpdateChannel },
    );
    Ok(writes)
}

/// The first step of `connectUser`: marks the user online.
pub fn plan_connect_user(user: Result<User, DbError>) -> (r: Result<Vec<PendingWrite>, CoordError>)
    ensures
        user is Err ==> r == Err::<Vec<PendingWrite>, CoordError>(CoordError::Store(StoreStep::GetUser)),
        user is Ok ==> (r matches Ok(w) && w@ == seq![
            PendingWrite {
                write: StoreWrite::UpdateUser(User { state: UserState::Online, ..user->Ok_0 }),
                on_failure: StoreStep::UpdateUserState,
            },
        ]),
{
    let mut user = match user {
        Ok(u) => u,
        Err(_) => return Err(CoordError::Store(StoreStep::GetUser)),
    };
    user.state = UserState::Online;
    let mut writes: Vec<PendingWrite> = Vec::new();
    writes.push(PendingWrite { write: StoreWrite::UpdateUser(user), on_failure: StoreStep::UpdateUserState });
    Ok(writes)
}

/// The last step of `connectUser`, once the user was marked online: binds
/// the user to the connection and sends the user record back to it.
pub fn finish_connect_user(reg: &mut ConnectionRegistry, conn: u64, writes: Vec<PendingWrite>) -> (out: Vec<Outgoing>)
    requires
        old(reg).wf(),
        writes@.len() == 1,
        writes@[0].write is UpdateUser,
    ensures
        final(reg).wf(),
        final(reg).subscriptions() == old(reg).subscriptions(),
        old(reg).live().contains_key(conn) ==> final(reg).live() == old(reg).live().insert(
            conn,
            Some(writes@[0].write->UpdateUser_0.id@),
        ),
        !old(reg).live().contains_key(conn) ==> final(reg).live() == old(reg).live(),
        out@ == seq![
            Outgoing {
                target: Target::Connection(conn),
                payload: Payload::User(writes@[0].write->UpdateUser_0),
            },
        ],
{
    let ghost written = writes@[0].write->UpdateUser_0;
    let mut writes = writes;
    let mut out: Vec<Outgoing> = Vec::new();
    match writes.pop() {
        Some(PendingWrite { write: StoreWrite::UpdateUser(user), .. }) => {
            reg.bind_user(conn, user.id.clone());
            out.push(Outgoing { target: Target::Connection(conn), payload: Payload::User(user) });
        },
        _ => {
            proof {
                assert(false);
            }
        },
    }
    proof {
        assert(out@ =~= seq![
            Outgoing { target: Target::Connection(conn), payload: Payload::User(written) },
        ]);
    }
    out
}

/// What is left of a connection that went away.
pub struct Departure {
    /// The user that was bound to it.
    pub user_id: Option<String>,
    /// Whether that user has no other live connection.
    pub last_connection: bool,
}

/// The `error` event that reports `e` to the connection that asked.
pub fn report(conn: u64, e: &CoordError) -> (o: Outgoing)
    ensures
        o.target == Target::Connection(conn),
        o.payload matches Payload::Error(t) && t@ == crate::error::error_text(*e),
{
    Outgoing { target: Target::Connection(conn), payload: Payload::Error(e.message()) }
}

/// Drops a connection that went away, with all its subscriptions. The
/// user's stored channel pointer is kept, so that a later reconnect resumes
/// the same channel.
pub fn disconnect(reg: &mut ConnectionRegistry, conn: u64) -> (d: Departure)
    requires
        old(reg).wf(),
    ensures
        final(reg).wf(),
        final(reg).live() == old(reg).live().remove(conn),
        forall|c: u64, k: RoomKey|
            final(reg).subscriptions().contains((c, k)) <==> (old(reg).subscriptions().contains((c, k))
                && c != conn),
        opt_view(d.user_id) == if old(reg).live().contains_key(conn) {
            old(reg).live()[conn]
        } else {
            None
        },
        d.last_connection == match d.user_id {
            Some(u) => forall|c: u64| #[trigger] final(reg).live().contains_key(c) ==> final(reg).live()[c] != Some(u@),
            None => false,
        },
{
    let user_id = reg.unregister(conn);
    let last_connection = match &user_id {
        Some(u) => {
            let others = reg.connections_of_user(u);
            proof {
                if others@.len() > 0 {
                    assert(others@.contains(others@[0]));
                }
            }
            others.len() == 0
        },
        None => false,
    };
    Departure { user_id, last_connection }
}


/// Whether the occupancy of `c` agrees with the pointer of `u`: `u` is among
/// the occupants exactly when it points at `c`.
pub open spec fn occupancy_agrees(u: User, c: Channel) -> bool {
    holds_id(c.user_ids@, u.id@) <==> points_at(u, c.id@)
}

/// `c2` is `c` with the occupancy of `u` set to agree with its pointer:
/// the other occupants and every other field are kept.
pub open spec fn repaired(c2: Channel, c: Channel, u: User) -> bool {
    &&& c2.id == c.id
    &&& c2.name == c.name
    &&& c2.permission == c.permission
    &&& c2.is_lobby == c.is_lobby
    &&& c2.is_category == c.is_category
    &&& c2.message_ids@ == c.message_ids@
    &&& c2.parent_id == c.parent_id
    &&& occupancy_agrees(u, c2)
    &&& forall|x: Seq<char>| x != u.id@ ==> (holds_id(c2.user_ids@, x) <==> holds_id(c.user_ids@, x))
}

fn without_id(ids: &Vec<String>, id: &String) -> (r: Vec<String>)
    ensures
        !holds_id(r@, id@),
        forall|x: Seq<char>| x != id@ ==> (holds_id(r@, x) <==> holds_id(ids@, x)),
{
    let mut out: Vec<String> = Vec::new();
    let mut i: usize = 0;
    while i < ids.len()
        invariant
            i <= ids@.len(),
            !holds_id(out@, id@),
            forall|x: Seq<char>| x != id@ ==> (holds_id(out@, x) <==> holds_id(ids@.subrange(0, i as int), x)),
        decreases ids@.len() - i,
    {
        let ghost before = out@;
        if ids[i] != *id {
            out.push(ids[i].clone());
        }
        proof {
            let pre = ids@.subrange(0, i as int);
            let pre2 = ids@.subrange(0, i + 1);
            assert forall|x: Seq<char>| x != id@ implies (holds_id(out@, x) <==> holds_id(pre2, x)) by {
                if holds_id(out@, x) {
                    let k = choose|k: int| 0 <= k < out@.len() && (#[trigger] out@[k])@ == x;
                    if k < before.len() {
                        assert(before[k] == out@[k]);
                        assert(holds_id(before, x));
                        assert(holds_id(pre, x));
                        let m = choose|m: int| 0 <= m < pre.len() && (#[trigger] pre[m])@ == x;
                        assert(pre2[m] == pre[m]);
                    } else {
                        assert(pre2[i as int] == ids@[i as int]);
                    }
                }
                if holds_id(pre2, x) {
                    let m = choose|m: int| 0 <= m < pre2.len() && (#[trigger] pre2[m])@ == x;
                    if m < i {
                        assert(pre[m] == pre2[m]);
                        assert(holds_id(pre, x));
                        assert(holds_id(before, x));
                        let k = choose|k: int| 0 <= k < before.len() && (#[trigger] before[k])@ == x;
                        assert(out@[k] == before[k]);
                    } else {
                        assert(out@[before.len() as int] == ids@[i as int]);
                    }
                }
            }
            if holds_id(out@, id@) {
                let k = choose|k: int| 0 <= k < out@.len() && (#[trigger] out@[k])@ == id@;
                if k < before.len() {
                    assert(before[k] == out@[k]);
                }
            }
        }
        i = i + 1;
    }
    proof {
        assert(ids@.subrange(0, ids@.len() as int) =~= ids@);
    }
    out
}

/// Whether `w` writes the channel record with id `id`.
pub open spec fn rewrites_channel(w: PendingWrite, id: String) -> bool {
    w.write matches StoreWrite::UpdateChannel(c2) && c2.id == id
}

/// Sets the occupancy of `u` in `c` to agree with the pointer of `u`; none
/// when it agrees already.
pub fn repair_occupancy(u: &User, c: &Channel) -> (r: Option<Channel>)
    ensures
        occupancy_agrees(*u, *c) ==> r is None,
        !occupancy_agrees(*u, *c) ==> (r matches Some(c2) && repaired(c2, *c, *u)),
{
    let listed = contains_id(&c.user_ids, &u.id);
    let pointed_here = match &u.current_channel_id {
        Some(cur) => *cur == c.id,
        None => false,
    };
    if listed == pointed_here {
        return None;
    }
    let user_ids = if pointed_here {
        let mut ids = c.user_ids.clone();
        proof {
            assert(ids@ =~= c.user_ids@);
        }
        ids.push(u.id.clone());
        proof {
            assert(ids@[c.user_ids@.len() as int] == u.id);
            assert forall|x: Seq<char>| x != u.id@ implies (holds_id(ids@, x) <==> holds_id(c.user_ids@, x)) by {
                if holds_id(ids@, x) {
                    let k = choose|k: int| 0 <= k < ids@.len() && (#[trigger] ids@[k])@ == x;
                    assert(k < c.user_ids@.len());
                    assert(c.user_ids@[k] == ids@[k]);
                }
                if holds_id(c.user_ids@, x) {
                    let k = choose|k: int| 0 <= k < c.user_ids@.len() && (#[trigger] c.user_ids@[k])@ == x;
                    assert(ids@[k] == c.user_ids@[k]);
                }
            }
        }
        ids
    } else {
        without_id(&c.user_ids, &u.id)
    };
    let message_ids = c.message_ids.clone();
    proof {
        assert(message_ids@ =~= c.message_ids@);
    }
    Some(
        Channel {
            id: c.id.clone(),
            name: c.name.clone(),
            permission: c.permission.clone(),
            is_lobby: c.is_lobby,
            is_category: c.is_category,
            user_ids,
            message_ids,
            parent_id: c.parent_id.clone(),
        },
    )
}

/// The channel writes that make the occupancy of `u` agree with its pointer
/// in each of `channels`, run when a connection takes a snapshot.
pub fn plan_repairs(u: &User, channels: &Vec<Channel>) -> (w: Vec<PendingWrite>)
    ensures
        forall|i: int|
            0 <= i < w@.len() ==> (#[trigger] w@[i]).on_failure == StoreStep::UpdateChannel && (w@[i].write matches StoreWrite::UpdateChannel(c2)
                && exists|j: int| 0 <= j < channels@.len() && repaired(c2, #[trigger] channels@[j], *u)),
        forall|j: int|
            0 <= j < channels@.len() && !occupancy_agrees(*u, #[trigger] channels@[j]) ==> exists|i: int|
                0 <= i < w@.len() && rewrites_channel(#[trigger] w@[i], channels@[j].id),
{
    let mut out: Vec<PendingWrite> = Vec::new();
    let mut j: usize = 0;
    while j < channels.len()
        invariant
            j <= channels@.len(),
            forall|i: int|
                0 <= i < out@.len() ==> (#[trigger] out@[i]).on_failure == StoreStep::UpdateChannel && (out@[i].write matches StoreWrite::UpdateChannel(c2)
                    && exists|k: int| 0 <= k < channels@.len() && repaired(c2, #[trigger] channels@[k], *u)),
            forall|k: int|
                0 <= k < j && !occupancy_agrees(*u, #[trigger] channels@[k]) ==> exists|i: int|
                    0 <= i < out@.len() && rewrites_channel(#[trigger] out@[i], channels@[k].id),
        decreases channels@.len() - j,
    {
        let ghost before = out@;
        match repair_occupancy(u, &channels[j]) {
            Some(c2) => {
                out.push(PendingWrite { write: StoreWrite::UpdateChannel(c2), on_failure: StoreStep::UpdateChannel });
                proof {
                    assert forall|k: int|
                        0 <= k < j + 1 && !occupancy_agrees(*u, #[trigger] channels@[k]) implies exists|i: int|
                            0 <= i < out@.len() && rewrites_channel(#[trigger] out@[i], channels@[k].id) by {
                        if k < j {
                            let i = choose|i: int| 0 <= i < before.len() && rewrites_channel(#[trigger] before[i], channels@[k].id);
                            assert(out@[i] == before[i]);
                        } else {
                            assert(rewrites_channel(out@[before.len() as int], channels@[k].id));
                        }
                    }
                    assert forall|i: int|
                        0 <= i < out@.len() implies (#[trigger] out@[i]).on_failure == StoreStep::UpdateChannel && (out@[i].write matches StoreWrite::UpdateChannel(c2)
                            && exists|k: int| 0 <= k < channels@.len() && repaired(c2, #[trigger] channels@[k], *u)) by {
                        if i < before.len() {
                            assert(out@[i] == before[i]);
                        } else {
                            let c2 = out@[i].write->UpdateChannel_0;
                            assert(repaired(c2, channels@[j as int], *u));
                        }
                    }
                }
            },
            None => {},
        }
        j = j + 1;
    }
    out
}

/// Two joins of the same user, to two channels of one server, that raced:
/// whichever user write landed last names one of the two channels, and once
/// a snapshot repaired the occupancy of both, exactly one of them holds the
/// user, the one that its pointer names.
pub proof fn lemma_race_settles(
    u: User,
    s: Server,
    c1: Channel,
    c2: Channel,
    p1: JoinPlan,
    p2: JoinPlan,
    last: User,
    r1: Channel,
    r2: Channel,
)
    requires
        join_planned(u, s, c1, p1),
        join_planned(u, s, c2, p2),
        c1.id@ != c2.id@,
        last == p1.writes@[1].write->UpdateUser_0 || last == p2.writes@[1].write->UpdateUser_0,
        r1.id == c1.id,
        r2.id == c2.id,
        occupancy_agrees(last, r1),
        occupancy_agrees(last, r2),
    ensures
        holds_id(r1.user_ids@, u.id@) != holds_id(r2.user_ids@, u.id@),
        holds_id(r1.user_ids@, u.id@) <==> opt_view(last.current_channel_id) == Some(c1.id@),
        holds_id(r2.user_ids@, u.id@) <==> opt_view(last.current_channel_id) == Some(c2.id@),
{
}

} // verus!
