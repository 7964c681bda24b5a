//! The stored entities: users, servers, channels and messages.

use std::collections::HashMap;

use vstd::prelude::*;

use crate::clock::fresh_id;

verus! {

#[derive(Clone, Copy, Debug, PartialEq, Eq, Structural)]
pub enum UserGender {
    Male,
    Female,
}

/// Presence of a user.
#[derive(Clone, Copy, Debug, PartialEq, Eq, Structural)]
pub enum UserState {
    Online,
    Dnd,
    Idle,
    Gn,
}

#[derive(Clone, Debug)]
pub struct User {
    pub id: String,
    pub name: String,
    pub account: String,
    /// The credential hash.
    pub password: String,
    pub gender: UserGender,
    pub avatar: Option<String>,
    pub level: i64,
    pub created_at: i64,
    pub last_login_at: Option<i64>,
    pub state: UserState,
    /// The channel the user occupies, if any.
    pub current_channel_id: Option<String>,
}

#[derive(Clone, Debug)]
pub struct UserData {
    pub id: String,
    pub name: String,
    pub account: String,
    pub gender: String,
}

#[derive(Clone, Debug)]
pub struct Channel {
    pub id: String,
    pub name: String,
    pub permission: String,
    pub is_lobby: bool,
    pub is_category: bool,
    /// The occupants.
    pub user_ids: Vec<String>,
    pub message_ids: Vec<String>,
    pub parent_id: Option<String>,
}

#[derive(Clone, Copy, Debug, PartialEq, Eq, Structural)]
pub enum MessageType {
    General,
    Info,
}

#[derive(Clone, Debug)]
pub struct Message {
    pub id: String,
    pub sender_id: String,
    pub content: String,
    pub timestamp: i64,
    pub message_type: MessageType,
}

#[derive(Clone, Debug)]
pub struct Server {
    pub id: String,
    pub name: String,
    pub icon: String,
    pub announcement: String,
    pub level: i64,
    /// The members.
    pub user_ids: Vec<String>,
    pub channel_ids: Vec<String>,
    pub created_at: i64,
    pub applications: HashMap<String, String>,
    pub permissions: HashMap<String, i64>,
    pub nicknames: HashMap<String, String>,
    pub contributions: HashMap<String, i64>,
    pub join_date: HashMap<String, i64>,
}

impl User {
    /// A new user with a fresh id: online, in no channel, at level 0.
    pub fn new(name: String, account: String, password: String, gender: UserGender) -> (u: User)
        ensures
            u.id@.len() == 36,
            u.name == name,
            u.account == account,
            u.password == password,
            u.gender == gender,
            u.avatar is None,
            u.level == 0,
            u.created_at == 0,
            u.last_login_at is None,
            u.state == UserState::Online,
            u.current_channel_id is None,
    {
        User {
            id: fresh_id(),
            name,
            account,
            password,
            gender,
            avatar: None,
            level: 0,
            created_at: 0,
            last_login_at: None,
            state: UserState::Online,
            current_channel_id: None,
        }
    }
}

/// Whether `ids` holds `id`.
pub open spec fn holds_id(ids: Seq<String>, id: Seq<char>) -> bool {
    exists|i: int| 0 <= i < ids.len() && (#[trigger] ids[i])@ == id
}

/// Whether `ids` holds `id`.
pub fn contains_id(ids: &Vec<String>, id: &String) -> (b: bool)
    ensures
        b == holds_id(ids@, id@),
{
    let mut i: usize = 0;
    while i < ids.len()
        invariant
            i <= ids@.len(),
            forall|k: int| 0 <= k < i ==> (#[trigger] ids@[k])@ != id@,
        decreases ids@.len() - i,
    {
        if ids[i] == *id {
            return true;
        }
        i = i + 1;
    }
    false
}

} // verus!
