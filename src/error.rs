//! Failures of the entity store and of the coordination protocols.

use vstd::prelude::*;

verus! {

/// A failure reported by the entity store.
#[derive(Clone, Debug)]
pub enum DbError {
    /// The store itself failed; the text describes how.
    Sqlx(String),
    InvalidData(String),
    NotFound,
    /// The row exists already (a duplicate membership or occupancy).
    Conflict,
}

/// The store operation that failed.
#[derive(Clone, Copy, Debug, PartialEq, Eq, Structural)]
pub enum StoreStep {
    GetUser,
    GetChannels,
    GetUsers,
    GetChannelUsers,
    GetMessages,
    AddServerUser,
    UpdateUser,
    UpdateUserState,
    UpdateChannel,
    CreateChannel,
    DeleteChannel,
    SaveMessage,
}

/// Why a protocol step was refused or aborted. Each is reported to the
/// connection that asked, as an `error` event; none ends the process.
#[derive(Clone, Debug)]
pub enum CoordError {
    /// A server or user id of the request is empty.
    InvalidServerData,
    /// The channel of the request has an empty name.
    InvalidChannelData,
    ServerNotFound(String),
    UserNotFound(String),
    /// The user named by a chat message or a leave request is unknown.
    UnknownUser,
    ChannelNotFound(String),
    /// The user is not a member of the server whose channel it tries to join.
    NotMember { server_id: String, user_id: String },
    /// A chat message from a user that occupies no channel.
    NotInChannel,
    /// A store operation failed; the protocol stopped there.
    Store(StoreStep),
}

pub open spec fn step_text(s: StoreStep) -> Seq<char> {
    match s {
        StoreStep::GetUser => "Failed to get user"@,
        StoreStep::GetChannels => "Failed to get channels"@,
        StoreStep::GetUsers => "Failed to get users"@,
        StoreStep::GetChannelUsers => "Failed to get channel users"@,
        StoreStep::GetMessages => "Failed to get messages"@,
        StoreStep::AddServerUser => "Failed to add user to server"@,
        StoreStep::UpdateUser => "Failed to update user"@,
        StoreStep::UpdateUserState => "Failed to update user state"@,
        StoreStep::UpdateChannel => "Failed to update channel"@,
        StoreStep::CreateChannel => "Failed to create channel"@,
        StoreStep::DeleteChannel => "Failed to delete channel"@,
        StoreStep::SaveMessage => "Failed to save message"@,
    }
}

/// The text of the `error` event that reports `e`.
pub open spec fn error_text(e: CoordError) -> Seq<char> {
    match e {
        CoordError::InvalidServerData => "Invalid server data"@,
        CoordError::InvalidChannelData => "Invalid channel data"@,
        CoordError::ServerNotFound(id) => "Server("@ + id@ + ") not found"@,
        CoordError::UserNotFound(id) => "User("@ + id@ + ") not found"@,
        CoordError::UnknownUser => "User not found"@,
        CoordError::ChannelNotFound(id) => "Channel("@ + id@ + ") not found"@,
        CoordError::NotMember { server_id, user_id } => "User("@ + user_id@
            + ") is not a member of server("@ + server_id@ + ")"@,
        CoordError::NotInChannel => "You are not in any channel"@,
        CoordError::Store(s) => step_text(s),
    }
}

fn framed(before: &str, id: &String, after: &str) -> (s: String)
    ensures
        s@ == before@ + id@ + after@,
{
    let mut s = String::from_str(before);
    s.append(id.as_str());
    s.append(after);
    s
}

impl StoreStep {
    pub fn text(&self) -> (s: String)
        ensures
            s@ == step_text(*self),
    {
        match self {
            StoreStep::GetUser => String::from_str("Failed to get user"),
            StoreStep::GetChannels => String::from_str("Failed to get channels"),
            StoreStep::GetUsers => String::from_str("Failed to get users"),
            StoreStep::GetChannelUsers => String::from_str("Failed to get channel users"),
            StoreStep::GetMessages => String::from_str("Failed to get messages"),
            StoreStep::AddServerUser => String::from_str("Failed to add user to server"),
            StoreStep::UpdateUser => String::from_str("Failed to update user"),
            StoreStep::UpdateUserState => String::from_str("Failed to update user state"),
            StoreStep::UpdateChannel => String::from_str("Failed to update channel"),
            StoreStep::CreateChannel => String::from_str("Failed to create channel"),
            StoreStep::DeleteChannel => String::from_str("Failed to delete channel"),
            StoreStep::SaveMessage => String::from_str("Failed to save message"),
        }
    }
}

impl CoordError {
    /// The text of the `error` event that reports this failure.
    pub fn message(&self) -> (s: String)
        ensures
            s@ == error_text(*self),
    {
        match self {
            CoordError::InvalidServerData => String::from_str("Invalid server data"),
            CoordError::InvalidChannelData => String::from_str("Invalid channel data"),
            CoordError::ServerNotFound(id) => framed("Server(", id, ") not found"),
            CoordError::UserNotFound(id) => framed("User(", id, ") not found"),
            CoordError::UnknownUser => String::from_str("User not found"),
            CoordError::ChannelNotFound(id) => framed("Channel(", id, ") not found"),
            CoordError::NotMember { server_id, user_id } => {
                let mut s = framed("User(", user_id, ") is not a member of server(");
                s.append(server_id.as_str());
                s.append(")");
                s
            },
            CoordError::NotInChannel => String::from_str("You are not in any channel"),
            CoordError::Store(step) => step.text(),
        }
    }
}


/// How a store failure reads in a response.
pub open spec fn db_error_text(e: DbError) -> Seq<char> {
    match e {
        DbError::Sqlx(t) => "SQLx error: "@ + t@,
        DbError::InvalidData(t) => "Invalid data: "@ + t@,
        DbError::NotFound => "Item not found"@,
        DbError::Conflict => "Duplicate entry"@,
    }
}

impl DbError {
    /// How this failure reads in a response.
    pub fn describe(&self) -> (s: String)
        ensures
            s@ == db_error_text(*self),
    {
        match self {
            DbError::Sqlx(t) => {
                let mut s = String::from_str("SQLx error: ");
                s.append(t.as_str());
                s
            },
            DbError::InvalidData(t) => {
                let mut s = String::from_str("Invalid data: ");
                s.append(t.as_str());
                s
            },
            DbError::NotFound => String::from_str("Item not found"),
            DbError::Conflict => String::from_str("Duplicate entry"),
        }
    }
}

} // verus!
