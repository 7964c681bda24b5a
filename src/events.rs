//! The socket events that clients send, one type per event name.

use vstd::prelude::*;

use crate::model::Channel;

verus! {

/// `connectServer`
#[derive(Clone, Debug)]
pub struct ConnectServerData {
    pub server_id: String,
    pub user_id: String,
}

/// The message carried by a `chatMessage` event.
#[derive(Clone, Debug)]
pub struct ChatMessage {
    pub content: String,
    pub sender: String,
}

/// `chatMessage`
#[derive(Clone, Debug)]
pub struct ChatMessageData {
    pub server_id: String,
    pub message: ChatMessage,
}

/// `addChannel` and `editChannel`
#[derive(Clone, Debug)]
pub struct ChannelData {
    pub server_id: String,
    pub channel: Channel,
}

/// `deleteChannel`
#[derive(Clone, Debug)]
pub struct DeleteChannelData {
    pub server_id: String,
    pub channel_id: String,
}

/// `connectUser`
#[derive(Clone, Debug)]
pub struct ConnectUserData {
    pub user_id: String,
}

/// `joinChannel`
#[derive(Clone, Debug)]
pub struct JoinChannelData {
    pub server_id: String,
    pub channel_id: String,
    pub user_id: String,
}

/// `leaveChannel`
#[derive(Clone, Debug)]
pub struct LeaveChannelData {
    pub server_id: String,
    pub channel_id: Option<String>,
    pub user_id: String,
}

} // verus!
