//! Writes handed to the entity store, and how their outcomes are read.
//!
//! The store offers per-entity atomicity only. A protocol therefore hands
//! over its writes as an ordered list; they are applied in that order and
//! the first failure stops the protocol, with the writes before it kept.

use vstd::prelude::*;

use crate::error::{CoordError, DbError, StoreStep};
use crate::model::{Channel, Message, User};

verus! {

/// One write to the entity store.
#[derive(Clone, Debug)]
pub enum StoreWrite {
    /// Makes a user a member of a server with the given permission level.
    AddServerUser { server_id: String, user_id: String, permissions: i64 },
    UpdateUser(User),
    /// Writes the channel record, its occupant set included.
    UpdateChannel(Channel),
    CreateChannel { channel: Channel, server_id: String },
    /// Removes a channel with its messages and occupant rows.
    DeleteChannel(String),
    CreateMessage { message: Message, channel_id: String },
}

/// A write together with the step that its failure is reported as.
#[derive(Clone, Debug)]
pub struct PendingWrite {
    pub write: StoreWrite,
    pub on_failure: StoreStep,
}

/// Whether a failure of `w` with `e` counts as success: a duplicate
/// membership is what a racing call has written already.
pub open spec fn tolerated(w: StoreWrite, e: DbError) -> bool {
    &&& w is AddServerUser
    &&& e is Conflict
}

/// What the outcome `r` of the write `w` means for the protocol.
pub open spec fn settled(w: PendingWrite, r: Result<(), DbError>) -> Result<(), CoordError> {
    match r {
        Ok(()) => Ok(()),
        Err(e) => if tolerated(w.write, e) {
            Ok(())
        } else {
            Err(CoordError::Store(w.on_failure))
        },
    }
}

/// Reads the outcome of one write: success, a tolerated duplicate, or the
/// failure that stops the protocol.
pub fn settle_write(w: &PendingWrite, r: Result<(), DbError>) -> (out: Result<(), CoordError>)
    ensures
        out == settled(*w, r),
{
    match r {
        Ok(()) => Ok(()),
        Err(e) => {
            let dup = match (&w.write, &e) {
                (StoreWrite::AddServerUser { .. }, DbError::Conflict) => true,
                _ => false,
            };
            if dup {
                Ok(())
            } else {
                Err(CoordError::Store(w.on_failure))
            }
        },
    }
}

/// Whether a store error code reports a unique-key violation (SQLite's
/// primary-key and unique constraint codes).
pub fn is_unique_violation_code(code: Option<&String>) -> (b: bool)
    ensures
        b == match code {
            Some(c) => c@ == "1555"@ || c@ == "2067"@,
            None => false,
        },
{
    match code {
        Some(c) => {
            let pk = String::from_str("1555");
            let uq = String::from_str("2067");
            *c == pk || *c == uq
        },
        None => false,
    }
}

} // verus!
