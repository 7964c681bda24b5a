//! Decisions taken while an empty store is seeded with the initial records.

use vstd::prelude::*;

use crate::error::DbError;
use crate::model::Channel;

verus! {

/// The first channel of `channels` whose id is `id`.
pub fn find_channel(channels: &Vec<Channel>, id: &String) -> (r: Option<usize>)
    ensures
        match r {
            Some(j) => j < channels@.len() && channels@[j as int].id@ == id@ && forall|k: int|
                0 <= k < j ==> (#[trigger] channels@[k]).id@ != id@,
            None => forall|k: int| 0 <= k < channels@.len() ==> (#[trigger] channels@[k]).id@ != id@,
        },
{
    let mut j: usize = 0;
    while j < channels.len()
        invariant
            j <= channels@.len(),
            forall|k: int| 0 <= k < j ==> (#[trigger] channels@[k]).id@ != id@,
        decreases channels@.len() - j,
    {
        if channels[j].id == *id {
            return Some(j);
        }
        j = j + 1;
    }
    None
}

/// The permission level a seeded member gets: the one recorded for it in
/// the server, else the default level 1.
pub fn seed_permission(recorded: Option<i64>) -> (p: i64)
    ensures
        p == match recorded {
            Some(q) => q,
            None => 1,
        },
{
    match recorded {
        Some(q) => q,
        None => 1,
    }
}

/// The channel that seeded messages go to: the first channel, if any.
pub fn message_channel(channels: &Vec<Channel>) -> (r: Option<usize>)
    ensures
        r == if channels@.len() > 0 { Some(0usize) } else { None::<usize> },
{
    if channels.len() > 0 {
        Some(0)
    } else {
        None
    }
}

/// What the outcome of a seeding write means: a record that exists already
/// is left as it is, and any other failure stops the seeding.
pub fn seed_outcome(r: Result<(), DbError>) -> (out: Result<bool, DbError>)
    ensures
        match r {
            Ok(()) => out == Ok::<bool, DbError>(true),
            Err(DbError::Conflict) => out == Ok::<bool, DbError>(false),
            Err(e) => out == Err::<bool, DbError>(e),
        },
{
    match r {
        Ok(()) => Ok(true),
        Err(DbError::Conflict) => Ok(false),
        Err(e) => Err(e),
    }
}

} // verus!
