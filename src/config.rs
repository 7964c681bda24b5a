//! Settings that the process starts from.

use vstd::prelude::*;

use crate::model::{Channel, Message, Server, User};

verus! {

#[derive(Clone, Debug)]
pub struct ServerConfig {
    pub host: String,
    pub port: u16,
}

/// Which cross-origin requests are allowed.
#[derive(Clone, Debug)]
pub struct Cors {
    pub allowed_origins: Vec<String>,
    pub allowed_methods: Vec<String>,
    pub allowed_headers: Vec<String>,
    pub allow_credentials: bool,
}

/// The records that an empty store is seeded with.
#[derive(Clone, Debug)]
pub struct InitialData {
    pub users: Vec<User>,
    pub channels: Vec<Channel>,
    pub messages: Vec<Message>,
    pub servers: Vec<Server>,
}

/// Whether a list of allowed values holds the wildcard `*`.
pub open spec fn lists_wildcard(values: Seq<String>) -> bool {
    exists|i: int| 0 <= i < values.len() && (#[trigger] values[i])@ == "*"@
}

/// Whether the allowed values are all values: the list holds `*`.
pub fn allows_any(values: &Vec<String>) -> (b: bool)
    ensures
        b == lists_wildcard(values@),
{
    let star = String::from_str("*");
    let mut i: usize = 0;
    while i < values.len()
        invariant
            i <= values@.len(),
            star@ == "*"@,
            forall|k: int| 0 <= k < i ==> (#[trigger] values@[k])@ != "*"@,
        decreases values@.len() - i,
    {
        if values[i] == star {
            return true;
        }
        i = i + 1;
    }
    false
}

} // verus!
