//! What a node agent knows about itself between runs, and how it names itself
//! the first time.
use vstd::prelude::*;

use crate::random::{hex_of, is_lower_hex, random_hex};

verus! {

/// Random bytes behind a node identity.
pub const IDENTITY_BYTES: usize = 16;

/// What the agent knows about itself between runs.
#[derive(Debug, Clone, PartialEq, Eq)]
pub struct Identity {
    pub identity: String,
    pub node_id: i64,
    pub credential: String,
}

/// A fresh identity string: hexadecimal over [`IDENTITY_BYTES`] random
/// bytes; `None` where the operating system's random source failed.
pub fn generate() -> (identity: Option<String>)
    ensures
        identity matches Some(i) ==> (exists|bytes: Seq<u8>| bytes.len() == IDENTITY_BYTES && i@ == hex_of(bytes))
            && i@.len() == 2 * IDENTITY_BYTES && is_lower_hex(i@),
{
    random_hex(IDENTITY_BYTES)
}

} // verus!
