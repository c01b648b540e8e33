//! Core library for a chat-bot's utility commands: a per-user cooldown
//! tracker, a TTL-bounded lookup cache for external data sources, and the
//! pure transformations behind the individual commands (hashing, encoding,
//! color parsing, identifier normalization, response formatting).

use vstd::prelude::*;

pub mod base64ops;
pub mod cache;
pub mod checksum_alg;
pub mod color;
pub mod command;
pub mod config;
pub mod cooldown;
pub mod crypto;
pub mod cve;
pub mod dates;
pub mod embed;
pub mod error;
pub mod github;
pub mod hash_choice;
pub mod help;
pub mod hexdata;
pub mod jep;
pub mod opcode;
pub mod quotes;
pub mod rot;
pub mod strutil;
pub mod timefmt;
pub mod urlops;
pub mod uuid_gen;

verus! {

/// Seconds elapsed between a stored timestamp and the current time,
/// treating a clock that appears to run backwards as no elapsed time.
pub open spec fn elapsed_seconds(stored_at: u64, now: u64) -> int {
    if now >= stored_at {
        now - stored_at
    } else {
        0
    }
}

} // verus!
