//! Error taxonomy of the library.
//!
//! Every error is per-invocation and recoverable; the caller decides how
//! to present it. Variants carry plain values only, so contracts can
//! speak about them precisely.

use vstd::prelude::*;

verus! {

/// An error surfaced by one command invocation.
#[derive(Debug)]
pub enum BotError {
    /// The input exceeded the configured maximum size; carries the size seen.
    InputTooLarge(usize),
    /// A malformed identifier or value; carries a human-readable message.
    InvalidFormat(String),
    /// A failure reported by an external lookup (network, status, parse);
    /// carries a human-readable message.
    GitHub(String),
    /// A color string could not be parsed; carries a human-readable message.
    Color(String),
    /// The command is throttled; carries the seconds left to wait.
    Cooldown(u64),
    /// A configuration problem; carries a human-readable message.
    Config(String),
}

/// The user-visible text of an error.
pub open spec fn error_message_spec(e: BotError) -> Seq<char> {
    match e {
        BotError::InputTooLarge(size) => "Input too large: "@ + crate::strutil::dec_spec(
            size as int,
        ) + " characters"@,
        BotError::InvalidFormat(m) => "Invalid format: "@ + m@,
        BotError::GitHub(m) => "GitHub error: "@ + m@,
        BotError::Color(m) => "Color error: "@ + m@,
        BotError::Cooldown(seconds) => "Command on cooldown for "@ + crate::strutil::dec_spec(
            seconds as int,
        ) + " seconds"@,
        BotError::Config(m) => "Configuration error: "@ + m@,
    }
}

impl BotError {
    /// Writes the error the way it is shown to the user.
    pub fn message(&self) -> (r: String)
        ensures
            r@ == error_message_spec(*self),
    {
        match self {
            BotError::InputTooLarge(size) => {
                let mut s = ("Input too large: ").to_owned();
                crate::strutil::push_decimal(&mut s, *size as u64);
                s.append(" characters");
                proof {
                    assert(s@ =~= error_message_spec(*self));
                }
                s
            },
            BotError::InvalidFormat(m) => {
                let mut s = ("Invalid format: ").to_owned();
                s.append(m.as_str());
                s
            },
            BotError::GitHub(m) => {
                let mut s = ("GitHub error: ").to_owned();
                s.append(m.as_str());
                s
            },
            BotError::Color(m) => {
                let mut s = ("Color error: ").to_owned();
                s.append(m.as_str());
                s
            },
            BotError::Cooldown(seconds) => {
                let mut s = ("Command on cooldown for ").to_owned();
                crate::strutil::push_decimal(&mut s, *seconds);
                s.append(" seconds");
                proof {
                    assert(s@ =~= error_message_spec(*self));
                }
                s
            },
            BotError::Config(m) => {
                let mut s = ("Configuration error: ").to_owned();
                s.append(m.as_str());
                s
            },
        }
    }
}

} // verus!
