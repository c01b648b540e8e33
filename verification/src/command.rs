//! Shared helpers that every command handler runs: input-size validation,
//! output truncation and code-block formatting.

use vstd::prelude::*;

use vstd::string::StringSliceAdditionalSpecFns;

use crate::config::Config;
use crate::error::BotError;

verus! {

/// The text appended in place of what truncation cut away.
pub open spec fn truncation_notice() -> Seq<char> {
    "...\n*Output truncated*"@
}

/// Accepts the input only if it fits the configured maximum size, counted
/// in bytes; a rejection carries the size seen.
pub fn validate_input_size(input: &str, config: &Config) -> (r: Result<(), BotError>)
    ensures
        r is Ok <==> (input.spec_bytes().len() as usize) <= config.limits.max_input_size,
        r matches Err(e) ==> e == BotError::InputTooLarge(input.spec_bytes().len() as usize),
{
    let n = input.len();
    if n > config.limits.max_input_size {
        return Err(BotError::InputTooLarge(n));
    }
    Ok(())
}

/// Cuts output down to the configured maximum size: anything longer is
/// replaced by its prefix, twenty characters short of the maximum, plus a
/// truncation notice. Sizes are counted in characters.
pub fn truncate_output(output: String, config: &Config) -> (r: String)
    requires
        config.limits.max_output_size >= 20,
    ensures
        output@.len() <= config.limits.max_output_size ==> r == output,
        output@.len() > config.limits.max_output_size ==> r@ == output@.take(
            config.limits.max_output_size - 20,
        ) + truncation_notice(),
{
    let n = output.unicode_len();
    if n > config.limits.max_output_size {
        let cut = config.limits.max_output_size - 20;
        let mut s = output.as_str().substring_char(0, cut).to_owned();
        s.append("...\n*Output truncated*");
        s
    } else {
        output
    }
}

/// Wraps content in a fenced code block, tagged with the language if one is
/// given.
pub fn format_code_block(content: &str, language: Option<&str>) -> (r: String)
    ensures
        match language {
            Some(lang) => r@ == "```"@ + lang@ + "\n"@ + content@ + "\n```"@,
            None => r@ == "```"@ + "\n"@ + content@ + "\n```"@,
        },
{
    let mut s = ("```").to_owned();
    match language {
        Some(lang) => {
            s.append(lang);
        },
        None => {},
    }
    s.append("\n");
    s.append(content);
    s.append("\n```");
    s
}

} // verus!
