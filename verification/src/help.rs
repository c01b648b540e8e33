//! The per-command descriptions the help command shows.

use vstd::prelude::*;

use crate::strutil::str_eq;

verus! {

/// The description each command name carries; an unknown name falls back
/// to the text handed in, or to a stock line.
pub open spec fn command_description_spec(name: Seq<char>, fallback: Option<Seq<char>>) -> Seq<
    char,
> {
    if name == "base64"@ {
        "Encode or decode data using Base64"@
    } else if name == "url"@ {
        "Encode or decode data using URL encoding"@
    } else if name == "rot"@ {
        "Apply ROT cipher to text with custom rotation value"@
    } else if name == "endian"@ {
        "Swap the endianness of hexadecimal data"@
    } else if name == "timestamp"@ {
        "Convert Unix timestamps to human-readable dates"@
    } else if name == "hash"@ {
        "Generate cryptographic hashes of data"@
    } else if name == "checksum"@ {
        "Calculate checksums of data for integrity verification"@
    } else if name == "uuid"@ {
        "Generate UUIDs (Universally Unique Identifiers)"@
    } else if name == "x86"@ {
        "Look up x86 assembly instructions by mnemonic or hex opcode"@
    } else if name == "github"@ {
        "Get GitHub user or repository information"@
    } else if name == "color"@ {
        "Convert and display colors in multiple formats"@
    } else if name == "help"@ {
        "Show help information about commands"@
    } else {
        match fallback {
            Option::Some(d) => d,
            Option::None => "No description"@,
        }
    }
}

/// Describes the named command, falling back to the description handed in.
pub fn get_command_description(name: &str, fallback: Option<&str>) -> (r: String)
    ensures
        r@ == command_description_spec(
            name@,
            match fallback {
                Some(d) => Option::Some(d@),
                None => Option::None,
            },
        ),
{
    if str_eq(name, "base64") {
        ("Encode or decode data using Base64").to_owned()
    } else if str_eq(name, "url") {
        ("Encode or decode data using URL encoding").to_owned()
    } else if str_eq(name, "rot") {
        ("Apply ROT cipher to text with custom rotation value").to_owned()
    } else if str_eq(name, "endian") {
        ("Swap the endianness of hexadecimal data").to_owned()
    } else if str_eq(name, "timestamp") {
        ("Convert Unix timestamps to human-readable dates").to_owned()
    } else if str_eq(name, "hash") {
        ("Generate cryptographic hashes of data").to_owned()
    } else if str_eq(name, "checksum") {
        ("Calculate checksums of data for integrity verification").to_owned()
    } else if str_eq(name, "uuid") {
        ("Generate UUIDs (Universally Unique Identifiers)").to_owned()
    } else if str_eq(name, "x86") {
        ("Look up x86 assembly instructions by mnemonic or hex opcode").to_owned()
    } else if str_eq(name, "github") {
        ("Get GitHub user or repository information").to_owned()
    } else if str_eq(name, "color") {
        ("Convert and display colors in multiple formats").to_owned()
    } else if str_eq(name, "help") {
        ("Show help information about commands").to_owned()
    } else {
        match fallback {
            Some(d) => d.to_owned(),
            None => ("No description").to_owned(),
        }
    }
}

} // verus!
