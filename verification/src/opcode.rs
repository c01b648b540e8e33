//! JVM bytecode instruction reference: looking an instruction up by name
//! and laying its record out as a response.

use vstd::prelude::*;

use crate::error::BotError;
use crate::strutil::{
    ascii_lower, dec_spec, dec_value, find_sub, find_sub_idx, is_digit_seq, lower_seq,
    push_decimal, str_eq, trim, trim_spec,
};

verus! {

/// One JVM instruction's record from the bundled reference data.
#[derive(Debug, Clone)]
pub struct JvmInstruction {
    pub anchor_id: String,
    pub description: String,
    pub format: String,
    pub mnemonic: String,
    pub operand_stack_after: String,
    pub operand_stack_before: String,
    pub operation: String,
    pub opcode: Option<String>,
}

/// An instruction's opcode number, read out of its display string.
#[derive(Debug, Clone)]
pub struct OpcodeInfo {
    pub decimal: u8,
    pub hex: String,
}

/// What `extract_opcode_number` reads out of an opcode display string of
/// the shape `name = NN (0xNN)`: the text between the first ` = ` and the
/// next, cut before any ` (`, read as a decimal number; and the text
/// between the first parenthesis pair.
pub open spec fn opcode_info_spec(s: Seq<char>) -> Option<(u8, Seq<char>)> {
    let i1 = find_sub_idx(s, " = "@);
    if i1 < 0 {
        Option::None
    } else {
        let rest = s.skip(i1 + 3);
        let i2 = find_sub_idx(rest, " = "@);
        let parts = if i2 < 0 {
            rest
        } else {
            rest.take(i2)
        };
        let j = find_sub_idx(parts, " ("@);
        let decimal_part = if j < 0 {
            parts
        } else {
            parts.take(j)
        };
        if is_digit_seq(decimal_part) && dec_value(decimal_part) < 256 {
            let k = find_sub_idx(parts, "("@);
            if k < 0 {
                Option::None
            } else {
                let rest2 = parts.skip(k + 1);
                let k2 = find_sub_idx(rest2, "("@);
                let hex_part = if k2 < 0 {
                    rest2
                } else {
                    rest2.take(k2)
                };
                if hex_part.len() > 0 && hex_part.last() == ')' {
                    Option::Some((dec_value(decimal_part) as u8, hex_part.drop_last()))
                } else {
                    Option::None
                }
            }
        } else {
            Option::None
        }
    }
}

/// Reads the decimal and hex opcode number out of an opcode display string
/// such as `aaload = 50 (0x32)`.
pub fn extract_opcode_number(opcode_str: &str) -> (r: Option<OpcodeInfo>)
    ensures
        match r {
            Some(info) => opcode_info_spec(opcode_str@) matches Some(t) && t.0 == info.decimal
                && t.1 == info.hex@,
            None => opcode_info_spec(opcode_str@) is None,
        },
{
    proof {
        reveal_strlit(" = ");
        reveal_strlit(" (");
        reveal_strlit("(");
        reveal_strlit(")");
    }
    let slen = opcode_str.unicode_len();
    let i1 = match find_sub(opcode_str, " = ") {
        Some(i) => i,
        None => {
            return None;
        },
    };
    let rest = opcode_str.substring_char(i1 + 3, slen);
    let rlen = rest.unicode_len();
    let parts = match find_sub(rest, " = ") {
        Some(i2) => rest.substring_char(0, i2),
        None => rest,
    };
    proof {
        assert(rest@ == opcode_str@.skip(i1 + 3));
    }
    let plen = parts.unicode_len();
    let decimal_part = match find_sub(parts, " (") {
        Some(j) => parts.substring_char(0, j),
        None => parts,
    };
    let decimal = match crate::strutil::parse_u64_below(decimal_part, 256) {
        Some(v) => v as u8,
        None => {
            return None;
        },
    };
    let k = match find_sub(parts, "(") {
        Some(k) => k,
        None => {
            return None;
        },
    };
    let rest2 = parts.substring_char(k + 1, plen);
    let r2len = rest2.unicode_len();
    let hex_part = match find_sub(rest2, "(") {
        Some(k2) => rest2.substring_char(0, k2),
        None => rest2,
    };
    let hlen = hex_part.unicode_len();
    if hlen > 0 && hex_part.get_char(hlen - 1) == ')' {
        let hex = hex_part.substring_char(0, hlen - 1);
        proof {
            assert(hex@ =~= hex_part@.drop_last());
        }
        Some(OpcodeInfo { decimal, hex: hex.to_owned() })
    } else {
        None
    }
}

/// Whether an instruction answers to `key`: by its lowercased mnemonic, or
/// by its anchor without the `jvm-` prefix, lowercased.
pub open spec fn ins_matches(ins: JvmInstruction, key: Seq<char>) -> bool {
    lower_seq(ins.mnemonic@) == key || (ins.anchor_id@.len() >= 4 && ins.anchor_id@.take(4)
        == "jvm-"@ && lower_seq(ins.anchor_id@.skip(4)) == key)
}

/// Whether this instruction answers to `key`.
fn matches_key(ins: &JvmInstruction, key: &str) -> (r: bool)
    ensures
        r == ins_matches(*ins, key@),
{
    proof {
        reveal_strlit("jvm-");
    }
    let mn = ascii_lower(ins.mnemonic.as_str());
    if str_eq(mn.as_str(), key) {
        return true;
    }
    let alen = ins.anchor_id.as_str().unicode_len();
    if crate::strutil::starts_with(ins.anchor_id.as_str(), "jvm-") {
        let stripped = ins.anchor_id.as_str().substring_char(4, alen);
        let sl = ascii_lower(stripped);
        proof {
            assert(stripped@ == ins.anchor_id@.skip(4));
        }
        str_eq(sl.as_str(), key)
    } else {
        false
    }
}

/// Finds the instruction that `key` names. Where several answer to the same
/// key, the later record wins, as rebuilding the keyed table would have it.
pub fn find_instruction<'a>(list: &'a Vec<JvmInstruction>, key: &str) -> (r: Option<
    &'a JvmInstruction,
>)
    ensures
        match r {
            Some(ins) => exists|i: int|
                {
                    &&& 0 <= i < list@.len()
                    &&& *ins == list@[i]
                    &&& ins_matches(list@[i], key@)
                    &&& forall|j: int| i < j < list@.len() ==> !ins_matches(list@[j], key@)
                },
            None => forall|i: int| 0 <= i < list@.len() ==> !ins_matches(list@[i], key@),
        },
{
    let mut i: usize = list.len();
    while i > 0
        invariant
            i <= list@.len(),
            forall|j: int| i <= j < list@.len() ==> !ins_matches(list@[j], key@),
        decreases i,
    {
        i -= 1;
        if matches_key(&list[i], key) {
            return Some(&list[i]);
        }
    }
    None
}

/// The response body for an instruction: opcode and format, its
/// description, the stack effects and opcode numbers when detail is asked
/// for, and the link into the JVM specification.
pub open spec fn instruction_info_spec(ins: JvmInstruction, detailed: bool) -> Seq<char> {
    let head = (match ins.opcode {
        Option::Some(o) => "**Opcode:** `"@ + o@ + "`\n"@,
        Option::None => Seq::<char>::empty(),
    }) + "**Format:** `"@ + ins.format@ + "`\n\n"@ + "**Description:** "@ + ins.description@
        + "\n"@;
    let details = if detailed {
        "**Operation:** "@ + ins.operation@ + "\n"@ + "\n**Stack Changes:**\n"@ + "• Before: `"@
            + ins.operand_stack_before@ + "`\n"@ + "• After: `"@ + ins.operand_stack_after@
            + "`\n"@ + (match ins.opcode {
            Option::Some(o) => match opcode_info_spec(o@) {
                Option::Some(info) => "\n**Opcode Details:**\n"@ + "• Decimal: "@ + dec_spec(
                    info.0 as int,
                ) + "\n"@ + "• Hexadecimal: "@ + info.1 + "\n"@,
                Option::None => Seq::<char>::empty(),
            },
            Option::None => Seq::<char>::empty(),
        })
    } else {
        Seq::<char>::empty()
    };
    head + details
        + "\n[JVM Specification](https://docs.oracle.com/javase/specs/jvms/se24/html/jvms-6.html#"@
        + ins.anchor_id@ + ")"@
}

/// Lays one instruction's record out as the response body.
pub fn format_instruction_info(instruction: &JvmInstruction, detailed: bool) -> (r: String)
    ensures
        r@ == instruction_info_spec(*instruction, detailed),
{
    let mut description = String::new();
    match &instruction.opcode {
        Some(opcode_str) => {
            description.append("**Opcode:** `");
            description.append(opcode_str.as_str());
            description.append("`\n");
        },
        None => {},
    }
    description.append("**Format:** `");
    description.append(instruction.format.as_str());
    description.append("`\n\n");
    description.append("**Description:** ");
    description.append(instruction.description.as_str());
    description.append("\n");
    if detailed {
        description.append("**Operation:** ");
        description.append(instruction.operation.as_str());
        description.append("\n");
        description.append("\n**Stack Changes:**\n");
        description.append("• Before: `");
        description.append(instruction.operand_stack_before.as_str());
        description.append("`\n");
        description.append("• After: `");
        description.append(instruction.operand_stack_after.as_str());
        description.append("`\n");
        match &instruction.opcode {
            Some(opcode_str) => {
                match extract_opcode_number(opcode_str.as_str()) {
                    Some(info) => {
                        description.append("\n**Opcode Details:**\n");
                        description.append("• Decimal: ");
                        push_decimal(&mut description, info.decimal as u64);
                        description.append("\n");
                        description.append("• Hexadecimal: ");
                        description.append(info.hex.as_str());
                        description.append("\n");
                    },
                    None => {},
                }
            },
            None => {},
        }
    }
    description.append(
        "\n[JVM Specification](https://docs.oracle.com/javase/specs/jvms/se24/html/jvms-6.html#",
    );
    description.append(instruction.anchor_id.as_str());
    description.append(")");
    proof {
        assert(description@ =~= instruction_info_spec(*instruction, detailed));
    }
    description
}

/// Answers the opcode command for a key the user typed: the instruction's
/// title and response body, or exactly why the key names nothing.
pub fn opcode_lookup(instructions: &Vec<JvmInstruction>, instruction: &str, detailed: bool) -> (r:
    Result<(String, String), BotError>)
    ensures
        ({
            let key = lower_seq(trim_spec(instruction@));
            match r {
                Ok(t) => exists|i: int|
                    {
                        &&& 0 <= i < instructions@.len()
                        &&& ins_matches(instructions@[i], key)
                        &&& t.0@ == "JVM Instruction: "@ + instructions@[i].mnemonic@
                        &&& t.1@ == instruction_info_spec(instructions@[i], detailed)
                    },
                Err(e) => (forall|i: int|
                    0 <= i < instructions@.len() ==> !ins_matches(instructions@[i], key)) && (
                e matches BotError::InvalidFormat(m) && m@ == "JVM instruction '"@ + instruction@
                    + "' not found. Try checking the spelling or use a different instruction name."@),
            }
        }),
{
    let key = ascii_lower(trim(instruction));
    match find_instruction(instructions, key.as_str()) {
        Some(ins) => {
            let mut title = ("JVM Instruction: ").to_owned();
            title.append(ins.mnemonic.as_str());
            let body = format_instruction_info(ins, detailed);
            Ok((title, body))
        },
        None => {
            let mut msg = ("JVM instruction '").to_owned();
            msg.append(instruction);
            msg.append("' not found. Try checking the spelling or use a different instruction name.");
            Err(BotError::InvalidFormat(msg))
        },
    }
}

} // verus!
