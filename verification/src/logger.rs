//! The structured log line written for an observed statement.
//!
//! A line is `supamonitor_<version>_log:` followed by a JSON object with the
//! statement's text under `query` and a number under `calls`, with nothing
//! between the tokens. Only the line is built here; where it is written is
//! the caller's business.

use vstd::prelude::*;
use vstd::utf8::{valid_utf8, decode_utf8, encode_utf8_decode_utf8};
use vstd::string::StringSliceAdditionalSpecFns;

verus! {

/// The digit for a value below sixteen, in lower case.
pub open spec fn hex_digit(d: nat) -> char {
    seq!['0', '1', '2', '3', '4', '5', '6', '7', '8', '9', 'a', 'b', 'c', 'd', 'e', 'f'][d as int]
}

/// A number in decimal, without sign or leading zeros.
pub open spec fn decimal(n: nat) -> Seq<char>
    decreases n,
{
    if n < 10 {
        seq![hex_digit(n)]
    } else {
        decimal(n / 10).push(hex_digit(n % 10))
    }
}

/// One character as it stands inside a JSON string: the quote and the
/// backslash behind a backslash, control characters by their short escape
/// or as `\u00XX`, every other character as it is.
pub open spec fn escaped_char(c: char) -> Seq<char> {
    if c == '"' {
        seq!['\\', '"']
    } else if c == '\\' {
        seq!['\\', '\\']
    } else if c == '\n' {
        seq!['\\', 'n']
    } else if c == '\r' {
        seq!['\\', 'r']
    } else if c == '\t' {
        seq!['\\', 't']
    } else if c as u32 == 0x08 {
        seq!['\\', 'b']
    } else if c as u32 == 0x0c {
        seq!['\\', 'f']
    } else if (c as u32) < 0x20 {
        seq!['\\', 'u', '0', '0', hex_digit((c as u32 / 16) as nat), hex_digit((c as u32 % 16) as nat)]
    } else {
        seq![c]
    }
}

/// A text as it stands inside a JSON string, character by character.
pub open spec fn escaped(text: Seq<char>) -> Seq<char>
    decreases text.len(),
{
    if text.len() == 0 {
        Seq::empty()
    } else {
        escaped(text.drop_last()) + escaped_char(text.last())
    }
}

/// The log line for a statement with text `query`, counted `calls` times,
/// written by version `version` of the component.
pub open spec fn log_line(query: Seq<char>, calls: nat, version: Seq<char>) -> Seq<char> {
    "supamonitor_"@ + version + "_log:{\"query\":\""@ + escaped(query) + "\",\"calls\":"@ + decimal(
        calls,
    ) + "}"@
}

/// Trusted: `String::push` appends one character to the string.
#[verifier::external_body]
fn push_char(line: &mut String, c: char)
    ensures
        final(line)@ == old(line)@.push(c),
{
    line.push(c)
}

/// Trusted: `core::str::from_utf8` accepts the byte strings that are UTF-8
/// and no others, and the text it returns has exactly those bytes.
#[verifier::external_body]
fn text_of(raw: &[u8]) -> (text: Option<&str>)
    ensures
        text is Some <==> valid_utf8(raw@),
        text is Some ==> text->0.spec_bytes() == raw@,
{
    core::str::from_utf8(raw).ok()
}

fn digit_char(d: u8) -> (c: char)
    requires
        d < 16,
    ensures
        c == hex_digit(d as nat),
{
    match d {
        0 => '0',
        1 => '1',
        2 => '2',
        3 => '3',
        4 => '4',
        5 => '5',
        6 => '6',
        7 => '7',
        8 => '8',
        9 => '9',
        10 => 'a',
        11 => 'b',
        12 => 'c',
        13 => 'd',
        14 => 'e',
        _ => 'f',
    }
}

fn push_decimal(line: &mut String, n: usize)
    ensures
        final(line)@ == old(line)@ + decimal(n as nat),
    decreases n,
{
    if n >= 10 {
        push_decimal(line, n / 10);
    }
    push_char(line, digit_char((n % 10) as u8));
}

fn push_escaped_char(line: &mut String, c: char)
    ensures
        final(line)@ == old(line)@ + escaped_char(c),
{
    let code: u32 = c as u32;
    if c == '"' {
        line.append("\\\"");
        proof {
            reveal_strlit("\\\"");
            assert("\\\""@ =~= escaped_char(c));
        }
    } else if c == '\\' {
        line.append("\\\\");
        proof {
            reveal_strlit("\\\\");
            assert("\\\\"@ =~= escaped_char(c));
        }
    } else if c == '\n' {
        line.append("\\n");
        proof {
            reveal_strlit("\\n");
            assert("\\n"@ =~= escaped_char(c));
        }
    } else if c == '\r' {
        line.append("\\r");
        proof {
            reveal_strlit("\\r");
            assert("\\r"@ =~= escaped_char(c));
        }
    } else if c == '\t' {
        line.append("\\t");
        proof {
            reveal_strlit("\\t");
            assert("\\t"@ =~= escaped_char(c));
        }
    } else if code == 0x08 {
        line.append("\\b");
        proof {
            reveal_strlit("\\b");
            assert("\\b"@ =~= escaped_char(c));
        }
    } else if code == 0x0c {
        line.append("\\f");
        proof {
            reveal_strlit("\\f");
            assert("\\f"@ =~= escaped_char(c));
        }
    } else if code < 0x20 {
        line.append("\\u00");
        push_char(line, digit_char((code / 16) as u8));
        push_char(line, digit_char((code % 16) as u8));
        proof {
            reveal_strlit("\\u00");
            assert("\\u00"@.push(hex_digit((code / 16) as nat)).push(hex_digit((code % 16) as nat))
                =~= escaped_char(c));
        }
    } else {
        push_char(line, c);
        assert(seq![c] =~= escaped_char(c));
    }
}

fn push_escaped(line: &mut String, text: &str)
    ensures
        final(line)@ == old(line)@ + escaped(text@),
{
    let ghost start = line@;
    assert(text@.take(0) =~= Seq::<char>::empty());
    for c in it: text.chars()
        invariant
            it.seq() == text@,
            line@ == start + escaped(text@.take(it.index() as int)),
    {
        proof {
            let upto = text@.take(it.index() + 1);
            assert(upto.drop_last() =~= text@.take(it.index() as int));
            assert(upto.last() == c);
        }
        push_escaped_char(line, c);
    }
    assert(text@.take(text@.len() as int) =~= text@);
}

/// Builds the log line for a statement.
pub fn format_log_line(query_text: &str, call_count: usize, version: &str) -> (line: String)
    ensures
        line@ == log_line(query_text@, call_count as nat, version@),
{
    let mut line = "supamonitor_".to_owned();
    line.append(version);
    line.append("_log:{\"query\":\"");
    push_escaped(&mut line, query_text);
    line.append("\",\"calls\":");
    push_decimal(&mut line, call_count);
    line.append("}");
    line
}

/// Builds the log line for a utility statement from its source text as the
/// pipeline hands it over. Such a statement is logged with a count of one.
/// Source text that is not UTF-8 cannot be written as a JSON string: it
/// gets no line.
pub fn utility_log_line(source: &[u8], version: &str) -> (line: Option<String>)
    ensures
        line is Some <==> valid_utf8(source@),
        line is Some ==> line->0@ == log_line(decode_utf8(source@), 1, version@),
{
    match text_of(source) {
        Some(text) => {
            proof {
                encode_utf8_decode_utf8(text@);
            }
            Some(format_log_line(text, 1, version))
        },
        None => None,
    }
}

} // verus!
