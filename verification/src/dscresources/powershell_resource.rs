//! The input that a PowerShell-based resource gets: its properties written
//! as a PowerShell hashtable.

use vstd::prelude::*;
use vstd::string::StringExecFns;

use crate::dscerror::DscError;
use crate::json::{i64_value, JsonValue};
use crate::strings::{decimal, int_to_decimal, pop_char};

verus! {

/// A lower-case hexadecimal digit.
pub open spec fn hex_digit(d: int) -> char {
    if d < 10 { (48 + d) as char } else { (97 + d - 10) as char }
}

/// How a character is written inside a JSON string: a quote and a
/// backslash behind a backslash; backspace, tab, line feed, form feed and
/// carriage return as `\b`, `\t`, `\n`, `\f`, `\r`; any other character
/// below 0x20 as `\u00` and two lower-case hexadecimal digits; every other
/// character as itself.
pub open spec fn escaped_char(c: char) -> Seq<char> {
    let v = c as int;
    if c == '"' {
        seq!['\\', '"']
    } else if c == '\\' {
        seq!['\\', '\\']
    } else if v == 8 {
        seq!['\\', 'b']
    } else if v == 9 {
        seq!['\\', 't']
    } else if v == 10 {
        seq!['\\', 'n']
    } else if v == 12 {
        seq!['\\', 'f']
    } else if v == 13 {
        seq!['\\', 'r']
    } else if v < 32 {
        seq!['\\', 'u', '0', '0', hex_digit(v / 16), hex_digit(v % 16)]
    } else {
        seq![c]
    }
}

/// The characters of a string, each written as in a JSON string.
pub open spec fn escaped_text(s: Seq<char>) -> Seq<char>
    decreases s.len(),
{
    if s.len() == 0 {
        Seq::empty()
    } else {
        escaped_text(s.drop_last()) + escaped_char(s.last())
    }
}

/// The JSON text of a string value, as `serde_json` writes it: the escaped
/// characters between double quotes.
pub open spec fn json_string_text(s: Seq<char>) -> Seq<char> {
    seq!['"'] + escaped_text(s) + seq!['"']
}

/// `serde_json::Value::String(s).to_string()`: the JSON text of a string
/// (`format_escaped_str` with its table of escapes and lower-case
/// hexadecimal digits).
#[verifier::external_body]
fn json_quote(s: &str) -> (r: String)
    ensures
        r@ == json_string_text(s@),
{
    serde_json::Value::String(s.to_string()).to_string()
}

/// Whether a property value can be written in a hashtable: a string or an
/// integer that fits in an `i64`.
pub open spec fn hashtable_value_ok(v: JsonValue) -> bool {
    v is String || i64_value(v) is Some
}

/// How a property value is written: a string as its JSON text, an integer
/// in decimal.
pub open spec fn hashtable_value_text(v: JsonValue) -> Seq<char> {
    match v {
        JsonValue::String(s) => json_string_text(s@),
        _ => match i64_value(v) {
            Some(n) => decimal(n as int),
            None => Seq::empty(),
        },
    }
}

/// The entries `name=value,` of the properties, in order.
pub open spec fn hashtable_entries(ms: Seq<(String, JsonValue)>) -> Seq<char>
    decreases ms.len(),
{
    if ms.len() == 0 {
        Seq::empty()
    } else {
        hashtable_entries(ms.drop_last()) + ms.last().0@ + seq!['='] + hashtable_value_text(ms.last().1) + seq![',']
    }
}

/// The hashtable text: `@{` and the entries without the last character,
/// then `}`; with no properties the `{` is what goes, giving `@}`.
pub open spec fn hashtable_text(ms: Seq<(String, JsonValue)>) -> Seq<char> {
    let t = seq!['@', '{'] + hashtable_entries(ms);
    t.drop_last() + seq!['}']
}

/// Writes the properties as a PowerShell hashtable, `@{name=value,...}`,
/// in the order given; a value that is neither a string nor an integer is
/// not implemented.
pub fn json_to_pshashtable(properties: &Vec<(String, JsonValue)>) -> (r: Result<String, DscError>)
    ensures
        match r {
            Ok(t) => (forall|i: int| 0 <= i < properties@.len() ==> hashtable_value_ok(#[trigger] properties@[i].1))
                && t@ == hashtable_text(properties@),
            Err(e) => e is NotImplemented && exists|i: int| 0 <= i < properties@.len() && !hashtable_value_ok(#[trigger] properties@[i].1),
        },
{
    let mut result = String::from_str("@{");
    proof {
        reveal_strlit("@{");
        assert(properties@.take(0) =~= Seq::<(String, JsonValue)>::empty());
        assert(result@ =~= seq!['@', '{'] + hashtable_entries(properties@.take(0)));
    }
    let mut i: usize = 0;
    while i < properties.len()
        invariant
            i <= properties@.len(),
            result@ == seq!['@', '{'] + hashtable_entries(properties@.take(i as int)),
            forall|k: int| 0 <= k < i ==> hashtable_value_ok(#[trigger] properties@[k].1),
        decreases properties@.len() - i,
    {
        let ghost before = result@;
        let text = match &properties[i].1 {
            JsonValue::String(s) => json_quote(s.as_str()),
            v => match v.as_i64() {
                Some(n) => int_to_decimal(n as i128),
                None => {
                    return Err(DscError::NotImplemented(String::from_str("processing of this value type")));
                },
            },
        };
        result.append(properties[i].0.as_str());
        result.append("=");
        result.append(text.as_str());
        result.append(",");
        proof {
            reveal_strlit("=");
            reveal_strlit(",");
            let t = properties@.take(i + 1);
            assert(t.drop_last() =~= properties@.take(i as int));
            assert(t.last() == properties@[i as int]);
            assert(result@ =~= before + properties@[i as int].0@ + seq!['='] + hashtable_value_text(properties@[i as int].1) + seq![',']);
        }
        i = i + 1;
    }
    assert(properties@.take(i as int) =~= properties@);
    let ghost full = result@;
    let _ = pop_char(&mut result);
    result.append("}");
    proof {
        reveal_strlit("}");
        assert(result@ =~= full.drop_last() + seq!['}']);
    }
    Ok(result)
}

} // verus!
