//! A JSON serializer with an exact character-level specification. The relay
//! serializes only documents it built itself (the response envelope and the
//! transport payload), so the whole wire text is pinned down by the spec
//! functions here.

use vstd::prelude::*;
use vstd::string::StrSliceExecFns;

use crate::headers::pair_views;
use crate::jsonval::JsonData;

verus! {

/// The sixteen lower-case hexadecimal digits.
pub open spec fn hex_digits() -> Seq<char> {
    seq!['0', '1', '2', '3', '4', '5', '6', '7', '8', '9', 'a', 'b', 'c', 'd', 'e', 'f']
}

/// How one character appears inside a JSON string literal: quote and
/// backslash are escaped, control characters get their short escape or a
/// `\u00..` escape, everything else stands as itself.
pub open spec fn escape_char(c: char) -> Seq<char> {
    if c == '"' {
        seq!['\\', '"']
    } else if c == '\\' {
        seq!['\\', '\\']
    } else if c == '\u{8}' {
        seq!['\\', 'b']
    } else if c == '\t' {
        seq!['\\', 't']
    } else if c == '\n' {
        seq!['\\', 'n']
    } else if c == '\u{c}' {
        seq!['\\', 'f']
    } else if c == '\r' {
        seq!['\\', 'r']
    } else if (c as u32) < 32 {
        seq!['\\', 'u', '0', '0', hex_digits()[(c as u32) as int / 16], hex_digits()[(c as u32) as int % 16]]
    } else {
        seq![c]
    }
}

/// The body of a JSON string literal.
pub open spec fn escape_string(s: Seq<char>) -> Seq<char>
    decreases s.len(),
{
    if s.len() == 0 {
        Seq::empty()
    } else {
        escape_string(s.drop_last()) + escape_char(s.last())
    }
}

/// A complete JSON string literal.
pub open spec fn quoted(s: Seq<char>) -> Seq<char> {
    seq!['"'] + escape_string(s) + seq!['"']
}

/// The serialization of a JSON document. Numbers stand as their decimal
/// source text; object fields keep their order.
pub open spec fn ser_json(d: JsonData) -> Seq<char>
    decreases d,
{
    match d {
        JsonData::Null => "null"@,
        JsonData::Bool(b) => if b {
            "true"@
        } else {
            "false"@
        },
        JsonData::Num(t) => t,
        JsonData::Str(s) => quoted(s),
        JsonData::Arr(items) => seq!['['] + ser_items(items) + seq![']'],
        JsonData::Obj(fields) => seq!['{'] + ser_fields(fields) + seq!['}'],
    }
}

/// The comma-separated serialization of array elements.
pub open spec fn ser_items(items: Seq<JsonData>) -> Seq<char>
    decreases items,
{
    if items.len() == 0 {
        Seq::empty()
    } else if items.len() == 1 {
        ser_json(items.last())
    } else {
        ser_items(items.drop_last()) + seq![','] + ser_json(items.last())
    }
}

/// One `"name":value` object field.
pub open spec fn field_chars(f: (Seq<char>, JsonData)) -> Seq<char>
    decreases f,
{
    quoted(f.0) + seq![':'] + ser_json(f.1)
}

/// The comma-separated serialization of object fields.
pub open spec fn ser_fields(fields: Seq<(Seq<char>, JsonData)>) -> Seq<char>
    decreases fields,
{
    if fields.len() == 0 {
        Seq::empty()
    } else if fields.len() == 1 {
        field_chars(fields.last())
    } else {
        ser_fields(fields.drop_last()) + seq![','] + field_chars(fields.last())
    }
}

/// String pairs as object fields whose values are JSON strings.
pub open spec fn str_fields(ps: Seq<(Seq<char>, Seq<char>)>) -> Seq<(Seq<char>, JsonData)> {
    ps.map_values(|p: (Seq<char>, Seq<char>)| (p.0, JsonData::Str(p.1)))
}

/// The lower-case hexadecimal digit of a value below sixteen.
fn hex_digit_char(d: u32) -> (c: char)
    requires
        d < 16,
    ensures
        c == hex_digits()[d as int],
{
    match d {
        0 => '0',
        1 => '1',
        2 => '2',
        3 => '3',
        4 => '4',
        5 => '5',
        6 => '6',
        7 => '7',
        8 => '8',
        9 => '9',
        10 => 'a',
        11 => 'b',
        12 => 'c',
        13 => 'd',
        14 => 'e',
        _ => 'f',
    }
}

/// Append the escape of one character.
fn push_escaped_char(out: &mut Vec<char>, c: char)
    ensures
        final(out)@ == old(out)@ + escape_char(c),
{
    if c == '"' {
        out.push('\\');
        out.push('"');
    } else if c == '\\' {
        out.push('\\');
        out.push('\\');
    } else if c == '\u{8}' {
        out.push('\\');
        out.push('b');
    } else if c == '\t' {
        out.push('\\');
        out.push('t');
    } else if c == '\n' {
        out.push('\\');
        out.push('n');
    } else if c == '\u{c}' {
        out.push('\\');
        out.push('f');
    } else if c == '\r' {
        out.push('\\');
        out.push('r');
    } else if (c as u32) < 32 {
        let n = c as u32;
        out.push('\\');
        out.push('u');
        out.push('0');
        out.push('0');
        out.push(hex_digit_char(n / 16));
        out.push(hex_digit_char(n % 16));
    } else {
        out.push(c);
    }
    proof {
        assert(out@ =~= old(out)@ + escape_char(c));
    }
}

/// Append the JSON string literal for `s`.
pub fn push_json_string(out: &mut Vec<char>, s: &str)
    ensures
        final(out)@ == old(out)@ + quoted(s@),
{

    out.push('"');
    let n = s.unicode_len();
    let mut i: usize = 0;
    while i < n
        invariant
            n == s@.len(),
            i <= n,
            out@ == old(out)@ + seq!['"'] + escape_string(s@.take(i as int)),
        decreases n - i,
    {
        let c = s.get_char(i);
        push_escaped_char(out, c);
        proof {
            assert(s@.take(i + 1 as int).drop_last() =~= s@.take(i as int));
            assert(s@.take(i + 1 as int).last() == s@[i as int]);
        }
        i += 1;
    }
    out.push('"');
    proof {
        assert(s@.take(n as int) =~= s@);
        assert(out@ =~= old(out)@ + quoted(s@));
    }
}

/// Append the serialization of an object whose values are the given strings.
pub fn push_string_obj(out: &mut Vec<char>, pairs: &Vec<(String, String)>)
    ensures
        final(out)@ == old(out)@ + ser_json(
            JsonData::Obj(str_fields(pair_views(pairs@))),
        ),
{
    let ghost fs = str_fields(pair_views(pairs@));
    proof {
        assert(fs.len() == pairs@.len());
    }
    out.push('{');
    let n = pairs.len();
    let mut i: usize = 0;
    while i < n
        invariant
            fs == str_fields(pair_views(pairs@)),
            fs.len() == pairs@.len(),
            n == pairs@.len(),
            i <= n,
            forall|k: int|
                0 <= k < n ==> #[trigger] fs[k] == (pairs@[k].0@, JsonData::Str(pairs@[k].1@)),
            out@ == old(out)@ + seq!['{'] + ser_fields(fs.take(i as int)),
        decreases n - i,
    {
        if i > 0 {
            out.push(',');
        }
        push_json_string(out, pairs[i].0.as_str());
        out.push(':');
        push_json_string(out, pairs[i].1.as_str());
        proof {
            assert(fs.take(i + 1 as int).drop_last() =~= fs.take(i as int));
            assert(fs.take(i + 1 as int).last() == fs[i as int]);
            assert(field_chars(fs[i as int]) == quoted(pairs@[i as int].0@) + seq![':'] + quoted(
                pairs@[i as int].1@,
            ));
            assert(out@ =~= old(out)@ + seq!['{'] + ser_fields(fs.take(i + 1 as int)));
        }
        i += 1;
    }
    out.push('}');
    proof {
        assert(fs.take(n as int) =~= fs);
        assert(out@ =~= old(out)@ + ser_json(JsonData::Obj(fs)));
    }
}

} // verus!
