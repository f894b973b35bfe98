//! The Envelope Builder: combines decoded status, headers and body into one
//! JSON envelope `{headers, status, body}`, and wraps its serialization as
//! the `body` field of the outer `{body: string}` transport payload. The
//! double encoding is deliberate: a caller that can only read one string
//! field still gets the full structured result by re-parsing that string.

use vstd::prelude::*;

use crate::headers::pair_views;
use crate::jsonval::JsonData;
use crate::ser::{
    field_chars, push_json_string, push_string_obj, quoted, ser_fields, ser_json, str_fields,
};
use crate::text::chars_to_string;

verus! {

/// The envelope as a JSON document: an object with exactly the fields
/// `headers`, `status` and `body`, in that order.
pub open spec fn envelope_data(
    hs: Seq<(Seq<char>, Seq<char>)>,
    status: Seq<char>,
    body: Seq<char>,
) -> JsonData {
    JsonData::Obj(
        seq![
            ("headers"@, JsonData::Obj(str_fields(hs))),
            ("status"@, JsonData::Str(status)),
            ("body"@, JsonData::Str(body)),
        ],
    )
}

/// The transport payload as a JSON document: an object with exactly the
/// field `body`.
pub open spec fn outer_data(body: Seq<char>) -> JsonData {
    JsonData::Obj(seq![("body"@, JsonData::Str(body))])
}

/// The field names of a JSON object, in order.
pub open spec fn obj_keys(d: JsonData) -> Option<Seq<Seq<char>>> {
    match d {
        JsonData::Obj(fields) => Some(
            fields.map_values(|f: (Seq<char>, JsonData)| f.0),
        ),
        _ => None,
    }
}

proof fn lemma_envelope_unfold(hs: Seq<(Seq<char>, Seq<char>)>, st: Seq<char>, bd: Seq<char>)
    ensures
        ser_json(envelope_data(hs, st, bd)) == seq!['{'] + quoted("headers"@) + seq![':']
            + ser_json(JsonData::Obj(str_fields(hs))) + seq![','] + quoted("status"@) + seq![':']
            + quoted(st) + seq![','] + quoted("body"@) + seq![':'] + quoted(bd) + seq!['}'],
{
    let f0 = ("headers"@, JsonData::Obj(str_fields(hs)));
    let f1 = ("status"@, JsonData::Str(st));
    let f2 = ("body"@, JsonData::Str(bd));
    let fs = seq![f0, f1, f2];
    assert(ser_fields(seq![f0]) == field_chars(f0));
    assert(seq![f0, f1].drop_last() =~= seq![f0]);
    assert(ser_fields(seq![f0, f1]) == ser_fields(seq![f0]) + seq![','] + field_chars(f1));
    assert(fs.drop_last() =~= seq![f0, f1]);
    assert(ser_fields(fs) == ser_fields(seq![f0, f1]) + seq![','] + field_chars(f2));
    assert(ser_json(envelope_data(hs, st, bd)) =~= seq!['{'] + quoted("headers"@) + seq![':']
        + ser_json(JsonData::Obj(str_fields(hs))) + seq![','] + quoted("status"@) + seq![':']
        + quoted(st) + seq![','] + quoted("body"@) + seq![':'] + quoted(bd) + seq!['}']);
}

/// Serialize the envelope for a decoded response: its headers (one value
/// per key), its status line, and its body text.
pub fn build_envelope(headers: &Vec<(String, String)>, status: &str, body: &str) -> (r: String)
    ensures
        r@ == ser_json(envelope_data(pair_views(headers@), status@, body@)),
{
    let mut out: Vec<char> = Vec::new();
    out.push('{');
    push_json_string(&mut out, "headers");
    out.push(':');
    push_string_obj(&mut out, headers);
    out.push(',');
    push_json_string(&mut out, "status");
    out.push(':');
    push_json_string(&mut out, status);
    out.push(',');
    push_json_string(&mut out, "body");
    out.push(':');
    push_json_string(&mut out, body);
    out.push('}');
    proof {
        lemma_envelope_unfold(pair_views(headers@), status@, body@);
        assert(out@ =~= ser_json(envelope_data(pair_views(headers@), status@, body@)));
    }
    chars_to_string(&out)
}

/// Serialize the outer transport payload `{"body": inner}`.
pub fn build_outer_payload(inner: &str) -> (r: String)
    ensures
        r@ == ser_json(outer_data(inner@)),
{
    let mut out: Vec<char> = Vec::new();
    out.push('{');
    push_json_string(&mut out, "body");
    out.push(':');
    push_json_string(&mut out, inner);
    out.push('}');
    proof {
        let f0 = ("body"@, JsonData::Str(inner@));
        assert(ser_fields(seq![f0]) == field_chars(f0));
        assert(out@ =~= ser_json(outer_data(inner@)));
    }
    chars_to_string(&out)
}

/// The full success payload: the serialized envelope, wrapped as the `body`
/// field of the outer payload.
pub fn build_relay_payload(headers: &Vec<(String, String)>, status: &str, body: &str) -> (r:
    String)
    ensures
        r@ == ser_json(
            outer_data(ser_json(envelope_data(pair_views(headers@), status@, body@))),
        ),
{
    let inner = build_envelope(headers, status, body);
    build_outer_payload(inner.as_str())
}

/// The Envelope Builder's law: whatever the decoded response was, the inner
/// document it serializes is an object with exactly the keys `headers`,
/// `status` and `body`, and the outer document an object with exactly the
/// key `body`. A caller that parses the payload, reads its one string
/// field, and re-parses that string therefore always finds those three keys.
pub proof fn lemma_envelope_keys(hs: Seq<(Seq<char>, Seq<char>)>, st: Seq<char>, bd: Seq<char>)
    ensures
        obj_keys(envelope_data(hs, st, bd)) == Some(seq!["headers"@, "status"@, "body"@]),
        obj_keys(outer_data(bd)) == Some(seq!["body"@]),
{
    assert(obj_keys(envelope_data(hs, st, bd))->0 =~= seq!["headers"@, "status"@, "body"@]);
    assert(obj_keys(outer_data(bd))->0 =~= seq!["body"@]);
}

} // verus!
