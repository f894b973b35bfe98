//! The Response Decoder: turns an arbitrary remote response — any status,
//! repeated or undecodable headers, a compressed or binary body — into a
//! `(headers, status, body)` triple without ever failing the request.

use vstd::prelude::*;
use vstd::string::StringExecFns;
use vstd::utf8::{decode_utf8, valid_utf8};

use crate::errors::RelayError;
use crate::headers::{
    entry_views, header_map, materialize_headers, pair_views, pairs_map, HeaderEntry,
    HeaderEntryData,
};
use crate::text::str_eq;

verus! {

/// The views of raw header pairs as the transport hands them over: a name
/// and the value's octets.
pub open spec fn raw_views(s: Seq<(String, Vec<u8>)>) -> Seq<(Seq<char>, Seq<u8>)> {
    Seq::new(s.len(), |i: int| (s[i].0@, s[i].1@))
}

/// The header entries whose values decode as UTF-8, in order. A value that
/// does not decode drops its header; it never aborts the rest.
pub open spec fn decodable_headers(rs: Seq<(Seq<char>, Seq<u8>)>) -> Seq<HeaderEntryData>
    decreases rs.len(),
{
    if rs.len() == 0 {
        Seq::empty()
    } else {
        let front = decodable_headers(rs.drop_last());
        if valid_utf8(rs.last().1) {
            front.push(
                HeaderEntryData {
                    key: rs.last().0,
                    value: decode_utf8(rs.last().1),
                    checked: None,
                },
            )
        } else {
            front
        }
    }
}

/// Relies on `String::from_utf8`: it succeeds exactly on valid UTF-8 input
/// and returns the characters that the octets encode.
#[verifier::external_body]
fn utf8_to_string(b: &Vec<u8>) -> (r: Option<String>)
    ensures
        r is Some <==> valid_utf8(b@),
        r is Some ==> r->0@ == decode_utf8(b@),
{
    String::from_utf8(b.clone()).ok()
}

/// What a gzip stream inflates to: `None` where the octets are not a
/// well-formed gzip stream. A function of the octets alone.
pub uninterp spec fn gunzip(b: Seq<u8>) -> Option<Seq<u8>>;

/// Relies on `flate2::read::GzDecoder` (through `std::io::Read::read_to_end`):
/// inflating a gzip stream fails or succeeds, and what it inflates to,
/// depends on the octets alone, here named [`gunzip`].
#[verifier::external_body]
fn gzip_decode(b: &Vec<u8>) -> (r: Option<Vec<u8>>)
    ensures
        r is Some <==> gunzip(b@) is Some,
        r is Some ==> r->0@ == gunzip(b@)->0,
{
    let mut out: Vec<u8> = Vec::new();
    let mut decoder = flate2::read::GzDecoder::new(&b[..]);
    match std::io::Read::read_to_end(&mut decoder, &mut out) {
        Ok(_) => Some(out),
        Err(_) => None,
    }
}

/// The view of an optional borrowed string.
pub open spec fn opt_str_view(s: Option<&String>) -> Option<Seq<char>> {
    match s {
        Some(v) => Some(v@),
        None => None,
    }
}

/// What the response body decodes to: the octets are first inflated where
/// the content encoding says `gzip`, then read as UTF-8; `None` where
/// either step fails.
pub open spec fn body_decoded(enc: Option<Seq<char>>, b: Seq<u8>) -> Option<Seq<char>> {
    let raw = if enc == Some("gzip"@) {
        gunzip(b)
    } else {
        Some(b)
    };
    match raw {
        Some(bb) => if valid_utf8(bb) {
            Some(decode_utf8(bb))
        } else {
            None
        },
        None => None,
    }
}

/// Collate the raw response headers into a header set with one value per
/// key: undecodable values drop their header, repeated names keep the last
/// value seen.
pub fn decode_response_headers(raw: &Vec<(String, Vec<u8>)>) -> (r: Vec<(String, String)>)
    ensures
        forall|i: int, j: int|
            0 <= i < j < r@.len() ==> (#[trigger] r@[i]).0@ != (#[trigger] r@[j]).0@,
        pairs_map(pair_views(r@)) == header_map(decodable_headers(raw_views(raw@))),
{
    let ghost rv = raw_views(raw@);
    let mut entries: Vec<HeaderEntry> = Vec::new();
    let n = raw.len();
    let mut i: usize = 0;
    while i < n
        invariant
            rv == raw_views(raw@),
            n == raw@.len(),
            i <= n,
            entry_views(entries@) == decodable_headers(rv.take(i as int)),
        decreases n - i,
    {
        proof {
            assert(rv.take(i + 1 as int).drop_last() =~= rv.take(i as int));
            assert(rv.take(i + 1 as int).last() == rv[i as int]);
        }
        match utf8_to_string(&raw[i].1) {
            Some(value) => {
                let key = raw[i].0.clone();
                entries.push(HeaderEntry { key, value, checked: None });
                proof {
                    assert(entry_views(entries@) =~= decodable_headers(rv.take(i + 1 as int)));
                }
            },
            None => {
                proof {
                    assert(entry_views(entries@) =~= decodable_headers(rv.take(i + 1 as int)));
                }
            },
        }
        i += 1;
    }
    proof {
        assert(rv.take(n as int) =~= rv);
    }
    materialize_headers(&entries)
}

/// The last value paired with a key.
pub open spec fn seq_lookup(ps: Seq<(Seq<char>, Seq<char>)>, k: Seq<char>) -> Option<Seq<char>>
    decreases ps.len(),
{
    if ps.len() == 0 {
        None
    } else if ps.last().0 == k {
        Some(ps.last().1)
    } else {
        seq_lookup(ps.drop_last(), k)
    }
}

/// `seq_lookup` reads the mapping the pairs collapse to.
pub proof fn lemma_seq_lookup_is_map(ps: Seq<(Seq<char>, Seq<char>)>, k: Seq<char>)
    ensures
        match seq_lookup(ps, k) {
            Some(v) => pairs_map(ps).contains_key(k) && pairs_map(ps)[k] == v,
            None => !pairs_map(ps).contains_key(k),
        },
    decreases ps.len(),
{
    if ps.len() > 0 {
        lemma_seq_lookup_is_map(ps.drop_last(), k);
    }
}

/// Find the value a header set holds for a name.
pub fn lookup_header<'a>(pairs: &'a Vec<(String, String)>, name: &str) -> (r: Option<&'a String>)
    ensures
        opt_str_view(r) == seq_lookup(pair_views(pairs@), name@),
{
    let ghost pv = pair_views(pairs@);
    proof {
        assert(pv.take(pairs@.len() as int) =~= pv);
    }
    let mut i: usize = pairs.len();
    while i > 0
        invariant
            pv == pair_views(pairs@),
            pv.len() == pairs@.len(),
            i <= pairs@.len(),
            seq_lookup(pv, name@) == seq_lookup(pv.take(i as int), name@),
        decreases i,
    {
        i -= 1;
        proof {
            assert(pv.take(i + 1 as int).drop_last() =~= pv.take(i as int));
            assert(pv.take(i + 1 as int).last() == pv[i as int]);
        }
        if str_eq(pairs[i].0.as_str(), name) {
            return Some(&pairs[i].1);
        }
    }
    proof {
        assert(pv.take(0) =~= Seq::<(Seq<char>, Seq<char>)>::empty());
    }
    None
}

/// Decode the response body octets: inflate where the content encoding says
/// `gzip`, then read the result as UTF-8.
pub fn decode_response_body(enc: Option<&String>, body: &Vec<u8>) -> (r: Result<
    String,
    RelayError,
>)
    ensures
        match r {
            Ok(s) => body_decoded(opt_str_view(enc), body@) == Some(s@),
            Err(e) => body_decoded(opt_str_view(enc), body@) is None && e
                == RelayError::ResponseDecodeError,
        },
{
    let is_gzip = match enc {
        Some(s) => str_eq(s.as_str(), "gzip"),
        None => false,
    };
    if is_gzip {
        match gzip_decode(body) {
            Some(inflated) => match utf8_to_string(&inflated) {
                Some(s) => Ok(s),
                None => Err(RelayError::ResponseDecodeError),
            },
            None => Err(RelayError::ResponseDecodeError),
        }
    } else {
        match utf8_to_string(body) {
            Some(s) => Ok(s),
            None => Err(RelayError::ResponseDecodeError),
        }
    }
}

/// The body text the envelope carries: the decoded body, or the decode
/// error embedded as text, prefixed to signal the failure.
pub open spec fn body_text_of(enc: Option<Seq<char>>, b: Seq<u8>) -> Seq<char> {
    match body_decoded(enc, b) {
        Some(t) => t,
        None => "Error: "@ + RelayError::ResponseDecodeError.spec_message(),
    }
}

/// Decode the response body to the text the envelope carries; a body that
/// cannot be decoded becomes an error message in the body field, never a
/// failure.
pub fn response_body_text(enc: Option<&String>, body: &Vec<u8>) -> (r: String)
    ensures
        r@ == body_text_of(opt_str_view(enc), body@),
{
    match decode_response_body(enc, body) {
        Ok(s) => s,
        Err(e) => {
            let mut r = String::from_str("Error: ");
            let m = e.message();
            r.append(m.as_str());
            r
        },
    }
}

/// A decoded remote response: collated headers, status line, body text.
pub struct Envelope {
    pub headers: Vec<(String, String)>,
    pub status: String,
    pub body: String,
}

/// The content encoding a decoded header set declares, if any.
pub open spec fn declared_encoding(m: Map<Seq<char>, Seq<char>>) -> Option<Seq<char>> {
    if m.contains_key("content-encoding"@) {
        Some(m["content-encoding"@])
    } else {
        None
    }
}

/// Decode a whole response: collate its headers, and decode its body
/// against the content encoding those headers declare.
pub fn decode_response(status: String, raw_headers: &Vec<(String, Vec<u8>)>, body: &Vec<u8>) -> (e:
    Envelope)
    ensures
        e.status@ == status@,
        forall|i: int, j: int|
            0 <= i < j < e.headers@.len() ==> (#[trigger] e.headers@[i]).0@ != (
            #[trigger] e.headers@[j]).0@,
        pairs_map(pair_views(e.headers@)) == header_map(
            decodable_headers(raw_views(raw_headers@)),
        ),
        e.body@ == body_text_of(
            declared_encoding(header_map(decodable_headers(raw_views(raw_headers@)))),
            body@,
        ),
{
    let headers = decode_response_headers(raw_headers);
    let enc = lookup_header(&headers, "content-encoding");
    proof {
        lemma_seq_lookup_is_map(pair_views(headers@), "content-encoding"@);
    }
    let body_text = response_body_text(enc, body);
    Envelope { headers, status, body: body_text }
}

/// Transparent decompression: where the content encoding says `gzip` and
/// the octets inflate to valid UTF-8 text, the decoded body is that text,
/// never the raw compressed octets.
pub proof fn lemma_gzip_transparent(b: Seq<u8>, inflated: Seq<u8>)
    requires
        gunzip(b) == Some(inflated),
        valid_utf8(inflated),
    ensures
        body_decoded(Some("gzip"@), b) == Some(decode_utf8(inflated)),
{
}

} // verus!
