//! The request side of the relay: method normalization, content-type
//! dispatch, the body encoders, and the assembly of one outbound request
//! from a caller's serialized description.

use vstd::prelude::*;
use vstd::string::StringExecFns;

use crate::errors::RelayError;
use crate::headers::{
    entry_views, header_map, materialize_headers, pair_views, pairs_map, parse_header_entries,
    parsed_header_entries, HeaderEntry, HeaderEntryData,
};
use crate::text::{chars_to_string, contains_seq, find_seq, push_str_chars, str_eq, str_to_chars};

verus! {

/// The methods the relay issues. Any method string other than the five
/// known ones falls back to `Get` on purpose: a caller mistake is masked,
/// not reported.
#[derive(PartialEq, Eq, Structural, Clone, Copy, Debug)]
pub enum Method {
    Get,
    Post,
    Put,
    Delete,
    Patch,
}

/// The method a method string selects; anything unknown selects `Get`.
pub open spec fn method_of(s: Seq<char>) -> Method {
    if s == "POST"@ {
        Method::Post
    } else if s == "PUT"@ {
        Method::Put
    } else if s == "DELETE"@ {
        Method::Delete
    } else if s == "PATCH"@ {
        Method::Patch
    } else {
        Method::Get
    }
}

/// The wire name of a method.
pub open spec fn method_chars(m: Method) -> Seq<char> {
    match m {
        Method::Get => "GET"@,
        Method::Post => "POST"@,
        Method::Put => "PUT"@,
        Method::Delete => "DELETE"@,
        Method::Patch => "PATCH"@,
    }
}

/// Turn the caller's method string into a [`Method`], unknown strings
/// falling back to `GET` silently.
pub fn normalize_method(m: &str) -> (r: Method)
    ensures
        r == method_of(m@),
        m@ != "POST"@ && m@ != "PUT"@ && m@ != "DELETE"@ && m@ != "PATCH"@ ==> r == Method::Get,
{
    if str_eq(m, "POST") {
        Method::Post
    } else if str_eq(m, "PUT") {
        Method::Put
    } else if str_eq(m, "DELETE") {
        Method::Delete
    } else if str_eq(m, "PATCH") {
        Method::Patch
    } else {
        Method::Get
    }
}

impl Method {
    /// The wire name of this method.
    pub fn as_str(&self) -> (r: &'static str)
        ensures
            r@ == method_chars(*self),
    {
        match self {
            Method::Get => "GET",
            Method::Post => "POST",
            Method::Put => "PUT",
            Method::Delete => "DELETE",
            Method::Patch => "PATCH",
        }
    }
}

/// The body-encoding strategies, selected purely by the declared
/// content-type tag. `NoBody` covers every unknown tag: the request is then
/// dispatched with no body attached.
#[derive(PartialEq, Eq, Structural, Clone, Copy, Debug)]
pub enum ContentTag {
    Json,
    UrlEncoded,
    Multipart,
    Text,
    NoBody,
}

/// The encoder a content-type tag selects; anything unknown selects
/// `NoBody`.
pub open spec fn tag_of(s: Seq<char>) -> ContentTag {
    if s == "application/json"@ {
        ContentTag::Json
    } else if s == "application/x-www-form-urlencoded"@ {
        ContentTag::UrlEncoded
    } else if s == "multipart/form-data"@ {
        ContentTag::Multipart
    } else if s == "text/plain"@ {
        ContentTag::Text
    } else {
        ContentTag::NoBody
    }
}

/// Turn the caller's content-type tag into a [`ContentTag`].
pub fn content_tag(t: &str) -> (r: ContentTag)
    ensures
        r == tag_of(t@),
{
    if str_eq(t, "application/json") {
        ContentTag::Json
    } else if str_eq(t, "application/x-www-form-urlencoded") {
        ContentTag::UrlEncoded
    } else if str_eq(t, "multipart/form-data") {
        ContentTag::Multipart
    } else if str_eq(t, "text/plain") {
        ContentTag::Text
    } else {
        ContentTag::NoBody
    }
}

/// A body ready for the wire: the `Content-Type` header value to send, and
/// the payload octets (as text).
pub struct EncodedBody {
    pub content_type: String,
    pub payload: String,
}

/// Mathematical image of an [`EncodedBody`].
pub struct EncodedBodyData {
    pub content_type: Seq<char>,
    pub payload: Seq<char>,
}

impl View for EncodedBody {
    type V = EncodedBodyData;

    open spec fn view(&self) -> EncodedBodyData {
        EncodedBodyData { content_type: self.content_type@, payload: self.payload@ }
    }
}

/// The views of an optional encoded body.
pub open spec fn opt_body_view(b: Option<EncodedBody>) -> Option<EncodedBodyData> {
    match b {
        Some(e) => Some(e@),
        None => None,
    }
}

/// Whether a character may stand in a multipart boundary.
pub open spec fn boundary_char_ok(c: char) -> bool {
    (48 <= c as u32 && c as u32 <= 57)  // digits
     || (65 <= c as u32 && c as u32 <= 90)  // upper-case letters
     || (97 <= c as u32 && c as u32 <= 122)  // lower-case letters
     || c == '-' || c == '_'
}

/// Whether a string may serve as a multipart boundary.
pub open spec fn boundary_ok(b: Seq<char>) -> bool {
    1 <= b.len() <= 70 && forall|i: int| 0 <= i < b.len() ==> boundary_char_ok(#[trigger] b[i])
}

/// Whether a part name can stand unescaped inside a
/// `Content-Disposition` line.
pub open spec fn key_ok(k: Seq<char>) -> bool {
    forall|i: int| 0 <= i < k.len() ==> #[trigger] k[i] != '"' && k[i] != '\r' && k[i] != '\n'
}

/// The line break followed by the boundary marker: no part content may
/// contain it, or the encoded body would be ambiguous.
pub open spec fn delimiter(b: Seq<char>) -> Seq<char> {
    "\r\n--"@ + b
}

/// Whether one part can be encoded against the given boundary.
pub open spec fn part_ok(e: HeaderEntryData, b: Seq<char>) -> bool {
    key_ok(e.key) && !contains_seq(e.value, delimiter(b))
}

/// Whether every part can be encoded against the given boundary.
pub open spec fn parts_ok(parts: Seq<HeaderEntryData>, b: Seq<char>) -> bool {
    forall|i: int| 0 <= i < parts.len() ==> part_ok(#[trigger] parts[i], b)
}

/// The wire text of one multipart part.
pub open spec fn part_chars(key: Seq<char>, value: Seq<char>, b: Seq<char>) -> Seq<char> {
    "--"@ + b + "\r\n"@ + "Content-Disposition: form-data; name=\""@ + key + "\"\r\n\r\n"@ + value
        + "\r\n"@
}

/// The wire text of a sequence of parts.
pub open spec fn parts_chars(parts: Seq<HeaderEntryData>, b: Seq<char>) -> Seq<char>
    decreases parts.len(),
{
    if parts.len() == 0 {
        Seq::empty()
    } else {
        parts_chars(parts.drop_last(), b) + part_chars(parts.last().key, parts.last().value, b)
    }
}

/// The complete multipart body: every part, then the closing marker.
pub open spec fn multipart_chars(parts: Seq<HeaderEntryData>, b: Seq<char>) -> Seq<char> {
    parts_chars(parts, b) + "--"@ + b + "--\r\n"@
}

/// Whether a multipart body string can be encoded at all: it parses as a
/// part list and every part fits the boundary.
pub open spec fn multipart_encodable(body: Seq<char>, b: Seq<char>) -> bool {
    &&& boundary_ok(b)
    &&& parsed_header_entries(body) is Some
    &&& parts_ok(parsed_header_entries(body)->0, b)
}

/// What the body encoders make of a body string, by tag: `None` for an
/// encoding failure, `Some(None)` for the bodyless path, else the attached
/// body and its `Content-Type` header value.
pub open spec fn encoded_body_of(tag: Seq<char>, body: Seq<char>, b: Seq<char>) -> Option<
    Option<EncodedBodyData>,
> {
    match tag_of(tag) {
        ContentTag::Json => Some(
            Some(EncodedBodyData { content_type: "application/json"@, payload: body }),
        ),
        ContentTag::UrlEncoded => Some(
            Some(
                EncodedBodyData {
                    content_type: "application/x-www-form-urlencoded"@,
                    payload: body,
                },
            ),
        ),
        ContentTag::Text => Some(
            Some(EncodedBodyData { content_type: "text/plain"@, payload: body }),
        ),
        ContentTag::NoBody => Some(None),
        ContentTag::Multipart => if multipart_encodable(body, b) {
            Some(
                Some(
                    EncodedBodyData {
                        content_type: "multipart/form-data; boundary="@ + b,
                        payload: multipart_chars(parsed_header_entries(body)->0, b),
                    },
                ),
            )
        } else {
            None
        },
    }
}

/// Check that a string may serve as a multipart boundary.
fn boundary_is_ok(b: &str) -> (r: bool)
    ensures
        r == boundary_ok(b@),
{
    let bc = str_to_chars(b);
    let n = bc.len();
    if n == 0 || n > 70 {
        return false;
    }
    let mut i: usize = 0;
    while i < n
        invariant
            bc@ == b@,
            n == b@.len(),
            i <= n,
            forall|j: int| 0 <= j < i ==> boundary_char_ok(#[trigger] b@[j]),
        decreases n - i,
    {
        let c = bc[i];
        let u = c as u32;
        if !((48 <= u && u <= 57) || (65 <= u && u <= 90) || (97 <= u && u <= 122) || c == '-'
            || c == '_') {
            return false;
        }
        i += 1;
    }
    true
}

/// Check that every part fits the boundary.
fn parts_are_ok(parts: &Vec<HeaderEntry>, boundary: &str) -> (r: bool)
    ensures
        r == parts_ok(entry_views(parts@), boundary@),
{
    let mut delim = str_to_chars("\r\n--");
    push_str_chars(&mut delim, boundary);
    let n = parts.len();
    let mut i: usize = 0;
    while i < n
        invariant
            delim@ == delimiter(boundary@),
            n == parts@.len(),
            i <= n,
            forall|j: int| 0 <= j < i ==> part_ok(#[trigger] entry_views(parts@)[j], boundary@),
        decreases n - i,
    {
        let kc = str_to_chars(parts[i].key.as_str());
        let kn = kc.len();
        let mut j: usize = 0;
        while j < kn
            invariant
                i < parts@.len(),
                kc@ == parts@[i as int].key@,
                kn == kc@.len(),
                j <= kn,
                forall|l: int|
                    0 <= l < j ==> #[trigger] kc@[l] != '"' && kc@[l] != '\r' && kc@[l] != '\n',
            decreases kn - j,
        {
            let c = kc[j];
            if c == '"' || c == '\r' || c == '\n' {
                assert(!key_ok(entry_views(parts@)[i as int].key));
                return false;
            }
            j += 1;
        }
        assert(key_ok(entry_views(parts@)[i as int].key));
        let vc = str_to_chars(parts[i].value.as_str());
        if find_seq(&vc, &delim) {
            assert(!part_ok(entry_views(parts@)[i as int], boundary@));
            return false;
        }
        assert(part_ok(entry_views(parts@)[i as int], boundary@));
        i += 1;
    }
    true
}

/// Emit the multipart wire body for a part list.
fn build_multipart(parts: &Vec<HeaderEntry>, boundary: &str) -> (v: Vec<char>)
    ensures
        v@ == multipart_chars(entry_views(parts@), boundary@),
{
    let ghost pv = entry_views(parts@);
    let mut out: Vec<char> = Vec::new();
    let n = parts.len();
    let mut i: usize = 0;
    while i < n
        invariant
            pv == entry_views(parts@),
            n == parts@.len(),
            i <= n,
            out@ == parts_chars(pv.take(i as int), boundary@),
        decreases n - i,
    {
        push_str_chars(&mut out, "--");
        push_str_chars(&mut out, boundary);
        push_str_chars(&mut out, "\r\n");
        push_str_chars(&mut out, "Content-Disposition: form-data; name=\"");
        push_str_chars(&mut out, parts[i].key.as_str());
        push_str_chars(&mut out, "\"\r\n\r\n");
        push_str_chars(&mut out, parts[i].value.as_str());
        push_str_chars(&mut out, "\r\n");
        proof {
            assert(pv.take(i + 1 as int).drop_last() =~= pv.take(i as int));
            assert(pv.take(i + 1 as int).last() == pv[i as int]);
            assert(out@ =~= parts_chars(pv.take(i + 1 as int), boundary@));
        }
        i += 1;
    }
    push_str_chars(&mut out, "--");
    push_str_chars(&mut out, boundary);
    push_str_chars(&mut out, "--\r\n");
    proof {
        assert(pv.take(n as int) =~= pv);
        assert(out@ =~= multipart_chars(pv, boundary@));
    }
    out
}

/// Encode the body per its declared content-type tag. The four known tags
/// attach a body and the matching `Content-Type` header value; any other
/// tag attaches nothing; a multipart body that cannot be encoded is an
/// `EncodingError`.
pub fn encode_body(tag: &str, body: &str, boundary: &str) -> (r: Result<
    Option<EncodedBody>,
    RelayError,
>)
    ensures
        match r {
            Ok(ob) => encoded_body_of(tag@, body@, boundary@) == Some(opt_body_view(ob)),
            Err(e) => encoded_body_of(tag@, body@, boundary@) is None
                && e == RelayError::EncodingError,
        },
{
    match content_tag(tag) {
        ContentTag::Json => Ok(
            Some(
                EncodedBody {
                    content_type: String::from_str("application/json"),
                    payload: String::from_str(body),
                },
            ),
        ),
        ContentTag::UrlEncoded => Ok(
            Some(
                EncodedBody {
                    content_type: String::from_str("application/x-www-form-urlencoded"),
                    payload: String::from_str(body),
                },
            ),
        ),
        ContentTag::Text => Ok(
            Some(
                EncodedBody {
                    content_type: String::from_str("text/plain"),
                    payload: String::from_str(body),
                },
            ),
        ),
        ContentTag::NoBody => Ok(None),
        ContentTag::Multipart => {
            if !boundary_is_ok(boundary) {
                return Err(RelayError::EncodingError);
            }
            let parts = match parse_header_entries(body) {
                Ok(parts) => parts,
                Err(_) => {
                    return Err(RelayError::EncodingError);
                },
            };
            if !parts_are_ok(&parts, boundary) {
                return Err(RelayError::EncodingError);
            }
            let mut content_type = String::from_str("multipart/form-data; boundary=");
            content_type.append(boundary);
            let payload_chars = build_multipart(&parts, boundary);
            Ok(
                Some(
                    EncodedBody { content_type, payload: chars_to_string(&payload_chars) },
                ),
            )
        },
    }
}

/// One outbound request, ready for the transport: normalized method, target
/// URL, collated headers, and the encoded body, if any.
pub struct OutboundRequest {
    pub method: Method,
    pub url: String,
    pub headers: Vec<(String, String)>,
    pub body: Option<EncodedBody>,
}

/// Build the outbound request that a caller's serialized description
/// denotes: normalize the method, materialize the header list, and encode
/// the body per its tag.
///
/// A header list that does not parse is `MalformedHeaders`; a multipart
/// body that cannot be encoded is `EncodingError`; nothing else fails.
pub fn build_outbound_request(
    url: &str,
    method: &str,
    headers: &str,
    body: &str,
    tag: &str,
    boundary: &str,
) -> (r: Result<OutboundRequest, RelayError>)
    ensures
        match r {
            Ok(o) => {
                &&& parsed_header_entries(headers@) is Some
                &&& o.method == method_of(method@)
                &&& o.url@ == url@
                &&& forall|i: int, j: int|
                    0 <= i < j < o.headers@.len() ==> (#[trigger] o.headers@[i]).0@ != (
                    #[trigger] o.headers@[j]).0@
                &&& pairs_map(pair_views(o.headers@)) == header_map(
                    parsed_header_entries(headers@)->0,
                )
                &&& encoded_body_of(tag@, body@, boundary@) == Some(opt_body_view(o.body))
            },
            Err(e) => {
                ||| (parsed_header_entries(headers@) is None && e == RelayError::MalformedHeaders)
                ||| (parsed_header_entries(headers@) is Some && encoded_body_of(
                    tag@,
                    body@,
                    boundary@,
                ) is None && e == RelayError::EncodingError)
            },
        },
{
    let entries = match parse_header_entries(headers) {
        Ok(entries) => entries,
        Err(e) => {
            return Err(e);
        },
    };
    let header_pairs = materialize_headers(&entries);
    let body = match encode_body(tag, body, boundary) {
        Ok(ob) => ob,
        Err(e) => {
            return Err(e);
        },
    };
    Ok(
        OutboundRequest {
            method: normalize_method(method),
            url: String::from_str(url),
            headers: header_pairs,
            body,
        },
    )
}

} // verus!
