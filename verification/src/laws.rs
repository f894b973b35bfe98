//! Laws that span the relay's components.

use vstd::prelude::*;
use vstd::utf8::{encode_utf8, encode_utf8_decode_utf8, encode_utf8_valid_utf8};

use crate::request::{
    encoded_body_of, multipart_chars, multipart_encodable, tag_of, ContentTag, EncodedBodyData,
};
use crate::headers::parsed_header_entries;
use crate::response::body_decoded;

verus! {

/// The Body Encoders' law: each of the four known content-type tags
/// attaches a body and the matching `Content-Type` header value; any other
/// tag attaches no body at all, and is never an error.
pub proof fn lemma_encoders_by_tag(tag: Seq<char>, body: Seq<char>, b: Seq<char>)
    ensures
        tag_of(tag) == ContentTag::Json ==> encoded_body_of(tag, body, b) == Some(
            Some(EncodedBodyData { content_type: "application/json"@, payload: body }),
        ),
        tag_of(tag) == ContentTag::UrlEncoded ==> encoded_body_of(tag, body, b) == Some(
            Some(
                EncodedBodyData {
                    content_type: "application/x-www-form-urlencoded"@,
                    payload: body,
                },
            ),
        ),
        tag_of(tag) == ContentTag::Text ==> encoded_body_of(tag, body, b) == Some(
            Some(EncodedBodyData { content_type: "text/plain"@, payload: body }),
        ),
        tag_of(tag) == ContentTag::Multipart && multipart_encodable(body, b)
            ==> encoded_body_of(tag, body, b) == Some(
            Some(
                EncodedBodyData {
                    content_type: "multipart/form-data; boundary="@ + b,
                    payload: multipart_chars(parsed_header_entries(body)->0, b),
                },
            ),
        ),
        tag_of(tag) == ContentTag::NoBody ==> encoded_body_of(tag, body, b) == Some(
            None::<EncodedBodyData>,
        ),
{
}

/// The echo round trip: the JSON encoder passes the body through unchanged,
/// so when a remote target returns exactly the octets it was sent and no
/// content encoding, the decoded body text equals the original body.
pub proof fn lemma_json_echo_round_trip(body: Seq<char>, b: Seq<char>, echoed: Seq<u8>)
    requires
        echoed == encode_utf8(body),
    ensures
        encoded_body_of("application/json"@, body, b) == Some(
            Some(EncodedBodyData { content_type: "application/json"@, payload: body }),
        ),
        body_decoded(None, echoed) == Some(body),
{
    encode_utf8_valid_utf8(body);
    encode_utf8_decode_utf8(body);
}

} // verus!
