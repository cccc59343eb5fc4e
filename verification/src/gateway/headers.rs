//! Header fields.

use vstd::prelude::*;
use http::{HeaderMap, HeaderValue};
use crate::text;
use crate::text::signed_value;

verus! {

/// The header map of the `http` crate.
#[verifier::external_type_specification]
#[verifier::external_body]
#[verifier::reject_recursive_types(T)]
pub struct ExHeaderMap<T>(HeaderMap<T>);

/// The header value of the `http` crate.
#[verifier::external_type_specification]
#[verifier::external_body]
pub struct ExHeaderValue(HeaderValue);

/// The values of each header field, in their order, under the field's name in small letters.
pub uninterp spec fn header_values(headers: HeaderMap<HeaderValue>) -> Map<Seq<char>, Seq<Seq<u8>>>;

/// Whether `name` is made of small letters and hyphens.
pub open spec fn field_name(name: Seq<char>) -> bool {
    &&& name.len() > 0
    &&& forall|i: int|
        0 <= i < name.len() ==> (#[trigger] name[i] == '-' || 0x61 <= name[i] as u32 <= 0x7a)
}

/// The first value of the field called `name`.
pub open spec fn first_of(headers: HeaderMap<HeaderValue>, name: Seq<char>) -> Seq<u8> {
    header_values(headers)[name][0]
}

/// `HeaderMap::get`: the first value of the field called `name`, where there is one.
#[verifier::external_body]
fn first_value(headers: &HeaderMap<HeaderValue>, name: &str) -> (value: Option<Vec<u8>>)
    requires
        field_name(name@),
    ensures
        value is Some <==> header_values(*headers).dom().contains(name@),
        value matches Some(v) ==> header_values(*headers)[name@].len() > 0 && v@ == first_of(
            *headers,
            name@,
        ),
{
    headers.get(name).map(|value| value.as_bytes().to_vec())
}

/// `HeaderMap::remove`: takes out the field called `name`, with all its values. The other fields
/// keep all of theirs, in their order.
#[verifier::external_body]
fn remove_field(headers: &mut HeaderMap<HeaderValue>, name: &str)
    requires
        field_name(name@),
    ensures
        header_values(*final(headers)) == header_values(*old(headers)).remove(name@),
{
    headers.remove(name);
}

/// Whether `after` are the header fields `before`, each with all its values, but for the mark of how
/// a call was authenticated, which nobody outside may set.
pub open spec fn unmarked(before: HeaderMap<HeaderValue>, after: HeaderMap<HeaderValue>) -> bool {
    header_values(after) == header_values(before).remove("x-openshell-auth-source"@)
}

/// Takes out the mark of how a call was authenticated.
pub fn strip_auth_source(headers: &mut HeaderMap<HeaderValue>)
    ensures
        unmarked(*old(headers), *final(headers)),
{
    proof {
        reveal_strlit("x-openshell-auth-source");
    }
    remove_field(headers, "x-openshell-auth-source");
}

/// The bytes that a header value may hold to be read as text: printable ASCII, and the tab.
pub open spec fn visible(b: u8) -> bool {
    32 <= b < 127 || b == 9
}

/// Whether all bytes can be read as text.
pub open spec fn readable(bytes: Seq<u8>) -> bool {
    forall|i: int| 0 <= i < bytes.len() ==> visible(#[trigger] bytes[i])
}

/// ASCII bytes as text.
pub open spec fn ascii_text(bytes: Seq<u8>) -> Seq<char> {
    bytes.map_values(|b: u8| b as char)
}

fn read_text(bytes: &Vec<u8>) -> (s: Option<String>)
    ensures
        s is Some <==> readable(bytes@),
        s matches Some(t) ==> t@ == ascii_text(bytes@),
{
    let mut s = String::new();
    let n: usize = bytes.len();
    let mut i: usize = 0;
    while i < n
        invariant
            i <= n,
            n == bytes@.len(),
            forall|k: int| 0 <= k < i ==> visible(#[trigger] bytes@[k]),
            s@ =~= ascii_text(bytes@.take(i as int)),
        decreases n - i,
    {
        let b: u8 = bytes[i];
        if b < 32 && b != 9 || b >= 127 {
            assert(!visible(bytes@[i as int]));
            return None;
        }
        s.push(b as char);
        i = i + 1;
    }
    assert(bytes@.take(n as int) =~= bytes@);
    Some(s)
}

/// The text of the field called `name`, where it is there and can be read as text.
pub open spec fn header_text(headers: HeaderMap<HeaderValue>, name: Seq<char>) -> Option<Seq<char>> {
    if header_values(headers).dom().contains(name) && readable(first_of(headers, name)) {
        Some(ascii_text(first_of(headers, name)))
    } else {
        None
    }
}

/// The text of the field called `name`.
pub fn text_of_header(headers: &HeaderMap<HeaderValue>, name: &str) -> (s: Option<String>)
    requires
        field_name(name@),
    ensures
        s is Some <==> header_text(*headers, name@) is Some,
        s matches Some(t) ==> header_text(*headers, name@) == Some(t@),
{
    match first_value(headers, name) {
        Some(bytes) => read_text(&bytes),
        None => None,
    }
}

proof fn lemma_field_names()
    ensures
        field_name("grpc-status"@),
        field_name("content-type"@),
        field_name("x-request-id"@),
{
    reveal_strlit("grpc-status");
    reveal_strlit("content-type");
    reveal_strlit("x-request-id");
}

/// Whether a request is a remote procedure call: its content type begins so.
pub open spec fn grpc_request(headers: HeaderMap<HeaderValue>) -> bool {
    header_values(headers).dom().contains("content-type"@) && begins_with(
        first_of(headers, "content-type"@),
        grpc_content_type(),
    )
}

/// Whether `bytes` begins with `prefix`.
pub open spec fn begins_with(bytes: Seq<u8>, prefix: Seq<u8>) -> bool {
    prefix.len() <= bytes.len() && bytes.take(prefix.len() as int) == prefix
}

/// `application/grpc`, with which the content types of remote procedure calls begin.
pub open spec fn grpc_content_type() -> Seq<u8> {
    seq![97u8, 112, 112, 108, 105, 99, 97, 116, 105, 111, 110, 47, 103, 114, 112, 99]
}

/// Whether a request is a remote procedure call.
pub fn is_grpc(headers: &HeaderMap<HeaderValue>) -> (yes: bool)
    ensures
        yes == grpc_request(*headers),
{
    proof {
        lemma_field_names();
    }
    let prefix: [u8; 16] = [97, 112, 112, 108, 105, 99, 97, 116, 105, 111, 110, 47, 103, 114, 112, 99];
    assert(prefix@ =~= grpc_content_type());
    match first_value(headers, "content-type") {
        Some(value) => {
            if value.len() < 16 {
                return false;
            }
            let mut i: usize = 0;
            while i < 16
                invariant
                    i <= 16,
                    value@.len() >= 16,
                    value@ == first_of(*headers, "content-type"@),
                    prefix@ == grpc_content_type(),
                    value@.take(i as int) =~= prefix@.take(i as int),
                decreases 16 - i,
            {
                if value[i] != prefix[i] {
                    assert(value@.take(16)[i as int] != grpc_content_type()[i as int]);
                    return false;
                }
                i = i + 1;
            }
            assert(prefix@.take(16) =~= prefix@);
            true
        },
        None => false,
    }
}

/// The identifier that a request carries.
pub fn request_id(headers: &HeaderMap<HeaderValue>) -> (id: Option<String>)
    ensures
        id is Some <==> header_text(*headers, "x-request-id"@) is Some,
        id matches Some(t) ==> header_text(*headers, "x-request-id"@) == Some(t@),
{
    proof {
        lemma_field_names();
    }
    text_of_header(headers, "x-request-id")
}

/// The status that a response carries, "0" where it carries none.
pub open spec fn status_text(headers: HeaderMap<HeaderValue>) -> Seq<char> {
    match header_text(headers, "grpc-status"@) {
        Some(text) => text,
        None => "0"@,
    }
}

/// The status that a response carries in its headers.
pub fn grpc_status_from_response(headers: &HeaderMap<HeaderValue>) -> (s: String)
    ensures
        s@ == status_text(*headers),
{
    proof {
        lemma_field_names();
    }
    match text_of_header(headers, "grpc-status") {
        Some(text) => text,
        None => "0".to_string(),
    }
}

/// The headers in which the status of a response stands: the trailers where they hold one.
pub open spec fn final_status_text(
    headers: HeaderMap<HeaderValue>,
    trailers: Option<HeaderMap<HeaderValue>>,
) -> Seq<char> {
    match trailers {
        Some(t) => if header_values(t).dom().contains("grpc-status"@) {
            status_text(t)
        } else {
            status_text(headers)
        },
        None => status_text(headers),
    }
}

/// The status that a response carries in its trailers, or else in its headers.
pub fn grpc_status_from_response_and_trailers(
    headers: &HeaderMap<HeaderValue>,
    trailers: Option<&HeaderMap<HeaderValue>>,
) -> (s: String)
    ensures
        s@ == final_status_text(
            *headers,
            match trailers {
                Some(t) => Some(*t),
                None => None,
            },
        ),
{
    proof {
        lemma_field_names();
    }
    if let Some(trailers) = trailers {
        if first_value(trailers, "grpc-status").is_some() {
            return grpc_status_from_response(trailers);
        }
    }
    grpc_status_from_response(headers)
}

/// The status code that headers carry, where they carry one that is a number.
pub open spec fn status_code(headers: HeaderMap<HeaderValue>) -> Option<int> {
    match header_text(headers, "grpc-status"@) {
        Some(text) => match signed_value(text) {
            Some(v) => if i64::MIN <= v <= i64::MAX {
                Some(v)
            } else {
                None
            },
            None => None,
        },
        None => None,
    }
}

/// What is recorded of the status of a call: its code, and whether that marks a failure.
#[derive(Debug, Clone, Copy, PartialEq, Eq, Structural)]
pub struct GrpcStatusRecord {
    pub code: i64,
    pub error: bool,
}

/// Reads the status of a call from headers or trailers.
pub fn record_grpc_status(headers: &HeaderMap<HeaderValue>) -> (record: Option<GrpcStatusRecord>)
    ensures
        record is Some <==> status_code(*headers) is Some,
        record matches Some(r) ==> status_code(*headers) == Some(r.code as int) && r.error == (
        r.code != 0),
{
    proof {
        lemma_field_names();
    }
    match text_of_header(headers, "grpc-status") {
        Some(value) => match text::parse_i64(value.as_str()) {
            Some(code) => Some(GrpcStatusRecord { code, error: code != 0 }),
            None => None,
        },
        None => None,
    }
}

/// What is recorded of a response: its status, that of the call, and whether it is a failure.
#[derive(Debug, Clone, Copy, PartialEq, Eq, Structural)]
pub struct ResponseRecord {
    pub http_status: u16,
    pub grpc_status: Option<i64>,
    pub error: bool,
}

/// What is recorded of a response.
pub fn log_response(http_status: u16, headers: &HeaderMap<HeaderValue>) -> (record: ResponseRecord)
    ensures
        record.http_status == http_status,
        record.grpc_status is Some <==> status_code(*headers) is Some,
        record.grpc_status matches Some(code) ==> status_code(*headers) == Some(code as int),
        record.error == (500 <= http_status < 600 || (status_code(*headers) matches Some(code)
            && code != 0)),
{
    let grpc = record_grpc_status(headers);
    let server_error = 500 <= http_status && http_status < 600;
    match grpc {
        Some(r) => ResponseRecord {
            http_status,
            grpc_status: Some(r.code),
            error: server_error || r.error,
        },
        None => ResponseRecord { http_status, grpc_status: None, error: server_error },
    }
}

/// The text of a field is that of its first value, character for byte, where every byte of it is
/// printable ASCII or a tab; otherwise there is none.
pub proof fn lemma_fields_are_read_as_text(headers: HeaderMap<HeaderValue>, name: Seq<char>)
    ensures
        header_text(headers, name) is Some <==> header_values(headers).dom().contains(name)
            && forall|i: int|
            0 <= i < first_of(headers, name).len() ==> {
                let b = #[trigger] first_of(headers, name)[i];
                32 <= b <= 126 || b == 9
            },
        header_text(headers, name) matches Some(s) ==> s.len() == first_of(headers, name).len()
            && forall|i: int| 0 <= i < s.len() ==> #[trigger] s[i] == first_of(headers, name)[i] as char,
{
    assert(readable(first_of(headers, name)) <==> forall|i: int|
        0 <= i < first_of(headers, name).len() ==> {
            let b = #[trigger] first_of(headers, name)[i];
            32 <= b <= 126 || b == 9
        });
}

/// The status of a response is the one in its trailers, where they have the field, and else the
/// one in its headers; a response without a status that can be read went well.
pub proof fn lemma_trailers_have_the_last_word(
    headers: HeaderMap<HeaderValue>,
    trailers: Option<HeaderMap<HeaderValue>>,
)
    ensures
        ({
            let field = "grpc-status"@;
            let said = if trailers matches Some(t) && header_values(t).dom().contains(field) {
                header_text(trailers->0, field)
            } else {
                header_text(headers, field)
            };
            &&& said matches Some(s) ==> final_status_text(headers, trailers) == s
            &&& said is None ==> final_status_text(headers, trailers) == "0"@
            &&& header_text(headers, field) matches Some(s) ==> status_text(headers) == s
            &&& header_text(headers, field) is None ==> status_text(headers) == "0"@
        }),
{
}

/// The code of a status is the number that its text spells, where it is one of 64 bits.
pub proof fn lemma_status_codes_are_numbers(headers: HeaderMap<HeaderValue>)
    ensures
        status_code(headers) matches Some(code) ==> -0x8000_0000_0000_0000 <= code
            <= 0x7fff_ffff_ffff_ffff && (header_text(headers, "grpc-status"@) matches Some(s)
            && signed_value(s) == Some(code)),
        status_code(headers) is None ==> (header_text(headers, "grpc-status"@) matches Some(s) ==> (
        signed_value(s) matches Some(n) ==> n < -0x8000_0000_0000_0000 || n
            > 0x7fff_ffff_ffff_ffff)),
{
}

/// Taking out the mark leaves every other field as it was.
pub proof fn lemma_only_the_mark_is_taken_out(
    before: HeaderMap<HeaderValue>,
    after: HeaderMap<HeaderValue>,
    name: Seq<char>,
)
    requires
        unmarked(before, after),
    ensures
        !header_values(after).dom().contains("x-openshell-auth-source"@),
        name != "x-openshell-auth-source"@ ==> (header_values(after).dom().contains(name)
            <==> header_values(before).dom().contains(name)),
        header_values(after).dom().contains(name) ==> header_values(after)[name] == header_values(
            before,
        )[name],
{
}

/// A request is a remote procedure call exactly where its content type begins with
/// `application/grpc`, whatever follows.
pub proof fn lemma_calls_are_told_by_their_content_type(headers: HeaderMap<HeaderValue>)
    ensures
        ({
            let kind = "application/grpc"@;
            let value = first_of(headers, "content-type"@);
            grpc_request(headers) <==> header_values(headers).dom().contains("content-type"@)
                && value.len() >= kind.len() && forall|i: int|
                0 <= i < kind.len() ==> #[trigger] value[i] == kind[i] as int
        }),
{
    reveal_strlit("application/grpc");
    let kind = "application/grpc"@;
    let value = first_of(headers, "content-type"@);
    assert(kind.len() == 16);
    assert(grpc_content_type().len() == 16);
    assert forall|i: int| 0 <= i < 16 implies #[trigger] grpc_content_type()[i] == kind[i] as int by {}
    if header_values(headers).dom().contains("content-type"@) && value.len() >= 16 {
        if grpc_request(headers) {
            assert forall|i: int| 0 <= i < kind.len() implies #[trigger] value[i] == kind[i] as int by {
                assert(value.take(16)[i] == grpc_content_type()[i]);
            }
        }
        if forall|i: int| 0 <= i < kind.len() ==> #[trigger] value[i] == kind[i] as int {
            assert forall|i: int| 0 <= i < 16 implies value.take(16)[i] == #[trigger] grpc_content_type()[i] by {
                assert(value[i] == kind[i] as int);
            }
            assert(value.take(16) =~= grpc_content_type());
        }
    }
}

} // verus!
