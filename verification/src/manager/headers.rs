//! Who sends a request: the header that names the signer.

use vstd::prelude::*;

use crate::error_chain::ErrorChain;
use crate::uuids::parse_uuid;
use crate::manager::error::{ErrorResponse, ErrorResponseView, Result};

verus! {

/// The headers of a request.
#[verifier::external_type_specification]
#[verifier::external_body]
#[verifier::reject_recursive_types(T)]
pub struct ExHeaderMap<T>(http::HeaderMap<T>);

/// The value of a header.
#[verifier::external_type_specification]
#[verifier::external_body]
pub struct ExHeaderValue(http::HeaderValue);

/// The headers by their lower case names: the values of each, in their order.
pub uninterp spec fn header_lines(
    headers: http::HeaderMap<http::HeaderValue>,
) -> Map<Seq<char>, Seq<Seq<u8>>>;

/// The bytes of a header's value.
pub uninterp spec fn header_bytes(value: http::HeaderValue) -> Seq<u8>;

/// The name as the headers hold it: nonempty, lower case letters and hyphens.
pub open spec fn is_header_name(name: Seq<char>) -> bool {
    name.len() > 0 && forall|i: int|
        0 <= i < name.len() ==> 'a' <= #[trigger] name[i] <= 'z' || name[i] == '-'
}

/// A byte that a header's value may hold as text: a printable ASCII character
/// or a tabulator.
pub open spec fn is_text_byte(b: u8) -> bool {
    32 <= b < 127 || b == 9
}

/// The bytes can be read as text.
pub open spec fn is_text(bytes: Seq<u8>) -> bool {
    forall|i: int| 0 <= i < bytes.len() ==> is_text_byte(#[trigger] bytes[i])
}

/// ASCII bytes as characters.
pub open spec fn ascii_text(bytes: Seq<u8>) -> Seq<char> {
    Seq::new(bytes.len(), |i: int| bytes[i] as char)
}

/// Calls `http::HeaderMap::get`. Claims that it finds the first value of the
/// header of that name, and nothing where there is no such header.
#[verifier::external_body]
fn header_value<'a>(
    headers: &'a http::HeaderMap<http::HeaderValue>,
    name: &str,
) -> (value: Option<&'a http::HeaderValue>)
    requires
        is_header_name(name@),
    ensures
        match value {
            Some(value) => header_lines(*headers).contains_key(name@) && header_lines(
                *headers,
            )[name@].len() > 0 && header_bytes(*value) == header_lines(*headers)[name@][0],
            None => !header_lines(*headers).contains_key(name@),
        },
{
    headers.get(name)
}

/// Calls `http::HeaderValue::to_str`. Claims that it gives the bytes as text
/// where all of them are text bytes, and else fails with the words of
/// `http::header::ToStrError`.
#[verifier::external_body]
fn header_to_str(value: &http::HeaderValue) -> (text: std::result::Result<String, String>)
    ensures
        match text {
            Ok(text) => is_text(header_bytes(*value)) && text@ == ascii_text(header_bytes(*value)),
            Err(words) => !is_text(header_bytes(*value)) && words@
                == "failed to convert header to a str"@,
        },
{
    match value.to_str() {
        Ok(text) => Ok(text.to_owned()),
        Err(error) => Err(error.to_string()),
    }
}

/// Who signs, or why the request is refused.
pub type Signer = std::result::Result<u128, ErrorResponseView>;

/// What the header of the signer holds, where there is one.
pub open spec fn signer_header(headers: http::HeaderMap<http::HeaderValue>) -> Option<Seq<u8>> {
    if header_lines(headers).contains_key("signer-id"@) {
        Some(header_lines(headers)["signer-id"@][0])
    } else {
        None
    }
}

/// Who signs, by what the identifier was read as.
pub open spec fn accepted(parsed: crate::uuids::ParsedUuid) -> Signer {
    match parsed {
        Ok(id) => Signer::Ok(id),
        Err(words) => Signer::Err(
            ErrorResponseView::BadRequest(
                crate::manager::error::caused("can't parse uuid"@, words),
            ),
        ),
    }
}

/// Who signs, by what the header holds: a request without the header is not
/// authorised, one whose header is no text or names no UUID is a bad request.
pub open spec fn signer_named_by(header: Option<Seq<u8>>) -> Signer {
    match header {
        None => Signer::Err(
            ErrorResponseView::Unauthorized(crate::manager::error::plain("no signer-id"@)),
        ),
        Some(bytes) => if is_text(bytes) {
            accepted(crate::uuids::parsed_uuid(ascii_text(bytes)))
        } else {
            Signer::Err(
                ErrorResponseView::BadRequest(
                    crate::manager::error::caused(
                        "can't repr SIGNER-ID as string"@,
                        "failed to convert header to a str"@,
                    ),
                ),
            )
        },
    }
}

/// A result and its description agree.
pub open spec fn is_signer(result: Result<u128>, signer: Signer) -> bool {
    match result {
        Ok(id) => signer == Signer::Ok(id),
        Err(error) => signer == Signer::Err(error@),
    }
}

/// Accepts the identifier of the signer if it could be read.
pub fn accept_signer(parsed: std::result::Result<u128, String>) -> (signer: Result<u128>)
    ensures
        match parsed {
            Ok(id) => is_signer(signer, accepted(crate::uuids::ParsedUuid::Ok(id))),
            Err(words) => is_signer(signer, accepted(crate::uuids::ParsedUuid::Err(words@))),
        },
{
    match parsed {
        Ok(id) => Ok(id),
        Err(words) => {
            Err(ErrorResponse::BadRequest(ErrorChain::context("can't parse uuid", words)))
        },
    }
}

/// Reads from the headers who signs.
pub fn signer_id(headers: &http::HeaderMap<http::HeaderValue>) -> (signer: Result<u128>)
    ensures
        is_signer(signer, signer_named_by(signer_header(*headers))),
{
    proof {
        reveal_strlit("signer-id");
    }
    match header_value(headers, "signer-id") {
        None => Err(ErrorResponse::Unauthorized(ErrorChain::msg("no signer-id"))),
        Some(value) => match header_to_str(value) {
            Ok(text) => accept_signer(parse_uuid(&text)),
            Err(words) => Err(
                ErrorResponse::BadRequest(
                    ErrorChain::context("can't repr SIGNER-ID as string", words),
                ),
            ),
        },
    }
}

/// Who signs a request: nobody without the header, nobody where the header holds
/// a byte that is no printable ASCII character and no tabulator, and else whom
/// its characters name, if they name anyone.
pub proof fn law_signer_by_the_header(bytes: Seq<u8>, text: Seq<char>)
    requires
        text.len() == bytes.len(),
        forall|i: int| 0 <= i < bytes.len() ==> #[trigger] text[i] as int == bytes[i] as int,
    ensures
        signer_named_by(None) matches Err(ErrorResponseView::Unauthorized(e)) && e.message
            == "no signer-id"@ && e.causes.len() == 0,
        (exists|i: int|
            0 <= i < bytes.len() && !(32 <= #[trigger] bytes[i] <= 126 || bytes[i] == 9)) ==> (
        signer_named_by(Some(bytes)) matches Err(ErrorResponseView::BadRequest(e)) && e.message
            == "can't repr SIGNER-ID as string"@ && e.causes
            == seq!["failed to convert header to a str"@]),
        (forall|i: int|
            0 <= i < bytes.len() ==> (32 <= #[trigger] bytes[i] <= 126 || bytes[i] == 9))
            ==> match crate::uuids::parsed_uuid(text) {
            Ok(id) => signer_named_by(Some(bytes)) == Signer::Ok(id),
            Err(words) => signer_named_by(Some(bytes)) matches Err(
                ErrorResponseView::BadRequest(e),
            ) && e.message == "can't parse uuid"@ && e.causes == seq![words],
        },
{
    if forall|i: int|
        0 <= i < bytes.len() ==> (32 <= #[trigger] bytes[i] <= 126 || bytes[i] == 9) {
        assert(ascii_text(bytes) =~= text) by {
            assert forall|i: int| 0 <= i < bytes.len() implies ascii_text(bytes)[i] == text[i] by {
                assert(text[i] as int == bytes[i] as int);
            }
        }
        assert(is_text(bytes));
    } else {
        let i = choose|i: int|
            0 <= i < bytes.len() && !(32 <= #[trigger] bytes[i] <= 126 || bytes[i] == 9);
        assert(!is_text_byte(bytes[i]));
    }
}

/// The header of the signer is the first one of that name.
pub proof fn law_first_header_counts(headers: http::HeaderMap<http::HeaderValue>)
    ensures
        signer_header(headers) is Some <==> header_lines(headers).contains_key("signer-id"@),
        header_lines(headers).contains_key("signer-id"@) ==> signer_header(headers) == Some(
            header_lines(headers)["signer-id"@][0],
        ),
{
}

/// A result tells of the signer what is to be told: the signer, or the error.
pub proof fn law_signer_is_told(result: Result<u128>, signer: Signer)
    requires
        is_signer(result, signer),
    ensures
        result is Ok <==> signer is Ok,
        result matches Ok(id) ==> signer == Signer::Ok(id),
        result matches Err(error) ==> signer == Signer::Err(error@),
{
}

/// A signer is accepted as it was read, and the words of a failure stand behind
/// the refusal.
pub proof fn law_accepted_signer(
    parsed: std::result::Result<u128, String>,
    headers: http::HeaderMap<http::HeaderValue>,
    accepted_signer: Result<u128>,
    signer: Result<u128>,
)
    requires
        call_ensures(accept_signer, (parsed,), accepted_signer),
        call_ensures(signer_id, (&headers,), signer),
    ensures
        match parsed {
            Ok(id) => accepted_signer matches Ok(found) && found == id,
            Err(words) => accepted_signer matches Err(error) && (
            error@ matches ErrorResponseView::BadRequest(e) && e.message == "can't parse uuid"@
                && e.causes == seq![words@]),
        },
        match signer_named_by(signer_header(headers)) {
            Ok(id) => signer matches Ok(found) && found == id,
            Err(error) => signer matches Err(e) && e@ == error,
        },
{
}

} // verus!
