//! The wire form of an avatar image, `data:<type>/<subtype>;base64,<data>`, taken apart
//! byte by byte.

use vstd::prelude::*;
use vstd::slice::slice_subrange;
use vstd::slice::slice_to_vec;
use crate::errors::{AppError, AppErrorType, AppErrorView};

verus! {

/// The byte that parts the heading of a payload from its data.
pub const COMMA: u8 = 44;

/// The byte that ends the media type within the heading.
pub const SEMICOLON: u8 = 59;

/// The byte that parts the type from the subtype.
pub const SLASH: u8 = 47;

/// Whether `at` is where `mark` first stands in `bytes`, or the length of `bytes` where
/// `mark` stands nowhere.
pub open spec fn is_first(bytes: Seq<u8>, mark: u8, at: int) -> bool {
    &&& 0 <= at <= bytes.len()
    &&& at < bytes.len() ==> bytes[at] == mark
    &&& forall|j: int| 0 <= j < at ==> bytes[j] != mark
}

/// Where `mark` first stands in `bytes`; the length of `bytes` where it stands nowhere.
pub open spec fn first_at(bytes: Seq<u8>, mark: u8) -> int {
    choose|at: int| is_first(bytes, mark, at)
}

/// There is one first place, and no other.
pub proof fn lemma_first_at(bytes: Seq<u8>, mark: u8, at: int)
    requires
        is_first(bytes, mark, at),
    ensures
        first_at(bytes, mark) == at,
{
    let other = first_at(bytes, mark);
    assert(is_first(bytes, mark, other));
    if other < at {
        assert(bytes[other] != mark);
    } else if at < other {
        assert(bytes[at] != mark);
    }
}

/// The bytes in front of the first `mark`: all of them where there is no `mark`.
pub open spec fn before(bytes: Seq<u8>, mark: u8) -> Seq<u8> {
    bytes.take(first_at(bytes, mark))
}

/// The bytes behind the first `mark`, where there is one.
pub open spec fn behind(bytes: Seq<u8>, mark: u8) -> Option<Seq<u8>> {
    if first_at(bytes, mark) < bytes.len() {
        Some(bytes.skip(first_at(bytes, mark) + 1))
    } else {
        None
    }
}

/// The data of a payload: what stands behind the first comma, up to the next one. A
/// payload without a comma has no data.
pub open spec fn payload_body(wire: Seq<u8>) -> Option<Seq<u8>> {
    match behind(wire, COMMA) {
        Some(rest) => Some(before(rest, COMMA)),
        None => None,
    }
}

/// The media type that a payload declares: the heading in front of the first comma, up
/// to its first semicolon.
pub open spec fn payload_media_type(wire: Seq<u8>) -> Seq<u8> {
    before(before(wire, COMMA), SEMICOLON)
}

/// The subtype that a payload declares: what stands behind the first slash of the media
/// type, up to the next one. A media type without a slash has no subtype.
pub open spec fn payload_subtype(wire: Seq<u8>) -> Option<Seq<u8>> {
    match behind(payload_media_type(wire), SLASH) {
        Some(rest) => Some(before(rest, SLASH)),
        None => None,
    }
}

/// What is said of a payload without a comma.
pub open spec fn no_comma_message() -> Seq<char> {
    "The image has no comma between its heading and its data"@
}

/// What is said of a payload whose media type has no slash.
pub open spec fn no_subtype_message() -> Seq<char> {
    "The image names no media subtype"@
}

/// The failure that reports a payload that cannot be read.
pub open spec fn decode_failure(why: Seq<char>) -> AppErrorView {
    AppErrorView { message: Some(why), cause: Some(why), error_type: AppErrorType::DecodeError }
}

/// The two parts of a payload that are read: the declared subtype and the data, still
/// encoded.
#[derive(Debug)]
pub struct PayloadParts {
    pub subtype: Vec<u8>,
    pub body: Vec<u8>,
}

/// Where `mark` first stands in `bytes`; the length of `bytes` where it stands nowhere.
pub fn find_byte(bytes: &[u8], mark: u8) -> (at: usize)
    ensures
        at == first_at(bytes@, mark),
        at <= bytes@.len(),
{
    let mut at: usize = 0;
    while at < bytes.len()
        invariant
            at <= bytes@.len(),
            forall|j: int| 0 <= j < at ==> bytes@[j] != mark,
        decreases bytes.len() - at,
    {
        if bytes[at] == mark {
            proof {
                lemma_first_at(bytes@, mark, at as int);
            }
            return at;
        }
        at = at + 1;
    }
    proof {
        lemma_first_at(bytes@, mark, at as int);
    }
    at
}

/// The bytes in front of the first `mark`.
pub fn take_before(bytes: &[u8], mark: u8) -> (head: &[u8])
    ensures
        head@ == before(bytes@, mark),
{
    let at = find_byte(bytes, mark);
    slice_subrange(bytes, 0, at)
}

/// The bytes behind the first `mark`, where there is one.
pub fn take_behind(bytes: &[u8], mark: u8) -> (tail: Option<&[u8]>)
    ensures
        match behind(bytes@, mark) {
            Some(rest) => tail matches Some(found) && found@ == rest,
            None => tail is None,
        },
{
    let at = find_byte(bytes, mark);
    if at < bytes.len() {
        Some(slice_subrange(bytes, at + 1, bytes.len()))
    } else {
        None
    }
}

/// Takes a payload apart. A payload without a comma is refused, and so is one whose
/// media type has no slash.
pub fn split_payload(wire: &[u8]) -> (parts: Result<PayloadParts, AppError>)
    ensures
        match (payload_body(wire@), payload_subtype(wire@)) {
            (None, _) => parts matches Err(e) && e@ == decode_failure(no_comma_message()),
            (Some(_), None) => parts matches Err(e) && e@ == decode_failure(
                no_subtype_message(),
            ),
            (Some(body), Some(subtype)) => parts matches Ok(p) && p.body@ == body
                && p.subtype@ == subtype,
        },
{
    let body = match take_behind(wire, COMMA) {
        Some(rest) => take_before(rest, COMMA),
        None => {
            return Err(
                AppError::decode_error("The image has no comma between its heading and its data"),
            );
        },
    };
    let media_type = take_before(take_before(wire, COMMA), SEMICOLON);
    let subtype = match take_behind(media_type, SLASH) {
        Some(rest) => take_before(rest, SLASH),
        None => {
            return Err(AppError::decode_error("The image names no media subtype"));
        },
    };
    Ok(PayloadParts { subtype: slice_to_vec(subtype), body: slice_to_vec(body) })
}

} // verus!
