//! The network boundary: what an upload does to the coordinator and what
//! a request for the snapshot is answered with. Routing and the wire are
//! not here; these functions take and give plain values.

use crate::intake::{IntakeCoordinator, IntakeModel};
use crate::views::bytes_view;
use vstd::prelude::*;
use vstd::utf8::encode_utf8;

verus! {

/// The content type given to a snapshot whose format is not known.
pub const DEFAULT_CONTENT_TYPE: &'static str = "application/octet-stream";

/// The status of an upload that was taken: accepted, queued.
pub const STATUS_ACCEPTED: u16 = 202;

/// The status of an upload whose text is no hexadecimal string.
pub const STATUS_BAD_REQUEST: u16 = 400;

/// The status of a snapshot that is there.
pub const STATUS_OK: u16 = 200;

/// The status when no image was ever received.
pub const STATUS_NOT_FOUND: u16 = 404;

/// Why a text is no hexadecimal string.
#[derive(Clone, Copy, Debug, PartialEq, Eq)]
pub enum HexError {
    /// A character that is no hexadecimal digit stands at `index`.
    InvalidHexCharacter { c: char, index: usize },
    /// The number of digits is odd.
    OddLength,
    /// The text does not fill a buffer of fixed size; no upload gives it.
    InvalidStringLength,
}

/// Whether `byte` is a hexadecimal digit, upper or lower case.
pub open spec fn is_hex_digit(byte: u8) -> bool {
    ||| 0x30 <= byte <= 0x39
    ||| 0x41 <= byte <= 0x46
    ||| 0x61 <= byte <= 0x66
}

/// The value of a hexadecimal digit.
pub open spec fn hex_digit_value(byte: u8) -> nat {
    if 0x30 <= byte <= 0x39 {
        (byte - 0x30) as nat
    } else if 0x41 <= byte <= 0x46 {
        (byte - 0x41 + 10) as nat
    } else {
        (byte - 0x61 + 10) as nat
    }
}

/// Whether the first byte of `digits` that is no hexadecimal digit stands
/// at `index`.
pub open spec fn is_first_bad_digit(digits: Seq<u8>, index: int) -> bool {
    &&& 0 <= index < digits.len()
    &&& !is_hex_digit(digits[index])
    &&& forall|j: int| 0 <= j < index ==> is_hex_digit(#[trigger] digits[j])
}

/// Whether all of `digits` are hexadecimal digits.
pub open spec fn all_hex_digits(digits: Seq<u8>) -> bool {
    forall|j: int| 0 <= j < digits.len() ==> is_hex_digit(#[trigger] digits[j])
}

/// The bytes that `digits` write, two digits for each byte, the high one
/// first.
pub open spec fn hex_bytes(digits: Seq<u8>) -> Seq<u8> {
    Seq::new(
        digits.len() / 2,
        |i: int| (hex_digit_value(digits[2 * i]) * 16 + hex_digit_value(digits[2 * i + 1])) as u8,
    )
}

/// Whether `decoded` is what decoding `digits` gives: the bytes, if the
/// digits are even in number and all hexadecimal; else the odd length, or
/// the first character that is no digit.
pub open spec fn is_hex_outcome(digits: Seq<u8>, decoded: Result<Vec<u8>, HexError>) -> bool {
    match decoded {
        Ok(bytes) => digits.len() % 2 == 0 && all_hex_digits(digits) && bytes@ == hex_bytes(
            digits,
        ),
        Err(HexError::OddLength) => digits.len() % 2 == 1,
        Err(HexError::InvalidHexCharacter { c, index }) => {
            &&& digits.len() % 2 == 0
            &&& is_first_bad_digit(digits, index as int)
            &&& c == digits[index as int] as char
        },
        Err(HexError::InvalidStringLength) => false,
    }
}

/// Whether `c` is white space: one of the characters with the Unicode
/// property `White_Space`.
pub open spec fn white_space(c: char) -> bool {
    ||| '\u{9}' <= c <= '\u{D}'
    ||| c == ' '
    ||| c == '\u{85}'
    ||| c == '\u{A0}'
    ||| c == '\u{1680}'
    ||| '\u{2000}' <= c <= '\u{200A}'
    ||| c == '\u{2028}'
    ||| c == '\u{2029}'
    ||| c == '\u{202F}'
    ||| c == '\u{205F}'
    ||| c == '\u{3000}'
}

/// The text without the white space at its start.
pub open spec fn without_leading_space(text: Seq<char>) -> Seq<char>
    decreases text.len(),
{
    if text.len() > 0 && white_space(text.first()) {
        without_leading_space(text.drop_first())
    } else {
        text
    }
}

/// The text without the white space at its end.
pub open spec fn without_trailing_space(text: Seq<char>) -> Seq<char>
    decreases text.len(),
{
    if text.len() > 0 && white_space(text.last()) {
        without_trailing_space(text.drop_last())
    } else {
        text
    }
}

/// The text without the white space at its start and at its end.
pub open spec fn trimmed(text: Seq<char>) -> Seq<char> {
    without_trailing_space(without_leading_space(text))
}

/// The MIME type that `infer::get` finds in the first bytes of a buffer,
/// `None` if it knows none.
pub uninterp spec fn sniffed_mime(bytes: Seq<u8>) -> Option<Seq<char>>;

/// `str::trim`: the text without leading and trailing white space, where
/// white space is what has the Unicode property `White_Space`.
#[verifier::external_body]
fn trim_text(text: &str) -> (kept: &str)
    ensures
        kept@ == trimmed(text@),
{
    text.trim()
}

/// `hex::decode`: the bytes that a hexadecimal string writes. An odd
/// length is reported before any character is looked at; otherwise the
/// first character that is no digit is reported, with its index.
#[verifier::external_body]
fn hex_decode(digits: &[u8]) -> (decoded: Result<Vec<u8>, HexError>)
    ensures
        is_hex_outcome(digits@, decoded),
{
    match hex::decode(digits) {
        Ok(bytes) => Ok(bytes),
        Err(hex::FromHexError::InvalidHexCharacter { c, index }) => {
            Err(HexError::InvalidHexCharacter { c, index })
        },
        Err(hex::FromHexError::OddLength) => Err(HexError::OddLength),
        Err(hex::FromHexError::InvalidStringLength) => Err(HexError::InvalidStringLength),
    }
}

/// `infer::get` and `infer::Type::mime_type`: the MIME type found in the
/// first bytes of `bytes`.
#[verifier::external_body]
fn sniff_mime(bytes: &[u8]) -> (mime: Option<&'static str>)
    ensures
        match mime {
            Some(name) => sniffed_mime(bytes@) == Some(name@),
            None => sniffed_mime(bytes@) is None,
        },
{
    infer::get(bytes).map(|kind| kind.mime_type())
}

/// Whether `c` is white space.
pub fn is_white_space(c: char) -> (space: bool)
    ensures
        space == white_space(c),
{
    (c >= '\u{9}' && c <= '\u{D}') || c == ' ' || c == '\u{85}' || c == '\u{A0}' || c
        == '\u{1680}' || (c >= '\u{2000}' && c <= '\u{200A}') || c == '\u{2028}' || c
        == '\u{2029}' || c == '\u{202F}' || c == '\u{205F}' || c == '\u{3000}'
}

/// The answer to an upload.
#[derive(Clone, Copy, Debug, PartialEq, Eq)]
pub enum UploadReply {
    /// The image was taken and staged; `start_worker` says whether the
    /// caller must start a worker loop.
    Accepted { start_worker: bool },
    /// The text was no hexadecimal string; nothing was taken.
    Rejected { error: HexError },
}

impl UploadReply {
    /// The status to answer with.
    pub fn status_code(&self) -> (status: u16)
        ensures
            status == match *self {
                UploadReply::Accepted { .. } => STATUS_ACCEPTED,
                UploadReply::Rejected { .. } => STATUS_BAD_REQUEST,
            },
    {
        match self {
            UploadReply::Accepted { .. } => STATUS_ACCEPTED,
            UploadReply::Rejected { .. } => STATUS_BAD_REQUEST,
        }
    }
}

/// The answer to a request for the snapshot.
#[derive(Clone, Debug, PartialEq, Eq)]
pub enum SnapshotReply {
    /// The snapshot and the content type to send it with.
    Found { content_type: String, body: Vec<u8> },
    /// No image was ever received.
    NotFound,
}

impl SnapshotReply {
    /// The status to answer with.
    pub fn status_code(&self) -> (status: u16)
        ensures
            status == match *self {
                SnapshotReply::Found { .. } => STATUS_OK,
                SnapshotReply::NotFound => STATUS_NOT_FOUND,
            },
    {
        match self {
            SnapshotReply::Found { .. } => STATUS_OK,
            SnapshotReply::NotFound => STATUS_NOT_FOUND,
        }
    }
}

/// The content type for a snapshot, given what was found in its bytes.
pub open spec fn content_type_for(sniffed: Option<Seq<char>>) -> Seq<char> {
    match sniffed {
        Some(name) => name,
        None => DEFAULT_CONTENT_TYPE@,
    }
}

/// The answer for a snapshot, given what was found in its bytes.
pub open spec fn reply_for(snapshot: Option<Seq<u8>>, sniffed: Option<Seq<char>>) -> Option<
    (Seq<char>, Seq<u8>),
> {
    match snapshot {
        Some(body) => Some((content_type_for(sniffed), body)),
        None => None,
    }
}

/// The content type and the body of an answer, if it has them.
pub open spec fn reply_view(reply: SnapshotReply) -> Option<(Seq<char>, Seq<u8>)> {
    match reply {
        SnapshotReply::Found { content_type, body } => Some((content_type@, body@)),
        SnapshotReply::NotFound => None,
    }
}

/// The MIME type found in a snapshot, as the model has it.
pub open spec fn sniffed_view(sniffed: Option<&'static str>) -> Option<Seq<char>> {
    match sniffed {
        Some(name) => Some(name@),
        None => None,
    }
}

/// An upload of raw image bytes: the body is taken as it is.
pub fn receive_image_raw(state: &mut IntakeCoordinator, body: Vec<u8>) -> (reply: UploadReply)
    ensures
        final(state)@ == old(state)@.ingest(body@),
        reply == (UploadReply::Accepted { start_worker: old(state)@.ingest_starts_worker() }),
        old(state)@.wf() ==> final(state)@.wf(),
{
    let start_worker = state.ingest(body);
    UploadReply::Accepted { start_worker }
}

/// An upload of hexadecimal digits: the bytes that they write are taken;
/// digits that do not decode are rejected and change nothing.
pub fn receive_hex_digits(state: &mut IntakeCoordinator, digits: &[u8]) -> (reply: UploadReply)
    ensures
        match reply {
            UploadReply::Accepted { start_worker } => {
                &&& digits@.len() % 2 == 0
                &&& all_hex_digits(digits@)
                &&& final(state)@ == old(state)@.ingest(hex_bytes(digits@))
                &&& start_worker == old(state)@.ingest_starts_worker()
            },
            UploadReply::Rejected { error } => {
                &&& is_hex_outcome(digits@, Err(error))
                &&& final(state)@ == old(state)@
            },
        },
        old(state)@.wf() ==> final(state)@.wf(),
{
    match hex_decode(digits) {
        Ok(bytes) => {
            let start_worker = state.ingest(bytes);
            UploadReply::Accepted { start_worker }
        },
        Err(error) => UploadReply::Rejected { error },
    }
}

/// An upload of an image as hexadecimal text: white space around the text
/// is set aside, then the digits are taken as by [`receive_hex_digits`].
pub fn receive_image(state: &mut IntakeCoordinator, image: &str) -> (reply: UploadReply)
    ensures
        match reply {
            UploadReply::Accepted { start_worker } => {
                let digits = encode_utf8(trimmed(image@));
                &&& digits.len() % 2 == 0
                &&& all_hex_digits(digits)
                &&& final(state)@ == old(state)@.ingest(hex_bytes(digits))
                &&& start_worker == old(state)@.ingest_starts_worker()
            },
            UploadReply::Rejected { error } => {
                &&& is_hex_outcome(encode_utf8(trimmed(image@)), Err(error))
                &&& final(state)@ == old(state)@
            },
        },
        old(state)@.wf() ==> final(state)@.wf(),
{
    let kept = trim_text(image);
    receive_hex_digits(state, kept.as_bytes())
}

/// The answer for `snapshot`, given the MIME type found in its bytes: the
/// type found, or the default type if none was found; no snapshot, no
/// answer.
pub fn snapshot_reply(snapshot: Option<Vec<u8>>, sniffed: Option<&'static str>) -> (reply:
    SnapshotReply)
    ensures
        reply_view(reply) == reply_for(bytes_view(snapshot), sniffed_view(sniffed)),
{
    match snapshot {
        Some(body) => {
            let content_type = match sniffed {
                Some(name) => name.to_owned(),
                None => DEFAULT_CONTENT_TYPE.to_owned(),
            };
            SnapshotReply::Found { content_type, body }
        },
        None => SnapshotReply::NotFound,
    }
}

/// The answer to a request for the snapshot: the image received last,
/// byte for byte, with the content type found in its bytes.
pub fn get_latest_image(state: &IntakeCoordinator) -> (reply: SnapshotReply)
    ensures
        reply_view(reply) == match state@.snapshot {
            Some(body) => reply_for(Some(body), sniffed_mime(body)),
            None => None,
        },
{
    match state.read_snapshot() {
        Some(body) => {
            let sniffed = sniff_mime(body.as_slice());
            snapshot_reply(Some(body), sniffed)
        },
        None => SnapshotReply::NotFound,
    }
}

/// An image uploaded raw is the body of the answer to the next request
/// for the snapshot, byte for byte, whatever was held before.
pub proof fn lemma_upload_round_trip(state: IntakeModel, body: Seq<u8>)
    ensures
        reply_for(state.ingest(body).snapshot, sniffed_mime(body)) == Some(
            (content_type_for(sniffed_mime(body)), body),
        ),
{
}

} // verus!
