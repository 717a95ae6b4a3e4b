use vstd::prelude::*;

use crate::decimal::{decimal_digits, format_decimal};
use crate::text::{trim, trimmed};

verus! {

/// The value of a hexadecimal digit, either case.
pub open spec fn hex_digit_value(c: char) -> Option<int> {
    if '0' <= c <= '9' {
        Some(c as int - 48)
    } else if 'a' <= c <= 'f' {
        Some(c as int - 87)
    } else if 'A' <= c <= 'F' {
        Some(c as int - 55)
    } else {
        None
    }
}

/// The big-endian value of a string of hexadecimal digits.
pub open spec fn hex_value(d: Seq<char>) -> int
    decreases d.len(),
{
    if d.len() == 0 {
        0
    } else {
        hex_value(d.drop_last()) * 16 + match hex_digit_value(d.last()) {
            Some(v) => v,
            None => 0,
        }
    }
}

/// The 32 digits of a hyphenated UUID text (hyphens at positions 8, 13, 18
/// and 23 of 36 characters).
pub open spec fn hyphenated_digits(t: Seq<char>) -> Option<Seq<char>> {
    if t.len() == 36 && t[8] == '-' && t[13] == '-' && t[18] == '-' && t[23] == '-' {
        Some(t.subrange(0, 8) + t.subrange(9, 13) + t.subrange(14, 18) + t.subrange(19, 23)
            + t.subrange(24, 36))
    } else {
        None
    }
}

/// `c` is the ASCII letter or sign `l`, ignoring the letter's case.
pub open spec fn ascii_eq_ignore_case(c: char, l: char) -> bool {
    c == l || ('a' <= l <= 'z' && c as int == l as int - 32)
}

/// The hexadecimal digits of a UUID text in one of the four forms `uuid`
/// accepts: 32 digits; hyphenated; hyphenated in braces; hyphenated after a
/// `urn:uuid:` prefix in any case.
pub open spec fn uuid_text_digits(s: Seq<char>) -> Option<Seq<char>> {
    if s.len() == 32 {
        Some(s)
    } else if s.len() == 36 {
        hyphenated_digits(s)
    } else if s.len() == 38 && s[0] == '{' && s[37] == '}' {
        hyphenated_digits(s.subrange(1, 37))
    } else if s.len() == 45 && forall|i: int|
        0 <= i < 9 ==> ascii_eq_ignore_case(#[trigger] s[i], "urn:uuid:"@[i]) {
        hyphenated_digits(s.subrange(9, 45))
    } else {
        None
    }
}

/// What `uuid::Uuid::parse_str` gives for a text, as the 128-bit big-endian
/// value of the UUID: the value of its 32 digits when the text has one of
/// the accepted forms and every digit is hexadecimal; `None` otherwise.
pub open spec fn uuid_parse(s: Seq<char>) -> Option<u128> {
    match uuid_text_digits(s) {
        Some(d) => if forall|i: int| 0 <= i < d.len() ==> (#[trigger] hex_digit_value(d[i])) is Some {
            Some(hex_value(d) as u128)
        } else {
            None
        },
        None => None,
    }
}

/// `uuid::Uuid::parse_str`, the result read as a big-endian `u128`; trusted
/// to return exactly `uuid_parse` of its argument.
#[verifier::external_body]
fn parse_uuid(s: &str) -> (value: Option<u128>)
    ensures
        value == uuid_parse(s@),
{
    match uuid::Uuid::parse_str(s) {
        Ok(u) => Some(u.as_u128()),
        Err(_) => None,
    }
}

/// The character of a hexadecimal digit, lower case.
pub open spec fn hex_char(d: int) -> char {
    if d < 10 {
        (48 + d) as char
    } else {
        (87 + d) as char
    }
}

/// The `k`-th hexadecimal digit of `v`, most significant first (`k < 32`).
pub open spec fn hex_nibble(v: u128, k: int) -> int {
    (v as int / vstd::arithmetic::power2::pow2((4 * (31 - k)) as nat) as int) % 16
}

/// The hyphenated lower-case form of a UUID: 32 hexadecimal digits in groups
/// of 8, 4, 4, 4 and 12 joined by `-`.
pub open spec fn hyphenated_uuid(v: u128) -> Seq<char> {
    Seq::new(
        36,
        |i: int|
            if i == 8 || i == 13 || i == 18 || i == 23 {
                '-'
            } else {
                hex_char(
                    hex_nibble(
                        v,
                        if i < 8 {
                            i
                        } else if i < 13 {
                            i - 1
                        } else if i < 18 {
                            i - 2
                        } else if i < 23 {
                            i - 3
                        } else {
                            i - 4
                        },
                    ),
                )
            },
    )
}

/// The `Display` text of the UUID with value `v`
/// (`uuid::Uuid::from_u128(v).to_string()`), trusted to be its hyphenated
/// lower-case form as the `uuid` documentation gives it.
#[verifier::external_body]
fn uuid_text(v: u128) -> (text: String)
    ensures
        text@ == hyphenated_uuid(v),
{
    uuid::Uuid::from_u128(v).to_string()
}

/// The transparent 1x1 GIF served by the tracking pixel.
pub open spec fn transparent_pixel_gif() -> Seq<u8> {
    seq![
        0x47u8, 0x49, 0x46, 0x38, 0x39, 0x61, 0x01, 0x00, 0x01, 0x00, 0x80, 0x00, 0x00, 0x00, 0x00,
        0x00, 0xFF, 0xFF, 0xFF, 0x21, 0xF9, 0x04, 0x01, 0x00, 0x00, 0x00, 0x00, 0x2C, 0x00, 0x00,
        0x00, 0x00, 0x01, 0x00, 0x01, 0x00, 0x00, 0x02, 0x02, 0x44, 0x01, 0x00, 0x3B,
    ]
}

/// The reply to every tracking pixel request.
pub struct PixelResponse {
    pub content_type: String,
    pub cache_control: String,
    pub pragma: String,
    pub body: Vec<u8>,
}

/// The pixel reply: a GIF that no cache may keep.
pub open spec fn pixel_response_holds(r: PixelResponse) -> bool {
    &&& r.content_type@ == "image/gif"@
    &&& r.cache_control@ == "no-cache, no-store, must-revalidate, max-age=0"@
    &&& r.pragma@ == "no-cache"@
    &&& r.body@ == transparent_pixel_gif()
}

/// The transparent 1x1 GIF served by the tracking pixel.
pub fn transparent_pixel_bytes() -> (bytes: Vec<u8>)
    ensures
        bytes@ == transparent_pixel_gif(),
{
    let bytes: Vec<u8> = vec![
        0x47u8, 0x49, 0x46, 0x38, 0x39, 0x61, 0x01, 0x00, 0x01, 0x00, 0x80, 0x00, 0x00, 0x00, 0x00,
        0x00, 0xFF, 0xFF, 0xFF, 0x21, 0xF9, 0x04, 0x01, 0x00, 0x00, 0x00, 0x00, 0x2C, 0x00, 0x00,
        0x00, 0x00, 0x01, 0x00, 0x01, 0x00, 0x00, 0x02, 0x02, 0x44, 0x01, 0x00, 0x3B,
    ];
    assert(bytes@ =~= transparent_pixel_gif());
    bytes
}

/// The reply to a tracking pixel request.
pub fn pixel_response() -> (r: PixelResponse)
    ensures
        pixel_response_holds(r),
{
    proof {
        reveal_strlit("image/gif");
        reveal_strlit("no-cache, no-store, must-revalidate, max-age=0");
        reveal_strlit("no-cache");
    }
    PixelResponse {
        content_type: "image/gif".to_string(),
        cache_control: "no-cache, no-store, must-revalidate, max-age=0".to_string(),
        pragma: "no-cache".to_string(),
        body: transparent_pixel_bytes(),
    }
}

/// What the pixel endpoint does with a token: the open to record, if the
/// token (trimmed) is a UUID, and the reply.
pub struct PixelOutcome {
    pub record_open_for: Option<u128>,
    pub response: PixelResponse,
}

/// The decision for a parsed token: record an open for it when it parsed, and
/// answer with the pixel in every case.
pub fn pixel_outcome(parsed_token: Option<u128>) -> (outcome: PixelOutcome)
    ensures
        outcome.record_open_for == parsed_token,
        pixel_response_holds(outcome.response),
{
    PixelOutcome { record_open_for: parsed_token, response: pixel_response() }
}

/// The public pixel endpoint's decision for a raw token: the trimmed token is
/// parsed as a UUID and an open is recorded when it parses; the reply is the
/// same pixel whatever the token, so callers cannot tell whether it was valid.
pub fn open_pixel_handler(token: &str) -> (outcome: PixelOutcome)
    ensures
        outcome.record_open_for == uuid_parse(trimmed(token@)),
        pixel_response_holds(outcome.response),
{
    let trimmed_token = trim(token);
    let parsed = parse_uuid(trimmed_token);
    pixel_outcome(parsed)
}

/// The pixel endpoint answers every token alike: any two of its replies carry
/// the same headers and the same image, so a caller cannot tell from the reply
/// whether a token was valid.
pub proof fn lemma_pixel_reply_is_token_independent(a: PixelOutcome, b: PixelOutcome)
    requires
        pixel_response_holds(a.response),
        pixel_response_holds(b.response),
    ensures
        a.response.content_type@ == b.response.content_type@,
        a.response.cache_control@ == b.response.cache_control@,
        a.response.pragma@ == b.response.pragma@,
        a.response.body@ == b.response.body@,
{
}

/// Why setting an open-tracking token failed.
#[derive(Debug, Clone, PartialEq, Eq)]
pub enum OpenTrackingError {
    /// The update did not touch exactly one message.
    NotExactlyOneRow { rows_affected: u64, message_id: u128, link_id: u128 },
}

/// The token update must change exactly one message; anything else is an
/// error, so a pixel is never embedded for a token that was not stored.
pub fn check_tracking_token_update(rows_affected: u64, message_id: u128, link_id: u128) -> (r: Result<
    (),
    OpenTrackingError,
>)
    ensures
        rows_affected == 1 ==> r == Ok::<(), OpenTrackingError>(()),
        rows_affected != 1 ==> r == Err::<(), OpenTrackingError>(
            OpenTrackingError::NotExactlyOneRow { rows_affected, message_id, link_id },
        ),
{
    if rows_affected != 1 {
        Err(OpenTrackingError::NotExactlyOneRow { rows_affected, message_id, link_id })
    } else {
        Ok(())
    }
}

/// The text of an open-tracking error.
pub open spec fn open_tracking_error_text(e: OpenTrackingError) -> Seq<char> {
    match e {
        OpenTrackingError::NotExactlyOneRow { rows_affected, message_id, link_id } =>
            "expected to set open tracking token on exactly one message, but "@ + decimal_digits(
            rows_affected as nat,
        ) + " rows matched (message_id="@ + hyphenated_uuid(message_id) + ", link_id="@
            + hyphenated_uuid(link_id) + ")"@,
    }
}

impl OpenTrackingError {
    /// Human-readable message of the error.
    pub fn message(&self) -> (text: String)
        ensures
            text@ == open_tracking_error_text(*self),
    {
        match self {
            OpenTrackingError::NotExactlyOneRow { rows_affected, message_id, link_id } => {
                proof {
                    reveal_strlit("expected to set open tracking token on exactly one message, but ");
                    reveal_strlit(" rows matched (message_id=");
                    reveal_strlit(", link_id=");
                    reveal_strlit(")");
                }
                let mut text = "expected to set open tracking token on exactly one message, but ".to_string();
                let rows = format_decimal(*rows_affected);
                text.append(rows.as_str());
                text.append(" rows matched (message_id=");
                let m = uuid_text(*message_id);
                text.append(m.as_str());
                text.append(", link_id=");
                let l = uuid_text(*link_id);
                text.append(l.as_str());
                text.append(")");
                text
            },
        }
    }
}

/// An open recorded for a sent message: its ids and the updated open count.
#[derive(Debug, Clone, Copy, PartialEq, Eq)]
pub struct RecordedOpen {
    pub message_id: u128,
    pub link_id: u128,
    pub thread_db_id: u128,
    pub open_count: i32,
}

/// The recorded open for the row the update returned, if a row matched.
pub fn recorded_open_from_row(row: Option<(u128, u128, u128, i32)>) -> (open: Option<RecordedOpen>)
    ensures
        open == (match row {
            Some((message_id, link_id, thread_db_id, open_count)) => Some(
                RecordedOpen { message_id, link_id, thread_db_id, open_count },
            ),
            None => None,
        }),
{
    match row {
        Some((message_id, link_id, thread_db_id, open_count)) => Some(
            RecordedOpen { message_id, link_id, thread_db_id, open_count },
        ),
        None => None,
    }
}

/// The read-receipt setting of a mailbox link.
#[derive(Debug, Clone, Copy, PartialEq, Eq)]
pub struct ReadReceiptsResponse {
    pub read_receipts_enabled: bool,
}

/// A request to change the read-receipt setting.
#[derive(Debug, Clone, Copy, PartialEq, Eq)]
pub struct UpdateReadReceiptsRequest {
    pub read_receipts_enabled: bool,
}

/// Failure of the read-receipt settings endpoints.
#[derive(Debug, Clone, PartialEq, Eq)]
pub enum ReadReceiptsError {
    /// Reading or writing the setting failed.
    Database(String),
}

impl ReadReceiptsError {
    /// The reply: status 500 with a fixed message that hides the cause.
    pub fn into_response(self) -> (r: (u16, String))
        ensures
            r.0 == 500,
            r.1@ == "Failed to read or update read receipt settings"@,
    {
        proof {
            reveal_strlit("Failed to read or update read receipt settings");
        }
        (500, "Failed to read or update read receipt settings".to_string())
    }
}

/// The endpoints' answer for the setting the store returned, or the error.
pub fn read_receipts_reply(stored: Result<bool, String>) -> (r: Result<ReadReceiptsResponse, ReadReceiptsError>)
    ensures
        match stored {
            Ok(enabled) => r == Ok::<ReadReceiptsResponse, ReadReceiptsError>(
                ReadReceiptsResponse { read_receipts_enabled: enabled },
            ),
            Err(cause) => r matches Err(ReadReceiptsError::Database(c)) && c@ == cause@,
        },
{
    match stored {
        Ok(enabled) => Ok(ReadReceiptsResponse { read_receipts_enabled: enabled }),
        Err(cause) => Err(ReadReceiptsError::Database(cause)),
    }
}

} // verus!
