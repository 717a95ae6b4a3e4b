use macro_core::text::trim;
use macro_core::tracking::{
    check_tracking_token_update, open_pixel_handler, pixel_outcome, pixel_response,
    read_receipts_reply, recorded_open_from_row, transparent_pixel_bytes, OpenTrackingError,
    ReadReceiptsError, ReadReceiptsResponse, RecordedOpen, UpdateReadReceiptsRequest,
};

const GIF: [u8; 43] = [
    0x47, 0x49, 0x46, 0x38, 0x39, 0x61, 0x01, 0x00, 0x01, 0x00, 0x80, 0x00, 0x00, 0x00, 0x00,
    0x00, 0xFF, 0xFF, 0xFF, 0x21, 0xF9, 0x04, 0x01, 0x00, 0x00, 0x00, 0x00, 0x2C, 0x00, 0x00,
    0x00, 0x00, 0x01, 0x00, 0x01, 0x00, 0x00, 0x02, 0x02, 0x44, 0x01, 0x00, 0x3B,
];

#[test]
fn trim_removes_unicode_whitespace() {
    assert_eq!(trim("  token \n"), "token");
    assert_eq!(trim("\u{3000}a b\u{2009}"), "a b");
    assert_eq!(trim("   "), "");
    assert_eq!(trim(""), "");
    assert_eq!(trim("x"), "x");
}

#[test]
fn pixel_is_a_transparent_gif() {
    assert_eq!(transparent_pixel_bytes(), GIF.to_vec());
    let r = pixel_response();
    assert_eq!(r.content_type, "image/gif");
    assert_eq!(r.cache_control, "no-cache, no-store, must-revalidate, max-age=0");
    assert_eq!(r.pragma, "no-cache");
    assert_eq!(r.body, GIF.to_vec());
}

#[test]
fn pixel_records_valid_tokens_only() {
    let valid = open_pixel_handler(" 67e55044-10b1-426f-9247-bb680e5fe0c8 ");
    assert_eq!(valid.record_open_for, Some(0x67e55044_10b1_426f_9247_bb680e5fe0c8));
    let simple = open_pixel_handler("67e5504410b1426f9247bb680e5fe0c8");
    assert_eq!(simple.record_open_for, Some(0x67e55044_10b1_426f_9247_bb680e5fe0c8));
    let invalid = open_pixel_handler("not-a-token");
    assert_eq!(invalid.record_open_for, None);
}

#[test]
fn pixel_reply_is_the_same_for_every_token() {
    let a = open_pixel_handler("67e55044-10b1-426f-9247-bb680e5fe0c8");
    let b = open_pixel_handler("garbage");
    assert_eq!(a.response.body, b.response.body);
    assert_eq!(a.response.content_type, b.response.content_type);
    assert_eq!(a.response.cache_control, b.response.cache_control);
    assert_eq!(a.response.pragma, b.response.pragma);
    assert_eq!(pixel_outcome(None).response.body, GIF.to_vec());
    assert_eq!(pixel_outcome(Some(7)).record_open_for, Some(7));
}

#[test]
fn token_update_must_touch_one_row() {
    assert_eq!(check_tracking_token_update(1, 1, 2), Ok(()));
    let err = check_tracking_token_update(0, 1, 2).unwrap_err();
    assert_eq!(
        err,
        OpenTrackingError::NotExactlyOneRow { rows_affected: 0, message_id: 1, link_id: 2 }
    );
    assert!(check_tracking_token_update(3, 1, 2).is_err());
}

#[test]
fn token_update_error_message() {
    let err = OpenTrackingError::NotExactlyOneRow {
        rows_affected: 0,
        message_id: 0x67e55044_10b1_426f_9247_bb680e5fe0c8,
        link_id: 0xa1a2a3a4_b1b2_c1c2_d1d2_d3d4d5d6d7d8,
    };
    assert_eq!(
        err.message(),
        "expected to set open tracking token on exactly one message, but 0 rows matched (message_id=67e55044-10b1-426f-9247-bb680e5fe0c8, link_id=a1a2a3a4-b1b2-c1c2-d1d2-d3d4d5d6d7d8)"
    );
}

#[test]
fn recorded_open_rows() {
    assert_eq!(recorded_open_from_row(None), None);
    assert_eq!(
        recorded_open_from_row(Some((1, 2, 3, 4))),
        Some(RecordedOpen { message_id: 1, link_id: 2, thread_db_id: 3, open_count: 4 })
    );
}

#[test]
fn read_receipt_replies() {
    assert_eq!(
        read_receipts_reply(Ok(true)),
        Ok(ReadReceiptsResponse { read_receipts_enabled: true })
    );
    assert_eq!(
        read_receipts_reply(Err("connection reset".to_string())),
        Err(ReadReceiptsError::Database("connection reset".to_string()))
    );
    let (status, body) = ReadReceiptsError::Database("secret detail".to_string()).into_response();
    assert_eq!(status, 500);
    assert_eq!(body, "Failed to read or update read receipt settings");
    let request = UpdateReadReceiptsRequest { read_receipts_enabled: false };
    assert!(!request.read_receipts_enabled);
}

#[test]
fn white_space_is_the_listed_code_points() {
    let mut listed: Vec<u32> = (0x09..=0x0D).collect();
    listed.extend([0x20, 0x85, 0xA0, 0x1680]);
    listed.extend(0x2000..=0x200A);
    listed.extend([0x2028, 0x2029, 0x202F, 0x205F, 0x3000]);
    assert_eq!(listed.len(), 25);
    let found: Vec<u32> = (0..=0x10FFFFu32)
        .filter_map(char::from_u32)
        .filter(|c| c.is_whitespace())
        .map(|c| c as u32)
        .collect();
    assert_eq!(found, listed);
    for u in listed {
        let c = char::from_u32(u).unwrap();
        assert_eq!(trim(&format!("{c}x{c}")), "x");
    }
}

#[test]
fn pixel_token_forms() {
    let v = Some(0x67e55044_10b1_426f_9247_bb680e5fe0c8u128);
    assert_eq!(open_pixel_handler("{67e55044-10b1-426f-9247-bb680e5fe0c8}").record_open_for, v);
    assert_eq!(open_pixel_handler("URN:uuid:67E55044-10B1-426F-9247-BB680E5FE0C8").record_open_for, v);
    assert_eq!(open_pixel_handler("67e55044-10b1-426f-9247bb680e5fe0c8-").record_open_for, None);
    assert_eq!(open_pixel_handler("67e55044-10b1-426f-9247-bb680e5fe0cg").record_open_for, None);
    assert_eq!(open_pixel_handler("urn:uuix:67e55044-10b1-426f-9247-bb680e5fe0c8").record_open_for, None);
    assert_eq!(open_pixel_handler("67e55044-10b1-426f-9247-bb680e5fe0ç").record_open_for, None);
}
