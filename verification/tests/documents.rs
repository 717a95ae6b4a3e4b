use macro_core::document_api::{create_document_plan, create_route, requested_sub_type, CreateRoute, DocumentSubType};
use macro_core::decimal::{format_decimal, parse_i64, IntErrorKind};
use macro_core::document_api::{
    create_document_preflight, ensure_internal_auth, internal_health, mime_type_mismatch,
    pool_connection_bounds, resolve_document_name, DocumentError, Environment, HttpReply,
    LeanApiError,
};

fn reply(status: u16, body: Option<&str>) -> HttpReply {
    HttpReply { status, body: body.map(|b| b.to_string()) }
}

#[test]
fn format_decimal_exact_values() {
    assert_eq!(format_decimal(0), "0");
    assert_eq!(format_decimal(7), "7");
    assert_eq!(format_decimal(1024), "1024");
    assert_eq!(format_decimal(u64::MAX), "18446744073709551615");
}

#[test]
fn parse_i64_values_and_errors() {
    assert_eq!(parse_i64("1700000000000"), Ok(1_700_000_000_000));
    assert_eq!(parse_i64("+42"), Ok(42));
    assert_eq!(parse_i64("-42"), Ok(-42));
    assert_eq!(parse_i64("-9223372036854775808"), Ok(i64::MIN));
    assert_eq!(parse_i64("9223372036854775807"), Ok(i64::MAX));
    assert_eq!(parse_i64(""), Err(IntErrorKind::Empty));
    assert_eq!(parse_i64("-"), Err(IntErrorKind::InvalidDigit));
    assert_eq!(parse_i64("12a"), Err(IntErrorKind::InvalidDigit));
    assert_eq!(parse_i64(" 1"), Err(IntErrorKind::InvalidDigit));
    assert_eq!(parse_i64("9223372036854775808"), Err(IntErrorKind::PosOverflow));
    assert_eq!(parse_i64("-9223372036854775809"), Err(IntErrorKind::NegOverflow));
}

#[test]
fn parse_i64_agrees_with_std() {
    let cases = [
        "", "0", "-0", "+", "-", "00012", "+-1", "1_000", "99999999999999999999", "-99999999999999999999",
        "123x456", "٣", "42",
    ];
    for case in cases {
        let ours = parse_i64(case);
        let theirs = case.parse::<i64>();
        match (ours, theirs) {
            (Ok(a), Ok(b)) => assert_eq!(a, b, "{case}"),
            (Err(kind), Err(e)) => assert_eq!(kind.message(), e.to_string(), "{case}"),
            (a, b) => panic!("disagreement on {case:?}: {a:?} vs {b:?}"),
        }
    }
}

#[test]
fn formatted_numbers_parse_back() {
    for n in [0u64, 9, 10, 12345, 9_223_372_036_854_775_807] {
        assert_eq!(parse_i64(&format_decimal(n)), Ok(n as i64));
    }
}

#[test]
fn int_error_messages() {
    assert_eq!(IntErrorKind::Empty.message(), "cannot parse integer from empty string");
    assert_eq!(IntErrorKind::InvalidDigit.message(), "invalid digit found in string");
    assert_eq!(IntErrorKind::PosOverflow.message(), "number too large to fit in target type");
    assert_eq!(IntErrorKind::NegOverflow.message(), "number too small to fit in target type");
}

#[test]
fn lean_errors_map_to_replies() {
    let cases = vec![
        (LeanApiError::BadUserId("bad".to_string()), reply(400, Some("invalid internal user id: bad"))),
        (LeanApiError::Document(DocumentError::NotFound("no doc".to_string())), reply(404, Some("no doc"))),
        (LeanApiError::Document(DocumentError::Unauthorized), reply(401, None)),
        (LeanApiError::Unauthorized, reply(401, None)),
        (LeanApiError::Document(DocumentError::Gone), reply(410, None)),
        (LeanApiError::Document(DocumentError::Conflict("taken".to_string())), reply(409, Some("taken"))),
        (LeanApiError::Document(DocumentError::BadRequest("oops".to_string())), reply(400, Some("oops"))),
        (
            LeanApiError::Document(DocumentError::NameTooLong { max: 255 }),
            reply(422, Some("document name exceeds max length 255")),
        ),
        (LeanApiError::Document(DocumentError::Internal("db down".to_string())), reply(500, None)),
        (
            LeanApiError::MissingUserId,
            reply(400, Some("missing x-document-storage-service-user-id header")),
        ),
    ];
    for (error, expected) in cases {
        assert_eq!(error.into_response(), expected);
    }
}

#[test]
fn document_errors_wrap() {
    assert_eq!(
        LeanApiError::from_document(DocumentError::Gone),
        LeanApiError::Document(DocumentError::Gone)
    );
}

#[test]
fn internal_auth_checks_the_key() {
    assert_eq!(ensure_internal_auth(Some("key"), "key"), Ok(()));
    assert_eq!(ensure_internal_auth(Some("other"), "key"), Err(LeanApiError::Unauthorized));
    assert_eq!(ensure_internal_auth(None, "key"), Err(LeanApiError::Unauthorized));
    assert_eq!(internal_health(Some("key"), "key"), Ok("healthy".to_string()));
    assert_eq!(internal_health(None, "key"), Err(LeanApiError::Unauthorized));
}

#[test]
fn create_document_preflight_order() {
    assert_eq!(
        create_document_preflight(Some("key"), "key", Some("macro|user@example.com")),
        Ok("macro|user@example.com".to_string())
    );
    assert_eq!(
        create_document_preflight(Some("key"), "key", None),
        Err(LeanApiError::MissingUserId)
    );
    assert_eq!(
        create_document_preflight(Some("wrong"), "key", None),
        Err(LeanApiError::Unauthorized)
    );
}

#[test]
fn document_name_resolution() {
    let given = resolve_document_name("report.pdf".to_string(), Some(1u8), Some("report".to_string()), None);
    assert_eq!(given, ("report".to_string(), Some(1u8)));
    let given_uncleaned = resolve_document_name("report".to_string(), Some(1u8), None, None);
    assert_eq!(given_uncleaned, ("report".to_string(), Some(1u8)));
    let split = resolve_document_name(
        "notes.md".to_string(),
        None,
        Some("notes".to_string()),
        Some(("notes".to_string(), Some(2u8))),
    );
    assert_eq!(split, ("notes".to_string(), Some(2u8)));
    let kept = resolve_document_name("README".to_string(), None::<u8>, None, None);
    assert_eq!(kept, ("README".to_string(), None));
}

#[test]
fn mime_type_mismatch_warns_only_on_conflict() {
    assert!(mime_type_mismatch(Some("application/pdf"), Some("text/plain")));
    assert!(!mime_type_mismatch(Some("application/pdf"), Some("application/pdf")));
    assert!(!mime_type_mismatch(None, Some("text/plain")));
    assert!(!mime_type_mismatch(Some("application/pdf"), None));
}

#[test]
fn pool_bounds_per_environment() {
    assert_eq!(pool_connection_bounds(Environment::Production), (50, 150));
    assert_eq!(pool_connection_bounds(Environment::Develop), (25, 100));
    assert_eq!(pool_connection_bounds(Environment::Local), (15, 50));
}

#[test]
fn create_document_dispatch() {
    assert_eq!(requested_sub_type(true), Some(DocumentSubType::Task));
    assert_eq!(requested_sub_type(false), None);
    assert_eq!(create_route(Some("att-1")), CreateRoute::ImportEmailAttachment("att-1"));
    assert_eq!(create_route::<&str>(None), CreateRoute::Create);
}

#[test]
fn create_document_plan_checks_in_order() {
    let plan = |auth: Option<&str>, user: Option<&str>, bad: Option<&str>| {
        create_document_plan(
            auth,
            "key",
            user,
            bad.map(|b| b.to_string()),
            "notes.md".to_string(),
            None::<u8>,
            None,
            Some(("notes".to_string(), Some(3u8))),
            true,
            Some(7u32),
        )
    };
    assert!(matches!(plan(Some("nope"), None, Some("bad")), Err(LeanApiError::Unauthorized)));
    assert!(matches!(plan(Some("key"), None, Some("bad")), Err(LeanApiError::MissingUserId)));
    match plan(Some("key"), Some("u"), Some("not a user id")) {
        Err(LeanApiError::BadUserId(m)) => assert_eq!(m, "not a user id"),
        _ => panic!("expected a bad user id"),
    }
    let ok = plan(Some("key"), Some("macro|a@b.c"), None).ok().unwrap();
    assert_eq!(ok.user_id, "macro|a@b.c");
    assert_eq!(ok.document_name, "notes");
    assert_eq!(ok.file_type, Some(3));
    assert_eq!(ok.sub_type, Some(DocumentSubType::Task));
    assert_eq!(ok.route, CreateRoute::ImportEmailAttachment(7));
}
