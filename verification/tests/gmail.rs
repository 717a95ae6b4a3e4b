use macro_core::gmail_subscription::{
    expiry_from, expiry_from_clock, finish_subscription, subscribe_start, subscribe_step, subscription_expiry,
    EmailApiError, FailureMapping, ProviderSubscription, SubscribeAction, SubscribeEvent,
    SubscribeState,
};

#[test]
fn subscribe_happy_path() {
    let (state, action) = subscribe_start();
    assert_eq!(state, SubscribeState::AwaitingWatch);
    assert_eq!(action, SubscribeAction::RegisterWatch);
    let (state, action) = subscribe_step(
        state,
        SubscribeEvent::WatchRegistered { history_id: 42, expiration: "1700000000000".to_string() },
    );
    assert_eq!(state, SubscribeState::Finished);
    assert_eq!(
        action,
        SubscribeAction::Subscribed { history_id: 42, expiration: Some("1700000000000".to_string()) }
    );
}

#[test]
fn subscribe_conflict_is_retried_once() {
    let (state, action) = subscribe_step(SubscribeState::AwaitingWatch, SubscribeEvent::WatchFailed { conflict: true });
    assert_eq!((state, action), (SubscribeState::AwaitingStopWatch, SubscribeAction::StopWatch));
    let (state, action) = subscribe_step(state, SubscribeEvent::WatchStopped);
    assert_eq!((state, action), (SubscribeState::AwaitingRetriedWatch, SubscribeAction::RegisterWatch));
    let (state, action) = subscribe_step(state, SubscribeEvent::WatchFailed { conflict: true });
    assert_eq!(state, SubscribeState::Finished);
    assert_eq!(action, SubscribeAction::Fail(FailureMapping::WatchError));
}

#[test]
fn subscribe_stop_failure_is_a_gmail_error() {
    let (state, action) = subscribe_step(SubscribeState::AwaitingStopWatch, SubscribeEvent::StopWatchFailed);
    assert_eq!(state, SubscribeState::Finished);
    assert_eq!(action, SubscribeAction::Fail(FailureMapping::GmailError));
}

#[test]
fn subscribe_falls_back_to_profile() {
    let (state, action) = subscribe_step(SubscribeState::AwaitingWatch, SubscribeEvent::WatchFailed { conflict: false });
    assert_eq!((state, action), (SubscribeState::AwaitingProfile, SubscribeAction::GetProfile));
    let (state, action) = subscribe_step(state, SubscribeEvent::ProfileFetched { history_id: 9 });
    assert_eq!(state, SubscribeState::Finished);
    assert_eq!(action, SubscribeAction::Subscribed { history_id: 9, expiration: None });
    let (_, failed) = subscribe_step(SubscribeState::AwaitingProfile, SubscribeEvent::ProfileFailed);
    assert_eq!(failed, SubscribeAction::Fail(FailureMapping::GmailError));
}

#[test]
fn subscribe_takes_at_most_three_answers() {
    let mut state = subscribe_start().0;
    let events = [
        SubscribeEvent::WatchFailed { conflict: true },
        SubscribeEvent::WatchStopped,
        SubscribeEvent::WatchRegistered { history_id: 1, expiration: "5".to_string() },
    ];
    let mut answers = 0;
    for event in events {
        state = subscribe_step(state, event).0;
        answers += 1;
    }
    assert_eq!(state, SubscribeState::Finished);
    assert_eq!(answers, 3);
}

#[test]
fn expiry_from_reported_or_default() {
    assert_eq!(expiry_from(Some("1700000000000"), None), Ok(1_700_000_000_000));
    assert_eq!(expiry_from(Some("1700000000000"), Some(5)), Ok(1_700_000_000_000));
    assert_eq!(expiry_from(None, Some(1_000)), Ok(604_801_000));
    assert_eq!(
        expiry_from(Some("soon"), None),
        Err(EmailApiError::Permanent {
            message: "Gmail watch returned an invalid expiration: invalid digit found in string".to_string()
        })
    );
    assert_eq!(
        expiry_from(Some(""), None),
        Err(EmailApiError::Permanent {
            message: "Gmail watch returned an invalid expiration: cannot parse integer from empty string".to_string()
        })
    );
    assert_eq!(
        expiry_from(Some("9223372036854775807"), None),
        Err(EmailApiError::Permanent {
            message: "Gmail watch returned an out-of-range expiration".to_string()
        })
    );
}

#[test]
fn reported_expiration_chrono_bounds() {
    let out_of_range = Err(EmailApiError::Permanent {
        message: "Gmail watch returned an out-of-range expiration".to_string(),
    });
    assert_eq!(expiry_from(Some("8210266876799999"), None), Ok(8_210_266_876_799_999));
    assert_eq!(expiry_from(Some("8210266876800000"), None), out_of_range.clone());
    assert_eq!(expiry_from(Some("-8334601228800000"), None), Ok(-8_334_601_228_800_000));
    assert_eq!(expiry_from(Some("-8334601228800001"), None), out_of_range);
}

#[test]
fn clock_expiry_failures() {
    assert_eq!(
        expiry_from(None, None),
        Err(EmailApiError::Permanent {
            message: "system clock is set before the Unix epoch".to_string()
        })
    );
    assert_eq!(expiry_from_clock(Some(8_210_266_876_799_999 - 604_800_000)), Ok(8_210_266_876_799_999));
    assert_eq!(
        expiry_from_clock(Some(8_210_266_876_799_999 - 604_800_000 + 1)),
        Err(EmailApiError::Permanent {
            message: "system clock is beyond the representable date range".to_string()
        })
    );
}

#[test]
fn subscription_expiry_reads_the_clock_without_expiration() {
    let before = 1_600_000_000_000i64;
    let t = subscription_expiry(None).unwrap();
    assert!(t >= before + 604_800_000);
    assert_eq!(subscription_expiry(Some("123")), Ok(123));
}

#[test]
fn finish_subscription_builds_the_record() {
    assert_eq!(
        finish_subscription(77, Some("1700000000000".to_string())),
        Ok(ProviderSubscription { history_id: 77, expires_at_millis: 1_700_000_000_000 })
    );
    let fallback = finish_subscription(5, None).unwrap();
    assert_eq!(fallback.history_id, 5);
    assert!(fallback.expires_at_millis > 604_800_000);
    assert!(finish_subscription(5, Some("x".to_string())).is_err());
}
