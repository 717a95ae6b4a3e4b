use vstd::prelude::*;

use chrono::TimeZone;

use crate::decimal::{int_error_text, parse_i64, parse_i64_spec};

verus! {

/// Where a Gmail mailbox subscription stands.
#[derive(Debug, Clone, Copy, PartialEq, Eq)]
pub enum SubscribeState {
    /// Waiting for the first watch registration.
    AwaitingWatch,
    /// The watch conflicted; waiting for the existing watch to stop.
    AwaitingStopWatch,
    /// Waiting for the single retry of the watch registration.
    AwaitingRetriedWatch,
    /// The watch failed otherwise; waiting for the mailbox profile.
    AwaitingProfile,
    /// Nothing more to do.
    Finished,
}

/// What the Gmail client answered.
#[derive(Debug, Clone, PartialEq, Eq)]
pub enum SubscribeEvent {
    WatchRegistered { history_id: u64, expiration: String },
    /// Registration failed; `conflict` tells whether a watch already exists.
    WatchFailed { conflict: bool },
    WatchStopped,
    StopWatchFailed,
    ProfileFetched { history_id: u64 },
    ProfileFailed,
}

/// How the client error that ended the subscription is reported.
#[derive(Debug, Clone, Copy, PartialEq, Eq)]
pub enum FailureMapping {
    /// As a general Gmail error.
    GmailError,
    /// As a watch registration error.
    WatchError,
}

/// What to do next.
#[derive(Debug, Clone, PartialEq, Eq)]
pub enum SubscribeAction {
    RegisterWatch,
    StopWatch,
    GetProfile,
    /// Subscribed from `history_id`; the watch expiration when a watch was
    /// registered.
    Subscribed { history_id: u64, expiration: Option<String> },
    /// Fail with the last client error, mapped as given.
    Fail(FailureMapping),
}

/// The events that can answer the request made in `state`.
pub open spec fn event_fits(state: SubscribeState, event: SubscribeEvent) -> bool {
    match state {
        SubscribeState::AwaitingWatch | SubscribeState::AwaitingRetriedWatch => event is WatchRegistered
            || event is WatchFailed,
        SubscribeState::AwaitingStopWatch => event is WatchStopped || event is StopWatchFailed,
        SubscribeState::AwaitingProfile => event is ProfileFetched || event is ProfileFailed,
        SubscribeState::Finished => false,
    }
}

/// The next state of the subscription protocol.
pub open spec fn next_state(state: SubscribeState, event: SubscribeEvent) -> SubscribeState {
    match (state, event) {
        (SubscribeState::AwaitingWatch, SubscribeEvent::WatchFailed { conflict }) => if conflict {
            SubscribeState::AwaitingStopWatch
        } else {
            SubscribeState::AwaitingProfile
        },
        (SubscribeState::AwaitingStopWatch, SubscribeEvent::WatchStopped) => SubscribeState::AwaitingRetriedWatch,
        _ => SubscribeState::Finished,
    }
}

/// The action of the subscription protocol, in the views of its strings.
pub open spec fn next_action_holds(state: SubscribeState, event: SubscribeEvent, action: SubscribeAction) -> bool {
    match (state, event) {
        (SubscribeState::AwaitingWatch, SubscribeEvent::WatchRegistered { history_id, expiration })
        | (
            SubscribeState::AwaitingRetriedWatch,
            SubscribeEvent::WatchRegistered { history_id, expiration },
        ) => action matches SubscribeAction::Subscribed { history_id: h, expiration: Some(e) } && h
            == history_id && e@ == expiration@,
        (SubscribeState::AwaitingWatch, SubscribeEvent::WatchFailed { conflict }) => action == if conflict {
            SubscribeAction::StopWatch
        } else {
            SubscribeAction::GetProfile
        },
        (SubscribeState::AwaitingStopWatch, SubscribeEvent::WatchStopped) => action
            == SubscribeAction::RegisterWatch,
        (SubscribeState::AwaitingStopWatch, SubscribeEvent::StopWatchFailed) => action
            == SubscribeAction::Fail(FailureMapping::GmailError),
        (SubscribeState::AwaitingRetriedWatch, SubscribeEvent::WatchFailed { .. }) => action
            == SubscribeAction::Fail(FailureMapping::WatchError),
        (SubscribeState::AwaitingProfile, SubscribeEvent::ProfileFetched { history_id }) => action
            == SubscribeAction::Subscribed { history_id, expiration: None },
        (SubscribeState::AwaitingProfile, SubscribeEvent::ProfileFailed) => action
            == SubscribeAction::Fail(FailureMapping::GmailError),
        _ => false,
    }
}

/// The first request: register the watch.
pub fn subscribe_start() -> (r: (SubscribeState, SubscribeAction))
    ensures
        r == (SubscribeState::AwaitingWatch, SubscribeAction::RegisterWatch),
{
    (SubscribeState::AwaitingWatch, SubscribeAction::RegisterWatch)
}

/// One step of the subscription protocol: a watch conflict stops the existing
/// watch and retries once; any other watch failure falls back to the mailbox
/// profile's history id so the inbox can still be connected.
pub fn subscribe_step(state: SubscribeState, event: SubscribeEvent) -> (r: (SubscribeState, SubscribeAction))
    requires
        event_fits(state, event),
    ensures
        r.0 == next_state(state, event),
        next_action_holds(state, event, r.1),
{
    match (state, event) {
        (SubscribeState::AwaitingWatch, SubscribeEvent::WatchRegistered { history_id, expiration })
        | (
            SubscribeState::AwaitingRetriedWatch,
            SubscribeEvent::WatchRegistered { history_id, expiration },
        ) => (
            SubscribeState::Finished,
            SubscribeAction::Subscribed { history_id, expiration: Some(expiration) },
        ),
        (SubscribeState::AwaitingWatch, SubscribeEvent::WatchFailed { conflict }) => {
            if conflict {
                (SubscribeState::AwaitingStopWatch, SubscribeAction::StopWatch)
            } else {
                (SubscribeState::AwaitingProfile, SubscribeAction::GetProfile)
            }
        },
        (SubscribeState::AwaitingStopWatch, SubscribeEvent::WatchStopped) => (
            SubscribeState::AwaitingRetriedWatch,
            SubscribeAction::RegisterWatch,
        ),
        (SubscribeState::AwaitingStopWatch, SubscribeEvent::StopWatchFailed) => (
            SubscribeState::Finished,
            SubscribeAction::Fail(FailureMapping::GmailError),
        ),
        (SubscribeState::AwaitingRetriedWatch, SubscribeEvent::WatchFailed { .. }) => (
            SubscribeState::Finished,
            SubscribeAction::Fail(FailureMapping::WatchError),
        ),
        (SubscribeState::AwaitingProfile, SubscribeEvent::ProfileFetched { history_id }) => (
            SubscribeState::Finished,
            SubscribeAction::Subscribed { history_id, expiration: None },
        ),
        (SubscribeState::AwaitingProfile, SubscribeEvent::ProfileFailed) => (
            SubscribeState::Finished,
            SubscribeAction::Fail(FailureMapping::GmailError),
        ),
        (_, _) => (SubscribeState::Finished, SubscribeAction::Fail(FailureMapping::GmailError)),
    }
}

/// How many more client answers a state can still wait for.
pub open spec fn steps_left(state: SubscribeState) -> nat {
    match state {
        SubscribeState::AwaitingWatch => 3,
        SubscribeState::AwaitingStopWatch => 2,
        SubscribeState::AwaitingRetriedWatch => 1,
        SubscribeState::AwaitingProfile => 1,
        SubscribeState::Finished => 0,
    }
}

/// The protocol ends: every step moves closer to the end, so a subscription
/// takes at most three client answers.
pub proof fn lemma_subscribe_terminates(state: SubscribeState, event: SubscribeEvent)
    requires
        event_fits(state, event),
    ensures
        steps_left(next_state(state, event)) < steps_left(state),
{
}

/// A watch that registers, on the first attempt or on the single retry after
/// a conflict, subscribes the mailbox from that watch: its history id and its
/// expiration, and the protocol is over.
pub proof fn lemma_registered_watch_subscribes(
    state: SubscribeState,
    history_id: u64,
    expiration: String,
    action: SubscribeAction,
)
    requires
        state == SubscribeState::AwaitingWatch || state == SubscribeState::AwaitingRetriedWatch,
        next_action_holds(state, SubscribeEvent::WatchRegistered { history_id, expiration }, action),
    ensures
        action matches SubscribeAction::Subscribed { history_id: h, expiration: Some(e) } && h == history_id
            && e@ == expiration@,
        next_state(state, SubscribeEvent::WatchRegistered { history_id, expiration })
            == SubscribeState::Finished,
{
}

/// A watch that fails without a conflict falls back to the mailbox profile,
/// and a fetched profile subscribes the mailbox from the profile's history id
/// with no watch expiration; a failed profile fetch ends in a Gmail error.
pub proof fn lemma_failed_watch_falls_back_to_profile(
    first: SubscribeAction,
    history_id: u64,
    second: SubscribeAction,
    failed: SubscribeAction,
)
    requires
        next_action_holds(SubscribeState::AwaitingWatch, SubscribeEvent::WatchFailed { conflict: false }, first),
        next_action_holds(SubscribeState::AwaitingProfile, SubscribeEvent::ProfileFetched { history_id }, second),
        next_action_holds(SubscribeState::AwaitingProfile, SubscribeEvent::ProfileFailed, failed),
    ensures
        first == SubscribeAction::GetProfile,
        next_state(SubscribeState::AwaitingWatch, SubscribeEvent::WatchFailed { conflict: false })
            == SubscribeState::AwaitingProfile,
        second == (SubscribeAction::Subscribed { history_id, expiration: None }),
        failed == SubscribeAction::Fail(FailureMapping::GmailError),
{
}

/// A conflicting watch is retried once only: after the retry, the next
/// action is never another registration, and the protocol is over.
pub proof fn lemma_watch_retried_once(event: SubscribeEvent, action: SubscribeAction)
    requires
        event_fits(SubscribeState::AwaitingRetriedWatch, event),
        next_action_holds(SubscribeState::AwaitingRetriedWatch, event, action),
    ensures
        action != SubscribeAction::RegisterWatch,
        next_state(SubscribeState::AwaitingRetriedWatch, event) == SubscribeState::Finished,
{
}

/// The first millisecond `chrono` can represent: January 1 of year -262143,
/// 00:00:00 UTC, counted from the Unix epoch.
pub open spec fn chrono_min_millis() -> int {
    -8_334_601_228_800_000
}

/// The last millisecond `chrono` can represent: December 31 of year 262142,
/// 23:59:59.999 UTC, counted from the Unix epoch.
pub open spec fn chrono_max_millis() -> int {
    8_210_266_876_799_999
}

/// Whether `chrono` can represent the UTC instant `millis` milliseconds after
/// the Unix epoch: its dates run from year -262143 to year 262142.
pub open spec fn chrono_millis_representable(millis: int) -> bool {
    chrono_min_millis() <= millis <= chrono_max_millis()
}

/// `Utc.timestamp_millis_opt(millis).single()`, read back with
/// `timestamp_millis`: trusted to give the instant when it lies in `chrono`'s
/// date range and nothing otherwise; the documented round trip keeps the
/// value.
#[verifier::external_body]
fn utc_timestamp_millis(millis: i64) -> (instant: Option<i64>)
    ensures
        chrono_millis_representable(millis as int) ==> instant == Some(millis),
        !chrono_millis_representable(millis as int) ==> instant == None::<i64>,
{
    match chrono::Utc.timestamp_millis_opt(millis).single() {
        Some(t) => Some(t.timestamp_millis()),
        None => None,
    }
}

/// The system clock's time, carried through opaquely.
#[verifier::external_type_specification]
#[verifier::external_body]
pub struct ExSystemTime(std::time::SystemTime);

/// `std::time::SystemTime::now`: the system clock's reading. Nothing is
/// stated of it; it depends on the clock.
#[verifier::external_body]
fn system_time_now() -> (now: std::time::SystemTime) {
    std::time::SystemTime::now()
}

/// `SystemTime::duration_since(UNIX_EPOCH)`: the time elapsed since the Unix
/// epoch, or `None` when `t` lies before it. Nothing more is stated: the
/// value of `t` is not visible here.
#[verifier::external_body]
fn elapsed_since_epoch(t: &std::time::SystemTime) -> (elapsed: Option<std::time::Duration>) {
    t.duration_since(std::time::UNIX_EPOCH).ok()
}

/// `Duration::as_millis`: the whole milliseconds of `d`. Nothing more is
/// stated: the value of `d` is not visible here.
#[verifier::external_body]
fn duration_millis(d: &std::time::Duration) -> (millis: u128) {
    d.as_millis()
}

/// The message for a system clock set before the Unix epoch.
pub open spec fn clock_before_epoch_text() -> Seq<char> {
    "system clock is set before the Unix epoch"@
}

/// The message for a system clock too far ahead for a subscription expiry.
pub open spec fn clock_out_of_range_text() -> Seq<char> {
    "system clock is beyond the representable date range"@
}

/// The expiry for a subscription without a reported expiration, from the
/// clock's reading in milliseconds since the Unix epoch (`None`: the clock is
/// before the epoch): seven days later, when `chrono` can represent that
/// instant; otherwise a permanent error naming the clock's fault.
pub open spec fn clock_expiry_holds(clock_millis: Option<u128>, r: Result<i64, EmailApiError>) -> bool {
    match clock_millis {
        None => r matches Err(EmailApiError::Permanent { message }) && message@
            == clock_before_epoch_text(),
        Some(ms) => if chrono_millis_representable(ms + seven_days_millis()) {
            r == Ok::<i64, EmailApiError>((ms + seven_days_millis()) as i64)
        } else {
            r matches Err(EmailApiError::Permanent { message }) && message@
                == clock_out_of_range_text()
        },
    }
}

/// The expiry seven days after the clock's reading (see `clock_expiry_holds`).
pub fn expiry_from_clock(clock_millis: Option<u128>) -> (r: Result<i64, EmailApiError>)
    ensures
        clock_expiry_holds(clock_millis, r),
{
    match clock_millis {
        None => {
            proof {
                reveal_strlit("system clock is set before the Unix epoch");
            }
            Err(
                EmailApiError::Permanent {
                    message: "system clock is set before the Unix epoch".to_string(),
                },
            )
        },
        Some(ms) => {
            if ms <= 8_210_266_876_799_999 - 604_800_000 {
                Ok((ms + 604_800_000) as i64)
            } else {
                proof {
                    reveal_strlit("system clock is beyond the representable date range");
                }
                Err(
                    EmailApiError::Permanent {
                        message: "system clock is beyond the representable date range".to_string(),
                    },
                )
            }
        },
    }
}

/// The clock's reading in whole milliseconds since the Unix epoch, or `None`
/// when the clock is set before the epoch.
fn read_clock_millis() -> (millis: Option<u128>) {
    let now = system_time_now();
    match elapsed_since_epoch(&now) {
        Some(elapsed) => Some(duration_millis(&elapsed)),
        None => None,
    }
}

/// Seven days in milliseconds.
pub open spec fn seven_days_millis() -> int {
    604_800_000
}

/// Errors of the mail provider API.
#[derive(Debug, Clone, PartialEq, Eq)]
pub enum EmailApiError {
    /// A failure that retrying will not fix.
    Permanent { message: String },
}

/// When a subscription expires, in milliseconds since the Unix epoch: the
/// watch expiration when the watch reported one, else seven days after the
/// clock's reading (see `clock_expiry_holds`). A reported expiration that is
/// not a decimal `i64`, or that `chrono` cannot represent, is a permanent
/// error.
pub open spec fn subscription_expiry_holds(
    expiration: Option<Seq<char>>,
    clock_millis: Option<u128>,
    r: Result<i64, EmailApiError>,
) -> bool {
    match expiration {
        None => clock_expiry_holds(clock_millis, r),
        Some(text) => match parse_i64_spec(text) {
            Err(kind) => r matches Err(EmailApiError::Permanent { message }) && message@
                == "Gmail watch returned an invalid expiration: "@ + int_error_text(kind),
            Ok(ms) => if chrono_millis_representable(ms) {
                r == Ok::<i64, EmailApiError>(ms as i64)
            } else {
                r matches Err(EmailApiError::Permanent { message }) && message@
                    == "Gmail watch returned an out-of-range expiration"@
            },
        },
    }
}

/// What the expiry can be for a run that reads the clock when it needs it:
/// for a reported expiration, exactly `subscription_expiry_holds`; without
/// one, the outcome for some reading of the clock.
pub open spec fn expiry_outcome_holds(expiration: Option<Seq<char>>, r: Result<i64, EmailApiError>) -> bool {
    match expiration {
        Some(_) => subscription_expiry_holds(expiration, None, r),
        None => exists|clock: Option<u128>| #[trigger] clock_expiry_holds(clock, r),
    }
}

/// The expiry for the given watch expiration and clock reading (see
/// `subscription_expiry_holds`); the clock is used only when the watch
/// reported no expiration.
pub fn expiry_from(expiration: Option<&str>, clock_millis: Option<u128>) -> (r: Result<i64, EmailApiError>)
    ensures
        subscription_expiry_holds(
            match expiration {
                Some(e) => Some(e@),
                None => None,
            },
            clock_millis,
            r,
        ),
{
    match expiration {
        None => expiry_from_clock(clock_millis),
        Some(text) => match parse_i64(text) {
            Err(kind) => {
                proof {
                    reveal_strlit("Gmail watch returned an invalid expiration: ");
                }
                let mut message = "Gmail watch returned an invalid expiration: ".to_string();
                let detail = kind.message();
                message.append(detail.as_str());
                Err(EmailApiError::Permanent { message })
            },
            Ok(ms) => match utc_timestamp_millis(ms) {
                Some(instant) => Ok(instant),
                None => {
                    proof {
                        reveal_strlit("Gmail watch returned an out-of-range expiration");
                    }
                    Err(
                        EmailApiError::Permanent {
                            message: "Gmail watch returned an out-of-range expiration".to_string(),
                        },
                    )
                },
            },
        },
    }
}

/// The subscription expiry, reading the system clock only when the watch
/// reported no expiration (see `expiry_outcome_holds`).
pub fn subscription_expiry(expiration: Option<&str>) -> (r: Result<i64, EmailApiError>)
    ensures
        expiry_outcome_holds(
            match expiration {
                Some(e) => Some(e@),
                None => None,
            },
            r,
        ),
{
    match expiration {
        Some(_) => expiry_from(expiration, None),
        None => {
            let clock = read_clock_millis();
            let r = expiry_from(None, clock);
            assert(clock_expiry_holds(clock, r));
            r
        },
    }
}

/// A subscription to a mailbox's changes: the history position to sync from
/// and when the subscription expires.
#[derive(Debug, Clone, Copy, PartialEq, Eq)]
pub struct ProviderSubscription {
    pub history_id: u64,
    pub expires_at_millis: i64,
}

/// The subscription for a finished protocol run that subscribed from
/// `history_id` with the given watch expiration.
pub fn finish_subscription(history_id: u64, expiration: Option<String>) -> (r: Result<
    ProviderSubscription,
    EmailApiError,
>)
    ensures
        match r {
            Ok(sub) => sub.history_id == history_id && expiry_outcome_holds(
                match expiration {
                    Some(e) => Some(e@),
                    None => None,
                },
                Ok::<i64, EmailApiError>(sub.expires_at_millis),
            ),
            Err(err) => expiry_outcome_holds(
                match expiration {
                    Some(e) => Some(e@),
                    None => None,
                },
                Err::<i64, EmailApiError>(err),
            ),
        },
{
    let expiry = match &expiration {
        Some(e) => subscription_expiry(Some(e.as_str())),
        None => subscription_expiry(None),
    };
    match expiry {
        Ok(expires_at_millis) => Ok(ProviderSubscription { history_id, expires_at_millis }),
        Err(e) => Err(e),
    }
}

} // verus!
