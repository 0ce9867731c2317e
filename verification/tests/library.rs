use sensor_poll::auth::{session_token, LoginOutcome};
use sensor_poll::fetch::{fetch_step, run_fetch, AttemptOutcome, FetchRunEnd, FetchStep};
use sensor_poll::parse::{get_data, parse_k, parse_m};
use sensor_poll::recorder::{format_snapshot_line, snapshot_line};
use sensor_poll::scheduler::{load_step, CyclePolicy, LoadEnd, LoadStep, RepeatMode, Scheduler};
use sensor_poll::types::{Credentials, Error, Record};

fn rec(index: &[u8], value: &[u8]) -> Record {
    Record { index: index.to_vec(), value: value.to_vec() }
}

fn creds() -> Credentials {
    Credentials::new("1234".to_string(), "secret".to_string(), "2025".to_string())
}

fn scheduler(mode: RepeatMode) -> Scheduler {
    Scheduler::new(mode, 5, "data.csv".to_string(), creds())
}

#[test]
fn parse_both_datasets() {
    let m = b"1;5\n2;7\nbadline\n".to_vec();
    let k = b"36;9\n40;1\n38;3".to_vec();
    let out = get_data(&m, &k);
    let expected = vec![
        rec(b"1", b"5"),
        rec(b"2", b"7"),
        rec(b"n/a", b"malformed"),
        rec(b"36", b"9"),
        rec(b"38", b"3"),
    ];
    assert_eq!(out, expected);
}

#[test]
fn parse_m_keeps_line_order_and_sentinel_position() {
    let out = parse_m(&b"1;5\nbad\n2;7".to_vec());
    assert_eq!(out, vec![rec(b"1", b"5"), rec(b"n/a", b"malformed"), rec(b"2", b"7")]);
}

#[test]
fn parse_m_splits_on_first_separator_only() {
    let out = parse_m(&b"3;a;b".to_vec());
    assert_eq!(out, vec![rec(b"3", b"a;b")]);
}

#[test]
fn parse_m_empty_input_and_empty_lines() {
    assert_eq!(parse_m(&b"".to_vec()), vec![]);
    assert_eq!(parse_m(&b"\n\n".to_vec()), vec![]);
}

#[test]
fn parse_k_keeps_only_codes_36_and_38() {
    let out = parse_k(&b"36;9\n40;1\n38;3\nnosemi\n36;4".to_vec());
    assert_eq!(out, vec![rec(b"36", b"9"), rec(b"38", b"3"), rec(b"36", b"4")]);
}

#[test]
fn parse_k_drops_malformed_lines_silently() {
    assert_eq!(parse_k(&b"badline\n\n39;1".to_vec()), vec![]);
}

#[test]
fn snapshot_puts_all_m_records_before_k_records() {
    let out = get_data(&b"9;x".to_vec(), &b"38;y".to_vec());
    assert_eq!(out, vec![rec(b"9", b"x"), rec(b"38", b"y")]);
}

#[test]
fn fetch_succeeds_after_two_empty_bodies() {
    let outcomes = vec![
        AttemptOutcome::Body(vec![]),
        AttemptOutcome::Body(vec![]),
        AttemptOutcome::Body(b"1;5\n2;7".to_vec()),
    ];
    match run_fetch(outcomes, 2) {
        FetchRunEnd::Success(data, retries_used) => {
            assert_eq!(data, b"1;5\n2;7".to_vec());
            assert_eq!(retries_used, 2);
        },
        _ => panic!("fetch should have succeeded"),
    }
}

#[test]
fn fetch_fails_when_bodies_stay_empty() {
    let outcomes = vec![
        AttemptOutcome::Body(vec![]),
        AttemptOutcome::Body(vec![]),
        AttemptOutcome::Body(vec![]),
    ];
    match run_fetch(outcomes, 2) {
        FetchRunEnd::Failed(e) => assert_eq!(e, Error::MaxRetriesExceeded),
        _ => panic!("fetch should have failed"),
    }
}

#[test]
fn fetch_with_no_retry_budget_fails_on_first_empty_body() {
    match run_fetch(vec![AttemptOutcome::Body(vec![])], 0) {
        FetchRunEnd::Failed(e) => assert_eq!(e, Error::MaxRetriesExceeded),
        _ => panic!("fetch should have failed"),
    }
}

#[test]
fn fetch_with_largest_budget_spends_it_all() {
    let mut outcomes = Vec::new();
    for _ in 0..256 {
        outcomes.push(AttemptOutcome::Body(vec![]));
    }
    match run_fetch(outcomes, 255) {
        FetchRunEnd::Failed(e) => assert_eq!(e, Error::MaxRetriesExceeded),
        _ => panic!("fetch should have failed"),
    }
}

#[test]
fn fetch_transport_failure_is_not_retried() {
    let outcomes = vec![AttemptOutcome::NotSent, AttemptOutcome::Body(b"1;5".to_vec())];
    match run_fetch(outcomes, 5) {
        FetchRunEnd::Failed(e) => assert_eq!(e, Error::TransportError),
        _ => panic!("fetch should have failed at once"),
    }
}

#[test]
fn fetch_server_error_is_not_retried() {
    let outcomes = vec![AttemptOutcome::BadStatus(500), AttemptOutcome::Body(b"1;5".to_vec())];
    match run_fetch(outcomes, 5) {
        FetchRunEnd::Failed(e) => assert_eq!(e, Error::ServerError(500)),
        _ => panic!("fetch should have failed at once"),
    }
}

#[test]
fn fetch_step_immediate_success_uses_no_retries() {
    match fetch_step(0, 5, AttemptOutcome::Body(b"x".to_vec())) {
        FetchStep::Success(data, retries_used) => {
            assert_eq!(data, b"x".to_vec());
            assert_eq!(retries_used, 0);
        },
        _ => panic!("step should have succeeded"),
    }
}

#[test]
fn login_rejects_non_redirect_status() {
    let out = session_token(&LoginOutcome::Response(200, Some(b"SID=1".to_vec())));
    assert_eq!(out, Err(Error::AuthError));
}

#[test]
fn login_rejects_missing_session_header() {
    assert_eq!(session_token(&LoginOutcome::Response(302, None)), Err(Error::AuthError));
}

#[test]
fn login_rejects_unsent_request() {
    assert_eq!(session_token(&LoginOutcome::NotSent), Err(Error::AuthError));
}

#[test]
fn login_extracts_first_cookie_attribute() {
    let out = session_token(&LoginOutcome::Response(
        302,
        Some(b"PHPSESSID=abc123; path=/; HttpOnly".to_vec()),
    ));
    assert_eq!(out, Ok(b"PHPSESSID=abc123".to_vec()));
}

#[test]
fn login_takes_whole_header_without_separator() {
    let out = session_token(&LoginOutcome::Response(302, Some(b"token".to_vec())));
    assert_eq!(out, Ok(b"token".to_vec()));
}

#[test]
fn recorder_writes_na_for_empty_snapshot() {
    let ts = b"2024-01-02T03:04:05+01:00".to_vec();
    let line = format_snapshot_line(&ts, &vec![]);
    assert_eq!(line, b"2024-01-02T03:04:05+01:00n/a\n".to_vec());
}

#[test]
fn recorder_writes_values_only_in_snapshot_order() {
    let ts = b"2024-01-02T03:04:05+01:00".to_vec();
    let records = vec![rec(b"1", b"5"), rec(b"38", b"7")];
    let line = format_snapshot_line(&ts, &records);
    assert_eq!(line, b"2024-01-02T03:04:05+01:00;5;7\n".to_vec());
}

#[test]
fn snapshot_line_carries_a_timestamp_and_newline() {
    let line = snapshot_line(&vec![]);
    assert!(line.len() > 4);
    assert!(line.ends_with(b"n/a\n"));
    let line = snapshot_line(&vec![rec(b"1", b"5")]);
    assert!(line.ends_with(b";5\n"));
}

#[test]
fn load_aborts_after_four_request_class_failures() {
    let outcomes: Vec<Result<Vec<Record>, Error>> = vec![
        Err(Error::AuthError),
        Err(Error::TransportError),
        Err(Error::MaxRetriesExceeded),
        Err(Error::ServerError(500)),
    ];
    match scheduler(RepeatMode::Once).load_data(outcomes) {
        LoadEnd::Fatal(e) => assert_eq!(e, Error::ServerError(500)),
        _ => panic!("load should have been fatal"),
    }
}

#[test]
fn load_recovers_within_the_retry_budget() {
    let outcomes: Vec<Result<Vec<Record>, Error>> = vec![
        Err(Error::AuthError),
        Err(Error::AuthError),
        Err(Error::AuthError),
        Ok(vec![rec(b"1", b"5")]),
    ];
    match scheduler(RepeatMode::Once).load_data(outcomes) {
        LoadEnd::Loaded(data) => assert_eq!(data, vec![rec(b"1", b"5")]),
        _ => panic!("load should have recovered"),
    }
}

#[test]
fn load_passes_file_errors_on_at_once() {
    let outcomes: Vec<Result<Vec<Record>, Error>> = vec![Err(Error::IOError)];
    match scheduler(RepeatMode::Once).load_data(outcomes) {
        LoadEnd::Failed(e) => assert_eq!(e, Error::IOError),
        _ => panic!("load should have failed without retrying"),
    }
}

#[test]
fn load_step_retries_request_class_failures() {
    match load_step(0, Err(Error::AuthError)) {
        LoadStep::Retry(attempts) => assert_eq!(attempts, 1),
        _ => panic!("step should have retried"),
    }
    match load_step(3, Err(Error::AuthError)) {
        LoadStep::Fatal(e) => assert_eq!(e, Error::AuthError),
        _ => panic!("step should have been fatal"),
    }
}

#[test]
fn failed_cycle_aborts_once_mode_and_skips_repeat_tick() {
    assert_eq!(scheduler(RepeatMode::Once).after_failed_cycle(), CyclePolicy::Abort);
    assert_eq!(scheduler(RepeatMode::Repeat(60)).after_failed_cycle(), CyclePolicy::SkipTick);
}

#[test]
fn due_compares_elapsed_time_against_the_interval() {
    let mut s = scheduler(RepeatMode::Repeat(60));
    s.mark_ran(100);
    assert!(!s.due(159, 60));
    assert!(s.due(160, 60));
    assert!(s.due(161, 60));
    assert!(!s.due(99, 60));
}

#[test]
fn scheduler_new_keeps_its_configuration() {
    let s = scheduler(RepeatMode::Repeat(30));
    assert_eq!(s.mode, RepeatMode::Repeat(30));
    assert_eq!(s.max_retries, 5);
    assert_eq!(s.file_path, "data.csv".to_string());
    assert_eq!(s.creds.csl, "1234".to_string());
}

#[test]
fn credentials_new_keeps_its_fields() {
    let c = creds();
    assert_eq!(c.csl, "1234".to_string());
    assert_eq!(c.hsl, "secret".to_string());
    assert_eq!(c.year, "2025".to_string());
}
