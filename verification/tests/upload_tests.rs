use beardist::upload::AttemptClass;
use beardist::upload::AttemptOutcome;
use beardist::upload::BASE_RETRY_DELAY_MS;
use beardist::upload::MAX_UPLOAD_ATTEMPTS;
use beardist::upload::UploadAction;
use beardist::upload::UploadVerdict;
use beardist::upload::classify;
use beardist::upload::decide_after_attempt;
use beardist::upload::retry_delay_ms;
use beardist::upload::retry_jitter_ms;
use beardist::upload::simulate_upload;

#[test]
fn four_server_errors_stop_after_three_attempts() {
    let outcomes = vec![
        AttemptOutcome::Status(503),
        AttemptOutcome::Status(503),
        AttemptOutcome::Status(503),
        AttemptOutcome::Status(503),
    ];
    let report = simulate_upload(&outcomes);
    assert_eq!(report.attempts, 3);
    assert_eq!(report.verdict, UploadVerdict::RetriesExhausted);
}

#[test]
fn server_error_then_success_takes_two_attempts() {
    let outcomes = vec![AttemptOutcome::Status(503), AttemptOutcome::Status(200)];
    let report = simulate_upload(&outcomes);
    assert_eq!(report.attempts, 2);
    assert_eq!(report.verdict, UploadVerdict::Uploaded);
}

#[test]
fn client_error_is_never_retried() {
    let outcomes = vec![AttemptOutcome::Status(404), AttemptOutcome::Status(200)];
    let report = simulate_upload(&outcomes);
    assert_eq!(report.attempts, 1);
    assert_eq!(report.verdict, UploadVerdict::FatalFailure);
}

#[test]
fn transport_error_is_retried() {
    let outcomes = vec![AttemptOutcome::TransportError, AttemptOutcome::Status(201)];
    let report = simulate_upload(&outcomes);
    assert_eq!(report.attempts, 2);
    assert_eq!(report.verdict, UploadVerdict::Uploaded);
}

#[test]
fn immediate_success_takes_one_attempt() {
    let outcomes = vec![AttemptOutcome::Status(200)];
    let report = simulate_upload(&outcomes);
    assert_eq!(report.attempts, 1);
    assert_eq!(report.verdict, UploadVerdict::Uploaded);
}

#[test]
fn exhausted_outcome_lists_stay_unresolved() {
    let none: Vec<AttemptOutcome> = vec![];
    let report = simulate_upload(&none);
    assert_eq!(report.attempts, 0);
    assert_eq!(report.verdict, UploadVerdict::Unresolved);

    let one = vec![AttemptOutcome::Status(503)];
    let report = simulate_upload(&one);
    assert_eq!(report.attempts, 1);
    assert_eq!(report.verdict, UploadVerdict::Unresolved);
}

#[test]
fn status_classification_boundaries() {
    assert_eq!(classify(&AttemptOutcome::Status(199)), AttemptClass::Fatal);
    assert_eq!(classify(&AttemptOutcome::Status(200)), AttemptClass::Success);
    assert_eq!(classify(&AttemptOutcome::Status(299)), AttemptClass::Success);
    assert_eq!(classify(&AttemptOutcome::Status(300)), AttemptClass::Fatal);
    assert_eq!(classify(&AttemptOutcome::Status(499)), AttemptClass::Fatal);
    assert_eq!(classify(&AttemptOutcome::Status(500)), AttemptClass::Retryable);
    assert_eq!(classify(&AttemptOutcome::Status(599)), AttemptClass::Retryable);
    assert_eq!(classify(&AttemptOutcome::Status(600)), AttemptClass::Fatal);
    assert_eq!(classify(&AttemptOutcome::TransportError), AttemptClass::Retryable);
}

#[test]
fn retry_decision_respects_the_bound() {
    assert_eq!(MAX_UPLOAD_ATTEMPTS, 3);
    assert_eq!(
        decide_after_attempt(1, &AttemptOutcome::Status(503)),
        UploadAction::Retry
    );
    assert_eq!(
        decide_after_attempt(2, &AttemptOutcome::Status(503)),
        UploadAction::Retry
    );
    assert_eq!(
        decide_after_attempt(3, &AttemptOutcome::Status(503)),
        UploadAction::Fail
    );
    assert_eq!(
        decide_after_attempt(1, &AttemptOutcome::Status(204)),
        UploadAction::Succeed
    );
    assert_eq!(
        decide_after_attempt(1, &AttemptOutcome::Status(422)),
        UploadAction::Fail
    );
}

#[test]
fn jitter_stays_below_one_second() {
    assert_eq!(retry_jitter_ms(12345), 345);
    assert_eq!(retry_jitter_ms(999), 999);
    assert_eq!(retry_jitter_ms(1000), 0);
}

#[test]
fn retry_delay_is_base_plus_jitter() {
    for _ in 0..32 {
        let d = retry_delay_ms();
        assert!(d >= BASE_RETRY_DELAY_MS);
        assert!(d < BASE_RETRY_DELAY_MS + 1000);
    }
}
