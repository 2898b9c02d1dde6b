use audit_http::protocol::AuditError;
use audit_http::retry::{Outcome, PostBatch, PostStep};
use audit_http::HttpSinkConfig;

fn posting(max_retries: u32, retry_backoff_ms: u64) -> PostBatch {
    PostBatch::begin(&HttpSinkConfig {
        url: "http://c".to_owned(),
        token: None,
        timeout_ms: 2_000,
        max_retries,
        retry_backoff_ms,
        max_batch_events: 256,
    })
}

fn timeout() -> Outcome {
    Outcome::Failed { timed_out: true, detail: "slow".to_owned() }
}

fn refused() -> Outcome {
    Outcome::Failed { timed_out: false, detail: "connection refused".to_owned() }
}

fn wait(step: PostStep) -> u64 {
    match step {
        PostStep::RetryAfter(ms) => ms,
        PostStep::Done(answer) => panic!("settled with {answer:?}"),
    }
}

fn answer(step: PostStep) -> Result<(), AuditError> {
    match step {
        PostStep::Done(answer) => answer,
        PostStep::RetryAfter(ms) => panic!("retry after {ms}"),
    }
}

fn write_failed(reason: &str) -> Result<(), AuditError> {
    Err(AuditError::WriteFailed { reason: reason.to_owned() })
}

#[test]
fn any_2xx_commits() {
    for code in [200, 202, 204, 299] {
        assert_eq!(answer(posting(2, 10).conclude(&Outcome::Status(code))), Ok(()));
    }
}

#[test]
fn other_statuses_are_final() {
    let refusals = [
        (403, "collector returned HTTP 403 Forbidden"),
        (404, "collector returned HTTP 404 Not Found"),
        (199, "collector returned HTTP 199 <unknown status code>"),
        (300, "collector returned HTTP 300 Multiple Choices"),
        (428, "collector returned HTTP 428 Precondition Required"),
        (499, "collector returned HTTP 499 <unknown status code>"),
        (600, "collector returned HTTP 600 <unknown status code>"),
    ];
    for (code, reason) in refusals {
        let mut post = posting(5, 10);
        assert_eq!(answer(post.conclude(&Outcome::Status(code))), write_failed(reason));
        assert_eq!(post.attempt, 0);
    }
}

#[test]
fn backoff_doubles() {
    let mut post = posting(3, 250);
    assert_eq!(wait(post.conclude(&Outcome::Status(500))), 250);
    assert_eq!(wait(post.conclude(&Outcome::Status(429))), 500);
    assert_eq!(wait(post.conclude(&timeout())), 1_000);
    assert_eq!(answer(post.conclude(&Outcome::Status(200))), Ok(()));
}

#[test]
fn backoff_stays_in_range() {
    let mut post = posting(3, u64::MAX / 2 + 1);
    assert_eq!(wait(post.conclude(&refused())), u64::MAX / 2 + 1);
    assert_eq!(wait(post.conclude(&refused())), u64::MAX);
    assert_eq!(wait(post.conclude(&refused())), u64::MAX);
}

#[test]
fn the_last_attempt_names_the_error() {
    assert_eq!(answer(posting(0, 10).conclude(&Outcome::Status(429))), Err(AuditError::Throttled));
    assert_eq!(answer(posting(0, 10).conclude(&timeout())), Err(AuditError::Timeout));
    assert_eq!(
        answer(posting(0, 10).conclude(&refused())),
        write_failed("collector unreachable: connection refused")
    );
    assert_eq!(
        answer(posting(0, 10).conclude(&Outcome::Status(503))),
        write_failed("collector returned HTTP 503 Service Unavailable")
    );
    assert_eq!(
        answer(posting(0, 10).conclude(&Outcome::Status(599))),
        write_failed("collector returned HTTP 599 <unknown status code>")
    );
}

#[test]
fn attempts_are_one_more_than_retries() {
    let mut post = posting(2, 10);
    let mut attempts = 1;
    while let PostStep::RetryAfter(_) = post.conclude(&Outcome::Status(500)) {
        attempts += 1;
    }
    assert_eq!(attempts, 3);
}
