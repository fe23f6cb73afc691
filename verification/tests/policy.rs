use antman::batch::{download_outcome, BatchRun, DownloadOutcome};
use antman::error::DownloadError;
use antman::limiter::Limiter;
use antman::request::DownloadRequest;
use antman::retry::RetryState;

fn transport(msg: &str) -> DownloadError {
    DownloadError::Transport(String::from(msg))
}

#[test]
fn retry_succeeds_on_final_attempt() {
    let mut retry = RetryState::start(5, 1_000);
    let mut sleeps = 0;
    for k in 0..4 {
        let sleep = retry.record_attempt(Err(transport(&format!("attempt {k} failed"))));
        assert!(sleep);
        sleeps += 1;
    }
    let sleep = retry.record_attempt(Ok(()));
    assert!(!sleep);
    assert_eq!(retry.attempts_made, 5);
    assert_eq!(sleeps, 4);
    assert!(retry.into_outcome().is_ok());
}

#[test]
fn retry_exhausts_with_last_error() {
    let mut retry = RetryState::start(5, 1_000);
    let mut sleeps = 0;
    for k in 1..=5 {
        let sleep = retry.record_attempt(Err(transport(&format!("failure {k}"))));
        if sleep {
            sleeps += 1;
        } else {
            assert_eq!(k, 5, "the loop concluded only on the final attempt");
        }
    }
    assert_eq!(retry.attempts_made, 5);
    // A fully failing run sleeps between attempts only: 4 delays for 5
    // attempts, so at least 4 * retry_delay of wall time elapses.
    assert_eq!(sleeps, 4);
    match retry.into_outcome() {
        Err(DownloadError::Transport(msg)) => assert_eq!(msg, "failure 5"),
        other => panic!("expected the last transport error, got {other:?}"),
    }
}

#[test]
fn single_attempt_means_no_retry() {
    let mut retry = RetryState::start(1, 250);
    let sleep = retry.record_attempt(Err(transport("only failure")));
    assert!(!sleep);
    assert_eq!(retry.attempts_made, 1);
    assert!(matches!(
        retry.into_outcome(),
        Err(DownloadError::Transport(_))
    ));
}

#[test]
fn limiter_grants_at_most_capacity() {
    let mut limiter = Limiter::new(3);
    assert!(limiter.try_acquire());
    assert!(limiter.try_acquire());
    assert!(limiter.try_acquire());
    assert!(!limiter.try_acquire());
    assert_eq!(limiter.in_flight, 3);
    limiter.release();
    assert!(limiter.try_acquire());
    assert!(!limiter.try_acquire());
}

fn five_requests() -> Vec<DownloadRequest> {
    (0..5)
        .map(|k| {
            DownloadRequest::new(
                format!("http://example.test/pkg{k}.zip"),
                if k < 2 {
                    format!("/unwritable/pkg{k}.zip")
                } else {
                    format!("/writable/pkg{k}.zip")
                },
            )
        })
        .collect()
}

#[test]
fn batch_never_exceeds_max_concurrent() {
    let mut batch = BatchRun::start(five_requests(), 2);
    assert!(batch.try_begin(0));
    assert!(batch.try_begin(1));
    // Both permits are held: a third request must wait.
    assert!(!batch.try_begin(2));
    batch.finish(0, Ok(String::from("/writable/pkg0.zip")));
    // A released permit frees a waiting request.
    assert!(batch.try_begin(2));
    assert!(!batch.try_begin(3));
}

#[test]
fn batch_of_five_returns_all_outcomes() {
    let requests = five_requests();
    let destinations: Vec<String> = requests.iter().map(|r| r.destination.clone()).collect();
    let mut batch = BatchRun::start(requests, 12);

    // Two destinations are unwritable, three are writable; completion
    // order is scrambled on purpose.
    for i in [3usize, 0, 4, 1, 2] {
        assert!(batch.try_begin(i));
        let outcome: DownloadOutcome = if i < 2 {
            Err(DownloadError::Filesystem(format!(
                "cannot create {}",
                destinations[i]
            )))
        } else {
            Ok(destinations[i].clone())
        };
        batch.finish(i, outcome);
    }

    let outcomes = batch.into_outcomes();
    assert_eq!(outcomes.len(), 5);
    let failures = outcomes
        .iter()
        .filter(|o| matches!(o, Err(DownloadError::Filesystem(_))))
        .count();
    let successes = outcomes.iter().filter(|o| o.is_ok()).count();
    assert_eq!(failures, 2);
    assert_eq!(successes, 3);
    // Outcomes come back in submission order, not completion order.
    for (i, outcome) in outcomes.iter().enumerate() {
        match outcome {
            Ok(path) => {
                assert!(i >= 2);
                assert_eq!(*path, destinations[i]);
            }
            Err(DownloadError::Filesystem(_)) => assert!(i < 2),
            other => panic!("unexpected outcome {other:?}"),
        }
    }
}

#[test]
fn one_exhausted_request_leaves_siblings_alone() {
    let mut batch = BatchRun::start(five_requests(), 2);
    assert!(batch.try_begin(0));
    batch.finish(0, Err(transport("retries exhausted")));
    // The failed sibling neither blocks nor cancels the others.
    assert!(batch.try_begin(1));
    batch.finish(1, Ok(String::from("/writable/pkg1.zip")));
    assert!(batch.try_begin(2));
    batch.finish(2, Ok(String::from("/writable/pkg2.zip")));
    assert!(batch.try_begin(3));
    batch.finish(3, Ok(String::from("/writable/pkg3.zip")));
    assert!(batch.try_begin(4));
    batch.finish(4, Ok(String::from("/writable/pkg4.zip")));
    let outcomes = batch.into_outcomes();
    assert_eq!(outcomes.len(), 5);
    assert!(outcomes[0].is_err());
    assert!(outcomes[1..].iter().all(|o| o.is_ok()));
}

#[test]
fn terminal_result_becomes_outcome() {
    let ok = download_outcome(String::from("/tmp/a.zip"), Ok(()));
    assert_eq!(ok.unwrap(), "/tmp/a.zip");
    let err = download_outcome(String::from("/tmp/a.zip"), Err(transport("no route")));
    assert!(matches!(err, Err(DownloadError::Transport(_))));
}
