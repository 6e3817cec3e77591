use packsync::fetch::FetchAttempts;
use packsync::fetch::FetchStep;
use packsync::fetch::RetryPolicy;

/// Retry bound: a source failing every transport attempt sees 5 retries
/// with backoffs 250, 500, 750, 1000, 1250 ms, then the fatal abort: 6
/// attempts in all.
#[test]
fn retry_bound_and_backoff_sequence() {
    let policy = RetryPolicy::standard();
    let mut attempts = FetchAttempts::new();
    let mut steps: Vec<FetchStep> = Vec::new();
    loop {
        let step = attempts.on_transport_failure(&policy);
        let done = step == FetchStep::Abort;
        steps.push(step);
        if done {
            break;
        }
    }
    assert_eq!(
        steps,
        vec![
            FetchStep::Retry { delay_ms: 250 },
            FetchStep::Retry { delay_ms: 500 },
            FetchStep::Retry { delay_ms: 750 },
            FetchStep::Retry { delay_ms: 1000 },
            FetchStep::Retry { delay_ms: 1250 },
            FetchStep::Abort,
        ]
    );
    // 6 attempts counted in all: the first try plus 5 retries.
    assert_eq!(attempts.attempts, 6);
}

#[test]
fn custom_policy_backoff_is_proportional() {
    let policy = RetryPolicy {
        max_attempts: 2,
        backoff_unit_ms: 10,
    };
    let mut attempts = FetchAttempts::new();
    assert_eq!(attempts.on_transport_failure(&policy), FetchStep::Retry { delay_ms: 10 });
    assert_eq!(attempts.on_transport_failure(&policy), FetchStep::Retry { delay_ms: 20 });
    assert_eq!(attempts.on_transport_failure(&policy), FetchStep::Abort);
}
