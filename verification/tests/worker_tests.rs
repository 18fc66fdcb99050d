use ovelha::amount::Amount;
use ovelha::payment::{Job, Processor};
use ovelha::store::StoreError;
use ovelha::worker::{
    processor_accepted, processor_endpoint, Action, Config, Dispatch, Event, Outcome, Phase,
};

fn job(retry_count: u64) -> Job {
    Job::from_fields(
        Some("pay-1".to_string()),
        Some(Amount::from_micros(19_900_000)),
        Some("2025-07-15T12:34:56.789Z".to_string()),
        Some(retry_count),
    )
}

fn call(processor: Processor, timeout_ms: u64) -> Action {
    Action::CallProcessor {
        processor,
        endpoint: format!("http://payment-processor-{}:8080/payments", processor.name()),
        payload: r#"{"correlationId":"pay-1","amount":19.900000,"requestedAt":"2025-07-15T12:34:56.789Z"}"#
            .to_string(),
        timeout_ms,
    }
}

#[test]
fn config_defaults() {
    let config = Config::default();
    assert_eq!(config.max_attempts(), 3);
    assert_eq!(config.backoff_base_ms(), 2);
    assert_eq!(config.default_timeout_ms(), 300);
    assert_eq!(config.fallback_timeout_ms(), 100);
    assert_eq!(config.max_retries(), 3);
    assert_eq!(Config::new(3, 2, 300, 100, 3), Some(config));
}

#[test]
fn config_refuses_a_backoff_that_cannot_be_counted() {
    assert!(Config::new(3, u64::MAX, 1, 1, 1).is_none());
    assert!(Config::new(u64::MAX, 2, 1, 1, 1).is_none());
    assert!(Config::new(3, u64::MAX / 2 + 1, 1, 1, 1).is_none());
    assert!(Config::new(3, u64::MAX / 2, 1, 1, 1).is_some());
    assert!(Config::new(2, u64::MAX, 1, 1, 1).is_some());
    assert!(Config::new(1, u64::MAX, 1, 1, 1).is_some());
    assert!(Config::new(u64::MAX, 1, 1, 1, 1).is_some());
    assert!(Config::new(0, u64::MAX, 0, 0, 0).is_some());
    assert!(Config::new(u64::MAX, 0, 0, 0, u64::MAX).is_some());
}

#[test]
fn endpoints_name_the_processor() {
    assert_eq!(
        processor_endpoint(Processor::Default),
        "http://payment-processor-default:8080/payments"
    );
    assert_eq!(
        processor_endpoint(Processor::Fallback),
        "http://payment-processor-fallback:8080/payments"
    );
}

#[test]
fn only_statuses_from_200_to_299_count_as_success() {
    assert!(processor_accepted(Some(200)));
    assert!(processor_accepted(Some(204)));
    assert!(processor_accepted(Some(299)));
    assert!(!processor_accepted(Some(199)));
    assert!(!processor_accepted(Some(300)));
    assert!(!processor_accepted(Some(404)));
    assert!(!processor_accepted(Some(500)));
    assert!(!processor_accepted(Some(0)));
    assert!(!processor_accepted(None));
}

#[test]
fn fresh_job_goes_to_the_default_processor_at_once() {
    let dispatch = Dispatch::new(job(0), Config::default());
    assert_eq!(dispatch.phase(), Phase::AttemptingDefault { attempt: 1 });
    assert_eq!(dispatch.action(), call(Processor::Default, 300));
    assert_eq!(dispatch.outcome(), None);
    assert_eq!(dispatch.job(), &job(0));
}

#[test]
fn first_success_is_saved_under_default() {
    let mut dispatch = Dispatch::new(job(0), Config::default());
    dispatch.step(Event::Response(Some(200)));
    assert_eq!(dispatch.phase(), Phase::Saving { processor: Processor::Default });
    assert_eq!(dispatch.action(), Action::Save { processor: Processor::Default });
    dispatch.step(Event::SaveFinished(Ok(true)));
    assert_eq!(dispatch.outcome(), Some(Outcome::Saved { by: Some(Processor::Default) }));
    assert_eq!(
        dispatch.action(),
        Action::Stop { outcome: Outcome::Saved { by: Some(Processor::Default) } }
    );
}

#[test]
fn a_save_that_found_the_record_counts_as_saved_too() {
    let mut dispatch = Dispatch::new(job(0), Config::default());
    dispatch.step(Event::Response(Some(201)));
    dispatch.step(Event::SaveFinished(Ok(false)));
    assert_eq!(dispatch.outcome(), Some(Outcome::Saved { by: Some(Processor::Default) }));
}

#[test]
fn a_failing_store_ends_the_job_without_retry() {
    let mut dispatch = Dispatch::new(job(0), Config::default());
    dispatch.step(Event::Response(Some(200)));
    dispatch.step(Event::SaveFinished(Err(StoreError::Unavailable)));
    assert_eq!(
        dispatch.outcome(),
        Some(Outcome::SaveFailed { processor: Processor::Default })
    );
}

#[test]
fn backoff_is_linear_and_skipped_after_the_last_attempt() {
    let config = Config::new(4, 7, 300, 100, 3).unwrap();
    let mut dispatch = Dispatch::new(job(0), config);
    let mut delays = Vec::new();
    let mut calls = 0;
    loop {
        match dispatch.action() {
            Action::CallProcessor { processor: Processor::Default, .. } => {
                calls += 1;
                dispatch.step(Event::Response(Some(500)));
            }
            Action::Sleep { millis } => {
                delays.push(millis);
                dispatch.step(Event::Slept);
            }
            _ => break,
        }
    }
    assert_eq!(calls, 4);
    assert_eq!(delays, vec![7, 14, 21]);
    assert_eq!(dispatch.phase(), Phase::AttemptingFallback);
    assert_eq!(dispatch.action(), call(Processor::Fallback, 100));
}

#[test]
fn default_backoff_delays() {
    let mut dispatch = Dispatch::new(job(0), Config::default());
    dispatch.step(Event::Response(None));
    assert_eq!(dispatch.phase(), Phase::BackingOff { attempt: 1 });
    assert_eq!(dispatch.action(), Action::Sleep { millis: 2 });
    dispatch.step(Event::Slept);
    assert_eq!(dispatch.phase(), Phase::AttemptingDefault { attempt: 2 });
    dispatch.step(Event::Response(Some(503)));
    assert_eq!(dispatch.action(), Action::Sleep { millis: 4 });
    dispatch.step(Event::Slept);
    assert_eq!(dispatch.phase(), Phase::AttemptingDefault { attempt: 3 });
    dispatch.step(Event::Response(None));
    assert_eq!(dispatch.phase(), Phase::AttemptingFallback);
}

#[test]
fn largest_backoff_fits() {
    let config = Config::new(3, u64::MAX / 2, 1, 1, 0).unwrap();
    let mut dispatch = Dispatch::new(job(0), config);
    dispatch.step(Event::Response(None));
    dispatch.step(Event::Slept);
    dispatch.step(Event::Response(None));
    assert_eq!(dispatch.action(), Action::Sleep { millis: u64::MAX - 1 });
    dispatch.step(Event::Slept);
    dispatch.step(Event::Response(None));
    assert_eq!(dispatch.phase(), Phase::AttemptingFallback);
}

#[test]
fn success_on_a_later_attempt_is_saved_under_default() {
    let mut dispatch = Dispatch::new(job(0), Config::default());
    dispatch.step(Event::Response(Some(500)));
    dispatch.step(Event::Slept);
    dispatch.step(Event::Response(Some(200)));
    assert_eq!(dispatch.phase(), Phase::Saving { processor: Processor::Default });
}

#[test]
fn fallback_is_tried_once_and_saved_under_its_name() {
    let config = Config::new(1, 2, 300, 100, 3).unwrap();
    let mut dispatch = Dispatch::new(job(0), config);
    dispatch.step(Event::Response(Some(500)));
    assert_eq!(dispatch.action(), call(Processor::Fallback, 100));
    dispatch.step(Event::Response(Some(200)));
    assert_eq!(dispatch.action(), Action::Save { processor: Processor::Fallback });
    dispatch.step(Event::SaveFinished(Ok(true)));
    assert_eq!(dispatch.outcome(), Some(Outcome::Saved { by: Some(Processor::Fallback) }));
}

#[test]
fn without_default_attempts_the_fallback_is_tried_at_once() {
    let config = Config::new(0, 2, 300, 100, 3).unwrap();
    let dispatch = Dispatch::new(job(0), config);
    assert_eq!(dispatch.phase(), Phase::AttemptingFallback);
}

#[test]
fn total_failure_republishes_with_one_more_retry() {
    let config = Config::new(1, 2, 300, 100, 3).unwrap();
    let mut dispatch = Dispatch::new(job(0), config);
    dispatch.step(Event::Response(None));
    dispatch.step(Event::Response(Some(502)));
    assert_eq!(dispatch.phase(), Phase::Requeueing);
    assert_eq!(dispatch.action(), Action::Republish { job: job(1) });
    dispatch.step(Event::Republished);
    assert_eq!(dispatch.outcome(), Some(Outcome::Requeued));
}

#[test]
fn total_failure_with_spent_budget_drops_the_job() {
    let config = Config::new(1, 2, 300, 100, 3).unwrap();
    let mut dispatch = Dispatch::new(job(3), config);
    assert_eq!(dispatch.phase(), Phase::CheckingProcessed);
    dispatch.step(Event::Processed(false));
    dispatch.step(Event::Response(None));
    dispatch.step(Event::Response(None));
    assert_eq!(dispatch.outcome(), Some(Outcome::PermanentlyFailed));
    assert_eq!(dispatch.action(), Action::Stop { outcome: Outcome::PermanentlyFailed });
}

#[test]
fn retry_bound_republishes_exactly_max_retries_times() {
    for max_retries in 0..5u64 {
        let config = Config::new(2, 1, 300, 100, max_retries).unwrap();
        let mut current = Some(job(0));
        let mut republished = 0u64;
        let mut processor_calls = 0u64;
        let mut last = None;
        while let Some(next) = current.take() {
            let mut dispatch = Dispatch::new(next, config);
            loop {
                match dispatch.action() {
                    Action::CheckProcessed => dispatch.step(Event::Processed(false)),
                    Action::CallProcessor { .. } => {
                        processor_calls += 1;
                        dispatch.step(Event::Response(Some(500)));
                    }
                    Action::Sleep { .. } => dispatch.step(Event::Slept),
                    Action::Save { .. } => panic!("nothing to save"),
                    Action::Republish { job } => {
                        republished += 1;
                        assert_eq!(job.retry_count, republished);
                        assert_eq!(job.correlation_id, "pay-1");
                        assert_eq!(job.amount, Amount::from_micros(19_900_000));
                        assert_eq!(job.requested_at, "2025-07-15T12:34:56.789Z");
                        current = Some(job);
                        dispatch.step(Event::Republished);
                    }
                    Action::Stop { outcome } => {
                        last = Some(outcome);
                        break;
                    }
                }
            }
        }
        assert_eq!(republished, max_retries);
        assert_eq!(last, Some(Outcome::PermanentlyFailed));
        assert_eq!(processor_calls, 3 * (max_retries + 1));
    }
}

#[test]
fn skip_on_retry_makes_no_processor_call() {
    let mut dispatch = Dispatch::new(job(1), Config::default());
    assert_eq!(dispatch.phase(), Phase::CheckingProcessed);
    assert_eq!(dispatch.action(), Action::CheckProcessed);
    dispatch.step(Event::Processed(true));
    assert_eq!(dispatch.outcome(), Some(Outcome::Saved { by: None }));
    assert_eq!(dispatch.action(), Action::Stop { outcome: Outcome::Saved { by: None } });
}

#[test]
fn retried_job_not_on_record_goes_on_to_the_processors() {
    let mut dispatch = Dispatch::new(job(2), Config::default());
    dispatch.step(Event::Processed(false));
    assert_eq!(dispatch.phase(), Phase::AttemptingDefault { attempt: 1 });
}

#[test]
fn fresh_job_never_asks_the_store_first() {
    let dispatch = Dispatch::new(job(0), Config::default());
    assert!(dispatch.action() != Action::CheckProcessed);
}

#[test]
fn events_that_the_phase_does_not_wait_for_change_nothing() {
    let mut dispatch = Dispatch::new(job(0), Config::default());
    for event in [
        Event::Slept,
        Event::Processed(true),
        Event::Republished,
        Event::SaveFinished(Ok(true)),
    ] {
        dispatch.step(event);
        assert_eq!(dispatch.phase(), Phase::AttemptingDefault { attempt: 1 });
    }
    dispatch.step(Event::Response(Some(200)));
    dispatch.step(Event::Response(Some(500)));
    assert_eq!(dispatch.phase(), Phase::Saving { processor: Processor::Default });
    dispatch.step(Event::SaveFinished(Ok(true)));
    for event in [Event::Slept, Event::Response(None), Event::Republished] {
        dispatch.step(event);
        assert_eq!(dispatch.outcome(), Some(Outcome::Saved { by: Some(Processor::Default) }));
    }
}
