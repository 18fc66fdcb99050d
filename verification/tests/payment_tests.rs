use ovelha::amount::Amount;
use ovelha::payment::{Job, PaymentRecord, Processor};

#[test]
fn processors_go_by_their_names() {
    assert_eq!(Processor::Default.name(), "default");
    assert_eq!(Processor::Fallback.name(), "fallback");
    assert_eq!(Processor::from_name("default"), Some(Processor::Default));
    assert_eq!(Processor::from_name("fallback"), Some(Processor::Fallback));
    assert_eq!(Processor::from_name(""), None);
    assert_eq!(Processor::from_name("Default"), None);
    assert_eq!(Processor::from_name("fallback "), None);
}

#[test]
fn job_fields_take_their_defaults() {
    let job = Job::from_fields(None, None, None, None);
    assert_eq!(job.correlation_id, "");
    assert_eq!(job.amount, Amount::zero());
    assert_eq!(job.requested_at, "");
    assert_eq!(job.retry_count, 0);
}

#[test]
fn job_fields_are_taken_as_given() {
    let job = Job::from_fields(
        Some("abc".to_string()),
        Some(Amount::from_micros(19_900_000)),
        Some("2025-07-15T12:34:56.789Z".to_string()),
        Some(2),
    );
    assert_eq!(job.correlation_id, "abc");
    assert_eq!(job.amount.micros(), 19_900_000);
    assert_eq!(job.requested_at, "2025-07-15T12:34:56.789Z");
    assert_eq!(job.retry_count, 2);
    assert_eq!(job.clone(), job);
}

#[test]
fn record_clone_keeps_every_field() {
    let record = PaymentRecord {
        processor: Processor::Fallback,
        correlation_id: "id-1".to_string(),
        amount: Amount::from_micros(1),
        timestamp: "2025-01-01T00:00:00Z".to_string(),
    };
    assert_eq!(record.clone(), record);
}
