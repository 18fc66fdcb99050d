use ovelha::amount::Amount;
use ovelha::payment::{Job, PaymentBody, PaymentRecord, Processor};
use ovelha::store::{LogEntry, StoreCommand, StoreReply};
use ovelha::wire::{
    decode_body, decode_entry, decode_job, encode_for_processor, encode_job, encode_record,
    frame_for_processor, frame_job, frame_record, read_reply, RawReply,
};

fn job() -> Job {
    Job::from_fields(
        Some("4a7901b8-7d26-4d9d-aa19-4dc1c7cf60b3".to_string()),
        Some(Amount::from_micros(19_900_000)),
        Some("2025-07-15T12:34:56.789Z".to_string()),
        Some(2),
    )
}

fn record(id: &str) -> PaymentRecord {
    PaymentRecord {
        processor: Processor::Fallback,
        correlation_id: id.to_string(),
        amount: Amount::from_micros(5_005_000),
        timestamp: "2025-01-01T00:00:00Z".to_string(),
    }
}

fn words(command: StoreCommand) -> Vec<String> {
    command.words()
}

#[test]
fn job_is_published_as_json() {
    assert_eq!(
        encode_job(&job()),
        r#"{"correlationId":"4a7901b8-7d26-4d9d-aa19-4dc1c7cf60b3","amount":19.900000,"requestedAt":"2025-07-15T12:34:56.789Z","_retry_count":2}"#
    );
}

#[test]
fn job_is_posted_without_its_retry_count() {
    assert_eq!(
        encode_for_processor(&job()),
        r#"{"correlationId":"4a7901b8-7d26-4d9d-aa19-4dc1c7cf60b3","amount":19.900000,"requestedAt":"2025-07-15T12:34:56.789Z"}"#
    );
}

#[test]
fn record_is_logged_as_json() {
    assert_eq!(
        encode_record(&record("pay-1")),
        r#"{"processor":"fallback","correlationId":"pay-1","amount":5.005000,"timestamp":"2025-01-01T00:00:00Z"}"#
    );
}

#[test]
fn texts_are_quoted_and_escaped() {
    let odd = record("a\"b\\c\nd\u{e9}\u{1}");
    assert_eq!(
        encode_record(&odd),
        "{\"processor\":\"fallback\",\"correlationId\":\"a\\\"b\\\\c\\nd\u{e9}\\u0001\",\"amount\":5.005000,\"timestamp\":\"2025-01-01T00:00:00Z\"}"
    );
    let entry = decode_entry(&encode_record(&odd)).unwrap();
    assert_eq!(entry.processor, Some("fallback".to_string()));
}

#[test]
fn published_job_is_read_back() {
    assert_eq!(decode_job(&encode_job(&job())), Some(job()));
    let odd = Job::from_fields(
        Some("\"\\\u{0}\u{1f411}\n".to_string()),
        Some(Amount::from_micros(u64::MAX)),
        Some(String::new()),
        Some(u64::MAX),
    );
    assert_eq!(decode_job(&encode_job(&odd)), Some(odd));
    for micros in [0u64, 1, 9, 10_000, 5_005_000, 19_900_000, 123_456_789_012_345, u64::MAX - 1] {
        let job = Job::from_fields(None, Some(Amount::from_micros(micros)), None, None);
        assert_eq!(decode_job(&encode_job(&job)), Some(job));
    }
}

#[test]
fn job_fields_default_when_missing_or_of_another_shape() {
    assert_eq!(decode_job("{}"), Some(Job::from_fields(None, None, None, None)));
    assert_eq!(
        decode_job(r#"{"correlationId":7,"amount":"12","requestedAt":null,"_retry_count":-1}"#),
        Some(Job::from_fields(None, None, None, None))
    );
    assert_eq!(
        decode_job(r#"{"correlationId":"x","amount":12,"requestedAt":"t","_retry_count":1.5}"#),
        Some(Job::from_fields(
            Some("x".to_string()),
            Some(Amount::from_micros(12_000_000)),
            Some("t".to_string()),
            None
        ))
    );
    assert_eq!(decode_job("[1,2]"), Some(Job::from_fields(None, None, None, None)));
    assert_eq!(decode_job("3"), Some(Job::from_fields(None, None, None, None)));
}

#[test]
fn what_is_no_json_is_no_job() {
    assert_eq!(decode_job(""), None);
    assert_eq!(decode_job("{"), None);
    assert_eq!(decode_job("{\"correlationId\":\"x\"} trailing"), None);
    assert_eq!(decode_job("hello"), None);
}

#[test]
fn amounts_in_json_are_read_as_decimals() {
    let amount = |document: &str| decode_job(document).unwrap().amount.micros();
    assert_eq!(amount(r#"{"amount":19.90}"#), 19_900_000);
    assert_eq!(amount(r#"{"amount":5.005}"#), 5_005_000);
    assert_eq!(amount(r#"{"amount":0.1}"#), 100_000);
    assert_eq!(amount(r#"{"amount":1e3}"#), 1_000_000_000);
    assert_eq!(amount(r#"{"amount":1E3}"#), 1_000_000_000);
    assert_eq!(amount(r#"{"amount":1.5e+2}"#), 150_000_000);
    assert_eq!(amount(r#"{"amount":25e-1}"#), 2_500_000);
    assert_eq!(amount(r#"{"amount":1e-6}"#), 1);
    assert_eq!(amount(r#"{"amount":4.9e-7}"#), 0);
    assert_eq!(amount(r#"{"amount":5e-7}"#), 1);
    assert_eq!(amount(r#"{"amount":0.000001}"#), 1);
    assert_eq!(amount(r#"{"amount":5.0049999999999999}"#), 5_005_000);
    assert_eq!(amount(r#"{"amount":18446744073709.551615}"#), u64::MAX);
    assert_eq!(amount(r#"{"amount":18446744073709.551616}"#), 0);
    assert_eq!(amount(r#"{"amount":0e999}"#), 0);
    assert_eq!(amount(r#"{"amount":100}"#), 100_000_000);
    assert_eq!(amount(r#"{"amount":-5}"#), 0);
    assert_eq!(amount(r#"{"amount":-5.5}"#), 0);
    assert_eq!(amount(r#"{"amount":1e30}"#), 0);
    assert_eq!(amount(r#"{"amount":true}"#), 0);
}

#[test]
fn log_members_are_read_for_the_summary() {
    assert_eq!(
        decode_entry(&encode_record(&record("pay-1"))),
        Some(LogEntry {
            processor: Some("fallback".to_string()),
            amount: Some(Amount::from_micros(5_005_000)),
        })
    );
    assert_eq!(
        decode_entry(r#"{"amount":10.0,"correlationId":"c","processor":"default","timestamp":"t"}"#),
        Some(LogEntry {
            processor: Some("default".to_string()),
            amount: Some(Amount::from_micros(10_000_000)),
        })
    );
    assert_eq!(decode_entry("{}"), Some(LogEntry { processor: None, amount: None }));
    assert_eq!(decode_entry("not json"), None);
}

#[test]
fn request_bodies_are_read() {
    assert_eq!(
        decode_body(r#"{"correlationId":"abc","amount":1.5}"#),
        Some(PaymentBody {
            correlation_id: Some("abc".to_string()),
            amount: Some(Amount::from_micros(1_500_000)),
        })
    );
    assert_eq!(decode_body("null"), Some(PaymentBody { correlation_id: None, amount: None }));
    assert_eq!(decode_body(""), None);
}

#[test]
fn commands_go_to_the_store_in_its_words() {
    assert_eq!(
        words(StoreCommand::ClaimMarker { correlation_id: "pay-1".to_string() }),
        ["SETNX", "processed:pay-1", "1"]
    );
    assert_eq!(
        words(StoreCommand::ExpireMarker { correlation_id: "pay-1".to_string(), seconds: 3600 }),
        ["EXPIRE", "processed:pay-1", "3600"]
    );
    assert_eq!(
        words(StoreCommand::ReadMarker { correlation_id: "pay-1".to_string() }),
        ["GET", "processed:pay-1"]
    );
    assert_eq!(
        words(StoreCommand::AppendRecord { record: record("pay-1"), score_millis: 1_735_689_600_123 }),
        [
            "ZADD",
            "payments_log",
            "1735689600.123",
            r#"{"processor":"fallback","correlationId":"pay-1","amount":5.005000,"timestamp":"2025-01-01T00:00:00Z"}"#
        ]
    );
    assert_eq!(
        words(StoreCommand::AddRequests { processor: Processor::Default, by: 1 }),
        ["INCRBY", "totalRequests:default", "1"]
    );
    assert_eq!(
        words(StoreCommand::AddAmount {
            processor: Processor::Fallback,
            amount: Amount::from_micros(5_005_000)
        }),
        ["INCRBYFLOAT", "totalAmount:fallback", "5.005000"]
    );
    assert_eq!(
        words(StoreCommand::ReadRequests { processor: Processor::Fallback }),
        ["GET", "totalRequests:fallback"]
    );
    assert_eq!(
        words(StoreCommand::ReadAmount { processor: Processor::Default }),
        ["GET", "totalAmount:default"]
    );
    assert_eq!(words(StoreCommand::Clear), ["FLUSHDB"]);
    assert_eq!(
        words(StoreCommand::Publish { job: job() }),
        ["PUBLISH".to_string(), "payments".to_string(), encode_job(&job())]
    );
}

#[test]
fn score_bounds_go_in_seconds_or_as_infinities() {
    let bounds = |from, to| {
        let words = words(StoreCommand::ReadRecords { from_millis: from, to_millis: to });
        assert_eq!(&words[..2], ["ZRANGEBYSCORE", "payments_log"]);
        (words[2].clone(), words[3].clone())
    };
    assert_eq!(bounds(None, None), ("-inf".to_string(), "+inf".to_string()));
    assert_eq!(
        bounds(Some(1_735_689_600_000), Some(1_735_689_601_250)),
        ("1735689600.000".to_string(), "1735689601.250".to_string())
    );
    assert_eq!(bounds(Some(0), Some(7)), ("0.000".to_string(), "0.007".to_string()));
    assert_eq!(bounds(Some(-1), Some(-1_500)), ("-0.001".to_string(), "-1.500".to_string()));
    assert_eq!(
        bounds(Some(i64::MIN), Some(i64::MAX)),
        ("-9223372036854775.808".to_string(), "9223372036854775.807".to_string())
    );
}

#[test]
fn replies_are_read_by_the_command_they_answer() {
    let claim = StoreCommand::ClaimMarker { correlation_id: "x".to_string() };
    assert_eq!(read_reply(&claim, &RawReply::Number(1)), StoreReply::Flag(true));
    assert_eq!(read_reply(&claim, &RawReply::Number(0)), StoreReply::Flag(false));
    assert_eq!(read_reply(&claim, &RawReply::Number(2)), StoreReply::Failed);
    assert_eq!(read_reply(&claim, &RawReply::Text("1".to_string())), StoreReply::Failed);
    assert_eq!(read_reply(&claim, &RawReply::Failed), StoreReply::Failed);

    let marker = StoreCommand::ReadMarker { correlation_id: "x".to_string() };
    assert_eq!(read_reply(&marker, &RawReply::Text("1".to_string())), StoreReply::Flag(true));
    assert_eq!(read_reply(&marker, &RawReply::Nothing), StoreReply::Flag(false));
    assert_eq!(read_reply(&marker, &RawReply::Failed), StoreReply::Failed);

    let expire = StoreCommand::ExpireMarker { correlation_id: "x".to_string(), seconds: 1 };
    assert_eq!(read_reply(&expire, &RawReply::Number(1)), StoreReply::Done);
    assert_eq!(read_reply(&expire, &RawReply::Nothing), StoreReply::Failed);

    let append = StoreCommand::AppendRecord { record: record("x"), score_millis: 0 };
    assert_eq!(read_reply(&append, &RawReply::Number(1)), StoreReply::Done);

    assert_eq!(read_reply(&StoreCommand::Clear, &RawReply::Text("OK".to_string())), StoreReply::Done);
    assert_eq!(read_reply(&StoreCommand::Clear, &RawReply::Number(1)), StoreReply::Failed);

    let publish = StoreCommand::Publish { job: job() };
    assert_eq!(read_reply(&publish, &RawReply::Number(0)), StoreReply::Count(0));
    assert_eq!(read_reply(&publish, &RawReply::Number(3)), StoreReply::Count(3));
    assert_eq!(read_reply(&publish, &RawReply::Number(-1)), StoreReply::Failed);
}

#[test]
fn counters_are_read_from_numbers_and_texts() {
    let add = StoreCommand::AddRequests { processor: Processor::Default, by: 1 };
    assert_eq!(read_reply(&add, &RawReply::Number(12)), StoreReply::Count(12));
    assert_eq!(read_reply(&add, &RawReply::Number(i64::MAX)), StoreReply::Count(i64::MAX as u64));
    assert_eq!(read_reply(&add, &RawReply::Number(-1)), StoreReply::Failed);

    let requests = StoreCommand::ReadRequests { processor: Processor::Default };
    assert_eq!(read_reply(&requests, &RawReply::Text("12".to_string())), StoreReply::Count(12));
    assert_eq!(read_reply(&requests, &RawReply::Text("".to_string())), StoreReply::Failed);
    assert_eq!(read_reply(&requests, &RawReply::Text("1.5".to_string())), StoreReply::Failed);
    assert_eq!(read_reply(&requests, &RawReply::Nothing), StoreReply::Count(0));
    assert_eq!(read_reply(&requests, &RawReply::Failed), StoreReply::Failed);
    assert_eq!(read_reply(&requests, &RawReply::Number(12)), StoreReply::Failed);

    let amount = StoreCommand::ReadAmount { processor: Processor::Fallback };
    let added = StoreCommand::AddAmount { processor: Processor::Fallback, amount: Amount::zero() };
    for command in [amount, added] {
        assert_eq!(
            read_reply(&command, &RawReply::Text("15.005".to_string())),
            StoreReply::Total(15_005_000)
        );
        assert_eq!(
            read_reply(&command, &RawReply::Text("5.0049999999999999".to_string())),
            StoreReply::Total(5_005_000)
        );
        assert_eq!(
            read_reply(&command, &RawReply::Text("36893488147419.103230".to_string())),
            StoreReply::Total(2 * (u64::MAX as u128))
        );
        assert_eq!(
            read_reply(&command, &RawReply::Text("1e5".to_string())),
            StoreReply::Total(100_000_000_000)
        );
        assert_eq!(read_reply(&command, &RawReply::Text("-1".to_string())), StoreReply::Failed);
        assert_eq!(read_reply(&command, &RawReply::Text("nan".to_string())), StoreReply::Failed);
        assert_eq!(read_reply(&command, &RawReply::Number(5)), StoreReply::Failed);
        assert_eq!(read_reply(&command, &RawReply::Failed), StoreReply::Failed);
    }
    assert_eq!(
        read_reply(&StoreCommand::ReadAmount { processor: Processor::Fallback }, &RawReply::Nothing),
        StoreReply::Total(0)
    );
    assert_eq!(
        read_reply(
            &StoreCommand::AddAmount { processor: Processor::Fallback, amount: Amount::zero() },
            &RawReply::Nothing
        ),
        StoreReply::Failed
    );
}

#[test]
fn log_members_are_read_one_by_one() {
    let read = StoreCommand::ReadRecords { from_millis: None, to_millis: None };
    let members = vec![
        encode_record(&record("a")),
        "garbage".to_string(),
        r#"{"processor":"default","amount":1}"#.to_string(),
    ];
    assert_eq!(
        read_reply(&read, &RawReply::List(members)),
        StoreReply::Records(vec![
            Some(LogEntry {
                processor: Some("fallback".to_string()),
                amount: Some(Amount::from_micros(5_005_000)),
            }),
            None,
            Some(LogEntry {
                processor: Some("default".to_string()),
                amount: Some(Amount::from_micros(1_000_000)),
            }),
        ])
    );
    assert_eq!(read_reply(&read, &RawReply::List(vec![])), StoreReply::Records(vec![]));
    assert_eq!(read_reply(&read, &RawReply::Text("x".to_string())), StoreReply::Failed);
}

#[test]
fn documents_are_framed_from_texts_that_are_quoted_already() {
    assert_eq!(
        frame_job("\"a\"", Amount::from_micros(1_500_000), "\"t\"", 3),
        r#"{"correlationId":"a","amount":1.500000,"requestedAt":"t","_retry_count":3}"#
    );
    assert_eq!(
        frame_for_processor("\"a\"", Amount::zero(), "\"t\""),
        r#"{"correlationId":"a","amount":0.000000,"requestedAt":"t"}"#
    );
    assert_eq!(
        frame_record("\"default\"", "\"a\"", Amount::from_micros(1), "\"t\""),
        r#"{"processor":"default","correlationId":"a","amount":0.000001,"timestamp":"t"}"#
    );
    assert_eq!(frame_job("", Amount::zero(), "", 0), r#"{"correlationId":,"amount":0.000000,"requestedAt":,"_retry_count":0}"#);
}
