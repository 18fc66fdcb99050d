use ovelha::amount::Amount;
use ovelha::payment::{Job, PaymentBody};
use ovelha::request::Request;
use ovelha::router::{
    not_found, payments, payments_at, payments_summary, purge_payments, render_response,
    render_summary, respond, respond_at, route, status_text, Body, Response, Route,
};
use ovelha::store::{
    window, ProcessorSummary, Step, StoreCommand, StoreReply, StoreRequest, Summary, Window,
};

const NOW: &str = "2025-07-15T12:34:56.789Z";

fn payment_request(body: Option<PaymentBody>) -> Request {
    let mut request = Request::parse("POST /payments HTTP/1.1");
    request.body = body;
    request
}

fn summary(default: (u64, u128), fallback: (u64, u128)) -> Summary {
    Summary {
        default: ProcessorSummary { total_requests: default.0, total_amount_cents: default.1 },
        fallback: ProcessorSummary { total_requests: fallback.0, total_amount_cents: fallback.1 },
    }
}

#[test]
fn routes_are_told_apart_by_method_and_path() {
    assert_eq!(route(&Request::parse("POST /payments HTTP/1.1")), Route::Payments);
    assert_eq!(route(&Request::parse("GET /payments-summary?from=x HTTP/1.1")), Route::PaymentsSummary);
    assert_eq!(route(&Request::parse("POST /purge-payments HTTP/1.1")), Route::PurgePayments);
    assert_eq!(route(&Request::parse("GET /payments HTTP/1.1")), Route::NotFound);
    assert_eq!(route(&Request::parse("POST /payments/ HTTP/1.1")), Route::NotFound);
    assert_eq!(route(&Request::parse("post /payments HTTP/1.1")), Route::NotFound);
    assert_eq!(route(&Request::parse("")), Route::NotFound);
}

#[test]
fn bodies_are_written_as_json() {
    assert_eq!(Body::Enqueued.text(), r#"{"message":"enqueued"}"#);
    assert_eq!(Body::Purged.text(), r#"{"message":"purged"}"#);
    assert_eq!(Body::InvalidRequest.text(), r#"{"error":"Invalid request"}"#);
    assert_eq!(Body::PublishFailed.text(), r#"{"error":"Redis publish failed"}"#);
    assert_eq!(Body::InternalError.text(), r#"{"error":"Internal Server Error"}"#);
    assert_eq!(Body::NotFound.text(), r#"{"error":"Not Found"}"#);
}

#[test]
fn summary_is_written_with_two_decimal_places() {
    let text = render_summary(&summary((1, 1000), (1, 501)));
    assert_eq!(
        text,
        r#"{"default":{"totalRequests":1,"totalAmount":10.00},"fallback":{"totalRequests":1,"totalAmount":5.01}}"#
    );
    assert_eq!(Body::Summary(summary((1, 1000), (1, 501))).text(), text);
    assert_eq!(
        render_summary(&summary((0, 0), (123456, 7))),
        r#"{"default":{"totalRequests":0,"totalAmount":0.00},"fallback":{"totalRequests":123456,"totalAmount":0.07}}"#
    );
    assert_eq!(
        render_summary(&summary((u64::MAX, u128::MAX), (2, 120))),
        format!(
            r#"{{"default":{{"totalRequests":18446744073709551615,"totalAmount":{}.{:02}}},"fallback":{{"totalRequests":2,"totalAmount":1.20}}}}"#,
            u128::MAX / 100,
            u128::MAX % 100
        )
    );
}

#[test]
fn payment_without_body_is_refused() {
    assert_eq!(
        payments_at(&payment_request(None), NOW, &vec![]),
        Step::Done(Response { status: 400, body: Body::InvalidRequest })
    );
}

#[test]
fn payment_is_published_as_a_fresh_job() {
    let request = payment_request(Some(PaymentBody {
        correlation_id: Some("pay-1".to_string()),
        amount: Some(Amount::from_micros(19_900_000)),
    }));
    let expected = Job::from_fields(
        Some("pay-1".to_string()),
        Some(Amount::from_micros(19_900_000)),
        Some(NOW.to_string()),
        Some(0),
    );
    assert_eq!(
        payments_at(&request, NOW, &vec![]),
        Step::Send(StoreRequest::One(StoreCommand::Publish { job: expected }))
    );
    assert_eq!(
        payments_at(&request, NOW, &vec![StoreReply::Count(1)]),
        Step::Done(Response { status: 200, body: Body::Enqueued })
    );
    assert_eq!(
        payments_at(&request, NOW, &vec![StoreReply::Failed]),
        Step::Done(Response { status: 500, body: Body::PublishFailed })
    );
}

#[test]
fn payment_with_a_missing_field_is_refused_and_nothing_is_published() {
    let refused = Step::Done(Response { status: 400, body: Body::InvalidRequest });
    let bodies = [
        PaymentBody { correlation_id: None, amount: None },
        PaymentBody { correlation_id: Some("pay-1".to_string()), amount: None },
        PaymentBody { correlation_id: None, amount: Some(Amount::from_micros(1)) },
    ];
    for body in bodies {
        let request = payment_request(Some(body));
        assert_eq!(payments_at(&request, NOW, &vec![]), refused);
        assert_eq!(payments_at(&request, NOW, &vec![StoreReply::Count(1)]), refused);
        assert_eq!(respond_at(&request, NOW, &vec![]), refused);
    }
    for text in ["{}", r#"{"correlationId":"a"}"#, r#"{"amount":1}"#, r#"{"correlationId":7,"amount":1}"#,
        r#"{"correlationId":"a","amount":"1"}"#, r#"{"correlationId":"a","amount":-1}"#] {
        let request = Request::parse("POST /payments HTTP/1.1").with_body(text);
        assert_eq!(payments_at(&request, NOW, &vec![]), refused, "{}", text);
    }
}

#[test]
fn payment_with_an_empty_id_and_no_amount_to_speak_of_is_still_a_payment() {
    let request = Request::parse("POST /payments HTTP/1.1")
        .with_body(r#"{"correlationId":"","amount":0}"#);
    let expected = Job::from_fields(
        Some(String::new()),
        Some(Amount::zero()),
        Some(NOW.to_string()),
        Some(0),
    );
    assert_eq!(
        payments_at(&request, NOW, &vec![]),
        Step::Send(StoreRequest::One(StoreCommand::Publish { job: expected }))
    );
}

#[test]
fn body_is_read_only_when_the_headers_tell_a_length() {
    let text = r#"{"correlationId":"a","amount":1}"#;
    let with = Request::parse("POST /payments HTTP/1.1").with_content(32, text);
    assert_eq!(
        with.body,
        Some(PaymentBody {
            correlation_id: Some("a".to_string()),
            amount: Some(Amount::from_micros(1_000_000)),
        })
    );
    let without = Request::parse("POST /payments?x=1 HTTP/1.1").with_content(0, text);
    assert_eq!(without, Request::parse("POST /payments?x=1 HTTP/1.1"));
    assert_eq!(without.body, None);
    assert_eq!(Request::parse("POST /payments HTTP/1.1").with_content(0, "null").body, None);
    assert_eq!(
        Request::parse("POST /payments HTTP/1.1").with_content(4, "null").body,
        Some(PaymentBody { correlation_id: None, amount: None })
    );
    assert_eq!(Request::parse("POST /payments HTTP/1.1").with_content(1, "").body, None);
}

#[test]
fn summary_request_passes_its_bounds_on() {
    let request = Request::parse("GET /payments-summary?from=2025-01-01T00:00:00Z HTTP/1.1");
    assert_eq!(
        payments_summary(&request, &vec![]),
        Step::Send(StoreRequest::One(StoreCommand::ReadRecords {
            from_millis: Some(1_735_689_600_000),
            to_millis: None,
        }))
    );
    assert_eq!(
        payments_summary(&request, &vec![StoreReply::Records(vec![])]),
        Step::Done(Response { status: 200, body: Body::Summary(summary((0, 0), (0, 0))) })
    );
    assert_eq!(
        payments_summary(&request, &vec![StoreReply::Failed]),
        Step::Done(Response { status: 500, body: Body::InternalError })
    );
}

#[test]
fn summary_request_without_bounds_reads_the_counters() {
    let request = Request::parse("GET /payments-summary HTTP/1.1");
    let replies = vec![
        StoreReply::Count(1),
        StoreReply::Total(10_000_000),
        StoreReply::Count(1),
        StoreReply::Total(5_005_000),
    ];
    assert_eq!(
        payments_summary(&request, &vec![StoreReply::Count(1)]),
        Step::Send(StoreRequest::One(StoreCommand::ReadAmount {
            processor: ovelha::payment::Processor::Default
        }))
    );
    assert_eq!(
        payments_summary(&request, &replies),
        Step::Done(Response { status: 200, body: Body::Summary(summary((1, 1000), (1, 501))) })
    );
}

#[test]
fn purge_request_clears_the_store() {
    let request = Request::parse("POST /purge-payments HTTP/1.1");
    assert_eq!(
        purge_payments(&request, &vec![]),
        Step::Send(StoreRequest::One(StoreCommand::Clear))
    );
    assert_eq!(
        purge_payments(&request, &vec![StoreReply::Done]),
        Step::Done(Response { status: 200, body: Body::Purged })
    );
    assert_eq!(
        purge_payments(&request, &vec![StoreReply::Failed]),
        Step::Done(Response { status: 500, body: Body::InternalError })
    );
}

#[test]
fn unknown_routes_are_not_found() {
    assert_eq!(not_found(), Response { status: 404, body: Body::NotFound });
    assert_eq!(
        respond_at(&Request::parse("GET / HTTP/1.1"), NOW, &vec![]),
        Step::Done(Response { status: 404, body: Body::NotFound })
    );
    assert_eq!(
        respond_at(&Request::new(), NOW, &vec![]),
        Step::Done(Response { status: 404, body: Body::NotFound })
    );
}

#[test]
fn respond_goes_by_the_route() {
    assert_eq!(
        respond_at(&Request::parse("POST /payments HTTP/1.1"), NOW, &vec![]),
        Step::Done(Response { status: 400, body: Body::InvalidRequest })
    );
    assert_eq!(
        respond_at(&Request::parse("POST /purge-payments HTTP/1.1"), NOW, &vec![]),
        Step::Send(StoreRequest::One(StoreCommand::Clear))
    );
    assert_eq!(
        respond_at(&Request::parse("GET /payments-summary?to=bad HTTP/1.1"), NOW, &vec![]),
        Step::Send(StoreRequest::One(StoreCommand::ReadRecords {
            from_millis: None,
            to_millis: None,
        }))
    );
}

#[test]
fn reason_phrases() {
    assert_eq!(status_text(200), "OK");
    assert_eq!(status_text(404), "Not Found");
    assert_eq!(status_text(500), "Internal Server Error");
    assert_eq!(status_text(400), "Unknown");
    assert_eq!(status_text(0), "Unknown");
}

#[test]
fn response_goes_over_the_wire_with_its_length_in_bytes() {
    assert_eq!(
        render_response(200, r#"{"message":"enqueued"}"#),
        "HTTP/1.1 200 OK\r\nContent-Type: application/json\r\nContent-Length: 22\r\n\r\n{\"message\":\"enqueued\"}"
    );
    assert_eq!(
        render_response(404, ""),
        "HTTP/1.1 404 Not Found\r\nContent-Type: application/json\r\nContent-Length: 0\r\n\r\n"
    );
    assert_eq!(
        render_response(400, "\u{e9}\u{2713}"),
        "HTTP/1.1 400 Unknown\r\nContent-Type: application/json\r\nContent-Length: 5\r\n\r\n\u{e9}\u{2713}"
    );
}

#[test]
fn payment_is_stamped_with_the_time_of_the_clock() {
    let request = payment_request(Some(PaymentBody {
        correlation_id: Some("pay-1".to_string()),
        amount: Some(Amount::from_micros(1_000_000)),
    }));
    for step in [payments(&request, &vec![]), respond(&request, &vec![])] {
        match step {
            Step::Send(StoreRequest::One(StoreCommand::Publish { job })) => {
                assert_eq!(job.correlation_id, "pay-1");
                assert_eq!(job.amount, Amount::from_micros(1_000_000));
                assert_eq!(job.retry_count, 0);
                assert_eq!(job.requested_at.len(), "2025-07-15T12:34:56.789Z".len());
                assert!(job.requested_at.ends_with('Z'));
                match window(Some(&job.requested_at), None) {
                    Window::Between { from_millis: Some(millis), to_millis: None } => {
                        assert!(millis > 1_735_689_600_000)
                    }
                    other => panic!("the clock's text was not read back: {:?}", other),
                }
            }
            other => panic!("unexpected step {:?}", other),
        }
    }
    assert_eq!(
        payments(&request, &vec![StoreReply::Count(1)]),
        Step::Done(Response { status: 200, body: Body::Enqueued })
    );
    assert_eq!(
        respond(&payment_request(None), &vec![]),
        Step::Done(Response { status: 400, body: Body::InvalidRequest })
    );
    assert_eq!(
        respond(&Request::parse("GET /nowhere HTTP/1.1"), &vec![]),
        Step::Done(Response { status: 404, body: Body::NotFound })
    );
}

#[test]
fn response_renders_itself() {
    assert_eq!(
        not_found().render(),
        "HTTP/1.1 404 Not Found\r\nContent-Type: application/json\r\nContent-Length: 21\r\n\r\n{\"error\":\"Not Found\"}"
    );
    assert_eq!(
        Response { status: 200, body: Body::Purged }.render(),
        "HTTP/1.1 200 OK\r\nContent-Type: application/json\r\nContent-Length: 20\r\n\r\n{\"message\":\"purged\"}"
    );
}

#[test]
fn body_of_a_request_is_read_as_json() {
    let request = Request::parse("POST /payments HTTP/1.1")
        .with_body(r#"{"correlationId":"4a7901b8","amount":19.90}"#);
    assert_eq!(request.route, "POST /payments");
    assert_eq!(
        request.body,
        Some(PaymentBody {
            correlation_id: Some("4a7901b8".to_string()),
            amount: Some(Amount::from_micros(19_900_000)),
        })
    );
    let request = Request::parse("POST /payments?x=1 HTTP/1.1").with_body("{}");
    assert_eq!(request.params.len(), 1);
    assert_eq!(request.body, Some(PaymentBody { correlation_id: None, amount: None }));
    assert_eq!(Request::parse("POST /payments HTTP/1.1").with_body("").body, None);
    assert_eq!(Request::parse("POST /payments HTTP/1.1").with_body("{").body, None);
}

#[test]
fn summary_request_answers_500_when_a_counter_read_fails() {
    let request = Request::parse("GET /payments-summary HTTP/1.1");
    let failed = Step::Done(Response { status: 500, body: Body::InternalError });
    assert_eq!(payments_summary(&request, &vec![StoreReply::Failed]), failed);
    assert_eq!(
        payments_summary(
            &request,
            &vec![StoreReply::Count(1), StoreReply::Total(5), StoreReply::Count(1), StoreReply::Failed]
        ),
        failed
    );
    assert_eq!(payments_summary(&request, &vec![StoreReply::Done]), failed);
    assert_eq!(
        payments_summary(
            &request,
            &vec![StoreReply::Count(0), StoreReply::Total(0), StoreReply::Count(0), StoreReply::Total(0)]
        ),
        Step::Done(Response { status: 200, body: Body::Summary(summary((0, 0), (0, 0))) })
    );
}
