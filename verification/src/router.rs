//! What the gateway answers to a request.
//!
//! Like the operations of [`Store`], the handlers are functions of the
//! replies that the shared store has given so far: each answers with the
//! next request to send to the store, or with the response.

use crate::clock::now_rfc3339;
use crate::payment::{BodyView, Job, JobView};
use crate::request::{param_in, HttpView, Request};
use crate::store::{
    publish_step, purge_step, replies_view, summary_step, window_of, ReplyView, Step, StepView,
    Store, StoreReply, Summary,
};
use crate::text::{decimal, render_decimal, same_text};
use vstd::prelude::*;
use vstd::string::StringExecFns;
use vstd::utf8::encode_utf8;

verus! {

/// What a response says.
#[derive(Clone, Copy, PartialEq, Eq, Structural, Debug)]
pub enum Body {
    /// The payment was handed on.
    Enqueued,
    /// The store was cleared.
    Purged,
    /// The payments on record.
    Summary(Summary),
    /// The request has no body that can be read.
    InvalidRequest,
    /// The payment could not be handed on.
    PublishFailed,
    /// The store failed.
    InternalError,
    /// Nothing answers to the route.
    NotFound,
}

/// A response: a status and what it says.
#[derive(Clone, Copy, PartialEq, Eq, Structural, Debug)]
pub struct Response {
    pub status: u16,
    pub body: Body,
}

/// What a request asks for.
#[derive(Clone, Copy, PartialEq, Eq, Structural, Debug)]
pub enum Route {
    /// `POST /payments`: take in a payment.
    Payments,
    /// `GET /payments-summary`: report the payments on record.
    PaymentsSummary,
    /// `POST /purge-payments`: clear the store.
    PurgePayments,
    /// Anything else.
    NotFound,
}

/// What a route text asks for.
pub open spec fn route_of(route: Seq<char>) -> Route {
    if route == "POST /payments"@ {
        Route::Payments
    } else if route == "GET /payments-summary"@ {
        Route::PaymentsSummary
    } else if route == "POST /purge-payments"@ {
        Route::PurgePayments
    } else {
        Route::NotFound
    }
}

/// An amount of hundredths written as a number with two decimal places.
pub open spec fn cents_text(cents: nat) -> Seq<char> {
    decimal(cents / 100) + seq!['.'] + decimal(cents % 100 / 10) + decimal(cents % 10)
}

/// One processor's part of a summary, written as a JSON object.
pub open spec fn totals_text(requests: nat, cents: nat) -> Seq<char> {
    "{\"totalRequests\":"@ + decimal(requests) + ",\"totalAmount\":"@ + cents_text(cents) + "}"@
}

/// A summary written as a JSON object.
pub open spec fn summary_text(summary: Summary) -> Seq<char> {
    "{\"default\":"@ + totals_text(
        summary.default.total_requests as nat,
        summary.default.total_amount_cents as nat,
    ) + ",\"fallback\":"@ + totals_text(
        summary.fallback.total_requests as nat,
        summary.fallback.total_amount_cents as nat,
    ) + "}"@
}

impl Body {
    /// The body written as JSON text.
    pub open spec fn spec_text(self) -> Seq<char> {
        match self {
            Body::Enqueued => "{\"message\":\"enqueued\"}"@,
            Body::Purged => "{\"message\":\"purged\"}"@,
            Body::Summary(summary) => summary_text(summary),
            Body::InvalidRequest => "{\"error\":\"Invalid request\"}"@,
            Body::PublishFailed => "{\"error\":\"Redis publish failed\"}"@,
            Body::InternalError => "{\"error\":\"Internal Server Error\"}"@,
            Body::NotFound => "{\"error\":\"Not Found\"}"@,
        }
    }

    /// The body written as JSON text.
    pub fn text(&self) -> (text: String)
        ensures
            text@ == self.spec_text(),
    {
        match self {
            Body::Enqueued => String::from_str("{\"message\":\"enqueued\"}"),
            Body::Purged => String::from_str("{\"message\":\"purged\"}"),
            Body::Summary(summary) => render_summary(summary),
            Body::InvalidRequest => String::from_str("{\"error\":\"Invalid request\"}"),
            Body::PublishFailed => String::from_str("{\"error\":\"Redis publish failed\"}"),
            Body::InternalError => String::from_str("{\"error\":\"Internal Server Error\"}"),
            Body::NotFound => String::from_str("{\"error\":\"Not Found\"}"),
        }
    }
}

fn render_cents(cents: u128) -> (text: String)
    ensures
        text@ == cents_text(cents as nat),
{
    let mut text = render_decimal(cents / 100);
    proof {
        reveal_strlit(".");
        assert("."@ =~= seq!['.']);
    }
    text.append(".");
    let tenths = render_decimal(cents % 100 / 10);
    text.append(tenths.as_str());
    let units = render_decimal(cents % 10);
    text.append(units.as_str());
    text
}

fn render_totals(requests: u64, cents: u128) -> (text: String)
    ensures
        text@ == totals_text(requests as nat, cents as nat),
{
    let mut text = String::from_str("{\"totalRequests\":");
    let count = render_decimal(requests as u128);
    text.append(count.as_str());
    text.append(",\"totalAmount\":");
    let amount = render_cents(cents);
    text.append(amount.as_str());
    text.append("}");
    text
}

/// Writes a summary as a JSON object.
pub fn render_summary(summary: &Summary) -> (text: String)
    ensures
        text@ == summary_text(*summary),
{
    let mut text = String::from_str("{\"default\":");
    let default = render_totals(summary.default.total_requests, summary.default.total_amount_cents);
    text.append(default.as_str());
    text.append(",\"fallback\":");
    let fallback = render_totals(
        summary.fallback.total_requests,
        summary.fallback.total_amount_cents,
    );
    text.append(fallback.as_str());
    text.append("}");
    text
}

/// What a request asks for.
pub fn route(request: &Request) -> (route: Route)
    ensures
        route == route_of(request@.route),
{
    let text = request.route.as_str();
    if same_text(text, "POST /payments") {
        Route::Payments
    } else if same_text(text, "GET /payments-summary") {
        Route::PaymentsSummary
    } else if same_text(text, "POST /purge-payments") {
        Route::PurgePayments
    } else {
        Route::NotFound
    }
}

/// The job that a payment request asks to hand on: a fresh job for the
/// payment and the amount that the body names, accepted at `requested_at`.
pub open spec fn job_for(
    correlation_id: Seq<char>,
    amount: nat,
    requested_at: Seq<char>,
) -> JobView {
    JobView { correlation_id, amount, requested_at, retry_count: 0 }
}

/// How taking in a payment goes on after `replies`. A request without a
/// readable body, or with a body that does not name both the payment and a
/// readable amount, is refused at once and nothing is published. Else the
/// job is published, and the response says whether that worked.
pub open spec fn payments_step(
    request: HttpView,
    requested_at: Seq<char>,
    replies: Seq<ReplyView>,
) -> StepView<Response> {
    match request.body {
        Some(BodyView { correlation_id: Some(id), amount: Some(amount) }) => match publish_step(
            job_for(id, amount, requested_at),
            replies,
        ) {
            StepView::Send(request) => StepView::Send(request),
            StepView::Done(Ok(_)) => StepView::Done(Response { status: 200, body: Body::Enqueued }),
            StepView::Done(Err(_)) => StepView::Done(
                Response { status: 500, body: Body::PublishFailed },
            ),
        },
        _ => StepView::Done(Response { status: 400, body: Body::InvalidRequest }),
    }
}

/// How reporting the payments on record goes on after `replies`. The
/// parameters `from` and `to`, where given, bound the summary.
pub open spec fn payments_summary_step(request: HttpView, replies: Seq<ReplyView>) -> StepView<
    Response,
> {
    let window = window_of(param_in(request.params, "from"@), param_in(request.params, "to"@));
    match summary_step(window, replies) {
        StepView::Send(request) => StepView::Send(request),
        StepView::Done(Ok(summary)) => StepView::Done(
            Response { status: 200, body: Body::Summary(summary) },
        ),
        StepView::Done(Err(_)) => StepView::Done(
            Response { status: 500, body: Body::InternalError },
        ),
    }
}

/// How clearing the store goes on after `replies`.
pub open spec fn purge_payments_step(replies: Seq<ReplyView>) -> StepView<Response> {
    match purge_step(replies) {
        StepView::Send(request) => StepView::Send(request),
        StepView::Done(Ok(_)) => StepView::Done(Response { status: 200, body: Body::Purged }),
        StepView::Done(Err(_)) => StepView::Done(
            Response { status: 500, body: Body::InternalError },
        ),
    }
}

/// How answering a request goes on after `replies`.
pub open spec fn respond_step(
    request: HttpView,
    requested_at: Seq<char>,
    replies: Seq<ReplyView>,
) -> StepView<Response> {
    match route_of(request.route) {
        Route::Payments => payments_step(request, requested_at, replies),
        Route::PaymentsSummary => payments_summary_step(request, replies),
        Route::PurgePayments => purge_payments_step(replies),
        Route::NotFound => StepView::Done(Response { status: 404, body: Body::NotFound }),
    }
}

/// How taking in a payment goes on after `replies`: see [`payments_step`].
/// `requested_at` is the time of acceptance as RFC 3339 text.
pub fn payments_at(request: &Request, requested_at: &str, replies: &Vec<StoreReply>) -> (step:
    Step<Response>)
    ensures
        step@ == payments_step(request@, requested_at@, replies_view(replies@)),
{
    let refused = Step::Done(Response { status: 400, body: Body::InvalidRequest });
    let body = match &request.body {
        Some(body) => body,
        None => {
            return refused;
        },
    };
    let (correlation_id, amount) = match (&body.correlation_id, body.amount) {
        (Some(correlation_id), Some(amount)) => (correlation_id, amount),
        _ => {
            return refused;
        },
    };
    let job = Job::from_fields(
        Some(correlation_id.clone()),
        Some(amount),
        Some(String::from_str(requested_at)),
        None,
    );
    assert(job@ == job_for(correlation_id@, amount@, requested_at@));
    match Store::new().publish(&job, replies) {
        Step::Send(request) => Step::Send(request),
        Step::Done(Ok(_)) => Step::Done(Response { status: 200, body: Body::Enqueued }),
        Step::Done(Err(_)) => Step::Done(Response { status: 500, body: Body::PublishFailed }),
    }
}

/// How reporting the payments on record goes on after `replies`: see
/// [`payments_summary_step`].
pub fn payments_summary(request: &Request, replies: &Vec<StoreReply>) -> (step: Step<Response>)
    ensures
        step@ == payments_summary_step(request@, replies_view(replies@)),
{
    let from = request.param("from");
    let to = request.param("to");
    match Store::new().summary(from, to, replies) {
        Step::Send(request) => Step::Send(request),
        Step::Done(Ok(summary)) => Step::Done(
            Response { status: 200, body: Body::Summary(summary) },
        ),
        Step::Done(Err(_)) => Step::Done(Response { status: 500, body: Body::InternalError }),
    }
}

/// How clearing the store goes on after `replies`.
pub fn purge_payments(request: &Request, replies: &Vec<StoreReply>) -> (step: Step<Response>)
    ensures
        step@ == purge_payments_step(replies_view(replies@)),
{
    match Store::new().purge_all(replies) {
        Step::Send(request) => Step::Send(request),
        Step::Done(Ok(_)) => Step::Done(Response { status: 200, body: Body::Purged }),
        Step::Done(Err(_)) => Step::Done(Response { status: 500, body: Body::InternalError }),
    }
}

/// The response to a request that no route answers.
pub fn not_found() -> (response: Response)
    ensures
        response == (Response { status: 404, body: Body::NotFound }),
{
    Response { status: 404, body: Body::NotFound }
}

/// How answering a request goes on after `replies`: see [`respond_step`].
/// `requested_at` is the time of acceptance as RFC 3339 text.
pub fn respond_at(request: &Request, requested_at: &str, replies: &Vec<StoreReply>) -> (step:
    Step<Response>)
    ensures
        step@ == respond_step(request@, requested_at@, replies_view(replies@)),
{
    match route(request) {
        Route::Payments => payments_at(request, requested_at, replies),
        Route::PaymentsSummary => payments_summary(request, replies),
        Route::PurgePayments => purge_payments(request, replies),
        Route::NotFound => Step::Done(not_found()),
    }
}

/// How taking in a payment goes on after `replies`, with the time that the
/// clock shows now as the time of acceptance.
pub fn payments(request: &Request, replies: &Vec<StoreReply>) -> (step: Step<Response>)
    ensures
        exists|now: Seq<char>| step@ == payments_step(request@, now, replies_view(replies@)),
{
    let now = now_rfc3339();
    let step = payments_at(request, now.as_str(), replies);
    assert(step@ == payments_step(request@, now@, replies_view(replies@)));
    step
}

/// How answering a request goes on after `replies`, with the time that the
/// clock shows now as the time of acceptance.
pub fn respond(request: &Request, replies: &Vec<StoreReply>) -> (step: Step<Response>)
    ensures
        exists|now: Seq<char>| step@ == respond_step(request@, now, replies_view(replies@)),
{
    let now = now_rfc3339();
    let step = respond_at(request, now.as_str(), replies);
    assert(step@ == respond_step(request@, now@, replies_view(replies@)));
    step
}

impl Response {
    /// Writes the response as it goes over the wire.
    pub fn render(&self) -> (text: String)
        ensures
            text@ == wire_text(self.status, self.body.spec_text()),
    {
        let body = self.body.text();
        render_response(self.status, body.as_str())
    }
}

/// The reason phrase that goes with a status.
pub open spec fn reason_of(status: u16) -> Seq<char> {
    if status == 200 {
        "OK"@
    } else if status == 404 {
        "Not Found"@
    } else if status == 500 {
        "Internal Server Error"@
    } else {
        "Unknown"@
    }
}

/// The reason phrase that goes with a status.
pub fn status_text(status: u16) -> (text: &'static str)
    ensures
        text@ == reason_of(status),
{
    if status == 200 {
        "OK"
    } else if status == 404 {
        "Not Found"
    } else if status == 500 {
        "Internal Server Error"
    } else {
        "Unknown"
    }
}

/// A response as it goes over the wire: the status line, the two headers
/// that tell kind and length of the body, an empty line, the body.
pub open spec fn wire_text(status: u16, body: Seq<char>) -> Seq<char> {
    "HTTP/1.1 "@ + decimal(status as nat) + " "@ + reason_of(status)
        + "\r\nContent-Type: application/json\r\nContent-Length: "@ + decimal(
        encode_utf8(body).len(),
    ) + "\r\n\r\n"@ + body
}

/// Writes a response as it goes over the wire.
pub fn render_response(status: u16, body: &str) -> (text: String)
    ensures
        text@ == wire_text(status, body@),
{
    let mut text = String::from_str("HTTP/1.1 ");
    let code = render_decimal(status as u128);
    text.append(code.as_str());
    text.append(" ");
    text.append(status_text(status));
    text.append("\r\nContent-Type: application/json\r\nContent-Length: ");
    let length = render_decimal(body.as_bytes().len() as u128);
    text.append(length.as_str());
    text.append("\r\n\r\n");
    text.append(body);
    text
}

} // verus!
