//! How the gateway's values go over the wire: jobs and records as JSON
//! documents, commands as the words sent to the store, and what the store
//! sends back as replies.

use crate::amount::Amount;
use crate::json::{
    count_field, is_valid, json_count_of, json_is_valid, json_number_of, json_quoted,
    json_text_of, number_field, quote, text_field,
};
use crate::payment::{BodyView, Job, JobView, PaymentBody, PaymentRecord, RecordView};
use crate::store::{
    amount_key_of, entries_view, marker_key_of, requests_key_of, CommandView, EntryView,
    LogEntry, ReplyView, StoreCommand, StoreReply,
};
use crate::decimal::{micros_of_text, read_micros};
use crate::text::{
    chars_of, decimal, micros_text, millis_text, read_u64, render_decimal, render_millis, u64_of,
};
use vstd::prelude::*;
use vstd::string::StringExecFns;

verus! {

/// The JSON document that is published for a job, put together from its
/// fields: the two texts as JSON strings, the amount in units of the
/// currency, the retry count as a whole number.
pub open spec fn job_frame(
    correlation_id: Seq<char>,
    amount: nat,
    requested_at: Seq<char>,
    retry_count: nat,
) -> Seq<char> {
    "{\"correlationId\":"@ + correlation_id + ",\"amount\":"@ + micros_text(amount)
        + ",\"requestedAt\":"@ + requested_at + ",\"_retry_count\":"@ + decimal(retry_count)
        + "}"@
}

/// The JSON document that is posted to a processor for a job, put together
/// from its fields: the two texts as JSON strings, the amount in units of
/// the currency.
pub open spec fn processor_frame(
    correlation_id: Seq<char>,
    amount: nat,
    requested_at: Seq<char>,
) -> Seq<char> {
    "{\"correlationId\":"@ + correlation_id + ",\"amount\":"@ + micros_text(amount)
        + ",\"requestedAt\":"@ + requested_at + "}"@
}

/// The JSON document that is kept in the payment log for a record, put
/// together from its fields: the three texts as JSON strings, the amount in
/// units of the currency.
pub open spec fn record_frame(
    processor: Seq<char>,
    correlation_id: Seq<char>,
    amount: nat,
    timestamp: Seq<char>,
) -> Seq<char> {
    "{\"processor\":"@ + processor + ",\"correlationId\":"@ + correlation_id + ",\"amount\":"@
        + micros_text(amount) + ",\"timestamp\":"@ + timestamp + "}"@
}

/// A job as the JSON document that is published.
pub open spec fn job_text(job: JobView) -> Seq<char> {
    job_frame(
        json_quoted(job.correlation_id),
        job.amount,
        json_quoted(job.requested_at),
        job.retry_count,
    )
}

/// A job as the JSON document that is posted to a processor.
pub open spec fn processor_text(job: JobView) -> Seq<char> {
    processor_frame(json_quoted(job.correlation_id), job.amount, json_quoted(job.requested_at))
}

/// A record as the JSON document that is kept in the payment log.
pub open spec fn record_text(record: RecordView) -> Seq<char> {
    record_frame(
        json_quoted(record.processor.spec_name()),
        json_quoted(record.correlation_id),
        record.amount,
        json_quoted(record.timestamp),
    )
}

/// Puts the JSON document that is published for a job together from its
/// fields; the two texts are JSON strings already.
pub fn frame_job(
    correlation_id: &str,
    amount: Amount,
    requested_at: &str,
    retry_count: u64,
) -> (document: String)
    ensures
        document@ == job_frame(correlation_id@, amount@, requested_at@, retry_count as nat),
{
    let mut document = String::from_str("{\"correlationId\":");
    document.append(correlation_id);
    document.append(",\"amount\":");
    document.append(amount.text().as_str());
    document.append(",\"requestedAt\":");
    document.append(requested_at);
    document.append(",\"_retry_count\":");
    document.append(render_decimal(retry_count as u128).as_str());
    document.append("}");
    document
}

/// Puts the JSON document that is posted to a processor together from the
/// fields of a job; the two texts are JSON strings already.
pub fn frame_for_processor(correlation_id: &str, amount: Amount, requested_at: &str) -> (document:
    String)
    ensures
        document@ == processor_frame(correlation_id@, amount@, requested_at@),
{
    let mut document = String::from_str("{\"correlationId\":");
    document.append(correlation_id);
    document.append(",\"amount\":");
    document.append(amount.text().as_str());
    document.append(",\"requestedAt\":");
    document.append(requested_at);
    document.append("}");
    document
}

/// Puts the JSON document that is kept in the payment log together from
/// the fields of a record; the three texts are JSON strings already.
pub fn frame_record(
    processor: &str,
    correlation_id: &str,
    amount: Amount,
    timestamp: &str,
) -> (document: String)
    ensures
        document@ == record_frame(processor@, correlation_id@, amount@, timestamp@),
{
    let mut document = String::from_str("{\"processor\":");
    document.append(processor);
    document.append(",\"correlationId\":");
    document.append(correlation_id);
    document.append(",\"amount\":");
    document.append(amount.text().as_str());
    document.append(",\"timestamp\":");
    document.append(timestamp);
    document.append("}");
    document
}

/// Writes a job as the JSON document that is published.
pub fn encode_job(job: &Job) -> (document: String)
    ensures
        document@ == job_text(job@),
{
    let correlation_id = quote(job.correlation_id.as_str());
    let requested_at = quote(job.requested_at.as_str());
    frame_job(correlation_id.as_str(), job.amount, requested_at.as_str(), job.retry_count)
}

/// Writes a job as the JSON document that is posted to a processor.
pub fn encode_for_processor(job: &Job) -> (document: String)
    ensures
        document@ == processor_text(job@),
{
    let correlation_id = quote(job.correlation_id.as_str());
    let requested_at = quote(job.requested_at.as_str());
    frame_for_processor(correlation_id.as_str(), job.amount, requested_at.as_str())
}

/// Writes a record as the JSON document that is kept in the payment log.
pub fn encode_record(record: &PaymentRecord) -> (document: String)
    ensures
        document@ == record_text(record@),
{
    let processor = quote(record.processor.name());
    let correlation_id = quote(record.correlation_id.as_str());
    let timestamp = quote(record.timestamp.as_str());
    frame_record(processor.as_str(), correlation_id.as_str(), record.amount, timestamp.as_str())
}

/// The amount that a JSON object holds under `field`: the number found
/// there, if it is written as plain decimal digits with or without a
/// point, is not negative, and is not too large.
pub open spec fn amount_under(document: Seq<char>, field: Seq<char>) -> Option<nat> {
    match json_number_of(document, field) {
        Some(number) => Amount::of_text(number),
        None => None,
    }
}

fn amount_field(document: &str, field: &str) -> (amount: Option<Amount>)
    ensures
        match amount {
            Some(a) => amount_under(document@, field@) == Some(a@),
            None => amount_under(document@, field@) is None,
        },
{
    match number_field(document, field) {
        Some(number) => Amount::parse(number.as_str()),
        None => None,
    }
}

/// The job that a published document describes: `None` if it is no JSON
/// document at all; else a job in which each field that the document lacks,
/// or gives in another shape, takes its default.
pub open spec fn job_of_document(document: Seq<char>) -> Option<JobView> {
    if json_is_valid(document) {
        Some(
            JobView {
                correlation_id: match json_text_of(document, "correlationId"@) {
                    Some(id) => id,
                    None => Seq::empty(),
                },
                amount: match amount_under(document, "amount"@) {
                    Some(amount) => amount,
                    None => 0,
                },
                requested_at: match json_text_of(document, "requestedAt"@) {
                    Some(at) => at,
                    None => Seq::empty(),
                },
                retry_count: match json_count_of(document, "_retry_count"@) {
                    Some(count) => count as nat,
                    None => 0,
                },
            },
        )
    } else {
        None
    }
}

/// Reads a published document as a job.
pub fn decode_job(document: &str) -> (job: Option<Job>)
    ensures
        match job {
            Some(j) => job_of_document(document@) == Some(j@),
            None => job_of_document(document@) is None,
        },
{
    if !is_valid(document) {
        return None;
    }
    Some(
        Job::from_fields(
            text_field(document, "correlationId"),
            amount_field(document, "amount"),
            text_field(document, "requestedAt"),
            count_field(document, "_retry_count"),
        ),
    )
}

/// What a summary reads of a member of the payment log: `None` if the
/// member is no JSON document.
pub open spec fn entry_of_document(document: Seq<char>) -> Option<EntryView> {
    if json_is_valid(document) {
        Some(
            EntryView {
                processor: json_text_of(document, "processor"@),
                amount: amount_under(document, "amount"@),
            },
        )
    } else {
        None
    }
}

/// Reads a member of the payment log.
pub fn decode_entry(document: &str) -> (entry: Option<LogEntry>)
    ensures
        match entry {
            Some(e) => entry_of_document(document@) == Some(e@),
            None => entry_of_document(document@) is None,
        },
{
    if !is_valid(document) {
        return None;
    }
    Some(
        LogEntry {
            processor: text_field(document, "processor"),
            amount: amount_field(document, "amount"),
        },
    )
}

/// What the body of a payment request gives: `None` if the body is no JSON
/// document.
pub open spec fn body_of_document(document: Seq<char>) -> Option<BodyView> {
    if json_is_valid(document) {
        Some(
            BodyView {
                correlation_id: json_text_of(document, "correlationId"@),
                amount: amount_under(document, "amount"@),
            },
        )
    } else {
        None
    }
}

/// Reads the body of a payment request.
pub fn decode_body(document: &str) -> (body: Option<PaymentBody>)
    ensures
        match body {
            Some(b) => body_of_document(document@) == Some(b@),
            None => body_of_document(document@) is None,
        },
{
    if !is_valid(document) {
        return None;
    }
    Some(
        PaymentBody {
            correlation_id: text_field(document, "correlationId"),
            amount: amount_field(document, "amount"),
        },
    )
}

/// A bound of a range of scores as the store reads it: the score in
/// seconds, or the given word for an open bound.
pub open spec fn bound_text(millis: Option<i64>, open: Seq<char>) -> Seq<char> {
    match millis {
        Some(millis) => millis_text(millis as int),
        None => open,
    }
}

/// The words that are sent to the store for a command: the store's name
/// for it, then its arguments. Scores go in seconds, amounts in units of
/// the currency.
pub open spec fn words_of(command: CommandView) -> Seq<Seq<char>> {
    match command {
        CommandView::ClaimMarker { correlation_id } => seq![
            "SETNX"@,
            marker_key_of(correlation_id),
            "1"@,
        ],
        CommandView::ExpireMarker { correlation_id, seconds } => seq![
            "EXPIRE"@,
            marker_key_of(correlation_id),
            decimal(seconds as nat),
        ],
        CommandView::ReadMarker { correlation_id } => seq!["GET"@, marker_key_of(correlation_id)],
        CommandView::AppendRecord { record, score_millis } => seq![
            "ZADD"@,
            "payments_log"@,
            millis_text(score_millis as int),
            record_text(record),
        ],
        CommandView::ReadRecords { from_millis, to_millis } => seq![
            "ZRANGEBYSCORE"@,
            "payments_log"@,
            bound_text(from_millis, "-inf"@),
            bound_text(to_millis, "+inf"@),
        ],
        CommandView::AddRequests { processor, by } => seq![
            "INCRBY"@,
            requests_key_of(processor),
            decimal(by as nat),
        ],
        CommandView::ReadRequests { processor } => seq!["GET"@, requests_key_of(processor)],
        CommandView::AddAmount { processor, amount } => seq![
            "INCRBYFLOAT"@,
            amount_key_of(processor),
            micros_text(amount),
        ],
        CommandView::ReadAmount { processor } => seq!["GET"@, amount_key_of(processor)],
        CommandView::Clear => seq!["FLUSHDB"@],
        CommandView::Publish { job } => seq!["PUBLISH"@, "payments"@, job_text(job)],
    }
}

/// The contents of a list of texts.
pub open spec fn texts_view(texts: Seq<String>) -> Seq<Seq<char>> {
    Seq::new(texts.len(), |i: int| texts[i]@)
}

fn bound(millis: Option<i64>, open: &str) -> (text: String)
    ensures
        text@ == bound_text(millis, open@),
{
    match millis {
        Some(millis) => render_millis(millis),
        None => String::from_str(open),
    }
}

impl StoreCommand {
    /// The words that are sent to the store for the command.
    pub fn words(&self) -> (words: Vec<String>)
        ensures
            texts_view(words@) == words_of(self@),
    {
        let mut words: Vec<String> = Vec::new();
        let key = self.key();
        match self {
            StoreCommand::ClaimMarker { .. } => {
                words.push(String::from_str("SETNX"));
                words.push(key.unwrap());
                words.push(String::from_str("1"));
            },
            StoreCommand::ExpireMarker { seconds, .. } => {
                words.push(String::from_str("EXPIRE"));
                words.push(key.unwrap());
                words.push(render_decimal(*seconds as u128));
            },
            StoreCommand::ReadMarker { .. } => {
                words.push(String::from_str("GET"));
                words.push(key.unwrap());
            },
            StoreCommand::AppendRecord { record, score_millis } => {
                words.push(String::from_str("ZADD"));
                words.push(key.unwrap());
                words.push(render_millis(*score_millis));
                words.push(encode_record(record));
            },
            StoreCommand::ReadRecords { from_millis, to_millis } => {
                words.push(String::from_str("ZRANGEBYSCORE"));
                words.push(key.unwrap());
                words.push(bound(*from_millis, "-inf"));
                words.push(bound(*to_millis, "+inf"));
            },
            StoreCommand::AddRequests { by, .. } => {
                words.push(String::from_str("INCRBY"));
                words.push(key.unwrap());
                words.push(render_decimal(*by as u128));
            },
            StoreCommand::ReadRequests { .. } => {
                words.push(String::from_str("GET"));
                words.push(key.unwrap());
            },
            StoreCommand::AddAmount { amount, .. } => {
                words.push(String::from_str("INCRBYFLOAT"));
                words.push(key.unwrap());
                words.push(amount.text());
            },
            StoreCommand::ReadAmount { .. } => {
                words.push(String::from_str("GET"));
                words.push(key.unwrap());
            },
            StoreCommand::Clear => {
                words.push(String::from_str("FLUSHDB"));
            },
            StoreCommand::Publish { job } => {
                words.push(String::from_str("PUBLISH"));
                words.push(String::from_str(crate::store::channel()));
                words.push(encode_job(job));
            },
        }
        assert(texts_view(words@) =~= words_of(self@));
        words
    }
}

/// What came back from the store, before it is known what it means.
#[derive(Debug, PartialEq, Eq)]
pub enum RawReply {
    /// Nothing: the store holds nothing under the key.
    Nothing,
    /// A whole number.
    Number(i64),
    /// A text.
    Text(String),
    /// A list of texts.
    List(Vec<String>),
    /// A failure of the store, or of the way to it, or a reply of another shape.
    Failed,
}

/// The mathematical content of a [`RawReply`].
pub enum RawView {
    Nothing,
    Number(i64),
    Text(Seq<char>),
    List(Seq<Seq<char>>),
    Failed,
}

impl View for RawReply {
    type V = RawView;

    open spec fn view(&self) -> RawView {
        match self {
            RawReply::Nothing => RawView::Nothing,
            RawReply::Number(number) => RawView::Number(*number),
            RawReply::Text(text) => RawView::Text(text@),
            RawReply::List(texts) => RawView::List(texts_view(texts@)),
            RawReply::Failed => RawView::Failed,
        }
    }
}

/// The total, in millionths, that a text of the store denotes.
pub open spec fn total_of_text(text: Seq<char>) -> ReplyView {
    match micros_of_text(text) {
        Some(micros) => if micros <= u128::MAX {
            ReplyView::Total(micros as u128)
        } else {
            ReplyView::Failed
        },
        None => ReplyView::Failed,
    }
}

/// The count that a whole number of the store denotes.
pub open spec fn count_of_number(number: i64) -> ReplyView {
    if number >= 0 {
        ReplyView::Count(number as u64)
    } else {
        ReplyView::Failed
    }
}

/// What the members of the payment log give, one by one.
pub open spec fn entries_of_members(members: Seq<Seq<char>>) -> Seq<Option<EntryView>> {
    Seq::new(members.len(), |i: int| entry_of_document(members[i]))
}

/// What the store's reply to a command means. A counter that the store
/// does not hold stands at nothing. A reply of a shape that the command
/// does not call for counts as a failure.
pub open spec fn reply_of(command: CommandView, raw: RawView) -> ReplyView {
    match (command, raw) {
        (CommandView::ClaimMarker { .. }, RawView::Number(number)) => if number == 1 {
            ReplyView::Flag(true)
        } else if number == 0 {
            ReplyView::Flag(false)
        } else {
            ReplyView::Failed
        },
        (CommandView::ExpireMarker { .. }, RawView::Number(_)) => ReplyView::Done,
        (CommandView::AppendRecord { .. }, RawView::Number(_)) => ReplyView::Done,
        (CommandView::ReadMarker { .. }, RawView::Text(_)) => ReplyView::Flag(true),
        (CommandView::ReadMarker { .. }, RawView::Nothing) => ReplyView::Flag(false),
        (CommandView::AddRequests { .. }, RawView::Number(number)) => count_of_number(number),
        (CommandView::Publish { .. }, RawView::Number(number)) => count_of_number(number),
        (CommandView::ReadRequests { .. }, RawView::Text(text)) => match u64_of(text) {
            Some(count) => ReplyView::Count(count),
            None => ReplyView::Failed,
        },
        (CommandView::ReadRequests { .. }, RawView::Nothing) => ReplyView::Count(0),
        (CommandView::ReadAmount { .. }, RawView::Nothing) => ReplyView::Total(0),
        (CommandView::AddAmount { .. }, RawView::Text(text)) => total_of_text(text),
        (CommandView::ReadAmount { .. }, RawView::Text(text)) => total_of_text(text),
        (CommandView::ReadRecords { .. }, RawView::List(members)) => ReplyView::Records(
            entries_of_members(members),
        ),
        (CommandView::Clear, RawView::Text(_)) => ReplyView::Done,
        _ => ReplyView::Failed,
    }
}

fn read_total(text: &str) -> (reply: StoreReply)
    ensures
        reply@ == total_of_text(text@),
{
    let chars = chars_of(text);
    assert(chars@.subrange(0, chars.len() as int) =~= text@);
    match read_micros(&chars, 0, chars.len()) {
        Some(micros) => StoreReply::Total(micros),
        None => StoreReply::Failed,
    }
}

fn read_count(number: i64) -> (reply: StoreReply)
    ensures
        reply@ == count_of_number(number),
{
    if number >= 0 {
        StoreReply::Count(number as u64)
    } else {
        StoreReply::Failed
    }
}

fn read_members(members: &Vec<String>) -> (entries: Vec<Option<LogEntry>>)
    ensures
        entries_view(entries@) == entries_of_members(texts_view(members@)),
{
    let mut entries: Vec<Option<LogEntry>> = Vec::new();
    let mut i: usize = 0;
    while i < members.len()
        invariant
            i <= members.len(),
            entries@.len() == i,
            forall|j: int|
                0 <= j < i ==> #[trigger] entries_view(entries@)[j] == entry_of_document(
                    members@[j]@,
                ),
        decreases members.len() - i,
    {
        let ghost before = entries_view(entries@);
        let entry = decode_entry(members[i].as_str());
        entries.push(entry);
        assert forall|j: int| 0 <= j < i + 1 implies #[trigger] entries_view(entries@)[j]
            == entry_of_document(members@[j]@) by {
            if j < i {
                assert(entries_view(entries@)[j] == before[j]);
            }
        }
        i = i + 1;
    }
    assert(entries_view(entries@) =~= entries_of_members(texts_view(members@)));
    entries
}

/// Reads the store's reply to a command.
pub fn read_reply(command: &StoreCommand, raw: &RawReply) -> (reply: StoreReply)
    ensures
        reply@ == reply_of(command@, raw@),
{
    match (command, raw) {
        (StoreCommand::ClaimMarker { .. }, RawReply::Number(number)) => {
            if *number == 1 {
                StoreReply::Flag(true)
            } else if *number == 0 {
                StoreReply::Flag(false)
            } else {
                StoreReply::Failed
            }
        },
        (StoreCommand::ExpireMarker { .. }, RawReply::Number(_)) => StoreReply::Done,
        (StoreCommand::AppendRecord { .. }, RawReply::Number(_)) => StoreReply::Done,
        (StoreCommand::ReadMarker { .. }, RawReply::Text(_)) => StoreReply::Flag(true),
        (StoreCommand::ReadMarker { .. }, RawReply::Nothing) => StoreReply::Flag(false),
        (StoreCommand::AddRequests { .. }, RawReply::Number(number)) => read_count(*number),
        (StoreCommand::Publish { .. }, RawReply::Number(number)) => read_count(*number),
        (StoreCommand::ReadRequests { .. }, RawReply::Text(text)) => {
            let chars = chars_of(text.as_str());
            assert(chars@.subrange(0, chars.len() as int) =~= text@);
            match read_u64(&chars, 0, chars.len()) {
                Some(count) => StoreReply::Count(count),
                None => StoreReply::Failed,
            }
        },
        (StoreCommand::ReadRequests { .. }, RawReply::Nothing) => StoreReply::Count(0),
        (StoreCommand::ReadAmount { .. }, RawReply::Nothing) => StoreReply::Total(0),
        (StoreCommand::AddAmount { .. }, RawReply::Text(text)) => read_total(text.as_str()),
        (StoreCommand::ReadAmount { .. }, RawReply::Text(text)) => read_total(text.as_str()),
        (StoreCommand::ReadRecords { .. }, RawReply::List(members)) => StoreReply::Records(
            read_members(members),
        ),
        (StoreCommand::Clear, RawReply::Text(_)) => StoreReply::Done,
        _ => StoreReply::Failed,
    }
}

} // verus!
