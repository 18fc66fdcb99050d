//! The protocol that the gateway speaks with the shared store.
//!
//! The store itself lives elsewhere. What is decided here is which commands
//! an operation sends, in which order, and what the replies mean. Every
//! operation of [`Store`] is a function of the replies received so far: it
//! answers either with the next request to send or with the operation's
//! result. A caller sends each request on one connection, appends the reply
//! to the list and asks again until the operation is done.

use crate::amount::{cents_nearest, round_to_cents, Amount};
use crate::clock::{parse_rfc3339, rfc3339_millis};
use crate::payment::{Job, JobView, PaymentRecord, Processor, RecordView};
use vstd::prelude::*;
use vstd::string::StringExecFns;

verus! {

/// The lifetime of a processed marker, in seconds.
pub const MARKER_TTL_SECS: u64 = 3600;

/// Why an operation on the shared store did not complete.
#[derive(Clone, Copy, PartialEq, Eq, Structural, Debug)]
pub enum StoreError {
    /// The store reported a failure, or could not be reached.
    Unavailable,
    /// The store answered with something other than what the request calls for.
    UnexpectedReply,
    /// The payment's timestamp is not RFC 3339 text.
    InvalidTimestamp,
}

/// One command to the shared store.
#[derive(Debug, PartialEq, Eq)]
pub enum StoreCommand {
    /// Set the processed marker of a payment unless it is set already, and
    /// say whether it was set now.
    ClaimMarker { correlation_id: String },
    /// Let the processed marker of a payment expire after `seconds`.
    ExpireMarker { correlation_id: String, seconds: u64 },
    /// Append a record to the payment log under the given score.
    AppendRecord { record: PaymentRecord, score_millis: i64 },
    /// Add `by` to a processor's count of requests.
    AddRequests { processor: Processor, by: u64 },
    /// Add `amount` to a processor's total.
    AddAmount { processor: Processor, amount: Amount },
    /// Read a processor's count of requests.
    ReadRequests { processor: Processor },
    /// Read a processor's total.
    ReadAmount { processor: Processor },
    /// Read the records whose score lies between the two bounds, both
    /// included; a bound that is `None` is open.
    ReadRecords { from_millis: Option<i64>, to_millis: Option<i64> },
    /// Ask whether the processed marker of a payment is set.
    ReadMarker { correlation_id: String },
    /// Clear the whole store: markers, log and counters.
    Clear,
    /// Publish a job on the payments channel.
    Publish { job: Job },
}

/// The mathematical content of a [`StoreCommand`].
pub enum CommandView {
    ClaimMarker { correlation_id: Seq<char> },
    ExpireMarker { correlation_id: Seq<char>, seconds: u64 },
    AppendRecord { record: RecordView, score_millis: i64 },
    AddRequests { processor: Processor, by: u64 },
    AddAmount { processor: Processor, amount: nat },
    ReadRequests { processor: Processor },
    ReadAmount { processor: Processor },
    ReadRecords { from_millis: Option<i64>, to_millis: Option<i64> },
    ReadMarker { correlation_id: Seq<char> },
    Clear,
    Publish { job: JobView },
}

impl View for StoreCommand {
    type V = CommandView;

    open spec fn view(&self) -> CommandView {
        match self {
            StoreCommand::ClaimMarker { correlation_id } => CommandView::ClaimMarker {
                correlation_id: correlation_id@,
            },
            StoreCommand::ExpireMarker { correlation_id, seconds } => CommandView::ExpireMarker {
                correlation_id: correlation_id@,
                seconds: *seconds,
            },
            StoreCommand::AppendRecord { record, score_millis } => CommandView::AppendRecord {
                record: record@,
                score_millis: *score_millis,
            },
            StoreCommand::AddRequests { processor, by } => CommandView::AddRequests {
                processor: *processor,
                by: *by,
            },
            StoreCommand::AddAmount { processor, amount } => CommandView::AddAmount {
                processor: *processor,
                amount: amount@,
            },
            StoreCommand::ReadRequests { processor } => CommandView::ReadRequests {
                processor: *processor,
            },
            StoreCommand::ReadAmount { processor } => CommandView::ReadAmount {
                processor: *processor,
            },
            StoreCommand::ReadRecords { from_millis, to_millis } => CommandView::ReadRecords {
                from_millis: *from_millis,
                to_millis: *to_millis,
            },
            StoreCommand::ReadMarker { correlation_id } => CommandView::ReadMarker {
                correlation_id: correlation_id@,
            },
            StoreCommand::Clear => CommandView::Clear,
            StoreCommand::Publish { job } => CommandView::Publish { job: job@ },
        }
    }
}

/// The key under which the store keeps the processed marker of a payment.
pub open spec fn marker_key_of(correlation_id: Seq<char>) -> Seq<char> {
    "processed:"@ + correlation_id
}

/// The key under which the store counts a processor's requests.
pub open spec fn requests_key_of(processor: Processor) -> Seq<char> {
    "totalRequests:"@ + processor.spec_name()
}

/// The key under which the store adds up a processor's amounts.
pub open spec fn amount_key_of(processor: Processor) -> Seq<char> {
    "totalAmount:"@ + processor.spec_name()
}

/// The key of the store on which a command works; `None` for a command
/// that works on no single key.
pub open spec fn key_of(command: CommandView) -> Option<Seq<char>> {
    match command {
        CommandView::ClaimMarker { correlation_id } => Some(marker_key_of(correlation_id)),
        CommandView::ExpireMarker { correlation_id, .. } => Some(marker_key_of(correlation_id)),
        CommandView::ReadMarker { correlation_id } => Some(marker_key_of(correlation_id)),
        CommandView::AppendRecord { .. } => Some("payments_log"@),
        CommandView::ReadRecords { .. } => Some("payments_log"@),
        CommandView::AddRequests { processor, .. } => Some(requests_key_of(processor)),
        CommandView::ReadRequests { processor } => Some(requests_key_of(processor)),
        CommandView::AddAmount { processor, .. } => Some(amount_key_of(processor)),
        CommandView::ReadAmount { processor } => Some(amount_key_of(processor)),
        CommandView::Clear => None,
        CommandView::Publish { .. } => None,
    }
}

/// The key under which the store keeps the processed marker of a payment.
pub fn marker_key(correlation_id: &str) -> (key: String)
    ensures
        key@ == marker_key_of(correlation_id@),
{
    let mut key = String::from_str("processed:");
    key.append(correlation_id);
    key
}

/// The key under which the store counts a processor's requests.
pub fn requests_key(processor: Processor) -> (key: String)
    ensures
        key@ == requests_key_of(processor),
{
    let mut key = String::from_str("totalRequests:");
    key.append(processor.name());
    key
}

/// The key under which the store adds up a processor's amounts.
pub fn amount_key(processor: Processor) -> (key: String)
    ensures
        key@ == amount_key_of(processor),
{
    let mut key = String::from_str("totalAmount:");
    key.append(processor.name());
    key
}

/// The key of the payment log.
pub fn log_key() -> (key: &'static str)
    ensures
        key@ == "payments_log"@,
{
    "payments_log"
}

/// The channel on which jobs are published.
pub fn channel() -> (name: &'static str)
    ensures
        name@ == "payments"@,
{
    "payments"
}

impl StoreCommand {
    /// The key of the store on which the command works; `None` for a
    /// command that works on no single key.
    pub fn key(&self) -> (key: Option<String>)
        ensures
            match key {
                Some(k) => key_of(self@) == Some(k@),
                None => key_of(self@) is None,
            },
    {
        match self {
            StoreCommand::ClaimMarker { correlation_id } => Some(
                marker_key(correlation_id.as_str()),
            ),
            StoreCommand::ExpireMarker { correlation_id, .. } => Some(
                marker_key(correlation_id.as_str()),
            ),
            StoreCommand::ReadMarker { correlation_id } => Some(
                marker_key(correlation_id.as_str()),
            ),
            StoreCommand::AppendRecord { .. } => Some(String::from_str(log_key())),
            StoreCommand::ReadRecords { .. } => Some(String::from_str(log_key())),
            StoreCommand::AddRequests { processor, .. } => Some(requests_key(*processor)),
            StoreCommand::ReadRequests { processor } => Some(requests_key(*processor)),
            StoreCommand::AddAmount { processor, .. } => Some(amount_key(*processor)),
            StoreCommand::ReadAmount { processor } => Some(amount_key(*processor)),
            StoreCommand::Clear => None,
            StoreCommand::Publish { .. } => None,
        }
    }
}

/// What is sent to the store in one go.
#[derive(Debug, PartialEq, Eq)]
pub enum StoreRequest {
    /// A single command.
    One(StoreCommand),
    /// Several commands that take effect together, in the order given, with
    /// nothing else in between.
    Atomic(Vec<StoreCommand>),
}

/// The mathematical content of a [`StoreRequest`].
pub enum RequestView {
    One(CommandView),
    Atomic(Seq<CommandView>),
}

/// The contents of a list of commands.
pub open spec fn commands_view(commands: Seq<StoreCommand>) -> Seq<CommandView> {
    Seq::new(commands.len(), |i: int| commands[i]@)
}

impl View for StoreRequest {
    type V = RequestView;

    open spec fn view(&self) -> RequestView {
        match self {
            StoreRequest::One(command) => RequestView::One(command@),
            StoreRequest::Atomic(commands) => RequestView::Atomic(commands_view(commands@)),
        }
    }
}

/// What a summary reads of one entry of the payment log. A field that the
/// entry lacks is `None`.
#[derive(Debug, PartialEq, Eq)]
pub struct LogEntry {
    /// The name of the processor that the entry gives.
    pub processor: Option<String>,
    /// The amount that the entry gives.
    pub amount: Option<Amount>,
}

/// The mathematical content of a [`LogEntry`].
pub struct EntryView {
    pub processor: Option<Seq<char>>,
    pub amount: Option<nat>,
}

impl View for LogEntry {
    type V = EntryView;

    open spec fn view(&self) -> EntryView {
        EntryView {
            processor: match self.processor {
                Some(name) => Some(name@),
                None => None,
            },
            amount: match self.amount {
                Some(amount) => Some(amount@),
                None => None,
            },
        }
    }
}

/// What the store answers to one request.
#[derive(Debug, PartialEq, Eq)]
pub enum StoreReply {
    /// Yes or no: whether a marker was set now, or whether it is set.
    Flag(bool),
    /// The request took effect; there is nothing to report.
    Done,
    /// A count: of requests, or of those who received a published job.
    Count(u64),
    /// A total, in millionths of the currency unit.
    Total(u128),
    /// Entries of the payment log by rising score. An entry that cannot be
    /// read at all is `None`.
    Records(Vec<Option<LogEntry>>),
    /// The store reported a failure, could not be reached, or holds
    /// something that is not of the kind asked for.
    Failed,
}

/// The mathematical content of a [`StoreReply`].
pub enum ReplyView {
    Flag(bool),
    Done,
    Count(u64),
    Total(u128),
    Records(Seq<Option<EntryView>>),
    Failed,
}

/// The contents of a list of log entries.
pub open spec fn entries_view(entries: Seq<Option<LogEntry>>) -> Seq<Option<EntryView>> {
    Seq::new(
        entries.len(),
        |i: int|
            match entries[i] {
                Some(entry) => Some(entry@),
                None => None,
            },
    )
}

impl View for StoreReply {
    type V = ReplyView;

    open spec fn view(&self) -> ReplyView {
        match self {
            StoreReply::Flag(flag) => ReplyView::Flag(*flag),
            StoreReply::Done => ReplyView::Done,
            StoreReply::Count(count) => ReplyView::Count(*count),
            StoreReply::Total(total) => ReplyView::Total(*total),
            StoreReply::Records(entries) => ReplyView::Records(entries_view(entries@)),
            StoreReply::Failed => ReplyView::Failed,
        }
    }
}

/// The contents of a list of replies.
pub open spec fn replies_view(replies: Seq<StoreReply>) -> Seq<ReplyView> {
    Seq::new(replies.len(), |i: int| replies[i]@)
}

/// How an operation goes on: with one more request, or with its result.
#[derive(Debug, PartialEq, Eq)]
pub enum Step<T> {
    /// Send this request and come back with the reply.
    Send(StoreRequest),
    /// The operation has ended with this result.
    Done(T),
}

/// The mathematical content of a [`Step`].
pub enum StepView<T> {
    Send(RequestView),
    Done(T),
}

impl<T> View for Step<T> {
    type V = StepView<T>;

    open spec fn view(&self) -> StepView<T> {
        match self {
            Step::Send(request) => StepView::Send(request@),
            Step::Done(result) => StepView::Done(*result),
        }
    }
}

/// The record that is logged for a payment.
pub open spec fn record_of(
    correlation_id: Seq<char>,
    processor: Processor,
    amount: nat,
    timestamp: Seq<char>,
) -> RecordView {
    RecordView { processor, correlation_id, amount, timestamp }
}

/// The commands that put a payment on record, once its marker has been
/// claimed: the marker is given its lifetime, the record is appended to the
/// log under its score, and the processor's count and total are raised.
pub open spec fn save_batch(
    correlation_id: Seq<char>,
    processor: Processor,
    amount: nat,
    timestamp: Seq<char>,
    score_millis: i64,
) -> Seq<CommandView> {
    seq![
        CommandView::ExpireMarker { correlation_id, seconds: MARKER_TTL_SECS },
        CommandView::AppendRecord {
            record: record_of(correlation_id, processor, amount, timestamp),
            score_millis,
        },
        CommandView::AddRequests { processor, by: 1 },
        CommandView::AddAmount { processor, amount },
    ]
}

/// How recording a payment goes on after `replies`, where `score_millis` is
/// the payment's timestamp in milliseconds, or `None` if it cannot be read.
///
/// The marker is claimed first, whatever else was passed. If it was set
/// already, the payment is on record and nothing more is sent: the result
/// is `false`. If it was set now, the timestamp must be readable: the
/// commands of [`save_batch`] follow as one atomic request, and the result
/// is `true` once they took effect. A failure of the store ends the
/// operation with an error; nothing is sent again.
pub open spec fn save_step(
    correlation_id: Seq<char>,
    processor: Processor,
    amount: nat,
    timestamp: Seq<char>,
    score_millis: Option<i64>,
    replies: Seq<ReplyView>,
) -> StepView<Result<bool, StoreError>> {
    if replies.len() == 0 {
        StepView::Send(RequestView::One(CommandView::ClaimMarker { correlation_id }))
    } else {
        match replies[0] {
            ReplyView::Flag(false) => StepView::Done(Ok(false)),
            ReplyView::Flag(true) => match score_millis {
                None => StepView::Done(Err(StoreError::InvalidTimestamp)),
                Some(score) => {
                    if replies.len() == 1 {
                        StepView::Send(
                            RequestView::Atomic(
                                save_batch(correlation_id, processor, amount, timestamp, score),
                            ),
                        )
                    } else {
                        match replies[1] {
                            ReplyView::Done => StepView::Done(Ok(true)),
                            ReplyView::Failed => StepView::Done(Err(StoreError::Unavailable)),
                            _ => StepView::Done(Err(StoreError::UnexpectedReply)),
                        }
                    }
                },
            },
            ReplyView::Failed => StepView::Done(Err(StoreError::Unavailable)),
            _ => StepView::Done(Err(StoreError::UnexpectedReply)),
        }
    }
}

/// How asking whether a payment is on record goes on after `replies`. Only
/// a plain yes counts as yes: a store that fails is taken to say no.
pub open spec fn is_processed_step(correlation_id: Seq<char>, replies: Seq<ReplyView>) -> StepView<
    bool,
> {
    if replies.len() == 0 {
        StepView::Send(RequestView::One(CommandView::ReadMarker { correlation_id }))
    } else {
        StepView::Done(replies[0] == ReplyView::Flag(true))
    }
}

/// How clearing the store goes on after `replies`.
pub open spec fn purge_step(replies: Seq<ReplyView>) -> StepView<Result<(), StoreError>> {
    if replies.len() == 0 {
        StepView::Send(RequestView::One(CommandView::Clear))
    } else {
        match replies[0] {
            ReplyView::Done => StepView::Done(Ok(())),
            ReplyView::Failed => StepView::Done(Err(StoreError::Unavailable)),
            _ => StepView::Done(Err(StoreError::UnexpectedReply)),
        }
    }
}

/// How publishing a job goes on after `replies`. The store answers with
/// the number of receivers, which is of no consequence.
pub open spec fn publish_step(job: JobView, replies: Seq<ReplyView>) -> StepView<
    Result<(), StoreError>,
> {
    if replies.len() == 0 {
        StepView::Send(RequestView::One(CommandView::Publish { job }))
    } else {
        match replies[0] {
            ReplyView::Count(_) => StepView::Done(Ok(())),
            ReplyView::Failed => StepView::Done(Err(StoreError::Unavailable)),
            _ => StepView::Done(Err(StoreError::UnexpectedReply)),
        }
    }
}

/// What a summary says of one processor.
#[derive(Clone, Copy, PartialEq, Eq, Structural, Debug)]
pub struct ProcessorSummary {
    /// The number of payments that the processor accepted.
    pub total_requests: u64,
    /// The sum of their amounts, rounded to hundredths of the currency unit.
    pub total_amount_cents: u128,
}

/// The payments on record, per processor.
#[derive(Clone, Copy, PartialEq, Eq, Structural, Debug)]
pub struct Summary {
    /// What the default processor accepted.
    pub default: ProcessorSummary,
    /// What the fallback processor accepted.
    pub fallback: ProcessorSummary,
}

/// The stretch of time that a summary covers.
#[derive(Clone, Copy, PartialEq, Eq, Structural, Debug)]
pub enum Window {
    /// All payments ever recorded.
    All,
    /// The payments whose timestamp, in milliseconds, lies between the two
    /// bounds, both included; a bound that is `None` is open.
    Between { from_millis: Option<i64>, to_millis: Option<i64> },
}

/// The bound that a text gives: its instant in milliseconds, or none when
/// the text is absent or is not RFC 3339 text.
pub open spec fn bound_of(text: Option<Seq<char>>) -> Option<i64> {
    match text {
        Some(t) => rfc3339_millis(t),
        None => None,
    }
}

/// The window that two optional bounds describe. With neither given the
/// summary covers everything; with at least one given it covers a range, in
/// which a bound that is absent or unreadable is open.
pub open spec fn window_of(from: Option<Seq<char>>, to: Option<Seq<char>>) -> Window {
    if from is None && to is None {
        Window::All
    } else {
        Window::Between { from_millis: bound_of(from), to_millis: bound_of(to) }
    }
}

/// Whether a log entry counts for `processor`: it could be read and names it.
pub open spec fn counts_for(entry: Option<EntryView>, processor: Processor) -> bool {
    entry matches Some(e) && e.processor matches Some(name) && Processor::named(name) == Some(
        processor,
    )
}

/// The amount that a log entry adds to a total: what it gives, or nothing
/// where it gives none.
pub open spec fn amount_in(entry: Option<EntryView>) -> nat {
    match entry {
        Some(EntryView { amount: Some(amount), .. }) => amount,
        _ => 0,
    }
}

/// The number of entries that count for `processor`.
pub open spec fn requests_in(entries: Seq<Option<EntryView>>, processor: Processor) -> nat
    decreases entries.len(),
{
    if entries.len() == 0 {
        0
    } else {
        requests_in(entries.drop_last(), processor) + if counts_for(entries.last(), processor) {
            1nat
        } else {
            0nat
        }
    }
}

/// The sum of the amounts of the entries that count for `processor`, in
/// millionths.
pub open spec fn amounts_in(entries: Seq<Option<EntryView>>, processor: Processor) -> nat
    decreases entries.len(),
{
    if entries.len() == 0 {
        0
    } else {
        amounts_in(entries.drop_last(), processor) + if counts_for(entries.last(), processor) {
            amount_in(entries.last())
        } else {
            0nat
        }
    }
}

/// The summary of a list of log entries: per processor the number of
/// entries and the sum of their amounts, rounded once, at the end.
pub open spec fn summary_of_entries(entries: Seq<Option<EntryView>>) -> Summary {
    Summary {
        default: ProcessorSummary {
            total_requests: requests_in(entries, Processor::Default) as u64,
            total_amount_cents: cents_nearest(amounts_in(entries, Processor::Default)) as u128,
        },
        fallback: ProcessorSummary {
            total_requests: requests_in(entries, Processor::Fallback) as u64,
            total_amount_cents: cents_nearest(amounts_in(entries, Processor::Fallback)) as u128,
        },
    }
}

/// The count that a reply gives; nothing where it gives none.
pub open spec fn count_in(reply: ReplyView) -> u64 {
    match reply {
        ReplyView::Count(count) => count,
        _ => 0,
    }
}

/// The total that a reply gives, rounded to hundredths; nothing where it
/// gives none.
pub open spec fn cents_in(reply: ReplyView) -> u128 {
    match reply {
        ReplyView::Total(total) => cents_nearest(total as nat) as u128,
        _ => 0,
    }
}

/// What is wrong with the reply to the counter read number `index`, if
/// anything: a failure of the store, or a reply that is neither a count
/// where a count was asked for nor a total where a total was asked for.
pub open spec fn read_fault(reply: ReplyView, index: int) -> Option<StoreError> {
    match reply {
        ReplyView::Failed => Some(StoreError::Unavailable),
        ReplyView::Count(_) => if index % 2 == 0 {
            None
        } else {
            Some(StoreError::UnexpectedReply)
        },
        ReplyView::Total(_) => if index % 2 == 1 {
            None
        } else {
            Some(StoreError::UnexpectedReply)
        },
        _ => Some(StoreError::UnexpectedReply),
    }
}

/// What is wrong with the first of the first `upto` replies to the counter
/// reads with which something is wrong; `None` if nothing is.
pub open spec fn first_fault(replies: Seq<ReplyView>, upto: int) -> Option<StoreError>
    decreases upto,
{
    if upto <= 0 {
        None
    } else {
        match first_fault(replies, upto - 1) {
            Some(error) => Some(error),
            None => read_fault(replies[upto - 1], upto - 1),
        }
    }
}

/// The commands that read the running counters, in the order in which they
/// are sent.
pub open spec fn counter_reads() -> Seq<CommandView> {
    seq![
        CommandView::ReadRequests { processor: Processor::Default },
        CommandView::ReadAmount { processor: Processor::Default },
        CommandView::ReadRequests { processor: Processor::Fallback },
        CommandView::ReadAmount { processor: Processor::Fallback },
    ]
}

/// How a summary goes on after `replies`.
///
/// Over everything, the four running counters are read one by one and
/// reported as they stand. A read that the store fails, or answers with
/// something else than was asked for, ends the summary with an error and
/// nothing more is sent. Over a range the counters are of no use: the log
/// entries in the range are read with one request and added up.
pub open spec fn summary_step(window: Window, replies: Seq<ReplyView>) -> StepView<
    Result<Summary, StoreError>,
> {
    match window {
        Window::All => {
            let seen = if replies.len() < 4 {
                replies.len() as int
            } else {
                4
            };
            match first_fault(replies, seen) {
                Some(error) => StepView::Done(Err(error)),
                None => {
                    if replies.len() < 4 {
                        StepView::Send(RequestView::One(counter_reads()[replies.len() as int]))
                    } else {
                        StepView::Done(
                            Ok(
                                Summary {
                                    default: ProcessorSummary {
                                        total_requests: count_in(replies[0]),
                                        total_amount_cents: cents_in(replies[1]),
                                    },
                                    fallback: ProcessorSummary {
                                        total_requests: count_in(replies[2]),
                                        total_amount_cents: cents_in(replies[3]),
                                    },
                                },
                            ),
                        )
                    }
                },
            }
        },
        Window::Between { from_millis, to_millis } => {
            if replies.len() == 0 {
                StepView::Send(
                    RequestView::One(CommandView::ReadRecords { from_millis, to_millis }),
                )
            } else {
                match replies[0] {
                    ReplyView::Records(entries) => StepView::Done(Ok(summary_of_entries(entries))),
                    ReplyView::Failed => StepView::Done(Err(StoreError::Unavailable)),
                    _ => StepView::Done(Err(StoreError::UnexpectedReply)),
                }
            }
        },
    }
}

/// A fault, once found, stays the first fault however many more replies are
/// looked at.
pub proof fn lemma_first_fault_stays(replies: Seq<ReplyView>, found: int, upto: int)
    requires
        found <= upto,
        first_fault(replies, found) is Some,
    ensures
        first_fault(replies, upto) == first_fault(replies, found),
    decreases upto - found,
{
    if found < upto {
        lemma_first_fault_stays(replies, found, upto - 1);
    }
}

/// The number of entries that count for a processor is at most the number
/// of entries, and their sum is at most as many times the largest amount.
pub proof fn lemma_totals_bounded(entries: Seq<Option<LogEntry>>, processor: Processor)
    ensures
        requests_in(entries_view(entries), processor) <= entries.len(),
        amounts_in(entries_view(entries), processor) <= entries.len() * u64::MAX,
    decreases entries.len(),
{
    let views = entries_view(entries);
    if entries.len() > 0 {
        assert(views.drop_last() =~= entries_view(entries.drop_last()));
        lemma_totals_bounded(entries.drop_last(), processor);
        assert(amount_in(views.last()) <= u64::MAX) by {
            match entries.last() {
                Some(LogEntry { amount: Some(amount), .. }) => {
                    amount.lemma_bounded();
                },
                _ => {},
            }
        }
        assert((entries.len() - 1) * u64::MAX + u64::MAX == entries.len() * u64::MAX)
            by (nonlinear_arith);
    }
}

/// Adds up log entries per processor.
pub fn summarize(entries: &Vec<Option<LogEntry>>) -> (summary: Summary)
    ensures
        summary == summary_of_entries(entries_view(entries@)),
{
    let mut default_requests: u64 = 0;
    let mut default_micros: u128 = 0;
    let mut fallback_requests: u64 = 0;
    let mut fallback_micros: u128 = 0;
    let mut i: usize = 0;
    while i < entries.len()
        invariant
            i <= entries.len(),
            default_requests == requests_in(
                entries_view(entries@.take(i as int)),
                Processor::Default,
            ),
            default_micros == amounts_in(entries_view(entries@.take(i as int)), Processor::Default),
            fallback_requests == requests_in(
                entries_view(entries@.take(i as int)),
                Processor::Fallback,
            ),
            fallback_micros == amounts_in(
                entries_view(entries@.take(i as int)),
                Processor::Fallback,
            ),
        decreases entries.len() - i,
    {
        proof {
            let seen = entries@.take(i as int);
            let more = entries@.take(i + 1);
            assert(more.drop_last() =~= seen);
            assert(entries_view(more).drop_last() =~= entries_view(seen));
            assert(entries_view(more).last() == match entries@[i as int] {
                Some(entry) => Some(entry@),
                None => None,
            });
            lemma_totals_bounded(more, Processor::Default);
            lemma_totals_bounded(more, Processor::Fallback);
            assert(more.len() * u64::MAX <= u128::MAX) by (nonlinear_arith)
                requires
                    more.len() <= usize::MAX,
            ;
        }
        match &entries[i] {
            Some(entry) => {
                let amount: u64 = match entry.amount {
                    Some(amount) => amount.micros(),
                    None => 0,
                };
                let named = match &entry.processor {
                    Some(name) => Processor::from_name(name.as_str()),
                    None => None,
                };
                match named {
                    Some(Processor::Default) => {
                        default_requests = default_requests + 1;
                        default_micros = default_micros + amount as u128;
                    },
                    Some(Processor::Fallback) => {
                        fallback_requests = fallback_requests + 1;
                        fallback_micros = fallback_micros + amount as u128;
                    },
                    None => {},
                }
            },
            None => {},
        }
        i = i + 1;
    }
    assert(entries@.take(entries.len() as int) =~= entries@);
    Summary {
        default: ProcessorSummary {
            total_requests: default_requests,
            total_amount_cents: round_to_cents(default_micros),
        },
        fallback: ProcessorSummary {
            total_requests: fallback_requests,
            total_amount_cents: round_to_cents(fallback_micros),
        },
    }
}

/// The window that two optional bounds describe, each bound RFC 3339 text.
pub fn window(from: Option<&str>, to: Option<&str>) -> (window: Window)
    ensures
        window == window_of(
            match from {
                Some(t) => Some(t@),
                None => None,
            },
            match to {
                Some(t) => Some(t@),
                None => None,
            },
        ),
{
    if from.is_none() && to.is_none() {
        Window::All
    } else {
        let from_millis = match from {
            Some(text) => parse_rfc3339(text),
            None => None,
        };
        let to_millis = match to {
            Some(text) => parse_rfc3339(text),
            None => None,
        };
        Window::Between { from_millis, to_millis }
    }
}

/// The gateway's side of the conversation with the shared store.
#[derive(Clone, Copy, Debug)]
pub struct Store {}

impl Store {
    /// A store front.
    pub fn new() -> Self {
        Store {  }
    }

    /// How recording a payment goes on after `replies`, given the payment's
    /// timestamp in milliseconds, or `None` if it cannot be read.
    pub fn save_scored(
        &self,
        correlation_id: &str,
        processor: Processor,
        amount: Amount,
        timestamp: &str,
        score_millis: Option<i64>,
        replies: &Vec<StoreReply>,
    ) -> (step: Step<Result<bool, StoreError>>)
        ensures
            step@ == save_step(
                correlation_id@,
                processor,
                amount@,
                timestamp@,
                score_millis,
                replies_view(replies@),
            ),
    {
        if replies.len() == 0 {
            return Step::Send(
                StoreRequest::One(
                    StoreCommand::ClaimMarker { correlation_id: String::from_str(correlation_id) },
                ),
            );
        }
        match &replies[0] {
            StoreReply::Flag(false) => Step::Done(Ok(false)),
            StoreReply::Flag(true) => {
                let score = match score_millis {
                    Some(score) => score,
                    None => {
                        return Step::Done(Err(StoreError::InvalidTimestamp));
                    },
                };
                if replies.len() == 1 {
                    let mut batch: Vec<StoreCommand> = Vec::new();
                    batch.push(
                        StoreCommand::ExpireMarker {
                            correlation_id: String::from_str(correlation_id),
                            seconds: MARKER_TTL_SECS,
                        },
                    );
                    batch.push(
                        StoreCommand::AppendRecord {
                            record: PaymentRecord {
                                processor,
                                correlation_id: String::from_str(correlation_id),
                                amount,
                                timestamp: String::from_str(timestamp),
                            },
                            score_millis: score,
                        },
                    );
                    batch.push(StoreCommand::AddRequests { processor, by: 1 });
                    batch.push(StoreCommand::AddAmount { processor, amount });
                    assert(commands_view(batch@) =~= save_batch(
                        correlation_id@,
                        processor,
                        amount@,
                        timestamp@,
                        score,
                    ));
                    Step::Send(StoreRequest::Atomic(batch))
                } else {
                    match &replies[1] {
                        StoreReply::Done => Step::Done(Ok(true)),
                        StoreReply::Failed => Step::Done(Err(StoreError::Unavailable)),
                        _ => Step::Done(Err(StoreError::UnexpectedReply)),
                    }
                }
            },
            StoreReply::Failed => Step::Done(Err(StoreError::Unavailable)),
            _ => Step::Done(Err(StoreError::UnexpectedReply)),
        }
    }

    /// How recording a payment goes on after `replies`: see [`save_step`].
    /// The timestamp is RFC 3339 text; it gives the record's score.
    pub fn save(
        &self,
        correlation_id: &str,
        processor: Processor,
        amount: Amount,
        timestamp: &str,
        replies: &Vec<StoreReply>,
    ) -> (step: Step<Result<bool, StoreError>>)
        ensures
            step@ == save_step(
                correlation_id@,
                processor,
                amount@,
                timestamp@,
                rfc3339_millis(timestamp@),
                replies_view(replies@),
            ),
    {
        let score = parse_rfc3339(timestamp);
        self.save_scored(correlation_id, processor, amount, timestamp, score, replies)
    }

    /// How asking whether a payment is on record goes on after `replies`.
    pub fn is_processed(&self, correlation_id: &str, replies: &Vec<StoreReply>) -> (step: Step<
        bool,
    >)
        ensures
            step@ == is_processed_step(correlation_id@, replies_view(replies@)),
    {
        if replies.len() == 0 {
            Step::Send(
                StoreRequest::One(
                    StoreCommand::ReadMarker { correlation_id: String::from_str(correlation_id) },
                ),
            )
        } else {
            match &replies[0] {
                StoreReply::Flag(true) => Step::Done(true),
                _ => Step::Done(false),
            }
        }
    }

    /// How clearing the whole store goes on after `replies`.
    pub fn purge_all(&self, replies: &Vec<StoreReply>) -> (step: Step<Result<(), StoreError>>)
        ensures
            step@ == purge_step(replies_view(replies@)),
    {
        if replies.len() == 0 {
            Step::Send(StoreRequest::One(StoreCommand::Clear))
        } else {
            match &replies[0] {
                StoreReply::Done => Step::Done(Ok(())),
                StoreReply::Failed => Step::Done(Err(StoreError::Unavailable)),
                _ => Step::Done(Err(StoreError::UnexpectedReply)),
            }
        }
    }

    /// How a summary over `window` goes on after `replies`: see
    /// [`summary_step`].
    pub fn summary_over(&self, window: Window, replies: &Vec<StoreReply>) -> (step: Step<
        Result<Summary, StoreError>,
    >)
        ensures
            step@ == summary_step(window, replies_view(replies@)),
    {
        match window {
            Window::All => {
                let seen: usize = if replies.len() < 4 {
                    replies.len()
                } else {
                    4
                };
                let mut i: usize = 0;
                while i < seen
                    invariant
                        i <= seen <= 4,
                        seen <= replies.len(),
                        replies.len() < 4 ==> seen == replies.len(),
                        replies.len() >= 4 ==> seen == 4,
                        window is All,
                        first_fault(replies_view(replies@), i as int) is None,
                    decreases seen - i,
                {
                    match Self::fault(&replies[i], i) {
                        Some(error) => {
                            proof {
                                assert(replies_view(replies@)[i as int] == replies@[i as int]@);
                                assert(first_fault(replies_view(replies@), i + 1) == Some(error));
                                lemma_first_fault_stays(
                                    replies_view(replies@),
                                    i + 1,
                                    seen as int,
                                );
                            }
                            return Step::Done(Err(error));
                        },
                        None => {
                            assert(replies_view(replies@)[i as int] == replies@[i as int]@);
                        },
                    }
                    i = i + 1;
                }
                if replies.len() == 0 {
                    Step::Send(
                        StoreRequest::One(
                            StoreCommand::ReadRequests { processor: Processor::Default },
                        ),
                    )
                } else if replies.len() == 1 {
                    Step::Send(
                        StoreRequest::One(
                            StoreCommand::ReadAmount { processor: Processor::Default },
                        ),
                    )
                } else if replies.len() == 2 {
                    Step::Send(
                        StoreRequest::One(
                            StoreCommand::ReadRequests { processor: Processor::Fallback },
                        ),
                    )
                } else if replies.len() == 3 {
                    Step::Send(
                        StoreRequest::One(
                            StoreCommand::ReadAmount { processor: Processor::Fallback },
                        ),
                    )
                } else {
                    Step::Done(
                        Ok(
                            Summary {
                                default: ProcessorSummary {
                                    total_requests: Self::count(&replies[0]),
                                    total_amount_cents: Self::cents(&replies[1]),
                                },
                                fallback: ProcessorSummary {
                                    total_requests: Self::count(&replies[2]),
                                    total_amount_cents: Self::cents(&replies[3]),
                                },
                            },
                        ),
                    )
                }
            },
            Window::Between { from_millis, to_millis } => {
                if replies.len() == 0 {
                    Step::Send(
                        StoreRequest::One(StoreCommand::ReadRecords { from_millis, to_millis }),
                    )
                } else {
                    match &replies[0] {
                        StoreReply::Records(entries) => Step::Done(Ok(summarize(entries))),
                        StoreReply::Failed => Step::Done(Err(StoreError::Unavailable)),
                        _ => Step::Done(Err(StoreError::UnexpectedReply)),
                    }
                }
            },
        }
    }

    /// How a summary goes on after `replies`, where the bounds, if given,
    /// are RFC 3339 text: see [`window_of`] and [`summary_step`].
    pub fn summary(&self, from: Option<&str>, to: Option<&str>, replies: &Vec<StoreReply>) -> (step:
        Step<Result<Summary, StoreError>>)
        ensures
            step@ == summary_step(
                window_of(
                    match from {
                        Some(t) => Some(t@),
                        None => None,
                    },
                    match to {
                        Some(t) => Some(t@),
                        None => None,
                    },
                ),
                replies_view(replies@),
            ),
    {
        self.summary_over(window(from, to), replies)
    }

    fn fault(reply: &StoreReply, index: usize) -> (fault: Option<StoreError>)
        ensures
            fault == read_fault(reply@, index as int),
    {
        match reply {
            StoreReply::Failed => Some(StoreError::Unavailable),
            StoreReply::Count(_) => if index % 2 == 0 {
                None
            } else {
                Some(StoreError::UnexpectedReply)
            },
            StoreReply::Total(_) => if index % 2 == 1 {
                None
            } else {
                Some(StoreError::UnexpectedReply)
            },
            _ => Some(StoreError::UnexpectedReply),
        }
    }

    fn count(reply: &StoreReply) -> (count: u64)
        ensures
            count == count_in(reply@),
    {
        match reply {
            StoreReply::Count(count) => *count,
            _ => 0,
        }
    }

    fn cents(reply: &StoreReply) -> (cents: u128)
        ensures
            cents == cents_in(reply@),
    {
        match reply {
            StoreReply::Total(total) => round_to_cents(*total),
            _ => 0,
        }
    }

    /// How publishing `job` on the payments channel goes on after `replies`.
    pub fn publish(&self, job: &Job, replies: &Vec<StoreReply>) -> (step: Step<
        Result<(), StoreError>,
    >)
        ensures
            step@ == publish_step(job@, replies_view(replies@)),
    {
        if replies.len() == 0 {
            Step::Send(StoreRequest::One(StoreCommand::Publish { job: job.clone() }))
        } else {
            match &replies[0] {
                StoreReply::Count(_) => Step::Done(Ok(())),
                StoreReply::Failed => Step::Done(Err(StoreError::Unavailable)),
                _ => Step::Done(Err(StoreError::UnexpectedReply)),
            }
        }
    }
}

} // verus!
