//! The shared store as the gateway understands it, kept in memory.
//!
//! [`StoreState`] and [`apply_command`] say what each command of the
//! protocol means. [`MemoryStore`] is a store that behaves exactly so. The
//! model's clock stands still: a marker, once set, stays until the store is
//! cleared.

use crate::payment::{Job, JobView, PaymentRecord, Processor, RecordView};
use crate::queue::Queue;
use crate::store::{
    commands_view, CommandView, EntryView, LogEntry, ReplyView, RequestView, StoreCommand,
    StoreReply, StoreRequest,
};
use crate::text::same_text;
use vstd::prelude::*;
use vstd::string::StringExecFns;

verus! {

/// The running totals of one processor.
#[derive(Clone, Copy, PartialEq, Eq, Structural, Debug)]
pub struct Counters {
    /// The number of payments recorded.
    pub requests: u64,
    /// The sum of their amounts, in millionths of the currency unit.
    pub amount: u128,
}

/// A record of the payment log, with the score that orders it.
pub struct ScoredRecord {
    pub score_millis: i64,
    pub record: RecordView,
}

/// What the shared store holds.
pub struct StoreState {
    /// The payments whose processed marker is set, by correlation id.
    pub markers: Set<Seq<char>>,
    /// The payment log by rising score; records of equal score in the order
    /// in which they came.
    pub log: Seq<ScoredRecord>,
    /// The running totals of the default processor.
    pub default: Counters,
    /// The running totals of the fallback processor.
    pub fallback: Counters,
    /// The jobs published on the payments channel and not yet taken, oldest
    /// first.
    pub published: Seq<JobView>,
}

impl StoreState {
    /// The store with nothing in it.
    pub open spec fn empty() -> StoreState {
        StoreState {
            markers: Set::empty(),
            log: Seq::empty(),
            default: Counters { requests: 0, amount: 0 },
            fallback: Counters { requests: 0, amount: 0 },
            published: Seq::empty(),
        }
    }

    /// The running totals of `processor`.
    pub open spec fn counters(self, processor: Processor) -> Counters {
        match processor {
            Processor::Default => self.default,
            Processor::Fallback => self.fallback,
        }
    }

    /// The store with the running totals of `processor` replaced.
    pub open spec fn with_counters(self, processor: Processor, counters: Counters) -> StoreState {
        match processor {
            Processor::Default => StoreState { default: counters, ..self },
            Processor::Fallback => StoreState { fallback: counters, ..self },
        }
    }
}

/// Whether a score lies between two bounds, both included; a bound that is
/// `None` is open.
pub open spec fn in_window(
    score_millis: i64,
    from_millis: Option<i64>,
    to_millis: Option<i64>,
) -> bool {
    &&& from_millis matches Some(from) ==> from <= score_millis
    &&& to_millis matches Some(to) ==> score_millis <= to
}

/// What a summary reads of a record.
pub open spec fn entry_of(record: RecordView) -> EntryView {
    EntryView { processor: Some(record.processor.spec_name()), amount: Some(record.amount) }
}

/// The entries of the log whose score lies in the window, in the log's order.
pub open spec fn entries_between(
    log: Seq<ScoredRecord>,
    from_millis: Option<i64>,
    to_millis: Option<i64>,
) -> Seq<Option<EntryView>>
    decreases log.len(),
{
    if log.len() == 0 {
        Seq::empty()
    } else {
        let earlier = entries_between(log.drop_last(), from_millis, to_millis);
        if in_window(log.last().score_millis, from_millis, to_millis) {
            earlier.push(Some(entry_of(log.last().record)))
        } else {
            earlier
        }
    }
}

/// The log with one more record, put behind every record whose score is not
/// greater than its own.
pub open spec fn log_insert(log: Seq<ScoredRecord>, entry: ScoredRecord) -> Seq<ScoredRecord>
    decreases log.len(),
{
    if log.len() == 0 {
        seq![entry]
    } else if log.last().score_millis <= entry.score_millis {
        log.push(entry)
    } else {
        log_insert(log.drop_last(), entry).push(log.last())
    }
}

/// Whether the log is in order: scores never fall.
pub open spec fn log_sorted(log: Seq<ScoredRecord>) -> bool {
    forall|i: int, j: int| 0 <= i <= j < log.len() ==> log[i].score_millis <= log[j].score_millis
}

/// What one command does to the store, and what the store answers.
///
/// A counter that would pass its ceiling stays as it is and the store
/// answers with a failure. Every other command succeeds.
pub open spec fn apply_command(state: StoreState, command: CommandView) -> (StoreState, ReplyView) {
    match command {
        CommandView::ClaimMarker { correlation_id } => {
            if state.markers.contains(correlation_id) {
                (state, ReplyView::Flag(false))
            } else {
                (
                    StoreState { markers: state.markers.insert(correlation_id), ..state },
                    ReplyView::Flag(true),
                )
            }
        },
        CommandView::ExpireMarker { .. } => (state, ReplyView::Done),
        CommandView::ReadMarker { correlation_id } => (
            state,
            ReplyView::Flag(state.markers.contains(correlation_id)),
        ),
        CommandView::AppendRecord { record, score_millis } => (
            StoreState {
                log: log_insert(state.log, ScoredRecord { score_millis, record }),
                ..state
            },
            ReplyView::Done,
        ),
        CommandView::ReadRecords { from_millis, to_millis } => (
            state,
            ReplyView::Records(entries_between(state.log, from_millis, to_millis)),
        ),
        CommandView::AddRequests { processor, by } => {
            let old = state.counters(processor);
            if old.requests + by > u64::MAX {
                (state, ReplyView::Failed)
            } else {
                let requests = (old.requests + by) as u64;
                (
                    state.with_counters(processor, Counters { requests, ..old }),
                    ReplyView::Count(requests),
                )
            }
        },
        CommandView::ReadRequests { processor } => (
            state,
            ReplyView::Count(state.counters(processor).requests),
        ),
        CommandView::AddAmount { processor, amount } => {
            let old = state.counters(processor);
            if old.amount + amount > u128::MAX {
                (state, ReplyView::Failed)
            } else {
                let total = (old.amount + amount) as u128;
                (
                    state.with_counters(processor, Counters { amount: total, ..old }),
                    ReplyView::Total(total),
                )
            }
        },
        CommandView::ReadAmount { processor } => (
            state,
            ReplyView::Total(state.counters(processor).amount),
        ),
        CommandView::Clear => (
            StoreState { published: state.published, ..StoreState::empty() },
            ReplyView::Done,
        ),
        CommandView::Publish { job } => (
            StoreState { published: state.published.push(job), ..state },
            ReplyView::Count(0),
        ),
    }
}

/// What a list of commands does when they are applied one after the other
/// for as long as they succeed: the first command that fails ends the list
/// with a failure.
pub open spec fn apply_each(state: StoreState, commands: Seq<CommandView>) -> (
    StoreState,
    ReplyView,
)
    decreases commands.len(),
{
    if commands.len() == 0 {
        (state, ReplyView::Done)
    } else {
        let (next, reply) = apply_command(state, commands[0]);
        if reply is Failed {
            (next, ReplyView::Failed)
        } else {
            apply_each(next, commands.drop_first())
        }
    }
}

/// What a list of commands does when they take effect together: all of
/// them in order with nothing in between, or, if one of them would fail,
/// none of them. In that case the store stays as it was and answers with a
/// failure.
pub open spec fn apply_all(state: StoreState, commands: Seq<CommandView>) -> (
    StoreState,
    ReplyView,
) {
    let (end, reply) = apply_each(state, commands);
    if reply is Failed {
        (state, ReplyView::Failed)
    } else {
        (end, ReplyView::Done)
    }
}

/// What one request does to the store, and what the store answers.
pub open spec fn apply_request(state: StoreState, request: RequestView) -> (StoreState, ReplyView) {
    match request {
        RequestView::One(command) => apply_command(state, command),
        RequestView::Atomic(commands) => apply_all(state, commands),
    }
}

/// A record more makes the log longer by one, and a log in order stays in
/// order.
pub proof fn lemma_log_insert_keeps_order(log: Seq<ScoredRecord>, entry: ScoredRecord)
    ensures
        log_insert(log, entry).len() == log.len() + 1,
        log_sorted(log) ==> log_sorted(log_insert(log, entry)),
    decreases log.len(),
{
    if log.len() > 0 && log.last().score_millis > entry.score_millis {
        let shorter = log.drop_last();
        lemma_log_insert_keeps_order(shorter, entry);
        lemma_log_insert_bounds(shorter, entry, log.last().score_millis);
        if log_sorted(log) {
            assert(log_sorted(shorter)) by {
                assert forall|i: int, j: int|
                    0 <= i <= j < shorter.len() implies shorter[i].score_millis
                    <= shorter[j].score_millis by {
                    assert(shorter[i] == log[i] && shorter[j] == log[j]);
                }
            }
            assert forall|i: int|
                0 <= i < shorter.len() implies (#[trigger] shorter[i]).score_millis
                <= log.last().score_millis by {
                assert(shorter[i] == log[i]);
            }
        }
    }
}

/// A record more leaves every score in the log at or below a bound that
/// held before and holds for the new record.
proof fn lemma_log_insert_bounds(log: Seq<ScoredRecord>, entry: ScoredRecord, bound: i64)
    requires
        entry.score_millis <= bound,
    ensures
        (forall|i: int| 0 <= i < log.len() ==> (#[trigger] log[i]).score_millis <= bound) ==> (
        forall|i: int|
            0 <= i < log_insert(log, entry).len() ==> (#[trigger] log_insert(
                log,
                entry,
            )[i]).score_millis <= bound),
    decreases log.len(),
{
    if log.len() > 0 && log.last().score_millis > entry.score_millis {
        let shorter = log.drop_last();
        lemma_log_insert_bounds(shorter, entry, bound);
        if forall|i: int| 0 <= i < log.len() ==> (#[trigger] log[i]).score_millis <= bound {
            assert forall|i: int|
                0 <= i < shorter.len() implies (#[trigger] shorter[i]).score_millis
                <= bound by {
                assert(shorter[i] == log[i]);
            }
        }
    }
}

/// A record of the payment log as the in-memory store keeps it.
struct Scored {
    score_millis: i64,
    record: PaymentRecord,
}

/// A shared store in memory.
pub struct MemoryStore {
    markers: Vec<String>,
    log: Vec<Scored>,
    default: Counters,
    fallback: Counters,
    published: Queue<Job>,
}

/// The markers that a list of correlation ids stands for.
spec fn markers_of(ids: Seq<String>) -> Set<Seq<char>> {
    Set::new(|id: Seq<char>| exists|i: int| 0 <= i < ids.len() && #[trigger] ids[i]@ == id)
}

/// The log that a list of kept records stands for.
spec fn log_of(kept: Seq<Scored>) -> Seq<ScoredRecord> {
    Seq::new(
        kept.len(),
        |i: int| ScoredRecord { score_millis: kept[i].score_millis, record: kept[i].record@ },
    )
}

/// The contents of a list of jobs.
spec fn jobs_of(jobs: Seq<Job>) -> Seq<JobView> {
    Seq::new(jobs.len(), |i: int| jobs[i]@)
}

impl View for MemoryStore {
    type V = StoreState;

    closed spec fn view(&self) -> StoreState {
        StoreState {
            markers: markers_of(self.markers@),
            log: log_of(self.log@),
            default: self.default,
            fallback: self.fallback,
            published: jobs_of(self.published@),
        }
    }
}

/// Putting a record at the place behind the last record whose score is not
/// greater is what [`log_insert`] does.
proof fn lemma_log_insert_at(log: Seq<ScoredRecord>, entry: ScoredRecord, at: int)
    requires
        0 <= at <= log.len(),
        forall|j: int| at <= j < log.len() ==> log[j].score_millis > entry.score_millis,
        at > 0 ==> log[at - 1].score_millis <= entry.score_millis,
    ensures
        log_insert(log, entry) == log.insert(at, entry),
    decreases log.len(),
{
    if log.len() == 0 {
        assert(log.insert(at, entry) =~= seq![entry]);
    } else if at == log.len() {
        assert(log.insert(at, entry) =~= log.push(entry));
    } else {
        lemma_log_insert_at(log.drop_last(), entry, at);
        assert(log.drop_last().insert(at, entry).push(log.last()) =~= log.insert(at, entry));
    }
}

impl MemoryStore {
    /// A store with nothing in it.
    pub fn new() -> (store: Self)
        ensures
            store@ == StoreState::empty(),
    {
        let store = MemoryStore {
            markers: Vec::new(),
            log: Vec::new(),
            default: Counters { requests: 0, amount: 0 },
            fallback: Counters { requests: 0, amount: 0 },
            published: Queue::new(),
        };
        assert(store@.markers =~= Set::empty());
        assert(store@.log =~= Seq::empty());
        assert(store@.published =~= Seq::empty());
        store
    }

    /// Whether the processed marker of a payment is set.
    pub fn has_marker(&self, correlation_id: &str) -> (set: bool)
        ensures
            set == self@.markers.contains(correlation_id@),
    {
        let mut i: usize = 0;
        while i < self.markers.len()
            invariant
                i <= self.markers.len(),
                forall|j: int| 0 <= j < i ==> self.markers@[j]@ != correlation_id@,
            decreases self.markers.len() - i,
        {
            if same_text(self.markers[i].as_str(), correlation_id) {
                return true;
            }
            i = i + 1;
        }
        false
    }

    /// The number of records in the payment log.
    pub fn log_len(&self) -> (len: usize)
        ensures
            len == self@.log.len(),
    {
        self.log.len()
    }

    /// The running totals of `processor`.
    pub fn counters(&self, processor: Processor) -> (counters: Counters)
        ensures
            counters == self@.counters(processor),
    {
        match processor {
            Processor::Default => self.default,
            Processor::Fallback => self.fallback,
        }
    }

    /// Takes the oldest job waiting on the payments channel, if one waits.
    pub fn take_published(&mut self) -> (job: Option<Job>)
        ensures
            match job {
                Some(j) => old(self)@.published.len() > 0 && j@ == old(self)@.published[0]
                    && final(self)@ == (StoreState {
                    published: old(self)@.published.drop_first(),
                    ..old(self)@
                }),
                None => old(self)@.published.len() == 0 && final(self)@ == old(self)@,
            },
    {
        let job = self.published.pop();
        proof {
            if job is Some {
                assert(jobs_of(self.published@) =~= jobs_of(old(self).published@).drop_first());
            }
        }
        job
    }

    fn append_record(&mut self, record: &PaymentRecord, score_millis: i64)
        ensures
            final(self)@ == (StoreState {
                log: log_insert(old(self)@.log, ScoredRecord { score_millis, record: record@ }),
                ..old(self)@
            }),
    {
        let mut at: usize = self.log.len();
        while at > 0 && self.log[at - 1].score_millis > score_millis
            invariant
                at <= self.log.len(),
                forall|j: int|
                    at <= j < self.log.len() ==> self.log@[j].score_millis > score_millis,
            decreases at,
        {
            at = at - 1;
        }
        proof {
            lemma_log_insert_at(
                log_of(self.log@),
                ScoredRecord { score_millis, record: record@ },
                at as int,
            );
        }
        self.log.insert(at, Scored { score_millis, record: record.clone() });
        assert(log_of(self.log@) =~= log_of(old(self).log@).insert(
            at as int,
            ScoredRecord { score_millis, record: record@ },
        ));
    }

    fn read_records(&self, from_millis: Option<i64>, to_millis: Option<i64>) -> (entries: Vec<
        Option<LogEntry>,
    >)
        ensures
            crate::store::entries_view(entries@) == entries_between(
                self@.log,
                from_millis,
                to_millis,
            ),
    {
        let mut entries: Vec<Option<LogEntry>> = Vec::new();
        let mut i: usize = 0;
        assert(log_of(self.log@).take(0) =~= Seq::empty());
        assert(crate::store::entries_view(entries@) =~= Seq::empty());
        while i < self.log.len()
            invariant
                i <= self.log.len(),
                crate::store::entries_view(entries@) == entries_between(
                    log_of(self.log@).take(i as int),
                    from_millis,
                    to_millis,
                ),
            decreases self.log.len() - i,
        {
            let kept = &self.log[i];
            let above = match from_millis {
                Some(from) => from <= kept.score_millis,
                None => true,
            };
            let below = match to_millis {
                Some(to) => kept.score_millis <= to,
                None => true,
            };
            proof {
                let more = log_of(self.log@).take(i + 1);
                assert(more.drop_last() =~= log_of(self.log@).take(i as int));
                assert(more.last() == ScoredRecord {
                    score_millis: kept.score_millis,
                    record: kept.record@,
                });
            }
            if above && below {
                let ghost before = crate::store::entries_view(entries@);
                let entry = LogEntry {
                    processor: Some(String::from_str(kept.record.processor.name())),
                    amount: Some(kept.record.amount),
                };
                entries.push(Some(entry));
                assert(crate::store::entries_view(entries@) =~= before.push(
                    Some(entry_of(kept.record@)),
                ));
            }
            i = i + 1;
        }
        assert(log_of(self.log@).take(self.log.len() as int) =~= log_of(self.log@));
        entries
    }

    /// Carries out one command and answers it.
    pub fn apply(&mut self, command: &StoreCommand) -> (reply: StoreReply)
        ensures
            (final(self)@, reply@) == apply_command(old(self)@, command@),
    {
        match command {
            StoreCommand::ClaimMarker { correlation_id } => {
                if self.has_marker(correlation_id.as_str()) {
                    StoreReply::Flag(false)
                } else {
                    self.markers.push(correlation_id.clone());
                    assert(markers_of(self.markers@) =~= markers_of(old(self).markers@).insert(
                        correlation_id@,
                    )) by {
                        let n = old(self).markers@.len() as int;
                        assert(self.markers@[n]@ == correlation_id@);
                        assert forall|id: Seq<char>|
                            markers_of(old(self).markers@).contains(id) implies markers_of(
                            self.markers@,
                        ).contains(id) by {
                            let i = choose|i: int|
                                0 <= i < old(self).markers@.len() && #[trigger] old(
                                    self,
                                ).markers@[i]@ == id;
                            assert(self.markers@[i]@ == id);
                        }
                        assert forall|id: Seq<char>|
                            markers_of(self.markers@).contains(id) implies markers_of(
                            old(self).markers@,
                        ).insert(correlation_id@).contains(id) by {
                            let i = choose|i: int|
                                0 <= i < self.markers@.len() && #[trigger] self.markers@[i]@ == id;
                            if i < n {
                                assert(old(self).markers@[i]@ == id);
                            }
                        }
                    }
                    StoreReply::Flag(true)
                }
            },
            StoreCommand::ExpireMarker { .. } => StoreReply::Done,
            StoreCommand::ReadMarker { correlation_id } => StoreReply::Flag(
                self.has_marker(correlation_id.as_str()),
            ),
            StoreCommand::AppendRecord { record, score_millis } => {
                self.append_record(record, *score_millis);
                StoreReply::Done
            },
            StoreCommand::ReadRecords { from_millis, to_millis } => StoreReply::Records(
                self.read_records(*from_millis, *to_millis),
            ),
            StoreCommand::AddRequests { processor, by } => {
                let old_counters = self.counters(*processor);
                match old_counters.requests.checked_add(*by) {
                    Some(requests) => {
                        self.set_counters(*processor, Counters { requests, ..old_counters });
                        StoreReply::Count(requests)
                    },
                    None => StoreReply::Failed,
                }
            },
            StoreCommand::ReadRequests { processor } => StoreReply::Count(
                self.counters(*processor).requests,
            ),
            StoreCommand::AddAmount { processor, amount } => {
                let old_counters = self.counters(*processor);
                match old_counters.amount.checked_add(amount.micros() as u128) {
                    Some(total) => {
                        self.set_counters(*processor, Counters { amount: total, ..old_counters });
                        StoreReply::Total(total)
                    },
                    None => StoreReply::Failed,
                }
            },
            StoreCommand::ReadAmount { processor } => StoreReply::Total(
                self.counters(*processor).amount,
            ),
            StoreCommand::Clear => {
                self.markers.clear();
                self.log.clear();
                self.default = Counters { requests: 0, amount: 0 };
                self.fallback = Counters { requests: 0, amount: 0 };
                assert(self@.markers =~= Set::empty());
                assert(self@.log =~= Seq::empty());
                StoreReply::Done
            },
            StoreCommand::Publish { job } => {
                self.published.push(job.clone());
                assert(jobs_of(self.published@) =~= jobs_of(old(self).published@).push(job@));
                StoreReply::Count(0)
            },
        }
    }

    fn set_counters(&mut self, processor: Processor, counters: Counters)
        ensures
            final(self)@ == old(self)@.with_counters(processor, counters),
    {
        match processor {
            Processor::Default => {
                self.default = counters;
            },
            Processor::Fallback => {
                self.fallback = counters;
            },
        }
    }

    /// Whether every command of a list would succeed if they were carried
    /// out one after the other. Nothing is carried out.
    pub fn fits(&self, commands: &Vec<StoreCommand>) -> (fits: bool)
        ensures
            fits == !(apply_each(self@, commands_view(commands@)).1 is Failed),
    {
        let mut default = self.default;
        let mut fallback = self.fallback;
        let ghost mut imagined = self@;
        let mut i: usize = 0;
        assert(commands_view(commands@).skip(0) =~= commands_view(commands@));
        while i < commands.len()
            invariant
                i <= commands.len(),
                imagined.default == default,
                imagined.fallback == fallback,
                apply_each(imagined, commands_view(commands@).skip(i as int)) == apply_each(
                    self@,
                    commands_view(commands@),
                ),
            decreases commands.len() - i,
        {
            let ghost rest = commands_view(commands@).skip(i as int);
            assert(rest[0] == commands@[i as int]@);
            assert(rest.drop_first() =~= commands_view(commands@).skip(i + 1));
            match &commands[i] {
                StoreCommand::AddRequests { processor, by } => {
                    let old_counters = match processor {
                        Processor::Default => default,
                        Processor::Fallback => fallback,
                    };
                    match old_counters.requests.checked_add(*by) {
                        Some(requests) => {
                            let counters = Counters { requests, ..old_counters };
                            match processor {
                                Processor::Default => {
                                    default = counters;
                                },
                                Processor::Fallback => {
                                    fallback = counters;
                                },
                            }
                        },
                        None => {
                            return false;
                        },
                    }
                },
                StoreCommand::AddAmount { processor, amount } => {
                    let old_counters = match processor {
                        Processor::Default => default,
                        Processor::Fallback => fallback,
                    };
                    match old_counters.amount.checked_add(amount.micros() as u128) {
                        Some(total) => {
                            let counters = Counters { amount: total, ..old_counters };
                            match processor {
                                Processor::Default => {
                                    default = counters;
                                },
                                Processor::Fallback => {
                                    fallback = counters;
                                },
                            }
                        },
                        None => {
                            return false;
                        },
                    }
                },
                StoreCommand::Clear => {
                    default = Counters { requests: 0, amount: 0 };
                    fallback = Counters { requests: 0, amount: 0 };
                },
                _ => {},
            }
            proof {
                imagined = apply_command(imagined, commands@[i as int]@).0;
            }
            i = i + 1;
        }
        true
    }

    /// Carries out one request and answers it.
    pub fn execute(&mut self, request: &StoreRequest) -> (reply: StoreReply)
        ensures
            (final(self)@, reply@) == apply_request(old(self)@, request@),
    {
        match request {
            StoreRequest::One(command) => self.apply(command),
            StoreRequest::Atomic(commands) => {
                if !self.fits(commands) {
                    return StoreReply::Failed;
                }
                let mut i: usize = 0;
                assert(commands_view(commands@).skip(0) =~= commands_view(commands@));
                while i < commands.len()
                    invariant
                        i <= commands.len(),
                        request@ == RequestView::Atomic(commands_view(commands@)),
                        !(apply_each(old(self)@, commands_view(commands@)).1 is Failed),
                        apply_each(self@, commands_view(commands@).skip(i as int)) == apply_each(
                            old(self)@,
                            commands_view(commands@),
                        ),
                    decreases commands.len() - i,
                {
                    let ghost rest = commands_view(commands@).skip(i as int);
                    assert(rest[0] == commands@[i as int]@);
                    assert(rest.drop_first() =~= commands_view(commands@).skip(i + 1));
                    let _ = self.apply(&commands[i]);
                    i = i + 1;
                }
                StoreReply::Done
            },
        }
    }
}

} // verus!
