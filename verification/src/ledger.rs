//! The books balance: what the running counters say of a processor is what
//! the payment log holds for it.
//!
//! A summary over everything is read off the counters, a summary over a
//! range is added up from the log. This module runs the operations of the
//! protocol against the store of [`apply_request`] and proves that the two
//! ways agree as long as payments are only ever recorded by the protocol.

use crate::amount::{cents_nearest, Amount};
use crate::clock::rfc3339_millis;
use crate::memory::{
    apply_all, apply_command, apply_each, apply_request, entries_between, entry_of, in_window,
    log_insert, Counters, MemoryStore, ScoredRecord, StoreState,
};
use crate::payment::{lemma_processor_names, Job, JobView, Processor};
use crate::store::{
    amounts_in, counter_reads, first_fault, is_processed_step, publish_step, purge_step, record_of,
    replies_view, requests_in, save_batch, save_step, summary_of_entries, summary_step,
    window_of, ReplyView, RequestView, Step, StepView, Store, StoreError, StoreReply, Summary,
    Window,
};
use vstd::prelude::*;

verus! {

/// What one caller wants recorded for the payment.
pub struct SaveCall {
    pub processor: Processor,
    pub amount: nat,
    pub timestamp: Seq<char>,
}

/// The store after exactly one of the calls took effect on `start`.
pub open spec fn recorded_once(
    correlation_id: Seq<char>,
    call: SaveCall,
    score_millis: i64,
    start: StoreState,
) -> StoreState {
    let old = start.counters(call.processor);
    StoreState {
        markers: start.markers.insert(correlation_id),
        log: log_insert(
            start.log,
            ScoredRecord {
                score_millis,
                record: record_of(correlation_id, call.processor, call.amount, call.timestamp),
            },
        ),
        ..start
    }.with_counters(
        call.processor,
        Counters {
            requests: (old.requests + 1) as u64,
            amount: (old.amount + call.amount) as u128,
        },
    )
}

/// Whether the counters of the call's processor have room for the call.
pub open spec fn has_room(call: SaveCall, state: StoreState) -> bool {
    &&& state.counters(call.processor).requests < u64::MAX
    &&& state.counters(call.processor).amount + call.amount <= u128::MAX
}

/// The store with the marker of a payment set and nothing else changed.
pub open spec fn claimed(correlation_id: Seq<char>, state: StoreState) -> StoreState {
    StoreState { markers: state.markers.insert(correlation_id), ..state }
}

/// The atomic request that follows a fresh claim puts the payment on
/// record if the counters have room for it, and else changes nothing and
/// fails.
pub proof fn lemma_batch_records(
    correlation_id: Seq<char>,
    call: SaveCall,
    score_millis: i64,
    start: StoreState,
)
    ensures
        apply_all(
            claimed(correlation_id, start),
            save_batch(correlation_id, call.processor, call.amount, call.timestamp, score_millis),
        ) == if has_room(call, start) {
            (recorded_once(correlation_id, call, score_millis, start), ReplyView::Done)
        } else {
            (claimed(correlation_id, start), ReplyView::Failed)
        },
{
    let marked = claimed(correlation_id, start);
    let batch = save_batch(
        correlation_id,
        call.processor,
        call.amount,
        call.timestamp,
        score_millis,
    );
    let s1 = apply_command(marked, batch[0]).0;
    let b1 = batch.drop_first();
    let s2 = apply_command(s1, b1[0]).0;
    let b2 = b1.drop_first();
    let s3 = apply_command(s2, b2[0]).0;
    let b3 = b2.drop_first();
    let s4 = apply_command(s3, b3[0]).0;
    let b4 = b3.drop_first();
    assert(b4.len() == 0);
    assert(apply_each(s4, b4) == (s4, ReplyView::Done));
    assert(apply_each(marked, batch) == apply_each(s1, b1));
    assert(apply_each(s1, b1) == apply_each(s2, b2));
    if has_room(call, start) {
        assert(apply_each(s3, b3) == apply_each(s4, b4));
        assert(apply_each(s2, b2) == apply_each(s3, b3));
        assert(s4 == recorded_once(correlation_id, call, score_millis, start));
    } else if start.counters(call.processor).requests < u64::MAX {
        assert(apply_each(s2, b2) == apply_each(s3, b3));
        assert(apply_command(s3, b3[0]).1 is Failed);
        assert(apply_each(s3, b3).1 is Failed);
    } else {
        assert(apply_command(s2, b2[0]).1 is Failed);
        assert(apply_each(s2, b2).1 is Failed);
    }
}

/// Where an operation ends when it is carried through against the store:
/// each request that it sends is applied, and the reply is handed back to
/// it, until it is done. `None` if it is not done after `patience`
/// requests.
pub open spec fn carried_out<T>(
    state: StoreState,
    operation: spec_fn(Seq<ReplyView>) -> StepView<T>,
    replies: Seq<ReplyView>,
    patience: nat,
) -> Option<(StoreState, T)>
    decreases patience,
{
    match operation(replies) {
        StepView::Done(result) => Some((state, result)),
        StepView::Send(request) => {
            if patience == 0 {
                None
            } else {
                let (next, reply) = apply_request(state, request);
                carried_out(next, operation, replies.push(reply), (patience - 1) as nat)
            }
        },
    }
}

/// Recording a payment, carried through against the store.
pub open spec fn saved(correlation_id: Seq<char>, call: SaveCall, state: StoreState) -> Option<
    (StoreState, Result<bool, StoreError>),
> {
    carried_out(
        state,
        |replies: Seq<ReplyView>|
            save_step(
                correlation_id,
                call.processor,
                call.amount,
                call.timestamp,
                rfc3339_millis(call.timestamp),
                replies,
            ),
        Seq::empty(),
        2,
    )
}

/// A summary, carried through against the store.
pub open spec fn summarized(window: Window, state: StoreState) -> Option<
    (StoreState, Result<Summary, StoreError>),
> {
    carried_out(state, |replies: Seq<ReplyView>| summary_step(window, replies), Seq::empty(), 4)
}

/// Clearing the store, carried through against the store.
pub open spec fn purged(state: StoreState) -> Option<(StoreState, Result<(), StoreError>)> {
    carried_out(state, |replies: Seq<ReplyView>| purge_step(replies), Seq::empty(), 1)
}

/// Asking whether a payment is on record, carried through against the store.
pub open spec fn asked(correlation_id: Seq<char>, state: StoreState) -> Option<(StoreState, bool)> {
    carried_out(
        state,
        |replies: Seq<ReplyView>| is_processed_step(correlation_id, replies),
        Seq::empty(),
        1,
    )
}

/// Publishing a job, carried through against the store.
pub open spec fn published(job: JobView, state: StoreState) -> Option<
    (StoreState, Result<(), StoreError>),
> {
    carried_out(state, |replies: Seq<ReplyView>| publish_step(job, replies), Seq::empty(), 1)
}

/// The number of records in the log that name `processor`.
pub open spec fn logged_requests(log: Seq<ScoredRecord>, processor: Processor) -> nat
    decreases log.len(),
{
    if log.len() == 0 {
        0
    } else {
        logged_requests(log.drop_last(), processor) + if log.last().record.processor == processor {
            1nat
        } else {
            0nat
        }
    }
}

/// The sum of the amounts of the records in the log that name `processor`.
pub open spec fn logged_amount(log: Seq<ScoredRecord>, processor: Processor) -> nat
    decreases log.len(),
{
    if log.len() == 0 {
        0
    } else {
        logged_amount(log.drop_last(), processor) + if log.last().record.processor == processor {
            log.last().record.amount
        } else {
            0nat
        }
    }
}

/// The books balance: for each processor the counters say what the log holds.
pub open spec fn balanced(state: StoreState) -> bool {
    forall|processor: Processor|
        {
            &&& (#[trigger] state.counters(processor)).requests == logged_requests(
                state.log,
                processor,
            )
            &&& state.counters(processor).amount == logged_amount(state.log, processor)
        }
}

/// A record more in the log is a request more for its processor, and its
/// amount more.
pub proof fn lemma_log_insert_counts(
    log: Seq<ScoredRecord>,
    entry: ScoredRecord,
    processor: Processor,
)
    ensures
        logged_requests(log_insert(log, entry), processor) == logged_requests(log, processor)
            + if entry.record.processor == processor {
            1nat
        } else {
            0nat
        },
        logged_amount(log_insert(log, entry), processor) == logged_amount(log, processor)
            + if entry.record.processor == processor {
            entry.record.amount
        } else {
            0nat
        },
    decreases log.len(),
{
    if log.len() == 0 {
        assert(seq![entry].drop_last() =~= log);
    } else if log.last().score_millis <= entry.score_millis {
        assert(log.push(entry).drop_last() =~= log);
    } else {
        let shorter = log_insert(log.drop_last(), entry);
        lemma_log_insert_counts(log.drop_last(), entry, processor);
        assert(shorter.push(log.last()).drop_last() =~= shorter);
    }
}

/// Reading the whole log for a summary gives the logged requests and amounts.
pub proof fn lemma_entries_count(log: Seq<ScoredRecord>, processor: Processor)
    ensures
        requests_in(entries_between(log, None, None), processor) == logged_requests(log, processor),
        amounts_in(entries_between(log, None, None), processor) == logged_amount(log, processor),
    decreases log.len(),
{
    if log.len() > 0 {
        lemma_entries_count(log.drop_last(), processor);
        let earlier = entries_between(log.drop_last(), None, None);
        let entry = Some(entry_of(log.last().record));
        assert(in_window(log.last().score_millis, None, None));
        assert(earlier.push(entry).drop_last() =~= earlier);
        lemma_processor_names(log.last().record.processor);
    }
}

/// Recording a payment whose marker is not set puts it on record, once.
pub proof fn lemma_saved_fresh(correlation_id: Seq<char>, call: SaveCall, state: StoreState)
    requires
        !state.markers.contains(correlation_id),
        rfc3339_millis(call.timestamp) is Some,
        has_room(call, state),
    ensures
        saved(correlation_id, call, state) == Some(
            (
                recorded_once(correlation_id, call, rfc3339_millis(call.timestamp)->0, state),
                Ok::<bool, StoreError>(true),
            ),
        ),
{
    let score = rfc3339_millis(call.timestamp)->0;
    let operation = |replies: Seq<ReplyView>|
        save_step(
            correlation_id,
            call.processor,
            call.amount,
            call.timestamp,
            rfc3339_millis(call.timestamp),
            replies,
        );
    let marked = claimed(correlation_id, state);
    let batch = save_batch(correlation_id, call.processor, call.amount, call.timestamp, score);
    let first = Seq::<ReplyView>::empty().push(ReplyView::Flag(true));
    let second = first.push(ReplyView::Done);
    let end = recorded_once(correlation_id, call, score, state);
    lemma_batch_records(correlation_id, call, score, state);
    assert(operation(second) == StepView::<Result<bool, StoreError>>::Done(Ok(true)));
    assert(carried_out(end, operation, second, 0) == Some((end, Ok::<bool, StoreError>(true))));
    assert(operation(first) == StepView::<Result<bool, StoreError>>::Send(
        RequestView::Atomic(batch),
    ));
    assert(carried_out(marked, operation, first, 1) == carried_out(end, operation, second, 0));
    assert(carried_out(state, operation, Seq::empty(), 2) == carried_out(
        marked,
        operation,
        first,
        1,
    ));
}

/// Recording a payment whose marker is not set and whose counters have no
/// room for it sets the marker, leaves log and counters as they were, and
/// reports the store's failure.
pub proof fn lemma_saved_without_room(
    correlation_id: Seq<char>,
    call: SaveCall,
    state: StoreState,
)
    requires
        !state.markers.contains(correlation_id),
        rfc3339_millis(call.timestamp) is Some,
        !has_room(call, state),
    ensures
        saved(correlation_id, call, state) == Some(
            (claimed(correlation_id, state), Err::<bool, StoreError>(StoreError::Unavailable)),
        ),
{
    let score = rfc3339_millis(call.timestamp)->0;
    let operation = |replies: Seq<ReplyView>|
        save_step(
            correlation_id,
            call.processor,
            call.amount,
            call.timestamp,
            rfc3339_millis(call.timestamp),
            replies,
        );
    let marked = claimed(correlation_id, state);
    let batch = save_batch(correlation_id, call.processor, call.amount, call.timestamp, score);
    let first = Seq::<ReplyView>::empty().push(ReplyView::Flag(true));
    let second = first.push(ReplyView::Failed);
    lemma_batch_records(correlation_id, call, score, state);
    assert(operation(second) == StepView::<Result<bool, StoreError>>::Done(
        Err(StoreError::Unavailable),
    ));
    assert(carried_out(marked, operation, second, 0) == Some(
        (marked, Err::<bool, StoreError>(StoreError::Unavailable)),
    ));
    assert(operation(first) == StepView::<Result<bool, StoreError>>::Send(
        RequestView::Atomic(batch),
    ));
    assert(carried_out(marked, operation, first, 1) == carried_out(marked, operation, second, 0));
    assert(carried_out(state, operation, Seq::empty(), 2) == carried_out(
        marked,
        operation,
        first,
        1,
    ));
}

/// Recording a payment whose marker is not set and whose timestamp cannot
/// be read sets the marker, leaves log and counters as they were, and
/// reports the timestamp.
pub proof fn lemma_saved_unreadable(correlation_id: Seq<char>, call: SaveCall, state: StoreState)
    requires
        !state.markers.contains(correlation_id),
        rfc3339_millis(call.timestamp) is None,
    ensures
        saved(correlation_id, call, state) == Some(
            (
                claimed(correlation_id, state),
                Err::<bool, StoreError>(StoreError::InvalidTimestamp),
            ),
        ),
{
    let operation = |replies: Seq<ReplyView>|
        save_step(
            correlation_id,
            call.processor,
            call.amount,
            call.timestamp,
            rfc3339_millis(call.timestamp),
            replies,
        );
    let marked = claimed(correlation_id, state);
    let first = Seq::<ReplyView>::empty().push(ReplyView::Flag(true));
    assert(operation(first) == StepView::<Result<bool, StoreError>>::Done(
        Err(StoreError::InvalidTimestamp),
    ));
    assert(carried_out(marked, operation, first, 1) == Some(
        (marked, Err::<bool, StoreError>(StoreError::InvalidTimestamp)),
    ));
    assert(carried_out(state, operation, Seq::empty(), 2) == carried_out(
        marked,
        operation,
        first,
        1,
    ));
}

/// Recording a payment whose marker is set changes nothing and says so,
/// whatever processor, amount and timestamp are passed.
pub proof fn lemma_saved_again(correlation_id: Seq<char>, call: SaveCall, state: StoreState)
    requires
        state.markers.contains(correlation_id),
    ensures
        saved(correlation_id, call, state) == Some((state, Ok::<bool, StoreError>(false))),
{
    let operation = |replies: Seq<ReplyView>|
        save_step(
            correlation_id,
            call.processor,
            call.amount,
            call.timestamp,
            rfc3339_millis(call.timestamp),
            replies,
        );
    let first = Seq::<ReplyView>::empty().push(ReplyView::Flag(false));
    assert(operation(first) == StepView::<Result<bool, StoreError>>::Done(Ok(false)));
    assert(carried_out(state, operation, first, 1) == Some((state, Ok::<bool, StoreError>(false))));
    assert(carried_out(state, operation, Seq::empty(), 2) == carried_out(
        state,
        operation,
        first,
        1,
    ));
}

/// Once a payment is on record, recording it again changes nothing: after
/// a call that answered `true`, every later call for the same payment
/// answers `false` and leaves the store as the first call left it.
pub proof fn lemma_saved_twice(
    correlation_id: Seq<char>,
    first: SaveCall,
    second: SaveCall,
    state: StoreState,
)
    requires
        saved(correlation_id, first, state) matches Some(end) && end.1 == Ok::<bool, StoreError>(
            true,
        ),
    ensures
        saved(correlation_id, first, state) matches Some(end) && saved(
            correlation_id,
            second,
            end.0,
        ) == Some((end.0, Ok::<bool, StoreError>(false))),
{
    if state.markers.contains(correlation_id) {
        lemma_saved_again(correlation_id, first, state);
    } else if rfc3339_millis(first.timestamp) is None {
        lemma_saved_unreadable(correlation_id, first, state);
    } else if has_room(first, state) {
        lemma_saved_fresh(correlation_id, first, state);
    } else {
        lemma_saved_without_room(correlation_id, first, state);
    }
    let end = saved(correlation_id, first, state)->0;
    lemma_saved_again(correlation_id, second, end.0);
}

/// Recording a payment keeps the books balanced, whether it succeeds or not.
pub proof fn lemma_saving_keeps_balance(
    correlation_id: Seq<char>,
    call: SaveCall,
    state: StoreState,
)
    requires
        balanced(state),
    ensures
        saved(correlation_id, call, state) matches Some(end) && balanced(end.0),
{
    let marked = claimed(correlation_id, state);
    assert forall|processor: Processor|
        {
            &&& (#[trigger] marked.counters(processor)).requests == logged_requests(
                marked.log,
                processor,
            )
            &&& marked.counters(processor).amount == logged_amount(marked.log, processor)
        } by {
        assert(state.counters(processor).requests == logged_requests(state.log, processor));
    }
    if state.markers.contains(correlation_id) {
        lemma_saved_again(correlation_id, call, state);
    } else if rfc3339_millis(call.timestamp) is None {
        lemma_saved_unreadable(correlation_id, call, state);
    } else if !has_room(call, state) {
        lemma_saved_without_room(correlation_id, call, state);
    } else {
        lemma_saved_fresh(correlation_id, call, state);
        let score = rfc3339_millis(call.timestamp)->0;
        let end = recorded_once(correlation_id, call, score, state);
        let entry = ScoredRecord {
            score_millis: score,
            record: record_of(correlation_id, call.processor, call.amount, call.timestamp),
        };
        assert forall|processor: Processor|
            {
                &&& (#[trigger] end.counters(processor)).requests == logged_requests(
                    end.log,
                    processor,
                )
                &&& end.counters(processor).amount == logged_amount(end.log, processor)
            } by {
            lemma_log_insert_counts(state.log, entry, processor);
            assert(state.counters(processor).requests == logged_requests(state.log, processor));
        }
    }
}

/// Clearing the store leaves the books balanced.
pub proof fn lemma_purging_balances(state: StoreState)
    ensures
        purged(state) matches Some(end) && balanced(end.0),
{
    let operation = |replies: Seq<ReplyView>| purge_step(replies);
    let cleared = StoreState { published: state.published, ..StoreState::empty() };
    let first = Seq::<ReplyView>::empty().push(ReplyView::Done);
    assert(operation(first) == StepView::<Result<(), StoreError>>::Done(Ok(())));
    assert(carried_out(cleared, operation, first, 0) == Some((cleared, Ok::<(), StoreError>(()))));
    assert(carried_out(state, operation, Seq::empty(), 1) == carried_out(
        cleared,
        operation,
        first,
        0,
    ));
    assert forall|processor: Processor|
        {
            &&& (#[trigger] cleared.counters(processor)).requests == logged_requests(
                cleared.log,
                processor,
            )
            &&& cleared.counters(processor).amount == logged_amount(cleared.log, processor)
        } by {}
}

/// The summary over everything, read off the counters.
pub open spec fn summary_of_counters(state: StoreState) -> Summary {
    Summary {
        default: crate::store::ProcessorSummary {
            total_requests: state.default.requests,
            total_amount_cents: cents_nearest(state.default.amount as nat) as u128,
        },
        fallback: crate::store::ProcessorSummary {
            total_requests: state.fallback.requests,
            total_amount_cents: cents_nearest(state.fallback.amount as nat) as u128,
        },
    }
}

/// A summary over everything reports the counters and leaves the store as
/// it is.
pub proof fn lemma_summarized_counters(state: StoreState)
    ensures
        summarized(Window::All, state) == Some(
            (state, Ok::<Summary, StoreError>(summary_of_counters(state))),
        ),
{
    let operation = |replies: Seq<ReplyView>| summary_step(Window::All, replies);
    let r0 = Seq::<ReplyView>::empty();
    let r1 = r0.push(ReplyView::Count(state.default.requests));
    let r2 = r1.push(ReplyView::Total(state.default.amount));
    let r3 = r2.push(ReplyView::Count(state.fallback.requests));
    let r4 = r3.push(ReplyView::Total(state.fallback.amount));
    reveal_with_fuel(first_fault, 5);
    assert(operation(r4) == StepView::<Result<Summary, StoreError>>::Done(
        Ok(summary_of_counters(state)),
    ));
    assert(carried_out(state, operation, r4, 0) == Some(
        (state, Ok::<Summary, StoreError>(summary_of_counters(state))),
    ));
    assert(operation(r3) == StepView::<Result<Summary, StoreError>>::Send(
        RequestView::One(counter_reads()[3]),
    ));
    assert(carried_out(state, operation, r3, 1) == carried_out(state, operation, r4, 0));
    assert(operation(r2) == StepView::<Result<Summary, StoreError>>::Send(
        RequestView::One(counter_reads()[2]),
    ));
    assert(carried_out(state, operation, r2, 2) == carried_out(state, operation, r3, 1));
    assert(operation(r1) == StepView::<Result<Summary, StoreError>>::Send(
        RequestView::One(counter_reads()[1]),
    ));
    assert(carried_out(state, operation, r1, 3) == carried_out(state, operation, r2, 2));
    assert(operation(r0) == StepView::<Result<Summary, StoreError>>::Send(
        RequestView::One(counter_reads()[0]),
    ));
    assert(carried_out(state, operation, r0, 4) == carried_out(state, operation, r1, 3));
}

/// A summary over a range adds up the records whose score lies in the
/// range and leaves the store as it is.
pub proof fn lemma_summarized_range(
    from_millis: Option<i64>,
    to_millis: Option<i64>,
    state: StoreState,
)
    ensures
        summarized(Window::Between { from_millis, to_millis }, state) == Some(
            (
                state,
                Ok::<Summary, StoreError>(
                    summary_of_entries(entries_between(state.log, from_millis, to_millis)),
                ),
            ),
        ),
{
    let window = Window::Between { from_millis, to_millis };
    let operation = |replies: Seq<ReplyView>| summary_step(window, replies);
    let entries = entries_between(state.log, from_millis, to_millis);
    let r1 = Seq::<ReplyView>::empty().push(ReplyView::Records(entries));
    assert(operation(r1) == StepView::<Result<Summary, StoreError>>::Done(
        Ok(summary_of_entries(entries)),
    ));
    assert(carried_out(state, operation, r1, 3) == Some(
        (state, Ok::<Summary, StoreError>(summary_of_entries(entries))),
    ));
    assert(carried_out(state, operation, Seq::empty(), 4) == carried_out(
        state,
        operation,
        r1,
        3,
    ));
}

/// Summary consistency: while the books balance, the summary over
/// everything that is read off the counters is the summary that adding up
/// the whole log gives.
pub proof fn lemma_summaries_agree(state: StoreState)
    requires
        balanced(state),
    ensures
        summarized(Window::All, state) == summarized(
            Window::Between { from_millis: None, to_millis: None },
            state,
        ),
{
    lemma_summarized_counters(state);
    lemma_summarized_range(None, None, state);
    lemma_entries_count(state.log, Processor::Default);
    lemma_entries_count(state.log, Processor::Fallback);
    assert(state.counters(Processor::Default) == state.default);
    assert(state.counters(Processor::Fallback) == state.fallback);
}

impl MemoryStore {
    fn answer(&mut self, request: &crate::store::StoreRequest, replies: &mut Vec<StoreReply>)
        ensures
            (final(self)@, replies_view(final(replies)@).last()) == apply_request(
                old(self)@,
                request@,
            ),
            replies_view(final(replies)@) == replies_view(old(replies)@).push(
                apply_request(old(self)@, request@).1,
            ),
    {
        let reply = self.execute(request);
        replies.push(reply);
        assert(replies_view(replies@) =~= replies_view(old(replies)@).push(
            apply_request(old(self)@, request@).1,
        ));
    }

    /// Records a payment: carries the protocol of [`Store::save`] through
    /// against this store.
    pub fn save(
        &mut self,
        correlation_id: &str,
        processor: Processor,
        amount: Amount,
        timestamp: &str,
    ) -> (result: Result<bool, StoreError>)
        ensures
            saved(
                correlation_id@,
                SaveCall { processor, amount: amount@, timestamp: timestamp@ },
                old(self)@,
            ) == Some((final(self)@, result)),
    {
        let store = Store::new();
        let mut replies: Vec<StoreReply> = Vec::new();
        let ghost operation = |replies: Seq<ReplyView>|
            save_step(
                correlation_id@,
                processor,
                amount@,
                timestamp@,
                rfc3339_millis(timestamp@),
                replies,
            );
        let ghost start = self@;
        assert(replies_view(replies@) =~= Seq::empty());
        match store.save(correlation_id, processor, amount, timestamp, &replies) {
            Step::Done(result) => {
                return result;
            },
            Step::Send(request) => {
                self.answer(&request, &mut replies);
            },
        }
        assert(carried_out(start, operation, Seq::empty(), 2) == carried_out(
            self@,
            operation,
            replies_view(replies@),
            1,
        ));
        match store.save(correlation_id, processor, amount, timestamp, &replies) {
            Step::Done(result) => {
                return result;
            },
            Step::Send(request) => {
                let ghost before = self@;
                let ghost told = replies_view(replies@);
                self.answer(&request, &mut replies);
                assert(carried_out(before, operation, told, 1) == carried_out(
                    self@,
                    operation,
                    replies_view(replies@),
                    0,
                ));
            },
        }
        match store.save(correlation_id, processor, amount, timestamp, &replies) {
            Step::Done(result) => result,
            Step::Send(_) => Err(StoreError::UnexpectedReply),
        }
    }

    /// Asks whether a payment is on record: carries the protocol of
    /// [`Store::is_processed`] through against this store.
    pub fn is_processed(&mut self, correlation_id: &str) -> (found: bool)
        ensures
            asked(correlation_id@, old(self)@) == Some((final(self)@, found)),
    {
        let store = Store::new();
        let mut replies: Vec<StoreReply> = Vec::new();
        let ghost operation = |replies: Seq<ReplyView>|
            is_processed_step(correlation_id@, replies);
        let ghost start = self@;
        assert(replies_view(replies@) =~= Seq::empty());
        match store.is_processed(correlation_id, &replies) {
            Step::Done(found) => {
                return found;
            },
            Step::Send(request) => {
                self.answer(&request, &mut replies);
            },
        }
        assert(carried_out(start, operation, Seq::empty(), 1) == carried_out(
            self@,
            operation,
            replies_view(replies@),
            0,
        ));
        match store.is_processed(correlation_id, &replies) {
            Step::Done(found) => found,
            Step::Send(_) => false,
        }
    }

    /// Clears the store: carries the protocol of [`Store::purge_all`]
    /// through against this store.
    pub fn purge_all(&mut self) -> (result: Result<(), StoreError>)
        ensures
            purged(old(self)@) == Some((final(self)@, result)),
    {
        let store = Store::new();
        let mut replies: Vec<StoreReply> = Vec::new();
        let ghost operation = |replies: Seq<ReplyView>| purge_step(replies);
        let ghost start = self@;
        assert(replies_view(replies@) =~= Seq::empty());
        match store.purge_all(&replies) {
            Step::Done(result) => {
                return result;
            },
            Step::Send(request) => {
                self.answer(&request, &mut replies);
            },
        }
        assert(carried_out(start, operation, Seq::empty(), 1) == carried_out(
            self@,
            operation,
            replies_view(replies@),
            0,
        ));
        match store.purge_all(&replies) {
            Step::Done(result) => result,
            Step::Send(_) => Err(StoreError::UnexpectedReply),
        }
    }

    /// Publishes a job: carries the protocol of [`Store::publish`] through
    /// against this store.
    pub fn publish(&mut self, job: &Job) -> (result: Result<(), StoreError>)
        ensures
            published(job@, old(self)@) == Some((final(self)@, result)),
    {
        let store = Store::new();
        let mut replies: Vec<StoreReply> = Vec::new();
        let ghost operation = |replies: Seq<ReplyView>| publish_step(job@, replies);
        let ghost start = self@;
        assert(replies_view(replies@) =~= Seq::empty());
        match store.publish(job, &replies) {
            Step::Done(result) => {
                return result;
            },
            Step::Send(request) => {
                self.answer(&request, &mut replies);
            },
        }
        assert(carried_out(start, operation, Seq::empty(), 1) == carried_out(
            self@,
            operation,
            replies_view(replies@),
            0,
        ));
        match store.publish(job, &replies) {
            Step::Done(result) => result,
            Step::Send(_) => Err(StoreError::UnexpectedReply),
        }
    }

    /// Sums up the payments on record: carries the protocol of
    /// [`Store::summary_over`] through against this store.
    pub fn summary_over(&mut self, window: Window) -> (result: Result<Summary, StoreError>)
        ensures
            summarized(window, old(self)@) == Some((final(self)@, result)),
    {
        let store = Store::new();
        let mut replies: Vec<StoreReply> = Vec::new();
        let ghost start = self@;
        assert(replies_view(replies@) =~= Seq::empty());
        let mut patience: usize = 4;
        while patience > 0
            invariant
                patience <= 4,
                replies@.len() == 4 - patience,
                start == old(self)@,
                summarized(window, start) == carried_out(
                    self@,
                    |replies: Seq<ReplyView>| summary_step(window, replies),
                    replies_view(replies@),
                    patience as nat,
                ),
            decreases patience,
        {
            match store.summary_over(window, &replies) {
                Step::Done(result) => {
                    return result;
                },
                Step::Send(request) => {
                    self.answer(&request, &mut replies);
                },
            }
            patience = patience - 1;
        }
        match store.summary_over(window, &replies) {
            Step::Done(result) => result,
            Step::Send(_) => Err(StoreError::UnexpectedReply),
        }
    }

    /// Sums up the payments on record, over everything or between the
    /// bounds given as RFC 3339 text: see [`window_of`].
    pub fn summary(&mut self, from: Option<&str>, to: Option<&str>) -> (result: Result<
        Summary,
        StoreError,
    >)
        ensures
            summarized(
                window_of(
                    match from {
                        Some(t) => Some(t@),
                        None => None,
                    },
                    match to {
                        Some(t) => Some(t@),
                        None => None,
                    },
                ),
                old(self)@,
            ) == Some((final(self)@, result)),
    {
        self.summary_over(crate::store::window(from, to))
    }
}

} // verus!
