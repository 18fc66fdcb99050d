//! Many callers record the same payment at once.
//!
//! The shared store takes one request at a time, so whatever the callers do
//! at once reaches it in some order: a schedule. This module runs the
//! protocol of [`save_step`] for every caller against the store of
//! [`apply_request`] under an arbitrary schedule and proves that exactly
//! one of the calls takes effect.

use crate::clock::rfc3339_millis;
use crate::ledger::{
    claimed, has_room, lemma_batch_records, lemma_saved_fresh, lemma_saved_unreadable,
    lemma_saved_without_room, recorded_once, saved, SaveCall,
};
use crate::memory::{apply_request, StoreState};
use crate::store::{save_step, ReplyView, StepView, StoreError};
use vstd::prelude::*;

verus! {

/// The store and, for each caller, the replies it has received so far.
pub struct Racers {
    pub store: StoreState,
    pub replies: Seq<Seq<ReplyView>>,
}

/// How caller number `t` goes on.
pub open spec fn caller_step(
    correlation_id: Seq<char>,
    calls: Seq<SaveCall>,
    racers: Racers,
    t: int,
) -> StepView<Result<bool, StoreError>> {
    save_step(
        correlation_id,
        calls[t].processor,
        calls[t].amount,
        calls[t].timestamp,
        rfc3339_millis(calls[t].timestamp),
        racers.replies[t],
    )
}

/// The racers after caller number `t` has had its turn: its next request
/// has reached the store and the reply has come back. A caller that has
/// finished, or a turn given to nobody, changes nothing.
pub open spec fn advance(
    correlation_id: Seq<char>,
    calls: Seq<SaveCall>,
    racers: Racers,
    t: int,
) -> Racers {
    if 0 <= t < calls.len() {
        match caller_step(correlation_id, calls, racers, t) {
            StepView::Send(request) => {
                let (store, reply) = apply_request(racers.store, request);
                Racers { store, replies: racers.replies.update(t, racers.replies[t].push(reply)) }
            },
            StepView::Done(_) => racers,
        }
    } else {
        racers
    }
}

/// The racers after the turns of `schedule`, taken in order from a store
/// that holds `start`.
pub open spec fn race(
    correlation_id: Seq<char>,
    calls: Seq<SaveCall>,
    start: StoreState,
    schedule: Seq<int>,
) -> Racers
    decreases schedule.len(),
{
    if schedule.len() == 0 {
        Racers { store: start, replies: Seq::new(calls.len(), |t: int| Seq::empty()) }
    } else {
        advance(
            correlation_id,
            calls,
            race(correlation_id, calls, start, schedule.drop_last()),
            schedule.last(),
        )
    }
}

/// What caller number `t` got as the result of its call, once it has finished.
pub open spec fn result_of(
    correlation_id: Seq<char>,
    calls: Seq<SaveCall>,
    racers: Racers,
    t: int,
) -> Option<Result<bool, StoreError>> {
    match caller_step(correlation_id, calls, racers, t) {
        StepView::Done(result) => Some(result),
        StepView::Send(_) => None,
    }
}

/// Where a race stands. Either nobody has had a turn, or exactly one caller,
/// the winner, has claimed the marker: everybody else has either not asked
/// yet or has been told that the payment is on record. The winner has
/// either got no further than the claim, or its atomic request has put the
/// payment on record, or that request has failed and changed nothing.
spec fn standing(
    correlation_id: Seq<char>,
    calls: Seq<SaveCall>,
    start: StoreState,
    racers: Racers,
    winner: Option<int>,
) -> bool {
    &&& racers.replies.len() == calls.len()
    &&& match winner {
        None => racers.store == start && forall|t: int|
            0 <= t < calls.len() ==> (#[trigger] racers.replies[t]).len() == 0,
        Some(w) => {
            let told = racers.replies[w];
            let readable = rfc3339_millis(calls[w].timestamp) is Some;
            &&& 0 <= w < calls.len()
            &&& forall|t: int|
                0 <= t < calls.len() && t != w ==> (#[trigger] racers.replies[t]) == Seq::<
                    ReplyView,
                >::empty() || racers.replies[t] == seq![ReplyView::Flag(false)]
            &&& {
                ||| told == seq![ReplyView::Flag(true)] && racers.store == claimed(
                    correlation_id,
                    start,
                )
                ||| told == seq![ReplyView::Flag(true), ReplyView::Done] && readable && has_room(
                    calls[w],
                    start,
                ) && racers.store == recorded_once(
                    correlation_id,
                    calls[w],
                    rfc3339_millis(calls[w].timestamp)->0,
                    start,
                )
                ||| told == seq![ReplyView::Flag(true), ReplyView::Failed] && readable && !has_room(
                    calls[w],
                    start,
                ) && racers.store == claimed(correlation_id, start)
            }
        },
    }
}

/// One turn keeps the race standing as described.
proof fn lemma_turn(
    correlation_id: Seq<char>,
    calls: Seq<SaveCall>,
    start: StoreState,
    racers: Racers,
    winner: Option<int>,
    t: int,
) -> (next: Option<int>)
    requires
        !start.markers.contains(correlation_id),
        standing(correlation_id, calls, start, racers, winner),
    ensures
        standing(correlation_id, calls, start, advance(correlation_id, calls, racers, t), next),
{
    let after = advance(correlation_id, calls, racers, t);
    let call = calls[t];
    let score = rfc3339_millis(call.timestamp)->0;
    match winner {
        _ if !(0 <= t < calls.len()) => winner,
        None => {
            assert(racers.replies[t].len() == 0);
            assert forall|u: int| 0 <= u < calls.len() && u != t implies (
            #[trigger] after.replies[u]) == Seq::<ReplyView>::empty() by {
                assert(racers.replies[u].len() == 0);
                assert(racers.replies[u] =~= Seq::<ReplyView>::empty());
            }
            assert(after.replies[t] =~= seq![ReplyView::Flag(true)]);
            Some(t)
        },
        Some(w) => {
            if t == w {
                if racers.replies[w] == seq![ReplyView::Flag(true)] && rfc3339_millis(
                    call.timestamp,
                ) is Some {
                    lemma_batch_records(correlation_id, call, score, start);
                    if has_room(call, start) {
                        assert(after.replies[w] =~= seq![ReplyView::Flag(true), ReplyView::Done]);
                    } else {
                        assert(after.replies[w] =~= seq![
                            ReplyView::Flag(true),
                            ReplyView::Failed,
                        ]);
                    }
                }
                assert forall|u: int| 0 <= u < calls.len() && u != w implies (
                #[trigger] after.replies[u]) == racers.replies[u] by {}
            } else {
                assert(racers.store.markers.contains(correlation_id));
                if racers.replies[t] == Seq::<ReplyView>::empty() {
                    assert(after.replies[t] =~= seq![ReplyView::Flag(false)]);
                }
                assert forall|u: int| 0 <= u < calls.len() && u != w implies (
                #[trigger] after.replies[u]) == Seq::<ReplyView>::empty() || after.replies[u]
                    == seq![ReplyView::Flag(false)] by {
                    if u != t {
                        assert(after.replies[u] == racers.replies[u]);
                    }
                }
            }
            Some(w)
        },
    }
}

/// However the turns fall, the race stands as described.
proof fn lemma_race_stands(
    correlation_id: Seq<char>,
    calls: Seq<SaveCall>,
    start: StoreState,
    schedule: Seq<int>,
) -> (winner: Option<int>)
    requires
        !start.markers.contains(correlation_id),
    ensures
        standing(
            correlation_id,
            calls,
            start,
            race(correlation_id, calls, start, schedule),
            winner,
        ),
    decreases schedule.len(),
{
    if schedule.len() == 0 {
        None
    } else {
        let before = lemma_race_stands(correlation_id, calls, start, schedule.drop_last());
        lemma_turn(
            correlation_id,
            calls,
            start,
            race(correlation_id, calls, start, schedule.drop_last()),
            before,
            schedule.last(),
        )
    }
}

/// Idempotency: when any number of callers record the same payment at the
/// same time, on a store that holds no marker for it, then however their
/// requests interleave, once all have finished exactly one of them, the
/// winner, has taken effect: it has been told what it would have been told
/// had it called alone, the store holds what that one call alone would
/// have left, and all others have been told `false`. Where the winner's
/// timestamp can be read and the counters have room for it, it has been
/// told `true` and the store holds one more record and one more request
/// counted.
pub proof fn lemma_save_is_idempotent(
    correlation_id: Seq<char>,
    calls: Seq<SaveCall>,
    start: StoreState,
    schedule: Seq<int>,
) -> (winner: int)
    requires
        calls.len() > 0,
        !start.markers.contains(correlation_id),
        forall|t: int|
            0 <= t < calls.len() ==> #[trigger] result_of(
                correlation_id,
                calls,
                race(correlation_id, calls, start, schedule),
                t,
            ) is Some,
    ensures
        0 <= winner < calls.len(),
        forall|t: int|
            0 <= t < calls.len() && t != winner ==> #[trigger] result_of(
                correlation_id,
                calls,
                race(correlation_id, calls, start, schedule),
                t,
            ) == Some(Ok::<bool, StoreError>(false)),
        saved(correlation_id, calls[winner], start) == Some(
            (
                race(correlation_id, calls, start, schedule).store,
                result_of(
                    correlation_id,
                    calls,
                    race(correlation_id, calls, start, schedule),
                    winner,
                )->0,
            ),
        ),
        rfc3339_millis(calls[winner].timestamp) is Some && has_room(calls[winner], start) ==> {
            &&& result_of(
                correlation_id,
                calls,
                race(correlation_id, calls, start, schedule),
                winner,
            ) == Some(Ok::<bool, StoreError>(true))
            &&& race(correlation_id, calls, start, schedule).store == recorded_once(
                correlation_id,
                calls[winner],
                rfc3339_millis(calls[winner].timestamp)->0,
                start,
            )
        },
{
    let end = race(correlation_id, calls, start, schedule);
    let standing_winner = lemma_race_stands(correlation_id, calls, start, schedule);
    assert(standing_winner is Some) by {
        assert(result_of(correlation_id, calls, end, 0) is Some);
        if standing_winner is None {
            assert(end.replies[0].len() == 0);
        }
    }
    let w = standing_winner->0;
    assert(result_of(correlation_id, calls, end, w) is Some);
    assert forall|t: int| 0 <= t < calls.len() && t != w implies #[trigger] result_of(
        correlation_id,
        calls,
        end,
        t,
    ) == Some(Ok::<bool, StoreError>(false)) by {
        assert(result_of(correlation_id, calls, end, t) is Some);
        assert(end.replies[t] == Seq::<ReplyView>::empty() || end.replies[t]
            == seq![ReplyView::Flag(false)]);
    }
    if rfc3339_millis(calls[w].timestamp) is None {
        lemma_saved_unreadable(correlation_id, calls[w], start);
    } else if has_room(calls[w], start) {
        lemma_saved_fresh(correlation_id, calls[w], start);
    } else {
        lemma_saved_without_room(correlation_id, calls[w], start);
    }
    w
}

} // verus!
