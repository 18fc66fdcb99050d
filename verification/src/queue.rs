//! A first-in, first-out hand-off queue.
//!
//! The queue is the sequential heart of a blocking channel: a caller that
//! shares it between threads wraps it in a lock and waits while
//! [`Queue::pop`] answers `None`.

use std::collections::VecDeque;
use vstd::prelude::*;

verus! {

/// An unbounded FIFO queue. Its view is the sequence of waiting items,
/// oldest first.
pub struct Queue<T> {
    items: VecDeque<T>,
}

impl<T> View for Queue<T> {
    type V = Seq<T>;

    closed spec fn view(&self) -> Seq<T> {
        self.items@
    }
}

/// The queue that results from pushing `items`, in order, onto `queue`.
pub open spec fn push_all<T>(queue: Seq<T>, items: Seq<T>) -> Seq<T>
    decreases items.len(),
{
    if items.len() == 0 {
        queue
    } else {
        push_all(queue.push(items[0]), items.drop_first())
    }
}

/// What `count` successive pops hand out from `queue`, oldest first.
pub open spec fn pop_many<T>(queue: Seq<T>, count: nat) -> Seq<T>
    decreases count,
{
    if count == 0 || queue.len() == 0 {
        Seq::empty()
    } else {
        seq![queue[0]] + pop_many(queue.drop_first(), (count - 1) as nat)
    }
}

impl<T> Queue<T> {
    /// An empty queue.
    pub fn new() -> (queue: Self)
        ensures
            queue@ == Seq::<T>::empty(),
    {
        Queue { items: VecDeque::new() }
    }

    /// Appends `item` behind everything already waiting. Never refuses.
    pub fn push(&mut self, item: T)
        ensures
            final(self)@ == old(self)@.push(item),
    {
        self.items.push_back(item);
    }

    /// Removes and returns the oldest item, or `None` when nothing waits.
    pub fn pop(&mut self) -> (item: Option<T>)
        ensures
            old(self)@.len() == 0 ==> item is None && final(self)@ == old(self)@,
            old(self)@.len() > 0 ==> item == Some(old(self)@[0]) && final(self)@
                == old(self)@.drop_first(),
    {
        self.items.pop_front()
    }

    /// The number of waiting items.
    pub fn len(&self) -> (n: usize)
        ensures
            n == self@.len(),
    {
        self.items.len()
    }

    /// Whether nothing waits.
    pub fn is_empty(&self) -> (empty: bool)
        ensures
            empty == (self@.len() == 0),
    {
        self.items.len() == 0
    }
}

/// Pushing a batch of items appends them in the order given.
pub proof fn lemma_push_all_appends<T>(queue: Seq<T>, items: Seq<T>)
    ensures
        push_all(queue, items) == queue + items,
    decreases items.len(),
{
    if items.len() == 0 {
        assert(queue + items =~= queue);
    } else {
        lemma_push_all_appends(queue.push(items[0]), items.drop_first());
        assert(queue.push(items[0]) + items.drop_first() =~= queue + items);
    }
}

/// Popping as many times as items wait hands out the whole queue, oldest first.
pub proof fn lemma_pop_many_drains<T>(queue: Seq<T>)
    ensures
        pop_many(queue, queue.len()) == queue,
    decreases queue.len(),
{
    if queue.len() > 0 {
        lemma_pop_many_drains(queue.drop_first());
        assert(seq![queue[0]] + queue.drop_first() =~= queue);
    } else {
        assert(queue =~= Seq::empty());
    }
}

/// First in, first out: items pushed onto an empty queue come back out in
/// the order in which they went in.
pub proof fn lemma_fifo<T>(items: Seq<T>)
    ensures
        pop_many(push_all(Seq::empty(), items), items.len()) == items,
{
    lemma_push_all_appends(Seq::<T>::empty(), items);
    assert(Seq::<T>::empty() + items =~= items);
    lemma_pop_many_drains(items);
}

} // verus!
