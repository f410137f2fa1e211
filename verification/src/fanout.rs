//! Bookkeeping of the frame fan-out loop: the polling period and its
//! clamping, and the ordered list of subscriber handles with the prune pass
//! that drops the handles whose receiving end has gone away.

use vstd::prelude::*;

verus! {

/// Shortest polling period the loop accepts, in milliseconds.
pub const TICK_MIN_MS: u64 = 20;

/// Longest polling period the loop accepts, in milliseconds.
pub const TICK_MAX_MS: u64 = 1000;

/// Clamp a requested polling period into `[TICK_MIN_MS, TICK_MAX_MS]`.
pub fn clamp_tick(ms: u64) -> (r: u64)
    ensures
        r == if ms < TICK_MIN_MS {
            TICK_MIN_MS
        } else if ms > TICK_MAX_MS {
            TICK_MAX_MS
        } else {
            ms
        },
        TICK_MIN_MS <= r <= TICK_MAX_MS,
{
    if ms < TICK_MIN_MS {
        TICK_MIN_MS
    } else if ms > TICK_MAX_MS {
        TICK_MAX_MS
    } else {
        ms
    }
}

/// The parameters of one revival of the polling loop: how long it sleeps
/// between frames.
pub struct PollingTask {
    tick_ms: u64,
}

impl PollingTask {
    /// The polling period, in milliseconds.
    pub closed spec fn tick(self) -> u64 {
        self.tick_ms
    }

    pub fn new(tick_ms: u64) -> (r: PollingTask)
        ensures
            r.tick() == tick_ms,
    {
        PollingTask { tick_ms }
    }

    pub fn tick_ms(&self) -> (r: u64)
        ensures
            r == self.tick(),
    {
        self.tick_ms
    }
}

/// The subscribers that survive a prune pass: the entries whose `closed`
/// flag is down, kept in enrollment order.
pub open spec fn filter_open<T>(items: Seq<T>, closed: Seq<bool>) -> Seq<T>
    decreases items.len(),
{
    if items.len() == 0 || closed.len() == 0 {
        Seq::empty()
    } else if closed.last() {
        filter_open(items.drop_last(), closed.drop_last())
    } else {
        filter_open(items.drop_last(), closed.drop_last()).push(items.last())
    }
}

/// The ordered list of live subscriber handles the polling loop sends each
/// frame to. Handles enter at the back (the initial one first, then whatever
/// the registry delivers) and leave only through a prune pass.
pub struct Subscribers<T> {
    items: Vec<T>,
}

impl<T> Subscribers<T> {
    /// The handles, in enrollment order.
    pub closed spec fn list(self) -> Seq<T> {
        self.items@
    }

    /// A list holding only the initial subscriber, which is handed over
    /// directly so that the first frame reaches it even when the registry is
    /// saturated.
    pub fn new(initial: T) -> (r: Subscribers<T>)
        ensures
            r.list() == seq![initial],
    {
        let mut items: Vec<T> = Vec::new();
        items.push(initial);
        proof {
            assert(items@ =~= seq![initial]);
        }
        Subscribers { items }
    }

    pub fn len(&self) -> (n: usize)
        ensures
            n == self.list().len(),
    {
        self.items.len()
    }

    /// The loop's idle-exit test: true exactly when nobody is subscribed.
    pub fn is_empty(&self) -> (r: bool)
        ensures
            r == (self.list().len() == 0),
    {
        self.items.len() == 0
    }

    /// Add a newly accepted subscriber at the back of the list.
    pub fn enroll(&mut self, handle: T)
        ensures
            final(self).list() == old(self).list().push(handle),
    {
        self.items.push(handle);
    }

    pub fn get(&self, i: usize) -> (r: &T)
        requires
            i < self.list().len(),
        ensures
            *r == self.list()[i as int],
    {
        &self.items[i]
    }

    /// The prune pass: `closed[i]` reports that handle `i`'s receiving end
    /// was observed closed; exactly the open handles survive, in order.
    pub fn prune(&mut self, closed: &Vec<bool>)
        requires
            closed@.len() == old(self).list().len(),
        ensures
            final(self).list() == filter_open(old(self).list(), closed@),
    {
        let ghost orig = self.items@;
        let total = closed.len();
        let mut kept: Vec<T> = Vec::new();
        let mut i: usize = 0;
        while self.items.len() > 0
            invariant
                orig.len() == total,
                i + self.items@.len() == orig.len(),
                closed@.len() == orig.len(),
                self.items@ == orig.subrange(i as int, orig.len() as int),
                kept@ == filter_open(orig.take(i as int), closed@.take(i as int)),
            decreases self.items@.len(),
        {
            let it = self.items.remove(0);
            proof {
                lemma_filter_open_step(orig, closed@, i as int);
                assert(orig[i as int] == it);
            }
            if !closed[i] {
                kept.push(it);
            }
            i = i + 1;
            proof {
                assert(self.items@ =~= orig.subrange(i as int, orig.len() as int));
            }
        }
        proof {
            assert(orig.take(orig.len() as int) =~= orig);
            assert(closed@.take(orig.len() as int) =~= closed@);
        }
        self.items = kept;
    }
}

/// One step of the prune: keeping or dropping the entry at `i` extends the
/// filtered prefix accordingly.
proof fn lemma_filter_open_step<T>(items: Seq<T>, closed: Seq<bool>, i: int)
    requires
        0 <= i < items.len(),
        i < closed.len(),
    ensures
        filter_open(items.take(i + 1), closed.take(i + 1)) == if closed[i] {
            filter_open(items.take(i), closed.take(i))
        } else {
            filter_open(items.take(i), closed.take(i)).push(items[i])
        },
{
    assert(items.take(i + 1).drop_last() =~= items.take(i));
    assert(closed.take(i + 1).drop_last() =~= closed.take(i));
    assert(items.take(i + 1).last() == items[i]);
    assert(closed.take(i + 1).last() == closed[i]);
}

/// A prune never grows the list.
pub proof fn lemma_prune_len<T>(items: Seq<T>, closed: Seq<bool>)
    ensures
        filter_open(items, closed).len() <= items.len(),
    decreases items.len(),
{
    if items.len() != 0 && closed.len() != 0 {
        lemma_prune_len(items.drop_last(), closed.drop_last());
    }
}

/// A tick on which no channel was seen closed prunes nothing: a subscriber
/// leaves the list only after a send to it has failed.
pub proof fn lemma_prune_no_closed<T>(items: Seq<T>, closed: Seq<bool>)
    requires
        closed.len() == items.len(),
        forall|i: int| 0 <= i < closed.len() ==> !closed[i],
    ensures
        filter_open(items, closed) == items,
    decreases items.len(),
{
    if items.len() == 0 {
        assert(filter_open(items, closed) =~= items);
    } else {
        lemma_prune_no_closed(items.drop_last(), closed.drop_last());
        assert(!closed.last());
        assert(filter_open(items, closed) =~= items);
    }
}

/// A subscriber observed closed does leave: the pruned list is strictly
/// shorter as soon as one channel was seen closed.
pub proof fn lemma_prune_shrinks<T>(items: Seq<T>, closed: Seq<bool>, i: int)
    requires
        closed.len() == items.len(),
        0 <= i < closed.len(),
        closed[i],
    ensures
        filter_open(items, closed).len() < items.len(),
    decreases items.len(),
{
    if i == items.len() - 1 {
        lemma_prune_len(items.drop_last(), closed.drop_last());
    } else {
        lemma_prune_shrinks(items.drop_last(), closed.drop_last(), i);
    }
}

/// A prune invents nothing: every surviving handle stood in the list before,
/// at a position whose channel was open.
pub proof fn lemma_prune_membership<T>(items: Seq<T>, closed: Seq<bool>, k: int)
    requires
        closed.len() == items.len(),
        0 <= k < filter_open(items, closed).len(),
    ensures
        exists|i: int|
            0 <= i < items.len() && !closed[i] && items[i] == filter_open(items, closed)[k],
    decreases items.len(),
{
    if items.len() != 0 {
        let rest = filter_open(items.drop_last(), closed.drop_last());
        if !closed.last() && k == rest.len() {
            assert(items[items.len() - 1] == filter_open(items, closed)[k]);
        } else {
            lemma_prune_membership(items.drop_last(), closed.drop_last(), k);
            let i = choose|i: int|
                0 <= i < items.drop_last().len() && !closed.drop_last()[i]
                    && items.drop_last()[i] == rest[k];
            assert(0 <= i < items.len() && !closed[i] && items[i] == filter_open(items, closed)[k]);
        }
    }
}

} // verus!
