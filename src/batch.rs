//! A buffer in front of a slow producer of items: items are asked for in
//! batches as large as the free room of the buffer, and handed out one at
//! a time in the producer's order.
use vstd::prelude::*;

verus! {

/// What a pull from a `Batched` buffer comes to.
pub enum Pull<T> {
    /// The next item, taken from the buffer.
    Item(T),
    /// The buffer is empty: up to this many items are to be pulled from the
    /// producer and handed to `refill`.
    Refill(usize),
}

/// A bounded first-in first-out buffer of items from a producer.
pub struct Batched<T> {
    buf: std::collections::VecDeque<T>,
    cap: usize,
}

/// The items that pulls from a buffer holding `buf`, in front of a producer
/// that has `src` left to give, hand out when the buffer asks for at most
/// `cap` items at a time.
pub open spec fn batched_pulls<T>(buf: Seq<T>, src: Seq<T>, cap: nat) -> Seq<T>
    decreases buf.len() + src.len(),
{
    if buf.len() > 0 {
        seq![buf[0]] + batched_pulls(buf.drop_first(), src, cap)
    } else if src.len() == 0 || cap == 0 {
        Seq::empty()
    } else {
        let k = if cap < src.len() { cap as int } else { src.len() as int };
        seq![src[0]] + batched_pulls(src.subrange(1, k), src.subrange(k, src.len() as int), cap)
    }
}

impl<T> Batched<T> {
    /// The items held, front first.
    pub closed spec fn buffered(&self) -> Seq<T> {
        self.buf@
    }

    /// The most items the buffer holds at once.
    pub closed spec fn capacity(&self) -> nat {
        self.cap as nat
    }

    /// A positive capacity, never exceeded.
    pub closed spec fn wf(&self) -> bool {
        &&& self.cap > 0
        &&& self.buf@.len() <= self.cap
    }

    /// An empty buffer that holds up to `nr` items.
    pub fn new(nr: usize) -> (r: Batched<T>)
        requires
            nr > 0,
        ensures
            r.wf(),
            r.buffered() == Seq::<T>::empty(),
            r.capacity() == nr,
    {
        Batched { buf: std::collections::VecDeque::with_capacity(nr), cap: nr }
    }

    /// How many more items the buffer has room for.
    pub fn room(&self) -> (r: usize)
        requires
            self.wf(),
        ensures
            r == self.capacity() - self.buffered().len(),
    {
        self.cap - self.buf.len()
    }

    /// Appends items pulled from the producer, at most as many as there is
    /// room for.
    pub fn reload(&mut self, more: Vec<T>)
        requires
            old(self).wf(),
            more@.len() <= old(self).capacity() - old(self).buffered().len(),
        ensures
            final(self).wf(),
            final(self).capacity() == old(self).capacity(),
            final(self).buffered() == old(self).buffered() + more@,
    {
        let mut more = more;
        let ghost items = more@;
        // Reverse `more` by popping it, then pop the reversed copy into the
        // back of the buffer, which restores the producer's order.
        let mut rev: Vec<T> = Vec::new();
        while more.len() > 0
            invariant
                items == more@ + rev@.reverse(),
            decreases more.len(),
        {
            let ghost before = rev@;
            let x = more.pop().unwrap();
            rev.push(x);
            assert(rev@.reverse() =~= seq![x] + before.reverse());
        }
        assert(more@ =~= Seq::<T>::empty());
        let ghost start = self.buf@;
        while rev.len() > 0
            invariant
                self.cap == old(self).cap,
                start == old(self).buf@,
                items.len() <= self.cap - start.len(),
                self.buf@ + rev@.reverse() == start + items,
            decreases rev.len(),
        {
            let ghost before = rev@;
            let x = rev.pop().unwrap();
            assert(before.reverse() =~= seq![x] + rev@.reverse());
            assert(self.buf@.push(x) + rev@.reverse() =~= self.buf@ + before.reverse());
            self.buf.push_back(x);
        }
        assert(self.buf@ =~= start + items);
    }

    /// Takes the front item, or says how many items to ask the producer
    /// for when the buffer is empty (its whole capacity).
    pub fn next(&mut self) -> (r: Pull<T>)
        requires
            old(self).wf(),
        ensures
            final(self).wf(),
            final(self).capacity() == old(self).capacity(),
            old(self).buffered().len() > 0 ==> r == Pull::Item(old(self).buffered()[0])
                && final(self).buffered() == old(self).buffered().drop_first(),
            old(self).buffered().len() == 0 ==> r == Pull::<T>::Refill(old(self).capacity() as usize)
                && final(self).buffered() == old(self).buffered(),
    {
        match self.buf.pop_front() {
            Some(x) => Pull::Item(x),
            None => Pull::Refill(self.cap),
        }
    }

    /// Fills an empty buffer with what the producer gave after a
    /// `Pull::Refill`, and takes its front item. An empty `more` means the
    /// producer is exhausted, and `None` comes back.
    pub fn refill(&mut self, more: Vec<T>) -> (r: Option<T>)
        requires
            old(self).wf(),
            old(self).buffered().len() == 0,
            more@.len() <= old(self).capacity(),
        ensures
            final(self).wf(),
            final(self).capacity() == old(self).capacity(),
            more@.len() == 0 ==> r is None && final(self).buffered() == Seq::<T>::empty(),
            more@.len() > 0 ==> r == Some(more@[0]) && final(self).buffered() == more@.drop_first(),
    {
        self.reload(more);
        self.buf.pop_front()
    }
}

/// Pulling through a buffer of any positive capacity hands out exactly the
/// items that are buffered and then those the producer has left, in order.
proof fn lemma_batched_pulls_all<T>(buf: Seq<T>, src: Seq<T>, cap: nat)
    requires
        cap > 0,
    ensures
        batched_pulls(buf, src, cap) == buf + src,
    decreases buf.len() + src.len(),
{
    if buf.len() > 0 {
        lemma_batched_pulls_all(buf.drop_first(), src, cap);
        assert(buf + src =~= seq![buf[0]] + (buf.drop_first() + src));
    } else if src.len() == 0 {
        assert(buf + src =~= Seq::<T>::empty());
    } else {
        let k = if cap < src.len() { cap as int } else { src.len() as int };
        lemma_batched_pulls_all(src.subrange(1, k), src.subrange(k, src.len() as int), cap);
        assert(buf + src =~= seq![src[0]] + (src.subrange(1, k) + src.subrange(k, src.len() as int)));
    }
}

/// Pulling through a fresh buffer of any positive capacity from a finite
/// producer hands out the same items, in the same order, as pulling from
/// the producer directly.
pub proof fn lemma_batched_round_trip<T>(items: Seq<T>, cap: nat)
    requires
        cap > 0,
    ensures
        batched_pulls(Seq::<T>::empty(), items, cap) == items,
{
    lemma_batched_pulls_all(Seq::<T>::empty(), items, cap);
    assert(Seq::<T>::empty() + items =~= items);
}

} // verus!
