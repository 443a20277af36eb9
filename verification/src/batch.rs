//! The micro-batcher of one stream: a buffer that is flushed when it is
//! full, or when the timer fires and it is not empty.

use vstd::prelude::*;

verus! {

/// The buffer of one stream.
pub struct Batcher<T> {
    buffer: Vec<T>,
    batch_size: usize,
}

/// What a flush hands over: the records of the batch, or nothing.
pub open spec fn flushed<T>(batch: Option<Vec<T>>) -> Seq<T> {
    match batch {
        Some(records) => records@,
        None => Seq::empty(),
    }
}

/// Whether receiving one more record fills a buffer that holds `pending`.
pub open spec fn fills<T>(pending: Seq<T>, batch_size: usize) -> bool {
    pending.len() + 1 >= batch_size
}

/// What has been flushed in all, and what is still buffered, after the
/// records `received` arrived one by one at a buffer that held `pending`.
pub open spec fn after_receiving<T>(pending: Seq<T>, batch_size: usize, received: Seq<T>) -> (
    Seq<T>,
    Seq<T>,
)
    decreases received.len(),
{
    if received.len() == 0 {
        (Seq::empty(), pending)
    } else {
        let (out, held) = after_receiving(pending, batch_size, received.drop_last());
        if fills(held, batch_size) {
            (out + held.push(received.last()), Seq::empty())
        } else {
            (out, held.push(received.last()))
        }
    }
}

impl<T> Batcher<T> {
    /// The records that are buffered, oldest first.
    pub closed spec fn view(&self) -> Seq<T> {
        self.buffer@
    }

    /// The number of buffered records that triggers a flush.
    pub closed spec fn limit(&self) -> usize {
        self.batch_size
    }

    /// An empty buffer that is flushed when it holds `batch_size` records.
    pub fn new(batch_size: usize) -> (batcher: Self)
        ensures
            batcher@ == Seq::<T>::empty(),
            batcher.limit() == batch_size,
    {
        Batcher { buffer: Vec::new(), batch_size }
    }

    /// The number of buffered records.
    pub fn len(&self) -> (n: usize)
        ensures
            n == self@.len(),
    {
        self.buffer.len()
    }

    /// Whether nothing is buffered.
    pub fn is_empty(&self) -> (r: bool)
        ensures
            r == (self@.len() == 0),
    {
        self.buffer.len() == 0
    }

    fn take_all(&mut self) -> (batch: Vec<T>)
        ensures
            batch@ == old(self)@,
            final(self)@ == Seq::<T>::empty(),
            final(self).limit() == old(self).limit(),
    {
        let mut batch: Vec<T> = Vec::new();
        core::mem::swap(&mut self.buffer, &mut batch);
        batch
    }

    /// Receives one record. When the buffer is full with it, the whole
    /// buffer is handed over as a batch, oldest record first, and the buffer
    /// is left empty; otherwise the record is kept.
    pub fn push(&mut self, item: T) -> (batch: Option<Vec<T>>)
        ensures
            final(self).limit() == old(self).limit(),
            fills(old(self)@, old(self).limit()) ==> batch is Some && batch.unwrap()@ == old(
                self,
            )@.push(item) && final(self)@ == Seq::<T>::empty(),
            !fills(old(self)@, old(self).limit()) ==> batch is None && final(self)@ == old(
                self,
            )@.push(item),
            (flushed(batch), final(self)@) == after_receiving(
                old(self)@,
                old(self).limit(),
                seq![item],
            ),
    {
        proof {
            let one = seq![item];
            assert(one.drop_last() =~= Seq::<T>::empty());
            assert(after_receiving(old(self)@, old(self).limit(), one.drop_last()) == (
                Seq::<T>::empty(),
                old(self)@,
            ));
            assert(Seq::<T>::empty() + old(self)@.push(item) =~= old(self)@.push(item));
        }
        self.buffer.push(item);
        if self.buffer.len() >= self.batch_size {
            Some(self.take_all())
        } else {
            None
        }
    }

    /// The timer fired. A buffer that is not empty is handed over as a
    /// batch, oldest record first, and left empty.
    pub fn tick(&mut self) -> (batch: Option<Vec<T>>)
        ensures
            final(self).limit() == old(self).limit(),
            final(self)@ == Seq::<T>::empty(),
            old(self)@.len() > 0 ==> batch is Some && batch.unwrap()@ == old(self)@,
            old(self)@.len() == 0 ==> batch is None,
    {
        if self.buffer.len() > 0 {
            Some(self.take_all())
        } else {
            None
        }
    }
}

/// Nothing is lost, duplicated or reordered: what was flushed, followed by
/// what is still buffered, is what was buffered at first followed by what
/// was received.
pub proof fn batches_keep_order<T>(pending: Seq<T>, batch_size: usize, received: Seq<T>)
    ensures
        ({
            let (out, held) = after_receiving(pending, batch_size, received);
            out + held == pending + received
        }),
    decreases received.len(),
{
    if received.len() == 0 {
        assert(Seq::<T>::empty() + pending =~= pending + received);
    } else {
        let front = received.drop_last();
        batches_keep_order(pending, batch_size, front);
        let (out, held) = after_receiving(pending, batch_size, front);
        let (out2, held2) = after_receiving(pending, batch_size, received);
        assert(received =~= front.push(received.last()));
        assert(out2 + held2 =~= (out + held).push(received.last()));
        assert((pending + front).push(received.last()) =~= pending + received);
    }
}

/// A buffer that held fewer records than its limit holds fewer than its
/// limit after any run of arrivals.
pub proof fn buffer_stays_below_limit<T>(pending: Seq<T>, batch_size: usize, received: Seq<T>)
    requires
        batch_size > 0,
        pending.len() < batch_size,
    ensures
        after_receiving(pending, batch_size, received).1.len() < batch_size,
    decreases received.len(),
{
    if received.len() > 0 {
        buffer_stays_below_limit(pending, batch_size, received.drop_last());
    }
}

/// A full batch's worth of records, received by an empty buffer, is flushed
/// whole and in the order of arrival.
pub proof fn full_batch_is_flushed<T>(batch_size: usize, received: Seq<T>)
    requires
        batch_size > 0,
        received.len() == batch_size,
    ensures
        after_receiving(Seq::<T>::empty(), batch_size, received) == (received, Seq::<T>::empty()),
{
    let front = received.drop_last();
    nothing_flushed_below_limit(batch_size, front);
    assert(received =~= front.push(received.last()));
    assert(Seq::<T>::empty() + received =~= received);
}

/// Fewer records than the limit, received by an empty buffer, are all held.
pub proof fn nothing_flushed_below_limit<T>(batch_size: usize, received: Seq<T>)
    requires
        received.len() < batch_size,
    ensures
        after_receiving(Seq::<T>::empty(), batch_size, received) == (Seq::<T>::empty(), received),
    decreases received.len(),
{
    if received.len() == 0 {
        assert(received =~= Seq::<T>::empty());
    } else {
        let front = received.drop_last();
        nothing_flushed_below_limit(batch_size, front);
        assert(received =~= front.push(received.last()));
    }
}

/// Records that arrive in two runs are batched as if they had arrived in
/// one: what the first run left buffered is where the second run starts.
pub proof fn arrivals_compose<T>(pending: Seq<T>, batch_size: usize, first: Seq<T>, second: Seq<T>)
    ensures
        ({
            let (out1, held1) = after_receiving(pending, batch_size, first);
            let (out2, held2) = after_receiving(held1, batch_size, second);
            after_receiving(pending, batch_size, first + second) == (out1 + out2, held2)
        }),
    decreases second.len(),
{
    let (out1, held1) = after_receiving(pending, batch_size, first);
    if second.len() == 0 {
        assert(first + second =~= first);
        assert(out1 + Seq::<T>::empty() =~= out1);
    } else {
        let front = second.drop_last();
        arrivals_compose(pending, batch_size, first, front);
        assert((first + second).drop_last() =~= first + front);
        assert((first + second).last() == second.last());
        let (out2, held2) = after_receiving(held1, batch_size, front);
        assert(out1 + (out2 + held2.push(second.last())) =~= (out1 + out2) + held2.push(
            second.last(),
        ));
    }
}

} // verus!
