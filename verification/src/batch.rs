//! A batch of packets to send, produced lazily and in order: by plain
//! closures, by asynchronous closures and by iterators. The batch only
//! keeps the order; running the producers is left to its caller.
use std::collections::VecDeque;
use vstd::prelude::*;

verus! {

/// One producer of packets: a closure giving one packet, an asynchronous
/// closure giving one packet when awaited, or an iterator of packets.
pub enum Producer<S, A, I> {
    SyncClosure(S),
    AsyncClosure(A),
    Iterator(I),
}

/// Producers queued in the order their packets are sent.
pub struct Batch<S, A, I> {
    producers: VecDeque<Producer<S, A, I>>,
}

impl<S, A, I> Batch<S, A, I> {
    /// The producers, first to run first.
    pub closed spec fn spec_producers(&self) -> Seq<Producer<S, A, I>> {
        self.producers@
    }

    pub fn new() -> (r: Self)
        ensures
            r.spec_producers() == Seq::<Producer<S, A, I>>::empty(),
    {
        Self { producers: VecDeque::new() }
    }

    /// Queues a closure that gives one packet.
    pub fn queue(&mut self, f: S)
        ensures
            final(self).spec_producers() == old(self).spec_producers().push(
                Producer::SyncClosure(f),
            ),
    {
        self.producers.push_back(Producer::SyncClosure(f));
    }

    /// Queues an asynchronous closure that gives one packet.
    pub fn queue_async(&mut self, f: A)
        ensures
            final(self).spec_producers() == old(self).spec_producers().push(
                Producer::AsyncClosure(f),
            ),
    {
        self.producers.push_back(Producer::AsyncClosure(f));
    }

    /// Chains an iterator of packets.
    pub fn chain_iter(&mut self, iter: I)
        ensures
            final(self).spec_producers() == old(self).spec_producers().push(
                Producer::Iterator(iter),
            ),
    {
        self.producers.push_back(Producer::Iterator(iter));
    }

    /// The stream of the batch's packets, starting with no producer running.
    pub fn into_stream<F>(self) -> (r: BatchStream<S, A, I, F>)
        ensures
            r.spec_producers() == self.spec_producers(),
            r.spec_current() is Idle,
    {
        BatchStream { producers: self.producers, current: Current::Idle }
    }
}

/// What a stream is taking packets from: nothing, a future of one packet,
/// or an iterator.
pub enum Current<F, I> {
    Idle,
    Future(F),
    Iterator(I),
}

/// The packets of a batch, taken producer after producer.
pub struct BatchStream<S, A, I, F> {
    producers: VecDeque<Producer<S, A, I>>,
    current: Current<F, I>,
}

impl<S, A, I, F> BatchStream<S, A, I, F> {
    /// The producers not started yet, next first.
    pub closed spec fn spec_producers(&self) -> Seq<Producer<S, A, I>> {
        self.producers@
    }

    /// What packets are being taken from.
    pub closed spec fn spec_current(&self) -> Current<F, I> {
        self.current
    }

    /// The next producer to run, taken out of the queue; `None` when the
    /// batch is exhausted.
    pub fn next_producer(&mut self) -> (r: Option<Producer<S, A, I>>)
        ensures
            old(self).spec_producers().len() == 0 ==> r is None && final(self).spec_producers()
                == old(self).spec_producers(),
            old(self).spec_producers().len() > 0 ==> r == Some(old(self).spec_producers()[0])
                && final(self).spec_producers() == old(self).spec_producers().drop_first(),
            final(self).spec_current() == old(self).spec_current(),
    {
        self.producers.pop_front()
    }

    /// What packets are being taken from, to be advanced in place.
    pub fn current_mut(&mut self) -> (r: &mut Current<F, I>)
        ensures
            *r == old(self).spec_current(),
            final(self).spec_current() == *final(r),
            final(self).spec_producers() == old(self).spec_producers(),
    {
        &mut self.current
    }

    /// Stops taking packets from the current future or iterator.
    pub fn set_idle(&mut self)
        ensures
            final(self).spec_current() is Idle,
            final(self).spec_producers() == old(self).spec_producers(),
    {
        self.current = Current::Idle;
    }

    /// Takes the next packet from the future of an asynchronous closure.
    pub fn set_future(&mut self, future: F)
        ensures
            final(self).spec_current() == Current::<F, I>::Future(future),
            final(self).spec_producers() == old(self).spec_producers(),
    {
        self.current = Current::Future(future);
    }

    /// Takes the next packets from an iterator.
    pub fn set_iterator(&mut self, iter: I)
        ensures
            final(self).spec_current() == Current::<F, I>::Iterator(iter),
            final(self).spec_producers() == old(self).spec_producers(),
    {
        self.current = Current::Iterator(iter);
    }
}


/// What a stream of a batch is taking packets from.
#[derive(Debug, Clone, Copy, PartialEq, Eq, Structural)]
pub enum Phase {
    /// Nothing: the next producer is taken from the queue.
    Idle,
    /// The future of an asynchronous closure.
    Awaiting,
    /// An iterator.
    Iterating,
}

/// The kind of a producer taken from the queue.
#[derive(Debug, Clone, Copy, PartialEq, Eq, Structural)]
pub enum ProducerKind {
    Sync,
    Async,
    Iterator,
}

/// What polling the current source of packets gave.
#[derive(Debug, Clone, Copy, PartialEq, Eq, Structural)]
pub enum StreamEvent {
    /// The awaited future gave its packet.
    FutureReady,
    /// The awaited future is not ready yet.
    FuturePending,
    /// The iterator gave a packet.
    IteratorGave,
    /// The iterator has no more packets.
    IteratorEmpty,
    /// The next producer taken from the queue, `None` when it is empty.
    NextProducer(Option<ProducerKind>),
}

/// What the stream answers after an event.
#[derive(Debug, Clone, Copy, PartialEq, Eq, Structural)]
pub enum StreamOutput {
    /// Hand out the packet just produced.
    Yield,
    /// Wait to be woken up.
    Pending,
    /// Poll again.
    Continue,
    /// The batch is exhausted.
    End,
}

/// Whether `e` can happen in the phase `p`: futures are polled while
/// awaiting, iterators while iterating, and the queue while idle.
pub open spec fn spec_event_fits(p: Phase, e: StreamEvent) -> bool {
    match e {
        StreamEvent::FutureReady | StreamEvent::FuturePending => p == Phase::Awaiting,
        StreamEvent::IteratorGave | StreamEvent::IteratorEmpty => p == Phase::Iterating,
        StreamEvent::NextProducer(_) => p == Phase::Idle,
    }
}

/// How a stream of a batch moves on: a ready future yields its packet and
/// the stream goes idle; an iterator yields until it is empty, then the
/// stream goes idle; when idle, a plain closure yields its packet at once,
/// an asynchronous closure is awaited, an iterator is iterated, and an
/// empty queue ends the stream.
pub open spec fn spec_stream_step(p: Phase, e: StreamEvent) -> (Phase, StreamOutput) {
    match e {
        StreamEvent::FutureReady => (Phase::Idle, StreamOutput::Yield),
        StreamEvent::FuturePending => (p, StreamOutput::Pending),
        StreamEvent::IteratorGave => (p, StreamOutput::Yield),
        StreamEvent::IteratorEmpty => (Phase::Idle, StreamOutput::Continue),
        StreamEvent::NextProducer(None) => (Phase::Idle, StreamOutput::End),
        StreamEvent::NextProducer(Some(ProducerKind::Sync)) => (Phase::Idle, StreamOutput::Yield),
        StreamEvent::NextProducer(Some(ProducerKind::Async)) => (Phase::Awaiting, StreamOutput::Continue),
        StreamEvent::NextProducer(Some(ProducerKind::Iterator)) => (Phase::Iterating, StreamOutput::Continue),
    }
}

/// The next phase of a stream and its answer after `e`.
pub fn stream_step(p: Phase, e: StreamEvent) -> (r: (Phase, StreamOutput))
    requires
        spec_event_fits(p, e),
    ensures
        r == spec_stream_step(p, e),
{
    match e {
        StreamEvent::FutureReady => (Phase::Idle, StreamOutput::Yield),
        StreamEvent::FuturePending => (p, StreamOutput::Pending),
        StreamEvent::IteratorGave => (p, StreamOutput::Yield),
        StreamEvent::IteratorEmpty => (Phase::Idle, StreamOutput::Continue),
        StreamEvent::NextProducer(None) => (Phase::Idle, StreamOutput::End),
        StreamEvent::NextProducer(Some(ProducerKind::Sync)) => (Phase::Idle, StreamOutput::Yield),
        StreamEvent::NextProducer(Some(ProducerKind::Async)) => (Phase::Awaiting, StreamOutput::Continue),
        StreamEvent::NextProducer(Some(ProducerKind::Iterator)) => (Phase::Iterating, StreamOutput::Continue),
    }
}

/// A stream ends only when it is idle and the queue is empty, and it ends
/// idle; it only waits while awaiting a future, and stays awaiting it.
pub proof fn lemma_stream_ends_only_when_exhausted(p: Phase, e: StreamEvent)
    requires
        spec_event_fits(p, e),
    ensures
        spec_stream_step(p, e).1 == StreamOutput::End <==> (p == Phase::Idle && e
            == StreamEvent::NextProducer(None)),
        spec_stream_step(p, e).1 == StreamOutput::End ==> spec_stream_step(p, e).0 == Phase::Idle,
        spec_stream_step(p, e).1 == StreamOutput::Pending ==> p == Phase::Awaiting
            && spec_stream_step(p, e).0 == Phase::Awaiting,
{
}

} // verus!
