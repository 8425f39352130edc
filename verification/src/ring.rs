use vstd::prelude::*;
use ringbuf::traits::{Consumer, Producer, Split};

verus! {

/// The producer end of the single-producer single-consumer sample queue
/// between the stream reader and the device callback. The queue itself
/// lives in an outside lock-free ring; this end only appends.
#[verifier::external_body]
pub struct SampleProducer {
    inner: ringbuf::HeapProd<i64>,
}

/// The consumer end of the sample queue; this end only takes the oldest
/// samples out.
#[verifier::external_body]
pub struct SampleConsumer {
    inner: ringbuf::HeapCons<i64>,
}

/// Relies on ringbuf::HeapRb::new and its split: allocates a
/// single-producer single-consumer ring of the given sample capacity and
/// hands out its two ends.
#[verifier::external_body]
pub fn new_sample_ring(capacity: usize) -> (r: (SampleProducer, SampleConsumer))
    requires
        capacity >= 1,
{
    let rb = ringbuf::HeapRb::<i64>::new(capacity);
    let (prod, cons) = rb.split();
    (SampleProducer { inner: prod }, SampleConsumer { inner: cons })
}

/// Relies on ringbuf's Producer::try_push: appends one sample unless the
/// ring is full at this moment; with a concurrent consumer no more can
/// be promised of the outcome.
#[verifier::external_body]
pub fn try_push_sample(p: &mut SampleProducer, v: i64) -> (ok: bool) {
    p.inner.try_push(v).is_ok()
}

/// Relies on ringbuf's Consumer::try_pop: removes and returns the eldest
/// sample, or nothing when the ring is empty at this moment; with a
/// concurrent producer no more can be promised of the outcome.
#[verifier::external_body]
pub fn try_pop_sample(c: &mut SampleConsumer) -> (r: Option<i64>) {
    c.inner.try_pop()
}

/// Pushes a batch of samples into the ring, one by one, and reports how
/// many the ring accepted; samples the ring refuses are dropped, as the
/// stream reader drops them under back-pressure.
pub fn push_samples(p: &mut SampleProducer, samples: &Vec<i64>) -> (pushed: usize)
    ensures
        pushed <= samples@.len(),
{
    let mut pushed: usize = 0;
    let mut i: usize = 0;
    while i < samples.len()
        invariant
            0 <= i <= samples@.len(),
            pushed <= i,
        decreases samples@.len() - i,
    {
        if try_push_sample(p, samples[i]) {
            pushed = pushed + 1;
        }
        i = i + 1;
    }
    pushed
}

} // verus!
