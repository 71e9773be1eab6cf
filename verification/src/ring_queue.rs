//! Non-blocking single-producer/single-consumer byte channel: a
//! fixed-capacity ring buffer plus an unbounded overflow list.  `push` never
//! blocks and never drops a byte: whatever does not fit in the ring is kept,
//! in order, in the overflow list and moved into the ring as space appears.
//! The consumer observes every byte exactly once, in submission order.

use vstd::prelude::*;

verus! {

use ringbuf::Consumer;
use ringbuf::Producer;
use ringbuf::RingBuffer;
use std::collections::VecDeque;
use vstd::slice::slice_to_vec;

use crate::chunks::concat_chunks;

/// A fixed-capacity byte ring of the `ringbuf` crate.  Both halves of the
/// split ring are kept in one owner, so the contents below are well defined
/// for each value of this type.
#[verifier::external_body]
pub struct ByteRing {
    prod: Producer<u8>,
    cons: Consumer<u8>,
}

/// The bytes the ring currently holds, oldest first.
pub uninterp spec fn ring_items(r: ByteRing) -> Seq<u8>;

/// The capacity the ring was created with.
pub uninterp spec fn ring_capacity(r: ByteRing) -> nat;

/// Relies on `ringbuf::RingBuffer::new` and `split`: a fresh ring of the
/// requested capacity holds nothing.  (`new` allocates one slot more than
/// the capacity, so the capacity must leave room for that.)
#[verifier::external_body]
fn ring_new(capacity: usize) -> (r: ByteRing)
    requires
        capacity < usize::MAX,
    ensures
        ring_items(r) == Seq::<u8>::empty(),
        ring_capacity(r) == capacity as nat,
{
    let (prod, cons) = RingBuffer::new(capacity).split();
    ByteRing { prod, cons }
}

/// Relies on `ringbuf::Producer::push_slice`: it appends to the ring as many
/// of the given bytes as fit, oldest first, and returns how many it took.
#[verifier::external_body]
fn ring_push_slice(r: &mut ByteRing, data: &[u8]) -> (n: usize)
    requires
        ring_items(*old(r)).len() <= ring_capacity(*old(r)),
    ensures
        ring_capacity(*final(r)) == ring_capacity(*old(r)),
        n as int == if data@.len() as int
            <= ring_capacity(*old(r)) - ring_items(*old(r)).len() {
            data@.len() as int
        } else {
            ring_capacity(*old(r)) - ring_items(*old(r)).len()
        },
        ring_items(*final(r)) == ring_items(*old(r)) + data@.take(n as int),
{
    r.prod.push_slice(data)
}

/// Relies on `ringbuf::Consumer::pop_slice`: it removes up to `max` of the
/// oldest bytes from the ring and hands them out in order.
#[verifier::external_body]
fn ring_pop(r: &mut ByteRing, max: usize) -> (bytes: Vec<u8>)
    ensures
        ring_capacity(*final(r)) == ring_capacity(*old(r)),
        bytes@.len() == if max as int <= ring_items(*old(r)).len() {
            max as int
        } else {
            ring_items(*old(r)).len() as int
        },
        bytes@ == ring_items(*old(r)).take(bytes@.len() as int),
        ring_items(*final(r)) == ring_items(*old(r)).skip(bytes@.len() as int),
{
    let mut buf = vec![0u8; max];
    let n = r.cons.pop_slice(&mut buf);
    buf.truncate(n);
    buf
}

/// The bytes held by a list of overflow chunks, oldest chunk first.
pub open spec fn chunks_view(chunks: Seq<Vec<u8>>) -> Seq<u8>
    decreases chunks.len(),
{
    if chunks.len() == 0 {
        Seq::empty()
    } else {
        chunks.first()@ + chunks_view(chunks.drop_first())
    }
}

proof fn lemma_chunks_view_push_front(s: Seq<Vec<u8>>, v: Vec<u8>)
    ensures
        chunks_view(seq![v] + s) == v@ + chunks_view(s),
{
    let t = seq![v] + s;
    assert(t.first() == v);
    assert(t.drop_first() =~= s);
}

proof fn lemma_chunks_view_push_back(s: Seq<Vec<u8>>, v: Vec<u8>)
    ensures
        chunks_view(s.push(v)) == chunks_view(s) + v@,
    decreases s.len(),
{
    if s.len() == 0 {
        assert(chunks_view(Seq::<Vec<u8>>::empty()) == Seq::<u8>::empty());
        assert(s.push(v).drop_first() =~= Seq::<Vec<u8>>::empty());
        assert(s.push(v).first() == v);
        assert(chunks_view(s.push(v)) =~= chunks_view(s) + v@);
    } else {
        lemma_chunks_view_push_back(s.drop_first(), v);
        assert(s.push(v).drop_first() =~= s.drop_first().push(v));
        assert(s.push(v).first() == s.first());
        assert(s.first()@ + (chunks_view(s.drop_first()) + v@) =~= (s.first()@ + chunks_view(
            s.drop_first(),
        )) + v@);
    }
}

/// The queue of bytes waiting for one device's wire, fed by the console
/// thread and drained by the device's I/O thread.
pub struct RingBufQueue {
    ring: ByteRing,
    overflow: VecDeque<Vec<u8>>,
    cap: usize,
}

impl View for RingBufQueue {
    type V = Seq<u8>;

    /// All bytes waiting in the queue, oldest first: first what the ring
    /// holds, then the overflow chunks.
    closed spec fn view(&self) -> Seq<u8> {
        ring_items(self.ring) + chunks_view(self.overflow@)
    }
}

impl RingBufQueue {
    /// Structural invariant: the ring never exceeds its capacity and the
    /// overflow list holds no empty chunk.
    pub closed spec fn wf(&self) -> bool {
        &&& 1 <= self.cap
        &&& self.cap < usize::MAX
        &&& self.cap == ring_capacity(self.ring)
        &&& ring_items(self.ring).len() <= ring_capacity(self.ring)
        &&& forall|i: int|
            0 <= i < self.overflow@.len() ==> #[trigger] self.overflow@[i]@.len() > 0
    }

    /// The ring capacity this queue was created with.
    pub closed spec fn capacity(&self) -> nat {
        self.cap as nat
    }

    /// Holds after a flush: overflow data waits only while the ring is full.
    pub closed spec fn drained(&self) -> bool {
        self.overflow@.len() > 0 ==> ring_items(self.ring).len() == ring_capacity(self.ring)
    }

    /// Moves overflow chunks into the ring for as long as they fit.  The
    /// queue's contents are unchanged.
    pub fn flush(&mut self)
        requires
            old(self).wf(),
        ensures
            final(self).wf(),
            final(self)@ == old(self)@,
            final(self).capacity() == old(self).capacity(),
            final(self).drained(),
    {
        loop
            invariant
                self.wf(),
                self@ == old(self)@,
                self.capacity() == old(self).capacity(),
            ensures
                self.drained(),
            decreases self.overflow@.len(),
        {
            let ghost pre = *self;
            match self.overflow.pop_front() {
                None => {
                    break ;
                },
                Some(chunk) => {
                    proof {
                        assert(pre.overflow@.first() == chunk);
                        assert(pre.overflow@.drop_first() =~= self.overflow@);
                    }
                    let n = ring_push_slice(&mut self.ring, chunk.as_slice());
                    if n == 0 {
                        self.overflow.push_front(chunk);
                        proof {
                            lemma_chunks_view_push_front(pre.overflow@.drop_first(), chunk);
                            assert(self.overflow@ =~= seq![chunk] + pre.overflow@.drop_first());
                            assert(chunk@.take(0) =~= Seq::<u8>::empty());
                            assert(ring_items(self.ring) =~= ring_items(pre.ring));
                            assert(chunks_view(pre.overflow@) == chunk@ + chunks_view(
                                pre.overflow@.drop_first(),
                            ));
                            assert(self@ =~= pre@);
                        }
                        break ;
                    } else if n < chunk.len() {
                        let rest = slice_to_vec(&chunk[n..chunk.len()]);
                        self.overflow.push_front(rest);
                        proof {
                            lemma_chunks_view_push_front(pre.overflow@.drop_first(), rest);
                            assert(self.overflow@ =~= seq![rest] + pre.overflow@.drop_first());
                            assert(rest@ =~= chunk@.skip(n as int));
                            assert(chunk@.take(n as int) + chunk@.skip(n as int) =~= chunk@);
                            assert(chunks_view(pre.overflow@) == chunk@ + chunks_view(
                                pre.overflow@.drop_first(),
                            ));
                            assert(self@ =~= pre@);
                        }
                        break ;
                    } else {
                        proof {
                            assert(chunk@.take(n as int) =~= chunk@);
                            assert(self@ =~= pre@);
                        }
                    }
                },
            }
        }
    }

    /// Appends `bytes` for later delivery.  Never fails and never blocks:
    /// whatever the ring cannot take goes to the overflow list, so the
    /// queue's contents always grow by exactly `bytes`, in order.
    pub fn push(&mut self, bytes: &[u8])
        requires
            old(self).wf(),
        ensures
            final(self).wf(),
            final(self)@ == old(self)@ + bytes@,
            final(self).capacity() == old(self).capacity(),
    {
        self.flush();
        if bytes.len() == 0 {
            proof {
                assert(self@ =~= old(self)@ + bytes@);
            }
            return ;
        }
        let ghost pre = *self;
        if self.overflow.len() == 0 {
            let n = ring_push_slice(&mut self.ring, bytes);
            if n < bytes.len() {
                let rest = slice_to_vec(&bytes[n..bytes.len()]);
                self.overflow.push_back(rest);
                proof {
                    lemma_chunks_view_push_back(pre.overflow@, rest);
                    assert(chunks_view(pre.overflow@) =~= Seq::<u8>::empty());
                    assert(rest@ =~= bytes@.skip(n as int));
                    assert(bytes@.take(n as int) + bytes@.skip(n as int) =~= bytes@);
                    assert(self@ =~= old(self)@ + bytes@);
                }
            } else {
                proof {
                    assert(bytes@.take(n as int) =~= bytes@);
                    assert(self@ =~= old(self)@ + bytes@);
                }
            }
        } else {
            let chunk = slice_to_vec(bytes);
            self.overflow.push_back(chunk);
            proof {
                lemma_chunks_view_push_back(pre.overflow@, chunk);
                assert(self@ =~= old(self)@ + bytes@);
            }
        }
    }

    /// Removes and returns the oldest waiting bytes: everything the ring
    /// holds after pending overflow has been flushed into it.  Returns an
    /// empty vector exactly when the queue is empty; never blocks.
    pub fn pop(&mut self) -> (bytes: Vec<u8>)
        requires
            old(self).wf(),
        ensures
            final(self).wf(),
            final(self).capacity() == old(self).capacity(),
            old(self)@ == bytes@ + final(self)@,
            bytes@.len() > 0 <==> old(self)@.len() > 0,
            bytes@.len() == (if old(self)@.len() <= old(self).capacity() {
                old(self)@.len()
            } else {
                old(self).capacity()
            }),
    {
        self.flush();
        let ghost mid = *self;
        let cap = self.cap;
        proof {
            if mid.overflow@.len() == 0 {
                assert(chunks_view(mid.overflow@) == Seq::<u8>::empty());
                assert(mid@ =~= ring_items(mid.ring));
            }
        }
        let bytes = ring_pop(&mut self.ring, cap);
        proof {
            assert(ring_items(mid.ring).take(bytes@.len() as int) =~= ring_items(mid.ring));
            assert(ring_items(self.ring) =~= Seq::<u8>::empty());
        }
        self.flush();
        proof {
            assert(mid@ =~= bytes@ + self@);
        }
        bytes
    }
}

/// Creates an empty queue over a fresh ring of the given capacity.
pub fn ring_buf_queue(capacity: usize) -> (q: RingBufQueue)
    requires
        1 <= capacity < usize::MAX,
    ensures
        q.wf(),
        q@ == Seq::<u8>::empty(),
        q.capacity() == capacity,
{
    let q = RingBufQueue { ring: ring_new(capacity), overflow: VecDeque::new(), cap: capacity };
    proof {
        assert(q@ =~= Seq::<u8>::empty());
    }
    q
}

/// Queue order preservation, producer side: starting from contents `v0`, a
/// sequence of pushes with payloads `ps` leaves the queue holding
/// `v0 ++ ps[0] ++ ... ++ ps[n-1]`.  Each single push adds its payload at
/// the end (the `ensures` of [`RingBufQueue::push`]); this law closes the
/// chain over any number of pushes.
pub proof fn lemma_pushes_concatenate(v0: Seq<u8>, ps: Seq<Seq<u8>>)
    ensures
        views_after_pushes(v0, ps) == v0 + concat_chunks(ps),
    decreases ps.len(),
{
    if ps.len() == 0 {
        assert(views_after_pushes(v0, ps) =~= v0 + concat_chunks(ps));
    } else {
        lemma_pushes_concatenate(v0 + ps.first(), ps.drop_first());
        assert((v0 + ps.first()) + concat_chunks(ps.drop_first()) =~= v0 + (ps.first()
            + concat_chunks(ps.drop_first())));
    }
}

/// The queue contents after pushing each payload of `ps` in order onto a
/// queue holding `v0`, following the `ensures` of [`RingBufQueue::push`].
pub open spec fn views_after_pushes(v0: Seq<u8>, ps: Seq<Seq<u8>>) -> Seq<u8>
    decreases ps.len(),
{
    if ps.len() == 0 {
        v0
    } else {
        views_after_pushes(v0 + ps.first(), ps.drop_first())
    }
}

/// Queue order preservation: an initially empty queue that receives pushes
/// with payloads `ps` (each appending, the `ensures` of
/// [`RingBufQueue::push`]) and is then popped until empty with results `rs`
/// (each removing its result from the front, along the intermediate
/// contents `ws`, the `ensures` of [`RingBufQueue::pop`]) hands out exactly
/// `ps[0] ++ ... ++ ps[n-1]`, whatever the ring capacity was.
pub proof fn lemma_queue_order_preservation(ps: Seq<Seq<u8>>, rs: Seq<Seq<u8>>, ws: Seq<Seq<u8>>)
    requires
        ws.len() == rs.len() + 1,
        ws.first() == views_after_pushes(Seq::<u8>::empty(), ps),
        forall|i: int| 0 <= i < rs.len() ==> ws[i] == #[trigger] rs[i] + ws[i + 1],
        ws.last().len() == 0,
    ensures
        concat_chunks(rs) == concat_chunks(ps),
{
    lemma_pushes_concatenate(Seq::<u8>::empty(), ps);
    lemma_pops_concatenate(ws, rs);
    assert(Seq::<u8>::empty() + concat_chunks(ps) =~= concat_chunks(ps));
}

/// Queue order preservation, consumer side: if repeated pops return chunks
/// `rs` while the queue's contents shrink along `ws` (each pop removes its
/// result from the front, the `ensures` of [`RingBufQueue::pop`]) and the
/// queue ends empty, the pops concatenate to exactly the starting contents.
pub proof fn lemma_pops_concatenate(ws: Seq<Seq<u8>>, rs: Seq<Seq<u8>>)
    requires
        ws.len() == rs.len() + 1,
        forall|i: int| 0 <= i < rs.len() ==> ws[i] == #[trigger] rs[i] + ws[i + 1],
        ws.last().len() == 0,
    ensures
        ws.first() == concat_chunks(rs),
    decreases rs.len(),
{
    if rs.len() == 0 {
        assert(ws.first() =~= concat_chunks(rs));
    } else {
        lemma_pops_concatenate(ws.drop_first(), rs.drop_first());
        assert(forall|i: int|
            0 <= i < rs.drop_first().len() ==> ws.drop_first()[i] == #[trigger] rs.drop_first()[i]
                + ws.drop_first()[i + 1]) by {
            assert(forall|i: int|
                0 <= i < rs.drop_first().len() ==> rs.drop_first()[i] == rs[i + 1] && ws.drop_first()[i]
                    == ws[i + 1] && ws.drop_first()[i + 1] == ws[i + 2]);
        }
        assert(ws[0] == rs[0] + ws[1]);
        assert(ws.drop_first().first() == ws[1]);
        assert(rs[0] + concat_chunks(rs.drop_first()) =~= concat_chunks(rs));
    }
}

} // verus!
