//! Fan-out distribution: one publisher, many subscribers, loss-based
//! backpressure.
//!
//! The publish channel is a bounded ring of the most recently published
//! packets, each implicitly numbered by its position in the publish
//! history. Every subscriber holds its own read cursor. A subscriber that
//! falls further behind than the ring's capacity is advanced to the
//! oldest still-available packet and told how many it skipped; it never
//! blocks the publisher, never blocks other subscribers, and never
//! receives the same packet twice.

use vstd::prelude::*;
use crate::codec::{codec_block, Lz4Codec};
use crate::error::AqueductError;
use crate::protocol::{Packet, PacketView, VideoFrameView};

verus! {

/// The form in which a packet enters the publish history: a video
/// frame's payload is compressed into the codec's self-describing block
/// before publication, audio and metadata go out unchanged.
pub open spec fn spec_published_form(p: PacketView) -> PacketView {
    match p {
        PacketView::Video(f) => PacketView::Video(
            VideoFrameView { data: codec_block(f.data), ..f },
        ),
        _ => p,
    }
}

/// A packet the send path is owed to publish: a video payload must fit
/// the codec's four-byte size field, audio and metadata always go.
pub open spec fn spec_sendable(p: PacketView) -> bool {
    p matches PacketView::Video(f) ==> f.data.len() <= u32::MAX
}

/// The sender side of the transport: accepts published packets,
/// compresses video payloads, and fans every packet out to every
/// subscriber's cursor.
pub struct Distributor {
    entries: Vec<Packet>,
    next_seq: u64,
    capacity: usize,
    codec: Lz4Codec,
    scratch: Vec<u8>,
    hist: Ghost<Seq<PacketView>>,
}

/// One subscriber's read cursor into a distributor's publish history.
pub struct Subscriber {
    next_seq: u64,
    delivered: Ghost<Seq<int>>,
}

/// What one receive attempt yields.
#[derive(Debug)]
pub enum RecvOutcome {
    /// The subscriber is caught up; nothing is available right now.
    Empty,
    /// The subscriber fell behind the ring's capacity: this many packets
    /// were skipped, and the cursor now points at the oldest packet still
    /// available.
    Lagged(u64),
    /// The next packet, in publish order.
    Delivered(Packet),
}

impl Distributor {
    /// Every packet ever published through this distributor, in publish
    /// order, in its published (video-compressed) form.
    pub closed spec fn history(&self) -> Seq<PacketView> {
        self.hist@
    }

    /// The bounded capacity of the publish channel.
    pub closed spec fn spec_capacity(&self) -> int {
        self.capacity as int
    }

    /// The position in the history of the oldest packet still available
    /// to subscribers.
    pub closed spec fn oldest_available(&self) -> int {
        self.hist@.len() - self.entries@.len()
    }

    /// Internal consistency: the ring holds exactly the most recent
    /// packets of the history, no more than the capacity.
    pub closed spec fn wf(&self) -> bool {
        &&& self.next_seq == self.hist@.len()
        &&& self.capacity >= 1
        &&& self.entries@.len() <= self.capacity
        &&& self.entries@.len() <= self.hist@.len()
        &&& forall|i: int|
            0 <= i < self.entries@.len() ==> (#[trigger] self.entries@[i])@ == self.hist@[
                self.hist@.len() - self.entries@.len() + i]
    }

    /// The window of still-available packets never exceeds the capacity
    /// and always ends at the newest packet.
    pub proof fn lemma_available_window(&self)
        requires
            self.wf(),
        ensures
            0 <= self.oldest_available() <= self.history().len(),
            self.history().len() - self.oldest_available() <= self.spec_capacity(),
    {
    }

    /// A distributor with an empty history and the given channel
    /// capacity (the transport uses 16 pending packets).
    pub fn new(capacity: usize) -> (r: Self)
        requires
            capacity >= 1,
        ensures
            r.wf(),
            r.history() == Seq::<PacketView>::empty(),
            r.spec_capacity() == capacity,
            r.oldest_available() == 0,
    {
        Distributor {
            entries: Vec::new(),
            next_seq: 0,
            capacity,
            codec: Lz4Codec::new(),
            scratch: Vec::new(),
            hist: Ghost(Seq::empty()),
        }
    }

    /// How many packets have ever been published: the length of the
    /// history. Callers check it against the counter's limit before
    /// publishing.
    pub fn published_count(&self) -> (r: u64)
        requires
            self.wf(),
        ensures
            r == self.history().len(),
    {
        self.next_seq
    }

    /// Append a packet to the publish history as it stands, dropping the
    /// oldest ring entry if the ring is full. Having no subscribers is
    /// not an error: the packet then simply reaches no one.
    pub fn publish(&mut self, packet: Packet)
        requires
            old(self).wf(),
            old(self).history().len() < u64::MAX,
        ensures
            final(self).wf(),
            final(self).history() == old(self).history().push(packet@),
            final(self).spec_capacity() == old(self).spec_capacity(),
            final(self).oldest_available() == (if old(self).history().len()
                - old(self).oldest_available() < old(self).spec_capacity() {
                old(self).oldest_available()
            } else {
                old(self).oldest_available() + 1
            }),
    {
        let ghost pv = packet@;
        if self.entries.len() == self.capacity {
            self.entries.remove(0);
        }
        self.entries.push(packet);
        self.next_seq = self.next_seq + 1;
        self.hist = Ghost(self.hist@.push(pv));
    }

    /// Publish a packet, compressing a video payload first. Compression
    /// reuses one persistent buffer; if the reusing path fails, an
    /// allocating encode is tried so a publish attempt is never silently
    /// lost. Fails exactly for a video payload too large for the codec's
    /// size field, leaving the history unchanged.
    pub fn send(&mut self, packet: Packet) -> (r: Result<(), AqueductError>)
        requires
            old(self).wf(),
            old(self).history().len() < u64::MAX,
        ensures
            final(self).wf(),
            final(self).spec_capacity() == old(self).spec_capacity(),
            r is Ok ==> final(self).oldest_available() == (if old(self).history().len()
                - old(self).oldest_available() < old(self).spec_capacity() {
                old(self).oldest_available()
            } else {
                old(self).oldest_available() + 1
            }),
            r is Err ==> final(self).oldest_available() == old(self).oldest_available(),
            r is Ok <==> spec_sendable(packet@),
            r is Ok ==> final(self).history() == old(self).history().push(
                spec_published_form(packet@),
            ),
            r is Err ==> final(self).history() == old(self).history()
                && r->Err_0 matches AqueductError::Serialization(_),
    {
        match packet {
            Packet::Video(mut f) => {
                self.scratch.clear();
                match self.codec.encode_into(&f, &mut self.scratch) {
                    Ok(()) => {
                        let mut compressed: Vec<u8> = Vec::new();
                        core::mem::swap(&mut compressed, &mut self.scratch);
                        proof {
                            assert(compressed@ =~= codec_block(f.data@));
                        }
                        f.data = compressed;
                        self.publish(Packet::Video(f));
                        Ok(())
                    },
                    Err(_) => {
                        match self.codec.encode(&f) {
                            Ok(compressed) => {
                                f.data = compressed;
                                self.publish(Packet::Video(f));
                                Ok(())
                            },
                            Err(e) => Err(e),
                        }
                    },
                }
            },
            other => {
                self.publish(other);
                Ok(())
            },
        }
    }

    /// A new subscription, starting at the current end of the history:
    /// it observes its own suffix of the published sequence.
    pub fn subscribe(&self) -> (r: Subscriber)
        requires
            self.wf(),
        ensures
            r.wf_for(self),
            r.position() == self.history().len(),
            r.delivered_indices() == Seq::<int>::empty(),
    {
        Subscriber { next_seq: self.next_seq, delivered: Ghost(Seq::empty()) }
    }

    /// One receive attempt for a subscriber's cursor.
    ///
    /// Caught up: nothing is delivered and nothing changes. Fallen behind
    /// the ring: a lag indication with the exact skip count, and the
    /// cursor advances to the oldest available packet — nothing is
    /// delivered, so nothing is ever delivered twice. Otherwise: exactly
    /// the next packet of the publish history, and the cursor advances
    /// by one.
    pub fn recv(&self, sub: &mut Subscriber) -> (r: RecvOutcome)
        requires
            self.wf(),
            old(sub).wf_for(self),
        ensures
            final(sub).wf_for(self),
            old(sub).position() == self.history().len() ==> r is Empty && *final(sub) == *old(sub),
            old(sub).position() < self.oldest_available() ==> {
                &&& r matches RecvOutcome::Lagged(n) && n == self.oldest_available() - old(
                    sub,
                ).position()
                &&& final(sub).position() == self.oldest_available()
                &&& final(sub).delivered_indices() == old(sub).delivered_indices()
            },
            self.oldest_available() <= old(sub).position() < self.history().len() ==> {
                &&& r matches RecvOutcome::Delivered(p) && p@ == self.history()[old(
                    sub,
                ).position()]
                &&& final(sub).position() == old(sub).position() + 1
                &&& final(sub).delivered_indices() == old(sub).delivered_indices().push(
                    old(sub).position(),
                )
            },
    {
        if sub.next_seq == self.next_seq {
            return RecvOutcome::Empty;
        }
        let oldest = self.next_seq - self.entries.len() as u64;
        if sub.next_seq < oldest {
            let skipped = oldest - sub.next_seq;
            sub.next_seq = oldest;
            proof {
                assert forall|i: int|
                    0 <= i < sub.delivered@.len() implies 0 <= #[trigger] sub.delivered@[i]
                    < sub.next_seq as int by {
                    assert(sub.delivered@[i] == old(sub).delivered_indices()[i]);
                    assert(old(sub).delivered_indices()[i] < old(sub).position());
                }
            }
            RecvOutcome::Lagged(skipped)
        } else {
            let idx = (sub.next_seq - oldest) as usize;
            let packet = self.entries[idx].duplicate();
            sub.delivered = Ghost(sub.delivered@.push(sub.next_seq as int));
            sub.next_seq = sub.next_seq + 1;
            proof {
                let s0 = old(sub).delivered@;
                let s1 = sub.delivered@;
                assert forall|i: int, j: int| 0 <= i < j < s1.len() implies #[trigger] s1[i]
                    < #[trigger] s1[j] by {
                    if j == s1.len() - 1 {
                        assert(s1[i] == s0[i]);
                        assert(s0[i] < old(sub).next_seq as int);
                    } else {
                        assert(s1[i] == s0[i] && s1[j] == s0[j]);
                    }
                }
                assert forall|i: int|
                    0 <= i < s1.len() implies 0 <= #[trigger] s1[i] < sub.next_seq as int by {
                    if i < s1.len() - 1 {
                        assert(s1[i] == s0[i]);
                    }
                }
            }
            RecvOutcome::Delivered(packet)
        }
    }
}

impl Subscriber {
    /// The position in the history of the next packet this cursor would
    /// receive.
    pub closed spec fn position(&self) -> int {
        self.next_seq as int
    }

    /// The history positions of every packet delivered to this cursor,
    /// in delivery order.
    pub closed spec fn delivered_indices(&self) -> Seq<int> {
        self.delivered@
    }

    /// The cursor never runs ahead of the history, and its deliveries
    /// are strictly ascending history positions behind the cursor.
    pub open spec fn wf_for(&self, d: &Distributor) -> bool {
        &&& 0 <= self.position() <= d.history().len()
        &&& forall|i: int, j: int|
            0 <= i < j < self.delivered_indices().len()
                ==> #[trigger] self.delivered_indices()[i] < #[trigger] self.delivered_indices()[j]
        &&& forall|i: int|
            0 <= i < self.delivered_indices().len() ==> 0 <= #[trigger] self.delivered_indices()[i]
                < self.position()
    }
}

proof fn lemma_ascending_lower_bound(s: Seq<int>, lo: int, i: int)
    requires
        forall|k: int, l: int| 0 <= k < l < s.len() ==> #[trigger] s[k] < #[trigger] s[l],
        forall|k: int| 0 <= k < s.len() ==> #[trigger] s[k] >= lo,
        0 <= i < s.len(),
    ensures
        s[i] >= lo + i,
    decreases i,
{
    if i > 0 {
        lemma_ascending_lower_bound(s, lo, i - 1);
    }
}

proof fn lemma_ascending_upper_bound(s: Seq<int>, hi: int, i: int)
    requires
        forall|k: int, l: int| 0 <= k < l < s.len() ==> #[trigger] s[k] < #[trigger] s[l],
        forall|k: int| 0 <= k < s.len() ==> #[trigger] s[k] < hi,
        0 <= i < s.len(),
    ensures
        s[i] < hi - (s.len() - 1 - i),
    decreases s.len() - i,
{
    if i < s.len() - 1 {
        lemma_ascending_upper_bound(s, hi, i + 1);
    }
}

/// Fast subscribers lose nothing: a subscriber that started at history
/// position `start` and has been delivered as many packets as its cursor
/// has advanced over (it never lagged) has received exactly the packets
/// at positions `start`, `start + 1`, ... in publish order — together
/// with [`Distributor::recv`]'s contract, every published packet since
/// subscription, each exactly once.
pub proof fn lemma_fast_subscriber_receives_all(d: &Distributor, sub: &Subscriber, start: int)
    requires
        d.wf(),
        sub.wf_for(d),
        0 <= start <= sub.position(),
        sub.delivered_indices().len() == sub.position() - start,
        forall|i: int|
            0 <= i < sub.delivered_indices().len() ==> #[trigger] sub.delivered_indices()[i]
                >= start,
    ensures
        forall|i: int|
            0 <= i < sub.delivered_indices().len() ==> #[trigger] sub.delivered_indices()[i]
                == start + i,
{
    let s = sub.delivered_indices();
    assert forall|i: int| 0 <= i < s.len() implies #[trigger] s[i] == start + i by {
        lemma_ascending_lower_bound(s, start, i);
        lemma_ascending_upper_bound(s, sub.position(), i);
    }
}

/// No duplicates, ever: the history positions delivered to a subscriber
/// are pairwise distinct and strictly ascending, and every future
/// delivery — [`Distributor::recv`] delivers only at or beyond the
/// cursor — exceeds every past one. A lag indication skips forward, so
/// resuming after a lag also delivers only later, never-delivered
/// packets.
pub proof fn lemma_no_duplicate_delivery(d: &Distributor, sub: &Subscriber)
    requires
        d.wf(),
        sub.wf_for(d),
    ensures
        forall|i: int, j: int|
            0 <= i < j < sub.delivered_indices().len() ==> #[trigger] sub.delivered_indices()[i]
                != #[trigger] sub.delivered_indices()[j],
        forall|i: int|
            0 <= i < sub.delivered_indices().len() ==> #[trigger] sub.delivered_indices()[i]
                < sub.position(),
{
}

} // verus!
