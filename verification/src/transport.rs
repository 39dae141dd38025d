//! Coalescing of one batch of received datagrams: only the latest packet per
//! OSC address is kept, in the order the addresses first appeared.
use vstd::prelude::*;

use crate::osc::{args_model, error_message, parse_packet, parse_packet_spec, ArgModel, OscPacket};

verus! {

broadcast use vstd::string::group_string_axioms;

/// The most datagrams read in one batch.
pub const MAX_PACKET_BATCH: usize = 4096;

/// A decoded packet and the peer it came from.
#[derive(Debug)]
pub struct ReceivedPacket<P> {
    pub packet: OscPacket,
    pub peer: P,
}

/// The outcome of one batch.
#[derive(Debug)]
pub struct DrainResult<P> {
    /// The latest packet per address, in order of first appearance.
    pub packets: Vec<ReceivedPacket<P>>,
    /// The peers of undecodable datagrams, with the reason.
    pub malformed: Vec<(P, String)>,
    /// True when the batch stopped at [`MAX_PACKET_BATCH`] datagrams.
    pub saturated: bool,
    /// True when the socket reported that a peer's port was closed.
    pub connection_reset: bool,
}

/// One kept packet: its address, its arguments, and its peer.
pub type Entry<P> = (Seq<char>, Seq<ArgModel>, P);

impl<P> ReceivedPacket<P> {
    pub open spec fn entry(self) -> Entry<P> {
        (self.packet.address@, args_model(self.packet.arguments@), self.peer)
    }
}

/// The kept entries of a list of received packets.
pub open spec fn entries_of<P>(packets: Seq<ReceivedPacket<P>>) -> Seq<Entry<P>> {
    packets.map_values(|r: ReceivedPacket<P>| r.entry())
}

/// True when no two entries share an address.
pub open spec fn addresses_unique<P>(entries: Seq<Entry<P>>) -> bool {
    forall|i: int, j: int| 0 <= i < j < entries.len() ==> #[trigger] entries[i].0 != #[trigger] entries[j].0
}

/// The index of the entry with this address, if any.
pub open spec fn index_of_address<P>(entries: Seq<Entry<P>>, address: Seq<char>) -> Option<int>
    decreases entries.len(),
{
    if entries.len() == 0 {
        None
    } else if entries.last().0 == address {
        Some(entries.len() - 1)
    } else {
        index_of_address(entries.drop_last(), address)
    }
}

/// Keeping a newly decoded packet: it replaces the entry with the same address,
/// or is appended when its address is new.
pub open spec fn keep_latest<P>(entries: Seq<Entry<P>>, e: Entry<P>) -> Seq<Entry<P>> {
    match index_of_address(entries, e.0) {
        Some(i) => entries.update(i, e),
        None => entries.push(e),
    }
}

/// The entries kept from a sequence of decoded packets, in arrival order.
pub open spec fn coalesce<P>(arrivals: Seq<Entry<P>>) -> Seq<Entry<P>>
    decreases arrivals.len(),
{
    if arrivals.len() == 0 {
        seq![]
    } else {
        keep_latest(coalesce(arrivals.drop_last()), arrivals.last())
    }
}

/// The entry found by [`index_of_address`] has that address, and no other has.
pub proof fn lemma_index_of_address<P>(entries: Seq<Entry<P>>, address: Seq<char>)
    ensures
        index_of_address(entries, address) matches Some(i) ==> 0 <= i < entries.len() && entries[i].0 == address,
        index_of_address(entries, address) is None ==> forall|j: int| 0 <= j < entries.len() ==> entries[j].0 != address,
    decreases entries.len(),
{
    if entries.len() > 0 && entries.last().0 != address {
        lemma_index_of_address(entries.drop_last(), address);
        assert forall|j: int| 0 <= j < entries.len() - 1 implies entries[j] == entries.drop_last()[j] by {}
    }
}

/// The last arrival with this address, if any.
pub open spec fn last_with_address<P>(arrivals: Seq<Entry<P>>, address: Seq<char>) -> Option<Entry<P>>
    decreases arrivals.len(),
{
    if arrivals.len() == 0 {
        None
    } else if arrivals.last().0 == address {
        Some(arrivals.last())
    } else {
        last_with_address(arrivals.drop_last(), address)
    }
}

/// In entries with unique addresses, the entry holding an address is the one
/// [`index_of_address`] finds.
pub proof fn lemma_unique_index<P>(entries: Seq<Entry<P>>, i: int)
    requires
        addresses_unique(entries),
        0 <= i < entries.len(),
    ensures
        index_of_address(entries, entries[i].0) == Some(i),
    decreases entries.len(),
{
    if i < entries.len() - 1 {
        let d = entries.drop_last();
        assert(d[i] == entries[i]);
        assert(entries.last() == entries[entries.len() - 1]);
        assert(addresses_unique(d)) by {
            assert forall|a: int, b: int| 0 <= a < b < d.len() implies #[trigger] d[a].0 != #[trigger] d[b].0 by {
                assert(d[a] == entries[a] && d[b] == entries[b]);
            }
        }
        lemma_unique_index(d, i);
    }
}

/// Keeping the latest packet preserves unique addresses.
pub proof fn lemma_keep_latest_unique<P>(entries: Seq<Entry<P>>, e: Entry<P>)
    requires
        addresses_unique(entries),
    ensures
        addresses_unique(keep_latest(entries, e)),
        keep_latest(entries, e).len() >= 1,
        index_of_address(keep_latest(entries, e), e.0) matches Some(i) && keep_latest(entries, e)[i] == e,
        forall|a: Seq<char>| a != e.0 ==> {
            &&& #[trigger] index_of_address(keep_latest(entries, e), a) == index_of_address(entries, a)
            &&& index_of_address(entries, a) matches Some(j) ==> keep_latest(entries, e)[j] == entries[j]
        },
{
    lemma_index_of_address(entries, e.0);
    let k = keep_latest(entries, e);
    let pos = match index_of_address(entries, e.0) {
        Some(i) => i,
        None => entries.len() as int,
    };
    assert(k[pos] == e);
    assert forall|a: int, b: int| 0 <= a < b < k.len() implies #[trigger] k[a].0 != #[trigger] k[b].0 by {
        if a != pos && b != pos {
            assert(k[a] == entries[a] && k[b] == entries[b]);
        } else if a == pos {
            assert(k[b] == entries[b]);
        } else {
            assert(k[a] == entries[a]);
        }
    }
    lemma_unique_index(k, pos);
    assert forall|a: Seq<char>| a != e.0 implies {
        &&& #[trigger] index_of_address(k, a) == index_of_address(entries, a)
        &&& index_of_address(entries, a) matches Some(j) ==> k[j] == entries[j]
    } by {
        lemma_index_of_address(entries, a);
        lemma_index_of_address(k, a);
        match index_of_address(entries, a) {
            Some(j) => {
                assert(k[j] == entries[j]);
                lemma_unique_index(k, j);
            },
            None => {
                if let Some(j) = index_of_address(k, a) {
                    assert(j != pos);
                    assert(k[j] == entries[j]);
                }
            },
        }
    }
}

/// Coalescing a batch keeps one entry per address: no two kept entries share an
/// address, an address is kept exactly when some packet had it, and the kept
/// entry is the last packet that had it.
pub proof fn lemma_coalesce_keeps_latest<P>(arrivals: Seq<Entry<P>>, address: Seq<char>)
    ensures
        addresses_unique(coalesce(arrivals)),
        match index_of_address(coalesce(arrivals), address) {
            Some(i) => last_with_address(arrivals, address) == Some(coalesce(arrivals)[i]),
            None => last_with_address(arrivals, address) is None,
        },
    decreases arrivals.len(),
{
    if arrivals.len() > 0 {
        let d = arrivals.drop_last();
        let e = arrivals.last();
        lemma_coalesce_keeps_latest(d, address);
        lemma_keep_latest_unique(coalesce(d), e);
    }
}

/// Whether another datagram may be read into a batch that already holds
/// `received`: a batch stops at [`MAX_PACKET_BATCH`].
pub fn batch_has_room(received: usize) -> (r: bool)
    ensures
        r == (received < MAX_PACKET_BATCH),
{
    received < MAX_PACKET_BATCH
}

impl<P> DrainResult<P> {
    /// An empty batch.
    pub fn new() -> (r: Self)
        ensures
            r.packets@.len() == 0,
            r.malformed@.len() == 0,
            !r.saturated,
            !r.connection_reset,
    {
        DrainResult { packets: Vec::new(), malformed: Vec::new(), saturated: false, connection_reset: false }
    }

    /// Takes one received datagram: a decodable one replaces the kept packet
    /// with its address (or is appended), an undecodable one is reported.
    pub fn accept_datagram(&mut self, bytes: &[u8], peer: P)
        requires
            bytes@.len() + 8 <= usize::MAX,
            addresses_unique(entries_of(old(self).packets@)),
        ensures
            addresses_unique(entries_of(final(self).packets@)),
            final(self).saturated == old(self).saturated,
            final(self).connection_reset == old(self).connection_reset,
            match parse_packet_spec(bytes@) {
                Ok((address, args)) => {
                    &&& entries_of(final(self).packets@) == keep_latest(entries_of(old(self).packets@), (address, args, peer))
                    &&& final(self).malformed@ == old(self).malformed@
                },
                Err(kind) => {
                    &&& final(self).packets@ == old(self).packets@
                    &&& final(self).malformed@.len() == old(self).malformed@.len() + 1
                    &&& final(self).malformed@.drop_last() == old(self).malformed@
                    &&& final(self).malformed@.last().0 == peer
                    &&& final(self).malformed@.last().1@ == error_message(kind)
                },
            },
    {
        match parse_packet(bytes) {
            Err(error) => {
                let message = error.message();
                self.malformed.push((peer, message));
                assert(self.malformed@.drop_last() =~= old(self).malformed@);
            },
            Ok(packet) => {
                let ghost before = entries_of(self.packets@);
                let ghost e = (packet.address@, args_model(packet.arguments@), peer);
                let mut i = self.packets.len();
                assert(before.subrange(0, i as int) =~= before);
                while i > 0
                    invariant
                        i <= self.packets@.len(),
                        before == entries_of(self.packets@),
                        e.0 == packet.address@,
                        index_of_address(before, e.0) == index_of_address(before.subrange(0, i as int), e.0),
                    ensures
                        i > 0 ==> before[i - 1].0 == e.0,
                    decreases i,
                {
                    assert(before.subrange(0, i as int).drop_last() =~= before.subrange(0, i - 1));
                    assert(before[i - 1] == self.packets@[i - 1].entry());
                    assert(before.subrange(0, i as int).last() == before[i - 1]);
                    if self.packets[i - 1].packet.address == packet.address {
                        break;
                    }
                    i = i - 1;
                }
                proof {
                    lemma_index_of_address(before, e.0);
                }
                if i > 0 {
                    assert(index_of_address(before, e.0) == Some((i - 1) as int));
                    self.packets.set(i - 1, ReceivedPacket { packet, peer });
                    assert(entries_of(self.packets@) =~= before.update(i - 1, e));
                } else {
                    assert(before.subrange(0, 0) =~= Seq::<Entry<P>>::empty());
                    self.packets.push(ReceivedPacket { packet, peer });
                    assert(entries_of(self.packets@) =~= before.push(e));
                }
            },
        }
    }

    /// Records that the socket reported a closed peer port.
    pub fn mark_connection_reset(&mut self)
        ensures
            final(self).connection_reset,
            final(self).packets@ == old(self).packets@,
            final(self).malformed@ == old(self).malformed@,
            final(self).saturated == old(self).saturated,
    {
        self.connection_reset = true;
    }

    /// Closes the batch after `received` datagrams.
    pub fn finish(&mut self, received: usize)
        ensures
            final(self).saturated == (received == MAX_PACKET_BATCH),
            final(self).connection_reset == old(self).connection_reset,
            final(self).packets@ == old(self).packets@,
            final(self).malformed@ == old(self).malformed@,
    {
        self.saturated = received == MAX_PACKET_BATCH;
    }
}

} // verus!
