//! The table of known bulbs, filled from the datagrams bulbs send and read
//! to decide which queries to send them.
use vstd::prelude::*;

use std::collections::HashMap;
use vstd::std_specs::iter::IteratorSpec;

use crate::bulb::{
    is_alphanumeric, message_fits, random_alphanumeric, product_answer, spec_apply, spec_fresh, spec_queries,
    BulbInfo, BulbView, PeerAddr,
};
use crate::lan::{
    datagram_target, decode, query_datagram, query_datagrams, query_packet, read_target,
    spec_decode, unpack_panics, DecodeError, DecodeErrorView, LanMessage, MessageView, Query,
};

verus! {

/// The source identifier this server puts in every message it sends.
pub const SOURCE: u32 = 0x72757374;

pub struct Manager {
    pub bulbs: HashMap<u64, BulbInfo>,
    /// When discovery was last done.
    pub last_discovery: u64,
    pub source: u32,
}

impl Manager {
    /// The known bulbs by target.
    pub open spec fn table(&self) -> Map<u64, BulbView> {
        self.bulbs@.map_values(|b: BulbInfo| b@)
    }
}

/// What became of a datagram the table was given.
#[derive(Debug)]
pub enum Received {
    /// lifx-rs could not unpack it.
    NotUnpacked(DecodeError),
    /// It names no bulb (its target is 0).
    NoTarget,
    /// Its bulb took the message in.
    Taken,
    /// Its bulb was marked seen, but lifx-rs could not decode the message.
    NotDecoded(DecodeError),
}

pub enum ReceivedView {
    NotUnpacked(DecodeErrorView),
    NoTarget,
    Taken,
    NotDecoded(DecodeErrorView),
}

impl View for Received {
    type V = ReceivedView;

    open spec fn view(&self) -> ReceivedView {
        match self {
            Received::NotUnpacked(e) => ReceivedView::NotUnpacked(e@),
            Received::NoTarget => ReceivedView::NoTarget,
            Received::Taken => ReceivedView::Taken,
            Received::NotDecoded(e) => ReceivedView::NotDecoded(e@),
        }
    }
}

/// What becomes of the datagram `b`.
pub open spec fn spec_outcome(b: Seq<u8>) -> ReceivedView {
    match datagram_target(b) {
        Err(e) => ReceivedView::NotUnpacked(e),
        Ok(t) => if t == 0 {
            ReceivedView::NoTarget
        } else {
            match spec_decode(b) {
                MessageView::Undecodable(e) => ReceivedView::NotDecoded(e),
                _ => ReceivedView::Taken,
            }
        },
    }
}

/// The table after a datagram `b` arrived from `addr` at `now`: datagrams
/// that do not unpack, and those with target 0, change nothing; otherwise
/// the bulb with that target is marked seen (or, if unknown, added with the
/// identifiers `id` and `uuid`) and then takes the message in.
pub open spec fn spec_receive(
    table: Map<u64, BulbView>,
    b: Seq<u8>,
    addr: (Seq<u8>, u16),
    now: u64,
    id: Seq<char>,
    uuid: Seq<char>,
    source: u32,
) -> Map<u64, BulbView> {
    match datagram_target(b) {
        Err(_) => table,
        Ok(t) => if t == 0 {
            table
        } else {
            let prev = if table.contains_key(t) {
                BulbView { last_seen: now, addr, ..table[t] }
            } else {
                spec_fresh(id, uuid, source, t, addr, now)
            };
            let m = spec_decode(b);
            table.insert(t, spec_apply(prev, m, now, product_answer(m)))
        },
    }
}

/// The datagrams on which taking a message in would index past a bulb's
/// zone list.
pub open spec fn receive_fits(table: Map<u64, BulbView>, b: Seq<u8>) -> bool {
    match datagram_target(b) {
        Ok(t) => t != 0 && table.contains_key(t) ==> message_fits(table[t], spec_decode(b)),
        Err(_) => true,
    }
}

/// The packets for the bulbs `targets`, in that order, each bulb's queries
/// in the order of [`spec_queries`].
pub open spec fn spec_refresh(table: Map<u64, BulbView>, targets: Seq<u64>, now: u64) -> Seq<
    (u64, Seq<u8>),
>
    decreases targets.len(),
{
    if targets.len() == 0 {
        Seq::empty()
    } else {
        let t = targets.last();
        let b = table[t];
        spec_refresh(table, targets.drop_last(), now) + query_datagrams(
            Some(b.target),
            b.source,
            true,
            spec_queries(b, now),
        ).map_values(|p: Seq<u8>| (t, p))
    }
}

/// A datagram changes at most the bulb it is from: when it unpacks with a
/// target other than 0, that target is known afterwards, marked seen at
/// `now` from `addr`, and keeps its identity if it was known; every other
/// bulb stays as it was. Other datagrams change nothing.
pub proof fn lemma_receive_touches_one_bulb(
    table: Map<u64, BulbView>,
    b: Seq<u8>,
    addr: (Seq<u8>, u16),
    now: u64,
    id: Seq<char>,
    uuid: Seq<char>,
    source: u32,
)
    ensures
        ({
            let after = spec_receive(table, b, addr, now, id, uuid, source);
            match datagram_target(b) {
                Ok(t) => if t == 0 {
                    after == table
                } else {
                    &&& after.dom() == table.dom().insert(t)
                    &&& forall|k: u64| k != t && table.contains_key(k) ==> after[k] == table[k]
                    &&& after[t].last_seen == now
                    &&& after[t].addr == addr
                    &&& after[t].target == (if table.contains_key(t) {
                        table[t].target
                    } else {
                        t
                    })
                    &&& after[t].id == (if table.contains_key(t) {
                        table[t].id
                    } else {
                        id
                    })
                    &&& after[t].uuid == (if table.contains_key(t) {
                        table[t].uuid
                    } else {
                        uuid
                    })
                },
                Err(_) => after == table,
            }
        }),
{
    if let Ok(t) = datagram_target(b) {
        if t != 0 {
            let prev = if table.contains_key(t) {
                BulbView { last_seen: now, addr, ..table[t] }
            } else {
                spec_fresh(id, uuid, source, t, addr, now)
            };
            let m = spec_decode(b);
            crate::bulb::lemma_apply_keeps_identity(prev, m, now, product_answer(m));
            let after = spec_receive(table, b, addr, now, id, uuid, source);
            assert(after.dom() =~= table.dom().insert(t));
        }
    }
}

/// Every bulb in the table is filed under its own target.
pub open spec fn filed_by_target(table: Map<u64, BulbView>) -> bool {
    forall|k: u64| table.contains_key(k) ==> (#[trigger] table[k]).target == k
}

/// Taking a datagram in keeps every bulb filed under its own target.
pub proof fn lemma_receive_keeps_filing(
    table: Map<u64, BulbView>,
    b: Seq<u8>,
    addr: (Seq<u8>, u16),
    now: u64,
    id: Seq<char>,
    uuid: Seq<char>,
    source: u32,
)
    requires
        filed_by_target(table),
    ensures
        filed_by_target(spec_receive(table, b, addr, now, id, uuid, source)),
{
    lemma_receive_touches_one_bulb(table, b, addr, now, id, uuid, source);
    let after = spec_receive(table, b, addr, now, id, uuid, source);
    if let Ok(t) = datagram_target(b) {
        if t != 0 {
            assert forall|k: u64| after.contains_key(k) implies (#[trigger] after[k]).target == k by {
                if k != t {
                    assert(table.contains_key(k));
                }
            }
        }
    }
}

impl Manager {
    /// An empty table, made at `now`.
    pub fn new(now: u64) -> (r: Manager)
        ensures
            r.table() == Map::<u64, BulbView>::empty(),
            filed_by_target(r.table()),
            r.last_discovery == now,
            r.source == SOURCE,
    {
        let r = Manager { bulbs: HashMap::new(), last_discovery: now, source: SOURCE };
        assert(r.table() =~= Map::<u64, BulbView>::empty());
        r
    }

    /// The datagram that asks every bulb on a network to announce itself.
    pub fn discovery_packet(&self) -> (r: Vec<u8>)
        ensures
            r@ == query_datagram(None, self.source, false, Query::Service),
    {
        query_packet(None, self.source, false, Query::Service)
    }

    /// Records that discovery was done at `now`.
    pub fn discovered(&mut self, now: u64)
        ensures
            final(self).last_discovery == now,
            final(self).table() == old(self).table(),
            final(self).source == old(self).source,
    {
        self.last_discovery = now;
    }

    /// Takes in a datagram that arrived from `addr` at `now`; a bulb first
    /// heard from gets the identifiers `id` and `uuid`.
    pub fn receive_with_ids(
        &mut self,
        bytes: &[u8],
        addr: PeerAddr,
        now: u64,
        id: String,
        uuid: String,
    ) -> (r: Received)
        requires
            !unpack_panics(bytes@),
            receive_fits(old(self).table(), bytes@),
        ensures
            r@ == spec_outcome(bytes@),
            final(self).table() == spec_receive(
                old(self).table(),
                bytes@,
                (addr.ip@, addr.port),
                now,
                id@,
                uuid@,
                old(self).source,
            ),
            final(self).source == old(self).source,
            final(self).last_discovery == old(self).last_discovery,
    {
        let ghost addr_view = (addr.ip@, addr.port);
        let t = match read_target(bytes) {
            Err(e) => {
                return Received::NotUnpacked(e);
            },
            Ok(t) => t,
        };
        if t == 0 {
            return Received::NoTarget;
        }
        let msg = decode(bytes);
        let ghost old_table = self.table();
        let ghost m = msg@;
        let mut bulb = match self.bulbs.remove(&t) {
            Some(mut b) => {
                b.update(addr, now);
                b
            },
            None => BulbInfo::with_ids(id, uuid, self.source, t, addr, now),
        };
        assert(message_fits(bulb@, msg@));
        let r = match msg {
            LanMessage::Undecodable(e) => Received::NotDecoded(e),
            other => {
                bulb.apply_message(other, now);
                Received::Taken
            },
        };
        self.bulbs.insert(t, bulb);
        assert(self.table() =~= spec_receive(
            old_table,
            bytes@,
            addr_view,
            now,
            id@,
            uuid@,
            self.source,
        ));
        r
    }

    /// Takes in a datagram that arrived from `addr` at `now`; a bulb first
    /// heard from gets a random 12-character id and 30-character uuid.
    pub fn receive(&mut self, bytes: &[u8], addr: PeerAddr, now: u64) -> (r: Received)
        requires
            !unpack_panics(bytes@),
            receive_fits(old(self).table(), bytes@),
        ensures
            r@ == spec_outcome(bytes@),
            exists|id: Seq<char>, uuid: Seq<char>|
                {
                    &&& id.len() == 12
                    &&& uuid.len() == 30
                    &&& forall|i: int| 0 <= i < 12 ==> is_alphanumeric(#[trigger] id[i])
                    &&& forall|i: int| 0 <= i < 30 ==> is_alphanumeric(#[trigger] uuid[i])
                    &&& final(self).table() == spec_receive(
                        old(self).table(),
                        bytes@,
                        (addr.ip@, addr.port),
                        now,
                        id,
                        uuid,
                        old(self).source,
                    )
                },
            final(self).source == old(self).source,
            final(self).last_discovery == old(self).last_discovery,
    {
        let id = random_alphanumeric(12);
        let uuid = random_alphanumeric(30);
        let ghost (id_view, uuid_view) = (id@, uuid@);
        let r = self.receive_with_ids(bytes, addr, now, id, uuid);
        assert(id_view.len() == 12);
        r
    }

    /// Takes in a datagram unless doing so would fail: when lifx-rs would
    /// panic unpacking it, or when its message would index past a bulb's
    /// zone list. Returns what became of it if it was taken in; if not,
    /// `None`, and nothing changed.
    pub fn receive_checked(&mut self, bytes: &[u8], addr: PeerAddr, now: u64) -> (r: Option<Received>)
        ensures
            r is Some == (!unpack_panics(bytes@) && receive_fits(old(self).table(), bytes@)),
            r matches Some(o) ==> o@ == spec_outcome(bytes@),
            r is Some ==> exists|id: Seq<char>, uuid: Seq<char>|
                {
                    &&& id.len() == 12
                    &&& uuid.len() == 30
                    &&& forall|i: int| 0 <= i < 12 ==> is_alphanumeric(#[trigger] id[i])
                    &&& forall|i: int| 0 <= i < 30 ==> is_alphanumeric(#[trigger] uuid[i])
                    &&& final(self).table() == spec_receive(
                        old(self).table(),
                        bytes@,
                        (addr.ip@, addr.port),
                        now,
                        id,
                        uuid,
                        old(self).source,
                    )
                },
            r is None ==> final(self).table() == old(self).table(),
            final(self).source == old(self).source,
            final(self).last_discovery == old(self).last_discovery,
    {
        if crate::lan::unpack_would_panic(bytes) {
            return None;
        }
        if self.receive_would_fail(bytes) {
            return None;
        }
        Some(self.receive(bytes, addr, now))
    }

    /// Whether taking in `bytes` would index past a bulb's zone list.
    pub fn receive_would_fail(&self, bytes: &[u8]) -> (r: bool)
        requires
            !unpack_panics(bytes@),
        ensures
            r == !receive_fits(self.table(), bytes@),
    {
        let t = match read_target(bytes) {
            Err(_) => {
                return false;
            },
            Ok(t) => t,
        };
        if t == 0 {
            return false;
        }
        match self.bulbs.get(&t) {
            None => false,
            Some(b) => {
                let msg = decode(bytes);
                !crate::bulb::fits(b, &msg)
            },
        }
    }

    /// The targets of all known bulbs, each once, in the order the table
    /// holds them.
    pub fn targets(&self) -> (r: Vec<u64>)
        ensures
            r@.no_duplicates(),
            r@.to_set() == self.table().dom(),
    {
        let mut r: Vec<u64> = Vec::new();
        let ghost all = self.bulbs.keys().remaining();
        for k in it: self.bulbs.keys()
            invariant
                it.seq() == all,
                r@ == all.take(it.index() as int).unref(),
        {
            r.push(*k);
            assert(r@ =~= all.take(it.index() + 1).unref());
        }
        assert(all.take(all.len() as int) =~= all);
        r
    }

    /// The datagrams that query the bulbs `targets`, in that order, for
    /// what they need answered at `now`.
    pub fn refresh(&self, targets: &Vec<u64>, now: u64) -> (r: Vec<(u64, Vec<u8>)>)
        requires
            forall|i: int| 0 <= i < targets@.len() ==> self.table().contains_key(#[trigger] targets@[i]),
        ensures
            r@.map_values(|p: (u64, Vec<u8>)| (p.0, p.1@)) == spec_refresh(self.table(), targets@, now),
    {
        let mut packets: Vec<(u64, Vec<u8>)> = Vec::new();
        let mut i: usize = 0;
        assert(packets@.map_values(|p: (u64, Vec<u8>)| (p.0, p.1@)) =~= spec_refresh(
            self.table(),
            targets@.take(0),
            now,
        ));
        while i < targets.len()
            invariant
                i <= targets@.len(),
                forall|k: int| 0 <= k < targets@.len() ==> self.table().contains_key(#[trigger] targets@[k]),
                packets@.map_values(|p: (u64, Vec<u8>)| (p.0, p.1@)) == spec_refresh(
                    self.table(),
                    targets@.take(i as int),
                    now,
                ),
            decreases targets.len() - i,
        {
            let t = targets[i];
            let bulb = self.bulbs.get(&t).unwrap();
            let queries = bulb.missing_info(now);
            let ghost before = packets@.map_values(|p: (u64, Vec<u8>)| (p.0, p.1@));
            let ghost n0 = packets@.len();
            assert(targets@.take(i + 1).drop_last() =~= targets@.take(i as int));
            assert(targets@.take(i + 1).last() == t);
            assert(self.table()[t] == bulb@);
            let mut j: usize = 0;
            while j < queries.len()
                invariant
                    j <= queries@.len(),
                    queries@ == spec_queries(bulb@, now),
                    packets@.len() == n0 + j,
                    before.len() == n0,
                    forall|k: int| 0 <= k < n0 ==> (#[trigger] packets@[k]).0 == before[k].0 && packets@[k].1@ == before[k].1,
                    forall|k: int|
                        0 <= k < j ==> (#[trigger] packets@[n0 + k]).0 == t && packets@[n0 + k].1@
                            == query_datagram(Some(bulb.target), bulb.source, true, queries@[k]),
                decreases queries.len() - j,
            {
                let p = query_packet(Some(bulb.target), bulb.source, true, queries[j]);
                packets.push((t, p));
                proof {
                    assert forall|k: int| 0 <= k < n0 implies (#[trigger] packets@[k]).0 == before[k].0
                        && packets@[k].1@ == before[k].1 by {}
                    assert(packets@[n0 + j].1@ == query_datagram(Some(bulb.target), bulb.source, true, queries@[j as int]));
                }
                j = j + 1;
            }
            let ghost mine = query_datagrams(
                Some(bulb.target),
                bulb.source,
                true,
                spec_queries(bulb@, now),
            ).map_values(|p: Seq<u8>| (t, p));
            let ghost now_view = packets@.map_values(|p: (u64, Vec<u8>)| (p.0, p.1@));
            assert forall|k: int| 0 <= k < now_view.len() implies #[trigger] now_view[k] == (before + mine)[k] by {
                if k < n0 {
                    assert(now_view[k] == (packets@[k].0, packets@[k].1@));
                } else {
                    assert(packets@[n0 + (k - n0)].0 == t);
                    assert(mine[k - n0] == (t, query_datagram(Some(bulb.target), bulb.source, true, queries@[k - n0])));
                }
            }
            assert(packets@.map_values(|p: (u64, Vec<u8>)| (p.0, p.1@)) =~= before + query_datagrams(
                Some(bulb.target),
                bulb.source,
                true,
                spec_queries(bulb@, now),
            ).map_values(|p: Seq<u8>| (t, p)));
            i = i + 1;
        }
        assert(targets@.take(targets@.len() as int) =~= targets@);
        packets
    }
}

} // verus!
