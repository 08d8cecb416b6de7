//! Bookkeeping of the peers: which are known, which have received the current
//! filter, and which are scanning.

use vstd::prelude::*;

verus! {

/// A peer's identifier: the address and the port it is reached at.
#[derive(Clone, Copy, Debug, PartialEq, Eq, Hash, Structural)]
pub struct PeerId {
    /// The address, an IPv4 one mapped into the IPv6 range.
    pub addr: u128,
    /// The port.
    pub port: u16,
}

/// What is kept of a known peer.
#[derive(Clone, Copy, Debug, PartialEq, Eq, Structural)]
pub struct PeerRecord {
    /// The peer.
    pub peer: PeerId,
    /// Whether the current filter was sent to it.
    pub armed: bool,
    /// Whether it is streaming matched blocks.
    pub scanning: bool,
}

impl PeerRecord {
    /// The record of a peer that was just negotiated with.
    pub open spec fn fresh(peer: PeerId) -> PeerRecord {
        PeerRecord { peer, armed: false, scanning: false }
    }

    /// The record after the filter was sent to the peers in `peers`.
    pub open spec fn armed_for(self, peers: Seq<PeerId>) -> PeerRecord {
        if peers.contains(self.peer) {
            PeerRecord { peer: self.peer, armed: true, scanning: false }
        } else {
            self
        }
    }

    /// The record after `peer` started or stopped scanning: only an armed
    /// record of that peer changes.
    pub open spec fn scan_marked(self, peer: PeerId, active: bool) -> PeerRecord {
        if self.peer == peer && self.armed {
            PeerRecord { peer: self.peer, armed: true, scanning: active }
        } else {
            self
        }
    }

    /// The record without what it says of the filter.
    pub open spec fn disarmed(self) -> PeerRecord {
        PeerRecord::fresh(self.peer)
    }
}

/// The records are valid when no peer has two of them and only armed peers
/// scan.
pub open spec fn records_wf(records: Seq<PeerRecord>) -> bool {
    &&& forall|i: int, j: int|
        0 <= i < records.len() && 0 <= j < records.len() && i != j ==> records[i].peer
            != records[j].peer
    &&& forall|i: int| 0 <= i < records.len() && records[i].scanning ==> records[i].armed
}

/// Whether the peer is known.
pub open spec fn is_known(records: Seq<PeerRecord>, peer: PeerId) -> bool {
    exists|i: int| 0 <= i < records.len() && records[i].peer == peer
}

/// Whether the peer is known and has the current filter.
pub open spec fn is_armed(records: Seq<PeerRecord>, peer: PeerId) -> bool {
    exists|i: int| 0 <= i < records.len() && records[i].peer == peer && records[i].armed
}

/// Whether the peer is known and scanning.
pub open spec fn is_scanning(records: Seq<PeerRecord>, peer: PeerId) -> bool {
    exists|i: int| 0 <= i < records.len() && records[i].peer == peer && records[i].scanning
}

/// Whether any peer is scanning.
pub open spec fn any_scanning(records: Seq<PeerRecord>) -> bool {
    exists|i: int| 0 <= i < records.len() && records[i].scanning
}

/// The known peers, in the order in which they came.
pub open spec fn known_peers(records: Seq<PeerRecord>) -> Seq<PeerId> {
    records.map_values(|r: PeerRecord| r.peer)
}

/// The known peers that do not have the current filter, in the order in which
/// they came.
pub open spec fn unarmed_peers(records: Seq<PeerRecord>) -> Seq<PeerId> {
    records.filter(|r: PeerRecord| !r.armed).map_values(|r: PeerRecord| r.peer)
}

/// The peers that have the current filter, in the order in which they came.
pub open spec fn armed_peers(records: Seq<PeerRecord>) -> Seq<PeerId> {
    records.filter(|r: PeerRecord| r.armed).map_values(|r: PeerRecord| r.peer)
}

/// The records after `peer` was negotiated with: a new record at the end,
/// unless the peer is known.
pub open spec fn registered(records: Seq<PeerRecord>, peer: PeerId) -> Seq<PeerRecord> {
    if is_known(records, peer) {
        records
    } else {
        records.push(PeerRecord::fresh(peer))
    }
}

/// The records after `peer` disconnected: its record is gone.
pub open spec fn deregistered(records: Seq<PeerRecord>, peer: PeerId) -> Seq<PeerRecord> {
    records.filter(|r: PeerRecord| r.peer != peer)
}

/// The records after the filter was sent to `peers`: the known ones among
/// them are armed, and none of those is scanning.
pub open spec fn armed(records: Seq<PeerRecord>, peers: Seq<PeerId>) -> Seq<PeerRecord> {
    records.map_values(|r: PeerRecord| r.armed_for(peers))
}

/// The records after `peer` started or stopped scanning.
pub open spec fn scan_marked(records: Seq<PeerRecord>, peer: PeerId, active: bool) -> Seq<
    PeerRecord,
> {
    records.map_values(|r: PeerRecord| r.scan_marked(peer, active))
}

/// The records after the filter was reset: the same peers, none armed, none
/// scanning.
pub open spec fn cleared(records: Seq<PeerRecord>) -> Seq<PeerRecord> {
    records.map_values(|r: PeerRecord| r.disarmed())
}

/// What is reported when a change of the records changes whether any peer is
/// scanning: the new answer on such an edge, nothing otherwise.
pub open spec fn scanning_edge(before: Seq<PeerRecord>, after: Seq<PeerRecord>) -> Option<bool> {
    if any_scanning(before) != any_scanning(after) {
        Some(any_scanning(after))
    } else {
        None
    }
}

/// Keeping some of the records keeps them valid, and keeps nothing that was
/// not there.
pub proof fn lemma_filter_keeps_wf(records: Seq<PeerRecord>, keep: spec_fn(PeerRecord) -> bool)
    requires
        records_wf(records),
    ensures
        records_wf(records.filter(keep)),
        forall|r: PeerRecord| #[trigger] records.filter(keep).contains(r) ==> records.contains(r) && keep(r),
    decreases records.len(),
{
    let kept = records.filter(keep);
    assert forall|r: PeerRecord| #[trigger] kept.contains(r) implies records.contains(r) && keep(
        r,
    ) by {
        records.lemma_filter_contains_rev(keep, r);
        let i = choose|i: int| 0 <= i < kept.len() && kept[i] == r;
        records.lemma_filter_pred(keep, i);
    }
    if records.len() > 0 {
        let rest = records.drop_last();
        let last = records.last();
        lemma_filter_keeps_wf(rest, keep);
        assert(rest.push(last) =~= records);
        rest.lemma_filter_push(last, keep);
        if keep(last) {
            assert forall|i: int, j: int|
                0 <= i < kept.len() && 0 <= j < kept.len() && i != j implies kept[i].peer
                != kept[j].peer by {
                if i < kept.len() - 1 {
                    assert(rest.filter(keep).contains(kept[i]));
                    assert(rest.contains(kept[i]));
                }
                if j < kept.len() - 1 {
                    assert(rest.filter(keep).contains(kept[j]));
                    assert(rest.contains(kept[j]));
                }
            }
        }
    }
}

/// Keeping the records that all pass keeps every record; keeping those that
/// none passes keeps none.
proof fn lemma_filter_all_or_none(records: Seq<PeerRecord>, keep: spec_fn(PeerRecord) -> bool)
    ensures
        (forall|i: int| 0 <= i < records.len() ==> keep(#[trigger] records[i])) ==> records.filter(
            keep,
        ) == records,
        (forall|i: int| 0 <= i < records.len() ==> !keep(#[trigger] records[i]))
            ==> records.filter(keep) == Seq::<PeerRecord>::empty(),
    decreases records.len(),
{
    reveal(Seq::filter);
    if records.len() > 0 {
        let rest = records.drop_last();
        lemma_filter_all_or_none(rest, keep);
        assert(rest.push(records.last()) =~= records);
        if forall|i: int| 0 <= i < records.len() ==> keep(#[trigger] records[i]) {
            assert forall|i: int| 0 <= i < rest.len() implies keep(#[trigger] rest[i]) by {
                assert(rest[i] == records[i]);
            }
            assert(keep(records[records.len() - 1]));
        }
        if forall|i: int| 0 <= i < records.len() ==> !keep(#[trigger] records[i]) {
            assert forall|i: int| 0 <= i < rest.len() implies !keep(#[trigger] rest[i]) by {
                assert(rest[i] == records[i]);
            }
            assert(!keep(records[records.len() - 1]));
        }
    } else {
        assert(records =~= Seq::<PeerRecord>::empty());
    }
}

/// A peer that disconnected is neither known nor armed nor scanning, whatever
/// it was before.
pub proof fn lemma_deregistered_is_forgotten(records: Seq<PeerRecord>, peer: PeerId)
    ensures
        !is_known(deregistered(records, peer), peer),
        !is_armed(deregistered(records, peer), peer),
        !is_scanning(deregistered(records, peer), peer),
{
    let keep = |r: PeerRecord| r.peer != peer;
    let after = deregistered(records, peer);
    assert forall|i: int| 0 <= i < after.len() implies after[i].peer != peer by {
        records.lemma_filter_pred(keep, i);
    }
}

/// A peer that was negotiated with and then disconnected is absent from the
/// known peers and from the armed ones, and the other records are as if it
/// had never come.
pub proof fn lemma_negotiated_then_disconnected(records: Seq<PeerRecord>, peer: PeerId)
    ensures
        !is_known(deregistered(registered(records, peer), peer), peer),
        !is_armed(deregistered(registered(records, peer), peer), peer),
        !known_peers(deregistered(registered(records, peer), peer)).contains(peer),
        !armed_peers(deregistered(registered(records, peer), peer)).contains(peer),
        deregistered(registered(records, peer), peer) == deregistered(records, peer),
{
    let keep = |r: PeerRecord| r.peer != peer;
    let after = deregistered(registered(records, peer), peer);
    lemma_deregistered_is_forgotten(registered(records, peer), peer);
    if !is_known(records, peer) {
        records.lemma_filter_push(PeerRecord::fresh(peer), keep);
    }
    if known_peers(after).contains(peer) {
        let i = choose|i: int| 0 <= i < known_peers(after).len() && known_peers(after)[i] == peer;
        assert(after[i].peer == peer);
    }
    if armed_peers(after).contains(peer) {
        let have = after.filter(|r: PeerRecord| r.armed);
        let i = choose|i: int| 0 <= i < armed_peers(after).len() && armed_peers(after)[i] == peer;
        assert(have[i].peer == peer);
        assert(have.contains(have[i]));
        after.lemma_filter_contains_rev(|r: PeerRecord| r.armed, have[i]);
        let j = choose|j: int| 0 <= j < after.len() && after[j] == have[i];
        assert(after[j].peer == peer);
    }
}

/// Registering a known peer changes nothing: a second negotiation is not a
/// second record.
pub proof fn lemma_register_is_idempotent(records: Seq<PeerRecord>, peer: PeerId)
    ensures
        registered(registered(records, peer), peer) == registered(records, peer),
        is_known(registered(records, peer), peer),
{
    if !is_known(records, peer) {
        let once = records.push(PeerRecord::fresh(peer));
        assert(once[records.len() as int].peer == peer);
    }
}

/// After the filter state was cleared every known peer is without the filter,
/// none is armed or scanning, and the peers are the same.
pub proof fn lemma_cleared_disarms_all(records: Seq<PeerRecord>)
    requires
        records_wf(records),
    ensures
        records_wf(cleared(records)),
        known_peers(cleared(records)) == known_peers(records),
        unarmed_peers(cleared(records)) == known_peers(records),
        armed_peers(cleared(records)) == Seq::<PeerId>::empty(),
        !any_scanning(cleared(records)),
{
    let after = cleared(records);
    lemma_filter_all_or_none(after, |r: PeerRecord| !r.armed);
    lemma_filter_all_or_none(after, |r: PeerRecord| r.armed);
    assert(known_peers(after) =~= known_peers(records));
    assert(armed_peers(after) =~= Seq::<PeerId>::empty());
}

/// After the filter was sent to the peers that lacked it, every known peer is
/// armed and none lacks it.
pub proof fn lemma_armed_leaves_none_unarmed(records: Seq<PeerRecord>)
    requires
        records_wf(records),
    ensures
        records_wf(armed(records, unarmed_peers(records))),
        known_peers(armed(records, unarmed_peers(records))) == known_peers(records),
        unarmed_peers(armed(records, unarmed_peers(records))) == Seq::<PeerId>::empty(),
{
    let lacking = |r: PeerRecord| !r.armed;
    let targets = unarmed_peers(records);
    let after = armed(records, targets);
    assert forall|i: int| 0 <= i < after.len() implies !lacking(#[trigger] after[i]) by {
        if !records[i].armed {
            records.lemma_filter_contains(lacking, i);
            let j = choose|j: int|
                0 <= j < records.filter(lacking).len() && records.filter(lacking)[j] == records[i];
            assert(targets[j] == records[i].peer);
        }
    }
    lemma_filter_all_or_none(after, lacking);
    assert(known_peers(after) =~= known_peers(records));
    assert(unarmed_peers(after) =~= Seq::<PeerId>::empty());
}

/// Every change of the records keeps them valid.
pub proof fn lemma_changes_keep_wf(
    records: Seq<PeerRecord>,
    peer: PeerId,
    peers: Seq<PeerId>,
    active: bool,
)
    requires
        records_wf(records),
    ensures
        records_wf(registered(records, peer)),
        records_wf(deregistered(records, peer)),
        records_wf(armed(records, peers)),
        records_wf(scan_marked(records, peer, active)),
        records_wf(cleared(records)),
{
    lemma_filter_keeps_wf(records, |r: PeerRecord| r.peer != peer);
}

/// The peers that the library keeps track of.
pub struct PeerScanTracker {
    records: Vec<PeerRecord>,
}

impl View for PeerScanTracker {
    type V = Seq<PeerRecord>;

    closed spec fn view(&self) -> Seq<PeerRecord> {
        self.records@
    }
}

/// Whether `peer` is among `peers`.
pub fn contains_peer(peers: &[PeerId], peer: PeerId) -> (r: bool)
    ensures
        r == peers@.contains(peer),
{
    let mut i: usize = 0;
    while i < peers.len()
        invariant
            i <= peers@.len(),
            forall|j: int| 0 <= j < i ==> peers@[j] != peer,
        decreases peers@.len() - i,
    {
        if peers[i] == peer {
            return true;
        }
        i += 1;
    }
    false
}

impl PeerScanTracker {
    /// The validity of a tracker, stated of its view.
    pub open spec fn wf(&self) -> bool {
        records_wf(self@)
    }

    /// A tracker that knows no peer.
    pub fn new() -> (t: PeerScanTracker)
        ensures
            t.wf(),
            t@ == Seq::<PeerRecord>::empty(),
    {
        PeerScanTracker { records: Vec::new() }
    }

    /// The record of each known peer, in the order in which they came.
    pub fn records(&self) -> (r: &[PeerRecord])
        ensures
            r@ == self@,
    {
        self.records.as_slice()
    }

    /// Whether the peer is known.
    pub fn is_known(&self, peer: PeerId) -> (r: bool)
        ensures
            r == is_known(self@, peer),
    {
        let mut i: usize = 0;
        while i < self.records.len()
            invariant
                i <= self.records@.len(),
                forall|j: int| 0 <= j < i ==> self.records@[j].peer != peer,
            decreases self.records@.len() - i,
        {
            if self.records[i].peer == peer {
                return true;
            }
            i += 1;
        }
        false
    }

    /// Whether the peer is known and has the current filter.
    pub fn is_armed(&self, peer: PeerId) -> (r: bool)
        ensures
            r == is_armed(self@, peer),
    {
        let mut i: usize = 0;
        while i < self.records.len()
            invariant
                i <= self.records@.len(),
                forall|j: int| 0 <= j < i ==> !(self.records@[j].peer == peer && self.records@[j].armed),
            decreases self.records@.len() - i,
        {
            if self.records[i].peer == peer && self.records[i].armed {
                return true;
            }
            i += 1;
        }
        false
    }

    /// Whether any peer is scanning.
    pub fn any_scanning(&self) -> (r: bool)
        ensures
            r == any_scanning(self@),
    {
        let mut i: usize = 0;
        while i < self.records.len()
            invariant
                i <= self.records@.len(),
                forall|j: int| 0 <= j < i ==> !self.records@[j].scanning,
            decreases self.records@.len() - i,
        {
            if self.records[i].scanning {
                return true;
            }
            i += 1;
        }
        false
    }

    /// The known peers, in the order in which they came.
    pub fn known_peers(&self) -> (peers: Vec<PeerId>)
        ensures
            peers@ == known_peers(self@),
    {
        let mut peers: Vec<PeerId> = Vec::new();
        let mut i: usize = 0;
        while i < self.records.len()
            invariant
                i <= self.records@.len(),
                peers@.len() == i,
                forall|j: int| 0 <= j < i ==> peers@[j] == self.records@[j].peer,
            decreases self.records@.len() - i,
        {
            peers.push(self.records[i].peer);
            i += 1;
        }
        assert(peers@ =~= known_peers(self@));
        peers
    }

    /// The peers whose armed flag is `armed`, in the order in which they came.
    fn peers_by_armed(&self, armed: bool) -> (peers: Vec<PeerId>)
        ensures
            peers@ == self@.filter(|r: PeerRecord| r.armed == armed).map_values(
                |r: PeerRecord| r.peer,
            ),
    {
        let ghost keep = |r: PeerRecord| r.armed == armed;
        let ghost peer_of = |r: PeerRecord| r.peer;
        let mut peers: Vec<PeerId> = Vec::new();
        let mut i: usize = 0;
        assert(self.records@.take(0) =~= Seq::<PeerRecord>::empty());
        proof {
            reveal(Seq::filter);
        }
        assert(self.records@.take(0).filter(keep) =~= Seq::<PeerRecord>::empty());
        while i < self.records.len()
            invariant
                i <= self.records@.len(),
                keep == |r: PeerRecord| r.armed == armed,
                peer_of == |r: PeerRecord| r.peer,
                peers@ =~= self.records@.take(i as int).filter(keep).map_values(peer_of),
            decreases self.records@.len() - i,
        {
            let r = self.records[i];
            proof {
                let before = self.records@.take(i as int);
                assert(before.push(r) =~= self.records@.take(i + 1));
                before.lemma_filter_push(r, keep);
            }
            if r.armed == armed {
                peers.push(r.peer);
            }
            i += 1;
        }
        assert(self.records@.take(i as int) =~= self.records@);
        peers
    }

    /// The known peers that do not have the current filter, in the order in
    /// which they came.
    pub fn unarmed_peers(&self) -> (peers: Vec<PeerId>)
        ensures
            peers@ == unarmed_peers(self@),
    {
        let peers = self.peers_by_armed(false);
        assert((|r: PeerRecord| r.armed == false) =~= (|r: PeerRecord| !r.armed));
        peers
    }

    /// The peers that have the current filter, in the order in which they came.
    pub fn armed_peers(&self) -> (peers: Vec<PeerId>)
        ensures
            peers@ == armed_peers(self@),
    {
        let peers = self.peers_by_armed(true);
        assert((|r: PeerRecord| r.armed == true) =~= (|r: PeerRecord| r.armed));
        peers
    }

    /// Adds the peer to the known ones, unless it is there.
    pub fn register(&mut self, peer: PeerId)
        requires
            old(self).wf(),
        ensures
            final(self).wf(),
            final(self)@ == registered(old(self)@, peer),
    {
        if !self.is_known(peer) {
            self.records.push(PeerRecord { peer, armed: false, scanning: false });
        }
    }

    /// Forgets the peer: it is neither known nor armed afterwards. A peer that
    /// is not known changes nothing.
    pub fn deregister(&mut self, peer: PeerId)
        requires
            old(self).wf(),
        ensures
            final(self).wf(),
            final(self)@ == deregistered(old(self)@, peer),
    {
        let ghost keep = |r: PeerRecord| r.peer != peer;
        let mut kept: Vec<PeerRecord> = Vec::new();
        let mut i: usize = 0;
        proof {
            reveal(Seq::filter);
        }
        assert(self.records@.take(0).filter(keep) =~= Seq::<PeerRecord>::empty());
        while i < self.records.len()
            invariant
                i <= self.records@.len(),
                keep == |r: PeerRecord| r.peer != peer,
                kept@ =~= self.records@.take(i as int).filter(keep),
            decreases self.records@.len() - i,
        {
            let r = self.records[i];
            proof {
                let before = self.records@.take(i as int);
                assert(before.push(r) =~= self.records@.take(i + 1));
                before.lemma_filter_push(r, keep);
            }
            if r.peer != peer {
                kept.push(r);
            }
            i += 1;
        }
        proof {
            assert(self.records@.take(i as int) =~= self.records@);
            lemma_filter_keeps_wf(self.records@, keep);
        }
        self.records = kept;
    }

    /// Marks the known peers among `peers` as having the current filter, and as
    /// not scanning.
    pub fn arm(&mut self, peers: &[PeerId])
        requires
            old(self).wf(),
        ensures
            final(self).wf(),
            final(self)@ == armed(old(self)@, peers@),
    {
        let ghost before = self.records@;
        let mut i: usize = 0;
        while i < self.records.len()
            invariant
                i <= self.records@.len(),
                self.records@.len() == before.len(),
                forall|j: int| 0 <= j < i ==> self.records@[j] == before[j].armed_for(peers@),
                forall|j: int| i <= j < before.len() ==> self.records@[j] == before[j],
            decreases self.records@.len() - i,
        {
            let r = self.records[i];
            if contains_peer(peers, r.peer) {
                self.records.set(i, PeerRecord { peer: r.peer, armed: true, scanning: false });
            }
            i += 1;
        }
        assert(self.records@ =~= armed(before, peers@));
    }

    /// Sets whether the peer is scanning, if the peer is armed; a peer that is
    /// not tracked changes nothing. Returns whether any peer is scanning when
    /// that has changed, and nothing when it has not.
    pub fn mark_scanning(&mut self, peer: PeerId, active: bool) -> (edge: Option<bool>)
        requires
            old(self).wf(),
        ensures
            final(self).wf(),
            final(self)@ == scan_marked(old(self)@, peer, active),
            edge == scanning_edge(old(self)@, final(self)@),
    {
        let ghost before = self.records@;
        let was_scanning = self.any_scanning();
        let mut i: usize = 0;
        while i < self.records.len()
            invariant
                i <= self.records@.len(),
                self.records@.len() == before.len(),
                forall|j: int|
                    0 <= j < i ==> self.records@[j] == before[j].scan_marked(peer, active),
                forall|j: int| i <= j < before.len() ==> self.records@[j] == before[j],
            decreases self.records@.len() - i,
        {
            let r = self.records[i];
            if r.peer == peer && r.armed {
                self.records.set(i, PeerRecord { peer: r.peer, armed: true, scanning: active });
            }
            i += 1;
        }
        assert(self.records@ =~= scan_marked(before, peer, active));
        let is_scanning = self.any_scanning();
        if was_scanning != is_scanning {
            Some(is_scanning)
        } else {
            None
        }
    }

    /// Forgets which peers have the filter and which are scanning; the peers
    /// stay known.
    pub fn clear(&mut self)
        requires
            old(self).wf(),
        ensures
            final(self).wf(),
            final(self)@ == cleared(old(self)@),
    {
        let ghost before = self.records@;
        let mut i: usize = 0;
        while i < self.records.len()
            invariant
                i <= self.records@.len(),
                self.records@.len() == before.len(),
                forall|j: int| 0 <= j < i ==> self.records@[j] == before[j].disarmed(),
                forall|j: int| i <= j < before.len() ==> self.records@[j] == before[j],
            decreases self.records@.len() - i,
        {
            let r = self.records[i];
            self.records.set(i, PeerRecord { peer: r.peer, armed: false, scanning: false });
            i += 1;
        }
        assert(self.records@ =~= cleared(before));
    }
}

} // verus!
