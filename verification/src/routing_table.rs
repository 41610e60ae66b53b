//! The in-memory peer registry: entries keyed by peer id, queried in order of
//! XOR distance.
use vstd::prelude::*;

use crate::peer::{dist_le, dist_lt, lemma_dist_le_trans, PeerID};

verus! {

/// One known peer.
#[derive(Debug, Clone, PartialEq, Eq)]
pub struct PeerEntry {
    pub peer_id: PeerID,
    pub addr: Vec<u8>,
    pub port: u16,
    pub discovery_port: u16,
    pub last_seen: u64,
}

/// Mathematical image of a `PeerEntry`.
pub ghost struct PeerEntryView {
    pub peer_id: Seq<u8>,
    pub addr: Seq<u8>,
    pub port: u16,
    pub discovery_port: u16,
    pub last_seen: u64,
}

impl View for PeerEntry {
    type V = PeerEntryView;

    open spec fn view(&self) -> PeerEntryView {
        PeerEntryView {
            peer_id: self.peer_id@,
            addr: self.addr@,
            port: self.port,
            discovery_port: self.discovery_port,
            last_seen: self.last_seen,
        }
    }
}

/// An entry is well formed when its id is 32 bytes and its address is of
/// sensible length (so that any reply carrying it fits its frame).
pub open spec fn wf_entry(e: PeerEntryView) -> bool {
    e.peer_id.len() == 32 && e.addr.len() <= 0xffff
}

/// What became of an entry handed to `add_entry`.
#[derive(Debug, Clone, Copy, PartialEq, Eq)]
pub enum AddResult {
    Added,
    Updated,
    Rejected(&'static str),
}

/// The entry carrying the id of `e` was replaced by `e` in place.
pub open spec fn spec_updated(before: Seq<PeerEntry>, after: Seq<PeerEntry>, e: PeerEntry) -> bool {
    exists|i: int|
        0 <= i < before.len() && (#[trigger] before[i]@).peer_id == e@.peer_id && after
            == before.update(i, e)
}

/// Every entry of `s` lies no farther from `key` than `s[j]` does.
pub open spec fn spec_farthest_at(key: Seq<u8>, s: Seq<PeerEntry>, j: int) -> bool {
    forall|k: int|
        0 <= k < s.len() ==> dist_le(key, (#[trigger] s[k]@).peer_id, s[j]@.peer_id)
}

/// `e` displaced a farthest entry that it is strictly closer to `key` than.
pub open spec fn spec_displaced(
    key: Seq<u8>,
    before: Seq<PeerEntry>,
    after: Seq<PeerEntry>,
    e: PeerEntry,
) -> bool {
    exists|j: int|
        0 <= j < before.len() && #[trigger] spec_farthest_at(key, before, j) && dist_lt(
            key,
            e@.peer_id,
            before[j]@.peer_id,
        ) && after == before.update(j, e)
}

/// `e` lies no closer to `key` than some farthest entry of `s`.
pub open spec fn spec_no_closer(key: Seq<u8>, s: Seq<PeerEntry>, e: PeerEntry) -> bool {
    exists|j: int|
        0 <= j < s.len() && #[trigger] spec_farthest_at(key, s, j) && !dist_lt(
            key,
            e@.peer_id,
            s[j]@.peer_id,
        )
}

/// Everything `add_entry` promises, as a relation between the table before
/// and after the call, the entry handed in, and the verdict.
pub open spec fn spec_add_post(
    before: RoutingTable,
    after: RoutingTable,
    entry: PeerEntry,
    r: AddResult,
) -> bool {
    &&& after.wf()
    &&& after.self_id == before.self_id
    &&& after.capacity == before.capacity
    &&& (entry@.peer_id == before.self_id@ ==> (r matches AddResult::Rejected(_))
        && after.entries@ == before.entries@)
    &&& (entry@.peer_id != before.self_id@ && before.contains_id(entry@.peer_id) ==> r
        == AddResult::Updated && spec_updated(before.entries@, after.entries@, entry))
    &&& (entry@.peer_id != before.self_id@ && !before.contains_id(entry@.peer_id)
        && before.entries@.len() < before.capacity ==> r == AddResult::Added && after.entries@
        == before.entries@.push(entry))
    &&& (entry@.peer_id != before.self_id@ && !before.contains_id(entry@.peer_id)
        && before.entries@.len() == before.capacity ==> {
        ||| (r == AddResult::Added && spec_displaced(
            before.self_id@,
            before.entries@,
            after.entries@,
            entry,
        ))
        ||| ((r matches AddResult::Rejected(_)) && after.entries@ == before.entries@
            && spec_no_closer(before.self_id@, before.entries@, entry))
    })
}

/// Some entry of `s` has exactly this image.
pub open spec fn entry_view_in(s: Seq<PeerEntry>, ev: PeerEntryView) -> bool {
    exists|k: int| 0 <= k < s.len() && #[trigger] s[k]@ == ev
}

/// Peer registry with a fixed capacity, owned by one node.
pub struct RoutingTable {
    pub self_id: PeerID,
    pub capacity: usize,
    pub entries: Vec<PeerEntry>,
}

impl RoutingTable {
    /// Invariants: every entry has a well-formed id, the node's own id is
    /// never present, no id appears twice, and the table never outgrows its
    /// capacity.
    pub open spec fn wf(&self) -> bool {
        &&& self.self_id.wf()
        &&& self.capacity >= 1
        &&& self.entries@.len() <= self.capacity
        &&& forall|i: int| 0 <= i < self.entries@.len() ==> wf_entry(#[trigger] self.entries@[i]@)
        &&& forall|i: int|
            0 <= i < self.entries@.len() ==> (#[trigger] self.entries@[i]@).peer_id
                != self.self_id@
        &&& forall|i: int, j: int|
            0 <= i < self.entries@.len() && 0 <= j < self.entries@.len() && i != j ==> (
            #[trigger] self.entries@[i]@).peer_id != (#[trigger] self.entries@[j]@).peer_id
    }

    /// Whether some entry carries the given id.
    pub open spec fn contains_id(&self, id: Seq<u8>) -> bool {
        exists|i: int| 0 <= i < self.entries@.len() && (#[trigger] self.entries@[i]@).peer_id == id
    }

    /// Builds an empty table for the given node.
    pub fn new(self_id: PeerID, capacity: usize) -> (r: RoutingTable)
        requires
            self_id.wf(),
            capacity >= 1,
        ensures
            r.wf(),
            r.self_id == self_id,
            r.capacity == capacity,
            r.entries@.len() == 0,
    {
        RoutingTable { self_id, capacity, entries: Vec::new() }
    }

    /// Whether the table knows the peer with this id.
    pub fn contains_key(&self, key: &PeerID) -> (r: bool)
        requires
            self.wf(),
            key.wf(),
        ensures
            r == self.contains_id(key@),
    {
        let n = self.entries.len();
        let mut i: usize = 0;
        while i < n
            invariant
                self.wf(),
                key.wf(),
                n == self.entries@.len(),
                0 <= i <= n,
                forall|j: int| 0 <= j < i ==> (#[trigger] self.entries@[j]@).peer_id != key@,
            decreases n - i,
        {
            assert(wf_entry(self.entries@[i as int]@));
            if self.entries[i].peer_id.eq_id(key) {
                assert((self.entries@[i as int]@).peer_id == key@);
                return true;
            }
            i += 1;
        }
        false
    }

    /// Adds, refreshes, or rejects one peer.
    ///
    /// The node's own id is never admitted; a known id has its entry
    /// replaced in place; with room to spare the entry is appended; at
    /// capacity it displaces a farthest entry when strictly closer to the
    /// node, and is rejected otherwise.
    pub fn add_entry(&mut self, entry: PeerEntry) -> (r: AddResult)
        requires
            old(self).wf(),
            wf_entry(entry@),
        ensures
            final(self).wf(),
            spec_add_post(*old(self), *final(self), entry, r),
    {
        if entry.peer_id.eq_id(&self.self_id) {
            return AddResult::Rejected("entry carries the self peer id");
        }
        let n = self.entries.len();
        let mut i: usize = 0;
        while i < n
            invariant
                self.wf(),
                wf_entry(entry@),
                self.self_id == old(self).self_id,
                self.capacity == old(self).capacity,
                self.entries@ == old(self).entries@,
                entry@.peer_id != self.self_id@,
                n == self.entries@.len(),
                0 <= i <= n,
                forall|j: int| 0 <= j < i ==> (#[trigger] self.entries@[j]@).peer_id
                    != entry@.peer_id,
            decreases n - i,
        {
            assert(wf_entry(self.entries@[i as int]@));
            if self.entries[i].peer_id.eq_id(&entry.peer_id) {
                let ghost before = self.entries@;
                self.entries.set(i, entry);
                proof {
                    assert(self.entries@ == before.update(i as int, entry));
                    assert forall|a: int| 0 <= a < self.entries@.len() implies (
                    #[trigger] self.entries@[a]@) == (if a == i as int {
                        entry@
                    } else {
                        before[a]@
                    }) by {}
                    assert((before[i as int]@).peer_id == entry@.peer_id);
                    assert(spec_updated(before, self.entries@, entry));
                }
                return AddResult::Updated;
            }
            i += 1;
        }
        assert(!self.contains_id(entry@.peer_id));
        let ghost before = self.entries@;
        if self.entries.len() < self.capacity {
            self.entries.push(entry);
            proof {
                assert forall|a: int| 0 <= a < self.entries@.len() implies (
                #[trigger] self.entries@[a]@) == (if a == before.len() as int {
                    entry@
                } else {
                    before[a]@
                }) by {}
            }
            return AddResult::Added;
        }
        // At capacity: find a farthest entry from the node itself.
        let jm = self.farthest_index();
        assert(wf_entry(self.entries@[jm as int]@));
        if crate::peer::xor_dist_lt(&self.self_id, &entry.peer_id, &self.entries[jm].peer_id) {
            self.entries.set(jm, entry);
            proof {
                assert(self.entries@ == before.update(jm as int, entry));
                assert forall|a: int| 0 <= a < self.entries@.len() implies (
                #[trigger] self.entries@[a]@) == (if a == jm as int {
                    entry@
                } else {
                    before[a]@
                }) by {}
                assert(spec_farthest_at(old(self).self_id@, before, jm as int));
                assert(spec_displaced(old(self).self_id@, before, self.entries@, entry));
            }
            return AddResult::Added;
        }
        proof {
            assert(spec_farthest_at(old(self).self_id@, before, jm as int));
            assert(spec_no_closer(old(self).self_id@, before, entry));
        }
        AddResult::Rejected("table is full and the entry is no closer than its farthest peer")
    }

    /// Up to `n` known peers, nearest to `target` first.
    pub fn closest_entries(&self, target: &PeerID, n: usize) -> (r: Vec<PeerEntry>)
        requires
            self.wf(),
            target.wf(),
        ensures
            r@.len() == if n <= self.entries@.len() {
                n as int
            } else {
                self.entries@.len() as int
            },
            forall|i: int, j: int|
                0 <= i < j < r@.len() ==> dist_le(
                    target@,
                    (#[trigger] r@[i]@).peer_id,
                    (#[trigger] r@[j]@).peer_id,
                ),
            forall|i: int|
                0 <= i < r@.len() ==> entry_view_in(self.entries@, #[trigger] r@[i]@),
            forall|i: int|
                0 <= i < r@.len() ==> wf_entry(#[trigger] r@[i]@) && r@[i]@.peer_id
                    != self.self_id@,
            forall|i: int, k: int|
                0 <= i < r@.len() && 0 <= k < self.entries@.len() && !entry_view_in(
                    r@,
                    self.entries@[k]@,
                ) ==> dist_le(
                    target@,
                    (#[trigger] r@[i]@).peer_id,
                    (#[trigger] self.entries@[k]@).peer_id,
                ),
            forall|i: int, j: int|
                0 <= i < r@.len() && 0 <= j < r@.len() && i != j ==> (#[trigger] r@[i]@).peer_id
                    != (#[trigger] r@[j]@).peer_id,
    {
        let total = self.entries.len();
        let mut working: Vec<PeerEntry> = Vec::new();
        let mut t: usize = 0;
        while t < total
            invariant
                self.wf(),
                total == self.entries@.len(),
                0 <= t <= total,
                working@.len() == t,
                forall|a: int| 0 <= a < t ==> (#[trigger] working@[a]@) == self.entries@[a]@,
            decreases total - t,
        {
            assert(wf_entry(self.entries@[t as int]@));
            working.push(clone_entry(&self.entries[t]));
            t += 1;
        }
        proof {
            assert forall|a: int| 0 <= a < working@.len() implies entry_view_in(
                self.entries@,
                #[trigger] working@[a]@,
            ) by {
                assert(self.entries@[a]@ == working@[a]@);
            }
            assert forall|a: int|
                0 <= a < working@.len() implies wf_entry(#[trigger] working@[a]@)
                && working@[a]@.peer_id != self.self_id@ by {
                assert(working@[a]@ == self.entries@[a]@);
                assert(wf_entry(self.entries@[a]@));
            }
            assert forall|k: int|
                0 <= k < self.entries@.len() implies entry_view_in(
                Seq::<PeerEntry>::empty(),
                #[trigger] self.entries@[k]@,
            ) || entry_view_in(working@, self.entries@[k]@) by {
                assert(working@[k]@ == self.entries@[k]@);
            }
            assert forall|a: int, b: int|
                0 <= a < working@.len() && 0 <= b < working@.len() && a != b implies (
            #[trigger] working@[a]@).peer_id != (#[trigger] working@[b]@).peer_id by {
                assert(working@[a]@ == self.entries@[a]@);
                assert(working@[b]@ == self.entries@[b]@);
            }
        }
        let mut result: Vec<PeerEntry> = Vec::new();
        while result.len() < n && working.len() > 0
            invariant
                self.wf(),
                target.wf(),
                result@.len() <= n,
                result@.len() + working@.len() == self.entries@.len(),
                forall|a: int|
                    0 <= a < working@.len() ==> entry_view_in(
                        self.entries@,
                        #[trigger] working@[a]@,
                    ),
                forall|a: int|
                    0 <= a < result@.len() ==> entry_view_in(
                        self.entries@,
                        #[trigger] result@[a]@,
                    ),
                forall|a: int|
                    0 <= a < working@.len() ==> wf_entry(#[trigger] working@[a]@)
                        && working@[a]@.peer_id != self.self_id@,
                forall|a: int|
                    0 <= a < result@.len() ==> wf_entry(#[trigger] result@[a]@)
                        && result@[a]@.peer_id != self.self_id@,
                forall|i: int, j: int|
                    0 <= i < j < result@.len() ==> dist_le(
                        target@,
                        (#[trigger] result@[i]@).peer_id,
                        (#[trigger] result@[j]@).peer_id,
                    ),
                forall|a: int, b: int|
                    0 <= a < result@.len() && 0 <= b < working@.len() ==> dist_le(
                        target@,
                        (#[trigger] result@[a]@).peer_id,
                        (#[trigger] working@[b]@).peer_id,
                    ),
                forall|k: int|
                    0 <= k < self.entries@.len() ==> entry_view_in(
                        result@,
                        #[trigger] self.entries@[k]@,
                    ) || entry_view_in(working@, self.entries@[k]@),
                forall|a: int, b: int|
                    0 <= a < working@.len() && 0 <= b < working@.len() && a != b ==> (
                    #[trigger] working@[a]@).peer_id != (#[trigger] working@[b]@).peer_id,
                forall|a: int, b: int|
                    0 <= a < result@.len() && 0 <= b < result@.len() && a != b ==> (
                    #[trigger] result@[a]@).peer_id != (#[trigger] result@[b]@).peer_id,
                forall|a: int, b: int|
                    0 <= a < result@.len() && 0 <= b < working@.len() ==> (
                    #[trigger] result@[a]@).peer_id != (#[trigger] working@[b]@).peer_id,
            decreases working@.len(),
        {
            let ghost wbefore = working@;
            let ghost rbefore = result@;
            let m = nearest_index(&working, target);
            let e = working.remove(m);
            proof {
                assert(e@ == wbefore[m as int]@);
                assert forall|b: int| 0 <= b < working@.len() implies (
                #[trigger] working@[b]@) == (if b < m as int {
                    wbefore[b]@
                } else {
                    wbefore[b + 1]@
                }) by {
                    assert(working@ == wbefore.remove(m as int));
                }
            }
            result.push(e);
            proof {
                assert forall|k: int|
                    0 <= k < self.entries@.len() implies entry_view_in(
                    result@,
                    #[trigger] self.entries@[k]@,
                ) || entry_view_in(working@, self.entries@[k]@) by {
                    let ev = self.entries@[k]@;
                    if entry_view_in(rbefore, ev) {
                        let a = choose|a: int|
                            0 <= a < rbefore.len() && #[trigger] rbefore[a]@ == ev;
                        assert(result@[a]@ == ev);
                    } else if entry_view_in(wbefore, ev) {
                        let a = choose|a: int|
                            0 <= a < wbefore.len() && #[trigger] wbefore[a]@ == ev;
                        if a == m as int {
                            assert(result@[result@.len() - 1]@ == ev);
                        } else if a < m as int {
                            assert(working@[a]@ == ev);
                        } else {
                            assert(working@[a - 1]@ == ev);
                        }
                    }
                }
            }
        }
        if result.len() < n {
            assert(working@.len() == 0);
        }
        proof {
            assert forall|i: int, k: int|
                0 <= i < result@.len() && 0 <= k < self.entries@.len() && !entry_view_in(
                    result@,
                    self.entries@[k]@,
                ) implies dist_le(
                target@,
                (#[trigger] result@[i]@).peer_id,
                (#[trigger] self.entries@[k]@).peer_id,
            ) by {
                let ev = self.entries@[k]@;
                assert(entry_view_in(working@, ev));
                let b = choose|b: int| 0 <= b < working@.len() && #[trigger] working@[b]@ == ev;
                assert(dist_le(target@, result@[i]@.peer_id, working@[b]@.peer_id));
            }
        }
        result
    }

    /// Index of an entry at maximal XOR distance from the node's own id.
    fn farthest_index(&self) -> (r: usize)
        requires
            self.wf(),
            self.entries@.len() >= 1,
        ensures
            0 <= r < self.entries@.len(),
            forall|k: int|
                0 <= k < self.entries@.len() ==> dist_le(
                    self.self_id@,
                    (#[trigger] self.entries@[k]@).peer_id,
                    self.entries@[r as int]@.peer_id,
                ),
    {
        let n = self.entries.len();
        let mut jm: usize = 0;
        let mut i: usize = 1;
        while i < n
            invariant
                self.wf(),
                n == self.entries@.len(),
                0 <= jm < n,
                1 <= i <= n,
                forall|k: int|
                    0 <= k < i ==> dist_le(
                        self.self_id@,
                        (#[trigger] self.entries@[k]@).peer_id,
                        self.entries@[jm as int]@.peer_id,
                    ),
            decreases n - i,
        {
            assert(wf_entry(self.entries@[jm as int]@));
            assert(wf_entry(self.entries@[i as int]@));
            if crate::peer::xor_dist_lt(
                &self.self_id,
                &self.entries[jm].peer_id,
                &self.entries[i].peer_id,
            ) {
                let ghost old_jm = jm as int;
                jm = i;
                assert forall|k: int|
                    0 <= k < i + 1 implies dist_le(
                    self.self_id@,
                    (#[trigger] self.entries@[k]@).peer_id,
                    self.entries@[jm as int]@.peer_id,
                ) by {
                    crate::peer::lemma_dist_lt_asym(
                        self.self_id@,
                        self.entries@[old_jm]@.peer_id,
                        self.entries@[jm as int]@.peer_id,
                    );
                    if k < i {
                        lemma_dist_le_trans(
                            self.self_id@,
                            self.entries@[k]@.peer_id,
                            self.entries@[old_jm]@.peer_id,
                            self.entries@[jm as int]@.peer_id,
                        );
                    }
                }
            }
            i += 1;
        }
        jm
    }
}

/// The routing table never contains the node's own peer id: in any
/// well-formed table — as built by `new` and kept by `add_entry` — no entry
/// carries it.
pub proof fn lemma_self_never_in_table(t: RoutingTable)
    requires
        t.wf(),
    ensures
        !t.contains_id(t.self_id@),
{
}

/// Copies one entry, field for field.
fn clone_entry(e: &PeerEntry) -> (r: PeerEntry)
    ensures
        r@ == e@,
{
    let id_bytes = crate::codec::copy_range(&e.peer_id.bytes, 0, e.peer_id.bytes.len());
    let addr = crate::codec::copy_range(&e.addr, 0, e.addr.len());
    assert(id_bytes@ =~= e.peer_id.bytes@);
    assert(addr@ =~= e.addr@);
    PeerEntry {
        peer_id: PeerID { bytes: id_bytes },
        addr,
        port: e.port,
        discovery_port: e.discovery_port,
        last_seen: e.last_seen,
    }
}

/// Index of an entry of `v` at minimal XOR distance from `target`.
fn nearest_index(v: &Vec<PeerEntry>, target: &PeerID) -> (r: usize)
    requires
        target.wf(),
        v@.len() >= 1,
        forall|a: int| 0 <= a < v@.len() ==> wf_entry(#[trigger] v@[a]@),
    ensures
        0 <= r < v@.len(),
        forall|k: int|
            0 <= k < v@.len() ==> dist_le(
                target@,
                v@[r as int]@.peer_id,
                (#[trigger] v@[k]@).peer_id,
            ),
{
    let n = v.len();
    let mut jm: usize = 0;
    let mut i: usize = 1;
    while i < n
        invariant
            target.wf(),
            forall|a: int| 0 <= a < v@.len() ==> wf_entry(#[trigger] v@[a]@),
            n == v@.len(),
            0 <= jm < n,
            1 <= i <= n,
            forall|k: int|
                0 <= k < i ==> dist_le(target@, v@[jm as int]@.peer_id, (#[trigger] v@[k]@).peer_id),
        decreases n - i,
    {
        assert(wf_entry(v@[jm as int]@));
        assert(wf_entry(v@[i as int]@));
        if crate::peer::xor_dist_lt(target, &v[i].peer_id, &v[jm].peer_id) {
            let ghost old_jm = jm as int;
            jm = i;
            assert forall|k: int|
                0 <= k < i + 1 implies dist_le(
                target@,
                v@[jm as int]@.peer_id,
                (#[trigger] v@[k]@).peer_id,
            ) by {
                crate::peer::lemma_dist_lt_asym(
                    target@,
                    v@[jm as int]@.peer_id,
                    v@[old_jm]@.peer_id,
                );
                if k < i {
                    lemma_dist_le_trans(
                        target@,
                        v@[jm as int]@.peer_id,
                        v@[old_jm]@.peer_id,
                        v@[k]@.peer_id,
                    );
                }
            }
        }
        i += 1;
    }
    jm
}

} // verus!
