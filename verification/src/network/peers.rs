//! The peers a synchronisation downloads from: their heights, response times and
//! download records, the reliability each has earned, and the peers shut out for
//! failing too often.
use vstd::prelude::*;
use crate::text::str_eq;
use crate::consensus::error::{message, ConsensusError};

verus! {

/// What the node knows of one peer. The reliability is the fraction
/// `reliability_num / reliability_den`; the response time is in nanoseconds.
#[derive(Debug, Clone)]
pub struct PeerMetrics {
    pub peer_id: String,
    pub height: u64,
    pub reliability_num: u64,
    pub reliability_den: u64,
    pub response_time_nanos: u128,
    pub success_count: u32,
    pub failure_count: u32,
    pub blocks_downloaded: u32,
    pub headers_downloaded: u32,
}

/// A peer's record, without its name.
pub struct PeerRecord {
    pub height: u64,
    pub reliability_num: u64,
    pub reliability_den: u64,
    pub response_time_nanos: u128,
    pub success_count: u32,
    pub failure_count: u32,
    pub blocks_downloaded: u32,
    pub headers_downloaded: u32,
}

impl View for PeerMetrics {
    type V = PeerRecord;

    open spec fn view(&self) -> PeerRecord {
        PeerRecord {
            height: self.height,
            reliability_num: self.reliability_num,
            reliability_den: self.reliability_den,
            response_time_nanos: self.response_time_nanos,
            success_count: self.success_count,
            failure_count: self.failure_count,
            blocks_downloaded: self.blocks_downloaded,
            headers_downloaded: self.headers_downloaded,
        }
    }
}

/// The reliability after a success: the share of successes, which is at most one.
pub open spec fn success_reliability(s: nat, f: nat) -> (nat, nat) {
    (s, s + f)
}

/// The reliability after a failure: the share of successes, but at least a tenth.
pub open spec fn failure_reliability(s: nat, f: nat) -> (nat, nat) {
    if 10 * s < s + f { (1, 10) } else { (s, s + f) }
}

/// A peer's record after a download that succeeded with `items` items: one more success,
/// one failure forgiven, the reliability recomputed; up to 100 items count as blocks,
/// more as headers.
pub open spec fn after_success(m: PeerRecord, items: u32) -> PeerRecord {
    let s = m.success_count + 1;
    let f = if m.failure_count > 0 { m.failure_count - 1 } else { 0 };
    let rel = success_reliability(s as nat, f as nat);
    PeerRecord {
        success_count: s as u32,
        failure_count: f as u32,
        reliability_num: rel.0 as u64,
        reliability_den: rel.1 as u64,
        blocks_downloaded: if 0 < items <= 100 { (m.blocks_downloaded + items) as u32 } else { m.blocks_downloaded },
        headers_downloaded: if items > 100 { (m.headers_downloaded + items) as u32 } else { m.headers_downloaded },
        ..m
    }
}

/// A peer's record after a failed download: one more failure, the reliability
/// recomputed.
pub open spec fn after_failure(m: PeerRecord) -> PeerRecord {
    let f = m.failure_count + 1;
    let rel = failure_reliability(m.success_count as nat, f as nat);
    PeerRecord { failure_count: f as u32, reliability_num: rel.0 as u64, reliability_den: rel.1 as u64, ..m }
}

/// Whether a record shuts its peer out: over ten failures and a reliability below a half.
pub open spec fn shut_out(m: PeerRecord) -> bool {
    m.failure_count > 10 && 2 * m.reliability_num < m.reliability_den
}

/// The record of a peer first seen at `height` with the given response time: full
/// reliability and nothing downloaded.
pub open spec fn fresh_record(height: u64, response_time_nanos: u128) -> PeerRecord {
    PeerRecord {
        height,
        reliability_num: 1,
        reliability_den: 1,
        response_time_nanos,
        success_count: 0,
        failure_count: 0,
        blocks_downloaded: 0,
        headers_downloaded: 0,
    }
}

/// Whether the records of a list name distinct peers.
pub open spec fn ids_distinct(s: Seq<PeerMetrics>) -> bool {
    forall|i: int, j: int| 0 <= i < j < s.len() ==> s[i].peer_id@ != s[j].peer_id@
}

/// The records of a list, by peer.
pub open spec fn peer_map(s: Seq<PeerMetrics>) -> Map<Seq<char>, PeerRecord> {
    Map::new(
        |id: Seq<char>| exists|i: int| 0 <= i < s.len() && s[i].peer_id@ == id,
        |id: Seq<char>| s[choose|i: int| 0 <= i < s.len() && s[i].peer_id@ == id]@,
    )
}

/// Whether the names of a list are distinct.
pub open spec fn names_distinct(s: Seq<String>) -> bool {
    forall|i: int, j: int| 0 <= i < j < s.len() ==> s[i]@ != s[j]@
}

/// The names of a list.
pub open spec fn name_set(s: Seq<String>) -> Set<Seq<char>> {
    Set::new(|id: Seq<char>| exists|i: int| 0 <= i < s.len() && s[i]@ == id)
}

proof fn lemma_peer_map_at(s: Seq<PeerMetrics>, i: int)
    requires
        ids_distinct(s),
        0 <= i < s.len(),
    ensures
        peer_map(s).dom().contains(s[i].peer_id@),
        peer_map(s)[s[i].peer_id@] == s[i]@,
{
    let id = s[i].peer_id@;
    let j = choose|j: int| 0 <= j < s.len() && s[j].peer_id@ == id;
    if j != i {
        if j < i {
            assert(s[j].peer_id@ != s[i].peer_id@);
        } else {
            assert(s[i].peer_id@ != s[j].peer_id@);
        }
    }
}

proof fn lemma_peer_map_update(s: Seq<PeerMetrics>, i: int, x: PeerMetrics)
    requires
        ids_distinct(s),
        0 <= i < s.len(),
        x.peer_id@ == s[i].peer_id@,
    ensures
        ids_distinct(s.update(i, x)),
        peer_map(s.update(i, x)) == peer_map(s).insert(x.peer_id@, x@),
{
    let t = s.update(i, x);
    assert(ids_distinct(t)) by {
        assert forall|a: int, b: int| 0 <= a < b < t.len() implies t[a].peer_id@ != t[b].peer_id@ by {
            assert(t[a].peer_id@ == s[a].peer_id@);
            assert(t[b].peer_id@ == s[b].peer_id@);
        }
    }
    assert forall|id: Seq<char>| #![auto] peer_map(t).dom().contains(id) <==> peer_map(s).insert(x.peer_id@, x@).dom().contains(id) by {
        if peer_map(t).dom().contains(id) {
            let j = choose|j: int| 0 <= j < t.len() && t[j].peer_id@ == id;
            assert(s[j].peer_id@ == id);
        }
        if peer_map(s).dom().contains(id) {
            let j = choose|j: int| 0 <= j < s.len() && s[j].peer_id@ == id;
            assert(t[j].peer_id@ == id);
        }
        if id == x.peer_id@ {
            assert(t[i].peer_id@ == id);
        }
    }
    assert forall|id: Seq<char>| #![auto] peer_map(t).dom().contains(id) implies peer_map(t)[id] == peer_map(s).insert(x.peer_id@, x@)[id] by {
        let j = choose|j: int| 0 <= j < t.len() && t[j].peer_id@ == id;
        lemma_peer_map_at(t, j);
        if j != i {
            lemma_peer_map_at(s, j);
        }
    }
    assert(peer_map(t) =~= peer_map(s).insert(x.peer_id@, x@));
}

proof fn lemma_peer_map_push(s: Seq<PeerMetrics>, x: PeerMetrics)
    requires
        ids_distinct(s),
        !peer_map(s).dom().contains(x.peer_id@),
    ensures
        ids_distinct(s.push(x)),
        peer_map(s.push(x)) == peer_map(s).insert(x.peer_id@, x@),
{
    let t = s.push(x);
    assert(ids_distinct(t)) by {
        assert forall|a: int, b: int| 0 <= a < b < t.len() implies t[a].peer_id@ != t[b].peer_id@ by {
            if b == s.len() {
                assert(t[a].peer_id@ == s[a].peer_id@);
                if s[a].peer_id@ == x.peer_id@ {
                    assert(peer_map(s).dom().contains(x.peer_id@));
                }
            } else {
                assert(t[a] == s[a] && t[b] == s[b]);
            }
        }
    }
    assert forall|id: Seq<char>| #![auto] peer_map(t).dom().contains(id) <==> peer_map(s).insert(x.peer_id@, x@).dom().contains(id) by {
        if peer_map(t).dom().contains(id) {
            let j = choose|j: int| 0 <= j < t.len() && t[j].peer_id@ == id;
            if j < s.len() {
                assert(s[j].peer_id@ == id);
            }
        }
        if peer_map(s).dom().contains(id) {
            let j = choose|j: int| 0 <= j < s.len() && s[j].peer_id@ == id;
            assert(t[j].peer_id@ == id);
        }
        if id == x.peer_id@ {
            assert(t[s.len() as int].peer_id@ == id);
        }
    }
    assert forall|id: Seq<char>| #![auto] peer_map(t).dom().contains(id) implies peer_map(t)[id] == peer_map(s).insert(x.peer_id@, x@)[id] by {
        let j = choose|j: int| 0 <= j < t.len() && t[j].peer_id@ == id;
        lemma_peer_map_at(t, j);
        if j < s.len() {
            lemma_peer_map_at(s, j);
        }
    }
    assert(peer_map(t) =~= peer_map(s).insert(x.peer_id@, x@));
}

proof fn lemma_peer_map_remove(s: Seq<PeerMetrics>, i: int)
    requires
        ids_distinct(s),
        0 <= i < s.len(),
    ensures
        ids_distinct(s.remove(i)),
        peer_map(s.remove(i)) == peer_map(s).remove(s[i].peer_id@),
{
    let t = s.remove(i);
    assert(ids_distinct(t)) by {
        assert forall|a: int, b: int| 0 <= a < b < t.len() implies t[a].peer_id@ != t[b].peer_id@ by {
            let a2 = if a < i { a } else { a + 1 };
            let b2 = if b < i { b } else { b + 1 };
            assert(t[a] == s[a2] && t[b] == s[b2]);
        }
    }
    assert forall|id: Seq<char>| #![auto] peer_map(t).dom().contains(id) <==> peer_map(s).remove(s[i].peer_id@).dom().contains(id) by {
        if peer_map(t).dom().contains(id) {
            let j = choose|j: int| 0 <= j < t.len() && t[j].peer_id@ == id;
            let j2 = if j < i { j } else { j + 1 };
            assert(s[j2].peer_id@ == id);
            assert(s[i].peer_id@ != s[j2].peer_id@) by {
                if j2 < i {
                    assert(s[j2].peer_id@ != s[i].peer_id@);
                }
            }
        }
        if peer_map(s).dom().contains(id) && id != s[i].peer_id@ {
            let j = choose|j: int| 0 <= j < s.len() && s[j].peer_id@ == id;
            assert(j != i);
            let j2 = if j < i { j } else { j - 1 };
            assert(t[j2].peer_id@ == id);
        }
    }
    assert forall|id: Seq<char>| #![auto] peer_map(t).dom().contains(id) implies peer_map(t)[id] == peer_map(s).remove(s[i].peer_id@)[id] by {
        let j = choose|j: int| 0 <= j < t.len() && t[j].peer_id@ == id;
        let j2 = if j < i { j } else { j + 1 };
        lemma_peer_map_at(t, j);
        lemma_peer_map_at(s, j2);
    }
    assert(peer_map(t) =~= peer_map(s).remove(s[i].peer_id@));
}

proof fn lemma_name_set_push(s: Seq<String>, x: String)
    requires
        names_distinct(s),
        !name_set(s).contains(x@),
    ensures
        names_distinct(s.push(x)),
        name_set(s.push(x)) == name_set(s).insert(x@),
{
    let t = s.push(x);
    assert(names_distinct(t)) by {
        assert forall|a: int, b: int| 0 <= a < b < t.len() implies t[a]@ != t[b]@ by {
            if b == s.len() {
                assert(t[a] == s[a]);
                if s[a]@ == x@ {
                    assert(name_set(s).contains(x@));
                }
            } else {
                assert(t[a] == s[a] && t[b] == s[b]);
            }
        }
    }
    assert forall|id: Seq<char>| #![auto] name_set(t).contains(id) <==> name_set(s).insert(x@).contains(id) by {
        if name_set(t).contains(id) {
            let j = choose|j: int| 0 <= j < t.len() && t[j]@ == id;
            if j < s.len() {
                assert(s[j]@ == id);
            }
        }
        if name_set(s).contains(id) {
            let j = choose|j: int| 0 <= j < s.len() && s[j]@ == id;
            assert(t[j]@ == id);
        }
        if id == x@ {
            assert(t[s.len() as int]@ == id);
        }
    }
    assert(name_set(t) =~= name_set(s).insert(x@));
}

proof fn lemma_name_set_remove(s: Seq<String>, i: int)
    requires
        names_distinct(s),
        0 <= i < s.len(),
    ensures
        names_distinct(s.remove(i)),
        name_set(s.remove(i)) == name_set(s).remove(s[i]@),
{
    let t = s.remove(i);
    assert(names_distinct(t)) by {
        assert forall|a: int, b: int| 0 <= a < b < t.len() implies t[a]@ != t[b]@ by {
            let a2 = if a < i { a } else { a + 1 };
            let b2 = if b < i { b } else { b + 1 };
            assert(t[a] == s[a2] && t[b] == s[b2]);
        }
    }
    assert forall|id: Seq<char>| #![auto] name_set(t).contains(id) <==> name_set(s).remove(s[i]@).contains(id) by {
        if name_set(t).contains(id) {
            let j = choose|j: int| 0 <= j < t.len() && t[j]@ == id;
            let j2 = if j < i { j } else { j + 1 };
            assert(s[j2]@ == id);
            assert(s[i]@ != s[j2]@) by {
                if j2 < i {
                    assert(s[j2]@ != s[i]@);
                }
            }
        }
        if name_set(s).contains(id) && id != s[i]@ {
            let j = choose|j: int| 0 <= j < s.len() && s[j]@ == id;
            assert(j != i);
            let j2 = if j < i { j } else { j - 1 };
            assert(t[j2]@ == id);
        }
    }
    assert(name_set(t) =~= name_set(s).remove(s[i]@));
}

/// A copy of a peer's record.
fn copy_metrics(m: &PeerMetrics) -> (r: PeerMetrics)
    ensures
        r == *m,
{
    PeerMetrics {
        peer_id: m.peer_id.clone(),
        height: m.height,
        reliability_num: m.reliability_num,
        reliability_den: m.reliability_den,
        response_time_nanos: m.response_time_nanos,
        success_count: m.success_count,
        failure_count: m.failure_count,
        blocks_downloaded: m.blocks_downloaded,
        headers_downloaded: m.headers_downloaded,
    }
}

/// The position of the record of `id` in a list, if any.
fn find_peer(s: &Vec<PeerMetrics>, id: &str) -> (r: Option<usize>)
    ensures
        r matches Some(i) ==> i < s@.len() && s@[i as int].peer_id@ == id@,
        r is None ==> !peer_map(s@).dom().contains(id@),
{
    let mut i: usize = 0;
    while i < s.len()
        invariant
            i <= s@.len(),
            forall|j: int| 0 <= j < i ==> s@[j].peer_id@ != id@,
        decreases s@.len() - i,
    {
        if str_eq(s[i].peer_id.as_str(), id) {
            return Some(i);
        }
        i = i + 1;
    }
    None
}

/// The position of `id` in a list of names, if any.
fn find_name(s: &Vec<String>, id: &str) -> (r: Option<usize>)
    ensures
        r matches Some(i) ==> i < s@.len() && s@[i as int]@ == id@,
        r is None ==> !name_set(s@).contains(id@),
{
    let mut i: usize = 0;
    while i < s.len()
        invariant
            i <= s@.len(),
            forall|j: int| 0 <= j < i ==> s@[j]@ != id@,
        decreases s@.len() - i,
    {
        if str_eq(s[i].as_str(), id) {
            return Some(i);
        }
        i = i + 1;
    }
    None
}

/// The peers and the shut-out list.
pub struct PeerManager {
    peers: Vec<PeerMetrics>,
    blacklist: Vec<String>,
    max_peers: usize,
}

impl PeerManager {
    /// The peers' records, by peer.
    pub closed spec fn peers(&self) -> Map<Seq<char>, PeerRecord> {
        peer_map(self.peers@)
    }

    /// The peers shut out.
    pub closed spec fn banned(&self) -> Set<Seq<char>> {
        name_set(self.blacklist@)
    }

    pub closed spec fn limit(&self) -> nat {
        self.max_peers as nat
    }

    #[verifier::type_invariant]
    closed spec fn distinct_entries(&self) -> bool {
        ids_distinct(self.peers@) && names_distinct(self.blacklist@)
    }

    pub fn new(max_peers: usize) -> (r: PeerManager)
        ensures
            r.peers() == Map::<Seq<char>, PeerRecord>::empty(),
            r.banned() == Set::<Seq<char>>::empty(),
            r.limit() == max_peers,
    {
        let r = PeerManager { peers: Vec::new(), blacklist: Vec::new(), max_peers };
        assert(r.peers() =~= Map::<Seq<char>, PeerRecord>::empty());
        assert(r.banned() =~= Set::<Seq<char>>::empty());
        r
    }

    /// Records a peer's height and response time, starting a record for a new peer; a
    /// peer that is shut out is ignored.
    pub fn add_or_update_peer(&mut self, peer_id: String, height: u64, response_time_nanos: u128)
        ensures
            final(self).banned() == old(self).banned(),
            final(self).limit() == old(self).limit(),
            old(self).banned().contains(peer_id@) ==> final(self).peers() == old(self).peers(),
            !old(self).banned().contains(peer_id@) && old(self).peers().dom().contains(peer_id@) ==> final(self).peers()
                == old(self).peers().insert(peer_id@, PeerRecord {
                    height,
                    response_time_nanos,
                    ..old(self).peers()[peer_id@]
                }),
            !old(self).banned().contains(peer_id@) && !old(self).peers().dom().contains(peer_id@) ==> final(self).peers()
                == old(self).peers().insert(peer_id@, fresh_record(height, response_time_nanos)),
    {
        proof {
            use_type_invariant(&*self);
        }
        if find_name(&self.blacklist, peer_id.as_str()).is_some() {
            return;
        }
        let mut peers = Vec::new();
        std::mem::swap(&mut peers, &mut self.peers);
        let ghost s = peers@;
        match find_peer(&peers, peer_id.as_str()) {
            Some(i) => {
                let old_m = copy_metrics(&peers[i]);
                let m = PeerMetrics { height, response_time_nanos, ..old_m };
                proof {
                    lemma_peer_map_at(s, i as int);
                    lemma_peer_map_update(s, i as int, m);
                }
                peers.set(i, m);
            },
            None => {
                let m = PeerMetrics {
                    peer_id,
                    height,
                    reliability_num: 1,
                    reliability_den: 1,
                    response_time_nanos,
                    success_count: 0,
                    failure_count: 0,
                    blocks_downloaded: 0,
                    headers_downloaded: 0,
                };
                proof {
                    lemma_peer_map_push(s, m);
                }
                peers.push(m);
            },
        }
        self.peers = peers;
    }

    /// Records a download from a peer that succeeded with `items` items, as
    /// `after_success` states; an unknown peer is ignored.
    pub fn record_success(&mut self, peer_id: &str, items_downloaded: u32)
        requires
            old(self).peers().dom().contains(peer_id@) ==> ({
                let m = old(self).peers()[peer_id@];
                &&& m.success_count < u32::MAX
                &&& (0 < items_downloaded <= 100 ==> m.blocks_downloaded + items_downloaded <= u32::MAX)
                &&& (items_downloaded > 100 ==> m.headers_downloaded + items_downloaded <= u32::MAX)
            }),
        ensures
            final(self).banned() == old(self).banned(),
            final(self).limit() == old(self).limit(),
            old(self).peers().dom().contains(peer_id@) ==> final(self).peers() == old(self).peers().insert(
                peer_id@,
                after_success(old(self).peers()[peer_id@], items_downloaded),
            ),
            !old(self).peers().dom().contains(peer_id@) ==> final(self).peers() == old(self).peers(),
    {
        proof {
            use_type_invariant(&*self);
        }
        let i = match find_peer(&self.peers, peer_id) {
            Some(i) => i,
            None => {
                return;
            },
        };
        let mut peers = Vec::new();
        std::mem::swap(&mut peers, &mut self.peers);
        let ghost s = peers@;
        proof {
            lemma_peer_map_at(s, i as int);
        }
        let m = copy_metrics(&peers[i]);
        let succ = m.success_count + 1;
        let fail = if m.failure_count > 0 { m.failure_count - 1 } else { 0 };
        let mut blocks = m.blocks_downloaded;
        let mut headers = m.headers_downloaded;
        if items_downloaded > 0 {
            if items_downloaded <= 100 {
                blocks = m.blocks_downloaded + items_downloaded;
            } else {
                headers = m.headers_downloaded + items_downloaded;
            }
        }
        let next = PeerMetrics {
            success_count: succ,
            failure_count: fail,
            reliability_num: succ as u64,
            reliability_den: succ as u64 + fail as u64,
            blocks_downloaded: blocks,
            headers_downloaded: headers,
            ..m
        };
        proof {
            lemma_peer_map_update(s, i as int, next);
        }
        peers.set(i, next);
        self.peers = peers;
    }

    /// Records a failed download from a peer, as `after_failure` states, and shuts the
    /// peer out when its record says so (`shut_out`); an unknown peer is ignored.
    pub fn record_failure(&mut self, peer_id: &str)
        requires
            old(self).peers().dom().contains(peer_id@) ==> old(self).peers()[peer_id@].failure_count < u32::MAX,
        ensures
            final(self).limit() == old(self).limit(),
            old(self).peers().dom().contains(peer_id@) ==> final(self).peers() == old(self).peers().insert(
                peer_id@,
                after_failure(old(self).peers()[peer_id@]),
            ) && final(self).banned() == (if shut_out(after_failure(old(self).peers()[peer_id@])) {
                old(self).banned().insert(peer_id@)
            } else {
                old(self).banned()
            }),
            !old(self).peers().dom().contains(peer_id@) ==> final(self).peers() == old(self).peers()
                && final(self).banned() == old(self).banned(),
    {
        proof {
            use_type_invariant(&*self);
        }
        let i = match find_peer(&self.peers, peer_id) {
            Some(i) => i,
            None => {
                return;
            },
        };
        let mut peers = Vec::new();
        std::mem::swap(&mut peers, &mut self.peers);
        let ghost s = peers@;
        proof {
            lemma_peer_map_at(s, i as int);
        }
        let m = copy_metrics(&peers[i]);
        let fail = m.failure_count + 1;
        let succ = m.success_count as u64;
        let total = succ + fail as u64;
        let (num, den) = if 10 * succ < total { (1u64, 10u64) } else { (succ, total) };
        let next = PeerMetrics { failure_count: fail, reliability_num: num, reliability_den: den, ..m };
        proof {
            lemma_peer_map_update(s, i as int, next);
        }
        peers.set(i, next);
        self.peers = peers;
        if fail > 10 && 2 * num < den {
            match find_name(&self.blacklist, peer_id) {
                Some(_) => {},
                None => {
                    let mut banned = Vec::new();
                    std::mem::swap(&mut banned, &mut self.blacklist);
                    let name = peer_id.to_string();
                    proof {
                        lemma_name_set_push(banned@, name);
                    }
                    banned.push(name);
                    self.blacklist = banned;
                },
            }
            assert(self.banned() =~= old(self).banned().insert(peer_id@));
        }
    }

    /// Forgets a peer and lifts its shut-out.
    pub fn remove_peer(&mut self, peer_id: &str)
        ensures
            final(self).peers() == old(self).peers().remove(peer_id@),
            final(self).banned() == old(self).banned().remove(peer_id@),
            final(self).limit() == old(self).limit(),
    {
        proof {
            use_type_invariant(&*self);
        }
        match find_peer(&self.peers, peer_id) {
            Some(i) => {
                let mut peers = Vec::new();
                std::mem::swap(&mut peers, &mut self.peers);
                proof {
                    lemma_peer_map_remove(peers@, i as int);
                }
                peers.remove(i);
                self.peers = peers;
            },
            None => {
                assert(self.peers() =~= old(self).peers().remove(peer_id@));
            },
        }
        match find_name(&self.blacklist, peer_id) {
            Some(i) => {
                let mut banned = Vec::new();
                std::mem::swap(&mut banned, &mut self.blacklist);
                proof {
                    lemma_name_set_remove(banned@, i as int);
                }
                banned.remove(i);
                self.blacklist = banned;
            },
            None => {
                assert(self.banned() =~= old(self).banned().remove(peer_id@));
            },
        }
    }

    pub fn get_peer_count(&self) -> (r: usize)
        ensures
            r == self.peers().dom().len(),
    {
        proof {
            use_type_invariant(self);
            lemma_peer_map_len(self.peers@);
        }
        self.peers.len()
    }

    /// The records of the peers that are not shut out, in the order they were first seen;
    /// the peer with the best score is picked from them.
    pub fn candidates(&self) -> (r: Vec<PeerMetrics>)
        ensures
            forall|i: int| 0 <= i < r@.len() ==> self.peers().dom().contains(#[trigger] r@[i].peer_id@)
                && self.peers()[r@[i].peer_id@] == r@[i]@ && !self.banned().contains(r@[i].peer_id@),
            forall|id: Seq<char>| self.peers().dom().contains(id) && !self.banned().contains(id)
                ==> exists|i: int| 0 <= i < r@.len() && #[trigger] r@[i].peer_id@ == id,
    {
        proof {
            use_type_invariant(self);
        }
        let mut r: Vec<PeerMetrics> = Vec::new();
        let mut i: usize = 0;
        while i < self.peers.len()
            invariant
                i <= self.peers@.len(),
                ids_distinct(self.peers@),
                forall|j: int| 0 <= j < r@.len() ==> self.peers().dom().contains(#[trigger] r@[j].peer_id@)
                    && self.peers()[r@[j].peer_id@] == r@[j]@ && !self.banned().contains(r@[j].peer_id@),
                forall|k: int| 0 <= k < i && !self.banned().contains(self.peers@[k].peer_id@)
                    ==> exists|j: int| 0 <= j < r@.len() && #[trigger] r@[j].peer_id@ == self.peers@[k].peer_id@,
            decreases self.peers@.len() - i,
        {
            proof {
                lemma_peer_map_at(self.peers@, i as int);
            }
            let ghost before = r@;
            if find_name(&self.blacklist, self.peers[i].peer_id.as_str()).is_none() {
                r.push(copy_metrics(&self.peers[i]));
            }
            proof {
                assert forall|k: int| 0 <= k < i + 1 && !self.banned().contains(self.peers@[k].peer_id@)
                    implies exists|j: int| 0 <= j < r@.len() && #[trigger] r@[j].peer_id@ == self.peers@[k].peer_id@ by {
                    if k < i {
                        let j = choose|j: int| 0 <= j < before.len() && #[trigger] before[j].peer_id@ == self.peers@[k].peer_id@;
                        assert(r@[j] == before[j]);
                    } else {
                        assert(r@[r@.len() - 1].peer_id@ == self.peers@[k].peer_id@);
                    }
                }
            }
            i = i + 1;
        }
        proof {
            assert forall|id: Seq<char>| self.peers().dom().contains(id) && !self.banned().contains(id)
                implies exists|i: int| 0 <= i < r@.len() && #[trigger] r@[i].peer_id@ == id by {
                let k = choose|k: int| 0 <= k < self.peers@.len() && self.peers@[k].peer_id@ == id;
            }
        }
        r
    }
}

proof fn lemma_peer_map_len(s: Seq<PeerMetrics>)
    requires
        ids_distinct(s),
    ensures
        peer_map(s).dom().finite(),
        peer_map(s).dom().len() == s.len(),
    decreases s.len(),
{
    if s.len() == 0 {
        assert(peer_map(s).dom() =~= Set::<Seq<char>>::empty());
    } else {
        let t = s.drop_last();
        assert(ids_distinct(t));
        lemma_peer_map_len(t);
        let x = s.last();
        assert(!peer_map(t).dom().contains(x.peer_id@)) by {
            if peer_map(t).dom().contains(x.peer_id@) {
                let j = choose|j: int| 0 <= j < t.len() && t[j].peer_id@ == x.peer_id@;
                assert(s[j].peer_id@ != s[s.len() - 1].peer_id@);
            }
        }
        lemma_peer_map_push(t, x);
        assert(t.push(x) =~= s);
    }
}

/// The blocks in flight from a peer: the count of the first entry naming it, zero when
/// none does.
pub open spec fn in_flight(table: Seq<(String, u64)>, id: Seq<char>) -> u64
    decreases table.len(),
{
    if table.len() == 0 {
        0
    } else if table[0].0@ == id {
        table[0].1
    } else {
        in_flight(table.drop_first(), id)
    }
}

/// The highest height among the first `n` peers.
pub open spec fn max_height(s: Seq<(String, u64)>, n: int) -> u64
    decreases n,
{
    if n <= 0 {
        0
    } else if s[n - 1].1 > max_height(s, n - 1) {
        s[n - 1].1
    } else {
        max_height(s, n - 1)
    }
}

proof fn lemma_max_height(s: Seq<(String, u64)>, n: int)
    requires
        0 <= n <= s.len(),
    ensures
        forall|j: int| 0 <= j < n ==> #[trigger] s[j].1 <= max_height(s, n),
        n > 0 ==> exists|j: int| 0 <= j < n && #[trigger] s[j].1 == max_height(s, n),
    decreases n,
{
    if n > 0 {
        lemma_max_height(s, n - 1);
        if n > 1 && s[n - 1].1 <= max_height(s, n - 1) {
            let j = choose|j: int| 0 <= j < n - 1 && #[trigger] s[j].1 == max_height(s, n - 1);
            assert(s[j].1 == max_height(s, n));
        }
    }
}

/// The blocks in flight from a peer, as `in_flight` states.
fn blocks_in_flight_of(table: &Vec<(String, u64)>, id: &str) -> (r: u64)
    ensures
        r == in_flight(table@, id@),
{
    let mut i: usize = 0;
    assert(table@.skip(0) =~= table@);
    while i < table.len()
        invariant
            i <= table@.len(),
            in_flight(table@.skip(i as int), id@) == in_flight(table@, id@),
        decreases table@.len() - i,
    {
        assert(table@.skip(i as int).drop_first() =~= table@.skip(i as int + 1));
        if str_eq(table[i].0.as_str(), id) {
            return table[i].1;
        }
        i = i + 1;
    }
    assert(table@.skip(i as int).len() == 0);
    0
}

/// Whether the `i`-th peer is the one to synchronise from: within ten blocks of the
/// highest, with no more blocks in flight than any such peer and fewer than any such peer
/// before it.
pub open spec fn is_best_sync_peer(s: Seq<(String, u64)>, table: Seq<(String, u64)>, i: int) -> bool {
    let floor = max_height(s, s.len() as int) - 10;
    &&& 0 <= i < s.len()
    &&& s[i].1 >= floor
    &&& forall|j: int| 0 <= j < s.len() && s[j].1 >= floor ==> in_flight(table, s[j].0@) >= in_flight(table, s[i].0@)
    &&& forall|j: int| 0 <= j < i && s[j].1 >= floor ==> in_flight(table, s[j].0@) > in_flight(table, s[i].0@)
}

/// Picks the peer to synchronise from, given each peer's height and the blocks in flight
/// from each: among the peers within ten blocks of the highest, the first (in the order
/// given) with the fewest blocks in flight. None is an error.
pub fn select_best_sync_peer(peer_heights: &Vec<(String, u64)>, blocks_in_flight: &Vec<(String, u64)>) -> (r: Result<String, ConsensusError>)
    requires
        peer_heights@.len() > 0 ==> max_height(peer_heights@, peer_heights@.len() as int) >= 10,
    ensures
        peer_heights@.len() == 0 ==> (r matches Err(ConsensusError::NetworkError(m)) && m@ == "No peers available for selection"@),
        peer_heights@.len() > 0 ==> (r matches Ok(id) && exists|i: int|
            #[trigger] is_best_sync_peer(peer_heights@, blocks_in_flight@, i) && peer_heights@[i].0@ == id@),
{
    let n = peer_heights.len();
    if n == 0 {
        return Err(ConsensusError::NetworkError(message("No peers available for selection")));
    }
    let ghost s = peer_heights@;
    let mut max: u64 = 0;
    let mut i: usize = 0;
    while i < n
        invariant
            n == s.len(),
            s == peer_heights@,
            i <= n,
            max == max_height(s, i as int),
        decreases n - i,
    {
        if peer_heights[i].1 > max {
            max = peer_heights[i].1;
        }
        i = i + 1;
    }
    proof {
        lemma_max_height(s, n as int);
    }
    let floor = max - 10;
    let mut best: usize = n;
    let mut best_count: u64 = 0;
    let mut k: usize = 0;
    while k < n
        invariant
            n == s.len(),
            s == peer_heights@,
            k <= n,
            floor == max_height(s, n as int) - 10,
            best == n || (best < k && s[best as int].1 >= floor && best_count == in_flight(blocks_in_flight@, s[best as int].0@)),
            best == n ==> forall|j: int| 0 <= j < k ==> s[j].1 < floor,
            best < n ==> forall|j: int| 0 <= j < k && s[j].1 >= floor ==> in_flight(blocks_in_flight@, s[j].0@) >= best_count,
            best < n ==> forall|j: int| 0 <= j < best && s[j].1 >= floor ==> in_flight(blocks_in_flight@, s[j].0@) > best_count,
        decreases n - k,
    {
        if peer_heights[k].1 >= floor {
            let count = blocks_in_flight_of(blocks_in_flight, peer_heights[k].0.as_str());
            if best == n || count < best_count {
                best = k;
                best_count = count;
            }
        }
        k = k + 1;
    }
    proof {
        let j = choose|j: int| 0 <= j < n && #[trigger] s[j].1 == max_height(s, n as int);
        assert(s[j].1 >= floor);
    }
    assert(is_best_sync_peer(s, blocks_in_flight@, best as int));
    let chosen = peer_heights[best].0.clone();
    Ok(chosen)
}

} // verus!
