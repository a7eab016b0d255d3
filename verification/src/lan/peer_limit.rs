//! Bounded admission of LAN peers: at most one active connection per peer, a
//! limited number of attempts per peer in each window, and a fixed number of
//! tracked peers. Times are monotonic milliseconds.
use vstd::prelude::*;

use super::address::LanIp;
use super::LanError;

verus! {

/// Active connections allowed per peer.
pub const MAX_ACTIVE_CONNECTIONS_PER_PEER: u8 = 1;
/// Connection attempts allowed per peer in one window.
pub const MAX_CONNECTION_ATTEMPTS_PER_PEER_WINDOW: u8 = 8;
/// Peers tracked at once.
pub const MAX_TRACKED_PEERS: usize = 256;
/// Length of the attempt window.
pub const PEER_ATTEMPT_WINDOW_SECONDS: u64 = 60;
/// Length of the attempt window in milliseconds.
pub const PEER_ATTEMPT_WINDOW_MILLISECONDS: u64 = 60000;

/// Model of the admission state of one peer.
pub struct PeerView {
    pub peer: LanIp,
    pub window_started: int,
    pub attempts: int,
    pub active: int,
}

/// Admission state of one peer.
#[derive(Clone, Copy)]
pub struct PeerState {
    peer: LanIp,
    window_started: u64,
    attempts: u8,
    active: u8,
}

impl View for PeerState {
    type V = PeerView;

    closed spec fn view(&self) -> PeerView {
        PeerView {
            peer: self.peer,
            window_started: self.window_started as int,
            attempts: self.attempts as int,
            active: self.active as int,
        }
    }
}

/// Time from `start` to `now`, zero when `now` is earlier.
pub open spec fn elapsed(now: int, start: int) -> int {
    if now >= start {
        now - start
    } else {
        0
    }
}

/// A full window has passed since the peer's window started.
pub open spec fn window_due(p: PeerView, now: int) -> bool {
    elapsed(now, p.window_started) >= PEER_ATTEMPT_WINDOW_MILLISECONDS
}

/// Peers kept when the table is cleaned at `now`: those with an active
/// connection or a window still running.
pub open spec fn peer_kept(now: int) -> spec_fn(PeerView) -> bool {
    |p: PeerView| p.active > 0 || !window_due(p, now)
}

pub open spec fn has_peer(t: Seq<PeerView>, peer: LanIp) -> bool {
    exists|i: int| 0 <= i < t.len() && #[trigger] t[i].peer == peer
}

pub open spec fn peer_index(t: Seq<PeerView>, peer: LanIp) -> int {
    choose|i: int| 0 <= i < t.len() && #[trigger] t[i].peer == peer
}

/// The table invariant: bounded size, one entry per peer, and per-peer counts
/// within their limits.
pub open spec fn table_wf(t: Seq<PeerView>) -> bool {
    &&& t.len() <= MAX_TRACKED_PEERS
    &&& forall|i: int, j: int| 0 <= i < t.len() && 0 <= j < t.len() && i != j ==> t[i].peer != t[j].peer
    &&& forall|i: int|
        0 <= i < t.len() ==> #[trigger] t[i].active <= MAX_ACTIVE_CONNECTIONS_PER_PEER && t[i].attempts
            <= MAX_CONNECTION_ATTEMPTS_PER_PEER_WINDOW && t[i].active >= 0 && t[i].attempts >= 0
            && 0 <= t[i].window_started <= u64::MAX
}

/// The result and resulting table of reserving a connection slot for `peer`
/// at `now`: stale inactive peers are dropped; an unknown peer is refused
/// when the table is full and otherwise added; its window restarts when due;
/// the attempt is counted when under the attempt limit; and the connection
/// is admitted when the peer has no active connection.
pub open spec fn reserve_model(t: Seq<PeerView>, peer: LanIp, now: int) -> (Result<(), LanError>, Seq<PeerView>) {
    let t1 = t.filter(peer_kept(now));
    if !has_peer(t1, peer) && t1.len() >= MAX_TRACKED_PEERS {
        (Err(LanError::PeerLimitReached), t1)
    } else {
        let t2 = if has_peer(t1, peer) {
            t1
        } else {
            t1.push(PeerView { peer, window_started: now, attempts: 0, active: 0 })
        };
        let i = peer_index(t2, peer);
        let s = t2[i];
        let s1 = if window_due(s, now) {
            PeerView { window_started: now, attempts: 0, ..s }
        } else {
            s
        };
        if s1.attempts >= MAX_CONNECTION_ATTEMPTS_PER_PEER_WINDOW {
            (Err(LanError::PeerLimitReached), t2.update(i, s1))
        } else {
            let s2 = PeerView { attempts: s1.attempts + 1, ..s1 };
            if s2.active >= MAX_ACTIVE_CONNECTIONS_PER_PEER {
                (Err(LanError::PeerLimitReached), t2.update(i, s2))
            } else {
                (Ok(()), t2.update(i, PeerView { active: s2.active + 1, ..s2 }))
            }
        }
    }
}

/// The table after one active connection of `peer` ends.
pub open spec fn release_model(t: Seq<PeerView>, peer: LanIp) -> Seq<PeerView> {
    if has_peer(t, peer) {
        let i = peer_index(t, peer);
        let s = t[i];
        t.update(i, PeerView { active: if s.active > 0 { s.active - 1 } else { 0 }, ..s })
    } else {
        t
    }
}

/// Peer admission table.
pub struct PeerTable {
    peers: Vec<PeerState>,
}

impl View for PeerTable {
    type V = Seq<PeerView>;

    closed spec fn view(&self) -> Seq<PeerView> {
        self.peers@.map_values(|p: PeerState| p@)
    }
}

impl PeerTable {
    pub open spec fn wf(&self) -> bool {
        table_wf(self@)
    }

    pub fn new() -> (table: Self)
        ensures
            table.wf(),
            table@.len() == 0,
    {
        let table = PeerTable { peers: Vec::new() };
        assert(table@ =~= Seq::<PeerView>::empty());
        table
    }

    pub fn len(&self) -> (count: usize)
        ensures
            count == self@.len(),
    {
        self.peers.len()
    }

    /// Drops every peer without an active connection whose window has run out.
    pub fn remove_expired_inactive(&mut self, now: u64)
        requires
            old(self).wf(),
        ensures
            final(self).wf(),
            final(self)@ == old(self)@.filter(peer_kept(now as int)),
    {
        let ghost t = self@;
        let mut kept: Vec<PeerState> = Vec::new();
        let mut i: usize = 0;
        proof {
            reveal(Seq::filter);
            assert(t.take(0) =~= Seq::<PeerView>::empty());
            assert(kept@.map_values(|p: PeerState| p@) =~= Seq::<PeerView>::empty());
        }
        while i < self.peers.len()
            invariant
                i <= self.peers@.len(),
                t == self@,
                kept@.map_values(|p: PeerState| p@) == t.take(i as int).filter(peer_kept(now as int)),
            decreases self.peers@.len() - i,
        {
            let p = self.peers[i];
            proof {
                reveal(Seq::filter);
                assert(t[i as int] == p@);
                assert(t.take(i + 1).drop_last() =~= t.take(i as int));
                assert(t.take(i + 1).last() == p@);
                assert(kept@.push(p).map_values(|q: PeerState| q@) =~= kept@.map_values(
                    |q: PeerState| q@,
                ).push(p@));
            }
            let elapsed: u64 = if now >= p.window_started {
                now - p.window_started
            } else {
                0
            };
            if p.active > 0 || elapsed < PEER_ATTEMPT_WINDOW_MILLISECONDS {
                kept.push(p);
            }
            i += 1;
        }
        proof {
            assert(t.take(i as int) =~= t);
            lemma_peer_filter(t, peer_kept(now as int));
        }
        self.peers = kept;
    }

    /// Position of the entry for `peer`, if any.
    fn find(&self, peer: LanIp) -> (index: Option<usize>)
        ensures
            match index {
                Some(i) => i < self@.len() && self@[i as int].peer == peer,
                None => !has_peer(self@, peer),
            },
    {
        let mut i: usize = 0;
        while i < self.peers.len()
            invariant
                i <= self.peers@.len(),
                forall|j: int| 0 <= j < i ==> self@[j].peer != peer,
            decreases self.peers@.len() - i,
        {
            if self.peers[i].peer == peer {
                return Some(i);
            }
            i += 1;
        }
        None
    }

    /// Reserves a connection slot for `peer` at `now`, as `reserve_model` describes.
    pub fn reserve(&mut self, peer: LanIp, now: u64) -> (result: Result<(), LanError>)
        requires
            old(self).wf(),
        ensures
            final(self).wf(),
            result == reserve_model(old(self)@, peer, now as int).0,
            final(self)@ == reserve_model(old(self)@, peer, now as int).1,
    {
        let ghost t = self@;
        self.remove_expired_inactive(now);
        let ghost t1 = self@;
        let i = match self.find(peer) {
            Some(i) => i,
            None => {
                if self.peers.len() >= MAX_TRACKED_PEERS {
                    return Err(LanError::PeerLimitReached);
                }
                self.peers.push(PeerState { peer, window_started: now, attempts: 0, active: 0 });
                proof {
                    assert(self@ =~= t1.push(PeerView { peer, window_started: now as int, attempts: 0, active: 0 }));
                }
                self.peers.len() - 1
            },
        };
        let ghost t2 = self@;
        proof {
            assert(t2[i as int].peer == peer);
            assert forall|a: int, b: int|
                0 <= a < t2.len() && 0 <= b < t2.len() && a != b implies t2[a].peer != t2[b].peer by {
                if a < t1.len() && b < t1.len() {
                    assert(t2[a] == t1[a] && t2[b] == t1[b]);
                } else if a < t1.len() {
                    assert(t2[a] == t1[a]);
                    assert(t1[a].peer != peer);
                } else if b < t1.len() {
                    assert(t2[b] == t1[b]);
                    assert(t1[b].peer != peer);
                }
            }
            let c = choose|c: int| 0 <= c < t2.len() && #[trigger] t2[c].peer == peer;
            assert(c == i);
        }
        let mut s = self.peers[i];
        let elapsed: u64 = if now >= s.window_started {
            now - s.window_started
        } else {
            0
        };
        if elapsed >= PEER_ATTEMPT_WINDOW_MILLISECONDS {
            s.window_started = now;
            s.attempts = 0;
        }
        if s.attempts >= MAX_CONNECTION_ATTEMPTS_PER_PEER_WINDOW {
            self.peers.set(i, s);
            proof {
                assert(self@ =~= t2.update(i as int, s@));
            }
            return Err(LanError::PeerLimitReached);
        }
        s.attempts = s.attempts + 1;
        if s.active >= MAX_ACTIVE_CONNECTIONS_PER_PEER {
            self.peers.set(i, s);
            proof {
                assert(self@ =~= t2.update(i as int, s@));
            }
            return Err(LanError::PeerLimitReached);
        }
        s.active = s.active + 1;
        self.peers.set(i, s);
        proof {
            assert(self@ =~= t2.update(i as int, s@));
        }
        Ok(())
    }

    /// Ends one active connection of `peer`.
    pub fn release(&mut self, peer: LanIp)
        requires
            old(self).wf(),
        ensures
            final(self).wf(),
            final(self)@ == release_model(old(self)@, peer),
    {
        let ghost t = self@;
        match self.find(peer) {
            Some(i) => {
                proof {
                    assert(t[i as int].peer == peer);
                    assert(has_peer(t, peer));
                    let c = choose|c: int| 0 <= c < t.len() && #[trigger] t[c].peer == peer;
                    assert(c == i);
                }
                let mut s = self.peers[i];
                s.active = if s.active > 0 {
                    s.active - 1
                } else {
                    0
                };
                self.peers.set(i, s);
                proof {
                    assert(self@ =~= t.update(i as int, s@));
                    assert(peer_index(t, peer) == i);
                    let o = t[i as int];
                    assert(s@ == PeerView { active: if o.active > 0 { o.active - 1 } else { 0 }, ..o });
                    assert(self@ == release_model(t, peer));
                }
            },
            None => {},
        }
    }
}

/// Filtering the table keeps it well formed.
pub proof fn lemma_peer_filter(t: Seq<PeerView>, p: spec_fn(PeerView) -> bool)
    requires
        table_wf(t),
    ensures
        table_wf(t.filter(p)),
        t.filter(p).len() <= t.len(),
    decreases t.len(),
{
    reveal(Seq::filter);
    if t.len() > 0 {
        let r = t.drop_last();
        assert(table_wf(r)) by {
            assert forall|i: int| 0 <= i < r.len() implies #[trigger] r[i].active
                <= MAX_ACTIVE_CONNECTIONS_PER_PEER && r[i].attempts
                <= MAX_CONNECTION_ATTEMPTS_PER_PEER_WINDOW && r[i].active >= 0 && r[i].attempts >= 0
                && 0 <= r[i].window_started <= u64::MAX by {
                assert(r[i] == t[i]);
            }
            assert forall|i: int, j: int|
                0 <= i < r.len() && 0 <= j < r.len() && i != j implies r[i].peer != r[j].peer by {
                assert(r[i] == t[i] && r[j] == t[j]);
            }
        }
        lemma_peer_filter(r, p);
        let f0 = r.filter(p);
        let f = t.filter(p);
        if p(t.last()) {
            assert forall|k: int| 0 <= k < f0.len() implies f0[k].peer != t.last().peer by {
                r.lemma_filter_contains_rev(p, f0[k]);
                let j = choose|j: int| 0 <= j < r.len() && r[j] == f0[k];
                assert(r[j] == t[j]);
            }
            assert forall|i: int| 0 <= i < f.len() implies #[trigger] f[i].active
                <= MAX_ACTIVE_CONNECTIONS_PER_PEER && f[i].attempts
                <= MAX_CONNECTION_ATTEMPTS_PER_PEER_WINDOW && f[i].active >= 0 && f[i].attempts >= 0
                && 0 <= f[i].window_started <= u64::MAX by {
                if i < f0.len() {
                    assert(f[i] == f0[i]);
                } else {
                    assert(f[i] == t[t.len() - 1]);
                }
            }
            assert forall|i: int, j: int|
                0 <= i < f.len() && 0 <= j < f.len() && i != j implies f[i].peer != f[j].peer by {
                if i < f0.len() && j < f0.len() {
                    assert(f[i] == f0[i] && f[j] == f0[j]);
                } else if i < f0.len() {
                    assert(f[i] == f0[i]);
                } else if j < f0.len() {
                    assert(f[j] == f0[j]);
                }
            }
        }
    }
}

/// The attempt window of one known peer at `now`: inside its window a peer
/// that has used all its attempts is refused; a peer with an active
/// connection is refused; otherwise an inactive peer is admitted, counting
/// the attempt in its running window, or in a fresh window once a full
/// window has passed.
pub proof fn law_peer_window(t: Seq<PeerView>, peer: LanIp, now: int)
    requires
        table_wf(t),
        has_peer(t, peer),
        0 <= now <= u64::MAX,
    ensures
        ({
            let s = t[peer_index(t, peer)];
            let r = reserve_model(t, peer, now);
            &&& !window_due(s, now) && s.attempts >= MAX_CONNECTION_ATTEMPTS_PER_PEER_WINDOW ==> r.0
                == Err::<(), LanError>(LanError::PeerLimitReached)
            &&& s.active >= 1 ==> r.0 == Err::<(), LanError>(LanError::PeerLimitReached)
            &&& !window_due(s, now) && s.attempts < MAX_CONNECTION_ATTEMPTS_PER_PEER_WINDOW
                && s.active == 0 ==> r.0 == Ok::<(), LanError>(()) && has_peer(r.1, peer)
                && r.1[peer_index(r.1, peer)] == (PeerView {
                attempts: s.attempts + 1,
                active: 1,
                ..s
            })
            &&& window_due(s, now) && s.active == 0 ==> r.0 == Ok::<(), LanError>(()) && has_peer(
                r.1,
                peer,
            ) && r.1[peer_index(r.1, peer)] == (PeerView {
                peer,
                window_started: now,
                attempts: 1,
                active: 1,
            })
        }),
{
    let i = peer_index(t, peer);
    let s = t[i];
    let p = peer_kept(now);
    let t1 = t.filter(p);
    lemma_peer_filter(t, p);
    if p(s) {
        t.lemma_filter_contains(p, i);
        let k = choose|k: int| 0 <= k < t1.len() && t1[k] == s;
        assert(has_peer(t1, peer));
        let j = peer_index(t1, peer);
        assert(t1[j] == s);
        let r = reserve_model(t, peer, now);
        if r.0 is Ok {
            assert(r.1[j].peer == peer);
            assert(has_peer(r.1, peer));
            let m = peer_index(r.1, peer);
            assert(m == j);
        }
    } else {
        assert(!has_peer(t1, peer)) by {
            if has_peer(t1, peer) {
                let k = peer_index(t1, peer);
                assert(t1.contains(t1[k]));
                t.lemma_filter_contains_rev(p, t1[k]);
                let a = choose|a: int| 0 <= a < t.len() && t[a] == t1[k];
                t.lemma_filter_pred(p, k);
            }
        }
        assert(t1.len() < t.len()) by {
            assert(t1.len() <= t.len());
            if t1.len() == t.len() {
                assert forall|a: int| 0 <= a < t.len() implies p(t[a]) by {
                    lemma_filter_full(t, p, a);
                }
            }
        }
        let t2 = t1.push(PeerView { peer, window_started: now, attempts: 0, active: 0 });
        assert(t2[t1.len() as int].peer == peer);
        assert(has_peer(t2, peer));
        let j = peer_index(t2, peer);
        assert(j == t1.len()) by {
            if j < t1.len() {
                assert(t2[j] == t1[j]);
            }
        }
        let r = reserve_model(t, peer, now);
        assert(r.1[j].peer == peer);
        assert(has_peer(r.1, peer));
        let m = peer_index(r.1, peer);
        assert(m == j) by {
            if m != j {
                assert(r.1[m] == t1[m]);
            }
        }
    }
}

/// A filter that keeps every element's count drops nothing.
proof fn lemma_filter_full(t: Seq<PeerView>, p: spec_fn(PeerView) -> bool, a: int)
    requires
        0 <= a < t.len(),
        t.filter(p).len() == t.len(),
    ensures
        p(t[a]),
    decreases t.len(),
{
    reveal(Seq::filter);
    let r = t.drop_last();
    r.filter_lemma(p);
    if p(t.last()) {
        if a < t.len() - 1 {
            assert(r.filter(p).len() == r.len());
            lemma_filter_full(r, p, a);
            assert(r[a] == t[a]);
        }
    } else {
        assert(r.filter(p).len() <= r.len());
    }
}

/// A filter that keeps every element gives the sequence back.
proof fn lemma_filter_all(t: Seq<PeerView>, p: spec_fn(PeerView) -> bool)
    requires
        forall|a: int| 0 <= a < t.len() ==> p(#[trigger] t[a]),
    ensures
        t.filter(p) == t,
    decreases t.len(),
{
    reveal(Seq::filter);
    if t.len() > 0 {
        let r = t.drop_last();
        assert forall|a: int| 0 <= a < r.len() implies p(#[trigger] r[a]) by {
            assert(r[a] == t[a]);
        }
        lemma_filter_all(r, p);
        assert(t.last() == t[t.len() - 1]);
        assert(r.push(t.last()) =~= t);
    }
}

/// The table holds a fixed number of peers: when every tracked slot belongs
/// to a peer with an active connection, a new peer is refused.
pub proof fn law_peer_table_full(t: Seq<PeerView>, peer: LanIp, now: int)
    requires
        table_wf(t),
        t.len() == MAX_TRACKED_PEERS,
        forall|a: int| 0 <= a < t.len() ==> (#[trigger] t[a]).active > 0,
        !has_peer(t, peer),
    ensures
        reserve_model(t, peer, now).0 == Err::<(), LanError>(LanError::PeerLimitReached),
{
    let p = peer_kept(now);
    assert forall|a: int| 0 <= a < t.len() implies p(#[trigger] t[a]) by {}
    lemma_filter_all(t, p);
}

/// A held connection blocks its peer until it is released: right after a
/// reservation of `peer` at `now` is admitted, the peer holds one active
/// connection and a second reservation at any `later` time is refused; once
/// the connection is released, a reservation at `later` is admitted when a
/// full window has passed since the peer's window started or the window
/// still has attempts left.
pub proof fn law_peer_lease(t: Seq<PeerView>, peer: LanIp, now: int, later: int)
    requires
        table_wf(t),
        table_wf(reserve_model(t, peer, now).1),
        0 <= now <= later <= u64::MAX,
        reserve_model(t, peer, now).0 is Ok,
    ensures
        ({
            let held = reserve_model(t, peer, now).1;
            let s = held[peer_index(held, peer)];
            &&& has_peer(held, peer)
            &&& s.active == 1
            &&& reserve_model(held, peer, later).0 == Err::<(), LanError>(LanError::PeerLimitReached)
            &&& window_due(s, later) || s.attempts < MAX_CONNECTION_ATTEMPTS_PER_PEER_WINDOW
                ==> reserve_model(release_model(held, peer), peer, later).0 == Ok::<(), LanError>(())
        }),
{
    let held = reserve_model(t, peer, now).1;
    let t1 = t.filter(peer_kept(now));
    lemma_peer_filter(t, peer_kept(now));
    let t2 = if has_peer(t1, peer) {
        t1
    } else {
        t1.push(PeerView { peer, window_started: now, attempts: 0, active: 0 })
    };
    if !has_peer(t1, peer) {
        assert(t2[t1.len() as int].peer == peer);
    }
    assert(has_peer(t2, peer));
    let i = peer_index(t2, peer);
    assert(held[i].peer == peer);
    assert(has_peer(held, peer));
    let h = peer_index(held, peer);
    assert(h == i);
    assert(held[h].active == 1);
    law_peer_window(held, peer, later);
    let s = held[h];
    let freed = release_model(held, peer);
    let s0 = PeerView { active: 0, ..s };
    assert(freed == held.update(h, s0));
    assert(table_wf(freed)) by {
        assert forall|a: int| 0 <= a < freed.len() implies #[trigger] freed[a].active
            <= MAX_ACTIVE_CONNECTIONS_PER_PEER && freed[a].attempts
            <= MAX_CONNECTION_ATTEMPTS_PER_PEER_WINDOW && freed[a].active >= 0 && freed[a].attempts
            >= 0 && 0 <= freed[a].window_started <= u64::MAX by {
            if a != h {
                assert(freed[a] == held[a]);
            }
        }
        assert forall|a: int, b: int|
            0 <= a < freed.len() && 0 <= b < freed.len() && a != b implies freed[a].peer
            != freed[b].peer by {
            assert(freed[a].peer == held[a].peer);
            assert(freed[b].peer == held[b].peer);
        }
    }
    assert(freed[h].peer == peer);
    assert(has_peer(freed, peer));
    assert(peer_index(freed, peer) == h);
    law_peer_window(freed, peer, later);
}

/// Releasing a connection of `peer` changes nothing but that peer's active
/// count, which drops by one and never below zero; an untracked peer leaves
/// the table as it was.
pub proof fn law_release(t: Seq<PeerView>, peer: LanIp)
    requires
        table_wf(t),
    ensures
        release_model(t, peer).len() == t.len(),
        !has_peer(t, peer) ==> release_model(t, peer) == t,
        forall|i: int|
            0 <= i < t.len() && t[i].peer != peer ==> #[trigger] release_model(t, peer)[i] == t[i],
        forall|i: int|
            0 <= i < t.len() && t[i].peer == peer ==> {
                let r = #[trigger] release_model(t, peer)[i];
                &&& r.peer == peer
                &&& r.window_started == t[i].window_started
                &&& r.attempts == t[i].attempts
                &&& r.active == if t[i].active > 0 {
                    t[i].active - 1
                } else {
                    0
                }
            },
{
    if has_peer(t, peer) {
        let j = peer_index(t, peer);
        assert forall|i: int| 0 <= i < t.len() && t[i].peer == peer implies i == j by {
            if i != j {
                assert(t[i].peer != t[j].peer);
            }
        }
    }
}

} // verus!
