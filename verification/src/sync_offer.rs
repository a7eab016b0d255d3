//! Which queued Envelopes a node offers to a peer in one sync batch. The
//! offer walks the offerable identifiers in ascending order, starting just
//! after the last identifier offered before, and wraps round, so that a
//! queue larger than one batch is offered in full over several encounters.
use vstd::prelude::*;

use crate::envelope::{seq_lex_lt, MessageId};
use crate::envelope::{lemma_lex_irreflexive, lemma_lex_total, lemma_lex_transitive};
use crate::queue::{
    entry_ids, entry_ok, entry_views, lemma_entry_filter, queue_wf, EntryView, EnvelopeQueue, QueueView,
};

verus! {

/// An entry that may be offered at `now`: before its local deadline, with a
/// copy to spare for the receiver, and a hop left.
pub open spec fn offerable(now: int) -> spec_fn(EntryView) -> bool {
    |e: EntryView|
        e.route.local_deadline > now && e.route.copies_left > 1 && e.route.hops_taken
            < e.envelope.max_hops
}

/// The byte views of a sequence of identifiers.
pub open spec fn id_views(s: Seq<MessageId>) -> Seq<Seq<u8>> {
    s.map_values(|m: MessageId| m@)
}

/// The byte view of an optional identifier.
pub open spec fn cursor_view(c: Option<MessageId>) -> Option<Seq<u8>> {
    match c {
        Some(m) => Some(m@),
        None => None,
    }
}

/// Where `x` goes in `s` when `s` is scanned from its end for the last
/// identifier that does not come after `x`.
pub open spec fn id_insert_pos(s: Seq<Seq<u8>>, x: Seq<u8>) -> int
    decreases s.len(),
{
    if s.len() == 0 {
        0
    } else if seq_lex_lt(x, s.last()) {
        id_insert_pos(s.drop_last(), x)
    } else {
        s.len() as int
    }
}

/// Identifiers arranged in ascending order by insertion, one at a time.
pub open spec fn sort_ids(s: Seq<Seq<u8>>) -> Seq<Seq<u8>>
    decreases s.len(),
{
    if s.len() == 0 {
        s
    } else {
        let r = sort_ids(s.drop_last());
        r.insert(id_insert_pos(r, s.last()), s.last())
    }
}

/// The identifiers of the entries that may be offered at `now`, in
/// ascending order.
pub open spec fn offer_order(entries: Seq<EntryView>, now: int) -> Seq<Seq<u8>> {
    sort_ids(entry_ids(entries.filter(offerable(now))))
}

/// How many leading identifiers of `s` do not come after `c`.
pub open spec fn count_not_after(s: Seq<Seq<u8>>, c: Seq<u8>) -> int
    decreases s.len(),
{
    if s.len() == 0 {
        0
    } else if seq_lex_lt(c, s[0]) {
        0
    } else {
        1 + count_not_after(s.drop_first(), c)
    }
}

/// Where the round starts: just past the identifiers that do not come after
/// the last one offered.
pub open spec fn offer_start(order: Seq<Seq<u8>>, cursor: Option<Seq<u8>>) -> int {
    match cursor {
        Some(c) => count_not_after(order, c),
        None => 0,
    }
}

/// Up to `max` identifiers of `order`, taken from `start` and wrapping round.
pub open spec fn offer_rotation(order: Seq<Seq<u8>>, start: int, max: int) -> Seq<Seq<u8>> {
    let n = if max < order.len() {
        max
    } else {
        order.len() as int
    };
    (order.subrange(start, order.len() as int) + order.subrange(0, start)).take(n)
}

/// The identifiers chosen for one offer, in the order the round takes them.
pub open spec fn offer_chosen(
    entries: Seq<EntryView>,
    cursor: Option<Seq<u8>>,
    now: int,
    max: int,
) -> Seq<Seq<u8>> {
    let order = offer_order(entries, now);
    offer_rotation(order, offer_start(order, cursor), max)
}

/// Identifiers in strictly ascending order.
pub open spec fn ids_ascending(s: Seq<Seq<u8>>) -> bool {
    forall|i: int, j: int| 0 <= i < j < s.len() ==> seq_lex_lt(#[trigger] s[i], #[trigger] s[j])
}

/// Distinct identifiers of sixteen bytes each.
pub open spec fn ids_distinct16(s: Seq<Seq<u8>>) -> bool {
    &&& forall|i: int| 0 <= i < s.len() ==> (#[trigger] s[i]).len() == 16
    &&& forall|i: int, j: int| 0 <= i < s.len() && 0 <= j < s.len() && i != j ==> s[i] != s[j]
}

proof fn lemma_id_insert_pos(s: Seq<Seq<u8>>, x: Seq<u8>)
    ensures
        0 <= id_insert_pos(s, x) <= s.len(),
        forall|k: int| id_insert_pos(s, x) <= k < s.len() ==> seq_lex_lt(x, #[trigger] s[k]),
        id_insert_pos(s, x) > 0 ==> !seq_lex_lt(x, s[id_insert_pos(s, x) - 1]),
    decreases s.len(),
{
    if s.len() > 0 && seq_lex_lt(x, s.last()) {
        let t = s.drop_last();
        lemma_id_insert_pos(t, x);
        assert forall|k: int| id_insert_pos(s, x) <= k < s.len() implies seq_lex_lt(
            x,
            #[trigger] s[k],
        ) by {
            if k < t.len() {
                assert(t[k] == s[k]);
            }
        }
        if id_insert_pos(s, x) > 0 {
            assert(t[id_insert_pos(s, x) - 1] == s[id_insert_pos(s, x) - 1]);
        }
    }
}

/// Insertion sort of distinct sixteen-byte identifiers gives them back in
/// strictly ascending order.
pub proof fn lemma_sort_ids(s: Seq<Seq<u8>>)
    requires
        ids_distinct16(s),
    ensures
        sort_ids(s).len() == s.len(),
        ids_ascending(sort_ids(s)),
        forall|x: Seq<u8>| sort_ids(s).contains(x) <==> s.contains(x),
    decreases s.len(),
{
    if s.len() > 0 {
        let t = s.drop_last();
        let x = s.last();
        assert forall|i: int| 0 <= i < t.len() implies (#[trigger] t[i]).len() == 16 by {
            assert(t[i] == s[i]);
        }
        assert forall|i: int, j: int| 0 <= i < t.len() && 0 <= j < t.len() && i != j implies t[i]
            != t[j] by {
            assert(t[i] == s[i] && t[j] == s[j]);
        }
        lemma_sort_ids(t);
        let r = sort_ids(t);
        lemma_id_insert_pos(r, x);
        let pos = id_insert_pos(r, x);
        assert(!t.contains(x)) by {
            if t.contains(x) {
                let i = choose|i: int| 0 <= i < t.len() && t[i] == x;
                assert(s[i] == s[s.len() - 1]);
            }
        }
        assert forall|k: int| 0 <= k < r.len() implies (#[trigger] r[k]).len() == 16 && r[k] != x by {
            assert(r.contains(r[k]));
            assert(t.contains(r[k]));
            let i = choose|i: int| 0 <= i < t.len() && t[i] == r[k];
            assert(t[i] == s[i]);
        }
        assert forall|k: int| 0 <= k < pos implies seq_lex_lt(#[trigger] r[k], x) by {
            let last = r[pos - 1];
            lemma_lex_total(last, x);
            if k < pos - 1 {
                lemma_lex_transitive(r[k], last, x);
            }
        }
        let u = r.insert(pos, x);
        assert(sort_ids(s) == u);
        assert forall|i: int, j: int| 0 <= i < j < u.len() implies seq_lex_lt(
            #[trigger] u[i],
            #[trigger] u[j],
        ) by {
            if j < pos {
                assert(u[i] == r[i] && u[j] == r[j]);
            } else if j == pos {
                assert(u[i] == r[i]);
            } else if i < pos {
                assert(u[i] == r[i] && u[j] == r[j - 1]);
                lemma_lex_transitive(r[i], x, r[j - 1]);
            } else if i == pos {
                assert(u[j] == r[j - 1]);
            } else {
                assert(u[i] == r[i - 1] && u[j] == r[j - 1]);
            }
        }
        assert forall|y: Seq<u8>| u.contains(y) <==> s.contains(y) by {
            if u.contains(y) {
                let i = choose|i: int| 0 <= i < u.len() && u[i] == y;
                if i < pos {
                    assert(r.contains(r[i]));
                    assert(t.contains(r[i]));
                    let k = choose|k: int| 0 <= k < t.len() && t[k] == r[i];
                    assert(s[k] == t[k]);
                } else if i == pos {
                    assert(s[s.len() - 1] == y);
                } else {
                    assert(r.contains(r[i - 1]));
                    assert(t.contains(r[i - 1]));
                    let k = choose|k: int| 0 <= k < t.len() && t[k] == r[i - 1];
                    assert(s[k] == t[k]);
                }
            }
            if s.contains(y) {
                let i = choose|i: int| 0 <= i < s.len() && s[i] == y;
                if i < t.len() {
                    assert(t[i] == y);
                    assert(t.contains(y));
                    assert(r.contains(y));
                    let k = choose|k: int| 0 <= k < r.len() && r[k] == y;
                    if k < pos {
                        assert(u[k] == y);
                    } else {
                        assert(u[k + 1] == y);
                    }
                } else {
                    assert(u[pos] == y);
                }
            }
        }
    }
}

/// In strictly ascending identifiers, exactly the first `i + 1` do not come
/// after the one at `i`.
proof fn lemma_count_at(s: Seq<Seq<u8>>, i: int)
    requires
        ids_ascending(s),
        0 <= i < s.len(),
    ensures
        count_not_after(s, s[i]) == i + 1,
    decreases i,
{
    let d = s.drop_first();
    if i == 0 {
        lemma_lex_irreflexive(s[0]);
        if d.len() > 0 {
            assert(d[0] == s[1]);
            assert(seq_lex_lt(s[0], s[1]));
        }
        assert(count_not_after(d, s[0]) == 0);
    } else {
        assert(seq_lex_lt(s[0], s[i]));
        if seq_lex_lt(s[i], s[0]) {
            lemma_lex_transitive(s[0], s[i], s[0]);
            lemma_lex_irreflexive(s[0]);
        }
        assert forall|a: int, b: int| 0 <= a < b < d.len() implies seq_lex_lt(
            #[trigger] d[a],
            #[trigger] d[b],
        ) by {
            assert(d[a] == s[a + 1] && d[b] == s[b + 1]);
        }
        assert(d[i - 1] == s[i]);
        lemma_count_at(d, i - 1);
        assert(count_not_after(s, s[i]) == 1 + count_not_after(d, s[i]));
    }
}

proof fn lemma_count_not_after_range(s: Seq<Seq<u8>>, c: Seq<u8>)
    ensures
        0 <= count_not_after(s, c) <= s.len(),
    decreases s.len(),
{
    if s.len() > 0 {
        lemma_count_not_after_range(s.drop_first(), c);
    }
}

/// The offerable identifiers of a well-formed queue are distinct sixteen-byte
/// identifiers, and their offer order is strictly ascending.
pub proof fn lemma_offer_order(q: QueueView, now: int)
    requires
        queue_wf(q),
    ensures
        ids_ascending(offer_order(q.entries, now)),
        offer_order(q.entries, now).len() == q.entries.filter(offerable(now)).len(),
{
    let f = q.entries.filter(offerable(now));
    lemma_entry_filter(q.entries, offerable(now));
    let ids = entry_ids(f);
    assert forall|i: int| 0 <= i < ids.len() implies (#[trigger] ids[i]).len() == 16 by {
        let j = choose|j: int| 0 <= j < q.entries.len() && q.entries[j] == f[i];
        assert(entry_ok(q.entries[j]));
    }
    lemma_sort_ids(ids);
}

/// Successive offers go round the queue: when an offer takes something and
/// the cursor then stands at the last identifier it took, the next offer
/// over the same queue and time is the round that starts right after the
/// first one ended.
pub proof fn law_offer_resumes(q: QueueView, cursor: Option<Seq<u8>>, now: int, max: int)
    requires
        queue_wf(q),
        0 <= max,
        offer_chosen(q.entries, cursor, now, max).len() > 0,
    ensures
        ({
            let order = offer_order(q.entries, now);
            let chosen = offer_chosen(q.entries, cursor, now, max);
            offer_chosen(q.entries, Some(chosen.last()), now, max) == offer_rotation(
                order,
                (offer_start(order, cursor) + chosen.len()) % (order.len() as int),
                max,
            )
        }),
{
    let order = offer_order(q.entries, now);
    let n = order.len() as int;
    let chosen = offer_chosen(q.entries, cursor, now, max);
    let start = offer_start(order, cursor);
    lemma_offer_order(q, now);
    match cursor {
        Some(c) => lemma_count_not_after_range(order, c),
        None => {},
    }
    assert(0 <= start <= n);
    let len = chosen.len() as int;
    let rot = order.subrange(start, n) + order.subrange(0, start);
    assert(rot.len() == n);
    let taken = if max < n {
        max
    } else {
        n
    };
    assert(chosen == rot.take(taken));
    assert(len == taken);
    assert(chosen.last() == rot[len - 1]);
    let m = if start + len - 1 < n {
        start + len - 1
    } else {
        start + len - 1 - n
    };
    assert(rot[len - 1] == order[m]);
    lemma_count_at(order, m);
    assert(offer_start(order, Some(chosen.last())) == m + 1);
    if m + 1 < n {
        if start + len < n {
            assert((start + len) % n == start + len) by (nonlinear_arith)
                requires
                    0 <= start + len < n,
            ;
        } else {
            assert((start + len) % n == start + len - n) by (nonlinear_arith)
                requires
                    n <= start + len < 2 * n,
            ;
        }
    } else {
        if start + len == n {
            assert((start + len) % n == 0) by (nonlinear_arith)
                requires
                    start + len == n,
                    n > 0,
            ;
        } else {
            assert((start + len) % n == 0) by (nonlinear_arith)
                requires
                    start + len == 2 * n,
                    n > 0,
            ;
        }
        assert(order.subrange(n, n) + order.subrange(0, n) =~= order.subrange(0, n)
            + order.subrange(0, 0));
    }
}

/// Inserts `id` into `sorted` where `sort_ids` puts it.
fn insert_by_id(sorted: &mut Vec<MessageId>, id: MessageId)
    ensures
        id_views(final(sorted)@) == id_views(old(sorted)@).insert(
            id_insert_pos(id_views(old(sorted)@), id@),
            id@,
        ),
{
    let ghost s = id_views(sorted@);
    let mut p: usize = sorted.len();
    assert(s.take(p as int) =~= s);
    while p > 0 && id.precedes(&sorted[p - 1])
        invariant
            p <= sorted.len(),
            s == id_views(sorted@),
            id_insert_pos(s, id@) == id_insert_pos(s.take(p as int), id@),
        decreases p,
    {
        proof {
            assert(s.take(p as int).drop_last() =~= s.take(p - 1));
            assert(s.take(p as int).last() == sorted@[p - 1]@);
        }
        p -= 1;
    }
    proof {
        if p > 0 {
            assert(s.take(p as int).last() == sorted@[p - 1]@);
        }
    }
    sorted.insert(p, id);
    proof {
        assert(id_views(sorted@) =~= s.insert(p as int, id@));
    }
}

/// The identifiers in `ids`, in ascending order.
fn sorted_ids(ids: &Vec<MessageId>) -> (sorted: Vec<MessageId>)
    ensures
        id_views(sorted@) == sort_ids(id_views(ids@)),
{
    let ghost s = id_views(ids@);
    let mut sorted: Vec<MessageId> = Vec::new();
    let mut j: usize = 0;
    proof {
        assert(s.take(0) =~= Seq::<Seq<u8>>::empty());
        assert(id_views(sorted@) =~= Seq::<Seq<u8>>::empty());
    }
    while j < ids.len()
        invariant
            j <= ids.len(),
            s == id_views(ids@),
            id_views(sorted@) == sort_ids(s.take(j as int)),
        decreases ids.len() - j,
    {
        proof {
            assert(s.take(j + 1).drop_last() =~= s.take(j as int));
            assert(s.take(j + 1).last() == ids@[j as int]@);
        }
        insert_by_id(&mut sorted, ids[j]);
        j += 1;
    }
    proof {
        assert(s.take(j as int) =~= s);
    }
    sorted
}

/// The identifiers of the offerable entries in ascending order.
fn offerable_ids(queue: &EnvelopeQueue, now: u64) -> (order: Vec<MessageId>)
    ensures
        id_views(order@) == offer_order(queue@.entries, now as int),
{
    let entries = queue.entry_slice();
    let ghost es = queue@.entries;
    let ghost p = offerable(now as int);
    let mut order: Vec<MessageId> = Vec::new();
    let mut i: usize = 0;
    proof {
        reveal(Seq::filter);
        assert(es.take(0) =~= Seq::<EntryView>::empty());
        assert(entry_ids(es.take(0).filter(p)) =~= Seq::<Seq<u8>>::empty());
        assert(id_views(order@) =~= Seq::<Seq<u8>>::empty());
    }
    while i < entries.len()
        invariant
            i <= entries.len(),
            entry_views(entries@) == es,
            p == offerable(now as int),
            id_views(order@) == sort_ids(entry_ids(es.take(i as int).filter(p))),
        decreases entries.len() - i,
    {
        let entry = &entries[i];
        let route = entry.route();
        let id = entry.envelope().message_id();
        let keep = route.local_deadline() > now && route.copies_left() > 1 && route.hops_taken()
            < entry.envelope().max_hops().get();
        let ghost before = entry_ids(es.take(i as int).filter(p));
        proof {
            reveal(Seq::filter);
            assert(es[i as int] == entry@);
            assert(es.take(i + 1).drop_last() =~= es.take(i as int));
            assert(es.take(i + 1).last() == entry@);
            assert(keep == p(entry@));
        }
        if keep {
            proof {
                let f = es.take(i + 1).filter(p);
                assert(f =~= es.take(i as int).filter(p).push(entry@));
                assert(entry_ids(f) =~= before.push(id@));
                assert(entry_ids(f).drop_last() =~= before);
            }
            insert_by_id(&mut order, id);
        } else {
            proof {
                assert(es.take(i + 1).filter(p) =~= es.take(i as int).filter(p));
            }
        }
        i += 1;
    }
    proof {
        assert(es.take(i as int) =~= es);
    }
    order
}

/// Chooses the identifiers to offer in one sync batch: up to `max_offered`
/// of the offerable entries at `now`, taken in ascending order from just
/// after `cursor` and wrapping round, returned in ascending order. The
/// cursor moves to the last identifier taken; it stays as it was when
/// nothing can be offered.
pub fn select_sync_offer_ids(
    queue: &EnvelopeQueue,
    cursor: &mut Option<MessageId>,
    now: u64,
    max_offered: usize,
) -> (offered: Vec<MessageId>)
    ensures
        id_views(offered@) == sort_ids(
            offer_chosen(queue@.entries, cursor_view(*old(cursor)), now as int, max_offered as int),
        ),
        offer_order(queue@.entries, now as int).len() == 0 ==> *final(cursor) == *old(cursor),
        offer_order(queue@.entries, now as int).len() > 0 ==> cursor_view(*final(cursor)) == (if offer_chosen(
            queue@.entries,
            cursor_view(*old(cursor)),
            now as int,
            max_offered as int,
        ).len() == 0 {
            None
        } else {
            Some(
                offer_chosen(
                    queue@.entries,
                    cursor_view(*old(cursor)),
                    now as int,
                    max_offered as int,
                ).last(),
            )
        }),
{
    let eligible = offerable_ids(queue, now);
    let ghost order = id_views(eligible@);
    let ghost old_cursor = cursor_view(*cursor);
    let n = eligible.len();
    if n == 0 {
        proof {
            assert(offer_chosen(queue@.entries, old_cursor, now as int, max_offered as int)
                =~= Seq::<Seq<u8>>::empty());
        }
        return Vec::new();
    }
    let mut start: usize = 0;
    match *cursor {
        Some(c) => {
            assert(order.subrange(0, n as int) =~= order);
            while start < n && !c.precedes(&eligible[start])
                invariant
                    start <= n,
                    n == eligible.len(),
                    order == id_views(eligible@),
                    count_not_after(order, c@) == start + count_not_after(
                        order.subrange(start as int, n as int),
                        c@,
                    ),
                decreases n - start,
            {
                proof {
                    let rest = order.subrange(start as int, n as int);
                    assert(rest[0] == eligible@[start as int]@);
                    assert(rest.drop_first() =~= order.subrange(start + 1, n as int));
                }
                start += 1;
            }
            proof {
                let rest = order.subrange(start as int, n as int);
                if start < n {
                    assert(rest[0] == eligible@[start as int]@);
                }
            }
        },
        None => {},
    }
    assert(start as int == offer_start(order, old_cursor));
    let count: usize = if max_offered < n {
        max_offered
    } else {
        n
    };
    let ghost rot = order.subrange(start as int, n as int) + order.subrange(0, start as int);
    let mut chosen: Vec<MessageId> = Vec::new();
    let mut k: usize = 0;
    while k < count
        invariant
            k <= count <= n,
            start <= n,
            n == eligible.len(),
            order == id_views(eligible@),
            rot == order.subrange(start as int, n as int) + order.subrange(0, start as int),
            id_views(chosen@) == rot.take(k as int),
        decreases count - k,
    {
        let index: usize = if k < n - start {
            start + k
        } else {
            k - (n - start)
        };
        proof {
            assert(rot[k as int] == order[index as int]);
            assert(rot.take(k + 1) =~= rot.take(k as int).push(order[index as int]));
        }
        chosen.push(eligible[index]);
        proof {
            assert(id_views(chosen@) =~= rot.take(k as int).push(order[index as int]));
        }
        k += 1;
    }
    assert(id_views(chosen@) == offer_chosen(queue@.entries, old_cursor, now as int, max_offered as int));
    if count > 0 {
        *cursor = Some(chosen[count - 1]);
    } else {
        *cursor = None;
    }
    sorted_ids(&chosen)
}

} // verus!
