//! What the queue operations keep: entries stay live after an enqueue, and
//! no tombstone ever holds the identifier of an active entry.
use vstd::prelude::*;

use crate::queue::{
    remove_opened_model,
    deadline_fits, entry_due, entry_ids, entry_live, entry_ok, enqueue_model, eviction_count_from, expire_state,
    fifo_insert_pos, has_active_tomb, has_entry, has_tomb, is_oldest, lemma_entry_filter,
    lemma_eviction_count_range, lemma_fifo_insert_pos_range, lemma_key_total,
    lemma_key_transitive, lemma_tomb_filter, queue_wf, record_all, record_lt, record_tomb,
    tomb_active, tomb_ids_unique, tombs_exclude_entries, tombs_ok, EntryView, QueueView,
    TombstoneView,
};

verus! {

/// Each tombstone of `r` was already in `ts`, or is a new one for one of
/// `ids` that expires at `deadline`.
pub open spec fn tombs_from(
    r: Seq<TombstoneView>,
    ts: Seq<TombstoneView>,
    ids: Seq<Seq<u8>>,
    deadline: int,
) -> bool {
    forall|k: int|
        0 <= k < r.len() ==> ts.contains(#[trigger] r[k]) || (ids.contains(r[k].message_id)
            && r[k].expires_at == deadline)
}

proof fn lemma_exists_oldest(ts: Seq<TombstoneView>)
    requires
        tombs_ok(ts),
        ts.len() > 0,
    ensures
        exists|m: int| is_oldest(ts, m),
    decreases ts.len(),
{
    if ts.len() == 1 {
        assert(is_oldest(ts, 0));
    } else {
        let r = ts.drop_last();
        assert(tombs_ok(r)) by {
            assert forall|i: int| 0 <= i < r.len() implies (#[trigger] r[i]).message_id.len() == 16 by {
                assert(r[i] == ts[i]);
            }
            assert forall|a: int, b: int|
                0 <= a < r.len() && 0 <= b < r.len() && a != b implies r[a].message_id
                != r[b].message_id by {
                assert(r[a] == ts[a] && r[b] == ts[b]);
            }
        }
        lemma_exists_oldest(r);
        let m0 = choose|m: int| is_oldest(r, m);
        let last = ts.len() - 1;
        let a = ts[m0];
        let b = ts[last];
        assert(a == r[m0]);
        lemma_key_total(a.recorded_at, a.message_id, b.recorded_at, b.message_id);
        if record_lt(a, b) {
            assert forall|j: int| 0 <= j < ts.len() && j != m0 implies #[trigger] record_lt(
                ts[m0],
                ts[j],
            ) by {
                if j < last {
                    assert(ts[j] == r[j]);
                }
            }
            assert(is_oldest(ts, m0));
        } else {
            assert(record_lt(b, a));
            assert forall|j: int| 0 <= j < ts.len() && j != last implies #[trigger] record_lt(
                ts[last],
                ts[j],
            ) by {
                assert(ts[j] == r[j]);
                if j != m0 {
                    assert(record_lt(r[m0], r[j]));
                    lemma_key_transitive(
                        b.recorded_at,
                        b.message_id,
                        a.recorded_at,
                        a.message_id,
                        ts[j].recorded_at,
                        ts[j].message_id,
                    );
                }
            }
            assert(is_oldest(ts, last));
        }
    }
}

proof fn lemma_record_tomb_from(
    ts: Seq<TombstoneView>,
    id: Seq<u8>,
    at: int,
    deadline: int,
    max: int,
)
    requires
        tombs_ok(ts),
        id.len() == 16,
    ensures
        tombs_ok(record_tomb(ts, id, at, deadline, max).0),
        tombs_from(record_tomb(ts, id, at, deadline, max).0, ts, seq![id], deadline),
{
    let r = record_tomb(ts, id, at, deadline, max).0;
    let t = TombstoneView { message_id: id, recorded_at: at, expires_at: deadline };
    assert(seq![id].contains(id)) by {
        assert(seq![id][0] == id);
    }
    if has_tomb(ts, id) {
        let i = choose|i: int| 0 <= i < ts.len() && #[trigger] ts[i].message_id == id;
        assert(r == ts.update(i, t));
        assert forall|k: int| 0 <= k < r.len() implies ts.contains(#[trigger] r[k]) || (seq![
            id,
        ].contains(r[k].message_id) && r[k].expires_at == deadline) by {
            if k != i {
                assert(r[k] == ts[k]);
            }
        }
        assert forall|a: int, b: int|
            0 <= a < r.len() && 0 <= b < r.len() && a != b implies r[a].message_id
            != r[b].message_id by {
            assert(r[a].message_id == ts[a].message_id);
            assert(r[b].message_id == ts[b].message_id);
        }
    } else if ts.len() >= max && ts.len() > 0 {
        lemma_exists_oldest(ts);
        let m = choose|m: int| is_oldest(ts, m);
        let u = ts.remove(m);
        assert(r == u.push(t));
        assert forall|k: int| 0 <= k < u.len() implies ts.contains(#[trigger] u[k]) by {
            if k < m {
                assert(u[k] == ts[k]);
            } else {
                assert(u[k] == ts[k + 1]);
            }
        }
        assert forall|k: int| 0 <= k < r.len() implies ts.contains(#[trigger] r[k]) || (seq![
            id,
        ].contains(r[k].message_id) && r[k].expires_at == deadline) by {
            if k < u.len() {
                assert(r[k] == u[k]);
            }
        }
        assert forall|a: int, b: int|
            0 <= a < r.len() && 0 <= b < r.len() && a != b implies r[a].message_id
            != r[b].message_id by {
            if a < u.len() && b < u.len() {
                let ia = if a < m { a } else { a + 1 };
                let ib = if b < m { b } else { b + 1 };
                assert(r[a] == ts[ia] && r[b] == ts[ib]);
            } else if a < u.len() {
                let ia = if a < m { a } else { a + 1 };
                assert(r[a] == ts[ia]);
            } else if b < u.len() {
                let ib = if b < m { b } else { b + 1 };
                assert(r[b] == ts[ib]);
            }
        }
        assert forall|k: int| 0 <= k < r.len() implies (#[trigger] r[k]).message_id.len() == 16 by {
            if k < u.len() {
                let ik = if k < m { k } else { k + 1 };
                assert(r[k] == ts[ik]);
            }
        }
    } else {
        assert(r == ts.push(t));
        assert forall|k: int| 0 <= k < r.len() implies ts.contains(#[trigger] r[k]) || (seq![
            id,
        ].contains(r[k].message_id) && r[k].expires_at == deadline) by {
            if k < ts.len() {
                assert(r[k] == ts[k]);
            }
        }
        assert forall|a: int, b: int|
            0 <= a < r.len() && 0 <= b < r.len() && a != b implies r[a].message_id
            != r[b].message_id by {
            if a < ts.len() && b < ts.len() {
                assert(r[a] == ts[a] && r[b] == ts[b]);
            } else if a < ts.len() {
                assert(r[a] == ts[a]);
            } else if b < ts.len() {
                assert(r[b] == ts[b]);
            }
        }
        assert forall|k: int| 0 <= k < r.len() implies (#[trigger] r[k]).message_id.len() == 16 by {
            if k < ts.len() {
                assert(r[k] == ts[k]);
            }
        }
    }
}

proof fn lemma_record_all_from(
    ts: Seq<TombstoneView>,
    ids: Seq<Seq<u8>>,
    at: int,
    deadline: int,
    max: int,
)
    requires
        tombs_ok(ts),
        forall|i: int| 0 <= i < ids.len() ==> (#[trigger] ids[i]).len() == 16,
    ensures
        tombs_ok(record_all(ts, ids, at, deadline, max).0),
        tombs_from(record_all(ts, ids, at, deadline, max).0, ts, ids, deadline),
    decreases ids.len(),
{
    if ids.len() > 0 {
        let d = ids.drop_last();
        assert forall|i: int| 0 <= i < d.len() implies (#[trigger] d[i]).len() == 16 by {
            assert(d[i] == ids[i]);
        }
        lemma_record_all_from(ts, d, at, deadline, max);
        let prev = record_all(ts, d, at, deadline, max).0;
        assert(ids.last() == ids[ids.len() - 1]);
        lemma_record_tomb_from(prev, ids.last(), at, deadline, max);
        let r = record_all(ts, ids, at, deadline, max).0;
        assert forall|k: int| 0 <= k < r.len() implies ts.contains(#[trigger] r[k]) || (
        ids.contains(r[k].message_id) && r[k].expires_at == deadline) by {
            if prev.contains(r[k]) {
                let j = choose|j: int| 0 <= j < prev.len() && prev[j] == r[k];
                if !ts.contains(prev[j]) {
                    let x = choose|x: int| 0 <= x < d.len() && d[x] == prev[j].message_id;
                    assert(ids[x] == d[x]);
                }
            } else {
                assert(seq![ids.last()].contains(r[k].message_id));
                assert(seq![ids.last()][0] == ids.last());
                assert(ids[ids.len() - 1] == r[k].message_id);
            }
        }
    } else {
        let r = record_all(ts, ids, at, deadline, max).0;
        assert forall|k: int| 0 <= k < r.len() implies ts.contains(#[trigger] r[k]) || (
        ids.contains(r[k].message_id) && r[k].expires_at == deadline) by {
            assert(r[k] == ts[k]);
        }
    }
}

/// What expiring at `at` keeps: live entries only, tombstones all active at
/// `at`, with distinct sixteen-byte identifiers, none of an active entry.
pub(crate) proof fn lemma_expire_keeps(q: QueueView, at: int)
    requires
        queue_wf(q),
        tombs_exclude_entries(q),
        tombs_ok(q.tombstones),
    ensures
        ({
            let s1 = expire_state(q, at);
            &&& forall|i: int| 0 <= i < s1.entries.len() ==> at < (#[trigger] s1.entries[i]).route.local_deadline
            &&& forall|i: int| 0 <= i < s1.entries.len() ==> entry_ok(#[trigger] s1.entries[i])
            &&& forall|a: int, b: int|
                0 <= a < s1.entries.len() && 0 <= b < s1.entries.len() && a != b
                    ==> s1.entries[a].envelope.message_id != s1.entries[b].envelope.message_id
            &&& forall|j: int| 0 <= j < s1.tombstones.len() ==> at < (#[trigger] s1.tombstones[j]).expires_at
            &&& tombs_ok(s1.tombstones)
            &&& tombs_exclude_entries(s1)
        }),
{
    let s1 = expire_state(q, at);
    let live = q.entries.filter(entry_live(at));
    let due = q.entries.filter(entry_due(at));
    let active = q.tombstones.filter(tomb_active(at));
    let deadline = at + q.limits.retention;
    lemma_entry_filter(q.entries, entry_live(at));
    lemma_entry_filter(q.entries, entry_due(at));
    lemma_tomb_filter(q.tombstones, tomb_active(at));
    assert(tombs_ok(active)) by {
        assert forall|i: int| 0 <= i < active.len() implies (#[trigger] active[i]).message_id.len() == 16 by {
            let j = choose|j: int| 0 <= j < q.tombstones.len() && q.tombstones[j] == active[i];
        }
    }
    let due_ids = entry_ids(due);
    assert forall|i: int| 0 <= i < due_ids.len() implies (#[trigger] due_ids[i]).len() == 16 by {
        let j = choose|j: int| 0 <= j < q.entries.len() && q.entries[j] == due[i];
        assert(entry_ok(q.entries[j]));
    }
    lemma_record_all_from(active, due_ids, at, deadline, q.limits.max_tombstones);
    assert(s1.entries == live);
    assert forall|i: int| 0 <= i < s1.entries.len() implies entry_ok(#[trigger] s1.entries[i]) by {
        let j = choose|j: int| 0 <= j < q.entries.len() && q.entries[j] == live[i];
    }
    assert forall|j: int| 0 <= j < s1.tombstones.len() implies at < (#[trigger] s1.tombstones[j]).expires_at by {
        let t = s1.tombstones[j];
        if active.contains(t) {
            let x = choose|x: int| 0 <= x < active.len() && active[x] == t;
        }
    }
    assert forall|i: int, j: int|
        0 <= i < s1.entries.len() && 0 <= j < s1.tombstones.len()
            implies #[trigger] s1.tombstones[j].message_id != #[trigger] s1.entries[i].envelope.message_id by {
        let t = s1.tombstones[j];
        let e = s1.entries[i];
        let a = choose|a: int| 0 <= a < q.entries.len() && q.entries[a] == live[i];
        if active.contains(t) {
            let x = choose|x: int| 0 <= x < active.len() && active[x] == t;
            let b = choose|b: int| 0 <= b < q.tombstones.len() && q.tombstones[b] == active[x];
            assert(q.tombstones[b].message_id != q.entries[a].envelope.message_id);
        } else {
            let y = choose|y: int| 0 <= y < due_ids.len() && due_ids[y] == t.message_id;
            let c = choose|c: int| 0 <= c < q.entries.len() && q.entries[c] == due[y];
            assert(entry_due(at)(due[y]));
            assert(entry_live(at)(live[i]));
            assert(c != a);
        }
    }
}

/// Every successful enqueue keeps the entries live and the tombstones apart
/// from them: afterwards each entry's local deadline lies after `at`, and no
/// tombstone holds the identifier of an active entry. The separation is part
/// of `EnvelopeQueue::wf`, which `new` establishes and every operation keeps,
/// together with the entry, byte and tombstone limits, stored entries,
/// distinct identifiers and the exact byte count: it holds of every queue
/// reached by any sequence of operations.
pub proof fn law_enqueue_keeps_entries_apart(q: QueueView, inc: EntryView, at: int)
    requires
        queue_wf(q),
        tombs_exclude_entries(q),
        tombs_ok(q.tombstones),
        inc.envelope.valid(),
        enqueue_model(q, inc, at).0 is Ok,
    ensures
        forall|i: int|
            0 <= i < enqueue_model(q, inc, at).1.entries.len() ==> at
                < (#[trigger] enqueue_model(q, inc, at).1.entries[i]).route.local_deadline,
        tombs_exclude_entries(enqueue_model(q, inc, at).1),
        tombs_ok(enqueue_model(q, inc, at).1.tombstones),
{
    let m = enqueue_model(q, inc, at);
    let s1 = expire_state(q, at);
    let id = inc.envelope.message_id;
    let deadline = at + q.limits.retention;
    let max_t = q.limits.max_tombstones;
    lemma_expire_keeps(q, at);
    if has_entry(s1.entries, id) || has_active_tomb(s1.tombstones, id, at) {
    } else if inc.route.local_deadline <= at {
        lemma_record_tomb_from(s1.tombstones, id, at, deadline, max_t);
        let r = record_tomb(s1.tombstones, id, at, deadline, max_t).0;
        assert(m.1.tombstones == r);
        assert forall|i: int, j: int|
            0 <= i < m.1.entries.len() && 0 <= j < m.1.tombstones.len()
                implies #[trigger] m.1.tombstones[j].message_id != #[trigger] m.1.entries[i].envelope.message_id by {
            let t = r[j];
            if s1.tombstones.contains(t) {
                let x = choose|x: int| 0 <= x < s1.tombstones.len() && s1.tombstones[x] == t;
                assert(s1.tombstones[x].message_id != s1.entries[i].envelope.message_id);
            } else {
                assert(seq![id][0] == id);
                assert(t.message_id == id);
            }
        }
    } else if inc.encoded_size > q.limits.max_bytes {
    } else {
        let k = eviction_count_from(s1.entries, 0, inc.encoded_size, q.limits);
        lemma_eviction_count_range(s1.entries, 0, inc.encoded_size, q.limits);
        let gone = s1.entries.take(k);
        let kept = s1.entries.skip(k);
        let gone_ids = entry_ids(gone);
        assert forall|i: int| 0 <= i < gone_ids.len() implies (#[trigger] gone_ids[i]).len() == 16 by {
            assert(gone[i] == s1.entries[i]);
            assert(entry_ok(s1.entries[i]));
        }
        lemma_record_all_from(s1.tombstones, gone_ids, at, deadline, max_t);
        let pos = fifo_insert_pos(kept, inc);
        lemma_fifo_insert_pos_range(kept, inc);
        let entries = kept.insert(pos, inc);
        assert(m.1.entries == entries);
        let r = record_all(s1.tombstones, gone_ids, at, deadline, max_t).0;
        assert(m.1.tombstones == r);
        assert forall|i: int| 0 <= i < entries.len() implies at < (#[trigger] entries[i]).route.local_deadline by {
            if i < pos {
                assert(entries[i] == kept[i]);
                assert(kept[i] == s1.entries[i + k]);
            } else if i > pos {
                assert(entries[i] == kept[i - 1]);
                assert(kept[i - 1] == s1.entries[i - 1 + k]);
            }
        }
        assert forall|i: int, j: int|
            0 <= i < entries.len() && 0 <= j < r.len()
                implies #[trigger] r[j].message_id != #[trigger] entries[i].envelope.message_id by {
            let t = r[j];
            if i == pos {
                if s1.tombstones.contains(t) {
                    let x = choose|x: int| 0 <= x < s1.tombstones.len() && s1.tombstones[x] == t;
                    assert(at < s1.tombstones[x].expires_at);
                    if t.message_id == id {
                        assert(has_active_tomb(s1.tombstones, id, at));
                    }
                } else {
                    let y = choose|y: int| 0 <= y < gone_ids.len() && gone_ids[y] == t.message_id;
                    assert(gone[y] == s1.entries[y]);
                    if t.message_id == id {
                        assert(has_entry(s1.entries, id));
                    }
                }
            } else {
                let e_idx = if i < pos { i + k } else { i - 1 + k };
                assert(entries[i] == s1.entries[e_idx]);
                if s1.tombstones.contains(t) {
                    let x = choose|x: int| 0 <= x < s1.tombstones.len() && s1.tombstones[x] == t;
                    assert(s1.tombstones[x].message_id != s1.entries[e_idx].envelope.message_id);
                } else {
                    let y = choose|y: int| 0 <= y < gone_ids.len() && gone_ids[y] == t.message_id;
                    assert(gone[y] == s1.entries[y]);
                    assert(y < k && y != e_idx);
                }
            }
        }
    }
}

/// Dropping lapsed tombstones keeps the rest apart from the entries.
pub(crate) proof fn lemma_purge_keeps_apart(q: QueueView, at: int)
    requires
        tombs_exclude_entries(q),
        tombs_ok(q.tombstones),
    ensures
        ({
            let r = QueueView { tombstones: q.tombstones.filter(tomb_active(at)), ..q };
            tombs_exclude_entries(r) && tombs_ok(r.tombstones)
        }),
{
    let f = q.tombstones.filter(tomb_active(at));
    lemma_tomb_filter(q.tombstones, tomb_active(at));
    assert forall|i: int| 0 <= i < f.len() implies (#[trigger] f[i]).message_id.len() == 16 by {
        let j = choose|j: int| 0 <= j < q.tombstones.len() && q.tombstones[j] == f[i];
    }
    assert forall|i: int, j: int|
        0 <= i < q.entries.len() && 0 <= j < f.len()
            implies #[trigger] f[j].message_id != #[trigger] q.entries[i].envelope.message_id by {
        let b = choose|b: int| 0 <= b < q.tombstones.len() && q.tombstones[b] == f[j];
        assert(q.tombstones[b].message_id != q.entries[i].envelope.message_id);
    }
}

/// Every outcome of `enqueue`, success or failure, leaves the tombstones
/// apart from the entries.
pub(crate) proof fn lemma_enqueue_keeps_apart(q: QueueView, inc: EntryView, at: int)
    requires
        queue_wf(q),
        tombs_exclude_entries(q),
        tombs_ok(q.tombstones),
        inc.envelope.valid(),
    ensures
        tombs_exclude_entries(enqueue_model(q, inc, at).1),
        tombs_ok(enqueue_model(q, inc, at).1.tombstones),
{
    lemma_expire_keeps(q, at);
    if enqueue_model(q, inc, at).0 is Ok {
        law_enqueue_keeps_entries_apart(q, inc, at);
    }
}

/// Removing an opened entry tombstones its identifier and keeps the
/// tombstones apart from the remaining entries.
pub(crate) proof fn lemma_remove_opened_keeps_apart(q: QueueView, id: Seq<u8>, at: int)
    requires
        queue_wf(q),
        tombs_exclude_entries(q),
        tombs_ok(q.tombstones),
        id.len() == 16,
    ensures
        tombs_exclude_entries(remove_opened_model(q, id, at).1),
        tombs_ok(remove_opened_model(q, id, at).1.tombstones),
{
    let m = remove_opened_model(q, id, at);
    let ts1 = q.tombstones.filter(tomb_active(at));
    lemma_purge_keeps_apart(q, at);
    if has_entry(q.entries, id) && deadline_fits(q.limits, at) {
        let i = choose|i: int| 0 <= i < q.entries.len() && #[trigger] q.entries[i].envelope.message_id == id;
        let rest = q.entries.remove(i);
        let deadline = at + q.limits.retention;
        assert forall|k: int| 0 <= k < seq![id].len() implies (#[trigger] seq![id][k]).len() == 16 by {
            assert(seq![id][k] == id);
        }
        lemma_record_all_from(ts1, seq![id], at, deadline, q.limits.max_tombstones);
        let r = record_all(ts1, seq![id], at, deadline, q.limits.max_tombstones).0;
        assert(m.1.entries == rest);
        assert(m.1.tombstones == r);
        assert forall|e: int, j: int|
            0 <= e < rest.len() && 0 <= j < r.len()
                implies #[trigger] r[j].message_id != #[trigger] rest[e].envelope.message_id by {
            let e0 = if e < i { e } else { e + 1 };
            assert(rest[e] == q.entries[e0]);
            let t = r[j];
            if ts1.contains(t) {
                let x = choose|x: int| 0 <= x < ts1.len() && ts1[x] == t;
                assert(ts1[x].message_id != q.entries[e0].envelope.message_id);
            } else {
                let y = choose|y: int| 0 <= y < seq![id].len() && seq![id][y] == t.message_id;
                assert(seq![id][y] == id);
                assert(e0 != i);
            }
        }
    }
}

} // verus!
