//! Ordering distinct message identifiers, smallest first.
use vstd::prelude::*;

use crate::envelope::{lemma_lex_total, lemma_lex_transitive, lemma_message_id_len, seq_lex_lt, MessageId};

verus! {

/// No identifier occurs twice.
pub open spec fn ids_distinct(ids: Seq<MessageId>) -> bool {
    forall|a: int, b: int| 0 <= a < ids.len() && 0 <= b < ids.len() && a != b ==> ids[a]@ != ids[b]@
}

/// `order` names positions of `ids` whose identifiers strictly ascend.
pub open spec fn ascending_positions(ids: Seq<MessageId>, order: Seq<usize>) -> bool {
    &&& forall|i: int| 0 <= i < order.len() ==> (#[trigger] order[i]) < ids.len()
    &&& forall|i: int, j: int|
        #![trigger order[i], order[j]]
        0 <= i < j < order.len() ==> seq_lex_lt(ids[order[i] as int]@, ids[order[j] as int]@)
}

/// Every position below `n` occurs in `order`.
pub open spec fn covers(order: Seq<usize>, n: int) -> bool {
    forall|k: usize| k < n ==> #[trigger] order.contains(k)
}

/// The positions of `ids`, each once, ordered so that the identifiers
/// ascend.
pub fn order_by_id(ids: &Vec<MessageId>) -> (order: Vec<usize>)
    requires
        ids_distinct(ids@),
    ensures
        order.len() == ids.len(),
        ascending_positions(ids@, order@),
        covers(order@, ids.len() as int),
{
    let mut order: Vec<usize> = Vec::new();
    let mut k: usize = 0;
    while k < ids.len()
        invariant
            k <= ids.len(),
            order.len() == k,
            ids_distinct(ids@),
            forall|i: int| 0 <= i < order.len() ==> (#[trigger] order@[i]) < k,
            ascending_positions(ids@, order@),
            covers(order@, k as int),
        decreases ids.len() - k,
    {
        let mut p: usize = 0;
        while p < order.len() && ids[order[p]].precedes(&ids[k])
            invariant
                p <= order.len(),
                order.len() == k,
                k < ids.len(),
                forall|i: int| 0 <= i < order.len() ==> (#[trigger] order@[i]) < k,
                forall|q: int|
                    0 <= q < p ==> seq_lex_lt(ids@[#[trigger] order@[q] as int]@, ids@[k as int]@),
            decreases order.len() - p,
        {
            p += 1;
        }
        let ghost before = order@;
        let ghost x = ids@[k as int]@;
        proof {
            if p < order.len() {
                let y = ids@[before[p as int] as int]@;
                lemma_message_id_len(ids@[before[p as int] as int]);
                lemma_message_id_len(ids@[k as int]);
                assert(y != x);
                lemma_lex_total(x, y);
            }
            assert forall|q: int| p <= q < before.len() implies seq_lex_lt(
                x,
                ids@[#[trigger] before[q] as int]@,
            ) by {
                if q > p {
                    assert(seq_lex_lt(ids@[before[p as int] as int]@, ids@[before[q] as int]@));
                    lemma_lex_transitive(x, ids@[before[p as int] as int]@, ids@[before[q] as int]@);
                }
            }
        }
        order.insert(p, k);
        proof {
            assert(order@ == before.insert(p as int, k));
            assert forall|i: int| 0 <= i < order@.len() implies (#[trigger] order@[i]) < k + 1 by {
                if i < p {
                    assert(order@[i] == before[i]);
                } else if i > p {
                    assert(order@[i] == before[i - 1]);
                }
            }
            assert forall|i: int, j: int|
                #![trigger order@[i], order@[j]]
                0 <= i < j < order@.len() implies seq_lex_lt(
                ids@[order@[i] as int]@,
                ids@[order@[j] as int]@,
            ) by {
                let bi = if i < p { i } else { i - 1 };
                let bj = if j < p { j } else { j - 1 };
                if i != p {
                    assert(order@[i] == before[bi]);
                }
                if j != p {
                    assert(order@[j] == before[bj]);
                }
                if i != p && j != p {
                    assert(seq_lex_lt(ids@[before[bi] as int]@, ids@[before[bj] as int]@));
                }
            }
            assert forall|m: usize| m < k + 1 implies #[trigger] order@.contains(m) by {
                if m == k {
                    assert(order@[p as int] == k);
                } else {
                    assert(before.contains(m));
                    let i0 = choose|i: int| 0 <= i < before.len() && #[trigger] before[i] == m;
                    if i0 < p {
                        assert(order@[i0] == m);
                    } else {
                        assert(order@[i0 + 1] == m);
                    }
                }
            }
        }
        k += 1;
    }
    order
}

} // verus!
