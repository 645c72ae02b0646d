//! The per-node GPU slot pool: a bin-packed ledger of GPU memory slots and
//! per-GPU context budget across the physical GPUs of one node.
//!
//! The pool keeps one entry per physical GPU, ordered by GPU id.  Its
//! mathematical model is the finite map from GPU id to the remaining
//! [`GPUAlloc`] budget, given by [`GPUResourceMap::gpus_map`].
//!
//! No sequence of `Alloc`/`Add`/`Sub` calls can drive a GPU's remaining
//! slot or context budget negative: the budgets are unsigned, every
//! subtraction in `Alloc` is verified against the budget of a qualifying
//! GPU, and `Sub` demands (as its precondition, mirroring a caller-side
//! protocol violation) that the pool holds at least the withdrawn grant.

use vstd::prelude::*;

use crate::common::Error;
use crate::resource::{GPUResource, MAX_GPU_COUNT};

verus! {

/// Remaining budget on one physical GPU: how many more driver contexts it
/// may host and how many memory slots are still free.
#[derive(Debug, Clone, Copy, PartialEq, Eq, Structural)]
pub struct GPUAlloc {
    pub contextCnt: u64,
    pub slotCnt: u32,
}

impl Default for GPUAlloc {
    fn default() -> (r: Self)
        ensures
            r.contextCnt == 0,
            r.slotCnt == 0,
    {
        GPUAlloc { contextCnt: 0, slotCnt: 0 }
    }
}

// ---------------------------------------------------------------------------
// The spec-level model of an id-keyed entry list.
// ---------------------------------------------------------------------------

/// The entries are strictly ordered by GPU id (hence ids are unique).
pub open spec fn keys_sorted(s: Seq<(i32, GPUAlloc)>) -> bool {
    forall|i: int, j: int| 0 <= i < j < s.len() ==> (#[trigger] s[i]).0 < (#[trigger] s[j]).0
}

/// Whether some entry of `s` carries the GPU id `k`.
pub open spec fn key_in(s: Seq<(i32, GPUAlloc)>, k: i32) -> bool {
    exists|i: int| 0 <= i < s.len() && (#[trigger] s[i]).0 == k
}

/// The finite map described by an entry list; a later entry wins on a
/// repeated id, though a sorted list has none.
pub open spec fn entries_map(s: Seq<(i32, GPUAlloc)>) -> Map<i32, GPUAlloc>
    decreases s.len(),
{
    if s.len() == 0 {
        Map::<i32, GPUAlloc>::empty()
    } else {
        entries_map(s.drop_last()).insert(s.last().0, s.last().1)
    }
}

/// The domain of [`entries_map`] is exactly the set of ids that occur in the
/// list.
pub proof fn lemma_entries_map_dom(s: Seq<(i32, GPUAlloc)>)
    ensures
        forall|k: i32| #[trigger] entries_map(s).contains_key(k) <==> key_in(s, k),
    decreases s.len(),
{
    if s.len() > 0 {
        let d = s.drop_last();
        lemma_entries_map_dom(d);
        assert forall|k: i32| key_in(s, k) implies #[trigger] entries_map(s).contains_key(k) by {
            let i = choose|i: int| 0 <= i < s.len() && (#[trigger] s[i]).0 == k;
            if i < s.len() - 1 {
                assert(d[i] == s[i]);
                assert(key_in(d, k));
                assert(entries_map(d).contains_key(k));
            } else {
                assert(s.last().0 == k);
            }
        }
        assert forall|k: i32| #[trigger] entries_map(s).contains_key(k) implies key_in(s, k) by {
            if k == s.last().0 {
                assert(s[s.len() - 1].0 == k);
            } else {
                assert(entries_map(d).contains_key(k));
                assert(key_in(d, k));
                let i = choose|i: int| 0 <= i < d.len() && (#[trigger] d[i]).0 == k;
                assert(s[i] == d[i]);
                assert(s[i].0 == k);
            }
        }
    }
}

/// In a sorted entry list, the entry at index `i` is what the map holds for
/// its id.
pub proof fn lemma_entries_map_index(s: Seq<(i32, GPUAlloc)>, i: int)
    requires
        keys_sorted(s),
        0 <= i < s.len(),
    ensures
        entries_map(s).contains_key(s[i].0),
        entries_map(s)[s[i].0] == s[i].1,
    decreases s.len(),
{
    if i < s.len() - 1 {
        let d = s.drop_last();
        assert(d[i] == s[i]);
        lemma_entries_map_index(d, i);
        assert(s[i].0 < s.last().0);
    }
}

/// A sorted entry list has as many entries as its map has keys.
pub proof fn lemma_entries_map_len(s: Seq<(i32, GPUAlloc)>)
    requires
        keys_sorted(s),
    ensures
        entries_map(s).dom().finite(),
        entries_map(s).dom().len() == s.len(),
    decreases s.len(),
{
    if s.len() > 0 {
        let d = s.drop_last();
        lemma_entries_map_len(d);
        lemma_entries_map_dom(d);
        assert(!key_in(d, s.last().0)) by {
            if key_in(d, s.last().0) {
                let i = choose|i: int| 0 <= i < d.len() && (#[trigger] d[i]).0 == s.last().0;
                assert(s[i].0 < s.last().0);
            }
        }
        assert(entries_map(s).dom() =~= entries_map(d).dom().insert(s.last().0));
    }
}

/// Replacing the entry at index `i` with one that keeps its id updates the
/// map at that id.
pub proof fn lemma_entries_map_update(s: Seq<(i32, GPUAlloc)>, i: int, e: (i32, GPUAlloc))
    requires
        keys_sorted(s),
        0 <= i < s.len(),
        e.0 == s[i].0,
    ensures
        keys_sorted(s.update(i, e)),
        entries_map(s.update(i, e)) == entries_map(s).insert(e.0, e.1),
    decreases s.len(),
{
    let t = s.update(i, e);
    assert forall|p: int, q: int| 0 <= p < q < t.len() implies (#[trigger] t[p]).0 < (
    #[trigger] t[q]).0 by {
        assert(s[p].0 < s[q].0);
    }
    if i == s.len() - 1 {
        assert(t.drop_last() =~= s.drop_last());
        assert(entries_map(s.drop_last()).insert(s.last().0, s.last().1).insert(e.0, e.1)
            =~= entries_map(s.drop_last()).insert(e.0, e.1));
    } else {
        let d = s.drop_last();
        assert(t.drop_last() =~= d.update(i, e));
        assert(d[i] == s[i]);
        lemma_entries_map_update(d, i, e);
        assert(t.last() == s.last());
        assert(e.0 != s.last().0) by {
            assert(s[i].0 < s[s.len() - 1].0);
        }
        assert(entries_map(d).insert(e.0, e.1).insert(s.last().0, s.last().1) =~= entries_map(
            d,
        ).insert(s.last().0, s.last().1).insert(e.0, e.1));
    }
}

/// Inserting an entry at its ordered position inserts its id into the map.
pub proof fn lemma_entries_map_insert(s: Seq<(i32, GPUAlloc)>, i: int, e: (i32, GPUAlloc))
    requires
        keys_sorted(s),
        0 <= i <= s.len(),
        forall|j: int| 0 <= j < i ==> (#[trigger] s[j]).0 < e.0,
        forall|j: int| i <= j < s.len() ==> e.0 < (#[trigger] s[j]).0,
    ensures
        keys_sorted(s.insert(i, e)),
        entries_map(s.insert(i, e)) == entries_map(s).insert(e.0, e.1),
    decreases s.len(),
{
    let t = s.insert(i, e);
    assert forall|p: int, q: int| 0 <= p < q < t.len() implies (#[trigger] t[p]).0 < (
    #[trigger] t[q]).0 by {
        if p < i && q < i {
            assert(t[p] == s[p] && t[q] == s[q]);
        } else if p < i && q == i {
            assert(t[p] == s[p]);
        } else if p < i && q > i {
            assert(t[p] == s[p] && t[q] == s[q - 1]);
            assert(s[p].0 < e.0);
            assert(e.0 < s[q - 1].0);
        } else if p == i && q > i {
            assert(t[q] == s[q - 1]);
        } else {
            assert(t[p] == s[p - 1] && t[q] == s[q - 1]);
            assert(s[p - 1].0 < s[q - 1].0);
        }
    }
    if i == s.len() {
        assert(t =~= s.push(e));
        assert(s.push(e).drop_last() =~= s);
    } else {
        let d = s.drop_last();
        assert(t.drop_last() =~= d.insert(i, e));
        lemma_entries_map_insert(d, i, e);
        assert(t.last() == s.last());
        assert(e.0 != s.last().0) by {
            assert(e.0 < s[s.len() - 1].0);
        }
        assert(entries_map(d).insert(e.0, e.1).insert(s.last().0, s.last().1) =~= entries_map(
            d,
        ).insert(s.last().0, s.last().1).insert(e.0, e.1));
    }
}

// ---------------------------------------------------------------------------
// Executable helpers on sorted entry lists.
// ---------------------------------------------------------------------------

/// Look the id `k` up in a sorted entry list.
fn entries_get(v: &Vec<(i32, GPUAlloc)>, k: i32) -> (r: Option<GPUAlloc>)
    requires
        keys_sorted(v@),
    ensures
        match r {
            Some(a) => entries_map(v@).contains_key(k) && entries_map(v@)[k] == a,
            None => !entries_map(v@).contains_key(k),
        },
{
    let n = v.len();
    let mut i: usize = 0;
    while i < n
        invariant
            n == v@.len(),
            i <= n,
            keys_sorted(v@),
            forall|j: int| 0 <= j < i ==> (#[trigger] v@[j]).0 != k,
        decreases n - i,
    {
        if v[i].0 == k {
            proof {
                lemma_entries_map_index(v@, i as int);
            }
            return Some(v[i].1);
        }
        i = i + 1;
    }
    proof {
        lemma_entries_map_dom(v@);
    }
    None
}

/// Insert or replace the entry for id `k` in a sorted entry list.
fn entries_set(v: &mut Vec<(i32, GPUAlloc)>, k: i32, a: GPUAlloc)
    requires
        keys_sorted(old(v)@),
    ensures
        keys_sorted(final(v)@),
        entries_map(final(v)@) == entries_map(old(v)@).insert(k, a),
        final(v)@.len() == old(v)@.len() + (if entries_map(old(v)@).contains_key(k) {
            0int
        } else {
            1int
        }),
{
    let n = v.len();
    let mut i: usize = 0;
    while i < n && v[i].0 < k
        invariant
            n == v@.len(),
            i <= n,
            v == old(v),
            forall|j: int| 0 <= j < i ==> (#[trigger] v@[j]).0 < k,
        decreases n - i,
    {
        i = i + 1;
    }
    proof {
        lemma_entries_map_dom(v@);
    }
    if i < n && v[i].0 == k {
        proof {
            lemma_entries_map_index(v@, i as int);
            lemma_entries_map_update(v@, i as int, (k, a));
        }
        v.set(i, (k, a));
    } else {
        proof {
            assert(forall|j: int| i <= j < v@.len() ==> k < (#[trigger] v@[j]).0) by {
                assert(forall|j: int|
                    i < j < v@.len() ==> (#[trigger] v@[j]).0 > v@[i as int].0);
            }
            assert(!entries_map(v@).contains_key(k)) by {
                if key_in(v@, k) {
                    let j = choose|j: int| 0 <= j < v@.len() && (#[trigger] v@[j]).0 == k;
                }
            }
            lemma_entries_map_insert(v@, i as int, (k, a));
        }
        v.insert(i, (k, a));
    }
}

// ---------------------------------------------------------------------------
// Pointwise arithmetic on budgets, and the capacity predicate.
// ---------------------------------------------------------------------------

/// Component-wise sum of two budgets.
pub open spec fn spec_gpu_alloc_sum(a: GPUAlloc, b: GPUAlloc) -> GPUAlloc {
    GPUAlloc {
        contextCnt: (a.contextCnt + b.contextCnt) as u64,
        slotCnt: (a.slotCnt + b.slotCnt) as u32,
    }
}

/// Component-wise difference of two budgets.
pub open spec fn spec_gpu_alloc_diff(a: GPUAlloc, b: GPUAlloc) -> GPUAlloc {
    GPUAlloc {
        contextCnt: (a.contextCnt - b.contextCnt) as u64,
        slotCnt: (a.slotCnt - b.slotCnt) as u32,
    }
}

/// What merging the grant `delta` into a pool does: ids missing from the
/// pool are inserted, ids present have their budgets added component-wise,
/// and all other ids keep their budget.
pub open spec fn spec_add_post(
    old_m: Map<i32, GPUAlloc>,
    delta: Map<i32, GPUAlloc>,
    new_m: Map<i32, GPUAlloc>,
) -> bool {
    &&& new_m.dom() == old_m.dom().union(delta.dom())
    &&& forall|k: i32| #[trigger]
        delta.contains_key(k) ==> new_m[k] == (if old_m.contains_key(k) {
            spec_gpu_alloc_sum(old_m[k], delta[k])
        } else {
            delta[k]
        })
    &&& forall|k: i32| #[trigger]
        old_m.contains_key(k) && !delta.contains_key(k) ==> new_m[k] == old_m[k]
}

/// What subtracting the grant `delta` from a pool does: the grant's ids keep
/// their place with their budgets reduced component-wise, everything else is
/// untouched.
pub open spec fn spec_sub_post(
    old_m: Map<i32, GPUAlloc>,
    delta: Map<i32, GPUAlloc>,
    new_m: Map<i32, GPUAlloc>,
) -> bool {
    &&& new_m.dom() == old_m.dom()
    &&& forall|k: i32| #[trigger]
        delta.contains_key(k) ==> new_m[k] == spec_gpu_alloc_diff(old_m[k], delta[k])
    &&& forall|k: i32| #[trigger]
        old_m.contains_key(k) && !delta.contains_key(k) ==> new_m[k] == old_m[k]
}

/// A GPU can serve one more allocation of `need` slots only if it has
/// context budget left and at least `need` free slots.
pub open spec fn spec_qualifies(a: GPUAlloc, need: int) -> bool {
    a.contextCnt > 0 && a.slotCnt >= need
}

/// How many entries of `s` qualify for an allocation of `need` slots.
pub open spec fn qualify_count(s: Seq<(i32, GPUAlloc)>, need: int) -> int
    decreases s.len(),
{
    if s.len() == 0 {
        0int
    } else {
        qualify_count(s.drop_last(), need) + if spec_qualifies(s.last().1, need) {
            1int
        } else {
            0int
        }
    }
}

/// Counting over a prefix never exceeds counting over the whole list.
pub proof fn lemma_qualify_count_take_le(s: Seq<(i32, GPUAlloc)>, need: int, i: int)
    requires
        0 <= i <= s.len(),
    ensures
        qualify_count(s.take(i), need) <= qualify_count(s, need),
    decreases s.len(),
{
    if i == s.len() {
        assert(s.take(i) =~= s);
    } else {
        let d = s.drop_last();
        assert(s.take(i) =~= d.take(i));
        lemma_qualify_count_take_le(d, need, i);
    }
}

/// Strict lexicographic order on `(slot count, GPU id)` pairs.
pub open spec fn pair_lt(a: (u32, i32), b: (u32, i32)) -> bool {
    a.0 < b.0 || (a.0 == b.0 && a.1 < b.1)
}

/// Descending order on candidate pairs.
pub open spec fn pairs_sorted_desc(v: Seq<(u32, i32)>) -> bool {
    forall|i: int, j: int| 0 <= i < j < v.len() ==> !pair_lt(#[trigger] v[i], #[trigger] v[j])
}

/// No GPU id occurs twice among the candidate pairs.
pub open spec fn pair_ids_distinct(v: Seq<(u32, i32)>) -> bool {
    forall|i: int, j: int| 0 <= i < j < v.len() ==> (#[trigger] v[i]).1 != (#[trigger] v[j]).1
}

/// Every candidate pair records the slot count the pool holds for its id.
pub open spec fn pairs_match(v: Seq<(u32, i32)>, m: Map<i32, GPUAlloc>) -> bool {
    forall|i: int|
        0 <= i < v.len() ==> m.contains_key((#[trigger] v[i]).1) && m[v[i].1].slotCnt == v[i].0
}

/// Whether id `k` occurs among the candidate pairs.
pub open spec fn pair_id_in(v: Seq<(u32, i32)>, k: i32) -> bool {
    exists|i: int| 0 <= i < v.len() && (#[trigger] v[i]).1 == k
}

/// Every id of the pool occurs among the candidate pairs.
pub open spec fn pairs_cover(v: Seq<(u32, i32)>, m: Map<i32, GPUAlloc>) -> bool {
    forall|k: i32| #[trigger] m.contains_key(k) ==> pair_id_in(v, k)
}

/// The set of GPU ids that qualify for an allocation of `need` slots.
pub open spec fn qualify_keys(m: Map<i32, GPUAlloc>, need: int) -> Set<i32> {
    m.dom().filter(|k: i32| spec_qualifies(m[k], need))
}

/// On a sorted entry list, counting qualifying entries is counting
/// qualifying ids.
pub proof fn lemma_qualify_count_is_key_count(s: Seq<(i32, GPUAlloc)>, need: int)
    requires
        keys_sorted(s),
    ensures
        qualify_keys(entries_map(s), need).finite(),
        qualify_count(s, need) == qualify_keys(entries_map(s), need).len(),
    decreases s.len(),
{
    lemma_entries_map_len(s);
    if s.len() == 0 {
        assert(qualify_keys(entries_map(s), need) =~= Set::<i32>::empty());
    } else {
        let d = s.drop_last();
        let k = s.last().0;
        let a = s.last().1;
        lemma_qualify_count_is_key_count(d, need);
        lemma_entries_map_dom(d);
        lemma_entries_map_len(d);
        assert(!key_in(d, k)) by {
            if key_in(d, k) {
                let i = choose|i: int| 0 <= i < d.len() && (#[trigger] d[i]).0 == k;
                assert(s[i].0 < s[s.len() - 1].0);
            }
        }
        if spec_qualifies(a, need) {
            assert(qualify_keys(entries_map(s), need) =~= qualify_keys(entries_map(d), need)
                .insert(k));
        } else {
            assert(qualify_keys(entries_map(s), need) =~= qualify_keys(entries_map(d), need));
        }
    }
}

/// Everything a successful allocation promises.
///
/// The grant carries exactly `usage.gpuCount` GPUs.  Each of them qualified
/// in the old pool, is granted one context and the required slot count, and
/// has its budget in the pool reduced by exactly that grant; every other GPU
/// is untouched.  The chosen GPUs are the greatest qualifying ones in the
/// `(remaining slots, id)` order, so allocation prefers the fullest GPU and
/// breaks ties toward the higher id.
pub open spec fn spec_alloc_granted(
    oldp: GPUResourceMap,
    usage: GPUResource,
    grant: GPUResourceMap,
    newp: GPUResourceMap,
) -> bool {
    let need = oldp.spec_need(usage.vRam);
    let om = oldp.gpus_map();
    let gm = grant.gpus_map();
    let nm = newp.gpus_map();
    &&& grant.totalSlotCnt == oldp.totalSlotCnt
    &&& grant.slotSize == oldp.slotSize
    &&& newp.totalSlotCnt == oldp.totalSlotCnt
    &&& newp.slotSize == oldp.slotSize
    &&& nm.dom() == om.dom()
    &&& grant.map@.len() == usage.gpuCount
    &&& forall|k: i32| #[trigger] gm.contains_key(k) ==> {
        &&& om.contains_key(k)
        &&& spec_qualifies(om[k], need)
        &&& gm[k] == (GPUAlloc { contextCnt: 1, slotCnt: need as u32 })
        &&& nm[k] == (GPUAlloc {
            contextCnt: (om[k].contextCnt - 1) as u64,
            slotCnt: (om[k].slotCnt - need) as u32,
        })
    }
    &&& forall|k: i32| #[trigger] om.contains_key(k) && !gm.contains_key(k) ==> nm[k] == om[k]
    &&& forall|k: i32, k2: i32|
        #![trigger gm.contains_key(k), om.contains_key(k2)]
        gm.contains_key(k) && om.contains_key(k2) && !gm.contains_key(k2) && spec_qualifies(
            om[k2],
            need,
        ) ==> pair_lt((om[k2].slotCnt, k2), (om[k].slotCnt, k))
}

/// The sorted entry list is a canonical representation: two sorted lists
/// with the same map are the same list.
pub proof fn lemma_entries_map_canonical(s1: Seq<(i32, GPUAlloc)>, s2: Seq<(i32, GPUAlloc)>)
    requires
        keys_sorted(s1),
        keys_sorted(s2),
        entries_map(s1) == entries_map(s2),
    ensures
        s1 == s2,
    decreases s1.len(),
{
    lemma_entries_map_len(s1);
    lemma_entries_map_len(s2);
    lemma_entries_map_dom(s1);
    lemma_entries_map_dom(s2);
    if s1.len() == 0 {
        assert(s1 =~= s2);
    } else {
        let k1 = s1.last().0;
        let k2 = s2.last().0;
        assert(key_in(s1, k1)) by {
            assert(s1[s1.len() - 1].0 == k1);
        }
        assert(key_in(s2, k2)) by {
            assert(s2[s2.len() - 1].0 == k2);
        }
        assert(k1 == k2) by {
            assert(entries_map(s1).contains_key(k1));
            assert(entries_map(s2).contains_key(k1));
            assert(key_in(s2, k1));
            let j = choose|j: int| 0 <= j < s2.len() && (#[trigger] s2[j]).0 == k1;
            assert(j < s2.len() - 1 ==> s2[j].0 < k2);
            assert(entries_map(s2).contains_key(k2));
            assert(entries_map(s1).contains_key(k2));
            assert(key_in(s1, k2));
            let i = choose|i: int| 0 <= i < s1.len() && (#[trigger] s1[i]).0 == k2;
            assert(i < s1.len() - 1 ==> s1[i].0 < k1);
        }
        lemma_entries_map_index(s1, s1.len() - 1);
        lemma_entries_map_index(s2, s2.len() - 1);
        assert(s1.last() == s2.last());
        let d1 = s1.drop_last();
        let d2 = s2.drop_last();
        lemma_entries_map_dom(d1);
        lemma_entries_map_dom(d2);
        assert(entries_map(d1) == entries_map(d2)) by {
            assert forall|k: i32| #[trigger]
                entries_map(d1).contains_key(k) implies entries_map(d2).contains_key(k)
                && entries_map(d2)[k] == entries_map(d1)[k] by {
                let i = choose|i: int| 0 <= i < d1.len() && (#[trigger] d1[i]).0 == k;
                assert(s1[i] == d1[i]);
                assert(s1[i].0 < k1);
                lemma_entries_map_index(s1, i);
                assert(entries_map(s2).contains_key(k) && k != k2);
                let j = choose|j: int| 0 <= j < s2.len() && (#[trigger] s2[j]).0 == k;
                assert(j < s2.len() - 1);
                assert(d2[j] == s2[j]);
                assert(key_in(d2, k));
                lemma_entries_map_index(s2, j);
                lemma_entries_map_index(d2, j);
            }
            assert forall|k: i32| #[trigger]
                entries_map(d2).contains_key(k) implies entries_map(d1).contains_key(k) by {
                let j = choose|j: int| 0 <= j < d2.len() && (#[trigger] d2[j]).0 == k;
                assert(s2[j] == d2[j]);
                assert(s2[j].0 < k2);
                lemma_entries_map_index(s2, j);
                assert(entries_map(s1).contains_key(k) && k != k1);
                let i = choose|i: int| 0 <= i < s1.len() && (#[trigger] s1[i]).0 == k;
                assert(i < s1.len() - 1);
                assert(d1[i] == s1[i]);
                assert(key_in(d1, k));
            }
            assert(entries_map(d1) =~= entries_map(d2));
        }
        lemma_entries_map_canonical(d1, d2);
        assert(s1 =~= d1.push(s1.last()));
        assert(s2 =~= d2.push(s2.last()));
    }
}

/// A zero-GPU ask always succeeds, takes nothing and grants nothing: the
/// grant is empty and the pool's per-GPU budgets are exactly what they were.
pub proof fn lemma_alloc_zero_gpus(
    p0: GPUResourceMap,
    usage: GPUResource,
    grant: GPUResourceMap,
    p1: GPUResourceMap,
)
    requires
        usage.gpuCount == 0,
        spec_alloc_granted(p0, usage, grant, p1),
    ensures
        p0.spec_can_alloc(usage),
        grant.gpus_map() == Map::<i32, GPUAlloc>::empty(),
        p1.gpus_map() == p0.gpus_map(),
        p1.totalSlotCnt == p0.totalSlotCnt,
        p1.slotSize == p0.slotSize,
{
    assert(grant.map@.len() == 0);
    assert(grant.gpus_map() =~= Map::<i32, GPUAlloc>::empty());
    assert forall|k: i32| #[trigger] p0.gpus_map().contains_key(k) implies p1.gpus_map()[k]
        == p0.gpus_map()[k] by {
        assert(!grant.gpus_map().contains_key(k));
    }
    assert(p1.gpus_map() =~= p0.gpus_map());
}

/// Allocation is exactly reversible: adding the grant that `Alloc` returned
/// back into the mutated pool restores every per-GPU budget, the total slot
/// count and the slot size to their pre-allocation values.
pub proof fn lemma_alloc_then_add_restores(
    p0: GPUResourceMap,
    usage: GPUResource,
    grant: GPUResourceMap,
    p1: GPUResourceMap,
    p2: GPUResourceMap,
)
    requires
        usage.gpuCount > 0 ==> p0.need_computable(usage.vRam),
        spec_alloc_granted(p0, usage, grant, p1),
        spec_add_post(p1.gpus_map(), grant.gpus_map(), p2.gpus_map()),
        p2.totalSlotCnt == p1.totalSlotCnt,
        p2.slotSize == if p1.slotSize == 0 {
            grant.slotSize
        } else {
            p1.slotSize
        },
    ensures
        p2.gpus_map() == p0.gpus_map(),
        p2.totalSlotCnt == p0.totalSlotCnt,
        p2.slotSize == p0.slotSize,
        p0.wf() && p2.wf() ==> p2.map@ == p0.map@,
{
    let om = p0.gpus_map();
    let gm = grant.gpus_map();
    let nm = p1.gpus_map();
    let fm = p2.gpus_map();
    let need = p0.spec_need(usage.vRam);
    if usage.gpuCount == 0 {
        assert(grant.map@.len() == 0);
        assert(gm =~= Map::<i32, GPUAlloc>::empty());
    } else {
        assert(0 <= need) by {
            let v = (usage.vRam * 1024 * 1024) as int;
            let s = p0.slotSize as int;
            assert(v + s - 1 >= 0 && s > 0 ==> (v + s - 1) / s >= 0) by (nonlinear_arith);
        }
    }
    assert(fm.dom() =~= om.dom());
    assert forall|k: i32| #[trigger] om.contains_key(k) implies fm[k] == om[k] by {
        if gm.contains_key(k) {
            assert(spec_qualifies(om[k], need));
            assert(fm[k] == spec_gpu_alloc_sum(nm[k], gm[k]));
        } else {
            assert(fm[k] == nm[k]);
        }
    }
    assert(fm =~= om);
    if p0.wf() && p2.wf() {
        lemma_entries_map_canonical(p2.map@, p0.map@);
    }
}

// ---------------------------------------------------------------------------
// The pool itself.
// ---------------------------------------------------------------------------

/// The slot ledger of one node: total slot capacity at pool creation, the
/// per-GPU remaining budgets (ordered by GPU id), and the fixed slot size in
/// bytes.
#[derive(Debug)]
pub struct GPUResourceMap {
    pub totalSlotCnt: u32,
    pub map: Vec<(i32, GPUAlloc)>,
    pub slotSize: u64,
}

impl Clone for GPUResourceMap {
    fn clone(&self) -> (r: Self)
        ensures
            r.totalSlotCnt == self.totalSlotCnt,
            r.map@ == self.map@,
            r.slotSize == self.slotSize,
    {
        let mut map: Vec<(i32, GPUAlloc)> = Vec::new();
        let mut i: usize = 0;
        while i < self.map.len()
            invariant
                i <= self.map@.len(),
                map@ == self.map@.take(i as int),
            decreases self.map@.len() - i,
        {
            map.push(self.map[i]);
            proof {
                assert(self.map@.take(i + 1) =~= self.map@.take(i as int).push(
                    self.map@[i as int],
                ));
            }
            i = i + 1;
        }
        proof {
            assert(self.map@.take(self.map@.len() as int) =~= self.map@);
        }
        GPUResourceMap { totalSlotCnt: self.totalSlotCnt, map, slotSize: self.slotSize }
    }
}

impl Default for GPUResourceMap {
    fn default() -> (r: Self)
        ensures
            r.totalSlotCnt == 0,
            r.map@.len() == 0,
            r.slotSize == 0,
            r.wf(),
    {
        GPUResourceMap { totalSlotCnt: 0, map: Vec::new(), slotSize: 0 }
    }
}

impl GPUResourceMap {
    /// Well-formedness: entries strictly ordered by GPU id.
    pub open spec fn wf(self) -> bool {
        keys_sorted(self.map@)
    }

    /// The pool as a finite map from GPU id to remaining budget.
    pub open spec fn gpus_map(self) -> Map<i32, GPUAlloc> {
        entries_map(self.map@)
    }

    /// The remaining slot count recorded for `gpuId`, zero when absent.
    pub open spec fn spec_slot_cnt(self, gpuId: i32) -> u32 {
        if self.gpus_map().contains_key(gpuId) {
            self.gpus_map()[gpuId].slotCnt
        } else {
            0u32
        }
    }

    /// The ids of the GPUs tracked by this pool, in ascending order.
    pub fn Gpus(&self) -> (r: Vec<i32>)
        ensures
            r@.len() == self.map@.len(),
            forall|i: int| 0 <= i < r@.len() ==> r@[i] == (#[trigger] self.map@[i]).0,
    {
        let mut gpus: Vec<i32> = Vec::new();
        let mut i: usize = 0;
        while i < self.map.len()
            invariant
                i <= self.map@.len(),
                gpus@.len() == i,
                forall|j: int| 0 <= j < i ==> gpus@[j] == (#[trigger] self.map@[j]).0,
            decreases self.map@.len() - i,
        {
            gpus.push(self.map[i].0);
            i = i + 1;
        }
        gpus
    }

    /// The remaining slot count on `gpuId`, zero for an untracked GPU.
    pub fn SlotCnt(&self, gpuId: i32) -> (r: u32)
        requires
            self.wf(),
        ensures
            r == self.spec_slot_cnt(gpuId),
    {
        match entries_get(&self.map, gpuId) {
            None => 0,
            Some(resource) => resource.slotCnt,
        }
    }

    /// The remaining vRAM in bytes on `gpuId`.
    pub fn VRam(&self, gpuId: i32) -> (r: u64)
        requires
            self.wf(),
            self.spec_slot_cnt(gpuId) * self.slotSize <= u64::MAX,
        ensures
            r == self.spec_slot_cnt(gpuId) * self.slotSize,
    {
        self.SlotCnt(gpuId) as u64 * self.slotSize
    }

    /// The slot count of the lowest-numbered GPU, zero for an empty pool.
    pub fn FirstSlotCnt(&self) -> (r: u32)
        ensures
            r == if self.map@.len() == 0 {
                0u32
            } else {
                self.map@[0].1.slotCnt
            },
    {
        if self.map.len() == 0 {
            return 0;
        }
        self.map[0].1.slotCnt
    }

    /// The remaining vRAM in bytes of the lowest-numbered GPU.
    pub fn FirstVRam(&self) -> (r: u64)
        requires
            (if self.map@.len() == 0 {
                0int
            } else {
                self.map@[0].1.slotCnt as int
            }) * self.slotSize <= u64::MAX,
        ensures
            r == (if self.map@.len() == 0 {
                0int
            } else {
                self.map@[0].1.slotCnt as int
            }) * self.slotSize,
    {
        self.FirstSlotCnt() as u64 * self.slotSize
    }

    /// The pool's total capacity in bytes.
    pub fn TotalVRam(&self) -> (r: u64)
        requires
            self.totalSlotCnt * self.slotSize <= u64::MAX,
        ensures
            r == self.totalSlotCnt * self.slotSize,
    {
        self.totalSlotCnt as u64 * self.slotSize
    }

    /// The map from virtual GPU index (position in id order) to physical id.
    pub fn VirtToPhy(&self) -> (r: Vec<(i32, i32)>)
        requires
            self.map@.len() <= i32::MAX,
        ensures
            r@.len() == self.map@.len(),
            forall|i: int| 0 <= i < r@.len() ==> r@[i] == (i as i32, (#[trigger] self.map@[i]).0),
    {
        let mut map: Vec<(i32, i32)> = Vec::new();
        let mut i: usize = 0;
        while i < self.map.len()
            invariant
                i <= self.map@.len(),
                self.map@.len() <= i32::MAX,
                map@.len() == i,
                forall|j: int|
                    0 <= j < i ==> map@[j] == (j as i32, (#[trigger] self.map@[j]).0),
            decreases self.map@.len() - i,
        {
            map.push((i as i32, self.map[i].0));
            i = i + 1;
        }
        map
    }

    /// The map from physical GPU id to virtual GPU index.
    pub fn PhyToVirt(&self) -> (r: Vec<(i32, i32)>)
        requires
            self.map@.len() <= i32::MAX,
        ensures
            r@.len() == self.map@.len(),
            forall|i: int| 0 <= i < r@.len() ==> r@[i] == ((#[trigger] self.map@[i]).0, i as i32),
    {
        let mut map: Vec<(i32, i32)> = Vec::new();
        let mut i: usize = 0;
        while i < self.map.len()
            invariant
                i <= self.map@.len(),
                self.map@.len() <= i32::MAX,
                map@.len() == i,
                forall|j: int|
                    0 <= j < i ==> map@[j] == ((#[trigger] self.map@[j]).0, j as i32),
            decreases self.map@.len() - i,
        {
            map.push((self.map[i].0, i as i32));
            i = i + 1;
        }
        map
    }

    /// The number of slots needed to cover `vRam` MB of GPU memory: the
    /// ceiling of `vRam * 1024 * 1024 / slotSize`.
    pub open spec fn spec_need(self, vRam: u64) -> int {
        (vRam * 1024 * 1024 + self.slotSize - 1) / (self.slotSize as int)
    }

    /// The machine-side conditions under which the slot requirement can be
    /// computed: a slot size has been set, and neither the byte count nor
    /// the resulting slot count overflows its type.
    pub open spec fn need_computable(self, vRam: u64) -> bool {
        &&& self.slotSize > 0
        &&& vRam * 1024 * 1024 + self.slotSize - 1 <= u64::MAX
        &&& self.spec_need(vRam) <= u32::MAX
    }

    /// The smallest slot count whose capacity covers `vRam` MB.
    pub fn ReqSlotCnt(&self, vRam: u64) -> (r: u32)
        requires
            self.need_computable(vRam),
        ensures
            r == self.spec_need(vRam),
            r * self.slotSize >= vRam * 1024 * 1024,
            r > 0 ==> (r - 1) * self.slotSize < vRam * 1024 * 1024,
    {
        let vRamBytes = vRam * 1024 * 1024;
        let slotCnt = (vRamBytes + (self.slotSize - 1)) / self.slotSize;
        proof {
            let v = (vRam * 1024 * 1024) as int;
            let s = self.slotSize as int;
            let q = self.spec_need(vRam);
            vstd::arithmetic::div_mod::lemma_fundamental_div_mod(v + s - 1, s);
            let rem = (v + s - 1) % s;
            vstd::arithmetic::div_mod::lemma_mod_bound(v + s - 1, s);
            assert(q * s == s * q) by (nonlinear_arith);
            assert((q - 1) * s == q * s - s) by (nonlinear_arith);
        }
        slotCnt as u32
    }

    /// Whether the pool can serve `usage` right now: trivially yes for a
    /// zero-GPU ask, otherwise at least `gpuCount` GPUs must qualify for the
    /// required slot count.
    pub open spec fn spec_can_alloc(self, usage: GPUResource) -> bool {
        usage.gpuCount == 0 || qualify_count(self.map@, self.spec_need(usage.vRam))
            >= usage.gpuCount
    }

    pub fn CanAlloc(&self, usage: &GPUResource) -> (r: bool)
        requires
            self.wf(),
            usage.gpuCount > 0 ==> self.need_computable(usage.vRam),
        ensures
            r == self.spec_can_alloc(*usage),
    {
        let mut cnt = usage.gpuCount;
        if cnt == 0 {
            return true;
        }

        let reqSlotCnt = self.ReqSlotCnt(usage.vRam);
        let ghost need = self.spec_need(usage.vRam);
        let n = self.map.len();
        let mut i: usize = 0;
        while i < n
            invariant
                n == self.map@.len(),
                i <= n,
                usage.gpuCount > 0,
                need == self.spec_need(usage.vRam),
                reqSlotCnt == need,
                cnt == usage.gpuCount - qualify_count(self.map@.take(i as int), need),
                cnt > 0,
            decreases n - i,
        {
            let resource = self.map[i].1;
            proof {
                assert(self.map@.take(i + 1).drop_last() =~= self.map@.take(i as int));
                assert(self.map@.take(i + 1).last() == self.map@[i as int]);
            }
            if resource.contextCnt != 0 && resource.slotCnt >= reqSlotCnt {
                cnt = cnt - 1;
                if cnt == 0 {
                    proof {
                        lemma_qualify_count_take_le(self.map@, need, i + 1);
                    }
                    return true;
                }
            }
            i = i + 1;
        }

        proof {
            assert(self.map@.take(n as int) =~= self.map@);
        }
        false
    }

    /// The candidate array of `(remaining slots, GPU id)` pairs, ordered by
    /// descending slot count and, on ties, by descending GPU id.
    fn GenArr(&self) -> (v: Vec<(u32, i32)>)
        requires
            self.wf(),
        ensures
            v@.len() == self.map@.len(),
            pairs_sorted_desc(v@),
            pair_ids_distinct(v@),
            pairs_match(v@, self.gpus_map()),
            pairs_cover(v@, self.gpus_map()),
    {
        let mut v: Vec<(u32, i32)> = Vec::new();
        let n = self.map.len();
        let mut i: usize = 0;
        while i < n
            invariant
                n == self.map@.len(),
                i <= n,
                self.wf(),
                v@.len() == i,
                pairs_sorted_desc(v@),
                pair_ids_distinct(v@),
                pairs_match(v@, self.gpus_map()),
                forall|k: i32| key_in(self.map@.take(i as int), k) ==> pair_id_in(v@, k),
                forall|j: int|
                    0 <= j < v@.len() ==> key_in(
                        self.map@.take(i as int),
                        (#[trigger] v@[j]).1,
                    ),
            decreases n - i,
        {
            let ghost prev = v@;
            let e = (self.map[i].1.slotCnt, self.map[i].0);
            proof {
                lemma_entries_map_index(self.map@, i as int);
            }
            let m = v.len();
            let mut pos: usize = 0;
            while pos < m && !(v[pos].0 < e.0 || (v[pos].0 == e.0 && v[pos].1 < e.1))
                invariant
                    m == v@.len(),
                    pos <= m,
                    v@ == prev,
                    forall|j: int| 0 <= j < pos ==> !pair_lt(#[trigger] v@[j], e),
                decreases m - pos,
            {
                pos = pos + 1;
            }
            v.insert(pos, e);
            proof {
                prev.insert_ensures(pos as int, e);
                assert forall|p: int, q: int| 0 <= p < q < v@.len() implies !pair_lt(
                    #[trigger] v@[p],
                    #[trigger] v@[q],
                ) by {
                    if q < pos {
                        assert(v@[p] == prev[p] && v@[q] == prev[q]);
                    } else if q == pos {
                        assert(v@[p] == prev[p]);
                    } else if p < pos {
                        assert(v@[p] == prev[p] && v@[q] == prev[q - 1]);
                        if pos < m {
                            assert(!pair_lt(prev[p], prev[pos as int]));
                        }
                    } else if p == pos {
                        assert(v@[q] == prev[q - 1]);
                        if pos < m {
                            assert(pair_lt(prev[pos as int], e));
                            if q - 1 > pos {
                                assert(!pair_lt(prev[pos as int], prev[q - 1]));
                            }
                        }
                    } else {
                        assert(v@[p] == prev[p - 1] && v@[q] == prev[q - 1]);
                    }
                }
                assert forall|j: int| 0 <= j < v@.len() implies self.gpus_map().contains_key(
                    (#[trigger] v@[j]).1,
                ) && self.gpus_map()[v@[j].1].slotCnt == v@[j].0 by {
                    if j != pos {
                        let jj = if j < pos {
                            j
                        } else {
                            j - 1
                        };
                        assert(v@[j] == prev[jj]);
                    }
                }
                let ghost tk = self.map@.take(i as int);
                let ghost tk1 = self.map@.take(i + 1);
                assert(forall|j: int| 0 <= j < i ==> tk1[j] == self.map@[j] && tk[j] == self.map@[j]);
                assert(tk1[i as int] == self.map@[i as int]);
                assert forall|p: int, q: int| 0 <= p < q < v@.len() implies (#[trigger] v@[p]).1 != (
                #[trigger] v@[q]).1 by {
                    let pp = if p < pos { p } else { p - 1 };
                    let qq = if q < pos { q } else { q - 1 };
                    if p == pos {
                        assert(key_in(tk, prev[qq].1));
                        let w = choose|w: int| 0 <= w < tk.len() && (#[trigger] tk[w]).0 == prev[qq].1;
                        assert(self.map@[w].0 == prev[qq].1);
                        assert(self.map@[w].0 < self.map@[i as int].0);
                    } else if q == pos {
                        assert(key_in(tk, prev[pp].1));
                        let w = choose|w: int| 0 <= w < tk.len() && (#[trigger] tk[w]).0 == prev[pp].1;
                        assert(self.map@[w].0 == prev[pp].1);
                        assert(self.map@[w].0 < self.map@[i as int].0);
                    } else {
                        assert(v@[p] == prev[pp] && v@[q] == prev[qq]);
                        assert(pp < qq);
                    }
                }
                assert forall|k: i32| key_in(tk1, k) implies pair_id_in(v@, k) by {
                    let w = choose|w: int| 0 <= w < tk1.len() && (#[trigger] tk1[w]).0 == k;
                    if w < i {
                        assert(tk[w].0 == k);
                        assert(key_in(tk, k));
                        assert(pair_id_in(prev, k));
                        let j = choose|j: int| 0 <= j < prev.len() && (#[trigger] prev[j]).1 == k;
                        if j < pos {
                            assert(v@[j] == prev[j]);
                            assert(v@[j].1 == k);
                        } else {
                            assert(v@[j + 1] == prev[j]);
                            assert(v@[j + 1].1 == k);
                        }
                    } else {
                        assert(v@[pos as int].1 == k);
                    }
                }
                assert forall|j: int| 0 <= j < v@.len() implies key_in(
                    tk1,
                    (#[trigger] v@[j]).1,
                ) by {
                    if j == pos {
                        assert(tk1[i as int].0 == v@[j].1);
                    } else {
                        let jj = if j < pos { j } else { j - 1 };
                        assert(v@[j] == prev[jj]);
                        assert(key_in(tk, prev[jj].1));
                        let w = choose|w: int| 0 <= w < tk.len() && (#[trigger] tk[w]).0 == prev[jj].1;
                        assert(tk1[w].0 == v@[j].1);
                    }
                }
            }
            i = i + 1;
        }
        proof {
            assert(self.map@.take(n as int) =~= self.map@);
            lemma_entries_map_dom(self.map@);
        }
        v
    }

    /// Merge a grant back into the pool, id by id.  Also adopts the grant's
    /// slot size if the pool's own is still unset.
    pub fn Add(&mut self, alloc: &Self)
        requires
            old(self).wf(),
            alloc.wf(),
            forall|k: i32| #![auto]
                alloc.gpus_map().contains_key(k) && old(self).gpus_map().contains_key(k)
                    ==> old(self).gpus_map()[k].contextCnt + alloc.gpus_map()[k].contextCnt
                    <= u64::MAX && old(self).gpus_map()[k].slotCnt
                    + alloc.gpus_map()[k].slotCnt <= u32::MAX,
        ensures
            final(self).wf(),
            final(self).totalSlotCnt == old(self).totalSlotCnt,
            final(self).slotSize == if old(self).slotSize == 0 {
                alloc.slotSize
            } else {
                old(self).slotSize
            },
            spec_add_post(old(self).gpus_map(), alloc.gpus_map(), final(self).gpus_map()),
    {
        if self.slotSize == 0 {
            self.slotSize = alloc.slotSize;
        }

        proof {
            assert(alloc.map@.take(0).len() == 0);
            assert(self.gpus_map().dom() =~= old(self).gpus_map().dom().union(
                entries_map(alloc.map@.take(0)).dom(),
            ));
        }
        let n = alloc.map.len();
        let mut i: usize = 0;
        while i < n
            invariant
                n == alloc.map@.len(),
                i <= n,
                alloc.wf(),
                self.wf(),
                self.totalSlotCnt == old(self).totalSlotCnt,
                self.slotSize == if old(self).slotSize == 0 {
                    alloc.slotSize
                } else {
                    old(self).slotSize
                },
                forall|k: i32| #![auto]
                    alloc.gpus_map().contains_key(k) && old(self).gpus_map().contains_key(k)
                        ==> old(self).gpus_map()[k].contextCnt
                        + alloc.gpus_map()[k].contextCnt <= u64::MAX && old(
                        self,
                    ).gpus_map()[k].slotCnt + alloc.gpus_map()[k].slotCnt <= u32::MAX,
                spec_add_post(
                    old(self).gpus_map(),
                    entries_map(alloc.map@.take(i as int)),
                    self.gpus_map(),
                ),
            decreases n - i,
        {
            let ghost om = old(self).gpus_map();
            let ghost pre = self.gpus_map();
            let ghost di = entries_map(alloc.map@.take(i as int));
            let k = alloc.map[i].0;
            let a = alloc.map[i].1;
            proof {
                lemma_entries_map_index(alloc.map@, i as int);
                assert(alloc.gpus_map().contains_key(k) && alloc.gpus_map()[k] == a);
                assert(alloc.map@.take(i + 1).drop_last() =~= alloc.map@.take(i as int));
                assert(alloc.map@.take(i + 1).last() == alloc.map@[i as int]);
                lemma_entries_map_dom(alloc.map@.take(i as int));
                assert(!key_in(alloc.map@.take(i as int), k)) by {
                    if key_in(alloc.map@.take(i as int), k) {
                        let j = choose|j: int|
                            0 <= j < alloc.map@.take(i as int).len() && (#[trigger] alloc.map@.take(
                                i as int,
                            )[j]).0 == k;
                        assert(alloc.map@[j].0 < alloc.map@[i as int].0);
                    }
                }
            }
            match entries_get(&self.map, k) {
                None => {
                    entries_set(&mut self.map, k, a);
                },
                Some(cur) => {
                    proof {
                        assert(om.contains_key(k));
                        assert(cur == om[k]);
                    }
                    entries_set(
                        &mut self.map,
                        k,
                        GPUAlloc {
                            contextCnt: cur.contextCnt + a.contextCnt,
                            slotCnt: cur.slotCnt + a.slotCnt,
                        },
                    );
                },
            }
            proof {
                let dinew = entries_map(alloc.map@.take(i + 1));
                assert(dinew == di.insert(k, a));
                assert(self.gpus_map().dom() =~= om.dom().union(dinew.dom())) by {
                    assert(dinew.dom() =~= di.dom().insert(k));
                    assert(pre.dom() =~= om.dom().union(di.dom()));
                }
                assert forall|k2: i32| #[trigger] dinew.contains_key(k2) implies self.gpus_map()[k2]
                    == (if om.contains_key(k2) {
                    spec_gpu_alloc_sum(om[k2], dinew[k2])
                } else {
                    dinew[k2]
                }) by {
                    if k2 != k {
                        assert(di.contains_key(k2));
                        assert(self.gpus_map()[k2] == pre[k2]);
                    }
                }
                assert forall|k2: i32| #[trigger]
                    om.contains_key(k2) && !dinew.contains_key(k2) implies self.gpus_map()[k2]
                    == om[k2] by {
                    assert(k2 != k);
                    assert(self.gpus_map()[k2] == pre[k2]);
                }
            }
            i = i + 1;
        }

        proof {
            assert(alloc.map@.take(n as int) =~= alloc.map@);
        }
    }

    /// Carve an exact grant for `usage` out of the pool.
    ///
    /// Fails with `SchedulerNoEnoughResource`, leaving the pool untouched,
    /// whenever [`Self::spec_can_alloc`] does not hold.  Otherwise it picks
    /// the `usage.gpuCount` qualifying GPUs with the most remaining slots
    /// (ties toward the higher id), takes one context and the required slot
    /// count from each, and returns the grant; `Add` of that grant restores
    /// the pool exactly (see [`lemma_alloc_then_add_restores`]).
    pub fn Alloc(&mut self, usage: &GPUResource) -> (r: Result<GPUResourceMap, Error>)
        requires
            old(self).wf(),
            usage.gpuCount > 0 ==> old(self).need_computable(usage.vRam),
        ensures
            final(self).wf(),
            r is Ok <==> old(self).spec_can_alloc(*usage),
            !old(self).spec_can_alloc(*usage) ==> (r matches Err(
                Error::SchedulerNoEnoughResource(_),
            )) && *final(self) == *old(self),
            old(self).spec_can_alloc(*usage) ==> (r matches Ok(g) && g.wf()
                && spec_alloc_granted(*old(self), *usage, g, *final(self))),
    {
        if !self.CanAlloc(usage) {
            return Err(Error::SchedulerNoEnoughResource("".to_owned()));
        }

        let v = self.GenArr();

        let mut map: Vec<(i32, GPUAlloc)> = Vec::new();
        let mut count = usage.gpuCount;
        if count == 0 {
            return Ok(
                GPUResourceMap {
                    totalSlotCnt: self.totalSlotCnt,
                    map,
                    slotSize: self.slotSize,
                },
            );
        }

        let need = self.ReqSlotCnt(usage.vRam);
        let ghost om = old(self).gpus_map();
        let n = v.len();
        let mut i: usize = 0;
        while i < n && count > 0
            invariant
                n == v@.len(),
                i <= n,
                0 < usage.gpuCount,
                count <= usage.gpuCount,
                self.wf(),
                keys_sorted(map@),
                om == old(self).gpus_map(),
                self.totalSlotCnt == old(self).totalSlotCnt,
                self.slotSize == old(self).slotSize,
                old(self).need_computable(usage.vRam),
                need == old(self).spec_need(usage.vRam),
                old(self).spec_can_alloc(*usage),
                pairs_sorted_desc(v@),
                pair_ids_distinct(v@),
                pairs_match(v@, om),
                pairs_cover(v@, om),
                self.gpus_map().dom() == om.dom(),
                count + map@.len() == usage.gpuCount,
                forall|k: i32| #[trigger]
                    entries_map(map@).contains_key(k) ==> {
                        &&& om.contains_key(k)
                        &&& spec_qualifies(om[k], need as int)
                        &&& entries_map(map@)[k] == (GPUAlloc { contextCnt: 1, slotCnt: need })
                        &&& self.gpus_map()[k] == (GPUAlloc {
                            contextCnt: (om[k].contextCnt - 1) as u64,
                            slotCnt: (om[k].slotCnt - need) as u32,
                        })
                    },
                forall|k: i32| #[trigger]
                    om.contains_key(k) && !entries_map(map@).contains_key(k)
                        ==> self.gpus_map()[k] == om[k],
                forall|j: int|
                    0 <= j < i ==> (spec_qualifies(om[(#[trigger] v@[j]).1], need as int)
                        ==> entries_map(map@).contains_key(v@[j].1)),
                forall|k: i32| #[trigger]
                    entries_map(map@).contains_key(k) ==> pair_id_in(v@.take(i as int), k),
            decreases n - i,
        {
            let ghost pre = self.gpus_map();
            let ghost gmi = entries_map(map@);
            let slots = v[i].0;
            let id = v[i].1;
            proof {
                assert(om.contains_key(id) && om[id].slotCnt == slots);
                assert(!gmi.contains_key(id)) by {
                    if gmi.contains_key(id) {
                        let j = choose|j: int|
                            0 <= j < v@.take(i as int).len() && (#[trigger] v@.take(
                                i as int,
                            )[j]).1 == id;
                        assert(v@[j].1 == v@[i as int].1);
                    }
                }
                assert(self.gpus_map()[id] == om[id]);
            }
            let cur = match entries_get(&self.map, id) {
                Some(c) => c,
                None => {
                    proof {
                        assert(pre.contains_key(id));
                    }
                    vstd::pervasive::unreached()
                },
            };
            if slots >= need && cur.contextCnt > 0 {
                entries_set(
                    &mut self.map,
                    id,
                    GPUAlloc { contextCnt: cur.contextCnt - 1, slotCnt: cur.slotCnt - need },
                );
                entries_set(&mut map, id, GPUAlloc { contextCnt: 1, slotCnt: need });
                count = count - 1;
                proof {
                    assert(entries_map(map@) == gmi.insert(
                        id,
                        GPUAlloc { contextCnt: 1, slotCnt: need },
                    ));
                    assert(self.gpus_map().dom() =~= om.dom());
                    assert forall|k: i32| #[trigger]
                        om.contains_key(k) && !entries_map(map@).contains_key(k) implies self
                        .gpus_map()[k] == om[k] by {
                        assert(k != id);
                        assert(self.gpus_map()[k] == pre[k]);
                    }
                }
            } else {
                proof {
                    assert(!spec_qualifies(om[id], need as int));
                }
            }
            proof {
                let gmj = entries_map(map@);
                assert forall|j: int|
                    0 <= j < i + 1 implies (spec_qualifies(
                    om[(#[trigger] v@[j]).1],
                    need as int,
                ) ==> gmj.contains_key(v@[j].1)) by {
                    if j < i && spec_qualifies(om[v@[j].1], need as int) {
                        assert(gmi.contains_key(v@[j].1));
                    }
                }
                assert forall|k: i32| #[trigger] gmj.contains_key(k) implies pair_id_in(
                    v@.take(i + 1),
                    k,
                ) by {
                    if gmi.contains_key(k) {
                        let j = choose|j: int|
                            0 <= j < v@.take(i as int).len() && (#[trigger] v@.take(
                                i as int,
                            )[j]).1 == k;
                        assert(v@.take(i + 1)[j].1 == k);
                    } else {
                        assert(k == id);
                        assert(v@.take(i + 1)[i as int].1 == k);
                    }
                }
            }
            i = i + 1;
        }

        proof {
            if count > 0 {
                let needi = need as int;
                assert forall|k: i32|
                    qualify_keys(om, needi).contains(k) implies #[trigger] entries_map(
                    map@,
                ).contains_key(k) by {
                    assert(om.contains_key(k));
                    assert(pair_id_in(v@, k));
                    let j = choose|j: int| 0 <= j < v@.len() && (#[trigger] v@[j]).1 == k;
                    assert(spec_qualifies(om[v@[j].1], needi));
                }
                lemma_qualify_count_is_key_count(old(self).map@, needi);
                lemma_entries_map_len(map@);
                vstd::set_lib::lemma_len_subset(
                    qualify_keys(om, needi),
                    entries_map(map@).dom(),
                );
                assert(false);
            }
        }

        let granted = GPUResourceMap {
            totalSlotCnt: self.totalSlotCnt,
            map,
            slotSize: self.slotSize,
        };
        proof {
            let gm = entries_map(granted.map@);
            let needi = need as int;
            assert forall|k: i32, k2: i32|
                #![trigger gm.contains_key(k), om.contains_key(k2)]
                gm.contains_key(k) && om.contains_key(k2) && !gm.contains_key(k2)
                    && spec_qualifies(om[k2], needi) implies pair_lt(
                (om[k2].slotCnt, k2),
                (om[k].slotCnt, k),
            ) by {
                let j1 = choose|j: int|
                    0 <= j < v@.take(i as int).len() && (#[trigger] v@.take(i as int)[j]).1 == k;
                assert(v@[j1].1 == k);
                assert(pair_id_in(v@, k2));
                let j2 = choose|j: int| 0 <= j < v@.len() && (#[trigger] v@[j]).1 == k2;
                assert(j2 >= i) by {
                    if j2 < i {
                        assert(spec_qualifies(om[(v@[j2]).1], needi));
                    }
                }
                assert(j1 < j2);
                assert(!pair_lt(v@[j1], v@[j2]));
                assert(v@[j1].1 != v@[j2].1);
                assert(v@[j1] == (om[k].slotCnt, k));
                assert(v@[j2] == (om[k2].slotCnt, k2));
            }
        }
        Ok(granted)
    }

    /// Withdraw a previously recorded grant from the pool, id by id.  Every
    /// id of the grant must be tracked with at least the granted budget;
    /// subtracting anything else is a caller-side protocol violation.
    pub fn Sub(&mut self, alloc: &Self)
        requires
            old(self).wf(),
            alloc.wf(),
            alloc.slotSize == 0 || old(self).slotSize == alloc.slotSize,
            forall|k: i32| #![auto]
                alloc.gpus_map().contains_key(k) ==> old(self).gpus_map().contains_key(k)
                    && old(self).gpus_map()[k].contextCnt >= alloc.gpus_map()[k].contextCnt
                    && old(self).gpus_map()[k].slotCnt >= alloc.gpus_map()[k].slotCnt,
        ensures
            final(self).wf(),
            final(self).totalSlotCnt == old(self).totalSlotCnt,
            final(self).slotSize == old(self).slotSize,
            spec_sub_post(old(self).gpus_map(), alloc.gpus_map(), final(self).gpus_map()),
    {
        let n = alloc.map.len();
        let mut i: usize = 0;
        while i < n
            invariant
                n == alloc.map@.len(),
                i <= n,
                alloc.wf(),
                self.wf(),
                self.totalSlotCnt == old(self).totalSlotCnt,
                self.slotSize == old(self).slotSize,
                forall|k: i32| #![auto]
                    alloc.gpus_map().contains_key(k) ==> old(self).gpus_map().contains_key(k)
                        && old(self).gpus_map()[k].contextCnt
                        >= alloc.gpus_map()[k].contextCnt && old(self).gpus_map()[k].slotCnt
                        >= alloc.gpus_map()[k].slotCnt,
                spec_sub_post(
                    old(self).gpus_map(),
                    entries_map(alloc.map@.take(i as int)),
                    self.gpus_map(),
                ),
            decreases n - i,
        {
            let ghost om = old(self).gpus_map();
            let ghost pre = self.gpus_map();
            let ghost di = entries_map(alloc.map@.take(i as int));
            let k = alloc.map[i].0;
            let a = alloc.map[i].1;
            proof {
                lemma_entries_map_index(alloc.map@, i as int);
                assert(alloc.gpus_map().contains_key(k) && alloc.gpus_map()[k] == a);
                assert(alloc.map@.take(i + 1).drop_last() =~= alloc.map@.take(i as int));
                assert(alloc.map@.take(i + 1).last() == alloc.map@[i as int]);
                lemma_entries_map_dom(alloc.map@.take(i as int));
                assert(!key_in(alloc.map@.take(i as int), k)) by {
                    if key_in(alloc.map@.take(i as int), k) {
                        let j = choose|j: int|
                            0 <= j < alloc.map@.take(i as int).len() && (#[trigger] alloc.map@.take(
                                i as int,
                            )[j]).0 == k;
                        assert(alloc.map@[j].0 < alloc.map@[i as int].0);
                    }
                }
            }
            let cur = match entries_get(&self.map, k) {
                Some(cur) => cur,
                None => {
                    // Unreachable: the precondition puts every grant id in
                    // the pool, and the loop never removes an id.
                    proof {
                        assert(om.contains_key(k));
                        assert(pre.contains_key(k));
                    }
                    vstd::pervasive::unreached()
                },
            };
            proof {
                assert(cur == om[k]);
            }
            entries_set(
                &mut self.map,
                k,
                GPUAlloc {
                    contextCnt: cur.contextCnt - a.contextCnt,
                    slotCnt: cur.slotCnt - a.slotCnt,
                },
            );
            proof {
                let dinew = entries_map(alloc.map@.take(i + 1));
                assert(dinew == di.insert(k, a));
                assert(self.gpus_map().dom() =~= om.dom());
                assert forall|k2: i32| #[trigger] dinew.contains_key(k2) implies self.gpus_map()[k2]
                    == spec_gpu_alloc_diff(om[k2], dinew[k2]) by {
                    if k2 != k {
                        assert(di.contains_key(k2));
                        assert(self.gpus_map()[k2] == pre[k2]);
                    }
                }
                assert forall|k2: i32| #[trigger]
                    om.contains_key(k2) && !dinew.contains_key(k2) implies self.gpus_map()[k2]
                    == om[k2] by {
                    assert(k2 != k);
                    assert(self.gpus_map()[k2] == pre[k2]);
                }
            }
            i = i + 1;
        }

        proof {
            assert(alloc.map@.take(n as int) =~= alloc.map@);
        }
    }

    /// A fixed-size snapshot of the pool's per-GPU slot counts, for nodes
    /// with up to [`MAX_GPU_COUNT`] physical GPUs.
    pub fn GPUResourceInfo(&self) -> (info: GPUResourceInfo)
        requires
            self.wf(),
            forall|j: int|
                0 <= j < self.map@.len() ==> 0 <= (#[trigger] self.map@[j]).0
                    < MAX_GPU_COUNT,
        ensures
            info.total == self.totalSlotCnt,
            info.slotSize == self.slotSize,
            forall|id: int|
                0 <= id < MAX_GPU_COUNT ==> #[trigger] info.map@[id] == self.spec_slot_cnt(
                    id as i32,
                ),
    {
        let map: [u32; MAX_GPU_COUNT] = [
            self.SlotCnt(0),
            self.SlotCnt(1),
            self.SlotCnt(2),
            self.SlotCnt(3),
            self.SlotCnt(4),
            self.SlotCnt(5),
            self.SlotCnt(6),
            self.SlotCnt(7),
        ];
        GPUResourceInfo { total: self.totalSlotCnt, map, slotSize: self.slotSize }
    }
}

/// A flat snapshot of a pool: total slot count, per-GPU slot counts indexed
/// by physical GPU id, and the slot size.
#[derive(Debug, Clone, Copy)]
pub struct GPUResourceInfo {
    pub total: u32,
    pub map: [u32; MAX_GPU_COUNT],
    pub slotSize: u64,
}

impl GPUResourceInfo {
    /// Rebuild a pool from the snapshot: every GPU with a nonzero slot count
    /// is tracked with one context of budget.
    pub fn GPUResourceMap(&self) -> (r: GPUResourceMap)
        ensures
            r.wf(),
            r.totalSlotCnt == self.total,
            r.slotSize == self.slotSize,
            forall|k: i32| #[trigger]
                r.gpus_map().contains_key(k) <==> (0 <= k < MAX_GPU_COUNT && self.map@[k as int]
                    > 0),
            forall|k: i32| #[trigger]
                r.gpus_map().contains_key(k) ==> r.gpus_map()[k] == (GPUAlloc {
                    contextCnt: 1,
                    slotCnt: self.map@[k as int],
                }),
    {
        let mut entries: Vec<(i32, GPUAlloc)> = Vec::new();
        let mut i: usize = 0;
        while i < MAX_GPU_COUNT
            invariant
                i <= MAX_GPU_COUNT,
                keys_sorted(entries@),
                forall|j: int| 0 <= j < entries@.len() ==> 0 <= (#[trigger] entries@[j]).0 < i,
                forall|k: i32| #[trigger]
                    entries_map(entries@).contains_key(k) <==> (0 <= k < i && self.map@[k as int]
                        > 0),
                forall|k: i32| #[trigger]
                    entries_map(entries@).contains_key(k) ==> entries_map(entries@)[k]
                        == (GPUAlloc { contextCnt: 1, slotCnt: self.map@[k as int] }),
            decreases MAX_GPU_COUNT - i,
        {
            let ghost prev = entries@;
            if self.map[i] > 0 {
                let e = (i as i32, GPUAlloc { contextCnt: 1, slotCnt: self.map[i] });
                entries.push(e);
                proof {
                    assert(entries@.drop_last() =~= prev);
                    assert(entries@.last() == e);
                    assert(entries_map(entries@) == entries_map(prev).insert(e.0, e.1));
                    assert(keys_sorted(entries@)) by {
                        assert(forall|p: int|
                            0 <= p < prev.len() ==> (#[trigger] entries@[p]) == prev[p]);
                    }
                }
            }
            i = i + 1;
        }
        GPUResourceMap { totalSlotCnt: self.total, map: entries, slotSize: self.slotSize }
    }
}

} // verus!
