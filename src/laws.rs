use vstd::prelude::*;
use crate::interface::{InterfaceDescriptor, InterfaceId, in_chain};
use crate::object::{
    Aggregate, Located, ObjectHeap, add_ref_step, aggr_match, exposes, release_step, slot_match, with_count,
};
use crate::vtable::{InterfaceView, VTable};

verus! {

proof fn lemma_own_iid_in_chain(cat: Seq<InterfaceDescriptor>, i: int)
    requires
        0 <= i < cat.len(),
    ensures
        in_chain(cat, i, cat[i].iid),
{
}

proof fn lemma_slot_match_finds(cat: Seq<InterfaceDescriptor>, vts: Seq<VTable>, iid: InterfaceId, m: int, k: int)
    requires
        0 <= m <= k < vts.len(),
        in_chain(cat, vts[k].interface as int, iid),
    ensures
        slot_match(cat, vts, iid, m) matches Some(j) && m <= j <= k && in_chain(cat, vts[j].interface as int, iid),
    decreases k - m,
{
    if !in_chain(cat, vts[m].interface as int, iid) {
        lemma_slot_match_finds(cat, vts, iid, m + 1, k);
    }
}

proof fn lemma_slot_match_none(cat: Seq<InterfaceDescriptor>, vts: Seq<VTable>, iid: InterfaceId, m: int)
    requires
        0 <= m,
        forall|k: int| 0 <= k < vts.len() ==> !in_chain(cat, (#[trigger] vts[k]).interface as int, iid),
    ensures
        slot_match(cat, vts, iid, m) is None,
    decreases vts.len() - m,
{
    if m < vts.len() {
        lemma_slot_match_none(cat, vts, iid, m + 1);
    }
}

proof fn lemma_aggr_match_first(cat: Seq<InterfaceDescriptor>, aggs: Seq<Aggregate>, iid: InterfaceId, m: int, j: int)
    requires
        0 <= m <= j < aggs.len(),
        exposes(cat, aggs[j].interfaces@, iid),
        forall|i: int| m <= i < j ==> !exposes(cat, (#[trigger] aggs[i]).interfaces@, iid),
    ensures
        aggr_match(cat, aggs, iid, m) == Some(j),
    decreases j - m,
{
    if m < j {
        lemma_aggr_match_first(cat, aggs, iid, m + 1, j);
    }
}

proof fn lemma_aggr_match_none(cat: Seq<InterfaceDescriptor>, aggs: Seq<Aggregate>, iid: InterfaceId, m: int)
    requires
        0 <= m,
        forall|j: int| 0 <= j < aggs.len() ==> !exposes(cat, (#[trigger] aggs[j]).interfaces@, iid),
    ensures
        aggr_match(cat, aggs, iid, m) is None,
    decreases aggs.len() - m,
{
    if m < aggs.len() {
        lemma_aggr_match_none(cat, aggs, iid, m + 1);
    }
}

/// A query for the root interface on a live object always succeeds, with the
/// view of slot 0.
pub proof fn root_query_gives_slot_zero<T>(heap: ObjectHeap<T>, h: usize)
    requires
        heap.wf(),
        heap.live(h as int),
    ensures
        heap.resolve(h as int, heap.catalog.root_iid()) == Some(InterfaceView { object: h, slot: 0 }),
        heap.obj(h as int).vtables@.len() > 0,
{
}

/// A query for the interface of any slot of a live object succeeds, with a
/// view of that object at a slot no later than it whose interface is the one
/// asked for or extends it.
pub proof fn implemented_interface_resolves<T>(heap: ObjectHeap<T>, h: usize, k: int)
    requires
        heap.wf(),
        heap.live(h as int),
        0 <= k < heap.obj(h as int).vtables@.len(),
    ensures
        ({
            let vts = heap.obj(h as int).vtables@;
            let iid = heap.catalog.interfaces@[vts[k].interface as int].iid;
            heap.resolve(h as int, iid) matches Some(v) && v.object == h && v.slot <= k && (
                iid == heap.catalog.root_iid() || in_chain(heap.catalog.interfaces@, vts[v.slot as int].interface as int, iid)
            )
        }),
{
    let cat = heap.catalog.interfaces@;
    let vts = heap.obj(h as int).vtables@;
    assert(heap.object_wf(h as int, heap.obj(h as int)));
    assert(vts[k].interface < cat.len());
    let iid = cat[vts[k].interface as int].iid;
    lemma_own_iid_in_chain(cat, vts[k].interface as int);
    if iid != heap.catalog.root_iid() {
        lemma_slot_match_finds(cat, vts, iid, 0, k);
    }
}

/// A query followed by a release of the reference it gave leaves every
/// object as it was, provided the object was already referenced.
pub proof fn query_then_release_restores<T>(
    before: ObjectHeap<T>,
    queried: ObjectHeap<T>,
    released: ObjectHeap<T>,
    h: usize,
)
    requires
        before.count(h as int) >= 1,
        add_ref_step(before, queried, h as int),
        release_step(queried, released, h as int),
    ensures
        released.objects@ == before.objects@,
        released.catalog == before.catalog,
{
    assert(queried.obj(h as int) == with_count(before.obj(h as int), (before.count(h as int) + 1) as u32));
    assert(with_count(queried.obj(h as int), before.count(h as int)) == before.obj(h as int));
    assert(released.objects@ =~= before.objects@);
}

/// An identifier that is not the root's, that no slot's interface chain
/// holds and that no aggregation entry exposes is not found.
pub proof fn unimplemented_interface_fails<T>(heap: ObjectHeap<T>, h: usize, iid: InterfaceId)
    requires
        heap.wf(),
        heap.live(h as int),
        iid != heap.catalog.root_iid(),
        forall|k: int| 0 <= k < heap.obj(h as int).vtables@.len()
            ==> !in_chain(heap.catalog.interfaces@, (#[trigger] heap.obj(h as int).vtables@[k]).interface as int, iid),
        forall|j: int| 0 <= j < heap.obj(h as int).aggregates@.len()
            ==> !exposes(heap.catalog.interfaces@, (#[trigger] heap.obj(h as int).aggregates@[j]).interfaces@, iid),
    ensures
        heap.resolve(h as int, iid) is None,
{
    lemma_slot_match_none(heap.catalog.interfaces@, heap.obj(h as int).vtables@, iid, 0);
    lemma_aggr_match_none(heap.catalog.interfaces@, heap.obj(h as int).aggregates@, iid, 0);
}

/// An identifier exposed only through aggregation entry `j` (no slot holds
/// it, no earlier entry exposes it) resolves to whatever the sub-object
/// resolves it to; the successful query raises the outer count by one and
/// leaves the sub-object's count as it was.
pub proof fn aggregated_interface_forwards<T>(
    before: ObjectHeap<T>,
    after: ObjectHeap<T>,
    h: usize,
    iid: InterfaceId,
    j: int,
)
    requires
        before.wf(),
        before.live(h as int),
        iid != before.catalog.root_iid(),
        forall|k: int| 0 <= k < before.obj(h as int).vtables@.len()
            ==> !in_chain(before.catalog.interfaces@, (#[trigger] before.obj(h as int).vtables@[k]).interface as int, iid),
        0 <= j < before.obj(h as int).aggregates@.len(),
        exposes(before.catalog.interfaces@, before.obj(h as int).aggregates@[j].interfaces@, iid),
        forall|i: int| 0 <= i < j
            ==> !exposes(before.catalog.interfaces@, (#[trigger] before.obj(h as int).aggregates@[i]).interfaces@, iid),
        add_ref_step(before, after, h as int),
    ensures
        ({
            let t = before.obj(h as int).aggregates@[j].target as int;
            &&& before.located(h as int, iid) == Located::Delegate(t as usize)
            &&& t < h
            &&& before.resolve(h as int, iid) == before.resolve(t, iid)
            &&& after.objects@[t] == before.objects@[t]
            &&& after.count(h as int) == before.count(h as int) + 1
        }),
{
    let cat = before.catalog.interfaces@;
    let o = before.obj(h as int);
    assert(before.object_wf(h as int, o));
    assert(o.aggregates@[j].target < h);
    lemma_slot_match_none(cat, o.vtables@, iid, 0);
    lemma_aggr_match_first(cat, o.aggregates@, iid, 0, j);
}

/// `states` runs from a freshly allocated object `h` (count zero) through
/// `n` add_refs and then `n` releases.
pub open spec fn balanced_trace<T>(states: Seq<ObjectHeap<T>>, h: int, n: int) -> bool {
    &&& n >= 1
    &&& states.len() == 2 * n + 1
    &&& states[0].live(h)
    &&& states[0].count(h) == 0
    &&& forall|i: int| 0 <= i < n ==> add_ref_step(#[trigger] states[i], states[i + 1], h)
    &&& forall|i: int| n <= i < 2 * n ==> release_step(#[trigger] states[i], states[i + 1], h)
}

proof fn lemma_rising<T>(states: Seq<ObjectHeap<T>>, h: int, n: int, i: int)
    requires
        balanced_trace(states, h, n),
        0 <= i <= n,
    ensures
        states[i].live(h),
        states[i].count(h) == i,
        states[i].objects@ == states[0].objects@.update(h, Some(with_count(states[0].obj(h), i as u32))),
    decreases i,
{
    if i == 0 {
        assert(with_count(states[0].obj(h), 0) == states[0].obj(h));
        assert(states[0].objects@ =~= states[0].objects@.update(h, Some(states[0].obj(h))));
    } else {
        lemma_rising(states, h, n, i - 1);
        assert(add_ref_step(states[i - 1], states[i], h));
        assert(states[i].objects@ =~= states[0].objects@.update(h, Some(with_count(states[0].obj(h), i as u32))));
    }
}

proof fn lemma_falling<T>(states: Seq<ObjectHeap<T>>, h: int, n: int, i: int)
    requires
        balanced_trace(states, h, n),
        n <= i < 2 * n,
    ensures
        states[i].live(h),
        states[i].count(h) == 2 * n - i,
        states[i].objects@ == states[0].objects@.update(h, Some(with_count(states[0].obj(h), (2 * n - i) as u32))),
    decreases i,
{
    if i == n {
        lemma_rising(states, h, n, n);
    } else {
        lemma_falling(states, h, n, i - 1);
        assert(release_step(states[i - 1], states[i], h));
        assert(states[i].objects@ =~= states[0].objects@.update(
            h,
            Some(with_count(states[0].obj(h), (2 * n - i) as u32)),
        ));
    }
}

/// On a freshly allocated object, `n` add_refs followed by `n` releases keep
/// the object alive until the last release, which destroys it, with every
/// dispatch table it owns, and touches no other object.
pub proof fn balanced_references_destroy_once<T>(states: Seq<ObjectHeap<T>>, h: int, n: int)
    requires
        balanced_trace(states, h, n),
    ensures
        forall|i: int| 0 <= i < 2 * n ==> (#[trigger] states[i]).live(h),
        !states[2 * n].live(h),
        states[2 * n].objects@ == states[0].objects@.update(h, None),
{
    assert forall|i: int| 0 <= i < 2 * n implies (#[trigger] states[i]).live(h) by {
        if i <= n {
            lemma_rising(states, h, n, i);
        } else {
            lemma_falling(states, h, n, i);
        }
    }
    lemma_falling(states, h, n, 2 * n - 1);
    assert(release_step(states[2 * n - 1], states[2 * n], h));
    assert(states[2 * n].objects@ =~= states[0].objects@.update(h, None));
}

} // verus!
