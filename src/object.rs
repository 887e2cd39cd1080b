use vstd::prelude::*;
use crate::interface::{InterfaceCatalog, InterfaceDescriptor, InterfaceId, chain_methods, in_chain};
use crate::vtable::{InterfaceView, Invocation, VTable};

verus! {

/// A payload field that holds another object, and the interfaces that object
/// exposes on the outer object's behalf.
pub struct Aggregate {
    pub target: usize,
    pub interfaces: Vec<usize>,
}

/// What a class declares: the interfaces it implements, in slot order, and
/// the aggregated sub-objects it forwards other interfaces to.
pub struct ClassDecl {
    pub interfaces: Vec<usize>,
    pub aggregates: Vec<Aggregate>,
}

/// One object header: a dispatch table per implemented interface (slot `k`
/// holds the table of the class's `k`-th interface), the reference count,
/// the aggregation entries and the payload.
pub struct ComObject<T> {
    pub vtables: Vec<VTable>,
    pub ref_count: u32,
    pub aggregates: Vec<Aggregate>,
    pub payload: T,
}

/// A query that no slot and no aggregated sub-object satisfies.
#[derive(Clone, Copy, Debug, PartialEq, Eq, Structural)]
pub enum QueryError {
    NoSuchInterface,
}

/// Why a class declaration cannot be built.
#[derive(Clone, Copy, Debug, PartialEq, Eq, Structural)]
pub enum ClassError {
    NoInterfaces,
    UnknownInterface,
    DuplicateInterface,
    EmptyAggregate,
    UnknownAggregateTarget,
}

/// Where an interface identifier leads on one object.
#[derive(Clone, Copy, Debug, PartialEq, Eq, Structural)]
pub enum Located {
    Slot(usize),
    Delegate(usize),
    Missing,
}

/// The objects of one process, each at a handle that stays its own; a
/// destroyed object leaves `None` behind.
pub struct ObjectHeap<T> {
    pub catalog: InterfaceCatalog,
    pub objects: Vec<Option<ComObject<T>>>,
}

/// The same object with another reference count.
pub open spec fn with_count<T>(o: ComObject<T>, c: u32) -> ComObject<T> {
    ComObject { vtables: o.vtables, ref_count: c, aggregates: o.aggregates, payload: o.payload }
}

/// `b` is `a` after one `add_ref` on `h`.
pub open spec fn add_ref_step<T>(a: ObjectHeap<T>, b: ObjectHeap<T>, h: int) -> bool {
    &&& a.live(h)
    &&& a.count(h) < u32::MAX
    &&& b.catalog == a.catalog
    &&& b.objects@ == a.objects@.update(h, Some(with_count(a.obj(h), (a.count(h) + 1) as u32)))
}

/// `b` is `a` after one `release` on `h`: the count drops by one, and at
/// zero the object is gone.
pub open spec fn release_step<T>(a: ObjectHeap<T>, b: ObjectHeap<T>, h: int) -> bool {
    &&& a.live(h)
    &&& a.count(h) > 0
    &&& b.catalog == a.catalog
    &&& if a.count(h) == 1 {
        b.objects@ == a.objects@.update(h, None)
    } else {
        b.objects@ == a.objects@.update(h, Some(with_count(a.obj(h), (a.count(h) - 1) as u32)))
    }
}

/// Whether some interface of `ifs` is `iid` or inherits from it.
pub open spec fn exposes(cat: Seq<InterfaceDescriptor>, ifs: Seq<usize>, iid: InterfaceId) -> bool {
    exists|i: int| 0 <= i < ifs.len() && in_chain(cat, #[trigger] ifs[i] as int, iid)
}

/// The first slot, from `k` on, whose interface chain holds `iid`.
pub open spec fn slot_match(cat: Seq<InterfaceDescriptor>, vts: Seq<VTable>, iid: InterfaceId, k: int) -> Option<int>
    decreases vts.len() - k,
{
    if 0 <= k < vts.len() {
        if in_chain(cat, vts[k].interface as int, iid) {
            Some(k)
        } else {
            slot_match(cat, vts, iid, k + 1)
        }
    } else {
        None
    }
}

/// The first aggregation entry, from `j` on, that exposes `iid`.
pub open spec fn aggr_match(cat: Seq<InterfaceDescriptor>, aggs: Seq<Aggregate>, iid: InterfaceId, j: int) -> Option<int>
    decreases aggs.len() - j,
{
    if 0 <= j < aggs.len() {
        if exposes(cat, aggs[j].interfaces@, iid) {
            Some(j)
        } else {
            aggr_match(cat, aggs, iid, j + 1)
        }
    } else {
        None
    }
}

/// Some interface of `ifs` is not in a catalog of `n` interfaces.
pub open spec fn has_unknown(ifs: Seq<usize>, n: int) -> bool {
    exists|k: int| 0 <= k < ifs.len() && #[trigger] ifs[k] >= n
}

/// Some interface stands twice in `ifs`.
pub open spec fn has_duplicate(ifs: Seq<usize>) -> bool {
    exists|i: int, j: int| 0 <= i < j < ifs.len() && #[trigger] ifs[i] == #[trigger] ifs[j]
}

/// A well-formed class for a heap of `n` objects over catalog `cat`: at
/// least one interface, each known and each once, and well-formed
/// aggregation entries.
pub open spec fn class_wf(cat: Seq<InterfaceDescriptor>, n: int, c: ClassDecl) -> bool {
    &&& c.interfaces@.len() > 0
    &&& forall|k: int| 0 <= k < c.interfaces@.len() ==> #[trigger] c.interfaces@[k] < cat.len()
    &&& !has_duplicate(c.interfaces@)
    &&& aggregates_wf(cat, n, c.aggregates@)
}

/// Every entry names an earlier object and a non-empty set of known interfaces.
pub open spec fn aggregates_wf(cat: Seq<InterfaceDescriptor>, n: int, aggs: Seq<Aggregate>) -> bool {
    forall|j: int| 0 <= j < aggs.len() ==> {
        &&& (#[trigger] aggs[j]).target < n
        &&& aggs[j].interfaces@.len() > 0
        &&& forall|i: int| 0 <= i < aggs[j].interfaces@.len() ==> #[trigger] aggs[j].interfaces@[i] < cat.len()
    }
}

impl<T> ObjectHeap<T> {
    pub open spec fn live(&self, h: int) -> bool {
        0 <= h < self.objects@.len() && self.objects@[h] is Some
    }

    pub open spec fn obj(&self, h: int) -> ComObject<T> {
        self.objects@[h]->Some_0
    }

    pub open spec fn count(&self, h: int) -> u32 {
        self.obj(h).ref_count
    }

    pub open spec fn object_wf(&self, h: int, o: ComObject<T>) -> bool {
        &&& o.vtables@.len() > 0
        &&& forall|k: int| 0 <= k < o.vtables@.len() ==> {
            &&& (#[trigger] o.vtables@[k]).interface < self.catalog.interfaces@.len()
            &&& o.vtables@[k].built_for(&self.catalog, o.vtables@[k].interface as int, k)
        }
        &&& aggregates_wf(self.catalog.interfaces@, h, o.aggregates@)
    }

    pub open spec fn wf(&self) -> bool {
        &&& self.catalog.wf()
        &&& forall|h: int| 0 <= h < self.objects@.len() && (#[trigger] self.objects@[h]) is Some
            ==> self.object_wf(h, self.objects@[h]->Some_0)
    }

    /// Where `iid` leads on live object `h`: the root interface to slot 0,
    /// then the first slot whose chain holds it, then the first aggregation
    /// entry that exposes it.
    pub open spec fn located(&self, h: int, iid: InterfaceId) -> Located {
        let o = self.obj(h);
        let cat = self.catalog.interfaces@;
        if iid == self.catalog.root_iid() {
            Located::Slot(0)
        } else {
            match slot_match(cat, o.vtables@, iid, 0) {
                Some(k) => Located::Slot(k as usize),
                None => match aggr_match(cat, o.aggregates@, iid, 0) {
                    Some(j) => Located::Delegate(o.aggregates@[j].target),
                    None => Located::Missing,
                },
            }
        }
    }

    /// The view that a query for `iid` on object `h` yields, if any.
    pub open spec fn resolve(&self, h: int, iid: InterfaceId) -> Option<InterfaceView>
        decreases h,
    {
        if !self.live(h) || h < 0 {
            None
        } else {
            match self.located(h, iid) {
                Located::Slot(k) => Some(InterfaceView { object: h as usize, slot: k }),
                Located::Delegate(t) => if t < h { self.resolve(t as int, iid) } else { None },
                Located::Missing => None,
            }
        }
    }

    /// A query for `iid` on `h` touches only live objects, and no count it
    /// raises is at its limit. A sub-object that a query is forwarded to is
    /// held by the outer object, so its count is at least one.
    pub open spec fn can_query(&self, h: int, iid: InterfaceId) -> bool
        decreases h,
    {
        &&& self.live(h)
        &&& h >= 0
        &&& self.count(h) < u32::MAX
        &&& match self.located(h, iid) {
            Located::Delegate(t) => t < h && self.count(t as int) > 0 && self.can_query(t as int, iid),
            _ => true,
        }
    }
}


impl<T> ObjectHeap<T> {
    /// An empty heap over `catalog`.
    pub fn new(catalog: InterfaceCatalog) -> (r: ObjectHeap<T>)
        requires
            catalog.wf(),
        ensures
            r.wf(),
            r.catalog == catalog,
            r.objects@.len() == 0,
    {
        ObjectHeap { catalog, objects: Vec::new() }
    }

    /// Whether `h` names an object that has not been destroyed.
    pub fn is_live(&self, h: usize) -> (r: bool)
        ensures
            r == self.live(h as int),
    {
        h < self.objects.len() && self.objects[h].is_some()
    }

    /// The reference count of live object `h`.
    pub fn ref_count(&self, h: usize) -> (r: u32)
        requires
            self.live(h as int),
        ensures
            r == self.count(h as int),
    {
        match &self.objects[h] {
            Some(o) => o.ref_count,
            None => 0,
        }
    }

    /// Increments the reference count of `h` and returns the new count.
    pub fn add_ref(&mut self, h: usize) -> (r: u32)
        requires
            old(self).wf(),
            old(self).live(h as int),
            old(self).count(h as int) < u32::MAX,
        ensures
            final(self).wf(),
            r == old(self).count(h as int) + 1,
            add_ref_step(*old(self), *final(self), h as int),
    {
        let ghost before = self.objects@;
        let r: u32;
        match &mut self.objects[h] {
            Some(o) => {
                o.ref_count = o.ref_count + 1;
                r = o.ref_count;
            },
            None => {
                r = 0;
            },
        }
        assert(self.objects@ =~= before.update(h as int, Some(with_count(before[h as int]->Some_0, r))));
        r
    }

    /// Decrements the reference count of `h` and returns the new count. At
    /// zero the object is destroyed: its header and every dispatch table it
    /// owns are dropped, and `h` is never live again.
    pub fn release(&mut self, h: usize) -> (r: u32)
        requires
            old(self).wf(),
            old(self).live(h as int),
            old(self).count(h as int) > 0,
        ensures
            final(self).wf(),
            r == old(self).count(h as int) - 1,
            release_step(*old(self), *final(self), h as int),
    {
        let ghost before = self.objects@;
        let r: u32;
        match &mut self.objects[h] {
            Some(o) => {
                o.ref_count = o.ref_count - 1;
                r = o.ref_count;
            },
            None => {
                r = 0;
            },
        }
        if r == 0 {
            self.objects[h] = None;
            assert(self.objects@ =~= before.update(h as int, None));
        } else {
            assert(self.objects@ =~= before.update(h as int, Some(with_count(before[h as int]->Some_0, r))));
        }
        r
    }
}

/// Whether some interface of `ifs` is `iid` or inherits from it.
pub fn exposes_iid(cat: &InterfaceCatalog, ifs: &Vec<usize>, iid: InterfaceId) -> (r: bool)
    requires
        cat.wf(),
    ensures
        r == exposes(cat.interfaces@, ifs@, iid),
{
    let mut i: usize = 0;
    while i < ifs.len()
        invariant
            cat.wf(),
            i <= ifs@.len(),
            forall|m: int| 0 <= m < i ==> !in_chain(cat.interfaces@, #[trigger] ifs@[m] as int, iid),
        decreases ifs@.len() - i,
    {
        if cat.iid_in_inheritance_chain(ifs[i], iid) {
            return true;
        }
        i = i + 1;
    }
    false
}

impl<T> ObjectHeap<T> {
    /// Where a query for `iid` on live object `h` leads.
    pub fn locate(&self, h: usize, iid: InterfaceId) -> (r: Located)
        requires
            self.wf(),
            self.live(h as int),
        ensures
            r == self.located(h as int, iid),
    {
        let o = match &self.objects[h] {
            Some(o) => o,
            None => {
                return Located::Missing;
            },
        };
        if iid == self.catalog.interfaces[0].iid {
            return Located::Slot(0);
        }
        let ghost cat = self.catalog.interfaces@;
        let mut k: usize = 0;
        while k < o.vtables.len()
            invariant
                self.wf(),
                cat == self.catalog.interfaces@,
                *o == self.obj(h as int),
                iid != self.catalog.root_iid(),
                k <= o.vtables@.len(),
                slot_match(cat, o.vtables@, iid, 0) == slot_match(cat, o.vtables@, iid, k as int),
            decreases o.vtables@.len() - k,
        {
            let hit = self.catalog.iid_in_inheritance_chain(o.vtables[k].interface, iid);
            assert(slot_match(cat, o.vtables@, iid, k as int) == if hit {
                Some(k as int)
            } else {
                slot_match(cat, o.vtables@, iid, k + 1)
            });
            if hit {
                return Located::Slot(k);
            }
            k = k + 1;
        }
        let mut j: usize = 0;
        while j < o.aggregates.len()
            invariant
                self.wf(),
                cat == self.catalog.interfaces@,
                *o == self.obj(h as int),
                iid != self.catalog.root_iid(),
                j <= o.aggregates@.len(),
                slot_match(cat, o.vtables@, iid, 0) is None,
                aggr_match(cat, o.aggregates@, iid, 0) == aggr_match(cat, o.aggregates@, iid, j as int),
            decreases o.aggregates@.len() - j,
        {
            let hit = exposes_iid(&self.catalog, &o.aggregates[j].interfaces, iid);
            assert(aggr_match(cat, o.aggregates@, iid, j as int) == if hit {
                Some(j as int)
            } else {
                aggr_match(cat, o.aggregates@, iid, j + 1)
            });
            if hit {
                return Located::Delegate(o.aggregates[j].target);
            }
            j = j + 1;
        }
        Located::Missing
    }

    /// Resolves `iid` on object `h`: the root interface gives slot 0, then
    /// the first slot whose interface chain holds `iid`, then the first
    /// aggregation entry that exposes it, whose sub-object is asked in turn.
    /// Success hands the caller a new reference: the count of `h` rises by
    /// one, and a sub-object asked on the way ends with the count it had.
    pub fn query_interface(&mut self, h: usize, iid: InterfaceId) -> (r: Result<InterfaceView, QueryError>)
        requires
            old(self).wf(),
            old(self).can_query(h as int, iid),
        ensures
            final(self).wf(),
            final(self).catalog == old(self).catalog,
            match old(self).resolve(h as int, iid) {
                Some(v) => {
                    &&& r == Ok::<InterfaceView, QueryError>(v)
                    &&& add_ref_step(*old(self), *final(self), h as int)
                },
                None => {
                    &&& r == Err::<InterfaceView, QueryError>(QueryError::NoSuchInterface)
                    &&& final(self).objects@ == old(self).objects@
                },
            },
        decreases h,
    {
        let ghost before = *self;
        match self.locate(h, iid) {
            Located::Slot(k) => {
                self.add_ref(h);
                Ok(InterfaceView { object: h, slot: k })
            },
            Located::Delegate(t) => {
                assert(before.resolve(h as int, iid) == before.resolve(t as int, iid));
                assert(before.can_query(t as int, iid));
                assert(before.count(t as int) < u32::MAX);
                let sub = self.query_interface(t, iid);
                match sub {
                    Ok(v) => {
                        // The sub-object counted the reference it handed out;
                        // the outer object's count is the one that holds it.
                        self.release(t);
                        assert(with_count(self.obj(t as int), before.count(t as int)) == before.obj(t as int));
                        assert(self.objects@ =~= before.objects@);
                        self.add_ref(h);
                        Ok(v)
                    },
                    Err(e) => Err(e),
                }
            },
            Located::Missing => Err(QueryError::NoSuchInterface),
        }
    }
}

impl<T> ObjectHeap<T> {
    /// Builds one object of class `class` around `payload`: a dispatch table
    /// per implemented interface, in declared order, and a count of zero.
    /// The caller owns the object's first reference.
    pub fn allocate(&mut self, class: ClassDecl, payload: T) -> (h: usize)
        requires
            old(self).wf(),
            class_wf(old(self).catalog.interfaces@, old(self).objects@.len() as int, class),
            old(self).objects@.len() < usize::MAX,
        ensures
            final(self).wf(),
            final(self).catalog == old(self).catalog,
            h == old(self).objects@.len(),
            final(self).objects@.len() == h + 1,
            forall|j: int| 0 <= j < h ==> final(self).objects@[j] == old(self).objects@[j],
            final(self).live(h as int),
            final(self).count(h as int) == 0,
            final(self).obj(h as int).payload == payload,
            final(self).obj(h as int).aggregates@ == class.aggregates@,
            final(self).obj(h as int).vtables@.len() == class.interfaces@.len(),
            forall|k: int| 0 <= k < class.interfaces@.len() ==> (#[trigger] final(self).obj(h as int).vtables@[k]).built_for(
                &final(self).catalog,
                class.interfaces@[k] as int,
                k,
            ),
    {
        let ClassDecl { interfaces, aggregates } = class;
        let mut vtables: Vec<VTable> = Vec::new();
        let mut k: usize = 0;
        while k < interfaces.len()
            invariant
                self.wf(),
                k <= interfaces@.len(),
                vtables@.len() == k,
                forall|m: int| 0 <= m < interfaces@.len() ==> #[trigger] interfaces@[m] < self.catalog.interfaces@.len(),
                forall|m: int| 0 <= m < k ==> (#[trigger] vtables@[m]).built_for(&self.catalog, interfaces@[m] as int, m),
            decreases interfaces@.len() - k,
        {
            let vt = VTable::build(&self.catalog, interfaces[k], k);
            vtables.push(vt);
            k = k + 1;
        }
        let h = self.objects.len();
        let ghost before = self.objects@;
        self.objects.push(Some(ComObject { vtables, ref_count: 0, aggregates, payload }));
        assert forall|j: int| 0 <= j < self.objects@.len() && (#[trigger] self.objects@[j]) is Some
            implies self.object_wf(j, self.objects@[j]->Some_0) by {
            if j < h {
                assert(self.objects@[j] == before[j]);
            }
        }
        h
    }

    /// The payload of live object `h`.
    pub fn payload(&self, h: usize) -> (r: &T)
        requires
            self.live(h as int),
        ensures
            *r == self.obj(h as int).payload,
    {
        &self.objects[h].as_ref().unwrap().payload
    }
}

impl<T> ObjectHeap<T> {
    /// A call of operation `k` through `view`: the slot's table fixes the
    /// view up to the object header and names the operation to run.
    pub fn invoke(&self, view: InterfaceView, k: usize) -> (r: Invocation)
        requires
            self.wf(),
            self.live(view.object as int),
            view.slot < self.obj(view.object as int).vtables@.len(),
            k < self.obj(view.object as int).vtables@[view.slot as int].entries@.len(),
        ensures
            r.object == view.object,
            r.method == chain_methods(
                self.catalog.interfaces@,
                self.obj(view.object as int).vtables@[view.slot as int].interface as int,
            )[k as int],
    {
        let o = self.objects[view.object].as_ref().unwrap();
        o.vtables[view.slot].thunk(view, k)
    }
}

/// Whether `ifs` names some interface twice.
fn find_duplicate(ifs: &Vec<usize>) -> (r: bool)
    ensures
        r == has_duplicate(ifs@),
{
    let mut j: usize = 0;
    while j < ifs.len()
        invariant
            j <= ifs@.len(),
            forall|a: int, b: int| 0 <= a < b < j ==> ifs@[a] != ifs@[b],
        decreases ifs@.len() - j,
    {
        let mut i: usize = 0;
        while i < j
            invariant
                i <= j < ifs@.len(),
                forall|a: int| 0 <= a < i ==> ifs@[a] != ifs@[j as int],
            decreases j - i,
        {
            if ifs[i] == ifs[j] {
                return true;
            }
            i = i + 1;
        }
        j = j + 1;
    }
    false
}

/// Whether some interface of `ifs` is outside a catalog of `n`.
fn find_unknown(ifs: &Vec<usize>, n: usize) -> (r: bool)
    ensures
        r == has_unknown(ifs@, n as int),
{
    let mut k: usize = 0;
    while k < ifs.len()
        invariant
            k <= ifs@.len(),
            forall|m: int| 0 <= m < k ==> ifs@[m] < n,
        decreases ifs@.len() - k,
    {
        if ifs[k] >= n {
            return true;
        }
        k = k + 1;
    }
    false
}

impl<T> ObjectHeap<T> {
    /// Checks a class declaration before `allocate`: it succeeds exactly on
    /// the well-formed ones, and each error names a defect that is there.
    pub fn check_class(&self, class: &ClassDecl) -> (r: Result<(), ClassError>)
        ensures
            r is Ok <==> class_wf(self.catalog.interfaces@, self.objects@.len() as int, *class),
            r == Err::<(), ClassError>(ClassError::NoInterfaces) <==> class.interfaces@.len() == 0,
            r == Err::<(), ClassError>(ClassError::UnknownInterface) ==> has_unknown(
                class.interfaces@,
                self.catalog.interfaces@.len() as int,
            ) || exists|j: int|
                0 <= j < class.aggregates@.len() && has_unknown(
                    (#[trigger] class.aggregates@[j]).interfaces@,
                    self.catalog.interfaces@.len() as int,
                ),
            r == Err::<(), ClassError>(ClassError::DuplicateInterface) ==> has_duplicate(class.interfaces@),
            r == Err::<(), ClassError>(ClassError::EmptyAggregate) ==> exists|j: int|
                0 <= j < class.aggregates@.len() && (#[trigger] class.aggregates@[j]).interfaces@.len() == 0,
            r == Err::<(), ClassError>(ClassError::UnknownAggregateTarget) ==> exists|j: int|
                0 <= j < class.aggregates@.len() && (#[trigger] class.aggregates@[j]).target >= self.objects@.len(),
    {
        let n = self.catalog.interfaces.len();
        if class.interfaces.len() == 0 {
            return Err(ClassError::NoInterfaces);
        }
        if find_unknown(&class.interfaces, n) {
            return Err(ClassError::UnknownInterface);
        }
        if find_duplicate(&class.interfaces) {
            return Err(ClassError::DuplicateInterface);
        }
        let mut j: usize = 0;
        while j < class.aggregates.len()
            invariant
                n == self.catalog.interfaces@.len(),
                class.interfaces@.len() > 0,
                j <= class.aggregates@.len(),
                aggregates_wf(self.catalog.interfaces@, self.objects@.len() as int, class.aggregates@.subrange(0, j as int)),
            decreases class.aggregates@.len() - j,
        {
            let agg = &class.aggregates[j];
            if agg.interfaces.len() == 0 {
                return Err(ClassError::EmptyAggregate);
            }
            if agg.target >= self.objects.len() {
                return Err(ClassError::UnknownAggregateTarget);
            }
            if find_unknown(&agg.interfaces, n) {
                return Err(ClassError::UnknownInterface);
            }
            assert(class.aggregates@.subrange(0, j + 1) =~= class.aggregates@.subrange(0, j as int).push(*agg));
            j = j + 1;
        }
        assert(class.aggregates@.subrange(0, j as int) =~= class.aggregates@);
        Ok(())
    }
}

} // verus!
