use co_class::interface::{InterfaceCatalog, InterfaceId, MethodRef};
use co_class::object::{exposes_iid, Aggregate, ClassDecl, ClassError, Located, ObjectHeap, QueryError};
use co_class::vtable::{InterfaceView, VTable};

const ROOT: InterfaceId = InterfaceId { value: 0x0000_0000_0000_0000_C000_0000_0000_0046 };
const ID_A: InterfaceId = InterfaceId { value: 0xA };
const ID_B: InterfaceId = InterfaceId { value: 0xB };
const ID_X: InterfaceId = InterfaceId { value: 0x58 };
const ID_Y: InterfaceId = InterfaceId { value: 0x59 };
const ID_Z: InterfaceId = InterfaceId { value: 0x5A };

struct Setup {
    cat: InterfaceCatalog,
    a: usize,
    b: usize,
    x: usize,
    y: usize,
}

// root (3 operations) <- A (2) <- B (1); root <- X (1); root <- Y (2)
fn setup() -> Setup {
    let mut cat = InterfaceCatalog::new(ROOT, 3);
    let a = cat.declare(ID_A, 0, 2);
    let b = cat.declare(ID_B, a, 1);
    let x = cat.declare(ID_X, 0, 1);
    let y = cat.declare(ID_Y, 0, 2);
    Setup { cat, a, b, x, y }
}

fn class(interfaces: Vec<usize>, aggregates: Vec<Aggregate>) -> ClassDecl {
    ClassDecl { interfaces, aggregates }
}

#[test]
fn catalog_declare_returns_next_index() {
    let s = setup();
    assert_eq!((s.a, s.b, s.x, s.y), (1, 2, 3, 4));
    assert_eq!(s.cat.interfaces.len(), 5);
    assert_eq!(s.cat.interfaces[2].base, Some(1));
}

#[test]
fn inheritance_chain_follows_bases() {
    let s = setup();
    assert!(s.cat.iid_in_inheritance_chain(s.b, ID_B));
    assert!(s.cat.iid_in_inheritance_chain(s.b, ID_A));
    assert!(s.cat.iid_in_inheritance_chain(s.b, ROOT));
    assert!(!s.cat.iid_in_inheritance_chain(s.a, ID_B));
    assert!(!s.cat.iid_in_inheritance_chain(s.x, ID_A));
    assert!(!s.cat.iid_in_inheritance_chain(99, ROOT));
}

#[test]
fn methods_list_inherited_operations_first() {
    let s = setup();
    let m = s.cat.methods_of(s.b);
    assert_eq!(m.len(), 6);
    assert_eq!(m[0], MethodRef { interface: 0, index: 0 });
    assert_eq!(m[2], MethodRef { interface: 0, index: 2 });
    assert_eq!(m[3], MethodRef { interface: 1, index: 0 });
    assert_eq!(m[4], MethodRef { interface: 1, index: 1 });
    assert_eq!(m[5], MethodRef { interface: 2, index: 0 });
    assert_eq!(s.cat.methods_of(0).len(), 3);
}

#[test]
fn vtable_thunk_recovers_header() {
    let s = setup();
    let vt = VTable::build(&s.cat, s.x, 1);
    assert_eq!(vt.offset, 1);
    assert_eq!(vt.entries.len(), 4);
    let inv = vt.thunk(InterfaceView { object: 7, slot: 1 }, 3);
    assert_eq!(inv.object, 7);
    assert_eq!(inv.method, MethodRef { interface: 3, index: 0 });
}

#[test]
fn allocate_lays_out_one_slot_per_interface() {
    let s = setup();
    let (a, x) = (s.a, s.x);
    let mut heap: ObjectHeap<u32> = ObjectHeap::new(s.cat);
    let h = heap.allocate(class(vec![a, x], vec![]), 42);
    assert_eq!(h, 0);
    assert!(heap.is_live(h));
    assert_eq!(heap.ref_count(h), 0);
    assert_eq!(*heap.payload(h), 42);
    let o = heap.objects[h].as_ref().unwrap();
    assert_eq!(o.vtables.len(), 2);
    assert_eq!((o.vtables[0].interface, o.vtables[0].offset), (a, 0));
    assert_eq!((o.vtables[1].interface, o.vtables[1].offset), (x, 1));
    assert_eq!(heap.allocate(class(vec![x], vec![]), 7), 1);
}

#[test]
fn root_query_returns_slot_zero() {
    let s = setup();
    let (a, x) = (s.a, s.x);
    let mut heap: ObjectHeap<()> = ObjectHeap::new(s.cat);
    let h = heap.allocate(class(vec![x, a], vec![]), ());
    assert_eq!(heap.query_interface(h, ROOT), Ok(InterfaceView { object: h, slot: 0 }));
    assert_eq!(heap.ref_count(h), 1);
}

#[test]
fn implemented_query_then_release_nets_zero() {
    let s = setup();
    let (a, x) = (s.a, s.x);
    let mut heap: ObjectHeap<()> = ObjectHeap::new(s.cat);
    let h = heap.allocate(class(vec![a, x], vec![]), ());
    heap.add_ref(h);
    let view = heap.query_interface(h, ID_X).unwrap();
    assert_eq!(view, InterfaceView { object: h, slot: 1 });
    assert_eq!(heap.ref_count(h), 2);
    let inv = heap.invoke(view, 3);
    assert_eq!(inv.object, h);
    assert_eq!(inv.method, MethodRef { interface: x, index: 0 });
    assert_eq!(heap.release(h), 1);
    assert_eq!(heap.ref_count(h), 1);
}

#[test]
fn unimplemented_query_fails() {
    let s = setup();
    let a = s.a;
    let mut heap: ObjectHeap<()> = ObjectHeap::new(s.cat);
    let h = heap.allocate(class(vec![a], vec![]), ());
    assert_eq!(heap.query_interface(h, ID_X), Err(QueryError::NoSuchInterface));
    assert_eq!(heap.query_interface(h, ID_Z), Err(QueryError::NoSuchInterface));
    assert_eq!(heap.query_interface(h, ID_B), Err(QueryError::NoSuchInterface));
    assert_eq!(heap.ref_count(h), 0);
}

#[test]
fn base_interface_found_through_derived_slot() {
    let s = setup();
    let (b, x) = (s.b, s.x);
    let mut heap: ObjectHeap<()> = ObjectHeap::new(s.cat);
    let h = heap.allocate(class(vec![x, b], vec![]), ());
    assert_eq!(heap.locate(h, ID_A), Located::Slot(1));
    assert_eq!(heap.query_interface(h, ID_A), Ok(InterfaceView { object: h, slot: 1 }));
    assert_eq!(heap.query_interface(h, ID_B), Ok(InterfaceView { object: h, slot: 1 }));
    assert_eq!(heap.ref_count(h), 2);
}

#[test]
fn aggregated_query_forwards_to_sub_object() {
    let s = setup();
    let (a, x) = (s.a, s.x);
    let mut heap: ObjectHeap<u8> = ObjectHeap::new(s.cat);
    let inner = heap.allocate(class(vec![a, x], vec![]), 1);
    heap.add_ref(inner);
    let outer = heap.allocate(class(vec![a], vec![Aggregate { target: inner, interfaces: vec![x] }]), 2);
    assert_eq!(heap.locate(outer, ID_X), Located::Delegate(inner));
    let view = heap.query_interface(outer, ID_X).unwrap();
    assert_eq!(view, InterfaceView { object: inner, slot: 1 });
    assert_eq!(heap.ref_count(inner), 1);
    assert_eq!(heap.ref_count(outer), 1);
    assert_eq!(heap.invoke(view, 3).method, MethodRef { interface: x, index: 0 });
}

#[test]
fn aggregated_mismatch_fails_without_fallback() {
    let s = setup();
    let (a, x, y) = (s.a, s.x, s.y);
    let mut heap: ObjectHeap<()> = ObjectHeap::new(s.cat);
    let first = heap.allocate(class(vec![y], vec![]), ());
    heap.add_ref(first);
    let second = heap.allocate(class(vec![x], vec![]), ());
    heap.add_ref(second);
    let outer = heap.allocate(
        class(
            vec![a],
            vec![
                Aggregate { target: first, interfaces: vec![x] },
                Aggregate { target: second, interfaces: vec![x] },
            ],
        ),
        (),
    );
    assert_eq!(heap.locate(outer, ID_X), Located::Delegate(first));
    assert_eq!(heap.query_interface(outer, ID_X), Err(QueryError::NoSuchInterface));
    assert_eq!(heap.ref_count(outer), 0);
    assert_eq!(heap.ref_count(first), 1);
    assert_eq!(heap.ref_count(second), 1);
}

#[test]
fn local_slot_wins_over_aggregate() {
    let s = setup();
    let (a, x) = (s.a, s.x);
    let mut heap: ObjectHeap<()> = ObjectHeap::new(s.cat);
    let inner = heap.allocate(class(vec![x], vec![]), ());
    heap.add_ref(inner);
    let outer = heap.allocate(class(vec![a, x], vec![Aggregate { target: inner, interfaces: vec![x] }]), ());
    assert_eq!(heap.query_interface(outer, ID_X), Ok(InterfaceView { object: outer, slot: 1 }));
}

#[test]
fn nested_aggregation_resolves_through_both() {
    let s = setup();
    let (a, x, y) = (s.a, s.x, s.y);
    let mut heap: ObjectHeap<()> = ObjectHeap::new(s.cat);
    let leaf = heap.allocate(class(vec![x], vec![]), ());
    heap.add_ref(leaf);
    let middle = heap.allocate(class(vec![y], vec![Aggregate { target: leaf, interfaces: vec![x] }]), ());
    heap.add_ref(middle);
    let outer = heap.allocate(class(vec![a], vec![Aggregate { target: middle, interfaces: vec![x] }]), ());
    assert_eq!(heap.query_interface(outer, ID_X), Ok(InterfaceView { object: leaf, slot: 0 }));
    assert_eq!((heap.ref_count(leaf), heap.ref_count(middle), heap.ref_count(outer)), (1, 1, 1));
}

#[test]
fn balanced_references_destroy_at_last_release() {
    let s = setup();
    let a = s.a;
    let mut heap: ObjectHeap<()> = ObjectHeap::new(s.cat);
    let other = heap.allocate(class(vec![a], vec![]), ());
    let h = heap.allocate(class(vec![a], vec![]), ());
    let n: u32 = 5;
    for i in 0..n {
        assert_eq!(heap.add_ref(h), i + 1);
    }
    for i in 0..n {
        assert!(heap.is_live(h));
        assert_eq!(heap.release(h), n - i - 1);
    }
    assert!(!heap.is_live(h));
    assert!(heap.objects[h].is_none());
    assert!(heap.is_live(other));
}

#[test]
fn exposes_checks_each_interface_chain() {
    let s = setup();
    assert!(exposes_iid(&s.cat, &vec![s.x, s.b], ID_A));
    assert!(!exposes_iid(&s.cat, &vec![s.x, s.y], ID_A));
    assert!(!exposes_iid(&s.cat, &vec![], ROOT));
}

#[test]
fn check_class_accepts_well_formed() {
    let s = setup();
    let (a, b, x) = (s.a, s.b, s.x);
    let mut heap: ObjectHeap<()> = ObjectHeap::new(s.cat);
    let inner = heap.allocate(class(vec![x], vec![]), ());
    let c = class(vec![a, b], vec![Aggregate { target: inner, interfaces: vec![x] }]);
    assert_eq!(heap.check_class(&c), Ok(()));
}

#[test]
fn check_class_reports_each_defect() {
    let s = setup();
    let (a, x) = (s.a, s.x);
    let mut heap: ObjectHeap<()> = ObjectHeap::new(s.cat);
    let inner = heap.allocate(class(vec![x], vec![]), ());
    assert_eq!(heap.check_class(&class(vec![], vec![])), Err(ClassError::NoInterfaces));
    assert_eq!(heap.check_class(&class(vec![a, 17], vec![])), Err(ClassError::UnknownInterface));
    assert_eq!(heap.check_class(&class(vec![a, x, a], vec![])), Err(ClassError::DuplicateInterface));
    let empty = Aggregate { target: inner, interfaces: vec![] };
    assert_eq!(heap.check_class(&class(vec![a], vec![empty])), Err(ClassError::EmptyAggregate));
    let dangling = Aggregate { target: 5, interfaces: vec![x] };
    assert_eq!(heap.check_class(&class(vec![a], vec![dangling])), Err(ClassError::UnknownAggregateTarget));
    let unknown = Aggregate { target: inner, interfaces: vec![x, 40] };
    assert_eq!(heap.check_class(&class(vec![a], vec![unknown])), Err(ClassError::UnknownInterface));
}
