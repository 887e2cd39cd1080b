use vstd::prelude::*;
use crate::interface::{InterfaceCatalog, MethodRef, chain_methods};

verus! {

/// The dispatch table of one (class, interface) pair. Every entry is a thunk:
/// it receives the address of the interface-view slot, subtracts `offset`
/// to recover the object header, and forwards to the operation it names.
pub struct VTable {
    pub interface: usize,
    pub offset: usize,
    pub entries: Vec<MethodRef>,
}

/// The address at which an object masquerades as one of its interfaces:
/// slot `slot` of object `object`.
#[derive(Clone, Copy, Debug, PartialEq, Eq, Structural)]
pub struct InterfaceView {
    pub object: usize,
    pub slot: usize,
}

/// What a call through a dispatch-table entry reaches: the object header,
/// recovered from the view, and the operation to run on it.
#[derive(Clone, Copy, Debug, PartialEq, Eq, Structural)]
pub struct Invocation {
    pub object: usize,
    pub method: MethodRef,
}

impl VTable {
    /// A table for interface `interface` stored in slot `offset`.
    pub open spec fn built_for(&self, cat: &InterfaceCatalog, interface: int, offset: int) -> bool {
        &&& self.interface == interface
        &&& self.offset == offset
        &&& self.entries@ == chain_methods(cat.interfaces@, interface)
    }

    /// Builds the table that slot `offset` of an object holds for interface
    /// `interface`.
    pub fn build(cat: &InterfaceCatalog, interface: usize, offset: usize) -> (r: VTable)
        requires
            cat.wf(),
            interface < cat.interfaces@.len(),
        ensures
            r.built_for(cat, interface as int, offset as int),
    {
        VTable { interface, offset, entries: cat.methods_of(interface) }
    }

    /// Runs entry `k` of this table on a call that arrives through `view`:
    /// the header is the view's address less this table's offset.
    pub fn thunk(&self, view: InterfaceView, k: usize) -> (r: Invocation)
        requires
            view.slot == self.offset,
            k < self.entries@.len(),
        ensures
            r.object == view.object,
            r.method == self.entries@[k as int],
    {
        let header_slot = view.slot - self.offset;
        Invocation { object: view.object + header_slot, method: self.entries[k] }
    }
}

} // verus!
