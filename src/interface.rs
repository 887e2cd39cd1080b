use vstd::prelude::*;

verus! {

/// A globally unique identifier of one interface contract. Only equality matters.
#[derive(Clone, Copy, Debug, PartialEq, Eq, Structural)]
pub struct InterfaceId {
    pub value: u128,
}

/// Static identity and dispatch-table shape of one interface: its identifier,
/// the interface it extends (an index into the catalog), and how many
/// operations it adds on top of those it inherits.
#[derive(Clone, Copy, Debug, PartialEq, Eq, Structural)]
pub struct InterfaceDescriptor {
    pub iid: InterfaceId,
    pub base: Option<usize>,
    pub own_methods: usize,
}

/// One operation of an interface contract: the interface that declares it and
/// its position among that interface's own operations.
#[derive(Clone, Copy, Debug, PartialEq, Eq, Structural)]
pub struct MethodRef {
    pub interface: usize,
    pub index: usize,
}

/// Every interface known to the runtime. Entry 0 is the root interface that
/// every object exposes through its first slot.
pub struct InterfaceCatalog {
    pub interfaces: Vec<InterfaceDescriptor>,
}

/// Whether `iid` is interface `i` or one it inherits from.
pub open spec fn in_chain(cat: Seq<InterfaceDescriptor>, i: int, iid: InterfaceId) -> bool
    decreases i,
{
    if 0 <= i < cat.len() {
        cat[i].iid == iid || match cat[i].base {
            Some(b) => if b < i { in_chain(cat, b as int, iid) } else { false },
            None => false,
        }
    } else {
        false
    }
}

/// The operations of interface `i` in dispatch order: those inherited first,
/// then its own.
pub open spec fn chain_methods(cat: Seq<InterfaceDescriptor>, i: int) -> Seq<MethodRef>
    decreases i,
{
    if 0 <= i < cat.len() {
        let inherited = match cat[i].base {
            Some(b) => if b < i { chain_methods(cat, b as int) } else { Seq::empty() },
            None => Seq::empty(),
        };
        inherited + Seq::new(cat[i].own_methods as nat, |k: int| MethodRef { interface: i as usize, index: k as usize })
    } else {
        Seq::empty()
    }
}

impl InterfaceCatalog {
    /// Each interface extends only interfaces listed before it, and the root
    /// interface extends none.
    pub open spec fn wf(&self) -> bool {
        &&& self.interfaces@.len() > 0
        &&& self.interfaces@[0].base is None
        &&& forall|i: int| 0 <= i < self.interfaces@.len() ==> match #[trigger] self.interfaces@[i].base {
            Some(b) => b < i,
            None => true,
        }
    }

    pub open spec fn root_iid(&self) -> InterfaceId {
        self.interfaces@[0].iid
    }

    /// A catalog that holds the root interface alone.
    pub fn new(root: InterfaceId, root_methods: usize) -> (r: InterfaceCatalog)
        ensures
            r.wf(),
            r.interfaces@ == seq![InterfaceDescriptor { iid: root, base: None, own_methods: root_methods }],
    {
        let mut interfaces: Vec<InterfaceDescriptor> = Vec::new();
        interfaces.push(InterfaceDescriptor { iid: root, base: None, own_methods: root_methods });
        InterfaceCatalog { interfaces }
    }

    /// Adds an interface that extends `base` and returns its index.
    pub fn declare(&mut self, iid: InterfaceId, base: usize, own_methods: usize) -> (r: usize)
        requires
            old(self).wf(),
            base < old(self).interfaces@.len(),
            old(self).interfaces@.len() < usize::MAX,
        ensures
            final(self).wf(),
            r == old(self).interfaces@.len(),
            final(self).interfaces@ == old(self).interfaces@.push(
                InterfaceDescriptor { iid, base: Some(base), own_methods },
            ),
    {
        let r = self.interfaces.len();
        self.interfaces.push(InterfaceDescriptor { iid, base: Some(base), own_methods });
        assert(forall|i: int| 0 <= i < old(self).interfaces@.len() ==> self.interfaces@[i] == old(self).interfaces@[i]);
        r
    }

    /// Whether `iid` identifies interface `i` or any interface it inherits from.
    pub fn iid_in_inheritance_chain(&self, i: usize, iid: InterfaceId) -> (r: bool)
        requires
            self.wf(),
        ensures
            r == in_chain(self.interfaces@, i as int, iid),
    {
        if i >= self.interfaces.len() {
            return false;
        }
        let mut cur: usize = i;
        loop
            invariant
                self.wf(),
                cur < self.interfaces@.len(),
                in_chain(self.interfaces@, i as int, iid) == in_chain(self.interfaces@, cur as int, iid),
            decreases cur,
        {
            let d = self.interfaces[cur];
            if d.iid == iid {
                return true;
            }
            match d.base {
                Some(b) => {
                    cur = b;
                },
                None => {
                    return false;
                },
            }
        }
    }

    /// The operations of interface `i`, inherited ones first, in the order a
    /// dispatch table for it lists them.
    pub fn methods_of(&self, i: usize) -> (r: Vec<MethodRef>)
        requires
            self.wf(),
            i < self.interfaces@.len(),
        ensures
            r@ == chain_methods(self.interfaces@, i as int),
        decreases i,
    {
        let d = self.interfaces[i];
        let mut r = match d.base {
            Some(b) => self.methods_of(b),
            None => Vec::new(),
        };
        let ghost start = r@;
        let mut k: usize = 0;
        while k < d.own_methods
            invariant
                k <= d.own_methods,
                d == self.interfaces@[i as int],
                r@ == start + Seq::new(k as nat, |j: int| MethodRef { interface: i, index: j as usize }),
            decreases d.own_methods - k,
        {
            r.push(MethodRef { interface: i, index: k });
            k = k + 1;
            assert(r@ =~= start + Seq::new(k as nat, |j: int| MethodRef { interface: i, index: j as usize }));
        }
        assert(Seq::new(d.own_methods as nat, |j: int| MethodRef { interface: i, index: j as usize })
            =~= Seq::new(self.interfaces@[i as int].own_methods as nat, |k: int| MethodRef { interface: i as usize, index: k as usize }));
        r
    }
}

} // verus!
