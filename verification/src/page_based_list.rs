//! A singly-linked list whose nodes live in pages handed out by a pager.
//!
//! Each node is a link to the next node followed by the element.  A fresh page is cut
//! into as many nodes as fit: the first one takes the element being added and the
//! others go to the free list, which also takes back the nodes of removed elements.
//! The list here keeps the nodes (address and element) in order, head first, and the
//! free list as a stack whose last entry is the next node to be used.
use vstd::prelude::*;
use vstd::layout::size_of;
use crate::errors::ErrCode;
use crate::pager::Pager;
use crate::types::{Address, PhysicalAddress, VirtualAddress};

verus! {

broadcast use vstd::layout::layout_of_primitives;

/// The size of a node holding a `T`: the link to the next node and the element.
pub open spec fn node_size_of<T>() -> nat {
    size_of::<Address>() + size_of::<T>()
}

/// The spare nodes of a fresh page that starts at `start`, in the order in which they
/// enter the free list: the node at `count * node_size` first, the one at `node_size`
/// last.
pub open spec fn spare_nodes(start: int, count: nat, node_size: int) -> Seq<Address>
    decreases count,
{
    if count == 0 {
        Seq::empty()
    } else {
        seq![(start + count * node_size) as Address] + spare_nodes(
            start,
            (count - 1) as nat,
            node_size,
        )
    }
}

/// A list of `T` kept in nodes carved out of the pages of `pager`.
pub struct PageBasedList<'a, T: Copy, P: Pager + ?Sized> {
    pager: &'a P,
    num_items: usize,
    nodes: Vec<(Address, T)>,
    free: Vec<Address>,
}

/// A position in a `PageBasedList`: the node it stands on and the one before it.
pub struct PageBasedIterator {
    current: Option<Address>,
    previous: Option<Address>,
}

impl PageBasedIterator {
    pub closed spec fn current_spec(&self) -> Option<Address> {
        self.current
    }

    pub closed spec fn previous_spec(&self) -> Option<Address> {
        self.previous
    }

    /// Yields the element at the current position and moves to the next node.  A
    /// position whose node is not in `list` is refused.
    pub fn next<T: Copy, P: Pager + ?Sized>(&mut self, list: &PageBasedList<'_, T, P>) -> (r:
        Result<Option<T>, ErrCode>)
        requires
            list.wf(),
        ensures
            ({
                let addrs = list.node_addresses();
                match old(self).current_spec() {
                    None => r == Ok::<Option<T>, ErrCode>(None) && *final(self) == *old(self),
                    Some(a) => match addrs.index_of_first(a) {
                        None => r == Err::<Option<T>, ErrCode>(ErrCode::InvalidParameter)
                            && *final(self) == *old(self),
                        Some(i) => {
                            &&& r == Ok::<Option<T>, ErrCode>(Some(list.items()[i]))
                            &&& final(self).previous_spec() == Some(a)
                            &&& final(self).current_spec() == if i + 1 < addrs.len() {
                                Some(addrs[i + 1])
                            } else {
                                None::<Address>
                            }
                        },
                    },
                }
            }),
    {
        match self.current {
            None => Ok(None),
            Some(a) => {
                match list.find_node(a) {
                    None => Err(ErrCode::InvalidParameter),
                    Some(i) => {
                        let value = list.nodes[i].1;
                        self.previous = Some(a);
                        if i + 1 < list.nodes.len() {
                            self.current = Some(list.nodes[i + 1].0);
                        } else {
                            self.current = None;
                        }
                        Ok(Some(value))
                    },
                }
            },
        }
    }
}

impl<'a, T: Copy, P: Pager + ?Sized> PageBasedList<'a, T, P> {
    pub closed spec fn pager_spec(&self) -> &'a P {
        self.pager
    }

    /// The elements, head first.
    pub closed spec fn items(&self) -> Seq<T> {
        self.nodes@.map_values(|n: (Address, T)| n.1)
    }

    /// The addresses of the nodes that hold the elements, head first.
    pub closed spec fn node_addresses(&self) -> Seq<Address> {
        self.nodes@.map_values(|n: (Address, T)| n.0)
    }

    /// The free nodes; the last one is used first.
    pub closed spec fn free_nodes(&self) -> Seq<Address> {
        self.free@
    }

    pub closed spec fn wf(&self) -> bool {
        &&& self.num_items == self.nodes.len()
        &&& node_size_of::<T>() <= self.pager.page_size()
        &&& forall|i: int|
            0 <= i < self.nodes.len() ==> #[trigger] self.nodes@[i].0 + node_size_of::<T>()
                <= u64::MAX
        &&& forall|i: int|
            0 <= i < self.free.len() ==> #[trigger] self.free@[i] + node_size_of::<T>() <= u64::MAX
    }

    /// Creates an empty list.  A page must hold at least one node.
    pub fn new(pager: &'a P) -> (r: Result<Self, ErrCode>)
        requires
            node_size_of::<T>() <= pager.page_size(),
        ensures
            r is Ok,
            r matches Ok(l) && {
                &&& l.wf()
                &&& l.pager_spec() == pager
                &&& l.items() == Seq::<T>::empty()
                &&& l.node_addresses() == Seq::<Address>::empty()
                &&& l.free_nodes() == Seq::<Address>::empty()
            },
    {
        let l = PageBasedList { pager, num_items: 0, nodes: Vec::new(), free: Vec::new() };
        assert(l.items() =~= Seq::<T>::empty());
        assert(l.node_addresses() =~= Seq::<Address>::empty());
        Ok(l)
    }

    /// The index of the first node at `addr`.
    fn find_node(&self, addr: Address) -> (r: Option<usize>)
        ensures
            r is None <==> self.node_addresses().index_of_first(addr) is None,
            r matches Some(i) ==> {
                &&& self.node_addresses().index_of_first(addr) == Some(i as int)
                &&& i < self.nodes.len()
                &&& self.node_addresses()[i as int] == addr
            },
    {
        let ghost addrs = self.node_addresses();
        proof {
            addrs.index_of_first_ensures(addr);
        }
        let mut i: usize = 0;
        while i < self.nodes.len()
            invariant
                i <= self.nodes.len(),
                addrs == self.node_addresses(),
                addrs.len() == self.nodes.len(),
                forall|j: int| 0 <= j < i ==> addrs[j] != addr,
                match addrs.index_of_first(addr) {
                    Some(index) => {
                        &&& addrs.contains(addr)
                        &&& 0 <= index < addrs.len()
                        &&& addrs[index] == addr
                        &&& forall|j: int| 0 <= j < index < addrs.len() ==> addrs[j] != addr
                    },
                    None => !addrs.contains(addr),
                },
            decreases self.nodes.len() - i,
        {
            if self.nodes[i].0 == addr {
                assert(addrs[i as int] == addr);
                return Some(i);
            }
            i = i + 1;
        }
        proof {
            if addrs.contains(addr) {
                let k = choose|k: int| 0 <= k < addrs.len() && addrs[k] == addr;
                assert(addrs[k] == addr);
            }
        }
        None
    }

    /// Adds `value` at the head of the list, in the last free node, or else in the first
    /// node of a fresh page whose other nodes become free.  With no free node, one
    /// physical page is asked of the pager and then its virtual address; a refusal of
    /// either comes back unchanged, and the rest is `add_in_page` on the pager's answer.
    pub fn add(&mut self, value: T) -> (r: Result<(), ErrCode>)
        requires
            old(self).wf(),
            old(self).items().len() < usize::MAX,
        ensures
            final(self).wf(),
            final(self).pager_spec() == old(self).pager_spec(),
            r is Ok ==> final(self).items() == seq![value] + old(self).items(),
            r is Err ==> *final(self) == *old(self),
            old(self).free_nodes().len() > 0 ==> {
                &&& r is Ok
                &&& final(self).node_addresses() == seq![old(self).free_nodes().last()] + old(
                    self,
                ).node_addresses()
                &&& final(self).free_nodes() == old(self).free_nodes().drop_last()
            },
            old(self).free_nodes().len() == 0 && r is Ok ==> exists|phys: PhysicalAddress|
                {
                    let page = old(self).pager_spec().virtual_address_of(phys)->Ok_0.0;
                    &&& #[trigger] old(self).pager_spec().virtual_address_of(phys) is Ok
                    &&& final(self).node_addresses() == seq![page] + old(self).node_addresses()
                    &&& final(self).free_nodes() == spare_nodes(
                        page as int,
                        ((old(self).pager_spec().page_size() - node_size_of::<T>()) / (
                        node_size_of::<T>() as int)) as nat,
                        node_size_of::<T>() as int,
                    )
                },
    {
        if self.free.len() > 0 {
            let addr = self.free.pop().unwrap();
            let ghost popped = self.free_nodes();
            proof {
                assert(old(self).free@[old(self).free@.len() - 1] + node_size_of::<T>() <= u64::MAX);
                assert forall|k: int| 0 <= k < self.free.len() implies #[trigger] self.free@[k]
                    + node_size_of::<T>() <= u64::MAX by {
                    assert(self.free@[k] == old(self).free@[k]);
                }
            }
            self.put_at_head(addr, value);
            Ok(())
        } else {
            let phys = match self.pager.allocate_physical() {
                Ok(p) => p,
                Err(e) => {
                    return Err(e);
                },
            };
            let answer = self.pager.get_virtual_address(phys);
            let r = self.add_in_page(value, answer);
            proof {
                if let Ok(v) = answer {
                    assert(old(self).pager_spec().virtual_address_of(phys) is Ok);
                    assert(old(self).free_nodes() + spare_nodes(
                        v.0 as int,
                        ((old(self).pager_spec().page_size() - node_size_of::<T>()) / (
                        node_size_of::<T>() as int)) as nat,
                        node_size_of::<T>() as int,
                    ) =~= spare_nodes(
                        v.0 as int,
                        ((old(self).pager_spec().page_size() - node_size_of::<T>()) / (
                        node_size_of::<T>() as int)) as nat,
                        node_size_of::<T>() as int,
                    ));
                }
            }
            r
        }
    }

    /// Puts `value` in the node at `node_addr`, at the head of the list.
    fn put_at_head(&mut self, node_addr: Address, value: T)
        requires
            old(self).wf(),
            old(self).items().len() < usize::MAX,
            node_addr + node_size_of::<T>() <= u64::MAX,
        ensures
            final(self).wf(),
            final(self).pager_spec() == old(self).pager_spec(),
            final(self).items() == seq![value] + old(self).items(),
            final(self).node_addresses() == seq![node_addr] + old(self).node_addresses(),
            final(self).free_nodes() == old(self).free_nodes(),
    {
        let ghost before = self.nodes@;
        self.nodes.insert(0, (node_addr, value));
        self.num_items = self.num_items + 1;
        proof {
            assert(self.items() =~= seq![value] + old(self).items());
            assert(self.node_addresses() =~= seq![node_addr] + old(self).node_addresses());
            assert forall|k: int| 0 <= k < self.nodes.len() implies #[trigger] self.nodes@[k].0
                + node_size_of::<T>() <= u64::MAX by {
                if k > 0 {
                    assert(self.nodes@[k] == before[k - 1]);
                }
            }
        }
    }

    /// Adds `value` at the head of the list in a fresh page, once the pager has answered
    /// `page` with the page's virtual address: the page's first node takes the value and
    /// its other whole nodes, from the last down to the second, go to the free list.  The
    /// pager's error comes back unchanged; a page reaching past the top of the address
    /// space is refused with `OutOfMemory`.  A refused page changes nothing.
    pub fn add_in_page(&mut self, value: T, page: Result<VirtualAddress, ErrCode>) -> (r: Result<
        (),
        ErrCode,
    >)
        requires
            old(self).wf(),
            old(self).items().len() < usize::MAX,
        ensures
            final(self).wf(),
            final(self).pager_spec() == old(self).pager_spec(),
            page is Err ==> r == Err::<(), ErrCode>(page->Err_0) && *final(self) == *old(self),
            page is Ok && page->Ok_0.0 + old(self).pager_spec().page_size() > u64::MAX ==> r
                == Err::<(), ErrCode>(ErrCode::OutOfMemory) && *final(self) == *old(self),
            page is Ok && page->Ok_0.0 + old(self).pager_spec().page_size() <= u64::MAX ==> {
                &&& r == Ok::<(), ErrCode>(())
                &&& final(self).items() == seq![value] + old(self).items()
                &&& final(self).node_addresses() == seq![page->Ok_0.0] + old(
                    self,
                ).node_addresses()
                &&& final(self).free_nodes() == old(self).free_nodes() + spare_nodes(
                    page->Ok_0.0 as int,
                    ((old(self).pager_spec().page_size() - node_size_of::<T>()) / (
                    node_size_of::<T>() as int)) as nat,
                    node_size_of::<T>() as int,
                )
            },
    {
        let virt = match page {
            Ok(v) => v,
            Err(e) => {
                return Err(e);
            },
        };
        let node_size = core::mem::size_of::<Address>() + core::mem::size_of::<T>();
        let page_size = self.pager.get_page_size();
        if virt.0 > u64::MAX - page_size as u64 {
            return Err(ErrCode::OutOfMemory);
        }
        let remaining = page_size - node_size;
        let num_additional = remaining / node_size;
        let ghost total = num_additional as nat;
        proof {
            assert(num_additional * node_size <= remaining) by (nonlinear_arith)
                requires
                    num_additional == remaining / node_size,
                    node_size > 0,
            ;
        }
        let mut i = num_additional;
        while i > 0
            invariant
                self.wf(),
                self.pager_spec() == old(self).pager_spec(),
                self.nodes == old(self).nodes,
                self.num_items == old(self).num_items,
                node_size == node_size_of::<T>(),
                node_size > 0,
                i <= num_additional,
                num_additional * node_size <= page_size - node_size,
                virt.0 + page_size <= u64::MAX,
                self.free_nodes() + spare_nodes(virt.0 as int, i as nat, node_size as int)
                    == old(self).free_nodes() + spare_nodes(virt.0 as int, total, node_size as int),
            decreases i,
        {
            proof {
                assert(i * node_size <= num_additional * node_size) by (nonlinear_arith)
                    requires
                        i <= num_additional,
                        node_size > 0,
                ;
            }
            let free_addr = virt.0 + (i as u64) * (node_size as u64);
            let ghost before = self.free_nodes();
            self.free.push(free_addr);
            proof {
                let rest = spare_nodes(virt.0 as int, (i - 1) as nat, node_size as int);
                assert(spare_nodes(virt.0 as int, i as nat, node_size as int) == seq![
                    free_addr,
                ] + rest);
                assert(before + (seq![free_addr] + rest) =~= before.push(free_addr) + rest);
                assert forall|k: int| 0 <= k < self.free.len() implies #[trigger] self.free@[k]
                    + node_size_of::<T>() <= u64::MAX by {
                    if k < before.len() {
                        assert(self.free@[k] == before[k]);
                    }
                }
            }
            i = i - 1;
        }
        proof {
            assert(self.free_nodes() + spare_nodes(virt.0 as int, 0, node_size as int)
                =~= self.free_nodes());
        }
        self.put_at_head(virt.0, value);
        Ok(())
    }

    /// The element at the head of the list.
    pub fn head(&self) -> (r: Option<&T>)
        ensures
            self.items().len() == 0 ==> r is None,
            self.items().len() > 0 ==> r == Some(&self.items()[0]),
    {
        if self.nodes.len() == 0 {
            None
        } else {
            Some(&self.nodes[0].1)
        }
    }

    /// The address of the element at the head of the list, just after the head node's
    /// link.
    pub fn head_ptr(&self) -> (r: Option<Address>)
        requires
            self.wf(),
        ensures
            self.items().len() == 0 ==> r is None,
            self.items().len() > 0 ==> r == Some(
                (self.node_addresses()[0] + size_of::<Address>()) as Address,
            ),
    {
        if self.nodes.len() == 0 {
            None
        } else {
            let addr = self.nodes[0].0;
            assert(self.nodes@[0].0 + node_size_of::<T>() <= u64::MAX);
            Some(addr + core::mem::size_of::<Address>() as u64)
        }
    }

    /// A position on the head of the list.
    pub fn iter(&self) -> (r: PageBasedIterator)
        ensures
            r.previous_spec() is None,
            self.items().len() == 0 ==> r.current_spec() is None,
            self.items().len() > 0 ==> r.current_spec() == Some(self.node_addresses()[0]),
    {
        if self.nodes.len() == 0 {
            PageBasedIterator { current: None, previous: None }
        } else {
            PageBasedIterator { current: Some(self.nodes[0].0), previous: None }
        }
    }

    /// Removes the element at the position `loc`, whose node goes to the free list.  A
    /// position that stands on no node of the list, or whose previous node is not the
    /// one before it in the list, is refused.
    pub fn remove(&mut self, loc: &PageBasedIterator) -> (r: Result<(), ErrCode>)
        requires
            old(self).wf(),
        ensures
            final(self).wf(),
            final(self).pager_spec() == old(self).pager_spec(),
            ({
                let addrs = old(self).node_addresses();
                match loc.current_spec() {
                    None => r == Err::<(), ErrCode>(ErrCode::InvalidParameter),
                    Some(a) => match addrs.index_of_first(a) {
                        None => r == Err::<(), ErrCode>(ErrCode::InvalidParameter),
                        Some(i) => if loc.previous_spec() == (if i == 0 {
                            None::<Address>
                        } else {
                            Some(addrs[i - 1])
                        }) {
                            &&& r is Ok
                            &&& final(self).items() == old(self).items().remove(i)
                            &&& final(self).node_addresses() == addrs.remove(i)
                            &&& final(self).free_nodes() == old(self).free_nodes().push(a)
                        } else {
                            r == Err::<(), ErrCode>(ErrCode::InvalidParameter)
                        },
                    },
                }
            }),
            r is Err ==> *final(self) == *old(self),
    {
        let current = match loc.current {
            Some(a) => a,
            None => return Err(ErrCode::InvalidParameter),
        };
        let i = match self.find_node(current) {
            Some(i) => i,
            None => return Err(ErrCode::InvalidParameter),
        };
        let expected = if i == 0 {
            None
        } else {
            Some(self.nodes[i - 1].0)
        };
        let matches = match (loc.previous, expected) {
            (None, None) => true,
            (Some(p), Some(q)) => p == q,
            _ => false,
        };
        if !matches {
            return Err(ErrCode::InvalidParameter);
        }
        let ghost before = self.nodes@;
        let ghost free_before = self.free@;
        assert(self.nodes@[i as int].0 + node_size_of::<T>() <= u64::MAX);
        self.nodes.remove(i);
        self.free.push(current);
        self.num_items = self.num_items - 1;
        proof {
            assert(self.items() =~= old(self).items().remove(i as int));
            assert(self.node_addresses() =~= old(self).node_addresses().remove(i as int));
            assert forall|k: int| 0 <= k < self.nodes.len() implies #[trigger] self.nodes@[k].0
                + node_size_of::<T>() <= u64::MAX by {
                if k < i {
                    assert(self.nodes@[k] == before[k]);
                } else {
                    assert(self.nodes@[k] == before[k + 1]);
                }
            }
            assert forall|k: int| 0 <= k < self.free.len() implies #[trigger] self.free@[k]
                + node_size_of::<T>() <= u64::MAX by {
                if k < free_before.len() {
                    assert(self.free@[k] == free_before[k]);
                }
            }
        }
        Ok(())
    }
}

/// After a successful `add`, the head of the list is the value added and the elements
/// behind it are the list as it was.
pub proof fn law_add_then_head<'a, T: Copy, P: Pager + ?Sized>(
    before: PageBasedList<'a, T, P>,
    after: PageBasedList<'a, T, P>,
    value: T,
)
    requires
        after.items() == seq![value] + before.items(),
    ensures
        after.items().len() > 0,
        after.items()[0] == value,
        after.items().drop_first() == before.items(),
{
    assert(after.items().drop_first() =~= before.items());
}

/// The node freed by a successful `remove` is the node that the next `add` fills, and
/// the free list is then as it was before the removal.
pub proof fn law_removed_node_is_reused<'a, T: Copy, P: Pager + ?Sized>(
    before: PageBasedList<'a, T, P>,
    removed: PageBasedList<'a, T, P>,
    after: PageBasedList<'a, T, P>,
    node: Address,
)
    requires
        removed.free_nodes() == before.free_nodes().push(node),
        after.node_addresses() == seq![removed.free_nodes().last()] + removed.node_addresses(),
        after.free_nodes() == removed.free_nodes().drop_last(),
    ensures
        after.node_addresses()[0] == node,
        after.free_nodes() == before.free_nodes(),
{
    assert(before.free_nodes().push(node).drop_last() =~= before.free_nodes());
}

/// With its nodes at distinct addresses, a list is walked in order: the position that
/// stands on the node of element `k` is found at `k`, so `next` there yields element `k`
/// and moves to the node of element `k + 1` (or to the end after the last element);
/// from `iter()`, which stands on the head, the walk yields `items()` in order.
pub proof fn law_walk_yields_items_in_order<'a, T: Copy, P: Pager + ?Sized>(
    list: PageBasedList<'a, T, P>,
    k: int,
)
    requires
        list.node_addresses().no_duplicates(),
        0 <= k < list.node_addresses().len(),
    ensures
        list.node_addresses().index_of_first(list.node_addresses()[k]) == Some(k),
{
    let addrs = list.node_addresses();
    addrs.index_of_first_ensures(addrs[k]);
    let i = addrs.index_of_first(addrs[k]).unwrap();
    assert(addrs[i] == addrs[k]);
}

} // verus!
