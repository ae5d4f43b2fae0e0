//! A first-in first-out queue whose nodes come from a node allocator, itself fed by the
//! page the queue lives in.
use vstd::prelude::*;
use vstd::layout::size_of;
use crate::errors::ErrCode;
use crate::pager::Pager;
use crate::types::{Address, PhysicalAddress, VirtualAddress};
use super::node_allocator::{NodeAllocator, carved_nodes};

verus! {

broadcast use vstd::layout::layout_of_primitives;

/// A node of the queue: an item and the link to the next node.
pub struct LinkNode<T: Copy> {
    pub item: T,
    pub next: Address,
}

/// A queue of `T`, living in a page of its own at `address`.
pub struct Queue<'a, T: Copy, P: Pager + ?Sized> {
    nodes: Vec<(VirtualAddress, T)>,
    allocator: NodeAllocator<'a, LinkNode<T>, P>,
    address: VirtualAddress,
}

impl<'a, T: Copy, P: Pager + ?Sized> Queue<'a, T, P> {
    /// The items, the next to be dequeued first.
    pub closed spec fn view(&self) -> Seq<T> {
        self.nodes@.map_values(|n: (VirtualAddress, T)| n.1)
    }

    /// The addresses of the nodes holding the items, in the same order.
    pub closed spec fn node_addresses(&self) -> Seq<VirtualAddress> {
        self.nodes@.map_values(|n: (VirtualAddress, T)| n.0)
    }

    pub closed spec fn address_spec(&self) -> VirtualAddress {
        self.address
    }

    pub closed spec fn wf(&self) -> bool {
        &&& size_of::<LinkNode<T>>() >= size_of::<Address>()
        &&& self.allocator.pager_spec().page_size() + size_of::<LinkNode<T>>() <= usize::MAX
    }

    /// The free nodes of the queue's node allocator; the next one used is the last.
    pub closed spec fn free_nodes(&self) -> Seq<PhysicalAddress> {
        self.allocator.free_nodes()
    }

    pub closed spec fn pager_spec(&self) -> &'a P {
        self.allocator.pager_spec()
    }

    /// Creates an empty queue in a fresh page; the rest of the page provides the first
    /// nodes.  Fails with the pager's error when no page can be had.
    pub fn new(pager: &'a P) -> (r: Result<Self, ErrCode>)
        requires
            pager.page_size() >= 1,
            pager.page_size() + size_of::<LinkNode<T>>() <= usize::MAX,
            size_of::<Self>() + size_of::<LinkNode<T>>() <= usize::MAX,
            size_of::<LinkNode<T>>() >= size_of::<Address>(),
        ensures
            r matches Ok(q) ==> q.wf() && q.view() == Seq::<T>::empty(),
    {
        let phys_page = pager.allocate_physical()?;
        let virt_page = pager.get_virtual_address(phys_page)?;
        Self::from_page(pager, phys_page, virt_page)
    }

    /// The empty queue living in the page at physical `phys`, seen at virtual `virt`:
    /// its nodes are cut from the page past the queue itself.  A page that would reach
    /// past the top of the address space is refused with `OutOfMemory`.
    pub fn from_page(pager: &'a P, phys: PhysicalAddress, virt: VirtualAddress) -> (r: Result<
        Self,
        ErrCode,
    >)
        requires
            pager.page_size() >= 1,
            pager.page_size() + size_of::<LinkNode<T>>() <= usize::MAX,
            size_of::<Self>() + size_of::<LinkNode<T>>() <= usize::MAX,
            size_of::<LinkNode<T>>() >= size_of::<Address>(),
        ensures
            phys.0 + pager.page_size() > u64::MAX ==> r == Err::<Self, ErrCode>(
                ErrCode::OutOfMemory,
            ),
            phys.0 + pager.page_size() <= u64::MAX ==> (r matches Ok(q) && {
                &&& q.wf()
                &&& q.view() == Seq::<T>::empty()
                &&& q.address_spec() == virt
                &&& q.pager_spec() == pager
                &&& q.free_nodes() == carved_nodes(
                    (phys.0 & !((pager.page_size() - 1) as u64)) as int,
                    size_of::<Self>() as int,
                    size_of::<LinkNode<T>>() as int,
                    pager.page_size() as int,
                )
            }),
    {
        if phys.0 > u64::MAX - pager.get_page_size() as u64 {
            return Err(ErrCode::OutOfMemory);
        }
        let mut allocator = NodeAllocator::new(pager);
        allocator.use_page(phys, core::mem::size_of::<Self>())?;
        assert(allocator.free_nodes() =~= carved_nodes(
            (phys.0 & !((pager.page_size() - 1) as u64)) as int,
            size_of::<Self>() as int,
            size_of::<LinkNode<T>>() as int,
            pager.page_size() as int,
        ));
        let q = Queue { nodes: Vec::new(), allocator, address: virt };
        assert(q.view() =~= Seq::<T>::empty());
        Ok(q)
    }

    /// Where the queue lives.
    pub fn address(&self) -> (r: VirtualAddress)
        ensures
            r == self.address_spec(),
    {
        self.address
    }

    /// The address of the node of the next item to be dequeued, if any.
    pub fn head(&self) -> (r: Option<VirtualAddress>)
        ensures
            r == (if self.view().len() == 0 {
                None
            } else {
                Some(self.node_addresses()[0])
            }),
    {
        if self.nodes.len() == 0 {
            None
        } else {
            Some(self.nodes[0].0)
        }
    }

    /// The address of the node of the most recently enqueued item, if any.
    pub fn tail(&self) -> (r: Option<VirtualAddress>)
        ensures
            r == (if self.view().len() == 0 {
                None
            } else {
                Some(self.node_addresses().last())
            }),
    {
        let n = self.nodes.len();
        if n == 0 {
            None
        } else {
            Some(self.nodes[n - 1].0)
        }
    }

    /// Adds `item` at the tail.  Fails with the allocator's error when no node can be
    /// had, leaving the queue unchanged.
    pub fn enqueue(&mut self, item: T) -> (r: Result<(), ErrCode>)
        requires
            old(self).wf(),
        ensures
            final(self).wf(),
            final(self).address_spec() == old(self).address_spec(),
            r is Ok ==> final(self).view() == old(self).view().push(item),
            r is Ok ==> final(self).node_addresses().len() == old(self).node_addresses().len() + 1
                && final(self).node_addresses().drop_last() == old(self).node_addresses(),
            r is Err ==> final(self).view() == old(self).view() && final(self).node_addresses()
                == old(self).node_addresses(),
    {
        let node = self.allocator.allocate()?;
        let ghost before = self.nodes@;
        self.nodes.push((node, item));
        assert(self.view() =~= old(self).view().push(item));
        assert(self.node_addresses().drop_last() =~= old(self).node_addresses());
        Ok(())
    }

    /// Removes the item at the head; fails with `OutOfBounds` when the queue is empty.
    pub fn dequeue(&mut self) -> (r: Result<T, ErrCode>)
        requires
            old(self).wf(),
        ensures
            final(self).wf(),
            final(self).address_spec() == old(self).address_spec(),
            old(self).view().len() == 0 ==> r == Err::<T, ErrCode>(ErrCode::OutOfBounds)
                && final(self).view() == old(self).view(),
            old(self).view().len() > 0 ==> r == Ok::<T, ErrCode>(old(self).view()[0])
                && final(self).view() == old(self).view().drop_first()
                && final(self).node_addresses() == old(self).node_addresses().drop_first(),
    {
        if self.nodes.len() == 0 {
            return Err(ErrCode::OutOfBounds);
        }
        let (_node, item) = self.nodes.remove(0);
        assert(self.view() =~= old(self).view().drop_first());
        assert(self.node_addresses() =~= old(self).node_addresses().drop_first());
        Ok(item)
    }
}

/// Items leave the queue in the order they entered it: after a successful `enqueue` of
/// `item`, the queue dequeues what it held before, in the same order, and then `item`.
pub proof fn law_first_in_first_out<'a, T: Copy, P: Pager + ?Sized>(
    before: Queue<'a, T, P>,
    after: Queue<'a, T, P>,
    item: T,
)
    requires
        after.view() == before.view().push(item),
    ensures
        after.view().len() == before.view().len() + 1,
        forall|i: int| 0 <= i < before.view().len() ==> after.view()[i] == before.view()[i],
        after.view()[before.view().len() as int] == item,
        before.view().len() == 0 ==> after.view()[0] == item,
        before.view().len() > 0 ==> after.view()[0] == before.view()[0]
            && after.view().drop_first() == before.view().drop_first().push(item),
{
    if before.view().len() > 0 {
        assert(before.view().push(item).drop_first() =~= before.view().drop_first().push(item));
    }
}

} // verus!
