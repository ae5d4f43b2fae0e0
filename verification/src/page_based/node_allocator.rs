//! Uses whole pages from a pager to present an allocator of node-sized chunks.  Free
//! nodes are kept as physical addresses, so that they can be mapped into any address space.
use vstd::prelude::*;
use vstd::layout::size_of;
use core::marker::PhantomData;
use crate::errors::ErrCode;
use crate::pager::Pager;
use crate::types::{Address, PhysicalAddress, VirtualAddress};

verus! {

broadcast use vstd::layout::layout_of_primitives;

/// The nodes of `node_size` bytes carved out of a page from `offset` on, while a whole
/// node fits below `page_size`, in ascending order.
pub open spec fn carved_nodes(start: int, offset: int, node_size: int, page_size: int) -> Seq<
    PhysicalAddress,
>
    decreases page_size - offset,
{
    if node_size > 0 && offset + node_size <= page_size {
        seq![PhysicalAddress((start + offset) as u64)] + carved_nodes(
            start,
            offset + node_size,
            node_size,
            page_size,
        )
    } else {
        Seq::empty()
    }
}

/// Allocates nodes of `size_of::<T>()` bytes out of pages provided by `pager`.
pub struct NodeAllocator<'a, T, P: Pager + ?Sized> {
    pager: &'a P,
    free: Vec<PhysicalAddress>,
    _phantom: PhantomData<T>,
}

impl<'a, T, P: Pager + ?Sized> NodeAllocator<'a, T, P> {
    pub closed spec fn pager_spec(&self) -> &'a P {
        self.pager
    }

    /// The free nodes; the next one handed out is the last.
    pub closed spec fn free_nodes(&self) -> Seq<PhysicalAddress> {
        self.free@
    }

    /// Creates an allocator with no free node.  A node must be able to hold the link to
    /// the next free node.
    pub fn new(pager: &'a P) -> (r: Self)
        requires
            size_of::<T>() >= size_of::<Address>(),
        ensures
            r.pager_spec() == pager,
            r.free_nodes() == Seq::<PhysicalAddress>::empty(),
    {
        NodeAllocator { pager, free: Vec::new(), _phantom: PhantomData }
    }

    /// Returns the node at virtual address `node` to the free nodes, as the physical
    /// address the pager translates it to; the pager's error comes back unchanged.
    pub fn free(&mut self, node: VirtualAddress) -> (r: Result<(), ErrCode>)
        ensures
            final(self).pager_spec() == old(self).pager_spec(),
            old(self).pager_spec().physical_address_of(node) matches Ok(phys) ==> r == Ok::<
                (),
                ErrCode,
            >(()) && final(self).free_nodes() == old(self).free_nodes().push(phys),
            old(self).pager_spec().physical_address_of(node) matches Err(e) ==> r == Err::<
                (),
                ErrCode,
            >(e) && final(self).free_nodes() == old(self).free_nodes(),
    {
        match self.pager.get_physical_address(node) {
            Ok(phys) => {
                self.free_phys(phys);
                Ok(())
            },
            Err(e) => Err(e),
        }
    }

    fn free_phys(&mut self, phys_node: PhysicalAddress)
        ensures
            final(self).pager_spec() == old(self).pager_spec(),
            final(self).free_nodes() == old(self).free_nodes().push(phys_node),
    {
        self.free.push(phys_node);
    }

    /// Adds the nodes that fit in `page` from `offset` on to the free nodes.
    pub fn use_page(&mut self, page: PhysicalAddress, offset: usize) -> (r: Result<(), ErrCode>)
        requires
            size_of::<T>() >= size_of::<Address>(),
            old(self).pager_spec().page_size() >= 1,
            offset + size_of::<T>() <= usize::MAX,
            old(self).pager_spec().page_size() + size_of::<T>() <= usize::MAX,
            page.0 + old(self).pager_spec().page_size() <= u64::MAX,
        ensures
            r is Ok,
            final(self).pager_spec() == old(self).pager_spec(),
            final(self).free_nodes() == old(self).free_nodes() + carved_nodes(
                (page.0 & !((old(self).pager_spec().page_size() - 1) as u64)) as int,
                offset as int,
                size_of::<T>() as int,
                old(self).pager_spec().page_size() as int,
            ),
    {
        let page_size = self.pager.get_page_size();
        let page_mask = self.pager.get_page_mask();

        let page_addr = page.0;
        let mask = page_mask as u64;
        let page_start = page_addr & !mask;
        assert(page_start <= page_addr) by (bit_vector)
            requires
                page_start == page_addr & !mask,
        ;
        let node_size = core::mem::size_of::<T>();
        let mut offset = offset;
        let ghost start = page_start as int;
        let ghost target = old(self).free_nodes() + carved_nodes(
            start,
            offset as int,
            node_size as int,
            page_size as int,
        );

        while node_size <= page_size && offset <= page_size - node_size
            invariant
                self.pager_spec() == old(self).pager_spec(),
                page_size == self.pager.page_size(),
                node_size == size_of::<T>(),
                node_size >= 8,
                offset + node_size <= usize::MAX,
                page_size + node_size <= usize::MAX,
                page_start + page_size <= u64::MAX,
                start == page_start,
                target == self.free_nodes() + carved_nodes(
                    start,
                    offset as int,
                    node_size as int,
                    page_size as int,
                ),
            decreases page_size - offset,
        {
            let ghost before = self.free_nodes();
            let node = PhysicalAddress(page_start + offset as u64);
            self.free_phys(node);
            offset = offset + node_size;
            proof {
                assert(node_size > 0);
                let rest = carved_nodes(start, offset as int, node_size as int, page_size as int);
                assert(carved_nodes(start, offset - node_size, node_size as int, page_size as int)
                    == seq![node] + rest);
                assert(before + (seq![node] + rest) =~= before.push(node) + rest);
            }
        }
        proof {
            assert(carved_nodes(start, offset as int, node_size as int, page_size as int)
                =~= Seq::<PhysicalAddress>::empty());
            assert(self.free_nodes() + Seq::<PhysicalAddress>::empty() =~= self.free_nodes());
        }
        Ok(())
    }

    /// Hands out a node, as a virtual address: the last free node if there is one, else
    /// the first node of a fresh page, whose other nodes become free.  The address is the
    /// pager's translation of the node; the pager's error comes back unchanged.
    pub fn allocate(&mut self) -> (r: Result<VirtualAddress, ErrCode>)
        requires
            size_of::<T>() >= size_of::<Address>(),
            old(self).pager_spec().page_size() + size_of::<T>() <= usize::MAX,
        ensures
            final(self).pager_spec() == old(self).pager_spec(),
            old(self).free_nodes().len() > 0 ==> {
                &&& r == old(self).pager_spec().virtual_address_of(old(self).free_nodes().last())
                &&& r is Ok ==> final(self).free_nodes() == old(self).free_nodes().drop_last()
                &&& r is Err ==> final(self).free_nodes() == old(self).free_nodes()
            },
            old(self).free_nodes().len() == 0 ==> {
                &&& r is Ok ==> exists|page: PhysicalAddress|
                    {
                        &&& page.0 + old(self).pager_spec().page_size() <= u64::MAX
                        &&& r == old(self).pager_spec().virtual_address_of(page)
                        &&& final(self).free_nodes() == #[trigger] carved_nodes(
                            page.0 as int,
                            size_of::<T>() as int,
                            size_of::<T>() as int,
                            old(self).pager_spec().page_size() as int,
                        )
                    }
                &&& r is Err ==> final(self).free_nodes() == old(self).free_nodes()
            },
    {
        let n = self.free.len();
        if n == 0 {
            // allocate a new page
            let phys = match self.pager.allocate_physical() {
                Ok(p) => p,
                Err(e) => {
                    return Err(e);
                },
            };
            let virt = match self.pager.get_virtual_address(phys) {
                Ok(v) => v,
                Err(e) => {
                    return Err(e);
                },
            };
            let r = self.carve_page(phys, virt);
            proof {
                if r is Ok {
                    assert(old(self).free_nodes() + carved_nodes(
                        phys.0 as int,
                        size_of::<T>() as int,
                        size_of::<T>() as int,
                        old(self).pager_spec().page_size() as int,
                    ) =~= carved_nodes(
                        phys.0 as int,
                        size_of::<T>() as int,
                        size_of::<T>() as int,
                        old(self).pager_spec().page_size() as int,
                    ));
                }
            }
            r
        } else {
            // take the last free node
            let node_phys = self.last_free_node();
            let answer = self.pager.get_virtual_address(node_phys);
            self.take_free_node(answer)
        }
    }

    /// The free node handed out next: the last one.
    pub fn last_free_node(&self) -> (r: PhysicalAddress)
        requires
            self.free_nodes().len() > 0,
        ensures
            r == self.free_nodes().last(),
    {
        self.free[self.free.len() - 1]
    }

    /// Hands out the last free node once the pager has answered `answer` with its
    /// virtual address: that address, the node leaving the free list; else the pager's
    /// error and no change.
    pub fn take_free_node(&mut self, answer: Result<VirtualAddress, ErrCode>) -> (r: Result<
        VirtualAddress,
        ErrCode,
    >)
        requires
            old(self).free_nodes().len() > 0,
        ensures
            final(self).pager_spec() == old(self).pager_spec(),
            answer matches Ok(v) ==> r == Ok::<VirtualAddress, ErrCode>(v)
                && final(self).free_nodes() == old(self).free_nodes().drop_last(),
            answer matches Err(e) ==> r == Err::<VirtualAddress, ErrCode>(e)
                && final(self).free_nodes() == old(self).free_nodes(),
    {
        match answer {
            Ok(v) => {
                self.free.pop();
                Ok(v)
            },
            Err(e) => Err(e),
        }
    }

    /// Cuts the fresh page at physical `phys`, seen at virtual `virt`, into nodes: the
    /// first is handed out (as `virt`) and the other whole nodes of the page, from the
    /// second up, become free.
    /// A page that would reach past the top of the address space is refused with
    /// `OutOfMemory`, changing nothing.
    pub fn carve_page(&mut self, phys: PhysicalAddress, virt: VirtualAddress) -> (r: Result<
        VirtualAddress,
        ErrCode,
    >)
        requires
            size_of::<T>() >= size_of::<Address>(),
            old(self).pager_spec().page_size() + size_of::<T>() <= usize::MAX,
        ensures
            final(self).pager_spec() == old(self).pager_spec(),
            phys.0 + old(self).pager_spec().page_size() <= u64::MAX ==> {
                &&& r == Ok::<VirtualAddress, ErrCode>(virt)
                &&& final(self).free_nodes() == old(self).free_nodes() + carved_nodes(
                    phys.0 as int,
                    size_of::<T>() as int,
                    size_of::<T>() as int,
                    old(self).pager_spec().page_size() as int,
                )
            },
            phys.0 + old(self).pager_spec().page_size() > u64::MAX ==> r == Err::<
                VirtualAddress,
                ErrCode,
            >(ErrCode::OutOfMemory) && final(self).free_nodes() == old(self).free_nodes(),
    {
        let page_size = self.pager.get_page_size();
        if phys.0 > u64::MAX - page_size as u64 {
            return Err(ErrCode::OutOfMemory);
        }
        let node_size = core::mem::size_of::<T>();
        let mut offset = node_size;
        let ghost start = self.free_nodes();
        let ghost target = start + carved_nodes(
            phys.0 as int,
            node_size as int,
            node_size as int,
            page_size as int,
        );
        proof {
            assert(start + carved_nodes(phys.0 as int, offset as int, node_size as int, page_size as int)
                == target);
        }
        while node_size <= page_size && offset <= page_size - node_size
            invariant
                self.pager_spec() == old(self).pager_spec(),
                page_size == self.pager.page_size(),
                node_size == size_of::<T>(),
                node_size >= 8,
                page_size + node_size <= usize::MAX,
                offset <= page_size + node_size,
                phys.0 + page_size <= u64::MAX,
                target == self.free_nodes() + carved_nodes(
                    phys.0 as int,
                    offset as int,
                    node_size as int,
                    page_size as int,
                ),
            decreases page_size + node_size - offset,
        {
            let ghost before = self.free_nodes();
            let node = PhysicalAddress(phys.0 + offset as u64);
            self.free_phys(node);
            proof {
                let rest = carved_nodes(
                    phys.0 as int,
                    offset + node_size,
                    node_size as int,
                    page_size as int,
                );
                assert(carved_nodes(phys.0 as int, offset as int, node_size as int, page_size as int)
                    == seq![node] + rest);
                assert(before + (seq![node] + rest) =~= before.push(node) + rest);
            }
            offset = offset + node_size;
        }
        proof {
            assert(carved_nodes(phys.0 as int, offset as int, node_size as int, page_size as int)
                =~= Seq::<PhysicalAddress>::empty());
            assert(self.free_nodes() + Seq::<PhysicalAddress>::empty() =~= self.free_nodes());
        }
        Ok(virt)
    }
}

} // verus!
