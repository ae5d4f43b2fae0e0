//! A generic stack over a fixed block of memory.
//!
//! The stack either expands up (pushing increments the array position) or expands
//! down (pushing decrements it).  Whatever the direction, logical index 0 is the first
//! element pushed and index `len() - 1` the most recently pushed one.
//!
//! ```text
//!     Memory      Expand Up   Expand Down
//!  ============ ============ =============
//!   0x00000040       limit      1 <- base
//!   0x00000038                  2
//!   0x00000030                  3
//!   0x00000028                  4 <- top
//!   0x00000020
//!   0x00000018      4 <- top
//!   0x00000010      3
//!   0x00000008      2
//!   0x00000000      1 <- base    limit
//! ```
use vstd::prelude::*;
use vstd::layout::size_of;
use vstd::std_specs::cmp::PartialEqSpec;
use crate::types::Address;

verus! {

pub const EXPAND_UP: bool = true;
pub const EXPAND_DOWN: bool = false;

/// The minimal push/pop interface of a stack.
pub trait SimpleStack<T>: Sized {
    spec fn stack_wf(&self) -> bool;

    spec fn stack_view(&self) -> Seq<T>;

    spec fn stack_capacity(&self) -> nat;

    fn push(&mut self, value: T)
        requires
            old(self).stack_wf(),
            old(self).stack_view().len() < old(self).stack_capacity(),
        ensures
            final(self).stack_wf(),
            final(self).stack_view() == old(self).stack_view().push(value),
            final(self).stack_capacity() == old(self).stack_capacity(),
    ;

    fn pop(&mut self) -> (r: Option<T>)
        requires
            old(self).stack_wf(),
        ensures
            final(self).stack_wf(),
            final(self).stack_capacity() == old(self).stack_capacity(),
            old(self).stack_view().len() == 0 ==> r is None && final(self).stack_view()
                == old(self).stack_view(),
            old(self).stack_view().len() > 0 ==> r == Some(old(self).stack_view().last())
                && final(self).stack_view() == old(self).stack_view().drop_last(),
    ;
}

/// A stack of `T` held in `memory`, which lives at `base_address`.
pub struct Stack<T: Copy + PartialEq, const STACK_TYPE: bool> {
    size: usize,
    base_address: Address,
    memory: Vec<T>,
    pointer: usize,
}

/// An iterator over the elements of a stack, by logical index.
pub struct StackIterator<'a, T: Copy + PartialEq, const STACK_TYPE: bool> {
    stack: &'a Stack<T, STACK_TYPE>,
    num: isize,
    direction: isize,
}

impl<T: Copy + PartialEq, const STACK_TYPE: bool> Stack<T, STACK_TYPE> {
    /// The array position that holds logical element `i` of a stack of `capacity` slots.
    pub open spec fn array_index(capacity: nat, i: int) -> int {
        if STACK_TYPE {
            i
        } else {
            capacity - 1 - i
        }
    }

    /// Size in bytes of one element.
    pub open spec fn elem_size() -> nat {
        size_of::<T>()
    }

    pub closed spec fn wf(&self) -> bool {
        &&& self.memory@.len() == self.size
        &&& self.pointer <= self.size
        &&& self.size <= isize::MAX
        &&& self.size * size_of::<T>() <= isize::MAX
        &&& self.base_address + self.size * size_of::<T>() <= u64::MAX
    }

    /// The number of elements on the stack.
    pub closed spec fn spec_len(&self) -> nat {
        if STACK_TYPE {
            self.pointer as nat
        } else {
            (self.size - self.pointer) as nat
        }
    }

    /// The number of slots of the stack.
    pub closed spec fn capacity_spec(&self) -> nat {
        self.size as nat
    }

    /// The address of the stack's memory block.
    pub closed spec fn base_address_spec(&self) -> Address {
        self.base_address
    }

    /// The contents of the whole memory block, by array position.
    pub closed spec fn memory_view(&self) -> Seq<T> {
        self.memory@
    }

    /// The stack's elements in the order they were pushed.
    pub open spec fn view(&self) -> Seq<T> {
        Seq::new(
            self.spec_len(),
            |i: int| self.memory_view()[Self::array_index(self.capacity_spec(), i)],
        )
    }

    /// The address where the stack begins.
    pub open spec fn base_spec(&self) -> int {
        if STACK_TYPE {
            self.base_address_spec() as int
        } else {
            self.base_address_spec() + self.capacity_spec() * Self::elem_size()
        }
    }

    proof fn lemma_wf_len(&self)
        requires
            self.wf(),
        ensures
            self.spec_len() <= self.capacity_spec(),
            self.spec_len() == self.view().len(),
            self.memory_view().len() == self.capacity_spec(),
            self.capacity_spec() <= isize::MAX,
            self.spec_len() * Self::elem_size() <= self.capacity_spec() * Self::elem_size(),
    {
        let l = self.spec_len();
        let c = self.capacity_spec();
        let e = Self::elem_size();
        assert(l * e <= c * e) by (nonlinear_arith)
            requires
                l <= c,
        ;
    }

    /// Creates a stack over `memory`, the block found at `base`.
    pub fn new(base: Address, memory: Vec<T>) -> (s: Self)
        requires
            memory.len() <= isize::MAX,
            memory.len() * size_of::<T>() <= isize::MAX,
            base + memory.len() * size_of::<T>() <= u64::MAX,
        ensures
            s.wf(),
            s.view() == Seq::<T>::empty(),
            s.memory_view() == memory@,
            s.capacity_spec() == memory.len(),
            s.base_address_spec() == base,
    {
        let size = memory.len();
        let pointer = if STACK_TYPE == EXPAND_UP {
            0
        } else {
            size
        };
        let s = Stack { size, base_address: base, memory, pointer };
        assert(s.view() =~= Seq::<T>::empty());
        s
    }

    fn direction(&self) -> (r: isize)
        ensures
            r == (if STACK_TYPE {
                1int
            } else {
                -1int
            }),
    {
        if STACK_TYPE == EXPAND_UP {
            1
        } else {
            -1
        }
    }

    // the index is expected to have been validated already
    fn logical_to_array_index(&self, index: usize) -> (r: usize)
        requires
            self.wf(),
            index < self.capacity_spec(),
        ensures
            r == Self::array_index(self.capacity_spec(), index as int),
            r < self.capacity_spec(),
    {
        if STACK_TYPE == EXPAND_UP {
            index
        } else {
            self.size - 1 - index
        }
    }

    /// The address where the stack begins (the lowest address of the block when expanding
    /// up, one past the highest when expanding down).
    pub fn base(&self) -> (r: Address)
        requires
            self.wf(),
        ensures
            r == self.base_spec(),
    {
        if STACK_TYPE == EXPAND_UP {
            self.base_address
        } else {
            self.base_address + (self.size * core::mem::size_of::<T>()) as Address
        }
    }

    /// The address just past the most recently pushed element.
    pub fn top(&self) -> (r: Address)
        requires
            self.wf(),
        ensures
            r == (if STACK_TYPE {
                self.base_spec() + self.view().len() * Self::elem_size()
            } else {
                self.base_spec() - self.view().len() * Self::elem_size()
            }),
    {
        proof {
            self.lemma_wf_len();
        }
        let used = (self.len() * core::mem::size_of::<T>()) as Address;
        if STACK_TYPE == EXPAND_UP {
            self.base() + used
        } else {
            self.base() - used
        }
    }

    /// The address at the far end of the block (the stack cannot grow past it).
    pub fn limit(&self) -> (r: Address)
        requires
            self.wf(),
        ensures
            r == (if STACK_TYPE {
                self.base_address_spec() + self.capacity_spec() * Self::elem_size()
            } else {
                self.base_address_spec() as int
            }),
    {
        if STACK_TYPE == EXPAND_UP {
            self.base_address + (self.size * core::mem::size_of::<T>()) as Address
        } else {
            self.base_address
        }
    }

    pub fn is_empty(&self) -> (r: bool)
        requires
            self.wf(),
        ensures
            r == (self.view().len() == 0),
    {
        if STACK_TYPE == EXPAND_UP {
            self.pointer == 0
        } else {
            self.pointer == self.size
        }
    }

    pub fn is_full(&self) -> (r: bool)
        requires
            self.wf(),
        ensures
            r == (self.view().len() == self.capacity_spec()),
    {
        if STACK_TYPE == EXPAND_UP {
            self.pointer >= self.size
        } else {
            self.pointer == 0
        }
    }

    pub fn len(&self) -> (r: usize)
        requires
            self.wf(),
        ensures
            r == self.view().len(),
            r <= self.capacity_spec(),
    {
        if STACK_TYPE == EXPAND_UP {
            self.pointer
        } else {
            self.size - self.pointer
        }
    }

    pub fn capacity(&self) -> (r: usize)
        ensures
            r == self.capacity_spec(),
    {
        self.size
    }

    pub fn available(&self) -> (r: usize)
        requires
            self.wf(),
        ensures
            r == self.capacity_spec() - self.view().len(),
    {
        self.capacity() - self.len()
    }

    /// Linear search for `value`, from the first pushed element on: the lowest logical
    /// index that holds it, whatever the direction.
    pub fn find(&self, value: T) -> (r: Option<usize>)
        requires
            self.wf(),
        ensures
            T::obeys_eq_spec() ==> match r {
                None => forall|i: int|
                    0 <= i < self.view().len() ==> !(#[trigger] self.view()[i]).eq_spec(&value),
                Some(i) => {
                    &&& i < self.view().len()
                    &&& self.view()[i as int].eq_spec(&value)
                    &&& forall|j: int|
                        0 <= j < i ==> !(#[trigger] self.view()[j]).eq_spec(&value)
                },
            },
    {
        proof {
            self.lemma_wf_len();
        }
        let n = self.len();
        let mut i: usize = 0;
        while i < n
            invariant
                self.wf(),
                n == self.view().len(),
                n <= self.capacity_spec(),
                i <= n,
                T::obeys_eq_spec() ==> forall|k: int|
                    0 <= k < i ==> !(#[trigger] self.view()[k]).eq_spec(&value),
            decreases n - i,
        {
            let item = self.get_unchecked(i);
            if item == value {
                return Some(i);
            }
            i = i + 1;
        }
        None
    }

    /// Removes the element at logical `index`, moving the most recently pushed element
    /// into its place.
    pub fn remove_index(&mut self, index: usize) -> (r: Option<T>)
        requires
            old(self).wf(),
        ensures
            final(self).wf(),
            final(self).capacity_spec() == old(self).capacity_spec(),
            final(self).base_address_spec() == old(self).base_address_spec(),
            index < old(self).view().len() ==> {
                &&& r == Some(old(self).view()[index as int])
                &&& final(self).view() == old(self).view().update(
                    index as int,
                    old(self).view().last(),
                ).drop_last()
                &&& final(self).memory_view() == old(self).memory_view().update(
                    Self::array_index(old(self).capacity_spec(), index as int),
                    old(self).view().last(),
                )
            },
            index >= old(self).view().len() ==> r is None && *final(self) == *old(self),
    {
        if index < self.len() {
            let arr = self.logical_to_array_index(index);
            // move the last item into this one's place
            let result = self.memory[arr];
            if let Some(last) = self.pop() {
                let ghost popped_view = self.view();
                self.memory.set(arr, last);
                proof {
                    let ov = old(self).view();
                    let nv = ov.update(index as int, ov.last()).drop_last();
                    assert(last == ov.last());
                    assert(popped_view.len() == ov.len() - 1);
                    assert(self.view().len() == popped_view.len());
                    assert forall|k: int| 0 <= k < nv.len() implies #[trigger] self.view()[k]
                        == nv[k] by {
                        assert(self.view()[k] == self.memory@[Self::array_index(
                            self.size as nat,
                            k,
                        )]);
                        assert(ov[k] == old(self).memory@[Self::array_index(
                            self.size as nat,
                            k,
                        )]);
                    }
                    assert(self.view() =~= nv);
                }
                return Some(result);
            }
        }
        None
    }

    /// The element at logical `index`, if there is one.
    pub fn get(&self, index: usize) -> (r: Option<T>)
        requires
            self.wf(),
        ensures
            r == (if index < self.view().len() {
                Some(self.view()[index as int])
            } else {
                None
            }),
    {
        if index >= self.len() {
            return None;
        }
        proof {
            self.lemma_wf_len();
        }
        return Some(self.get_unchecked(index));
    }

    /// The content of the slot of logical `index`, whether or not it holds an element.
    pub fn get_unchecked(&self, index: usize) -> (r: T)
        requires
            self.wf(),
            index < self.capacity_spec(),
        ensures
            r == self.memory_view()[Self::array_index(self.capacity_spec(), index as int)],
            index < self.view().len() ==> r == self.view()[index as int],
    {
        if STACK_TYPE == EXPAND_UP {
            self.memory[index]
        } else {
            self.memory[self.size - 1 - index]
        }
    }

    /// The content of the slot at array position `index`.
    pub fn index(&self, index: usize) -> (r: T)
        requires
            self.wf(),
            index < self.capacity_spec(),
        ensures
            r == self.memory_view()[index as int],
    {
        self.memory[index]
    }

    /// Swaps the elements at the logical indices given, if both hold an element.
    pub fn swap(&mut self, index1: usize, index2: usize) -> (r: bool)
        requires
            old(self).wf(),
        ensures
            final(self).wf(),
            final(self).capacity_spec() == old(self).capacity_spec(),
            final(self).base_address_spec() == old(self).base_address_spec(),
            r == (index1 < old(self).view().len() && index2 < old(self).view().len()),
            r ==> final(self).view() == old(self).view().update(
                index1 as int,
                old(self).view()[index2 as int],
            ).update(index2 as int, old(self).view()[index1 as int]),
            r ==> final(self).memory_view() == old(self).memory_view().update(
                Self::array_index(old(self).capacity_spec(), index1 as int),
                old(self).view()[index2 as int],
            ).update(
                Self::array_index(old(self).capacity_spec(), index2 as int),
                old(self).view()[index1 as int],
            ),
            !r ==> *final(self) == *old(self),
    {
        if index1 < self.len() && index2 < self.len() {
            let index1 = self.logical_to_array_index(index1);
            let index2 = self.logical_to_array_index(index2);

            let temp = self.memory[index1];
            let other = self.memory[index2];
            self.memory.set(index1, other);
            self.memory.set(index2, temp);
            proof {
                let ov = old(self).view();
                let i1 = index_to_logical::<STACK_TYPE>(self.size as int, index1 as int);
                let i2 = index_to_logical::<STACK_TYPE>(self.size as int, index2 as int);
                assert(self.view() =~= ov.update(i1, ov[i2]).update(i2, ov[i1]));
            }
            return true;
        }
        false
    }

    /// Whether array position `a` holds an element.
    pub open spec fn slot_in_use(&self, a: int) -> bool {
        0 <= a < self.capacity_spec() && 0 <= index_to_logical::<STACK_TYPE>(
            self.capacity_spec() as int,
            a,
        ) < self.view().len()
    }

    /// Swaps the contents of array positions `index1` and `index2`, if both hold an
    /// element.
    pub fn swap_absolute(&mut self, index1: usize, index2: usize) -> (r: bool)
        requires
            old(self).wf(),
        ensures
            final(self).wf(),
            final(self).capacity_spec() == old(self).capacity_spec(),
            final(self).base_address_spec() == old(self).base_address_spec(),
            final(self).view().len() == old(self).view().len(),
            r == (old(self).slot_in_use(index1 as int) && old(self).slot_in_use(index2 as int)),
            r ==> final(self).memory_view() == old(self).memory_view().update(
                index1 as int,
                old(self).memory_view()[index2 as int],
            ).update(index2 as int, old(self).memory_view()[index1 as int]),
            !r ==> *final(self) == *old(self),
    {
        let in_use1 = if STACK_TYPE == EXPAND_UP {
            index1 < self.pointer
        } else {
            self.pointer <= index1 && index1 < self.size
        };
        let in_use2 = if STACK_TYPE == EXPAND_UP {
            index2 < self.pointer
        } else {
            self.pointer <= index2 && index2 < self.size
        };
        if in_use1 && in_use2 {
            let temp = self.memory[index1];
            let other = self.memory[index2];
            self.memory.set(index1, other);
            self.memory.set(index2, temp);
            return true;
        }
        false
    }

    /// Truncates the stack to `new_length` elements, if it holds at least that many;
    /// returns the resulting length.
    pub fn truncate(&mut self, new_length: usize) -> (r: usize)
        requires
            old(self).wf(),
        ensures
            final(self).wf(),
            final(self).capacity_spec() == old(self).capacity_spec(),
            final(self).base_address_spec() == old(self).base_address_spec(),
            final(self).memory_view() == old(self).memory_view(),
            old(self).view().len() >= new_length ==> final(self).view() == old(
                self,
            ).view().subrange(0, new_length as int),
            old(self).view().len() < new_length ==> *final(self) == *old(self),
            r == final(self).view().len(),
    {
        if self.len() >= new_length {
            if STACK_TYPE == EXPAND_UP {
                self.pointer = new_length;
            } else {
                self.pointer = self.size - new_length;
            }
            assert(self.view() =~= old(self).view().subrange(0, new_length as int));
        }
        self.len()
    }

    /// An iterator over the elements in the order they were pushed.
    pub fn iter(&self) -> (it: StackIterator<'_, T, STACK_TYPE>)
        requires
            self.wf(),
        ensures
            it.stack_spec() == self,
            it.position() == 0,
            it.step() == 1,
    {
        StackIterator { stack: self, num: 0, direction: 1 }
    }

    /// An iterator over the elements from the most recently pushed one down.
    pub fn reverse_iter(&self) -> (it: StackIterator<'_, T, STACK_TYPE>)
        requires
            self.wf(),
        ensures
            it.stack_spec() == self,
            it.position() == self.view().len() - 1,
            it.step() == -1,
    {
        self.iter().rev()
    }
}

/// The logical index stored at array position `a` of a block of `capacity` slots.
pub open spec fn index_to_logical<const STACK_TYPE: bool>(capacity: int, a: int) -> int {
    if STACK_TYPE {
        a
    } else {
        capacity - 1 - a
    }
}

impl<T: Copy + PartialEq, const STACK_TYPE: bool> SimpleStack<T> for Stack<T, STACK_TYPE> {
    open spec fn stack_wf(&self) -> bool {
        self.wf()
    }

    open spec fn stack_view(&self) -> Seq<T> {
        self.view()
    }

    open spec fn stack_capacity(&self) -> nat {
        self.capacity_spec()
    }

    fn push(&mut self, value: T)
        ensures
            final(self).base_address_spec() == old(self).base_address_spec(),
            final(self).memory_view() == old(self).memory_view().update(
                Self::array_index(old(self).capacity_spec(), old(self).view().len() as int),
                value,
            ),
    {
        if STACK_TYPE == EXPAND_UP {
            self.memory.set(self.pointer, value);
            self.pointer = self.pointer + 1;
        } else {
            self.pointer = self.pointer - 1;
            self.memory.set(self.pointer, value);
        }
        assert(self.view() =~= old(self).view().push(value));
    }

    fn pop(&mut self) -> (r: Option<T>)
        ensures
            final(self).base_address_spec() == old(self).base_address_spec(),
            final(self).memory_view() == old(self).memory_view(),
    {
        if self.is_empty() {
            return None;
        }
        if STACK_TYPE == EXPAND_UP {
            self.pointer = self.pointer - 1;
            let r = Some(self.memory[self.pointer]);
            assert(self.view() =~= old(self).view().drop_last());
            r
        } else {
            let r = Some(self.memory[self.pointer]);
            self.pointer = self.pointer + 1;
            assert(self.view() =~= old(self).view().drop_last());
            r
        }
    }
}

impl<'a, T: Copy + PartialEq, const STACK_TYPE: bool> StackIterator<'a, T, STACK_TYPE> {
    pub closed spec fn stack_spec(&self) -> &'a Stack<T, STACK_TYPE> {
        self.stack
    }

    /// The logical index of the element the next call of `next` yields.
    pub closed spec fn position(&self) -> int {
        self.num as int
    }

    /// What each call of `next` adds to the position.
    pub closed spec fn step(&self) -> int {
        self.direction as int
    }

    /// The element at the current position, if any, and the position advanced by one step.
    pub fn next(&mut self) -> (r: Option<T>)
        requires
            old(self).stack_spec().wf(),
            isize::MIN <= old(self).position() + old(self).step() <= isize::MAX,
        ensures
            final(self).stack_spec() == old(self).stack_spec(),
            final(self).step() == old(self).step(),
            final(self).position() == old(self).position() + old(self).step(),
            r == (if 0 <= old(self).position() < old(self).stack_spec().view().len() {
                Some(old(self).stack_spec().view()[old(self).position()])
            } else {
                None
            }),
    {
        let result = if self.num < 0 {
            None
        } else {
            self.stack.get(self.num as usize)
        };
        self.num = self.num + self.direction;
        result
    }

    /// The same iterator, turned to run from the most recently pushed element down.
    pub fn rev(self) -> (it: Self)
        requires
            self.stack_spec().wf(),
        ensures
            it.stack_spec() == self.stack_spec(),
            it.step() == -1,
            it.position() == self.stack_spec().view().len() - 1,
    {
        let mut it = self;
        it.direction = -1;
        it.num = it.stack.len() as isize - 1;
        it
    }

    /// The current position, as an unsigned index.
    pub fn get_index(&self) -> (r: usize)
        ensures
            r == self.position() as usize,
    {
        self.num as usize
    }
}

} // verus!
