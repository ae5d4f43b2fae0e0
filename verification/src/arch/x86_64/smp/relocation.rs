//! Where a value is patched into an instruction: the instruction's address and a mask
//! that marks, byte aligned, the bits of its immediate operand.
use vstd::prelude::*;
use num_traits::PrimInt;
use crate::types::Address;

verus! {

/// The number of zero bits below the lowest one bit among the low `width` bits of `x`;
/// `width` when they are all zero.
pub open spec fn trailing_zeros_within(x: nat, width: nat) -> nat
    decreases width,
{
    if width == 0 {
        0
    } else if x % 2 == 1 {
        0
    } else {
        1 + trailing_zeros_within(x / 2, (width - 1) as nat)
    }
}

/// The number of one bits among the low `width` bits of `x`.
pub open spec fn count_ones_within(x: nat, width: nat) -> nat
    decreases width,
{
    if width == 0 {
        0
    } else {
        (x % 2) + count_ones_within(x / 2, (width - 1) as nat)
    }
}

/// No more bits are one than there are bits.
pub proof fn lemma_count_ones_le(x: nat, width: nat)
    ensures
        count_ones_within(x, width) <= width,
    decreases width,
{
    if width > 0 {
        lemma_count_ones_le(x / 2, (width - 1) as nat);
    }
}

/// Calls `PrimInt::trailing_zeros` of num_traits on a `u32`, which counts the zero bits
/// below the lowest one bit, 32 for zero.
#[verifier::external_body]
fn u32_trailing_zeros(x: u32) -> (r: u32)
    ensures
        r == trailing_zeros_within(x as nat, 32),
{
    PrimInt::trailing_zeros(x)
}

/// Calls `PrimInt::trailing_zeros` of num_traits on a `u64`, which counts the zero bits
/// below the lowest one bit, 64 for zero.
#[verifier::external_body]
fn u64_trailing_zeros(x: u64) -> (r: u32)
    ensures
        r == trailing_zeros_within(x as nat, 64),
{
    PrimInt::trailing_zeros(x)
}

/// Calls `PrimInt::trailing_zeros` of num_traits on a `u128`, which counts the zero bits
/// below the lowest one bit, 128 for zero.
#[verifier::external_body]
fn u128_trailing_zeros(x: u128) -> (r: u32)
    ensures
        r == trailing_zeros_within(x as nat, 128),
{
    PrimInt::trailing_zeros(x)
}

/// Calls `PrimInt::count_ones` of num_traits on a `u32`, which counts its one bits.
#[verifier::external_body]
fn u32_count_ones(x: u32) -> (r: u32)
    ensures
        r == count_ones_within(x as nat, 32),
{
    PrimInt::count_ones(x)
}

/// Calls `PrimInt::count_ones` of num_traits on a `u64`, which counts its one bits.
#[verifier::external_body]
fn u64_count_ones(x: u64) -> (r: u32)
    ensures
        r == count_ones_within(x as nat, 64),
{
    PrimInt::count_ones(x)
}

/// Calls `PrimInt::count_ones` of num_traits on a `u128`, which counts its one bits.
#[verifier::external_body]
fn u128_count_ones(x: u128) -> (r: u32)
    ensures
        r == count_ones_within(x as nat, 128),
{
    PrimInt::count_ones(x)
}

/// The integer types a relocation mask can have.
pub trait RelocationType: Copy {
    /// The width of the type in bits.
    spec fn bits() -> nat;

    proof fn lemma_bits()
        ensures
            Self::bits() <= 128,
    ;

    /// The mask as a number.
    spec fn value(self) -> nat;

    fn trailing_zeros(self) -> (r: u32)
        ensures
            r == trailing_zeros_within(self.value(), Self::bits()),
    ;

    fn count_ones(self) -> (r: u32)
        ensures
            r == count_ones_within(self.value(), Self::bits()),
    ;
}

impl RelocationType for u32 {
    open spec fn bits() -> nat {
        32
    }

    proof fn lemma_bits() {
    }

    open spec fn value(self) -> nat {
        self as nat
    }

    fn trailing_zeros(self) -> (r: u32) {
        u32_trailing_zeros(self)
    }

    fn count_ones(self) -> (r: u32) {
        u32_count_ones(self)
    }
}

impl RelocationType for u64 {
    open spec fn bits() -> nat {
        64
    }

    proof fn lemma_bits() {
    }

    open spec fn value(self) -> nat {
        self as nat
    }

    fn trailing_zeros(self) -> (r: u32) {
        u64_trailing_zeros(self)
    }

    fn count_ones(self) -> (r: u32) {
        u64_count_ones(self)
    }
}

impl RelocationType for u128 {
    open spec fn bits() -> nat {
        128
    }

    proof fn lemma_bits() {
    }

    open spec fn value(self) -> nat {
        self as nat
    }

    fn trailing_zeros(self) -> (r: u32) {
        u128_trailing_zeros(self)
    }

    fn count_ones(self) -> (r: u32) {
        u128_count_ones(self)
    }
}

/// The patch site of an instruction at `addr`: the bits of `mask`, counted from the
/// instruction's first byte, hold the operand.
pub struct Relocation<T> {
    addr: Address,
    mask: T,
}

impl<MaskT: RelocationType> Relocation<MaskT> {
    pub closed spec fn address_spec(&self) -> Address {
        self.addr
    }

    pub closed spec fn mask_spec(&self) -> MaskT {
        self.mask
    }

    /// The patch site at `addr` with `mask`, whose target bits start on a byte boundary.
    pub fn new(addr: Address, mask: MaskT) -> (r: Relocation<MaskT>)
        requires
            trailing_zeros_within(mask.value(), MaskT::bits()) % 8 == 0,
        ensures
            r.address_spec() == addr,
            r.mask_spec() == mask,
    {
        Relocation { addr, mask }
    }

    /// Where a value of `value_size` bytes goes, in bytes from the instruction's start:
    /// the first byte that the mask marks.  None when the value's width is not the
    /// number of bits the mask marks.
    pub fn patch_offset(&self, value_size: usize) -> (r: Option<usize>)
        ensures
            value_size * 8 == count_ones_within(self.mask_spec().value(), MaskT::bits()) ==> r
                == Some((trailing_zeros_within(self.mask_spec().value(), MaskT::bits()) / 8) as usize),
            value_size * 8 != count_ones_within(self.mask_spec().value(), MaskT::bits()) ==> r
                is None,
    {
        let ones = self.mask.count_ones();
        proof {
            lemma_count_ones_le(self.mask_spec().value(), MaskT::bits());
            MaskT::lemma_bits();
        }
        if value_size > 16 || value_size as u64 * 8 != ones as u64 {
            return None;
        }
        let byte_offset = (self.mask.trailing_zeros() / 8) as usize;
        Some(byte_offset)
    }
}

} // verus!
