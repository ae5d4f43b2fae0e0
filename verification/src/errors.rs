//! Error codes reported by the kernel's primitives.
use vstd::prelude::*;
use crate::types::{PhysicalAddress, VirtualAddress};

verus! {

/// Errors reported by a pager.
#[derive(Clone, Copy, Debug, PartialEq, Eq, Structural)]
pub enum PagerError {
    PhysicalAddressNotFound(PhysicalAddress),
    VirtualAddressNotFound(VirtualAddress),
    UnmappedVirtualAddress(VirtualAddress),
    VirtualAddressAlreadyMapped(VirtualAddress),
}

/// The kernel's error codes.
#[derive(Clone, Copy, Debug, PartialEq, Eq, Structural)]
pub enum ErrCode {
    Unknown,
    Unimplemented,
    InvalidParameter,
    OutOfMemory,
    OutOfBounds,
    OutOfHandles,
    InvalidHandle,
    Pager(PagerError),
}

/// The description of a pager error.
pub open spec fn pager_error_message(e: PagerError) -> Seq<char> {
    match e {
        PagerError::PhysicalAddressNotFound(_) => "physical address not found"@,
        PagerError::VirtualAddressNotFound(_) => "virtual address not found"@,
        PagerError::UnmappedVirtualAddress(_) => "unmapped virtual address"@,
        PagerError::VirtualAddressAlreadyMapped(_) => "virtual address already mapped"@,
    }
}

/// The description of an error code.
pub open spec fn err_code_message(e: ErrCode) -> Seq<char> {
    match e {
        ErrCode::Unknown => "unknown error"@,
        ErrCode::Unimplemented => "the called function has not yet been implemented"@,
        ErrCode::InvalidParameter => "invalid parameter"@,
        ErrCode::OutOfMemory => "out of memory"@,
        ErrCode::OutOfBounds => "index out of bounds"@,
        ErrCode::OutOfHandles => "out of handles"@,
        ErrCode::InvalidHandle => "invalid handle"@,
        ErrCode::Pager(_) => "error from pager module"@,
    }
}

impl PagerError {
    /// A short description of the error.
    pub fn message(&self) -> (r: &'static str)
        ensures
            r@ == pager_error_message(*self),
    {
        match self {
            PagerError::PhysicalAddressNotFound(_) => "physical address not found",
            PagerError::VirtualAddressNotFound(_) => "virtual address not found",
            PagerError::UnmappedVirtualAddress(_) => "unmapped virtual address",
            PagerError::VirtualAddressAlreadyMapped(_) => "virtual address already mapped",
        }
    }
}

impl ErrCode {
    /// A short description of the error.
    pub fn message(&self) -> (r: &'static str)
        ensures
            r@ == err_code_message(*self),
    {
        match self {
            ErrCode::Unknown => "unknown error",
            ErrCode::Unimplemented => "the called function has not yet been implemented",
            ErrCode::InvalidParameter => "invalid parameter",
            ErrCode::OutOfMemory => "out of memory",
            ErrCode::OutOfBounds => "index out of bounds",
            ErrCode::OutOfHandles => "out of handles",
            ErrCode::InvalidHandle => "invalid handle",
            ErrCode::Pager(_) => "error from pager module",
        }
    }
}

impl From<PagerError> for ErrCode {
    fn from(e: PagerError) -> (r: ErrCode) {
        ErrCode::Pager(e)
    }
}

impl vstd::std_specs::convert::FromSpecImpl<PagerError> for ErrCode {
    open spec fn obeys_from_spec() -> bool {
        true
    }

    open spec fn from_spec(v: PagerError) -> ErrCode {
        ErrCode::Pager(v)
    }
}

} // verus!
