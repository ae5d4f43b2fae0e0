//! The interrupt vectors the kernel handles, and how the interrupt descriptor table
//! serves each of them.
use vstd::prelude::*;
use crate::arch::x86_64::gdt::ExceptionStackIndex;

pub mod handlers;

verus! {

/// The interrupt vectors the kernel knows of: the processor's exceptions, then the local
/// timer, error and spurious interrupts.
#[derive(Clone, Copy, Debug, PartialEq, Eq, Structural)]
pub enum InterruptIndex {
    DivideByZero,
    Debug,
    NonMaskableInterrupt,
    Breakpoint,
    Overflow,
    BoundRangeExceeded,
    InvalidOpcode,
    DeviceNotAvailable,
    DoubleFault,
    InvalidTss,
    SegmentNotPresent,
    StackSegmentFault,
    GeneralProtectionFault,
    PageFault,
    X87FloatingPoint,
    AlignmentCheck,
    MachineCheck,
    SimdFloatingPoint,
    Virtualization,
    CpProtectionException,
    HVInjectionException,
    VMMCommunicationException,
    SecurityException,
    Timer,
    Error,
    Spurious,
}

/// The kind of handler installed for a vector.
#[derive(Clone, Copy, Debug, PartialEq, Eq, Structural)]
pub enum HandlerKind {
    /// Reports the exception and returns.
    Default,
    /// Reports the exception and halts.
    Diverging,
    /// Reports the exception and its error code, and returns.
    DefaultWithErrorCode,
    /// Reports the exception and its error code, and halts.
    DivergingWithErrorCode,
    /// Reports the faulting address and the error code, and returns.
    PageFault,
    /// Counts a tick of the timer.
    Timer,
}

impl InterruptIndex {
    /// The vector number.
    pub open spec fn spec_vector(self) -> u8 {
        match self {
            InterruptIndex::DivideByZero => 0,
            InterruptIndex::Debug => 1,
            InterruptIndex::NonMaskableInterrupt => 2,
            InterruptIndex::Breakpoint => 3,
            InterruptIndex::Overflow => 4,
            InterruptIndex::BoundRangeExceeded => 5,
            InterruptIndex::InvalidOpcode => 6,
            InterruptIndex::DeviceNotAvailable => 7,
            InterruptIndex::DoubleFault => 8,
            InterruptIndex::InvalidTss => 10,
            InterruptIndex::SegmentNotPresent => 11,
            InterruptIndex::StackSegmentFault => 12,
            InterruptIndex::GeneralProtectionFault => 13,
            InterruptIndex::PageFault => 14,
            InterruptIndex::X87FloatingPoint => 16,
            InterruptIndex::AlignmentCheck => 17,
            InterruptIndex::MachineCheck => 18,
            InterruptIndex::SimdFloatingPoint => 19,
            InterruptIndex::Virtualization => 20,
            InterruptIndex::CpProtectionException => 21,
            InterruptIndex::HVInjectionException => 22,
            InterruptIndex::VMMCommunicationException => 23,
            InterruptIndex::SecurityException => 30,
            InterruptIndex::Timer => 32,
            InterruptIndex::Error => 33,
            InterruptIndex::Spurious => 34,
        }
    }

    /// The vector number.
    pub fn vector(self) -> (r: u8)
        ensures
            r == self.spec_vector(),
    {
        match self {
            InterruptIndex::DivideByZero => 0,
            InterruptIndex::Debug => 1,
            InterruptIndex::NonMaskableInterrupt => 2,
            InterruptIndex::Breakpoint => 3,
            InterruptIndex::Overflow => 4,
            InterruptIndex::BoundRangeExceeded => 5,
            InterruptIndex::InvalidOpcode => 6,
            InterruptIndex::DeviceNotAvailable => 7,
            InterruptIndex::DoubleFault => 8,
            InterruptIndex::InvalidTss => 10,
            InterruptIndex::SegmentNotPresent => 11,
            InterruptIndex::StackSegmentFault => 12,
            InterruptIndex::GeneralProtectionFault => 13,
            InterruptIndex::PageFault => 14,
            InterruptIndex::X87FloatingPoint => 16,
            InterruptIndex::AlignmentCheck => 17,
            InterruptIndex::MachineCheck => 18,
            InterruptIndex::SimdFloatingPoint => 19,
            InterruptIndex::Virtualization => 20,
            InterruptIndex::CpProtectionException => 21,
            InterruptIndex::HVInjectionException => 22,
            InterruptIndex::VMMCommunicationException => 23,
            InterruptIndex::SecurityException => 30,
            InterruptIndex::Timer => 32,
            InterruptIndex::Error => 33,
            InterruptIndex::Spurious => 34,
        }
    }

    /// The handler installed for this vector; none for the error and spurious
    /// interrupts.
    pub open spec fn spec_handler_kind(self) -> Option<HandlerKind> {
        match self {
            InterruptIndex::DivideByZero => Some(HandlerKind::Default),
            InterruptIndex::Debug => Some(HandlerKind::Default),
            InterruptIndex::NonMaskableInterrupt => Some(HandlerKind::Default),
            InterruptIndex::Breakpoint => Some(HandlerKind::Default),
            InterruptIndex::Overflow => Some(HandlerKind::Default),
            InterruptIndex::BoundRangeExceeded => Some(HandlerKind::Default),
            InterruptIndex::InvalidOpcode => Some(HandlerKind::Default),
            InterruptIndex::DeviceNotAvailable => Some(HandlerKind::Default),
            InterruptIndex::DoubleFault => Some(HandlerKind::DivergingWithErrorCode),
            InterruptIndex::InvalidTss => Some(HandlerKind::DefaultWithErrorCode),
            InterruptIndex::SegmentNotPresent => Some(HandlerKind::DefaultWithErrorCode),
            InterruptIndex::StackSegmentFault => Some(HandlerKind::DefaultWithErrorCode),
            InterruptIndex::GeneralProtectionFault => Some(HandlerKind::DefaultWithErrorCode),
            InterruptIndex::PageFault => Some(HandlerKind::PageFault),
            InterruptIndex::X87FloatingPoint => Some(HandlerKind::Default),
            InterruptIndex::AlignmentCheck => Some(HandlerKind::DefaultWithErrorCode),
            InterruptIndex::MachineCheck => Some(HandlerKind::Diverging),
            InterruptIndex::SimdFloatingPoint => Some(HandlerKind::Default),
            InterruptIndex::Virtualization => Some(HandlerKind::Default),
            InterruptIndex::CpProtectionException => Some(HandlerKind::DefaultWithErrorCode),
            InterruptIndex::HVInjectionException => Some(HandlerKind::Default),
            InterruptIndex::VMMCommunicationException => Some(HandlerKind::DefaultWithErrorCode),
            InterruptIndex::SecurityException => Some(HandlerKind::DefaultWithErrorCode),
            InterruptIndex::Timer => Some(HandlerKind::Timer),
            InterruptIndex::Error => None,
            InterruptIndex::Spurious => None,
        }
    }

    /// The handler installed for this vector; none for the error and spurious
    /// interrupts.
    pub fn handler_kind(self) -> (r: Option<HandlerKind>)
        ensures
            r == self.spec_handler_kind(),
    {
        match self {
            InterruptIndex::DivideByZero => Some(HandlerKind::Default),
            InterruptIndex::Debug => Some(HandlerKind::Default),
            InterruptIndex::NonMaskableInterrupt => Some(HandlerKind::Default),
            InterruptIndex::Breakpoint => Some(HandlerKind::Default),
            InterruptIndex::Overflow => Some(HandlerKind::Default),
            InterruptIndex::BoundRangeExceeded => Some(HandlerKind::Default),
            InterruptIndex::InvalidOpcode => Some(HandlerKind::Default),
            InterruptIndex::DeviceNotAvailable => Some(HandlerKind::Default),
            InterruptIndex::DoubleFault => Some(HandlerKind::DivergingWithErrorCode),
            InterruptIndex::InvalidTss => Some(HandlerKind::DefaultWithErrorCode),
            InterruptIndex::SegmentNotPresent => Some(HandlerKind::DefaultWithErrorCode),
            InterruptIndex::StackSegmentFault => Some(HandlerKind::DefaultWithErrorCode),
            InterruptIndex::GeneralProtectionFault => Some(HandlerKind::DefaultWithErrorCode),
            InterruptIndex::PageFault => Some(HandlerKind::PageFault),
            InterruptIndex::X87FloatingPoint => Some(HandlerKind::Default),
            InterruptIndex::AlignmentCheck => Some(HandlerKind::DefaultWithErrorCode),
            InterruptIndex::MachineCheck => Some(HandlerKind::Diverging),
            InterruptIndex::SimdFloatingPoint => Some(HandlerKind::Default),
            InterruptIndex::Virtualization => Some(HandlerKind::Default),
            InterruptIndex::CpProtectionException => Some(HandlerKind::DefaultWithErrorCode),
            InterruptIndex::HVInjectionException => Some(HandlerKind::Default),
            InterruptIndex::VMMCommunicationException => Some(HandlerKind::DefaultWithErrorCode),
            InterruptIndex::SecurityException => Some(HandlerKind::DefaultWithErrorCode),
            InterruptIndex::Timer => Some(HandlerKind::Timer),
            InterruptIndex::Error => None,
            InterruptIndex::Spurious => None,
        }
    }

    /// The dedicated stack this vector's handler runs on, if it has one.
    pub open spec fn spec_exception_stack(self) -> Option<ExceptionStackIndex> {
        match self {
            InterruptIndex::Debug => Some(ExceptionStackIndex::DebugStackIndex),
            InterruptIndex::NonMaskableInterrupt => Some(ExceptionStackIndex::NmiStackIndex),
            InterruptIndex::DoubleFault => Some(ExceptionStackIndex::DoubleFaultStackIndex),
            InterruptIndex::MachineCheck => Some(ExceptionStackIndex::MceStackIndex),
            _ => None,
        }
    }

    /// The dedicated stack this vector's handler runs on, if it has one.
    pub fn exception_stack(self) -> (r: Option<ExceptionStackIndex>)
        ensures
            r == self.spec_exception_stack(),
    {
        match self {
            InterruptIndex::Debug => Some(ExceptionStackIndex::DebugStackIndex),
            InterruptIndex::NonMaskableInterrupt => Some(ExceptionStackIndex::NmiStackIndex),
            InterruptIndex::DoubleFault => Some(ExceptionStackIndex::DoubleFaultStackIndex),
            InterruptIndex::MachineCheck => Some(ExceptionStackIndex::MceStackIndex),
            _ => None,
        }
    }
}

/// Distinct vectors have distinct numbers.
pub proof fn law_vectors_distinct(a: InterruptIndex, b: InterruptIndex)
    requires
        a != b,
    ensures
        a.spec_vector() != b.spec_vector(),
{
}

/// The exceptions that halt the processor run on a stack of their own, so that they can
/// be reported even when the kernel stack is unusable.
pub proof fn law_halting_handlers_have_own_stack(index: InterruptIndex)
    requires
        index.spec_handler_kind() == Some(HandlerKind::Diverging) || index.spec_handler_kind()
            == Some(HandlerKind::DivergingWithErrorCode),
    ensures
        index.spec_exception_stack() is Some,
{
}

} // verus!
