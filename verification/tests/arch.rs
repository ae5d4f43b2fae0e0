use synapse::arch::x86_64::gdt::{
    gdt_words, ExceptionStackIndex, GDT_SIZE, RING_0_CODE_SELECTOR, RING_0_DATA_SELECTOR,
    RING_3_CODE_SELECTOR, RING_3_DATA_SELECTOR, TSS_SELECTOR,
};
use synapse::arch::x86_64::idt::handlers::{
    DivideByZeroMetaData, DoubleFaultMetaData, InterruptMetaData, PageFaultMetaData,
    SecurityExceptionMetaData,
};
use synapse::arch::x86_64::idt::{HandlerKind, InterruptIndex};
use synapse::arch::x86_64::pit::{
    delay_end_ticks, divisor_bytes, rate_generator_control, timer_divisor, TICK_FREQUENCY,
};
use synapse::arch::x86_64::scheduler::task::Task;
use synapse::arch::x86_64::smp::cpu_stack::{stack_page_count, CpuStack};
use synapse::arch::x86_64::smp::cpu_state::{CpuState, State};
use synapse::arch::x86_64::smp::per_cpu_data::{
    get_cpu_state_base, get_exception_stack_base, get_gdt_base, get_stack_base, get_stack_top,
    get_tss_base, cpu_region_fits, STACK_SIZE,
};
use synapse::arch::x86_64::smp::relocation::{Relocation, RelocationType};
use synapse::arch::x86_64::smp::startup::{
    ap_startup_plan, count_aps_up, software_enabled_svr, startup_ipi_command, x2apic_icr,
    xapic_icr_high, MadtRecord, INIT_IPI,
};
use synapse::arch::x86_64::smp::trampoline::Trampoline;
use synapse::arch::x86_64::util::register_snapshot::RegisterSnapshot;
use synapse::errors::ErrCode;
use synapse::types::{CpuId, VirtualAddress};

#[test]
fn test_get_bsp_pointers() {
    let bsp: CpuId = 0;
    assert_eq!(get_stack_base(bsp), VirtualAddress(0xFFFFFFF000100000));
    assert_eq!(get_exception_stack_base(bsp, ExceptionStackIndex::DoubleFaultStackIndex), VirtualAddress(0xFFFFFFF000002000));
    assert_eq!(get_exception_stack_base(bsp, ExceptionStackIndex::NmiStackIndex), VirtualAddress(0xFFFFFFF000006000));
    assert_eq!(get_exception_stack_base(bsp, ExceptionStackIndex::DebugStackIndex), VirtualAddress(0xFFFFFFF00000a000));
    assert_eq!(get_exception_stack_base(bsp, ExceptionStackIndex::MceStackIndex), VirtualAddress(0xFFFFFFF00000e000));
    assert_eq!(get_tss_base(bsp), VirtualAddress(0xFFFFFFF000001038));
    assert_eq!(get_gdt_base(bsp), VirtualAddress(0xFFFFFFF000001000));
    assert_eq!(get_cpu_state_base(bsp), VirtualAddress(0xFFFFFFF000000000));
}

#[test]
fn test_get_cpu_n_pointers() {
    let cpu: CpuId = 3;
    assert_eq!(get_stack_base(cpu), VirtualAddress(0xFFFFFFF000400000));
    assert_eq!(get_exception_stack_base(cpu, ExceptionStackIndex::DoubleFaultStackIndex), VirtualAddress(0xFFFFFFF000302000));
    assert_eq!(get_exception_stack_base(cpu, ExceptionStackIndex::NmiStackIndex), VirtualAddress(0xFFFFFFF000306000));
    assert_eq!(get_exception_stack_base(cpu, ExceptionStackIndex::DebugStackIndex), VirtualAddress(0xFFFFFFF00030a000));
    assert_eq!(get_exception_stack_base(cpu, ExceptionStackIndex::MceStackIndex), VirtualAddress(0xFFFFFFF00030e000));
    assert_eq!(get_tss_base(cpu), VirtualAddress(0xFFFFFFF000301038));
    assert_eq!(get_gdt_base(cpu), VirtualAddress(0xFFFFFFF000301000));
    assert_eq!(get_cpu_state_base(cpu), VirtualAddress(0xFFFFFFF000300000));
}

#[test]
fn cpu_stack_spans_the_top_of_the_region() {
    let stack = CpuStack::get(2);
    assert_eq!(stack.base, get_stack_base(2));
    assert_eq!(stack.get_top(), get_stack_top(2));
    assert_eq!(stack.get_top(), VirtualAddress(get_stack_base(2).0 - STACK_SIZE as u64));
    assert_eq!(stack_page_count(4096), STACK_SIZE / 4096);
    assert_eq!(get_stack_top(2), VirtualAddress(get_stack_base(2).0 - STACK_SIZE as u64));
}

#[test]
fn exception_stack_indices_follow_the_table() {
    assert_eq!(ExceptionStackIndex::DoubleFaultStackIndex.index(), 0);
    assert_eq!(ExceptionStackIndex::NmiStackIndex.index(), 1);
    assert_eq!(ExceptionStackIndex::DebugStackIndex.index(), 2);
    assert_eq!(ExceptionStackIndex::MceStackIndex.index(), 3);
}

#[test]
fn cpu_state_starts_off() {
    let state = CpuState::default();
    assert_eq!(state.state, State::Off);
    assert_eq!(state.get_cpu_id(), 0);
    let other = CpuState { apic_id: 7, state: State::Initializing, config: 0 };
    assert_eq!(other.get_cpu_id(), 7);
}

#[test]
fn interrupt_vectors_and_handlers() {
    assert_eq!(InterruptIndex::DivideByZero.vector(), 0);
    assert_eq!(InterruptIndex::DoubleFault.vector(), 8);
    assert_eq!(InterruptIndex::InvalidTss.vector(), 10);
    assert_eq!(InterruptIndex::SecurityException.vector(), 30);
    assert_eq!(InterruptIndex::Timer.vector(), 32);
    assert_eq!(InterruptIndex::Error.vector(), 33);
    assert_eq!(InterruptIndex::Spurious.vector(), 34);

    assert_eq!(InterruptIndex::DoubleFault.handler_kind(), Some(HandlerKind::DivergingWithErrorCode));
    assert_eq!(InterruptIndex::MachineCheck.handler_kind(), Some(HandlerKind::Diverging));
    assert_eq!(InterruptIndex::PageFault.handler_kind(), Some(HandlerKind::PageFault));
    assert_eq!(InterruptIndex::GeneralProtectionFault.handler_kind(), Some(HandlerKind::DefaultWithErrorCode));
    assert_eq!(InterruptIndex::Breakpoint.handler_kind(), Some(HandlerKind::Default));
    assert_eq!(InterruptIndex::Timer.handler_kind(), Some(HandlerKind::Timer));
    assert_eq!(InterruptIndex::Spurious.handler_kind(), None);

    assert_eq!(InterruptIndex::DoubleFault.exception_stack(), Some(ExceptionStackIndex::DoubleFaultStackIndex));
    assert_eq!(InterruptIndex::NonMaskableInterrupt.exception_stack(), Some(ExceptionStackIndex::NmiStackIndex));
    assert_eq!(InterruptIndex::Debug.exception_stack(), Some(ExceptionStackIndex::DebugStackIndex));
    assert_eq!(InterruptIndex::MachineCheck.exception_stack(), Some(ExceptionStackIndex::MceStackIndex));
    assert_eq!(InterruptIndex::PageFault.exception_stack(), None);
}

#[test]
fn interrupt_metadata_numbers_and_names() {
    assert_eq!(DivideByZeroMetaData::INTERRUPT_NUMBER, 0);
    assert_eq!(DivideByZeroMetaData::NAME, "Divide By Zero");
    assert_eq!(DoubleFaultMetaData::INTERRUPT_NUMBER, 8);
    assert_eq!(PageFaultMetaData::INTERRUPT_NUMBER, 14);
    assert_eq!(PageFaultMetaData::NAME, "Page Fault");
    assert_eq!(SecurityExceptionMetaData::INTERRUPT_NUMBER, 28);
}

#[test]
fn kernel_task_starts_at_entry_on_top_of_its_stack() {
    let task = Task::new_kernel_task(0x1234, VirtualAddress(0x8000), 0x2000, 0x5000);
    assert_eq!(task.id, 0);
    assert_eq!(task.rip, 0x1234);
    assert_eq!(task.rflags, 0x202);
    assert_eq!(task.cr3, 0x5000);
    assert_eq!(task.kernel_stack_pointer, VirtualAddress(0xA000));
    assert_eq!(task.registers, RegisterSnapshot::default());
}

#[test]
fn trampoline_vector_is_its_page_number() {
    let t = Trampoline::new(0x8000);
    assert_eq!(t.get_vector(), 8);
    assert_eq!(t.relocated_jump(0x20), 0x8026);
    assert_eq!(t.relocated_gdt_start(0x40), 0x8040);
    assert_eq!(t.to_target_vector(0x10), 0x8010);
}

#[test]
fn relocation_patch_offsets() {
    // the masks the trampoline is patched with
    let cr3 = Relocation::new(0x100, 0xffffffff00_u64);
    assert_eq!(cr3.patch_offset(4), Some(1));
    assert_eq!(cr3.patch_offset(8), None);
    let entry = Relocation::new(0x200, 0xffffffffffffffff0000_u128);
    assert_eq!(entry.patch_offset(8), Some(2));
    let lgdt = Relocation::new(0x300, 0xffff000000_u64);
    assert_eq!(lgdt.patch_offset(2), Some(3));
    let gdt_pointer = Relocation::new(0x400, 0xffffffff_u32);
    assert_eq!(gdt_pointer.patch_offset(4), Some(0));
    assert_eq!(0xffff000000_u64.trailing_zeros(), 24);
    assert_eq!(RelocationType::count_ones(0xffff000000_u64), 16);
    assert_eq!(RelocationType::trailing_zeros(0u32), 32);
}

#[test]
fn startup_plan_follows_the_table() {
    let entries = vec![
        MadtRecord::LocalApic { processor_id: 0, apic_id: 0, flags: 1 },
        MadtRecord::LocalApic { processor_id: 1, apic_id: 1, flags: 1 },
        MadtRecord::IoApic,
        MadtRecord::LocalApicAddressOverride { local_apic_address: 0xFEE0_1000 },
        MadtRecord::LocalX2Apic { processor_uid: 2, x2apic_id: 300, flags: 0 },
        MadtRecord::Other,
        MadtRecord::LocalApic { processor_id: 3, apic_id: 3, flags: 2 },
    ];
    let plan = ap_startup_plan(&entries, 0xFEE0_0000);
    assert_eq!(plan, vec![(1, 0xFEE0_0000), (300, 0xFEE0_1000), (3, 0xFEE0_1000)]);
    assert_eq!(ap_startup_plan(&Vec::new(), 0xFEE0_0000), vec![]);
}

#[test]
fn interrupt_commands() {
    assert_eq!(INIT_IPI, 0x4500);
    assert_eq!(startup_ipi_command(8), 0x4608);
    assert_eq!(x2apic_icr(3, 0x4500), 0x0000_0003_0000_4500);
    assert_eq!(xapic_icr_high(3), 0x0300_0000);
    assert_eq!(xapic_icr_high(0x1ff), 0xff00_0000);
    assert_eq!(software_enabled_svr(0x1234_0000), 0x1234_01ff);
    assert_eq!(software_enabled_svr(0x0000_0010), 0x0000_01ff);
}

#[test]
fn aps_up_counts_initializing_application_processors() {
    assert_eq!(count_aps_up(&vec![]), 1);
    assert_eq!(count_aps_up(&vec![State::Initializing]), 1);
    assert_eq!(
        count_aps_up(&vec![State::Off, State::Initializing, State::Off, State::Initializing]),
        3
    );
}

#[test]
fn pit_programming() {
    assert_eq!(rate_generator_control(), 0x34);
    assert_eq!(timer_divisor(TICK_FREQUENCY), 5965);
    assert_eq!(timer_divisor(1), (0x1234DD_u32 % 0x10000) as u16);
    assert_eq!(divisor_bytes(5965), (0x4D, 0x17));
    assert_eq!(delay_end_ticks(100, 10_000, 200), 102);
    assert_eq!(delay_end_ticks(0, 200, 200), 0);
}

#[test]
fn cpu_stack_from_mapping_passes_the_pager_answer_on() {
    let stack = CpuStack::from_mapping(2, Ok(get_stack_top(2)));
    assert_eq!(stack.map(|s| s.base), Ok(get_stack_base(2)));
    let refused = CpuStack::from_mapping(2, Err(ErrCode::OutOfMemory));
    assert_eq!(refused.map(|s| s.base), Err(ErrCode::OutOfMemory));
}

#[test]
fn gdt_words_follow_the_selectors() {
    let words = gdt_words((0x1111, 0x2222));
    assert_eq!(
        words,
        vec![
            0,
            0x00af9b000000ffff,
            0x00cf93000000ffff,
            0x00affb000000ffff,
            0x00cff3000000ffff,
            0x1111,
            0x2222
        ]
    );
    assert_eq!(words.len() * 8, GDT_SIZE);
    assert_eq!(words[(RING_0_CODE_SELECTOR / 8) as usize], 0x00af9b000000ffff);
    assert_eq!(words[(RING_0_DATA_SELECTOR / 8) as usize], 0x00cf93000000ffff);
    assert_eq!(words[(RING_3_CODE_SELECTOR / 8) as usize], 0x00affb000000ffff);
    assert_eq!(words[(RING_3_DATA_SELECTOR / 8) as usize], 0x00cff3000000ffff);
    assert_eq!(words[(TSS_SELECTOR / 8) as usize], 0x1111);
}

#[test]
fn cpu_regions_fit_below_the_top_of_the_address_space() {
    assert!(cpu_region_fits(0));
    assert!(cpu_region_fits(65534));
    assert!(!cpu_region_fits(65535));
    assert!(!cpu_region_fits(u32::MAX));
}
