//! The decisions of bringing up the application processors: which processors the
//! interrupt controller table lists, at which local APIC each is addressed, the
//! interrupt commands that start them, and how many are up.
use vstd::prelude::*;
use crate::arch::x86_64::smp::cpu_state::State;
use crate::types::Address;

verus! {

/// An entry of the Multiple APIC Description Table, as far as bringing up the processors
/// reads it.
#[derive(Clone, Copy, Debug, PartialEq, Eq, Structural)]
pub enum MadtRecord {
    /// A processor with a local APIC.
    LocalApic { processor_id: u8, apic_id: u8, flags: u32 },
    /// An I/O APIC.
    IoApic,
    /// A new physical address of the local APICs.
    LocalApicAddressOverride { local_apic_address: u64 },
    /// A processor with a local x2APIC.
    LocalX2Apic { processor_uid: u32, x2apic_id: u32, flags: u32 },
    /// Any other entry.
    Other,
}

/// An INIT interrupt, level triggered.
pub const INIT_IPI: u32 = 0x4500;

/// A start-up interrupt; the low byte holds the start-up vector.
pub const STARTUP_IPI: u32 = 0x4600;

/// The processors to start, in table order, each with the physical address of the local
/// APIC it is reached through: the address in force when its entry is read, which an
/// override entry changes for the entries after it.  The processor with APIC id 0 is the
/// one already running and is left out.
pub open spec fn startup_plan(entries: Seq<MadtRecord>, local_apic_address: Address) -> Seq<
    (u32, Address),
>
    decreases entries.len(),
{
    if entries.len() == 0 {
        Seq::empty()
    } else {
        let rest = entries.drop_first();
        match entries[0] {
            MadtRecord::LocalApic { apic_id, .. } => if apic_id == 0 {
                startup_plan(rest, local_apic_address)
            } else {
                seq![(apic_id as u32, local_apic_address)] + startup_plan(rest, local_apic_address)
            },
            MadtRecord::LocalX2Apic { x2apic_id, .. } => if x2apic_id == 0 {
                startup_plan(rest, local_apic_address)
            } else {
                seq![(x2apic_id, local_apic_address)] + startup_plan(rest, local_apic_address)
            },
            MadtRecord::LocalApicAddressOverride { local_apic_address: new_address } =>
                startup_plan(rest, new_address),
            _ => startup_plan(rest, local_apic_address),
        }
    }
}

/// Whether `entry` lists the processor with APIC id `id`.
pub open spec fn lists_processor(entry: MadtRecord, id: u32) -> bool {
    match entry {
        MadtRecord::LocalApic { apic_id, .. } => apic_id as u32 == id,
        MadtRecord::LocalX2Apic { x2apic_id, .. } => x2apic_id == id,
        _ => false,
    }
}

/// The processor already running is never started again: no planned processor has APIC
/// id 0, and each planned one is listed in the table.
pub proof fn law_bootstrap_processor_not_started(
    entries: Seq<MadtRecord>,
    local_apic_address: Address,
    k: int,
)
    requires
        0 <= k < startup_plan(entries, local_apic_address).len(),
    ensures
        startup_plan(entries, local_apic_address)[k].0 != 0,
        exists|j: int|
            0 <= j < entries.len() && #[trigger] lists_processor(
                entries[j],
                startup_plan(entries, local_apic_address)[k].0,
            ),
    decreases entries.len(),
{
    let rest = entries.drop_first();
    let plan = startup_plan(entries, local_apic_address);
    let (next_address, skipped) = match entries[0] {
        MadtRecord::LocalApic { apic_id, .. } => (local_apic_address, apic_id != 0),
        MadtRecord::LocalX2Apic { x2apic_id, .. } => (local_apic_address, x2apic_id != 0),
        MadtRecord::LocalApicAddressOverride { local_apic_address: new_address } => (
            new_address,
            false,
        ),
        _ => (local_apic_address, false),
    };
    if skipped && k == 0 {
        assert(lists_processor(entries[0], plan[0].0));
    } else {
        let k2 = if skipped {
            k - 1
        } else {
            k
        };
        assert(plan[k] == startup_plan(rest, next_address)[k2]);
        law_bootstrap_processor_not_started(rest, next_address, k2);
        let j = choose|j: int|
            0 <= j < rest.len() && #[trigger] lists_processor(
                rest[j],
                startup_plan(rest, next_address)[k2].0,
            );
        assert(entries[j + 1] == rest[j]);
        assert(lists_processor(entries[j + 1], plan[k].0));
    }
}

/// The processors to start, with the local APIC address of each (see `startup_plan`).
pub fn ap_startup_plan(entries: &Vec<MadtRecord>, local_apic_address: Address) -> (r: Vec<
    (u32, Address),
>)
    ensures
        r@ == startup_plan(entries@, local_apic_address),
{
    let mut plan: Vec<(u32, Address)> = Vec::new();
    let mut lapic = local_apic_address;
    let mut i: usize = 0;
    assert(entries@.subrange(0, entries.len() as int) =~= entries@);
    assert(plan@ + startup_plan(entries@, local_apic_address) =~= startup_plan(
        entries@,
        local_apic_address,
    ));
    while i < entries.len()
        invariant
            i <= entries.len(),
            plan@ + startup_plan(entries@.subrange(i as int, entries.len() as int), lapic)
                == startup_plan(entries@, local_apic_address),
        decreases entries.len() - i,
    {
        let ghost before = plan@;
        let ghost rest = entries@.subrange(i + 1, entries.len() as int);
        assert(entries@.subrange(i as int, entries.len() as int).drop_first() =~= rest);
        assert(entries@.subrange(i as int, entries.len() as int)[0] == entries@[i as int]);
        match entries[i] {
            MadtRecord::LocalApic { apic_id, .. } => {
                if apic_id != 0 {
                    plan.push((apic_id as u32, lapic));
                    assert(before + (seq![(apic_id as u32, lapic)] + startup_plan(rest, lapic))
                        =~= plan@ + startup_plan(rest, lapic));
                }
            },
            MadtRecord::LocalX2Apic { x2apic_id, .. } => {
                if x2apic_id != 0 {
                    plan.push((x2apic_id, lapic));
                    assert(before + (seq![(x2apic_id, lapic)] + startup_plan(rest, lapic))
                        =~= plan@ + startup_plan(rest, lapic));
                }
            },
            MadtRecord::LocalApicAddressOverride { local_apic_address: new_address } => {
                lapic = new_address;
            },
            _ => {},
        }
        i = i + 1;
    }
    assert(entries@.subrange(i as int, entries.len() as int) =~= Seq::<MadtRecord>::empty());
    assert(plan@ + Seq::<(u32, Address)>::empty() =~= plan@);
    plan
}

/// The start-up interrupt command for `vector`.
pub fn startup_ipi_command(vector: Address) -> (r: u32)
    requires
        vector < 256,
    ensures
        r == STARTUP_IPI + vector,
{
    let v = vector as u32;
    assert(0x4600u32 | v == 0x4600u32 + v) by (bit_vector)
        requires
            v < 256u32,
    ;
    STARTUP_IPI | v
}

/// The x2APIC interrupt command register value that sends `command` to the processor
/// `apic_id`: the destination in the high half, the command in the low half.
pub fn x2apic_icr(apic_id: u32, command: u32) -> (r: u64)
    ensures
        r == apic_id * 0x1_0000_0000 + command,
{
    let high = apic_id as u64;
    let low = command as u64;
    assert((high << 32u64) | low == high * 0x1_0000_0000u64 + low) by (bit_vector)
        requires
            high < 0x1_0000_0000u64,
            low < 0x1_0000_0000u64,
    ;
    (high << 32) | low
}

/// The high word of the local APIC interrupt command register that addresses the
/// processor `apic_id`: its low byte in the top byte.
pub fn xapic_icr_high(apic_id: u32) -> (r: u32)
    ensures
        r == (apic_id % 256) * 0x100_0000,
{
    assert(apic_id << 24u32 == ((apic_id % 256) * 0x100_0000) as u32) by (bit_vector);
    apic_id << 24
}

/// The spurious interrupt vector register with the APIC software enabled (bit 8) and the
/// spurious vector 0xFF.
pub fn software_enabled_svr(svr: u32) -> (r: u32)
    ensures
        r & 0x1FF == 0x1FF,
        r & !0x1FFu32 == svr & !0x1FFu32,
{
    let r = svr | 0x100 | 0xFF;
    assert(r & 0x1FF == 0x1FF && r & !0x1FFu32 == svr & !0x1FFu32) by (bit_vector)
        requires
            r == svr | 0x100u32 | 0xFFu32,
    ;
    r
}

/// The number of processors among `states[1..]` that are initializing.
pub open spec fn initializing_count(states: Seq<State>) -> nat
    decreases states.len(),
{
    if states.len() <= 1 {
        0
    } else {
        initializing_count(states.drop_last()) + if states.last() == State::Initializing {
            1nat
        } else {
            0nat
        }
    }
}

/// The processors that are up: the bootstrap processor, and each application
/// processor (index 1 on) whose state is initializing.
pub fn count_aps_up(states: &Vec<State>) -> (r: usize)
    requires
        states.len() < usize::MAX,
    ensures
        r == 1 + initializing_count(states@),
{
    if states.len() == 0 {
        return 1;
    }
    let mut up: usize = 1;
    let mut cpu: usize = 1;
    while cpu < states.len()
        invariant
            1 <= cpu,
            cpu <= states.len(),
            states.len() < usize::MAX,
            up == 1 + initializing_count(states@.subrange(0, cpu as int)),
            up <= cpu,
        decreases states.len() - cpu,
    {
        let ghost prefix = states@.subrange(0, cpu as int + 1);
        assert(prefix.drop_last() =~= states@.subrange(0, cpu as int));
        if states[cpu] == State::Initializing {
            up = up + 1;
        }
        cpu = cpu + 1;
    }
    assert(states@.subrange(0, cpu as int) =~= states@);
    up
}

} // verus!
