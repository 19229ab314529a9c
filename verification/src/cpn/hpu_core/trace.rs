//! Trace of the instruction scheduler, as it is written in the trace memory.
use tfhe_hpu_backend::prelude::isc_trace;
use vstd::prelude::*;

use super::event::IscCommand;

verus! {

/// State of the pool entry of an instruction.
#[derive(Clone, Copy, Debug, PartialEq, Eq, Structural)]
pub struct SlotProperties {
    pub pdg: bool,
    pub rd_pdg: bool,
    pub vld: bool,
    pub wr_lock: u32,
    pub rd_lock: u32,
    pub issue_lock: u32,
}

impl SlotProperties {
    /// Entry that holds nothing.
    pub open spec fn idle() -> SlotProperties {
        SlotProperties {
            pdg: false,
            rd_pdg: false,
            vld: false,
            wr_lock: 0,
            rd_lock: 0,
            issue_lock: 0,
        }
    }
}

impl Default for SlotProperties {
    fn default() -> (r: SlotProperties)
        ensures
            r == SlotProperties::idle(),
    {
        SlotProperties {
            pdg: false,
            rd_pdg: false,
            vld: false,
            wr_lock: 0,
            rd_lock: 0,
            issue_lock: 0,
        }
    }
}

/// Number that stands for an action in a trace.
pub open spec fn command_code(cmd: IscCommand) -> u8 {
    match cmd {
        IscCommand::Idle => 0,
        IscCommand::RdUnlock => 1,
        IscCommand::Retire => 2,
        IscCommand::Refill => 3,
        IscCommand::Issue => 4,
    }
}

/// Bit of a flag.
pub open spec fn bit(b: bool) -> int {
    if b {
        1
    } else {
        0
    }
}

/// Byte `i` of a word, the least significant being the first one.
pub open spec fn byte(word: u32, i: int) -> u8 {
    if i == 0 {
        (word % 0x100) as u8
    } else if i == 1 {
        (word / 0x100 % 0x100) as u8
    } else if i == 2 {
        (word / 0x1_0000 % 0x100) as u8
    } else {
        (word / 0x100_0000) as u8
    }
}

/// Bytes of a trace entry.
pub open spec fn entry_bytes(
    pe_reserved: u16,
    flags: (bool, bool, bool),
    cmd: IscCommand,
    locks: (u8, u8, u8),
    sync_id: u8,
    insn: u32,
    timestamp: u32,
) -> Seq<u8> {
    seq![
        byte(pe_reserved as u32, 0),
        byte(pe_reserved as u32, 1),
        (bit(flags.0) + 2 * bit(flags.1) + 4 * bit(flags.2)) as u8,
        command_code(cmd),
        locks.0,
        locks.1,
        locks.2,
        sync_id,
        byte(insn, 0),
        byte(insn, 1),
        byte(insn, 2),
        byte(insn, 3),
        byte(timestamp, 0),
        byte(timestamp, 1),
        byte(timestamp, 2),
        byte(timestamp, 3),
    ]
}

/// Calls `isc_trace::IscTrace::into_bytes`, which packs an entry in sixteen bytes, the
/// least significant ones first: a reserved half-word, the flags, the action, the
/// locks for writing, reading and issuing, the synchronisation, the instruction and
/// the date. The readable form of the instruction is not part of the entry.
#[verifier::external_body]
pub(crate) fn pack_entry(
    pe_reserved: u16,
    flags: (bool, bool, bool),
    cmd: IscCommand,
    locks: (u8, u8, u8),
    sync_id: u8,
    insn_hex: u32,
    timestamp: u32,
) -> (r: Vec<u8>)
    ensures
        r@ == entry_bytes(pe_reserved, flags, cmd, locks, sync_id, insn_hex, timestamp),
{
    let cmd = match cmd {
        IscCommand::Idle => isc_trace::IscCommand::None,
        IscCommand::RdUnlock => isc_trace::IscCommand::RdUnlock,
        IscCommand::Retire => isc_trace::IscCommand::Retire,
        IscCommand::Refill => isc_trace::IscCommand::Refill,
        IscCommand::Issue => isc_trace::IscCommand::Issue,
    };
    let (pdg, rd_pdg, vld) = flags;
    let (wr_lock, rd_lock, issue_lock) = locks;
    let state =
        isc_trace::IscPoolState { pdg, rd_pdg, vld, cmd, wr_lock, rd_lock, issue_lock, sync_id };
    let (insn, insn_asm) = (None, None);
    isc_trace::IscTrace { pe_reserved, state, insn, insn_hex, insn_asm, timestamp }.into_bytes()
}

/// Bytes that record an action of the scheduler. The instruction itself and the
/// synchronisation are not recorded, and the counts of locks keep their low byte.
pub open spec fn trace_bytes(slot: SlotProperties, cmd: IscCommand, timestamp: u32) -> Seq<u8> {
    entry_bytes(
        0,
        (slot.pdg, slot.rd_pdg, slot.vld),
        cmd,
        (byte(slot.wr_lock, 0), byte(slot.rd_lock, 0), byte(slot.issue_lock, 0)),
        0,
        0,
        timestamp,
    )
}

fn low_byte(word: u32) -> (r: u8)
    ensures
        r == byte(word, 0),
{
    (word % 0x100) as u8
}

/// Bytes that record an action of the scheduler.
pub fn record(slot: SlotProperties, cmd: IscCommand, timestamp: u32) -> (r: Vec<u8>)
    ensures
        r@ == trace_bytes(slot, cmd, timestamp),
{
    let locks = (low_byte(slot.wr_lock), low_byte(slot.rd_lock), low_byte(slot.issue_lock));
    pack_entry(0, (slot.pdg, slot.rd_pdg, slot.vld), cmd, locks, 0, 0, timestamp)
}

} // verus!
