//! Laws of the registers, by register and by address.
use vstd::prelude::*;

use super::register::{
    bsk_addr_named, ct_addr_named, ksk_addr_named, named, plain_named, Register,
};
use super::unit::{
    distinct_names, first_at, mapped, position_at, read_state, read_value, register_at, write_state,
    RegisterEntry, RegmapView,
};
use crate::params::hpu::HpuParameters;

verus! {

/// Register that keeps the whole word written to it.
pub open spec fn holds_word(reg: Register) -> bool {
    reg is BpipTimeout || reg is CtAddr || reg is BskAddr || reg is KskAddr || reg is LutAddr
        || reg is TraceAddr
}

/// A register that keeps a word reads back the last word written to it.
pub proof fn write_then_read(p: HpuParameters, s: RegmapView, reg: Register, value: u32)
    requires
        s.wf(),
        reg.wf(),
        holds_word(reg),
    ensures
        read_value(p, write_state(s, reg, value), reg) == value,
        read_state(write_state(s, reg, value), reg) == write_state(s, reg, value),
{
}

/// The flags that a register keeps are the low bits of the word written to it.
pub proof fn flags_read_back(p: HpuParameters, s: RegmapView, value: u32)
    requires
        s.wf(),
    ensures
        read_value(p, write_state(s, Register::BskAvail, value), Register::BskAvail) == value & 1,
        read_value(p, write_state(s, Register::KskAvail, value), Register::KskAvail) == value & 1,
        read_value(p, write_state(s, Register::BpipUse, value), Register::BpipUse) == value & 3,
{
    assert(value & 1 == 0 || value & 1 == 1) by (bit_vector);
    assert(value & 2 == 0 || value & 2 == 2) by (bit_vector);
    assert(value & 3 == (value & 1) + (value & 2)) by (bit_vector);
}

/// A write to a register does not change what another one reads, apart from a
/// reset, which makes its key unavailable.
pub proof fn write_is_local(
    p: HpuParameters,
    s: RegmapView,
    reg: Register,
    value: u32,
    other: Register,
)
    requires
        s.wf(),
        reg.wf(),
        other.wf(),
        other != reg,
        !(reg is BskReset && other is BskAvail),
        !(reg is KskReset && other is KskAvail),
    ensures
        read_value(p, write_state(s, reg, value), other) == read_value(p, s, other),
{
}

/// The end of a reset is reported by one read, and the key is unavailable until
/// it is written again.
pub proof fn reset_reported_once(p: HpuParameters, s: RegmapView, reset: Register, value: u32)
    requires
        s.wf(),
        reset is BskReset || reset is KskReset,
        value & 1 == 1,
    ensures
        ({
            let avail = if reset is BskReset {
                Register::BskAvail
            } else {
                Register::KskAvail
            };
            let after = write_state(s, reset, value);
            let seen = read_state(after, reset);
            &&& read_value(p, after, avail) == 0
            &&& read_value(p, after, reset) == 0x8000_0000
            &&& read_value(p, seen, reset) == 0
            &&& read_value(p, seen, avail) == 0
        }),
{
}

/// A register with a meaning has one name.
pub proof fn name_is_unique(a: Seq<char>, b: Seq<char>)
    requires
        named(a) == named(b),
        !(named(a) is Unhooked),
    ensures
        a == b,
{
    lemma_offset_names(a, b);
    if ct_addr_named(a) is None && bsk_addr_named(a) is None && ksk_addr_named(a) is None {
        lemma_plain_names(a, b);
    }
}

proof fn lemma_offset_names(a: Seq<char>, b: Seq<char>)
    ensures
        ct_addr_named(a) is Some && ct_addr_named(a) == ct_addr_named(b) ==> a == b,
        bsk_addr_named(a) is Some && bsk_addr_named(a) == bsk_addr_named(b) ==> a == b,
        ksk_addr_named(a) is Some && ksk_addr_named(a) == ksk_addr_named(b) ==> a == b,
{
}

proof fn lemma_plain_names(a: Seq<char>, b: Seq<char>)
    ensures
        !(plain_named(a) is CtAddr || plain_named(a) is BskAddr || plain_named(a) is KskAddr),
        !(plain_named(a) is Unhooked) && plain_named(a) == plain_named(b) ==> a == b,
{
}

/// Two addresses have different registers, unless both registers have no meaning.
pub proof fn address_is_unique(table: Seq<RegisterEntry>, a: usize, b: usize)
    requires
        distinct_names(table),
        mapped(table, a),
        mapped(table, b),
        a != b,
    ensures
        register_at(table, a) == register_at(table, b) ==> register_at(table, a) is Unhooked,
{
    lemma_position(table, a);
    lemma_position(table, b);
    let (i, j) = (position_at(table, a), position_at(table, b));
    if register_at(table, a) == register_at(table, b) && !(register_at(table, a) is Unhooked) {
        name_is_unique(table[i].name@, table[j].name@);
        assert(table[i].name@ == table[j].name@);
        assert(i == j);
    }
}

proof fn lemma_position(table: Seq<RegisterEntry>, offset: usize)
    requires
        mapped(table, offset),
    ensures
        first_at(table, offset, position_at(table, offset)),
        register_at(table, offset).wf(),
{
    let i = choose|i: int| 0 <= i < table.len() && (#[trigger] table[i]).offset == offset;
    lemma_first(table, offset, i);
    lemma_named_wf(table[position_at(table, offset)].name@);
}

proof fn lemma_first(table: Seq<RegisterEntry>, offset: usize, i: int)
    requires
        0 <= i < table.len(),
        table[i].offset == offset,
    ensures
        exists|k: int| #[trigger] first_at(table, offset, k),
    decreases i,
{
    if !first_at(table, offset, i) {
        let j = choose|j: int| 0 <= j < i && (#[trigger] table[j]).offset == offset;
        lemma_first(table, offset, j);
    }
}

proof fn lemma_named_wf(name: Seq<char>)
    ensures
        named(name).wf(),
{
}

/// Access to a register, by its address.
pub enum Access {
    Read(usize),
    Write(usize, u32),
}

impl Access {
    /// Address of the access.
    pub open spec fn addr(self) -> usize {
        match self {
            Access::Read(addr) => addr,
            Access::Write(addr, _) => addr,
        }
    }

    /// State after the access.
    pub open spec fn effect(self, table: Seq<RegisterEntry>, s: RegmapView) -> RegmapView {
        match self {
            Access::Read(addr) => read_state(s, register_at(table, addr)),
            Access::Write(addr, value) => write_state(s, register_at(table, addr), value),
        }
    }
}

/// State after some accesses.
pub open spec fn after(table: Seq<RegisterEntry>, s: RegmapView, accesses: Seq<Access>) -> RegmapView
    decreases accesses.len(),
{
    if accesses.len() == 0 {
        s
    } else {
        accesses.last().effect(table, after(table, s, accesses.drop_last()))
    }
}

/// All accesses reach a register.
pub open spec fn all_mapped(table: Seq<RegisterEntry>, accesses: Seq<Access>) -> bool {
    forall|i: int| 0 <= i < accesses.len() ==> mapped(table, (#[trigger] accesses[i]).addr())
}

proof fn lemma_after_wf(table: Seq<RegisterEntry>, s: RegmapView, accesses: Seq<Access>)
    requires
        s.wf(),
    ensures
        after(table, s, accesses).wf(),
    decreases accesses.len(),
{
    if accesses.len() > 0 {
        lemma_after_wf(table, s, accesses.drop_last());
    }
}

/// A write at an address does not change what is read at another one, apart from the reset
/// of a key, which makes the key unavailable.
pub proof fn write_leaves_other_addresses(
    p: HpuParameters,
    table: Seq<RegisterEntry>,
    s: RegmapView,
    addr: usize,
    value: u32,
    other: usize,
)
    requires
        s.wf(),
        distinct_names(table),
        mapped(table, addr),
        mapped(table, other),
        addr != other,
        !(register_at(table, addr) is BskReset && register_at(table, other) is BskAvail),
        !(register_at(table, addr) is KskReset && register_at(table, other) is KskAvail),
    ensures
        read_value(
            p,
            Access::Write(addr, value).effect(table, s),
            register_at(table, other),
        ) == read_value(p, s, register_at(table, other)),
{
    lemma_position(table, addr);
    lemma_position(table, other);
    address_is_unique(table, addr, other);
    if register_at(table, addr) != register_at(table, other) {
        write_is_local(p, s, register_at(table, addr), value, register_at(table, other));
    }
}

/// A read at an address does not change what is read at another one.
pub proof fn read_leaves_other_addresses(
    p: HpuParameters,
    table: Seq<RegisterEntry>,
    s: RegmapView,
    addr: usize,
    other: usize,
)
    requires
        s.wf(),
        distinct_names(table),
        mapped(table, addr),
        mapped(table, other),
        addr != other,
    ensures
        read_value(p, Access::Read(addr).effect(table, s), register_at(table, other)) == read_value(
            p,
            s,
            register_at(table, other),
        ),
{
    lemma_position(table, other);
    address_is_unique(table, addr, other);
}

/// The word written at the address of a register that keeps it is read at this address until
/// the next write there, whatever is read and whatever is written elsewhere meanwhile.
pub proof fn word_stays(
    p: HpuParameters,
    table: Seq<RegisterEntry>,
    s: RegmapView,
    addr: usize,
    value: u32,
    accesses: Seq<Access>,
)
    requires
        s.wf(),
        distinct_names(table),
        mapped(table, addr),
        holds_word(register_at(table, addr)),
        all_mapped(table, accesses),
        forall|i: int|
            0 <= i < accesses.len() ==> ((#[trigger] accesses[i]) is Read || accesses[i].addr()
                != addr),
    ensures
        read_value(
            p,
            after(table, Access::Write(addr, value).effect(table, s), accesses),
            register_at(table, addr),
        ) == value,
    decreases accesses.len(),
{
    let reg = register_at(table, addr);
    let start = Access::Write(addr, value).effect(table, s);
    lemma_position(table, addr);
    write_then_read(p, s, reg, value);
    if accesses.len() > 0 {
        let before = accesses.drop_last();
        assert forall|i: int| 0 <= i < before.len() implies ((#[trigger] before[i]) is Read
            || before[i].addr() != addr) && mapped(table, before[i].addr()) by {
            assert(before[i] == accesses[i]);
        }
        word_stays(p, table, s, addr, value, before);
        lemma_after_wf(table, start, before);
        let mid = after(table, start, before);
        let last = accesses[accesses.len() - 1];
        match last {
            Access::Read(_) => {},
            Access::Write(other, word) => {
                write_leaves_other_addresses(p, table, mid, other, word, addr);
            },
        }
    }
}

/// The register reports the reset of a key.
pub open spec fn is_reset(reg: Register) -> bool {
    reg is BskReset || reg is KskReset
}

/// An access resets the key whose reset is at an address.
pub open spec fn resets(access: Access, addr: usize) -> bool {
    access matches Access::Write(at, value) && at == addr && value & 1 == 1
}

/// A write that resets a key is reported by the first read at its address, whatever is
/// accessed meanwhile.
pub proof fn reset_stays_pending(
    p: HpuParameters,
    table: Seq<RegisterEntry>,
    s: RegmapView,
    addr: usize,
    value: u32,
    accesses: Seq<Access>,
)
    requires
        s.wf(),
        distinct_names(table),
        mapped(table, addr),
        is_reset(register_at(table, addr)),
        value & 1 == 1,
        all_mapped(table, accesses),
        forall|i: int|
            0 <= i < accesses.len() ==> ((#[trigger] accesses[i]) is Write || accesses[i].addr()
                != addr),
    ensures
        read_value(
            p,
            after(table, Access::Write(addr, value).effect(table, s), accesses),
            register_at(table, addr),
        ) == 0x8000_0000,
    decreases accesses.len(),
{
    let start = Access::Write(addr, value).effect(table, s);
    if accesses.len() > 0 {
        let before = accesses.drop_last();
        assert forall|i: int| 0 <= i < before.len() implies ((#[trigger] before[i]) is Write
            || before[i].addr() != addr) && mapped(table, before[i].addr()) by {
            assert(before[i] == accesses[i]);
        }
        reset_stays_pending(p, table, s, addr, value, before);
        lemma_after_wf(table, start, before);
        let mid = after(table, start, before);
        let last = accesses[accesses.len() - 1];
        match last {
            Access::Read(other) => {
                read_leaves_other_addresses(p, table, mid, other, addr);
            },
            Access::Write(other, word) => {
                if other != addr {
                    write_leaves_other_addresses(p, table, mid, other, word, addr);
                }
            },
        }
    }
}

/// Once a reset has been read at its address, nothing is reported there until the next write
/// there that resets the key, whatever is accessed meanwhile.
pub proof fn reset_is_read_once(
    p: HpuParameters,
    table: Seq<RegisterEntry>,
    s: RegmapView,
    addr: usize,
    accesses: Seq<Access>,
)
    requires
        s.wf(),
        distinct_names(table),
        mapped(table, addr),
        is_reset(register_at(table, addr)),
        all_mapped(table, accesses),
        forall|i: int| 0 <= i < accesses.len() ==> !resets(#[trigger] accesses[i], addr),
    ensures
        read_value(
            p,
            after(table, Access::Read(addr).effect(table, s), accesses),
            register_at(table, addr),
        ) == 0,
    decreases accesses.len(),
{
    let start = Access::Read(addr).effect(table, s);
    if accesses.len() > 0 {
        let before = accesses.drop_last();
        assert forall|i: int| 0 <= i < before.len() implies !resets(#[trigger] before[i], addr)
            && mapped(table, before[i].addr()) by {
            assert(before[i] == accesses[i]);
        }
        reset_is_read_once(p, table, s, addr, before);
        lemma_after_wf(table, start, before);
        let mid = after(table, start, before);
        let last = accesses[accesses.len() - 1];
        assert(!resets(last, addr));
        match last {
            Access::Read(other) => {
                if other != addr {
                    read_leaves_other_addresses(p, table, mid, other, addr);
                }
            },
            Access::Write(other, word) => {
                if other != addr {
                    write_leaves_other_addresses(p, table, mid, other, word, addr);
                }
            },
        }
    }
}

} // verus!
