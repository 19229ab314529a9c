//! Words of instructions: decoding gives back what was encoded.
use vstd::prelude::*;

use super::hpu_core::model::pbs_args;
use super::insn::{decode, field, imm_field, mem_field, CtMem, CtReg, DOp, LutRef, PtArg};

verus! {

/// Word of a register arithmetic instruction.
pub open spec fn arith_word(op: u32, factor: u32, src2: u32, src1: u32, dst: u32) -> u32 {
    (op << 26) | (factor << 21) | (src2 << 14) | (src1 << 7) | dst
}

/// Word of an arithmetic instruction with an immediate.
pub open spec fn imm_word(op: u32, dst: CtReg, src: CtReg, cst: PtArg) -> u32 {
    let (cst, is_var) = match cst {
        PtArg::Const(val) => (val as u32, 0u32),
        PtArg::Var { tid, bid } => (((tid as u32) << 8) | bid as u32, 1u32),
    };
    (op << 26) | (cst << 15) | (is_var << 14) | ((src.addr as u32) << 7) | dst.addr as u32
}

/// Addressing mode and slot of a memory operand.
pub open spec fn mem_bits(mem: CtMem) -> (u32, u32) {
    match mem {
        CtMem::Io(cid) => (0, cid.0 as u32),
        CtMem::Heap { bid } => (1, bid as u32),
        CtMem::Src { tid, bid } => (2, ((tid as u32) << 8) | bid as u32),
        CtMem::Dst { tid, bid } => (3, ((tid as u32) << 8) | bid as u32),
    }
}

/// Word of a load or a store.
pub open spec fn mem_word(op: u32, reg: CtReg, mem: CtMem) -> u32 {
    (op << 26) | (mem_bits(mem).1 << 10) | (mem_bits(mem).0 << 8) | reg.addr as u32
}

/// Word of a bootstrapping.
pub open spec fn pbs_word(op: u32, dst: CtReg, src: CtReg, lut: LutRef) -> u32 {
    (op << 26) | ((lut.id as u32) << 14) | ((src.addr as u32) << 7) | dst.addr as u32
}

/// Word of an instruction of the micro-core.
pub open spec fn sync_word(op: u32, hid: u8, flag: u8, slot: CtMem) -> u32 {
    (op << 26) | ((hid as u32) << 23) | ((flag as u32) << 17) | (mem_bits(slot).0 << 16)
        | mem_bits(slot).1
}

/// Word that encodes an instruction of the firmware, with null unused bits.
pub open spec fn encode(dop: DOp) -> u32 {
    match dop {
        DOp::_START => 0,
        DOp::_END => 0,
        DOp::ADD { dst, src1, src2 } => arith_word(
            0b000001,
            0,
            src2.addr as u32,
            src1.addr as u32,
            dst.addr as u32,
        ),
        DOp::SUB { dst, src1, src2 } => arith_word(
            0b000010,
            0,
            src2.addr as u32,
            src1.addr as u32,
            dst.addr as u32,
        ),
        DOp::MAC { dst, src1, src2, cst } => arith_word(
            0b000101,
            cst->Const_0 as u32,
            src2.addr as u32,
            src1.addr as u32,
            dst.addr as u32,
        ),
        DOp::ADDS { dst, src, cst } => imm_word(0b001001, dst, src, cst),
        DOp::SUBS { dst, src, cst } => imm_word(0b001010, dst, src, cst),
        DOp::SSUB { dst, src, cst } => imm_word(0b001011, dst, src, cst),
        DOp::MULS { dst, src, cst } => imm_word(0b001100, dst, src, cst),
        DOp::LD { dst, src } => mem_word(0b100000, dst, src),
        DOp::ST { dst, src } => mem_word(0b100001, src, dst),
        DOp::PBS { dst, src, lut } => pbs_word(0b110000, dst, src, lut),
        DOp::PBS_ML2 { dst, src, lut } => pbs_word(0b110001, dst, src, lut),
        DOp::PBS_ML4 { dst, src, lut } => pbs_word(0b110010, dst, src, lut),
        DOp::PBS_ML8 { dst, src, lut } => pbs_word(0b110011, dst, src, lut),
        DOp::PBS_F { dst, src, lut } => pbs_word(0b111000, dst, src, lut),
        DOp::PBS_ML2_F { dst, src, lut } => pbs_word(0b111001, dst, src, lut),
        DOp::PBS_ML4_F { dst, src, lut } => pbs_word(0b111010, dst, src, lut),
        DOp::PBS_ML8_F { dst, src, lut } => pbs_word(0b111011, dst, src, lut),
        DOp::SYNC { is_inner, flag, hid, iid } => (0b101111u32 << 26) | ((if is_inner {
            1u32
        } else {
            0u32
        }) << 24) | ((iid.0 as u32) << 16) | ((hid.0 as u32) << 8) | flag.0 as u32,
        DOp::NOTIFY { hid, flag, slot } => sync_word(0b010000, hid.0, flag.0, slot),
        DOp::WAIT { hid, flag, slot } => sync_word(0b010001, hid.0, flag.0, slot),
        DOp::LD_B2B { hid, flag, slot } => sync_word(0b011000, hid.0, flag.0, slot),
    }
}

/// Bits of a word that the instruction depends on.
pub open spec fn significant(dop: DOp) -> u32 {
    match dop {
        DOp::ADD { .. } => 0xfc1f_ffff,
        DOp::SUB { .. } => 0xfc1f_ffff,
        DOp::LD { .. } => 0xffff_ff7f,
        DOp::ST { .. } => 0xffff_ff7f,
        DOp::SYNC { .. } => 0xfdff_073f,
        _ => 0xffff_ffff,
    }
}

/// A register of an instruction word, whose mask leaves out the address bits that number
/// `outputs` registers.
pub open spec fn reg_encodable(reg: CtReg, outputs: int) -> bool {
    reg.addr < 0x80 && reg.mask + outputs == 0x100
}

/// An instruction that the firmware can hold: its operands have the widths of their fields.
pub open spec fn encodable_dop(dop: DOp) -> bool {
    let one = |r: CtReg| reg_encodable(r, 1);
    let imm = |cst: PtArg|
        match cst {
            PtArg::Const(val) => val < 0x800,
            PtArg::Var { tid, .. } => tid < 8,
        };
    let pbs = |n: int, dst: CtReg, src: CtReg, lut: LutRef|
        reg_encodable(dst, n) && reg_encodable(src, 1) && lut.id < 0x1000;
    match dop {
        DOp::_START => false,
        DOp::_END => false,
        DOp::ADD { dst, src1, src2 } => one(dst) && one(src1) && one(src2),
        DOp::SUB { dst, src1, src2 } => one(dst) && one(src1) && one(src2),
        DOp::MAC { dst, src1, src2, cst } => one(dst) && one(src1) && one(src2) && (cst matches
            PtArg::Const(val) && val < 0x20),
        DOp::ADDS { dst, src, cst } => one(dst) && one(src) && imm(cst),
        DOp::SUBS { dst, src, cst } => one(dst) && one(src) && imm(cst),
        DOp::SSUB { dst, src, cst } => one(dst) && one(src) && imm(cst),
        DOp::MULS { dst, src, cst } => one(dst) && one(src) && imm(cst),
        DOp::LD { dst, .. } => one(dst),
        DOp::ST { src, .. } => one(src),
        DOp::PBS { dst, src, lut } => pbs(1, dst, src, lut),
        DOp::PBS_F { dst, src, lut } => pbs(1, dst, src, lut),
        DOp::PBS_ML2 { dst, src, lut } => pbs(2, dst, src, lut),
        DOp::PBS_ML2_F { dst, src, lut } => pbs(2, dst, src, lut),
        DOp::PBS_ML4 { dst, src, lut } => pbs(4, dst, src, lut),
        DOp::PBS_ML4_F { dst, src, lut } => pbs(4, dst, src, lut),
        DOp::PBS_ML8 { dst, src, lut } => pbs(8, dst, src, lut),
        DOp::PBS_ML8_F { dst, src, lut } => pbs(8, dst, src, lut),
        DOp::SYNC { flag, hid, .. } => flag.0 < 64 && hid.0 < 8,
        DOp::NOTIFY { hid, flag, slot } => hid.0 < 8 && flag.0 < 64 && (slot is Io || slot is Heap),
        DOp::WAIT { hid, flag, slot } => hid.0 < 8 && flag.0 < 64 && (slot is Io || slot is Heap),
        DOp::LD_B2B { hid, flag, slot } => hid.0 < 8 && flag.0 < 64 && (slot is Io
            || slot is Heap),
    }
}

proof fn lemma_fields(w: u32)
    by (bit_vector)
    ensures
        (w >> 26) < 64,
        (w & 0x7f) < 0x80 && ((w >> 7) & 0x7f) < 0x80 && ((w >> 14) & 0x7f) < 0x80,
        (w >> 0) == w,
        ((w >> 21) & 0x1f) < 0x20 && ((w >> 15) & 0x7ff) < 0x800 && ((w >> 14) & 1) < 2,
        ((w >> 14) & 0xfff) < 0x1000 && ((w >> 8) & 3) < 4 && ((w >> 10) & 0xffff) < 0x1_0000,
        ((w >> 24) & 1) < 2 && ((w >> 16) & 0xff) < 0x100 && ((w >> 8) & 7) < 8 && (w & 0x3f) < 64,
        ((w >> 23) & 7) < 8 && ((w >> 17) & 0x3f) < 64 && ((w >> 16) & 1) < 2,
        (w & 0xffff) < 0x1_0000,
        w & 0xffff_ffff == w,
        w & 0xfc1f_ffff == ((w >> 26) << 26) | (0u32 << 21) | (((w >> 14) & 0x7f) << 14) | (((w
            >> 7) & 0x7f) << 7) | (w & 0x7f),
        w == ((w >> 26) << 26) | (((w >> 21) & 0x1f) << 21) | (((w >> 14) & 0x7f) << 14) | (((w
            >> 7) & 0x7f) << 7) | (w & 0x7f),
        w == ((w >> 26) << 26) | (((w >> 15) & 0x7ff) << 15) | (((w >> 14) & 1) << 14) | (((w >> 7)
            & 0x7f) << 7) | (w & 0x7f),
        w & 0xffff_ff7f == ((w >> 26) << 26) | (((w >> 10) & 0xffff) << 10) | (((w >> 8) & 3) << 8)
            | (w & 0x7f),
        w == ((w >> 26) << 26) | (((w >> 14) & 0xfff) << 14) | (((w >> 7) & 0x7f) << 7) | (w
            & 0x7f),
        w & 0xfdff_073f == ((w >> 26) << 26) | (((w >> 24) & 1) << 24) | (((w >> 16) & 0xff) << 16)
            | (((w >> 8) & 7) << 8) | (w & 0x3f),
        w == ((w >> 26) << 26) | (((w >> 23) & 7) << 23) | (((w >> 17) & 0x3f) << 17) | (((w >> 16)
            & 1) << 16) | (w & 0xffff),
{
}

proof fn lemma_halves(x: u32)
    by (bit_vector)
    ensures
        x < 0x1_0000 ==> (x >> 8) < 0x100,
        x < 0x800 ==> (x >> 8) < 8,
        (x & 0xff) < 0x100,
        ((x >> 8) << 8) | (x & 0xff) == x,
{
}

proof fn lemma_join_halves(tid: u32, bid: u32)
    by (bit_vector)
    requires
        tid < 0x100,
        bid < 0x100,
    ensures
        ((tid << 8) | bid) >> 8 == tid,
        ((tid << 8) | bid) & 0xff == bid,
        ((tid << 8) | bid) < 0x1_0000,
        tid < 8 ==> ((tid << 8) | bid) < 0x800,
{
}

/// Decoding forgets nothing of a word: the instruction encodes to the word, apart from the
/// bits that the instruction does not depend on.
pub proof fn decoded_is_encoded(word: u32)
    ensures
        decode(word) matches Some(dop) ==> {
            &&& encodable_dop(dop)
            &&& encode(dop) == word & significant(dop)
        },
{
    lemma_fields(word);
    lemma_halves(field(word, 15, 0x7ff));
    lemma_halves(field(word, 10, 0xffff));
}

proof fn lemma_arith_word(op: u32, f: u32, c: u32, b: u32, a: u32)
    by (bit_vector)
    requires
        op < 64,
        f < 0x20,
        c < 0x80,
        b < 0x80,
        a < 0x80,
    ensures
        ((op << 26) | (f << 21) | (c << 14) | (b << 7) | a) >> 26 == op,
        (((op << 26) | (f << 21) | (c << 14) | (b << 7) | a) >> 21) & 0x1f == f,
        (((op << 26) | (f << 21) | (c << 14) | (b << 7) | a) >> 14) & 0x7f == c,
        (((op << 26) | (f << 21) | (c << 14) | (b << 7) | a) >> 7) & 0x7f == b,
        (((op << 26) | (f << 21) | (c << 14) | (b << 7) | a) >> 0) & 0x7f == a,
{
}

proof fn lemma_imm_word(op: u32, cst: u32, var: u32, b: u32, a: u32)
    by (bit_vector)
    requires
        op < 64,
        cst < 0x800,
        var < 2,
        b < 0x80,
        a < 0x80,
    ensures
        ((op << 26) | (cst << 15) | (var << 14) | (b << 7) | a) >> 26 == op,
        (((op << 26) | (cst << 15) | (var << 14) | (b << 7) | a) >> 15) & 0x7ff == cst,
        (((op << 26) | (cst << 15) | (var << 14) | (b << 7) | a) >> 14) & 1 == var,
        (((op << 26) | (cst << 15) | (var << 14) | (b << 7) | a) >> 7) & 0x7f == b,
        (((op << 26) | (cst << 15) | (var << 14) | (b << 7) | a) >> 0) & 0x7f == a,
{
}

proof fn lemma_mem_word(op: u32, slot: u32, mode: u32, a: u32)
    by (bit_vector)
    requires
        op < 64,
        slot < 0x1_0000,
        mode < 4,
        a < 0x80,
    ensures
        ((op << 26) | (slot << 10) | (mode << 8) | a) >> 26 == op,
        (((op << 26) | (slot << 10) | (mode << 8) | a) >> 10) & 0xffff == slot,
        (((op << 26) | (slot << 10) | (mode << 8) | a) >> 8) & 3 == mode,
        (((op << 26) | (slot << 10) | (mode << 8) | a) >> 0) & 0x7f == a,
{
}

proof fn lemma_pbs_word(op: u32, lut: u32, b: u32, a: u32)
    by (bit_vector)
    requires
        op < 64,
        lut < 0x1000,
        b < 0x80,
        a < 0x80,
    ensures
        ((op << 26) | (lut << 14) | (b << 7) | a) >> 26 == op,
        (((op << 26) | (lut << 14) | (b << 7) | a) >> 14) & 0xfff == lut,
        (((op << 26) | (lut << 14) | (b << 7) | a) >> 7) & 0x7f == b,
        (((op << 26) | (lut << 14) | (b << 7) | a) >> 0) & 0x7f == a,
{
}

proof fn lemma_sync_word(op: u32, hid: u32, flag: u32, mode: u32, slot: u32)
    by (bit_vector)
    requires
        op < 64,
        hid < 8,
        flag < 64,
        mode < 2,
        slot < 0x1_0000,
    ensures
        ((op << 26) | (hid << 23) | (flag << 17) | (mode << 16) | slot) >> 26 == op,
        (((op << 26) | (hid << 23) | (flag << 17) | (mode << 16) | slot) >> 23) & 7 == hid,
        (((op << 26) | (hid << 23) | (flag << 17) | (mode << 16) | slot) >> 17) & 0x3f == flag,
        (((op << 26) | (hid << 23) | (flag << 17) | (mode << 16) | slot) >> 16) & 1 == mode,
        (((op << 26) | (hid << 23) | (flag << 17) | (mode << 16) | slot) >> 0) & 0xffff == slot,
{
}

proof fn lemma_barrier_word(inner: u32, iid: u32, hid: u32, flag: u32)
    by (bit_vector)
    requires
        inner < 2,
        iid < 0x100,
        hid < 8,
        flag < 64,
    ensures
        ((0b101111u32 << 26) | (inner << 24) | (iid << 16) | (hid << 8) | flag) >> 26 == 0b101111,
        (((0b101111u32 << 26) | (inner << 24) | (iid << 16) | (hid << 8) | flag) >> 24) & 1
            == inner,
        (((0b101111u32 << 26) | (inner << 24) | (iid << 16) | (hid << 8) | flag) >> 16) & 0xff
            == iid,
        (((0b101111u32 << 26) | (inner << 24) | (iid << 16) | (hid << 8) | flag) >> 8) & 7 == hid,
        (((0b101111u32 << 26) | (inner << 24) | (iid << 16) | (hid << 8) | flag) >> 0) & 0x3f
            == flag,
{
}

proof fn lemma_imm(op: u32, dst: CtReg, src: CtReg, cst: PtArg)
    requires
        op < 64,
        dst.addr < 0x80,
        src.addr < 0x80,
        match cst {
            PtArg::Const(val) => val < 0x800,
            PtArg::Var { tid, .. } => tid < 8,
        },
    ensures
        ({
            let w = imm_word(op, dst, src, cst);
            &&& w >> 26 == op
            &&& field(w, 0, 0x7f) == dst.addr
            &&& field(w, 7, 0x7f) == src.addr
            &&& imm_field(w) == cst
        }),
{
    let (d, s) = (dst.addr as u32, src.addr as u32);
    match cst {
        PtArg::Const(val) => {
            lemma_imm_word(op, val as u32, 0, s, d);
        },
        PtArg::Var { tid, bid } => {
            lemma_join_halves(tid as u32, bid as u32);
            lemma_imm_word(op, ((tid as u32) << 8) | bid as u32, 1, s, d);
        },
    }
}

proof fn lemma_mem_bits(mem: CtMem)
    ensures
        mem_bits(mem).0 < 4,
        mem_bits(mem).1 < 0x1_0000,
        mem_field(mem_bits(mem).0, mem_bits(mem).1) == mem,
{
    match mem {
        CtMem::Src { tid, bid } => {
            lemma_join_halves(tid as u32, bid as u32);
        },
        CtMem::Dst { tid, bid } => {
            lemma_join_halves(tid as u32, bid as u32);
        },
        _ => {},
    }
}

proof fn lemma_pbs(op: u32, dst: CtReg, src: CtReg, lut: LutRef)
    requires
        op < 64,
        dst.addr < 0x80,
        src.addr < 0x80,
        lut.id < 0x1000,
    ensures
        ({
            let w = pbs_word(op, dst, src, lut);
            &&& w >> 26 == op
            &&& field(w, 0, 0x7f) == dst.addr
            &&& field(w, 7, 0x7f) == src.addr
            &&& field(w, 14, 0xfff) == lut.id
        }),
{
    lemma_pbs_word(op, lut.id as u32, src.addr as u32, dst.addr as u32);
}

/// The word that encodes an instruction decodes to this instruction.
pub proof fn encoded_is_decoded(dop: DOp)
    requires
        encodable_dop(dop),
    ensures
        decode(encode(dop)) == Some(dop),
{
    match dop {
        DOp::ADD { dst, src1, src2 } => {
            lemma_arith_word(1, 0, src2.addr as u32, src1.addr as u32, dst.addr as u32);
        },
        DOp::SUB { dst, src1, src2 } => {
            lemma_arith_word(2, 0, src2.addr as u32, src1.addr as u32, dst.addr as u32);
        },
        DOp::MAC { dst, src1, src2, cst } => {
            lemma_arith_word(
                5,
                cst->Const_0 as u32,
                src2.addr as u32,
                src1.addr as u32,
                dst.addr as u32,
            );
        },
        DOp::ADDS { dst, src, cst } => lemma_imm(9, dst, src, cst),
        DOp::SUBS { dst, src, cst } => lemma_imm(10, dst, src, cst),
        DOp::SSUB { dst, src, cst } => lemma_imm(11, dst, src, cst),
        DOp::MULS { dst, src, cst } => lemma_imm(12, dst, src, cst),
        DOp::LD { dst, src } => {
            lemma_mem_bits(src);
            lemma_mem_word(0x20, mem_bits(src).1, mem_bits(src).0, dst.addr as u32);
        },
        DOp::ST { dst, src } => {
            lemma_mem_bits(dst);
            lemma_mem_word(0x21, mem_bits(dst).1, mem_bits(dst).0, src.addr as u32);
        },
        DOp::PBS { dst, src, lut } => lemma_pbs(0x30, dst, src, lut),
        DOp::PBS_ML2 { dst, src, lut } => lemma_pbs(0x31, dst, src, lut),
        DOp::PBS_ML4 { dst, src, lut } => lemma_pbs(0x32, dst, src, lut),
        DOp::PBS_ML8 { dst, src, lut } => lemma_pbs(0x33, dst, src, lut),
        DOp::PBS_F { dst, src, lut } => lemma_pbs(0x38, dst, src, lut),
        DOp::PBS_ML2_F { dst, src, lut } => lemma_pbs(0x39, dst, src, lut),
        DOp::PBS_ML4_F { dst, src, lut } => lemma_pbs(0x3a, dst, src, lut),
        DOp::PBS_ML8_F { dst, src, lut } => lemma_pbs(0x3b, dst, src, lut),
        DOp::SYNC { is_inner, flag, hid, iid } => {
            let inner = if is_inner {
                1u32
            } else {
                0u32
            };
            lemma_barrier_word(inner, iid.0 as u32, hid.0 as u32, flag.0 as u32);
        },
        DOp::NOTIFY { hid, flag, slot } => {
            lemma_mem_bits(slot);
            let (mode, bits) = mem_bits(slot);
            lemma_sync_word(0x10, hid.0 as u32, flag.0 as u32, mode, bits);
        },
        DOp::WAIT { hid, flag, slot } => {
            lemma_mem_bits(slot);
            let (mode, bits) = mem_bits(slot);
            lemma_sync_word(0x11, hid.0 as u32, flag.0 as u32, mode, bits);
        },
        DOp::LD_B2B { hid, flag, slot } => {
            lemma_mem_bits(slot);
            let (mode, bits) = mem_bits(slot);
            lemma_sync_word(0x18, hid.0 as u32, flag.0 as u32, mode, bits);
        },
        _ => {},
    }
}

/// A word is refused only where no instruction has its operation code.
pub proof fn refused_codes_are_unused(word: u32, dop: DOp)
    requires
        decode(word) is None,
        encodable_dop(dop),
    ensures
        encode(dop) >> 26 != word >> 26,
{
    encoded_is_decoded(dop);
}

/// Two words with different operation codes decode to different instructions, whatever their
/// operands are, and an instruction has the operation code of its word.
pub proof fn codes_differ(a: u32, b: u32)
    requires
        decode(a) is Some,
        decode(b) is Some,
        a >> 26 != b >> 26,
    ensures
        decode(a) != decode(b),
        encode(decode(a)->0) >> 26 == a >> 26,
        encode(decode(a)->0) >> 26 != encode(decode(b)->0) >> 26,
{
    encoded_code(a);
    encoded_code(b);
}

proof fn encoded_code(word: u32)
    requires
        decode(word) is Some,
    ensures
        encode(decode(word)->0) >> 26 == word >> 26,
{
    decoded_is_encoded(word);
    assert((word & 0xfc1f_ffff) >> 26 == word >> 26 && (word & 0xffff_ff7f) >> 26 == word >> 26
        && (word & 0xfdff_073f) >> 26 == word >> 26 && (word & 0xffff_ffff) >> 26 == word >> 26)
        by (bit_vector);
}

/// Bootstrappings: the two low bits of the operation code are the logarithm of the number of
/// outputs. The core writes that many registers, from the destination on, and the mask of the
/// destination leaves out as many addresses.
pub proof fn outputs_of_a_bootstrapping(word: u32)
    ensures
        ({
            let op = word >> 26;
            let args = match decode(word) {
                Some(dop) => pbs_args(dop),
                None => None,
            };
            &&& args is Some <==> 0x30 <= op <= 0x33 || 0x38 <= op <= 0x3b
            &&& args matches Some((outputs, dst, src, lut)) ==> {
                &&& outputs == (if op % 4 == 0 {
                    1int
                } else if op % 4 == 1 {
                    2
                } else if op % 4 == 2 {
                    4
                } else {
                    8
                })
                &&& dst.mask + outputs == 0x100
                &&& src.mask == 0xff
                &&& dst.addr == word % 0x80
                &&& src.addr == word / 0x80 % 0x80
                &&& lut.id == word / 0x4000 % 0x1000
            }
        }),
{
    assert(word & 0x7f == word % 0x80 && (word >> 7) & 0x7f == word / 0x80 % 0x80 && (word >> 14)
        & 0xfff == word / 0x4000 % 0x1000 && word >> 0 == word) by (bit_vector);
}

} // verus!
