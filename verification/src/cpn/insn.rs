//! Instructions exchanged inside a node and between nodes.
//!
//! An `IOp` is an integer operation queued by the host. The micro-core turns
//! it into a stream of `DOp`, instructions over ciphertext registers and
//! ciphertext memory slots.
use tfhe_hpu_backend::prelude::hpu_asm;
use vstd::prelude::*;

verus! {

/// Ciphertext slot of the on-board memory.
#[derive(Clone, Copy, Debug, PartialEq, Eq, Structural)]
pub struct CtId(pub u16);

/// Physical position of a node in the cluster.
#[derive(Clone, Copy, Debug, PartialEq, Eq, Structural)]
pub struct NodeId(pub u8);

/// Identifier of an integer operation.
#[derive(Clone, Copy, Debug, PartialEq, Eq, Structural)]
pub struct IOpId(pub u8);

/// Identifier of an explicit synchronisation inside an integer operation.
#[derive(Clone, Copy, Debug, PartialEq, Eq, Structural)]
pub struct UserFlag(pub u8);

/// Identifier reserved for values generated by the host.
pub const SW_IOP_ID: u8 = 0;

/// All bits of a register address are significant.
pub const MASK_NONE: u8 = 0xff;

/// Two consecutive registers, written by a two-output bootstrapping.
pub const MASK_PBS2: u8 = 0xfe;

/// Four consecutive registers, written by a four-output bootstrapping.
pub const MASK_PBS4: u8 = 0xfc;

/// Eight consecutive registers, written by an eight-output bootstrapping.
pub const MASK_PBS8: u8 = 0xf8;

/// Ciphertext register, with the mask of its significant address bits.
#[derive(Clone, Copy, Debug, PartialEq, Eq, Structural)]
pub struct CtReg {
    pub mask: u8,
    pub addr: u8,
}

impl CtReg {
    /// A single register.
    pub fn new(addr: u8) -> (r: CtReg)
        ensures
            r == (CtReg { mask: MASK_NONE, addr }),
    {
        CtReg { mask: MASK_NONE, addr }
    }
}

/// Ciphertext memory operand.
///
/// `Io` is a resolved slot. The other variants are templates: a slot of the
/// heap, or a block of a source or destination operand of the current `IOp`.
#[allow(inconsistent_fields)]
#[derive(Clone, Copy, Debug, PartialEq, Eq, Structural)]
pub enum CtMem {
    Io(CtId),
    Heap { bid: u16 },
    Src { tid: u8, bid: u8 },
    Dst { tid: u8, bid: u8 },
}

/// Immediate operand: a constant, or a block of an immediate of the `IOp`.
#[derive(Clone, Copy, Debug, PartialEq, Eq, Structural)]
pub enum PtArg {
    Const(u16),
    Var { tid: u8, bid: u8 },
}

/// Lookup table used by a bootstrapping.
#[derive(Clone, Copy, Debug, PartialEq, Eq, Structural)]
pub struct LutRef {
    pub id: u16,
}

/// Instruction over ciphertexts.
#[allow(inconsistent_fields)]
#[allow(non_camel_case_types)]
#[derive(Clone, Copy, Debug, PartialEq, Eq, Structural)]
pub enum DOp {
    /// Start of a stream.
    _START,
    /// End of a stream.
    _END,
    /// `dst = src1 + src2`
    ADD { dst: CtReg, src1: CtReg, src2: CtReg },
    /// `dst = src1 - src2`
    SUB { dst: CtReg, src1: CtReg, src2: CtReg },
    /// `dst = src1 * cst + src2`
    MAC { dst: CtReg, src1: CtReg, src2: CtReg, cst: PtArg },
    /// `dst = src + cst`
    ADDS { dst: CtReg, src: CtReg, cst: PtArg },
    /// `dst = src - cst`
    SUBS { dst: CtReg, src: CtReg, cst: PtArg },
    /// `dst = cst - src`
    SSUB { dst: CtReg, src: CtReg, cst: PtArg },
    /// `dst = src * cst`
    MULS { dst: CtReg, src: CtReg, cst: PtArg },
    /// Load a memory slot in a register.
    LD { dst: CtReg, src: CtMem },
    /// Store a register in a memory slot.
    ST { dst: CtMem, src: CtReg },
    /// Bootstrapping with one output.
    PBS { dst: CtReg, src: CtReg, lut: LutRef },
    /// Bootstrapping with two outputs.
    PBS_ML2 { dst: CtReg, src: CtReg, lut: LutRef },
    /// Bootstrapping with four outputs.
    PBS_ML4 { dst: CtReg, src: CtReg, lut: LutRef },
    /// Bootstrapping with eight outputs.
    PBS_ML8 { dst: CtReg, src: CtReg, lut: LutRef },
    /// `PBS` that ends a batch.
    PBS_F { dst: CtReg, src: CtReg, lut: LutRef },
    /// `PBS_ML2` that ends a batch.
    PBS_ML2_F { dst: CtReg, src: CtReg, lut: LutRef },
    /// `PBS_ML4` that ends a batch.
    PBS_ML4_F { dst: CtReg, src: CtReg, lut: LutRef },
    /// `PBS_ML8` that ends a batch.
    PBS_ML8_F { dst: CtReg, src: CtReg, lut: LutRef },
    /// Barrier. An inner barrier sequences a notify, the other kind ends an `IOp`.
    SYNC { is_inner: bool, flag: UserFlag, hid: NodeId, iid: IOpId },
    /// Wait for an explicit synchronisation.
    WAIT { hid: NodeId, flag: UserFlag, slot: CtMem },
    /// Signal an explicit synchronisation to another node.
    NOTIFY { hid: NodeId, flag: UserFlag, slot: CtMem },
    /// Load a slot of the node that signals the synchronisation.
    LD_B2B { hid: NodeId, flag: UserFlag, slot: CtMem },
}

/// Block of a destination operand, and the slot where its owner wants it.
#[derive(Clone, Copy, Debug, PartialEq, Eq, Structural)]
pub struct UcoreFlag {
    pub tid: u8,
    pub bid: u8,
    pub trgt_cid: CtId,
}

/// Event signalled by a message between micro-cores.
#[derive(Clone, Copy, Debug, PartialEq, Eq, Structural)]
pub enum UcorePayloadMode {
    /// A block of a destination operand is ready.
    Ucore(UcoreFlag),
    /// An explicit synchronisation is reached.
    User(UserFlag),
    /// A node has finished an operation that involves this number of nodes.
    IOpDone(u8),
}

/// Message between micro-cores.
#[derive(Clone, Copy, Debug, PartialEq, Eq)]
pub struct UcorePayload {
    pub mode: UcorePayloadMode,
    /// Slot of the sender that holds the data.
    pub slot: Option<CtId>,
    pub from_hid: NodeId,
    pub iid: IOpId,
}

/// Bit field of an instruction word.
pub open spec fn field(word: u32, lo: u32, mask: u32) -> u32 {
    (word >> lo) & mask
}

/// Register held by a bit field of an instruction word.
pub open spec fn reg_field(word: u32, lo: u32, mask: u8) -> CtReg {
    CtReg { mask, addr: field(word, lo, 0x7f) as u8 }
}

/// Memory operand of an instruction word: the addressing mode and the slot.
pub open spec fn mem_field(mode: u32, slot: u32) -> CtMem {
    if mode == 0 {
        CtMem::Io(CtId(slot as u16))
    } else if mode == 1 {
        CtMem::Heap { bid: slot as u16 }
    } else if mode == 2 {
        CtMem::Src { tid: (slot >> 8) as u8, bid: (slot & 0xff) as u8 }
    } else {
        CtMem::Dst { tid: (slot >> 8) as u8, bid: (slot & 0xff) as u8 }
    }
}

/// Immediate operand of an instruction word.
pub open spec fn imm_field(word: u32) -> PtArg {
    let cst = field(word, 15, 0x7ff);
    if field(word, 14, 1) == 0 {
        PtArg::Const(cst as u16)
    } else {
        PtArg::Var { tid: (cst >> 8) as u8, bid: (cst & 0xff) as u8 }
    }
}

/// Instruction encoded by a word, if its operation code is known.
pub open spec fn decode(word: u32) -> Option<DOp> {
    let op = word >> 26;
    let dst = reg_field(word, 0, MASK_NONE);
    let src = reg_field(word, 7, MASK_NONE);
    let src2 = reg_field(word, 14, MASK_NONE);
    let cst = imm_field(word);
    let mem = mem_field(field(word, 8, 3), field(word, 10, 0xffff));
    let lut = LutRef { id: field(word, 14, 0xfff) as u16 };
    let hid = NodeId(field(word, 23, 7) as u8);
    let flag = UserFlag(field(word, 17, 0x3f) as u8);
    let slot = mem_field(field(word, 16, 1), field(word, 0, 0xffff));
    if op == 0x01 {
        Some(DOp::ADD { dst, src1: src, src2 })
    } else if op == 0x02 {
        Some(DOp::SUB { dst, src1: src, src2 })
    } else if op == 0x05 {
        let factor = PtArg::Const(field(word, 21, 0x1f) as u16);
        Some(DOp::MAC { dst, src1: src, src2, cst: factor })
    } else if op == 0x09 {
        Some(DOp::ADDS { dst, src, cst })
    } else if op == 0x0a {
        Some(DOp::SUBS { dst, src, cst })
    } else if op == 0x0b {
        Some(DOp::SSUB { dst, src, cst })
    } else if op == 0x0c {
        Some(DOp::MULS { dst, src, cst })
    } else if op == 0x20 {
        Some(DOp::LD { dst, src: mem })
    } else if op == 0x21 {
        Some(DOp::ST { dst: mem, src: dst })
    } else if op == 0x2f {
        Some(
            DOp::SYNC {
                is_inner: field(word, 24, 1) == 1,
                flag: UserFlag(field(word, 0, 0x3f) as u8),
                hid: NodeId(field(word, 8, 7) as u8),
                iid: IOpId(field(word, 16, 0xff) as u8),
            },
        )
    } else if op == 0x30 {
        Some(DOp::PBS { dst, src, lut })
    } else if op == 0x31 {
        Some(DOp::PBS_ML2 { dst: reg_field(word, 0, MASK_PBS2), src, lut })
    } else if op == 0x32 {
        Some(DOp::PBS_ML4 { dst: reg_field(word, 0, MASK_PBS4), src, lut })
    } else if op == 0x33 {
        Some(DOp::PBS_ML8 { dst: reg_field(word, 0, MASK_PBS8), src, lut })
    } else if op == 0x38 {
        Some(DOp::PBS_F { dst, src, lut })
    } else if op == 0x39 {
        Some(DOp::PBS_ML2_F { dst: reg_field(word, 0, MASK_PBS2), src, lut })
    } else if op == 0x3a {
        Some(DOp::PBS_ML4_F { dst: reg_field(word, 0, MASK_PBS4), src, lut })
    } else if op == 0x3b {
        Some(DOp::PBS_ML8_F { dst: reg_field(word, 0, MASK_PBS8), src, lut })
    } else if op == 0x10 {
        Some(DOp::NOTIFY { hid, flag, slot })
    } else if op == 0x11 {
        Some(DOp::WAIT { hid, flag, slot })
    } else if op == 0x18 {
        Some(DOp::LD_B2B { hid, flag, slot })
    } else {
        None
    }
}

/// Operands of a register arithmetic instruction.
pub(crate) struct ArithInsn {
    pub opcode: u8,
    pub dst: u8,
    pub src0: u8,
    pub src1: u8,
    pub factor: u8,
}

/// Operands of an arithmetic instruction with an immediate.
pub(crate) struct ArithMsgInsn {
    pub opcode: u8,
    pub dst: u8,
    pub src: u8,
    pub cst: PtArg,
}

/// Operands of a load or a store.
pub(crate) struct MemInsn {
    pub opcode: u8,
    pub rid: u8,
    pub slot: CtMem,
}

/// Operands of a barrier.
pub(crate) struct SyncInsn {
    pub is_inner: bool,
    pub flag: u8,
    pub hid: u8,
    pub iid: u8,
}

/// Operands of a bootstrapping.
pub(crate) struct PbsInsn {
    pub opcode: u8,
    pub dst: u8,
    pub src: u8,
    pub gid: u16,
}

/// Operands of an instruction handled by the micro-core.
pub(crate) struct UcoreInsn {
    pub opcode: u8,
    pub hid: u8,
    pub flag: u8,
    pub slot: CtMem,
}

/// Calls `hpu_asm::DOp::from_hex` and keeps the register arithmetic
/// instructions: the operation codes of ADD, SUB and MAC, with the three
/// seven-bit register fields and the five-bit factor of the word.
#[verifier::external_body]
pub(crate) fn dop_arith(word: u32) -> (r: Option<ArithInsn>)
    ensures
        r is Some <==> (word >> 26 == 0x01 || word >> 26 == 0x02 || word >> 26 == 0x05),
        r matches Some(i) ==> i.opcode == word >> 26 && i.dst == field(word, 0, 0x7f) && i.src0
            == field(word, 7, 0x7f) && i.src1 == field(word, 14, 0x7f) && i.factor == field(
            word,
            21,
            0x1f,
        ),
{
    match hpu_asm::DOp::from_hex(word) {
        Ok(
            hpu_asm::DOp::ADD(hpu_asm::dop::DOpAdd(i))
            | hpu_asm::DOp::SUB(hpu_asm::dop::DOpSub(i))
            | hpu_asm::DOp::MAC(hpu_asm::dop::DOpMac(i)),
        ) => Some(ArithInsn {
            opcode: u8::from(i.opcode),
            dst: i.dst_rid.0,
            src0: i.src0_rid.0,
            src1: i.src1_rid.0,
            factor: i.mul_factor.0,
        }),
        _ => None,
    }
}

/// Calls `hpu_asm::DOp::from_hex` and keeps the arithmetic instructions with an
/// immediate: the operation codes of ADDS, SUBS, SSUB and MULS, with the two
/// register fields and the immediate field of the word.
#[verifier::external_body]
pub(crate) fn dop_arith_msg(word: u32) -> (r: Option<ArithMsgInsn>)
    ensures
        r is Some <==> 0x09 <= word >> 26 <= 0x0c,
        r matches Some(i) ==> i.opcode == word >> 26 && i.dst == field(word, 0, 0x7f) && i.src
            == field(word, 7, 0x7f) && i.cst == imm_field(word),
{
    let (i, cst) = match hpu_asm::DOp::from_hex(word) {
        Ok(
            hpu_asm::DOp::ADDS(hpu_asm::dop::DOpAdds(i))
            | hpu_asm::DOp::SUBS(hpu_asm::dop::DOpSubs(i))
            | hpu_asm::DOp::SSUB(hpu_asm::dop::DOpSsub(i))
            | hpu_asm::DOp::MULS(hpu_asm::dop::DOpMuls(i)),
        ) => match i.msg_cst {
            hpu_asm::ImmId::Cst(val) => (i, PtArg::Const(val)),
            hpu_asm::ImmId::Var { tid, bid } => (i, PtArg::Var { tid, bid }),
        },
        _ => return None,
    };
    Some(ArithMsgInsn { opcode: u8::from(i.opcode), dst: i.dst_rid.0, src: i.src_rid.0, cst })
}

/// Calls `hpu_asm::DOp::from_hex` and keeps the loads and the stores, with the
/// register field and the memory operand of the word.
#[verifier::external_body]
pub(crate) fn dop_mem(word: u32) -> (r: Option<MemInsn>)
    ensures
        r is Some <==> (word >> 26 == 0x20 || word >> 26 == 0x21),
        r matches Some(i) ==> i.opcode == word >> 26 && i.rid == field(word, 0, 0x7f) && i.slot
            == mem_field(field(word, 8, 3), field(word, 10, 0xffff)),
{
    let i = match hpu_asm::DOp::from_hex(word) {
        Ok(hpu_asm::DOp::LD(hpu_asm::dop::DOpLd(i)) | hpu_asm::DOp::ST(hpu_asm::dop::DOpSt(i))) => i,
        _ => return None,
    };
    let slot = match i.slot {
        hpu_asm::MemId::Addr(cid) => CtMem::Io(CtId(cid.0)),
        hpu_asm::MemId::Heap { bid } => CtMem::Heap { bid },
        hpu_asm::MemId::Src { tid, bid } => CtMem::Src { tid, bid },
        hpu_asm::MemId::Dst { tid, bid } => CtMem::Dst { tid, bid },
    };
    Some(MemInsn { opcode: u8::from(i.opcode), rid: i.rid.0, slot })
}

/// Calls `hpu_asm::DOp::from_hex` and keeps the barriers, with the inner mark,
/// the flag, the node and the operation identifier of the word.
#[verifier::external_body]
pub(crate) fn dop_sync(word: u32) -> (r: Option<SyncInsn>)
    ensures
        r is Some <==> word >> 26 == 0x2f,
        r matches Some(i) ==> i.is_inner == (field(word, 24, 1) == 1) && i.flag == field(
            word,
            0,
            0x3f,
        ) && i.hid == field(word, 8, 7) && i.iid == field(word, 16, 0xff),
{
    match hpu_asm::DOp::from_hex(word) {
        Ok(hpu_asm::DOp::SYNC(hpu_asm::dop::DOpSync(i))) => Some(
            SyncInsn { is_inner: i.is_inner_sync, flag: i.flag.0, hid: i.hid.0, iid: i.iid.0 },
        ),
        _ => None,
    }
}

/// Calls `hpu_asm::DOp::from_hex` and keeps the bootstrappings, with the two
/// register fields and the twelve-bit lookup table of the word.
#[verifier::external_body]
pub(crate) fn dop_pbs(word: u32) -> (r: Option<PbsInsn>)
    ensures
        r is Some <==> (0x30 <= word >> 26 <= 0x33 || 0x38 <= word >> 26 <= 0x3b),
        r matches Some(i) ==> i.opcode == word >> 26 && i.dst == field(word, 0, 0x7f) && i.src
            == field(word, 7, 0x7f) && i.gid == field(word, 14, 0xfff),
{
    let i = match hpu_asm::DOp::from_hex(word) {
        Ok(
            hpu_asm::DOp::PBS(hpu_asm::dop::DOpPbs(i))
            | hpu_asm::DOp::PBS_ML2(hpu_asm::dop::DOpPbsMl2(i))
            | hpu_asm::DOp::PBS_ML4(hpu_asm::dop::DOpPbsMl4(i))
            | hpu_asm::DOp::PBS_ML8(hpu_asm::dop::DOpPbsMl8(i))
            | hpu_asm::DOp::PBS_F(hpu_asm::dop::DOpPbsF(i))
            | hpu_asm::DOp::PBS_ML2_F(hpu_asm::dop::DOpPbsMl2F(i))
            | hpu_asm::DOp::PBS_ML4_F(hpu_asm::dop::DOpPbsMl4F(i))
            | hpu_asm::DOp::PBS_ML8_F(hpu_asm::dop::DOpPbsMl8F(i)),
        ) => i,
        _ => return None,
    };
    Some(PbsInsn { opcode: u8::from(i.opcode), dst: i.dst_rid.0, src: i.src_rid.0, gid: i.gid.0 })
}

/// Calls `hpu_asm::DOp::from_hex` and keeps the instructions of the micro-core,
/// with the node, the flag and the memory operand of the word. The one-bit
/// addressing mode selects a resolved slot or a heap slot.
#[verifier::external_body]
pub(crate) fn dop_ucore(word: u32) -> (r: Option<UcoreInsn>)
    ensures
        r is Some <==> (word >> 26 == 0x10 || word >> 26 == 0x11 || word >> 26 == 0x18),
        r matches Some(i) ==> i.opcode == word >> 26 && i.hid == field(word, 23, 7) && i.flag
            == field(word, 17, 0x3f) && i.slot == mem_field(
            field(word, 16, 1),
            field(word, 0, 0xffff),
        ),
{
    let i = match hpu_asm::DOp::from_hex(word) {
        Ok(
            hpu_asm::DOp::NOTIFY(hpu_asm::dop::DOpNotify(i))
            | hpu_asm::DOp::WAIT(hpu_asm::dop::DOpWait(i))
            | hpu_asm::DOp::LD_B2B(hpu_asm::dop::DOpLdB2B(i)),
        ) => i,
        _ => return None,
    };
    let slot = match i.slot {
        hpu_asm::MemId::Addr(cid) => CtMem::Io(CtId(cid.0)),
        hpu_asm::MemId::Heap { bid } => CtMem::Heap { bid },
        hpu_asm::MemId::Src { tid, bid } => CtMem::Src { tid, bid },
        hpu_asm::MemId::Dst { tid, bid } => CtMem::Dst { tid, bid },
    };
    Some(UcoreInsn { opcode: u8::from(i.opcode), hid: i.hid.0, flag: i.flag.0, slot })
}

impl DOp {
    /// Decodes an instruction word. `None` is returned on an unknown operation code.
    pub fn from_hex(word: u32) -> (r: Option<DOp>)
        ensures
            r == decode(word),
    {
        if let Some(i) = dop_arith(word) {
            let dst = CtReg::new(i.dst);
            let src1 = CtReg::new(i.src0);
            let src2 = CtReg::new(i.src1);
            return if i.opcode == 0x01 {
                Some(DOp::ADD { dst, src1, src2 })
            } else if i.opcode == 0x02 {
                Some(DOp::SUB { dst, src1, src2 })
            } else {
                Some(DOp::MAC { dst, src1, src2, cst: PtArg::Const(i.factor as u16) })
            };
        }
        if let Some(i) = dop_arith_msg(word) {
            let dst = CtReg::new(i.dst);
            let src = CtReg::new(i.src);
            let cst = i.cst;
            return if i.opcode == 0x09 {
                Some(DOp::ADDS { dst, src, cst })
            } else if i.opcode == 0x0a {
                Some(DOp::SUBS { dst, src, cst })
            } else if i.opcode == 0x0b {
                Some(DOp::SSUB { dst, src, cst })
            } else {
                Some(DOp::MULS { dst, src, cst })
            };
        }
        if let Some(i) = dop_mem(word) {
            let rid = CtReg::new(i.rid);
            return if i.opcode == 0x20 {
                Some(DOp::LD { dst: rid, src: i.slot })
            } else {
                Some(DOp::ST { dst: i.slot, src: rid })
            };
        }
        if let Some(i) = dop_sync(word) {
            return Some(
                DOp::SYNC {
                    is_inner: i.is_inner,
                    flag: UserFlag(i.flag),
                    hid: NodeId(i.hid),
                    iid: IOpId(i.iid),
                },
            );
        }
        if let Some(i) = dop_pbs(word) {
            return Some(Self::pbs_from_insn(i));
        }
        if let Some(i) = dop_ucore(word) {
            let hid = NodeId(i.hid);
            let flag = UserFlag(i.flag);
            let slot = i.slot;
            return if i.opcode == 0x10 {
                Some(DOp::NOTIFY { hid, flag, slot })
            } else if i.opcode == 0x11 {
                Some(DOp::WAIT { hid, flag, slot })
            } else {
                Some(DOp::LD_B2B { hid, flag, slot })
            };
        }
        None
    }

    /// Bootstrapping of an operation code, its destination masked by its number of outputs.
    fn pbs_from_insn(i: PbsInsn) -> (r: DOp)
        requires
            0x30 <= i.opcode <= 0x33 || 0x38 <= i.opcode <= 0x3b,
        ensures
            r == ({
                let src = CtReg { mask: MASK_NONE, addr: i.src };
                let lut = LutRef { id: i.gid };
                let dst = |mask: u8| CtReg { mask, addr: i.dst };
                match i.opcode {
                    0x30 => DOp::PBS { dst: dst(MASK_NONE), src, lut },
                    0x31 => DOp::PBS_ML2 { dst: dst(MASK_PBS2), src, lut },
                    0x32 => DOp::PBS_ML4 { dst: dst(MASK_PBS4), src, lut },
                    0x33 => DOp::PBS_ML8 { dst: dst(MASK_PBS8), src, lut },
                    0x38 => DOp::PBS_F { dst: dst(MASK_NONE), src, lut },
                    0x39 => DOp::PBS_ML2_F { dst: dst(MASK_PBS2), src, lut },
                    0x3a => DOp::PBS_ML4_F { dst: dst(MASK_PBS4), src, lut },
                    _ => DOp::PBS_ML8_F { dst: dst(MASK_PBS8), src, lut },
                }
            }),
    {
        let addr: u8 = i.dst;
        let src = CtReg::new(i.src);
        let lut = LutRef { id: i.gid };
        match i.opcode {
            0x30 => DOp::PBS { dst: CtReg::new(addr), src, lut },
            0x31 => DOp::PBS_ML2 { dst: CtReg { mask: MASK_PBS2, addr }, src, lut },
            0x32 => DOp::PBS_ML4 { dst: CtReg { mask: MASK_PBS4, addr }, src, lut },
            0x33 => DOp::PBS_ML8 { dst: CtReg { mask: MASK_PBS8, addr }, src, lut },
            0x38 => DOp::PBS_F { dst: CtReg::new(addr), src, lut },
            0x39 => DOp::PBS_ML2_F { dst: CtReg { mask: MASK_PBS2, addr }, src, lut },
            0x3a => DOp::PBS_ML4_F { dst: CtReg { mask: MASK_PBS4, addr }, src, lut },
            _ => DOp::PBS_ML8_F { dst: CtReg { mask: MASK_PBS8, addr }, src, lut },
        }
    }
}

} // verus!
