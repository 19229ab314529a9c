use std::collections::VecDeque;

use hpu_sim::cpn::insn::{
    CtId, CtMem, CtReg, DOp, IOpId, LutRef, NodeId, PtArg, UserFlag, MASK_NONE, MASK_PBS2,
    MASK_PBS4, MASK_PBS8,
};
use hpu_sim::cpn::iop::{iop_from_words, is_mapping};
use hpu_sim::cpn::ucore::unit::{decode_stream, same_words};
use tfhe_hpu_backend::prelude::hpu_asm;
use tfhe_hpu_backend::prelude::hpu_asm::dop::{
    DOpAdd, DOpAdds, DOpLd, DOpLdB2B, DOpMac, DOpMuls, DOpNotify, DOpPbs, DOpPbsF, DOpPbsMl2,
    DOpPbsMl4F, DOpPbsMl8, DOpSsub, DOpSt, DOpSub, DOpSubs, DOpSync, DOpWait, ImmId, MemId,
    MulFactor, PbsGid, RegId, ToHex, UserFlag as AsmFlag, VirtId,
};

fn reg(addr: u8) -> CtReg {
    CtReg { mask: MASK_NONE, addr }
}

#[test]
fn decodes_register_arithmetic() {
    let word = DOpAdd::new(RegId(3), RegId(1), RegId(2)).to_hex();
    assert_eq!(
        DOp::from_hex(word),
        Some(DOp::ADD { dst: reg(3), src1: reg(1), src2: reg(2) })
    );
    let word = DOpSub::new(RegId(63), RegId(0), RegId(9)).to_hex();
    assert_eq!(
        DOp::from_hex(word),
        Some(DOp::SUB { dst: reg(63), src1: reg(0), src2: reg(9) })
    );
    let word = DOpMac::new(RegId(4), RegId(5), RegId(6), MulFactor(7)).to_hex();
    assert_eq!(
        DOp::from_hex(word),
        Some(DOp::MAC { dst: reg(4), src1: reg(5), src2: reg(6), cst: PtArg::Const(7) })
    );
}

#[test]
fn decodes_known_words() {
    assert_eq!(
        DOp::from_hex(0x0400_8083),
        Some(DOp::ADD { dst: reg(3), src1: reg(1), src2: reg(2) })
    );
    assert_eq!(
        DOp::from_hex(0xbc00_0000),
        Some(DOp::SYNC { is_inner: false, flag: UserFlag(0), hid: NodeId(0), iid: IOpId(0) })
    );
}

#[test]
fn decodes_immediates() {
    let word = DOpAdds::new(RegId(1), RegId(2), ImmId::Cst(5)).to_hex();
    assert_eq!(
        DOp::from_hex(word),
        Some(DOp::ADDS { dst: reg(1), src: reg(2), cst: PtArg::Const(5) })
    );
    let word = DOpSubs::new(RegId(1), RegId(2), ImmId::Var { tid: 1, bid: 9 }).to_hex();
    assert_eq!(
        DOp::from_hex(word),
        Some(DOp::SUBS { dst: reg(1), src: reg(2), cst: PtArg::Var { tid: 1, bid: 9 } })
    );
    let word = DOpSsub::new(RegId(7), RegId(8), ImmId::Cst(3)).to_hex();
    assert_eq!(
        DOp::from_hex(word),
        Some(DOp::SSUB { dst: reg(7), src: reg(8), cst: PtArg::Const(3) })
    );
    let word = DOpMuls::new(RegId(7), RegId(8), ImmId::Cst(2)).to_hex();
    assert_eq!(
        DOp::from_hex(word),
        Some(DOp::MULS { dst: reg(7), src: reg(8), cst: PtArg::Const(2) })
    );
}

#[test]
fn decodes_memory_operands() {
    let word = DOpLd::new(RegId(5), MemId::Addr(hpu_asm::CtId(0x123))).to_hex();
    assert_eq!(
        DOp::from_hex(word),
        Some(DOp::LD { dst: reg(5), src: CtMem::Io(CtId(0x123)) })
    );
    let word = DOpLd::new(RegId(5), MemId::new_src(2, 4)).to_hex();
    assert_eq!(
        DOp::from_hex(word),
        Some(DOp::LD { dst: reg(5), src: CtMem::Src { tid: 2, bid: 4 } })
    );
    let word = DOpSt::new(MemId::new_dst(1, 7), RegId(6)).to_hex();
    assert_eq!(
        DOp::from_hex(word),
        Some(DOp::ST { dst: CtMem::Dst { tid: 1, bid: 7 }, src: reg(6) })
    );
    let word = DOpSt::new(MemId::new_heap(12), RegId(6)).to_hex();
    assert_eq!(
        DOp::from_hex(word),
        Some(DOp::ST { dst: CtMem::Heap { bid: 12 }, src: reg(6) })
    );
}

#[test]
fn decodes_bootstrappings() {
    let lut = LutRef { id: 21 };
    let word = DOpPbs::new(RegId(8), RegId(1), PbsGid(21)).to_hex();
    assert_eq!(DOp::from_hex(word), Some(DOp::PBS { dst: reg(8), src: reg(1), lut }));
    let word = DOpPbsF::new(RegId(8), RegId(1), PbsGid(21)).to_hex();
    assert_eq!(DOp::from_hex(word), Some(DOp::PBS_F { dst: reg(8), src: reg(1), lut }));
    let word = DOpPbsMl2::new(RegId(8), RegId(1), PbsGid(21)).to_hex();
    let dst = CtReg { mask: MASK_PBS2, addr: 8 };
    assert_eq!(DOp::from_hex(word), Some(DOp::PBS_ML2 { dst, src: reg(1), lut }));
    let word = DOpPbsMl4F::new(RegId(8), RegId(1), PbsGid(21)).to_hex();
    let dst = CtReg { mask: MASK_PBS4, addr: 8 };
    assert_eq!(DOp::from_hex(word), Some(DOp::PBS_ML4_F { dst, src: reg(1), lut }));
    let word = DOpPbsMl8::new(RegId(8), RegId(1), PbsGid(21)).to_hex();
    let dst = CtReg { mask: MASK_PBS8, addr: 8 };
    assert_eq!(DOp::from_hex(word), Some(DOp::PBS_ML8 { dst, src: reg(1), lut }));
}

#[test]
fn decodes_synchronisations() {
    let word = DOpSync::new(hpu_asm::IOpId(0x42), None).to_hex();
    assert_eq!(
        DOp::from_hex(word),
        Some(DOp::SYNC { is_inner: false, flag: UserFlag(0), hid: NodeId(0), iid: IOpId(0x42) })
    );
    let word = DOpSync::new(hpu_asm::IOpId(9), Some((VirtId(0), AsmFlag(17)))).to_hex() | (3 << 8);
    assert_eq!(
        DOp::from_hex(word),
        Some(DOp::SYNC { is_inner: true, flag: UserFlag(17), hid: NodeId(3), iid: IOpId(9) })
    );
    let slot = MemId::Addr(hpu_asm::CtId(77));
    let word = DOpNotify::new(VirtId(2), AsmFlag(5), slot).to_hex();
    let (hid, flag) = (NodeId(2), UserFlag(5));
    assert_eq!(
        DOp::from_hex(word),
        Some(DOp::NOTIFY { hid, flag, slot: CtMem::Io(CtId(77)) })
    );
    let word = DOpWait::new(VirtId(2), AsmFlag(5), slot).to_hex();
    assert_eq!(DOp::from_hex(word), Some(DOp::WAIT { hid, flag, slot: CtMem::Io(CtId(77)) }));
    let word = DOpLdB2B::new(VirtId(2), AsmFlag(5), MemId::new_heap(4)).to_hex();
    assert_eq!(
        DOp::from_hex(word),
        Some(DOp::LD_B2B { hid, flag, slot: CtMem::Heap { bid: 4 } })
    );
}

#[test]
fn unknown_operation_codes_are_refused() {
    assert_eq!(DOp::from_hex(0), None);
    assert_eq!(DOp::from_hex(0x3f << 26), None);
    assert_eq!(DOp::from_hex(0x03 << 26), None);
}

#[test]
fn a_stream_decodes_only_as_a_whole() {
    let add = DOpAdd::new(RegId(3), RegId(1), RegId(2)).to_hex();
    let sync = DOpSync::new(hpu_asm::IOpId(1), None).to_hex();
    let dops = decode_stream(&vec![add, sync]).unwrap();
    assert_eq!(dops.len(), 2);
    assert_eq!(dops[0], DOp::from_hex(add).unwrap());
    assert_eq!(dops[1], DOp::from_hex(sync).unwrap());
    assert!(decode_stream(&vec![add, 0, sync]).is_none());
    assert_eq!(decode_stream(&vec![]), Some(vec![]));
}

/// Words of an operand: its properties, then its slot.
fn operand(kind: u32, last: bool, block: u32, cid: u32, iid: u32, pos: u32) -> Vec<u32> {
    vec![(block << 5) | (iid << 18) | (pos << 26) | ((last as u32) << 29) | (kind << 30), cid]
}

/// Words of an operation with one destination, two sources and one immediate.
fn sample_iop(iid: u32, cst: u32) -> Vec<u32> {
    let mut words = vec![3 | (3 << 8) | (0x21 << 16) | (1 << 24), 0x13];
    words.extend(operand(1, true, 3, 100, iid, 1));
    words.extend(operand(0, false, 3, 40, 2, 0));
    words.extend(operand(0, true, 1, 60, 3, 1));
    words.push(cst | (7 << 16) | (1 << 28) | (2 << 30));
    words
}

#[test]
fn an_operation_is_extracted_from_a_stream() {
    let words = sample_iop(7, 0x1234);
    let mut stream: VecDeque<u32> = words.iter().copied().chain([0xdead_beef]).collect();
    let iop = iop_from_words(&mut stream).unwrap();
    assert_eq!(stream, VecDeque::from(vec![0xdead_beef]));
    assert_eq!(iop.opcode, 0x21);
    assert_eq!(iop.blk_width, 3);
    assert!(!iop.dynamic);
    assert_eq!(iop.mapping, vec![NodeId(1), NodeId(0)]);
    assert_eq!(iop.dst.len(), 1);
    assert_eq!(iop.dst[0].base_cid, CtId(100));
    assert_eq!(iop.dst[0].iid, IOpId(7));
    assert_eq!(iop.dst[0].pos, NodeId(1));
    assert_eq!(iop.src.len(), 2);
    assert_eq!(iop.src[0].block, 3);
    assert_eq!(iop.src[1].base_cid, CtId(60));
    assert_eq!(iop.get_iid(), IOpId(7));
    assert_eq!(iop.words, words);
    assert_eq!(iop.imm.len(), 1);
    assert_eq!(iop.imm[0].len(), 256);
    // Two bits of message in each block of an immediate.
    assert_eq!(iop.imm[0][0..4], [0, 1, 3, 0]);
}

#[test]
fn an_incomplete_operation_is_left_in_the_stream() {
    let words = sample_iop(7, 1);
    for n in 0..words.len() {
        let mut stream: VecDeque<u32> = words[0..n].iter().copied().collect();
        assert!(iop_from_words(&mut stream).is_none());
        assert_eq!(stream.len(), n);
    }
}

#[test]
fn the_firmware_entry_depends_on_width_code_and_node() {
    let mut stream: VecDeque<u32> = sample_iop(7, 1).into();
    let mut iop = iop_from_words(&mut stream).unwrap();
    assert_eq!(iop.fw_entry(2), 0x800 * 3 + 8 * 0x21 + 2);
    iop.dynamic = true;
    assert_eq!(iop.fw_entry(2), 1 + 8 * 0x21 + 2);
}

#[test]
fn a_copy_of_an_operation_has_the_same_words() {
    let mut stream: VecDeque<u32> = sample_iop(7, 5).into();
    let iop = iop_from_words(&mut stream).unwrap();
    let copy = iop.clone();
    assert!(same_words(&iop, &copy));
    assert_eq!(copy.imm, iop.imm);
    let mut stream: VecDeque<u32> = sample_iop(8, 5).into();
    let other = iop_from_words(&mut stream).unwrap();
    assert!(!same_words(&iop, &other));
}

#[test]
fn mapping_words_are_checked() {
    assert!(is_mapping(sample_iop(1, 0)[1]));
    assert!(is_mapping(0x1));
    // No node, and a single node whose virtual identifier is not the first one.
    assert!(!is_mapping(0));
    assert!(!is_mapping(0x3));
}
