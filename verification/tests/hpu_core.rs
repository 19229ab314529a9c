use hpu_sim::cpn::hpu_core::bsk::{bsk_fits, bsk_from_parts, bsk_from_words, bsk_part_size};
use hpu_sim::cpn::hpu_core::channels::chunks_fit;
use hpu_sim::cpn::hpu_core::event::{
    Event, IscCommand, Trigger, ISC_PUSH_DOP, NOTIFY_ISC, NOTIFY_START_ON_TIMEOUT,
};
use hpu_sim::cpn::hpu_core::ksk::{ksk_fits, ksk_from_parts, ksk_from_words, ksk_part_size};
use hpu_sim::cpn::hpu_core::order::{ntt_arch_fits, ntt_coefficients};
use hpu_sim::cpn::hpu_core::pbs::{
    bsk_size, ksk_hw_size, lut_order_fits, lut_to_accumulator, ServerKey,
};
use hpu_sim::cpn::hpu_core::regfile::{shape_fits, HpuLweCiphertext};
use hpu_sim::cpn::hpu_core::report::RegDump;
use hpu_sim::cpn::hpu_core::run::ExecStep;
use hpu_sim::cpn::hpu_core::sim::RetireStep;
use hpu_sim::cpn::hpu_core::trace::{record, SlotProperties};
use hpu_sim::cpn::insn::{
    CtId, CtMem, CtReg, DOp, IOpId, LutRef, NodeId, PtArg, UserFlag, MASK_NONE, MASK_PBS2,
    MASK_PBS4, MASK_PBS8,
};
use hpu_sim::cpn::iop::{IOp, Operand};
use hpu_sim::cpn::layout::MemKind;
use hpu_sim::cpn::{DOpPayload, HpuCore, HpuCoreParams, IOpPayload};
use hpu_sim::params::hpu::{
    HpuIscParameters, HpuKeyswitchParameters, HpuModulusSwitchType, HpuNoiseDistributionInputRaw,
    HpuNttCoreArch, HpuNttParameters, HpuNttPrime, HpuPBSParameters, HpuParameters,
    HpuPcParameters, HpuRegfileParameters,
};
use tfhe::core_crypto::commons::generators::DeterministicSeeder;
use tfhe::core_crypto::commons::math::random::Seed;
use tfhe::core_crypto::prelude::{
    allocate_and_encrypt_new_lwe_ciphertext, allocate_and_generate_new_lwe_bootstrap_key,
    allocate_and_generate_new_lwe_keyswitch_key, convert_standard_lwe_bootstrap_key_to_ntt64,
    decrypt_lwe_ciphertext, generate_programmable_bootstrap_glwe_lut, CiphertextModulus,
    DecompositionBaseLog, DecompositionLevelCount, DefaultRandomGenerator,
    EncryptionRandomGenerator, Gaussian, GlweCiphertextOwned, GlweDimension, GlweSecretKey,
    LweCiphertext, LweCiphertextOwned, LweDimension, LweSecretKey, LweSecretKeyOwned,
    NttLweBootstrapKey, NttLweBootstrapKeyOption, Plaintext, PolynomialSize,
    SecretRandomGenerator, StandardDev,
};

use tfhe_hpu_backend::prelude as backend;

fn parameters(poly: usize, stg_nb: usize, width: usize) -> HpuParameters {
    let noise = HpuNoiseDistributionInputRaw { mode: 2, raw_0: 3, raw_1: 0 };
    HpuParameters {
        pbs_params: HpuPBSParameters {
            lwe_dimension: 16,
            glwe_dimension: 1,
            polynomial_size: poly,
            lwe_noise_distribution: noise,
            glwe_noise_distribution: noise,
            pbs_base_log: 23,
            pbs_level: 1,
            ks_base_log: 4,
            ks_level: 5,
            message_width: 2,
            carry_width: 2,
            ciphertext_width: width,
            log2_p_fail: 0,
            modulus_switch_type: HpuModulusSwitchType::Standard,
        },
        ntt_params: HpuNttParameters {
            core_arch: HpuNttCoreArch::GF64(vec![5, 6]),
            min_pbs_nb: None,
            batch_pbs_nb: 8,
            total_pbs_nb: 32,
            ct_width: width as u32,
            radix: 2,
            stg_nb,
            prime_modulus: HpuNttPrime::GF64,
            psi: 32,
            delta: 8,
        },
        ks_params: HpuKeyswitchParameters { width: 32, lbx: 2, lby: 64, lbz: 3 },
        pc_params: HpuPcParameters {
            ksk_pc: 2,
            ksk_bytes_w: 64,
            bsk_pc: 4,
            glwe_pc: 1,
            bsk_bytes_w: 64,
            pem_pc: 2,
            pem_bytes_w: 64,
            glwe_bytes_w: 64,
        },
        regf_params: HpuRegfileParameters { reg_nb: 16, coef_nb: 8 },
        isc_params: HpuIscParameters { depth: 64, min_iop_size: 45 },
    }
}

fn core_params(rtl: HpuParameters) -> HpuCoreParams {
    HpuCoreParams {
        compute_params: rtl,
        trivial: false,
        noops: false,
        dump_reg: true,
        lut_pc: MemKind::Ddr { offset: 0x10_0000 },
        ct_pc: vec![MemKind::Ddr { offset: 0x1000 }, MemKind::Hbm { pc: 1 }],
        bsk_pc: vec![MemKind::Hbm { pc: 2 }, MemKind::Hbm { pc: 3 }],
        ksk_pc: vec![MemKind::Hbm { pc: 4 }, MemKind::Hbm { pc: 5 }, MemKind::Hbm { pc: 6 }],
        trace_pc: MemKind::Hbm { pc: 7 },
        trace_depth: 1,
        hbm_global_ofst: 0x100_0000,
        hbm_pc_ofst: 0x10_0000,
    }
}

fn small_core(width: usize) -> HpuCore {
    let rtl = parameters(16, 4, width);
    assert!(shape_fits(&rtl));
    let mut core = HpuCore::new(core_params(rtl));
    core.ctx_feed(operation());
    core
}

fn operation() -> IOpPayload {
    let operand = Operand { block: 0, base_cid: CtId(0), iid: IOpId(1), pos: NodeId(0) };
    IOpPayload::new(IOp {
        opcode: 1,
        blk_width: 0,
        dynamic: false,
        mapping: vec![NodeId(0)],
        dst: vec![operand],
        src: vec![operand],
        imm: vec![],
        words: vec![1],
    })
}

fn reg(addr: u8) -> CtReg {
    CtReg::new(addr)
}

fn cst(val: u16) -> PtArg {
    PtArg::Const(val)
}

/// A ciphertext without any pattern.
fn sample(core: &HpuCore, seed: u64) -> Vec<u64> {
    let n = core.params.compute_params.pbs_params.polynomial_size as u64 + 1;
    let shift = 64 - core.params.compute_params.ntt_params.ct_width;
    (0..n)
        .map(|i| (seed + i).wrapping_mul(0x9e37_79b9_7f4a_7c15).rotate_left(17) >> shift << shift)
        .collect()
}

fn put(core: &mut HpuCore, addr: u8, cpu: &Vec<u64>) {
    let parts = HpuLweCiphertext::cpu2reg(cpu, &core.params.compute_params).pc_data;
    core.load_parts(reg(addr), parts);
}

fn fetch(core: &HpuCore, addr: u8) -> Vec<u64> {
    core.inner.regfile[addr as usize].reg2cpu(&core.params.compute_params)
}

fn feed(core: &mut HpuCore, dop: DOp) -> usize {
    core.inner_feed(DOpPayload::new(dop, format!("{dop:?}")), 0)
}

fn run(core: &mut HpuCore, dop: DOp) -> ExecStep {
    let id = feed(core, dop);
    assert!(core.executable(id));
    core.execute(id)
}

#[test]
fn coefficients_are_spread_over_the_channels() {
    let rtl = parameters(16, 4, 64);
    let cpu: Vec<u64> = (100..117).collect();
    let hpu = HpuLweCiphertext::cpu2reg(&cpu, &rtl);
    assert_eq!(hpu.pc_data[0], [100, 101, 102, 103, 108, 109, 110, 111, 116]);
    assert_eq!(hpu.pc_data[1], [104, 105, 106, 107, 112, 113, 114, 115]);
    assert_eq!(hpu.reg2cpu(&rtl), cpu);
    assert_eq!(hpu.get(&rtl, 16), 116);
    let empty = HpuLweCiphertext::new(&rtl);
    assert_eq!((empty.pc_data[0].len(), empty.pc_data[1].len()), (9, 8));
    assert!(empty.reg2cpu(&rtl).iter().all(|x| *x == 0));
}

#[test]
fn coefficients_keep_their_most_significant_bits() {
    let rtl = parameters(16, 4, 44);
    let cpu = vec![0xabcd_ef01_2345_6789; 17];
    let hpu = HpuLweCiphertext::cpu2reg(&cpu, &rtl);
    assert_eq!(hpu.get(&rtl, 3), 0xabc_def0_1234);
    assert_eq!(hpu.reg2cpu(&rtl)[3], 0xabcd_ef01_2340_0000);
}

#[test]
fn shapes_that_do_not_hold_a_ciphertext_are_refused() {
    assert!(shape_fits(&parameters(16, 4, 64)));
    let mut rtl = parameters(16, 4, 64);
    rtl.pc_params.pem_pc = 0;
    assert!(!shape_fits(&rtl));
    rtl = parameters(16, 4, 64);
    rtl.pc_params.pem_pc = 3;
    assert!(!shape_fits(&rtl));
    rtl = parameters(16, 4, 64);
    rtl.ntt_params.ct_width = 65;
    assert!(!shape_fits(&rtl));
    rtl = parameters(16, 4, 64);
    rtl.regf_params.coef_nb = 1;
    assert!(!shape_fits(&rtl));
    rtl = parameters(16, 4, 64);
    rtl.pc_params.pem_pc = 1;
    assert!(shape_fits(&rtl));
}

#[test]
fn a_new_core_is_idle() {
    let core = HpuCore::new(core_params(parameters(16, 4, 64)));
    assert_eq!(core.inner.regfile.len(), 16);
    assert_eq!(core.inner.trace_offset, 0x100_0000 + 7 * 0x10_0000);
    assert_eq!((core.inner.refilled_pc, core.inner.issued_pc, core.inner.retired_pc), (0, 0, 0));
    assert!(core.inner.sks.is_none());
    assert!(fetch(&core, 3).iter().all(|x| *x == 0));
}

#[test]
fn arithmetic_is_done_coefficient_by_coefficient() {
    for width in [64, 44] {
        let mut core = small_core(width);
        let (a, b) = (sample(&core, 1), sample(&core, 50));
        put(&mut core, 1, &a);
        put(&mut core, 2, &b);
        let zip = |f: fn(u64, u64) -> u64| -> Vec<u64> {
            a.iter().zip(&b).map(|(x, y)| f(*x, *y)).collect()
        };
        run(&mut core, DOp::ADD { dst: reg(3), src1: reg(1), src2: reg(2) });
        assert_eq!(fetch(&core, 3), zip(|x, y| x.wrapping_add(y)));
        run(&mut core, DOp::SUB { dst: reg(3), src1: reg(1), src2: reg(2) });
        assert_eq!(fetch(&core, 3), zip(|x, y| x.wrapping_sub(y)));
        run(&mut core, DOp::MAC { dst: reg(3), src1: reg(1), src2: reg(2), cst: cst(5) });
        assert_eq!(fetch(&core, 3), zip(|x, y| x.wrapping_mul(5).wrapping_add(y)));
        run(&mut core, DOp::MULS { dst: reg(3), src: reg(1), cst: cst(7) });
        assert_eq!(fetch(&core, 3), zip(|x, _| x.wrapping_mul(7)));
        // The other registers are left as they are.
        assert_eq!((fetch(&core, 1), fetch(&core, 2)), (a.clone(), b.clone()));
    }
}

#[test]
fn immediates_are_encoded_in_the_body() {
    for width in [64, 44] {
        let mut core = small_core(width);
        let a = sample(&core, 9);
        put(&mut core, 1, &a);
        let body = a[16];
        run(&mut core, DOp::ADDS { dst: reg(2), src: reg(1), cst: cst(3) });
        let r = fetch(&core, 2);
        assert_eq!(r[0..16], a[0..16]);
        assert_eq!(r[16], body.wrapping_add(3 << 59));
        run(&mut core, DOp::SUBS { dst: reg(2), src: reg(1), cst: cst(3) });
        assert_eq!(fetch(&core, 2)[16], body.wrapping_sub(3 << 59));
        run(&mut core, DOp::SSUB { dst: reg(2), src: reg(1), cst: cst(3) });
        let r = fetch(&core, 2);
        assert_eq!(r[0], a[0].wrapping_neg());
        assert_eq!(r[16], body.wrapping_neg().wrapping_add(3 << 59));
    }
}

#[test]
fn subtractions_undo_additions() {
    let mut core = small_core(44);
    let (a, b) = (sample(&core, 3), sample(&core, 4));
    put(&mut core, 1, &a);
    put(&mut core, 2, &b);
    run(&mut core, DOp::ADD { dst: reg(3), src1: reg(1), src2: reg(2) });
    run(&mut core, DOp::SUB { dst: reg(4), src1: reg(3), src2: reg(2) });
    assert_eq!(fetch(&core, 4), a);
    run(&mut core, DOp::ADDS { dst: reg(5), src: reg(1), cst: cst(9) });
    run(&mut core, DOp::SUBS { dst: reg(6), src: reg(5), cst: cst(9) });
    assert_eq!(fetch(&core, 6), a);
    // The subtraction from a constant, done twice.
    run(&mut core, DOp::SSUB { dst: reg(8), src: reg(1), cst: cst(7) });
    assert_ne!(fetch(&core, 8), a);
    run(&mut core, DOp::SSUB { dst: reg(9), src: reg(8), cst: cst(7) });
    assert_eq!(fetch(&core, 9), a);
    // The order of the operands of an addition does not matter.
    run(&mut core, DOp::ADD { dst: reg(7), src1: reg(2), src2: reg(1) });
    assert_eq!(fetch(&core, 7), fetch(&core, 3));
}

#[test]
fn constants_wider_than_a_register_are_cut() {
    // Registers keep four bits of each coefficient, a message has five.
    let mut rtl = parameters(16, 4, 64);
    rtl.ntt_params.ct_width = 4;
    let mut core = HpuCore::new(core_params(rtl));
    core.ctx_feed(operation());
    let a: Vec<u64> = sample(&core, 3).iter().map(|x| x >> 60 << 60).collect();
    put(&mut core, 1, &a);
    for (val, restored) in [(6, true), (7, false)] {
        run(&mut core, DOp::ADDS { dst: reg(2), src: reg(1), cst: cst(val) });
        run(&mut core, DOp::SUBS { dst: reg(3), src: reg(2), cst: cst(val) });
        assert_eq!(fetch(&core, 3) == a, restored);
        run(&mut core, DOp::SSUB { dst: reg(4), src: reg(1), cst: cst(val) });
        run(&mut core, DOp::SSUB { dst: reg(5), src: reg(4), cst: cst(val) });
        assert_eq!(fetch(&core, 5), a);
    }
}

#[test]
fn a_multiply_accumulate_is_a_product_then_a_sum() {
    let mut core = small_core(64);
    let (a, b) = (sample(&core, 3), sample(&core, 4));
    put(&mut core, 1, &a);
    put(&mut core, 2, &b);
    run(&mut core, DOp::MAC { dst: reg(3), src1: reg(1), src2: reg(2), cst: cst(4) });
    run(&mut core, DOp::MULS { dst: reg(4), src: reg(1), cst: cst(4) });
    run(&mut core, DOp::ADD { dst: reg(5), src1: reg(4), src2: reg(2) });
    assert_eq!(fetch(&core, 3), fetch(&core, 5));
}

#[test]
fn what_cannot_be_executed_is_known() {
    let mut core = small_core(64);
    let id = feed(&mut core, DOp::ADD { dst: reg(16), src1: reg(1), src2: reg(2) });
    assert!(!core.executable(id));
    let id = feed(&mut core, DOp::LD { dst: reg(1), src: CtMem::Heap { bid: 0 } });
    assert!(!core.executable(id));
    let var = PtArg::Var { tid: 0, bid: 0 };
    let id = feed(&mut core, DOp::ADDS { dst: reg(1), src: reg(1), cst: var });
    assert!(!core.executable(id));
    // 32 << 59 is more than a coefficient.
    let id = feed(&mut core, DOp::ADDS { dst: reg(1), src: reg(1), cst: cst(32) });
    assert!(!core.executable(id));
    let lut = LutRef { id: 0 };
    let id = feed(&mut core, DOp::PBS_ML2 { dst: reg(2), src: reg(1), lut });
    assert!(!core.executable(id));
    let aligned = CtReg { mask: MASK_PBS2, addr: 2 };
    let id = feed(&mut core, DOp::PBS_ML2 { dst: aligned, src: reg(1), lut });
    assert!(core.executable(id));
    for mask in [MASK_PBS4, 0xf8] {
        let dst = CtReg { mask, addr: 4 };
        let id = feed(&mut core, DOp::PBS_ML4 { dst, src: reg(1), lut });
        assert!(core.executable(id));
    }
    for mask in [MASK_PBS8, 0x80] {
        let dst = CtReg { mask, addr: 8 };
        let id = feed(&mut core, DOp::PBS_ML8_F { dst, src: reg(1), lut });
        assert!(core.executable(id));
    }
    for mask in [MASK_NONE, MASK_PBS2, 0xf0] {
        let dst = CtReg { mask, addr: 8 };
        let id = feed(&mut core, DOp::PBS_ML8 { dst, src: reg(1), lut });
        assert!(!core.executable(id));
    }
    let end = CtReg { mask: MASK_PBS2, addr: 15 };
    let id = feed(&mut core, DOp::PBS_ML2 { dst: end, src: reg(1), lut });
    assert!(!core.executable(id));
    assert!(!core.executable(id + 1));
    assert!(!HpuCore::new(core_params(parameters(16, 4, 64))).executable(0));
}

#[test]
fn instructions_are_skipped_without_operations() {
    let mut params = core_params(parameters(16, 4, 64));
    params.noops = true;
    let mut core = HpuCore::new(params);
    assert!(matches!(core.execute(12), ExecStep::Skipped));
}

#[test]
fn skipped_instructions_are_retired_once() {
    let mut params = core_params(parameters(16, 4, 64));
    params.noops = true;
    let mut core = HpuCore::new(params);
    core.ctx_feed(operation());
    for dop in [DOp::_START, barrier(true), DOp::_END] {
        feed(&mut core, dop);
    }
    core.next_cycle().unwrap();
    for (id, cmd) in [(0, 1), (2, 2), (0, 2)] {
        core.inner.sim_event.dispatch(isc(id, cmd), 5, None);
    }
    let mut cycle = core.next_cycle().unwrap();
    assert!(!core.resolve(&mut cycle, &vec![None, None, None], 5));
    assert!(matches!(core.execute(1), ExecStep::Skipped));
    let retired: Vec<DOp> = cycle.deferred.retire.iter().map(|dop| dop.inner).collect();
    assert_eq!(retired, [DOp::_END, DOp::_START]);
    assert!(core.inner.dop_map.get(0).is_none() && core.inner.dop_map.get(2).is_none());
    assert!(core.inner.dop_map.get(1).is_some());
    for dop in cycle.deferred.retire {
        assert!(matches!(core.retire(dop), RetireStep::Done));
    }
    assert_eq!(core.inner.retired_pc, 2);
}

#[test]
fn the_order_of_execution_is_kept() {
    let mut core = small_core(64);
    let add = DOp::ADD { dst: reg(3), src1: reg(1), src2: reg(2) };
    let muls = DOp::MULS { dst: reg(3), src: reg(3), cst: cst(2) };
    assert!(matches!(run(&mut core, add), ExecStep::Done));
    core.issued();
    run(&mut core, muls);
    core.issued();
    assert_eq!(core.inner.iop_ctx[0].exec_order, [add, muls]);
    assert_eq!(core.inner.issued_pc, 2);
    core.inner.note_timeout(&vec![]);
    core.inner.note_timeout(&vec![4, 2]);
    assert_eq!(core.inner.iop_ctx[0].batch_timeout, [4, 2]);
}

#[test]
fn what_is_stored_is_loaded() {
    for width in [64, 44] {
        let mut core = small_core(width);
        let a = sample(&core, 77);
        put(&mut core, 1, &a);
        let slot = CtMem::Io(CtId(3));
        let writes = match run(&mut core, DOp::ST { dst: slot, src: reg(1) }) {
            ExecStep::Store { writes } => writes,
            other => panic!("{other:?}"),
        };
        // One page for each ciphertext in each channel.
        assert_eq!(writes[0].0, 0x1000 + 3 * 0x1000);
        assert_eq!(writes[1].0, 0x100_0000 + 0x10_0000 + 3 * 0x1000);
        assert_eq!((writes[0].1.len(), writes[1].1.len()), (72, 64));
        assert_eq!(writes[0].1[0..8], (a[0] >> (64 - width)).to_ne_bytes());
        let (dst, addrs, size_b) = match run(&mut core, DOp::LD { dst: reg(5), src: slot }) {
            ExecStep::Load { dst, addrs, size_b } => (dst, addrs, size_b),
            other => panic!("{other:?}"),
        };
        assert_eq!((dst, size_b), (reg(5), 4096));
        assert_eq!(addrs, [writes[0].0, writes[1].0]);
        assert_eq!(core.cid_to_addr(CtId(3)), addrs);
        assert_eq!(core.ct_pc_pattern(), 4096);
        let page = |data: &Vec<u8>| {
            let mut data = data.clone();
            data.resize(4096, 0xee);
            data
        };
        core.load(dst, &vec![page(&writes[0].1), page(&writes[1].1)]);
        assert_eq!(fetch(&core, 5), a);
    }
}

#[test]
fn a_channel_that_is_not_read_keeps_its_coefficients() {
    let mut core = small_core(64);
    let a = sample(&core, 5);
    put(&mut core, 1, &a);
    core.load_parts(reg(1), vec![vec![7; 9]]);
    let r = fetch(&core, 1);
    assert_eq!((r[0], r[16]), (7, 7));
    assert_eq!(r[4..8], a[4..8]);
}

#[test]
fn lookup_tables_are_read_page_by_page() {
    let core = small_core(64);
    assert_eq!(core.lut_read(LutRef { id: 5 }), (0x10_0000 + 5 * 4096, 4096));
}

#[test]
fn keys_are_read_once() {
    let mut core = small_core(64);
    let reads = core.key_reads().unwrap();
    // 16 * 1 * (2 * 2 * 16) words over four channels, of which two are given.
    assert_eq!(bsk_size(&core.params.compute_params), Some(1024));
    assert_eq!(reads.bsk, [(0x120_0000, 2048), (0x130_0000, 2048)]);
    // 18 * 64 * 2 words over two channels.
    assert_eq!(ksk_hw_size(&core.params.compute_params), 2304);
    assert_eq!(reads.ksk, [(0x140_0000, 9216), (0x150_0000, 9216)]);
    let keys = ServerKey { ksk: vec![0; 16 * 5 * 17], bsk: vec![0; 1024] };
    assert!(keys.usable(&core.params.compute_params));
    core.set_server_key(keys);
    assert!(core.key_reads().is_none());
    core.inner.iop_ctx[0].fresh_start = true;
    assert!(core.key_reads().is_some());
}

#[test]
fn unusable_keys_are_refused() {
    let rtl = parameters(16, 4, 64);
    let keys = |ksk: usize, bsk: usize, val: u64| ServerKey {
        ksk: vec![0; ksk],
        bsk: vec![val; bsk],
    };
    assert!(keys(1360, 1024, 0xffff_ffff_0000_0000).usable(&rtl));
    assert!(!keys(1359, 1024, 0).usable(&rtl));
    assert!(!keys(1360, 1023, 0).usable(&rtl));
    assert!(!keys(1360, 1024, 0xffff_ffff_0000_0001).usable(&rtl));
    let mut rtl = parameters(16, 4, 64);
    rtl.ntt_params.stg_nb = 3;
    assert!(!lut_order_fits(&rtl));
    assert!(!keys(1360, 1024, 0).usable(&rtl));
    let mut rtl = parameters(16, 4, 64);
    rtl.pbs_params.ks_base_log = 7;
    assert!(!keys(1360, 1024, 0).usable(&rtl));
}

#[test]
fn tables_are_put_in_the_natural_order() {
    let rtl = parameters(16, 4, 44);
    let lut: Vec<u64> = (0..16).collect();
    let acc = lut_to_accumulator(&rtl, &lut);
    assert!(acc[0..16].iter().all(|x| *x == 0));
    let body: Vec<u64> = acc[16..32].iter().map(|x| x >> 20).collect();
    assert_eq!(body, [0, 8, 4, 12, 2, 10, 6, 14, 1, 9, 5, 13, 3, 11, 7, 15]);
    // Two digits in base four.
    let mut rtl = parameters(16, 2, 64);
    rtl.ntt_params.radix = 4;
    let acc = lut_to_accumulator(&rtl, &lut);
    assert_eq!(acc[16..32], [0, 4, 8, 12, 1, 5, 9, 13, 2, 6, 10, 14, 3, 7, 11, 15]);
}

/// Keys of a client and of its server.
struct Keys {
    big: LweSecretKeyOwned<u64>,
    server: ServerKey,
    encryption: EncryptionRandomGenerator<DefaultRandomGenerator>,
}

const POLY: usize = 512;

fn keys(rtl: &HpuParameters) -> Keys {
    let p = rtl.pbs_params;
    let mut seeder = DeterministicSeeder::<DefaultRandomGenerator>::new(Seed(0x5eed));
    let mut secret = SecretRandomGenerator::<DefaultRandomGenerator>::new(Seed(12));
    let mut encryption =
        EncryptionRandomGenerator::<DefaultRandomGenerator>::new(Seed(34), &mut seeder);
    let noise = Gaussian::from_dispersion_parameter(StandardDev(1e-15), 0.0);
    let small: LweSecretKeyOwned<u32> =
        LweSecretKey::generate_new_binary(LweDimension(p.lwe_dimension), &mut secret);
    let small_u64 =
        LweSecretKey::from_container(small.as_ref().iter().map(|x| *x as u64).collect::<Vec<_>>());
    let glwe = GlweSecretKey::generate_new_binary(
        GlweDimension(p.glwe_dimension),
        PolynomialSize(p.polynomial_size),
        &mut secret,
    );
    let big = glwe.clone().into_lwe_secret_key();
    let bsk = allocate_and_generate_new_lwe_bootstrap_key(
        &small_u64,
        &glwe,
        DecompositionBaseLog(p.pbs_base_log),
        DecompositionLevelCount(p.pbs_level),
        noise,
        CiphertextModulus::new_native(),
        &mut encryption,
    );
    let mut ntt_bsk = NttLweBootstrapKey::new(
        0u64,
        bsk.input_lwe_dimension(),
        bsk.glwe_size(),
        bsk.polynomial_size(),
        bsk.decomposition_base_log(),
        bsk.decomposition_level_count(),
        CiphertextModulus::try_new(0xffff_ffff_0000_0001).unwrap(),
    );
    convert_standard_lwe_bootstrap_key_to_ntt64(&bsk, &mut ntt_bsk, NttLweBootstrapKeyOption::Raw);
    let ksk = allocate_and_generate_new_lwe_keyswitch_key(
        &big,
        &small,
        DecompositionBaseLog(p.ks_base_log),
        DecompositionLevelCount(p.ks_level),
        Gaussian::from_dispersion_parameter(StandardDev(1e-7), 0.0),
        CiphertextModulus::try_new_power_of_2(rtl.ks_params.width).unwrap(),
        &mut encryption,
    );
    let server = ServerKey { ksk: ksk.into_container(), bsk: ntt_bsk.into_container().to_vec() };
    Keys { big, server, encryption }
}

fn encrypt(keys: &mut Keys, msg: u64) -> Vec<u64> {
    let noise = Gaussian::from_dispersion_parameter(StandardDev(1e-15), 0.0);
    let ct: LweCiphertextOwned<u64> = allocate_and_encrypt_new_lwe_ciphertext(
        &keys.big,
        Plaintext(msg << 59),
        noise,
        CiphertextModulus::new_native(),
        &mut keys.encryption,
    );
    ct.into_container()
}

fn decrypt(keys: &Keys, lwe: Vec<u64>) -> u64 {
    let ct = LweCiphertext::from_container(lwe, CiphertextModulus::new_native());
    let plain: Plaintext<u64> = decrypt_lwe_ciphertext(&keys.big, &ct);
    (plain.0.wrapping_add(1 << 58) >> 59) % 32
}

/// Table of a function, as it is stored in the memory.
fn table(f: fn(u64) -> u64) -> Vec<u8> {
    let glwe: GlweCiphertextOwned<u64> = generate_programmable_bootstrap_glwe_lut(
        PolynomialSize(POLY),
        GlweDimension(1).to_glwe_size(),
        16,
        CiphertextModulus::new_native(),
        1 << 59,
        f,
    );
    let body = &glwe.as_ref()[POLY..2 * POLY];
    let mut lut = vec![0; POLY];
    for i in 0..POLY {
        lut[i.reverse_bits() >> (usize::BITS - 9)] = body[i];
    }
    lut.iter().flat_map(|x: &u64| x.to_ne_bytes()).collect()
}

fn bootstraps(switch: HpuModulusSwitchType, ks_width: usize) {
    let mut rtl = parameters(POLY, 9, 64);
    rtl.pbs_params.modulus_switch_type = switch;
    rtl.ks_params.width = ks_width;
    let mut keys = keys(&rtl);
    assert!(keys.server.usable(&rtl));
    let mut core = HpuCore::new(core_params(rtl));
    core.ctx_feed(operation());
    let server =
        ServerKey { ksk: keys.server.ksk.clone(), bsk: keys.server.bsk.clone() };
    core.set_server_key(server);
    let square = table(|x| (x * x) % 16);
    for msg in [0, 3, 7, 15] {
        let ct = encrypt(&mut keys, msg);
        put(&mut core, 1, &ct);
        let dop = DOp::PBS { dst: reg(4), src: reg(1), lut: LutRef { id: 2 } };
        match run(&mut core, dop) {
            ExecStep::Pbs { lut_nb, dst, src, lut_addr, lut_size_b } => {
                assert_eq!((lut_nb, dst, src), (1, reg(4), reg(1)));
                assert_eq!((lut_addr, lut_size_b), (0x10_0000 + 2 * 4096, 4096));
                core.apply_pbs2reg(lut_nb, dst, src, &square);
            },
            other => panic!("{other:?}"),
        }
        assert_eq!(decrypt(&keys, fetch(&core, 4)), (msg * msg) % 16);
        // Neither the source nor the next register changes.
        assert_eq!(fetch(&core, 1), ct);
        assert!(fetch(&core, 5).iter().all(|x| *x == 0));
    }
}

#[test]
fn bootstrapping_applies_a_table() {
    bootstraps(HpuModulusSwitchType::Standard, 32);
}

#[test]
fn bootstrapping_applies_a_table_with_a_narrow_keyswitch() {
    bootstraps(HpuModulusSwitchType::Standard, 21);
}

#[test]
fn bootstrapping_applies_a_table_with_a_centred_switch() {
    bootstraps(HpuModulusSwitchType::CenteredMeanNoiseReduction, 32);
}

/// The same dimensions, for the containers of the backend.
fn backend_parameters(rtl: &HpuParameters) -> backend::HpuParameters {
    let noise = backend::parameters::HpuNoiseDistributionInput::TUniformBound(3);
    backend::HpuParameters {
        pbs_params: backend::HpuPBSParameters {
            lwe_dimension: rtl.pbs_params.lwe_dimension,
            glwe_dimension: rtl.pbs_params.glwe_dimension,
            polynomial_size: rtl.pbs_params.polynomial_size,
            lwe_noise_distribution: noise,
            glwe_noise_distribution: noise,
            pbs_base_log: rtl.pbs_params.pbs_base_log,
            pbs_level: rtl.pbs_params.pbs_level,
            ks_base_log: rtl.pbs_params.ks_base_log,
            ks_level: rtl.pbs_params.ks_level,
            message_width: 2,
            carry_width: 2,
            ciphertext_width: 64,
            log2_p_fail: -64.0,
            modulus_switch_type: backend::parameters::HpuModulusSwitchType::Standard,
        },
        ntt_params: backend::HpuNttParameters {
            core_arch: backend::HpuNttCoreArch::GF64(vec![5, 6]),
            min_pbs_nb: None,
            batch_pbs_nb: 8,
            total_pbs_nb: 32,
            ct_width: 64,
            radix: rtl.ntt_params.radix,
            stg_nb: rtl.ntt_params.stg_nb,
            prime_modulus: backend::parameters::HpuNttPrime::GF64,
            psi: rtl.ntt_params.psi,
            delta: 8,
        },
        ks_params: backend::HpuKeyswitchParameters {
            width: rtl.ks_params.width,
            lbx: rtl.ks_params.lbx,
            lby: rtl.ks_params.lby,
            lbz: rtl.ks_params.lbz,
        },
        pc_params: backend::HpuPcParameters {
            ksk_pc: rtl.pc_params.ksk_pc,
            ksk_bytes_w: 64,
            bsk_pc: rtl.pc_params.bsk_pc,
            glwe_pc: 1,
            bsk_bytes_w: 64,
            pem_pc: 2,
            pem_bytes_w: 64,
            glwe_bytes_w: 64,
        },
        regf_params: backend::HpuRegfileParameters { reg_nb: 16, coef_nb: 8 },
        isc_params: backend::HpuIscParameters { depth: 64, min_iop_size: 45 },
    }
}

/// Words of each memory channel that holds a keyswitching key.
fn ksk_memory(rtl: &HpuParameters, ksk: &[u32]) -> Vec<Vec<u64>> {
    let (p, ks) = (rtl.pbs_params, rtl.ks_params);
    let (outputs, inputs) = (p.lwe_dimension + 1, p.glwe_dimension * p.polynomial_size);
    let mut key = backend::HpuLweKeyswitchKeyOwned::<u64>::new(0, backend_parameters(rtl));
    let mut rank = 0;
    for x in 0..outputs.div_ceil(ks.lbx) * ks.lbx {
        for band in (0..inputs).step_by(ks.lby) {
            for layer in (0..p.ks_level).step_by(ks.lbz) {
                for y in band..band + ks.lby {
                    for z in layer..(layer + ks.lbz).min(p.ks_level) {
                        if x < outputs && y < inputs {
                            let coef = ksk[(y * p.ks_level + z) * outputs + x] >> (32 - ks.width);
                            key[rank] |= (coef as u64) << ((z - layer) * ks.width);
                        }
                    }
                    rank += 1;
                }
            }
        }
    }
    key.into_container()
}

fn to_bytes(part: &Vec<u64>) -> Vec<u8> {
    part.iter().flat_map(|word| word.to_ne_bytes()).collect()
}

fn of_cuts(cuts: &[u8]) -> Vec<usize> {
    let left = 1 << cuts[0];
    if cuts.len() == 1 {
        return (0..left).collect();
    }
    let sub = of_cuts(&cuts[1..]);
    (0..left).flat_map(|j| sub.iter().map(move |i| left * i + j).collect::<Vec<_>>()).collect()
}

/// Coefficients of a polynomial, in the order of the transform.
fn transform_order(rtl: &HpuParameters) -> Vec<usize> {
    let ntt = &rtl.ntt_params;
    match &ntt.core_arch {
        HpuNttCoreArch::GF64(cuts) => {
            let bits: u8 = cuts.iter().sum();
            let rev = |i: usize| i.reverse_bits() >> (usize::BITS - bits as u32);
            of_cuts(cuts).into_iter().map(rev).collect()
        },
        _ => {
            let rest = ntt.stg_nb % ntt.delta;
            let kept = if rest == 0 { ntt.delta } else { rest };
            let size = ntt.radix.pow(ntt.stg_nb as u32);
            (0..size)
                .map(|c| {
                    let mut digits: Vec<usize> = (0..ntt.stg_nb)
                        .map(|i| c / ntt.radix.pow(i as u32) % ntt.radix)
                        .collect();
                    digits[kept..].reverse();
                    digits.iter().rev().fold(0, |n, d| n * ntt.radix + d)
                })
                .collect()
        },
    }
}

/// Words of each memory channel that holds a bootstrapping key.
fn bsk_memory(rtl: &HpuParameters, bsk: &[u64]) -> Vec<Vec<u64>> {
    let p = rtl.pbs_params;
    let (size, batch) = (p.glwe_dimension + 1, rtl.ntt_params.radix * rtl.ntt_params.psi);
    let order = transform_order(rtl);
    let mut key = backend::HpuLweBootstrapKeyOwned::<u64>::new(0, backend_parameters(rtl));
    let mut rank = 0;
    for s in 0..p.lwe_dimension {
        for col in 0..size {
            for first in 0..p.polynomial_size / batch {
                for row in 0..size {
                    for level in 0..p.pbs_level {
                        let poly = ((s * p.pbs_level + level) * size + row) * size + col;
                        for c in first * batch..(first + 1) * batch {
                            key[rank] = bsk[poly * p.polynomial_size + order[c]];
                            rank += 1;
                        }
                    }
                }
            }
        }
    }
    key.into_container()
}

#[test]
fn keys_are_taken_out_of_the_memory() {
    let cores = [
        (HpuNttCoreArch::GF64(vec![4, 5]), 32, 4, 8),
        (HpuNttCoreArch::GF64(vec![2, 3, 4]), 16, 2, 8),
        (HpuNttCoreArch::WmmCompactPcg, 64, 8, 4),
    ];
    let keyswitches = [(21, 64, 3, 2), (32, 48, 2, 3), (20, 100, 3, 4)];
    for ((arch, psi, bsk_pc, delta), (width, lby, lbz, ksk_pc)) in
        cores.into_iter().zip(keyswitches)
    {
        let mut rtl = parameters(POLY, 9, 64);
        rtl.ks_params = HpuKeyswitchParameters { width, lbx: 3, lby, lbz };
        rtl.pc_params.ksk_pc = ksk_pc;
        rtl.pc_params.bsk_pc = bsk_pc;
        rtl.ntt_params.core_arch = arch;
        rtl.ntt_params.psi = psi;
        rtl.ntt_params.delta = delta;
        let mut keys = keys(&rtl);
        let ksk_parts = ksk_memory(&rtl, &keys.server.ksk);
        let bsk_parts = bsk_memory(&rtl, &keys.server.bsk);
        assert!(ksk_fits(&rtl) && bsk_fits(&rtl));
        assert_eq!(ksk_from_parts(&rtl, &ksk_parts), keys.server.ksk);
        assert_eq!(bsk_from_parts(&rtl, &bsk_parts), keys.server.bsk);
        let ksk_chunks: Vec<Vec<u8>> = ksk_parts.iter().map(to_bytes).collect();
        let bsk_chunks: Vec<Vec<u8>> = bsk_parts.iter().map(to_bytes).collect();
        assert!(chunks_fit(ksk_pc, ksk_part_size(&rtl), &ksk_chunks));
        assert!(chunks_fit(bsk_pc, bsk_part_size(&rtl), &bsk_chunks));
        let mut core = HpuCore::new(core_params(rtl));
        core.ctx_feed(operation());
        assert!(!core.take_keys(keys.server.ksk.clone(), vec![0; 3]));
        // A coefficient that is not reduced.
        let mut wrong = bsk_chunks.clone();
        wrong[1][..8].fill(0xff);
        assert!(!core.load_keys(&ksk_chunks, &wrong));
        assert!(core.inner.sks.is_none());
        assert!(core.load_keys(&ksk_chunks, &bsk_chunks));
        let server = core.inner.sks.as_ref().unwrap();
        assert_eq!(server.ksk, keys.server.ksk);
        assert_eq!(server.bsk, keys.server.bsk);
        let ct = encrypt(&mut keys, 6);
        put(&mut core, 1, &ct);
        match run(&mut core, DOp::PBS { dst: reg(4), src: reg(1), lut: LutRef { id: 0 } }) {
            ExecStep::Pbs { lut_nb, dst, src, .. } => {
                core.apply_pbs2reg(lut_nb, dst, src, &table(|x| x + 3))
            },
            other => panic!("{other:?}"),
        }
        assert_eq!(decrypt(&keys, fetch(&core, 4)), 9);
    }
}

#[test]
fn a_channel_of_a_key_that_is_not_read_is_null() {
    let mut rtl = parameters(POLY, 9, 64);
    rtl.ks_params = HpuKeyswitchParameters { width: 8, lbx: 1, lby: 64, lbz: 5 };
    rtl.ntt_params.core_arch = HpuNttCoreArch::GF64(vec![9]);
    assert!(ksk_fits(&rtl) && bsk_fits(&rtl));
    let ksk_chunk = vec![1u8; ksk_part_size(&rtl) * 8];
    let bsk_chunk = to_bytes(&vec![7; bsk_part_size(&rtl)]);
    assert!(!chunks_fit(4, bsk_part_size(&rtl), &vec![bsk_chunk[8..].to_vec()]));
    assert!(!chunks_fit(4, bsk_part_size(&rtl), &vec![bsk_chunk.clone(); 5]));
    let mut core = HpuCore::new(core_params(rtl));
    assert!(core.load_keys(&vec![ksk_chunk], &vec![bsk_chunk]));
    let server = core.inner.sks.as_ref().unwrap();
    // Runs of 32 inputs of a band, then runs of 16 coefficients of a batch.
    assert_eq!((server.ksk[0], server.ksk[31 * 5 * 17]), (1 << 24, 1 << 24));
    assert_eq!((server.ksk[32 * 5 * 17], server.ksk[64 * 5 * 17]), (0, 1 << 24));
    let rev = |i: usize| i.reverse_bits() >> (usize::BITS - 9);
    assert_eq!((server.bsk[rev(15)], server.bsk[rev(16)]), (7, 0));
    assert_eq!((server.bsk[rev(63)], server.bsk[rev(64)]), (0, 7));
}

#[test]
fn words_of_a_bootstrapping_key_are_coefficients_of_its_polynomials() {
    let cores = [
        (HpuNttCoreArch::GF64(vec![3, 1, 2]), 2, 6, 2, 3, 4),
        (HpuNttCoreArch::GF64(vec![2, 4]), 3, 6, 16, 3, 6),
        (HpuNttCoreArch::GF64(vec![1, 6]), 2, 6, 16, 3, 8),
        (HpuNttCoreArch::WmmCompactPcg, 2, 6, 16, 4, 8),
        (HpuNttCoreArch::WmmCompactPcg, 2, 6, 8, 3, 16),
        (HpuNttCoreArch::WmmUnfoldPcg, 4, 3, 4, 2, 2),
        (HpuNttCoreArch::WmmUnfoldPcg, 8, 2, 8, 5, 1),
    ];
    for (arch, radix, stg_nb, psi, delta, bsk_pc) in cores {
        let mut rtl = parameters(64, stg_nb, 64);
        rtl.ntt_params.core_arch = arch;
        rtl.ntt_params.radix = radix;
        rtl.ntt_params.psi = psi;
        rtl.ntt_params.delta = delta;
        rtl.pc_params.bsk_pc = bsk_pc;
        rtl.pbs_params.lwe_dimension = 2;
        rtl.pbs_params.glwe_dimension = 2;
        rtl.pbs_params.pbs_level = 3;
        assert!(bsk_fits(&rtl));
        let len = bsk_size(&rtl).unwrap();
        assert_eq!(len, 2 * 3 * 9 * 64);
        let order = transform_order(&rtl);
        let held = 64 / (radix * psi) * (radix * psi);
        assert_eq!(ntt_coefficients(&rtl, held), order[..held].to_vec());
        let mut bsk: Vec<u64> = (1..=len as u64).collect();
        let parts = bsk_memory(&rtl, &bsk);
        for (i, coef) in bsk.iter_mut().enumerate() {
            if !order[..held].contains(&(i % 64)) {
                *coef = 0;
            }
        }
        assert_eq!(bsk_from_parts(&rtl, &parts), bsk);
    }
}

#[test]
fn words_of_a_bootstrapping_key_follow_the_computation() {
    let mut rtl = parameters(16, 4, 64);
    rtl.pbs_params.lwe_dimension = 1;
    rtl.ntt_params.psi = 4;
    rtl.ntt_params.core_arch = HpuNttCoreArch::GF64(vec![2, 2]);
    assert!(bsk_fits(&rtl));
    let words: Vec<u64> = (0..64).collect();
    let key = bsk_from_words(&rtl, &words);
    assert_eq!(key.len(), 64);
    // Row 1 and column 0, position 1; then row 0 and column 1, position 9.
    assert_eq!((key[2 * 16 + 2], key[16 + 6]), (9, 49));
    // The network keeps one digit, or four of them, or two of them.
    rtl.ntt_params.core_arch = HpuNttCoreArch::WmmCompactPcg;
    for (delta, coef) in [(3, 3), (4, 9), (2, 5)] {
        rtl.ntt_params.delta = delta;
        assert_eq!(ntt_coefficients(&rtl, 16)[9], coef);
    }
}

#[test]
fn bootstrapping_keys_out_of_order_are_refused() {
    let fits = |change: fn(&mut HpuParameters)| {
        let mut rtl = parameters(POLY, 9, 64);
        rtl.ntt_params.core_arch = HpuNttCoreArch::GF64(vec![4, 5]);
        change(&mut rtl);
        bsk_fits(&rtl)
    };
    assert!(fits(|_| {}));
    assert!(!fits(|rtl| rtl.pc_params.bsk_pc = 0));
    assert!(!fits(|rtl| rtl.pc_params.bsk_pc = 3));
    assert!(!fits(|rtl| rtl.pbs_params.lwe_dimension = 0));
    assert!(!fits(|rtl| rtl.pbs_params.glwe_dimension = usize::MAX));
    assert!(!fits(|rtl| rtl.pbs_params.lwe_dimension = usize::MAX));
    assert!(!fits(|rtl| rtl.ntt_params.psi = 0));
    assert!(!fits(|rtl| rtl.ntt_params.psi = usize::MAX));
    assert!(!fits(|rtl| rtl.ntt_params.core_arch = HpuNttCoreArch::GF64(vec![])));
    // Too few coefficients, then coefficients out of the polynomials.
    assert!(!fits(|rtl| rtl.ntt_params.core_arch = HpuNttCoreArch::GF64(vec![4, 4])));
    assert!(!fits(|rtl| rtl.ntt_params.core_arch = HpuNttCoreArch::GF64(vec![5, 6])));
    assert!(!fits(|rtl| rtl.ntt_params.core_arch = HpuNttCoreArch::GF64(vec![200, 200])));
    assert!(fits(|rtl| rtl.ntt_params.core_arch = HpuNttCoreArch::WmmUnfoldPcg));
    for change in [
        (|rtl| rtl.ntt_params.radix = 0) as fn(&mut HpuParameters),
        |rtl| rtl.ntt_params.delta = 0,
        |rtl| rtl.ntt_params.stg_nb = 0,
        |rtl| rtl.ntt_params.stg_nb = 8,
        |rtl| rtl.ntt_params.stg_nb = 64,
    ] {
        let mut rtl = parameters(POLY, 9, 64);
        rtl.ntt_params.core_arch = HpuNttCoreArch::WmmCompactPcg;
        change(&mut rtl);
        assert!(!ntt_arch_fits(&rtl, POLY));
        assert!(!bsk_fits(&rtl));
    }
}

#[test]
fn coefficients_of_a_key_are_fields_of_its_words() {
    let mut rtl = parameters(16, 4, 64);
    rtl.pbs_params.lwe_dimension = 1;
    rtl.pbs_params.ks_level = 3;
    rtl.ks_params = HpuKeyswitchParameters { width: 8, lbx: 2, lby: 10, lbz: 2 };
    assert!(ksk_fits(&rtl));
    // Two slices of two bands of ten inputs, by two layers of two levels.
    assert_eq!(ksk_hw_size(&rtl), 80);
    let words: Vec<u64> = (0..80).map(|i| 0xff00 + i).collect();
    let key = ksk_from_words(&rtl, &words);
    assert_eq!(key.len(), 16 * 3 * 2);
    // Output 1 and input 12: slice 1, band 1.
    assert_eq!(key[(12 * 3) * 2 + 1], (40 + 20 + 2) << 24);
    assert_eq!(key[(12 * 3 + 1) * 2 + 1], 0xff << 24);
    assert_eq!(key[(12 * 3 + 2) * 2 + 1], (40 + 20 + 10 + 2) << 24);
}

#[test]
fn keys_that_do_not_fit_in_their_words_are_refused() {
    let fits = |change: fn(&mut HpuParameters)| {
        let mut rtl = parameters(POLY, 9, 64);
        rtl.ks_params.width = 21;
        change(&mut rtl);
        ksk_fits(&rtl)
    };
    assert!(fits(|_| {}));
    assert!(!fits(|rtl| rtl.ks_params.width = 0));
    assert!(!fits(|rtl| rtl.ks_params.width = 33));
    assert!(!fits(|rtl| rtl.ks_params.width = 32));
    assert!(!fits(|rtl| rtl.ks_params.lbz = 0));
    assert!(!fits(|rtl| rtl.pc_params.ksk_pc = 0));
    assert!(!fits(|rtl| rtl.pc_params.ksk_pc = 65));
    assert!(!fits(|rtl| rtl.pc_params.ksk_pc = 5));
    assert!(!fits(|rtl| rtl.pbs_params.glwe_dimension = usize::MAX));
}

#[test]
fn bootstrapping_applies_two_tables() {
    let rtl = parameters(POLY, 9, 64);
    let mut keys = keys(&rtl);
    let mut core = HpuCore::new(core_params(rtl));
    core.ctx_feed(operation());
    let server =
        ServerKey { ksk: keys.server.ksk.clone(), bsk: keys.server.bsk.clone() };
    core.set_server_key(server);
    let both = table(|x| if x < 8 { x + 1 } else { 15 - (x - 8) });
    for msg in [0, 5] {
        let ct = encrypt(&mut keys, msg);
        put(&mut core, 1, &ct);
        let dst = CtReg { mask: MASK_PBS2, addr: 6 };
        let dop = DOp::PBS_ML2_F { dst, src: reg(1), lut: LutRef { id: 0 } };
        match run(&mut core, dop) {
            ExecStep::Pbs { lut_nb, dst, src, .. } => {
                assert_eq!(lut_nb, 2);
                core.apply_pbs2reg(lut_nb, dst, src, &both);
            },
            other => panic!("{other:?}"),
        }
        assert_eq!(decrypt(&keys, fetch(&core, 6)), msg + 1);
        assert_eq!(decrypt(&keys, fetch(&core, 7)), 15 - msg);
    }
}

#[test]
fn messages_without_encryption_read_back() {
    let mut core = small_core(64);
    for clear in [0, 1, 15, 31] {
        assert_eq!(core.trivial_encode(clear), clear << 59);
        assert_eq!(core.trivial_decode(core.trivial_encode(clear)), clear);
    }
    assert_eq!(core.trivial_encode(33), core.trivial_encode(1));
    let mut ct = vec![0; 17];
    ct[16] = core.trivial_encode(6);
    put(&mut core, 1, &ct);
    assert_eq!(core.as_trivial(reg(1)), 6);
    // The sum of two messages, and of a message and a constant.
    run(&mut core, DOp::ADD { dst: reg(2), src1: reg(1), src2: reg(1) });
    assert_eq!(core.as_trivial(reg(2)), 12);
    run(&mut core, DOp::ADDS { dst: reg(2), src: reg(2), cst: cst(2) });
    assert_eq!(core.as_trivial(reg(2)), 14);
}

#[test]
fn registers_are_dumped() {
    let mut core = small_core(64);
    let lut = LutRef { id: 0 };
    let add = DOp::ADD { dst: reg(3), src1: reg(1), src2: reg(2) };
    assert_eq!(core.dump_op_reg(add), Some(3));
    assert_eq!(core.dump_op_reg(DOp::ST { dst: CtMem::Io(CtId(0)), src: reg(2) }), Some(2));
    assert_eq!(core.dump_op_reg(DOp::PBS_ML8 { dst: reg(8), src: reg(2), lut }), Some(8));
    assert_eq!(core.dump_op_reg(DOp::_END), None);
    let a = sample(&core, 1);
    put(&mut core, 3, &a);
    match core.dump_regf(3) {
        RegDump::Wide(lines) => assert_eq!(lines[1][0], a[4]),
        other => panic!("{other:?}"),
    }
    let mut params = core_params(parameters(16, 4, 32));
    params.dump_reg = false;
    let mut core = HpuCore::new(params);
    assert_eq!(core.dump_op_reg(add), None);
    put(&mut core, 3, &a);
    match core.dump_regf(3) {
        RegDump::Compact(lines) => assert_eq!(lines[1][0] as u64, a[4] >> 32),
        other => panic!("{other:?}"),
    }
}

#[test]
fn instructions_are_numbered_and_handed_to_the_scheduler() {
    let mut core = small_core(64);
    assert_eq!(feed(&mut core, DOp::_START), 0);
    let id = core.inner_feed(DOpPayload::new(DOp::_END, "END".to_string()), 7);
    assert_eq!(id, 1);
    assert_eq!(core.inner.refilled_pc, 2);
    assert_eq!(core.inner.dop_map.get(1), Some(DOp::_END));
    let pushed = |a: usize, at: usize| Trigger { at, event: Event { kind: ISC_PUSH_DOP, a, b: 0 } };
    assert_eq!(core.inner.sim_event.triggers, [pushed(0, 0), pushed(1, 7)]);
}

fn barrier(is_inner: bool) -> DOp {
    DOp::SYNC { is_inner, flag: UserFlag(0), hid: NodeId(0), iid: IOpId(1) }
}

#[test]
fn barriers_are_acknowledged() {
    let mut core = small_core(64);
    core.ctx_feed(operation());
    let done = core.retire(DOpPayload::new(DOp::_END, "END".to_string()));
    assert!(matches!(done, RetireStep::Done));
    match core.retire(DOpPayload::new(barrier(true), "inner".to_string())) {
        RetireStep::Ack { dop } => assert_eq!(dop.asm_view, "inner"),
        other => panic!("{other:?}"),
    }
    assert_eq!(core.inner.iop_ctx.len(), 2);
    match core.retire(DOpPayload::new(barrier(false), "last".to_string())) {
        RetireStep::EndOfIOp { iop, dop } => {
            assert_eq!(iop.inner.words, [1]);
            assert_eq!(dop.asm_view, "last");
        },
        other => panic!("{other:?}"),
    }
    assert_eq!(core.inner.iop_ctx.len(), 1);
    assert_eq!(core.inner.retired_pc, 3);
}

#[test]
fn the_trace_is_written_piece_after_piece() {
    let mut core = small_core(64);
    let start = 0x100_0000 + 7 * 0x10_0000;
    assert!(core.trace_write(0).is_empty());
    assert_eq!(core.trace_write(32), [(start, 32)]);
    assert_eq!(core.trace_write(16), [(start + 32, 16)]);
}

#[test]
fn the_trace_wraps_at_the_end_of_its_memory() {
    let mut core = small_core(64);
    let (start, size) = (0x100_0000 + 7 * 0x10_0000, 0x10_0000);
    assert_eq!(core.trace_write(size - 16), [(start, size - 16)]);
    assert_eq!(core.trace_write(48), [(start + size - 16, 16), (start, 32)]);
    // A memory written up to its end is written again from its base.
    assert_eq!(core.trace_write(size - 32), [(start + 32, size - 32)]);
    assert_eq!(core.inner.trace_offset, start);
    assert_eq!(core.trace_write(2 * size + 16), [(start, size), (start, size), (start, 16)]);
    assert_eq!(core.inner.trace_offset, start + 16);
}

#[test]
fn a_trace_memory_has_a_place() {
    let mut params = core_params(parameters(16, 4, 64));
    assert!(params.has_trace());
    params.trace_depth = usize::MAX;
    assert!(!params.has_trace());
    params.trace_depth = 0;
    assert!(params.has_trace());
    let mut core = HpuCore::new(params);
    assert!(core.trace_write(16).is_empty());
    let mut params = core_params(parameters(16, 4, 64));
    params.trace_pc = MemKind::Hbm { pc: usize::MAX };
    assert!(!params.has_trace());
}

#[test]
fn actions_of_the_scheduler_are_sixteen_bytes() {
    let slot = SlotProperties {
        pdg: true,
        rd_pdg: false,
        vld: true,
        wr_lock: 0x102,
        rd_lock: 3,
        issue_lock: 4,
    };
    let bytes = record(slot, IscCommand::Issue, 0x1122_3344);
    assert_eq!(
        bytes,
        [0, 0, 5, 4, 2, 3, 4, 0, 0, 0, 0, 0, 0x44, 0x33, 0x22, 0x11]
    );
    let codes: Vec<u8> = [
        IscCommand::Idle,
        IscCommand::RdUnlock,
        IscCommand::Retire,
        IscCommand::Refill,
        IscCommand::Issue,
    ]
    .iter()
    .map(|cmd| record(SlotProperties::default(), *cmd, 0)[3])
    .collect();
    assert_eq!(codes, [0, 1, 2, 3, 4]);
}

fn isc(a: usize, b: usize) -> Event {
    Event { kind: NOTIFY_ISC, a, b }
}

#[test]
fn events_of_a_cycle_put_work_off() {
    let mut core = small_core(64);
    assert!(core.next_cycle().is_none());
    for dop in [DOp::_START, barrier(true), DOp::_END] {
        feed(&mut core, dop);
    }
    let pushed = core.next_cycle().unwrap();
    assert_eq!((pushed.at, pushed.batch.len()), (0, 3));
    assert!(core.next_cycle().is_none());

    // Instruction 0 is read, 1 retires, 2 is issued, and a batch is started.
    core.inner.sim_event.dispatch(isc(0, 1), 5, None);
    core.inner.sim_event.dispatch(isc(1, 2), 5, None);
    core.inner.sim_event.dispatch(isc(2, 4), 5, None);
    let timeout = Event { kind: NOTIFY_START_ON_TIMEOUT, a: 2, b: 0 };
    core.inner.sim_event.dispatch(timeout, 5, None);
    core.inner.sim_event.dispatch(isc(0, 2), 9, None);
    let mut cycle = core.next_cycle().unwrap();
    assert_eq!((cycle.at, cycle.batch.len()), (5, 4));
    let slot = SlotProperties { vld: true, ..SlotProperties::default() };
    // Raised while the model handles the cycle.
    core.inner.sim_event.dispatch(isc(2, 3), 5, None);
    assert!(core.resolve(&mut cycle, &vec![Some(slot), None, None, None], 5));
    assert_eq!(cycle.batch, [Trigger { at: 5, event: isc(2, 3) }]);
    assert!(!core.resolve(&mut cycle, &vec![None], 5));
    assert_eq!(cycle.deferred.run, [0]);
    assert_eq!(cycle.deferred.timeout, [2]);
    assert_eq!(cycle.deferred.retire.len(), 1);
    assert_eq!(cycle.deferred.retire[0].inner, barrier(true));
    assert_eq!(cycle.deferred.retire[0].trace, [IscCommand::Retire]);
    // From the last event of a batch to the first one.
    let cmds: Vec<u8> = cycle.deferred.trace.chunks(16).map(|entry| entry[3]).collect();
    assert_eq!(cmds, [4, 2, 1, 3]);
    let flags: Vec<u8> = cycle.deferred.trace.chunks(16).map(|entry| entry[2]).collect();
    assert_eq!(flags, [0, 0, 4, 0]);
    // The other instructions are still in flight.
    assert_eq!(core.inner.dop_map.get(1), None);
    let kept = core.inner.dop_map.remove(2).unwrap();
    assert_eq!(kept.trace, [IscCommand::Issue, IscCommand::Refill]);
    assert_eq!(core.inner.sim_event.triggers, [Trigger { at: 9, event: isc(0, 2) }]);
}

#[test]
fn events_on_unknown_instructions_are_refused() {
    let mut core = small_core(64);
    feed(&mut core, DOp::_START);
    core.next_cycle().unwrap();
    core.inner.sim_event.dispatch(isc(0, 2), 3, None);
    let cycle = core.next_cycle().unwrap();
    assert!(core.can_resolve(&cycle, &vec![None], 3));
    // A retired instruction is no longer in flight, even inside a batch.
    core.inner.sim_event.dispatch(isc(0, 1), 4, None);
    core.inner.sim_event.dispatch(isc(0, 2), 4, None);
    let cycle = core.next_cycle().unwrap();
    assert_eq!(cycle.batch.last().unwrap().event, isc(0, 2));
    assert!(!core.can_resolve(&cycle, &vec![None, None], 4));
    core.inner.sim_event.dispatch(isc(7, 4), 5, None);
    let cycle = core.next_cycle().unwrap();
    assert!(!core.can_resolve(&cycle, &vec![None], 5));
}

#[test]
fn keys_out_of_the_address_space_are_refused() {
    let mut core = small_core(64);
    assert!(core.keys_readable());
    core.params.bsk_pc[0] = MemKind::Hbm { pc: usize::MAX };
    assert!(!core.keys_readable());
    let mut core = small_core(64);
    core.params.compute_params.pc_params.ksk_pc = 0;
    assert!(!core.keys_readable());
    let mut core = small_core(64);
    core.params.compute_params.ks_params.lbz = 0;
    assert!(!core.keys_readable());
    let mut core = small_core(64);
    core.params.compute_params.pbs_params.lwe_dimension = usize::MAX / 8;
    assert!(!core.keys_readable());
}
