//! Laws of what the host reads: the value under each name, from the parameters of the board and
//! from what was written.
use vstd::arithmetic::power2::{lemma2_to64, lemma_pow2_adds, lemma_pow2_pos, pow2};
use vstd::bits::{lemma_u32_shl_is_mul, lemma_usize_shl_is_mul};
use vstd::prelude::*;

use super::name_laws::registers_have_their_names;
use super::preset::{
    concrete_boolean, known_applications, msg2_carry2, msg2_carry2_44b, msg2_carry2_64b,
    msg2_carry2_64b_fake, msg2_carry2_gaussian, msg2_carry2_pfail64, msg2_carry2_tuniform,
};
use super::register::{named, Half, Register};
use super::unit::{
    application_value, packed_cuts, reaches, read_ok, read_state, read_value, write_event,
    write_state, AddrPair, Command, KeyReset, RegmapView, Request,
};
use crate::params::hpu::{HpuNttCoreArch, HpuNttPrime, HpuPBSParameters, HpuParameters};

verus! {

/// What the host reads under a name.
pub open spec fn seen(p: HpuParameters, s: RegmapView, name: &str) -> u32 {
    read_value(p, s, named(name@))
}

/// The host can read under a name.
pub open spec fn readable(p: HpuParameters, name: &str) -> bool {
    read_ok(p, named(name@))
}

/// The host is told which prime and which core the transform has.
pub proof fn host_reads_the_transform(p: HpuParameters, s: RegmapView)
    ensures
        readable(p, "info::ntt_modulo") && readable(p, "info::ntt_architecture"),
        seen(p, s, "info::ntt_modulo") == (match p.ntt_params.prime_modulus {
            HpuNttPrime::GF64 => 0x600int,
            HpuNttPrime::Solinas3_32_17_13 => 0x601,
            HpuNttPrime::Solinas2_44_14 => 0x602,
        }),
        seen(p, s, "info::ntt_architecture") == (match p.ntt_params.core_arch {
            HpuNttCoreArch::WmmCompactPcg => 0x504int,
            HpuNttCoreArch::WmmUnfoldPcg => 0x504,
            HpuNttCoreArch::GF64(_) => 0x505,
        }),
{
    registers_have_their_names();
}

/// Two boards with different primes show different values, whatever else they have.
pub proof fn primes_are_told_apart(p: HpuParameters, q: HpuParameters, s: RegmapView, t: RegmapView)
    ensures
        seen(p, s, "info::ntt_modulo") == seen(q, t, "info::ntt_modulo") <==> p.ntt_params.prime_modulus
            == q.ntt_params.prime_modulus,
{
    registers_have_their_names();
}

proof fn lemma_shl(b: usize, k: usize)
    requires
        k == 8 || k == 16 || k == 24,
        k == 8 ==> b * 0x100 <= u32::MAX,
        k == 16 ==> b * 0x1_0000 <= u32::MAX,
        k == 24 ==> b * 0x100_0000 <= u32::MAX,
    ensures
        k == 8 ==> b << k == b * 0x100,
        k == 16 ==> b << k == b * 0x1_0000,
        k == 24 ==> b << k == b * 0x100_0000,
{
    lemma2_to64();
    lemma_usize_shl_is_mul(b, k);
}

/// Fields of a register side by side: each of the next ones is above the previous one.
pub open spec fn side_by_side(a: usize, b: usize, c: usize, weight: int) -> int {
    a + 0x100 * b + weight * c
}

/// The host reads the dimensions of the board, side by side, where they fit in a word.
pub proof fn host_reads_the_dimensions(p: HpuParameters, s: RegmapView)
    ensures
        side_by_side(p.ntt_params.radix, p.ntt_params.psi, p.ntt_params.delta, 0x100_0000) <= u32::MAX ==> readable(
            p,
            "info::ntt_structure",
        ) && seen(p, s, "info::ntt_structure") == side_by_side(
            p.ntt_params.radix,
            p.ntt_params.psi,
            p.ntt_params.delta,
            0x100_0000,
        ),
        side_by_side(p.ntt_params.batch_pbs_nb, p.ntt_params.total_pbs_nb, 0, 0) <= u32::MAX ==> readable(
            p,
            "info::ntt_pbs",
        ) && seen(p, s, "info::ntt_pbs") == side_by_side(
            p.ntt_params.batch_pbs_nb,
            p.ntt_params.total_pbs_nb,
            0,
            0,
        ),
        side_by_side(p.ks_params.lbx, p.ks_params.lby, p.ks_params.lbz, 0x1_0000) <= u32::MAX ==> readable(
            p,
            "info::ks_structure",
        ) && seen(p, s, "info::ks_structure") == side_by_side(
            p.ks_params.lbx,
            p.ks_params.lby,
            p.ks_params.lbz,
            0x1_0000,
        ),
        side_by_side(p.ks_params.width, p.pbs_params.ks_level, p.pbs_params.ks_base_log, 0x1_0000) <= u32::MAX ==> readable(
            p,
            "info::ks_crypto_param",
        ) && seen(p, s, "info::ks_crypto_param") == side_by_side(
            p.ks_params.width,
            p.pbs_params.ks_level,
            p.pbs_params.ks_base_log,
            0x1_0000,
        ),
        side_by_side(p.pc_params.bsk_pc, p.pc_params.ksk_pc, p.pc_params.pem_pc, 0x1_0000) <= u32::MAX ==> readable(
            p,
            "info::hbm_axi4_nb",
        ) && seen(p, s, "info::hbm_axi4_nb") == side_by_side(
            p.pc_params.bsk_pc,
            p.pc_params.ksk_pc,
            p.pc_params.pem_pc,
            0x1_0000,
        ),
        side_by_side(p.regf_params.reg_nb, p.regf_params.coef_nb, 0, 0) <= u32::MAX ==> readable(
            p,
            "info::regf_structure",
        ) && seen(p, s, "info::regf_structure") == side_by_side(
            p.regf_params.reg_nb,
            p.regf_params.coef_nb,
            0,
            0,
        ),
        side_by_side(p.isc_params.depth, p.isc_params.min_iop_size, 0, 0) <= u32::MAX ==> readable(
            p,
            "info::isc_structure",
        ) && seen(p, s, "info::isc_structure") == side_by_side(
            p.isc_params.depth,
            p.isc_params.min_iop_size,
            0,
            0,
        ),
{
    registers_have_their_names();
    if side_by_side(p.ntt_params.radix, p.ntt_params.psi, p.ntt_params.delta, 0x100_0000) <= u32::MAX {
        lemma_shl(p.ntt_params.psi, 8);
        lemma_shl(p.ntt_params.delta, 24);
    }
    if side_by_side(p.ntt_params.batch_pbs_nb, p.ntt_params.total_pbs_nb, 0, 0) <= u32::MAX {
        lemma_shl(p.ntt_params.total_pbs_nb, 8);
    }
    if side_by_side(p.ks_params.lbx, p.ks_params.lby, p.ks_params.lbz, 0x1_0000) <= u32::MAX {
        lemma_shl(p.ks_params.lby, 8);
        lemma_shl(p.ks_params.lbz, 16);
    }
    if side_by_side(p.ks_params.width, p.pbs_params.ks_level, p.pbs_params.ks_base_log, 0x1_0000) <= u32::MAX {
        lemma_shl(p.pbs_params.ks_level, 8);
        lemma_shl(p.pbs_params.ks_base_log, 16);
    }
    if side_by_side(p.pc_params.bsk_pc, p.pc_params.ksk_pc, p.pc_params.pem_pc, 0x1_0000) <= u32::MAX {
        lemma_shl(p.pc_params.ksk_pc, 8);
        lemma_shl(p.pc_params.pem_pc, 16);
    }
    if side_by_side(p.regf_params.reg_nb, p.regf_params.coef_nb, 0, 0) <= u32::MAX {
        lemma_shl(p.regf_params.coef_nb, 8);
    }
    if side_by_side(p.isc_params.depth, p.isc_params.min_iop_size, 0, 0) <= u32::MAX {
        lemma_shl(p.isc_params.min_iop_size, 8);
    }
}

/// The host reads the parameters of the encryption, each under its own name, and the widths of
/// the buses in bits.
pub proof fn host_reads_the_parameters(p: HpuParameters, s: RegmapView)
    ensures
        p.pbs_params.lwe_dimension <= u32::MAX ==> seen(p, s, "pbs_parameters::lwe_dimension")
            == p.pbs_params.lwe_dimension,
        readable(p, "pbs_parameters::lwe_dimension"),
        p.pbs_params.glwe_dimension <= u32::MAX ==> seen(p, s, "pbs_parameters::glwe_dimension")
            == p.pbs_params.glwe_dimension,
        readable(p, "pbs_parameters::glwe_dimension"),
        p.pbs_params.polynomial_size <= u32::MAX ==> seen(p, s, "pbs_parameters::polynomial_size")
            == p.pbs_params.polynomial_size,
        readable(p, "pbs_parameters::polynomial_size"),
        p.pbs_params.pbs_base_log <= u32::MAX ==> seen(p, s, "pbs_parameters::pbs_base_log")
            == p.pbs_params.pbs_base_log,
        readable(p, "pbs_parameters::pbs_base_log"),
        p.pbs_params.pbs_level <= u32::MAX ==> seen(p, s, "pbs_parameters::pbs_level")
            == p.pbs_params.pbs_level,
        readable(p, "pbs_parameters::pbs_level"),
        p.pbs_params.ks_base_log <= u32::MAX ==> seen(p, s, "pbs_parameters::ks_base_log")
            == p.pbs_params.ks_base_log,
        readable(p, "pbs_parameters::ks_base_log"),
        p.pbs_params.ks_level <= u32::MAX ==> seen(p, s, "pbs_parameters::ks_level")
            == p.pbs_params.ks_level,
        readable(p, "pbs_parameters::ks_level"),
        p.pbs_params.message_width <= u32::MAX ==> seen(p, s, "pbs_parameters::message_width")
            == p.pbs_params.message_width,
        readable(p, "pbs_parameters::message_width"),
        p.pbs_params.carry_width <= u32::MAX ==> seen(p, s, "pbs_parameters::carry_width")
            == p.pbs_params.carry_width,
        readable(p, "pbs_parameters::carry_width"),
        p.pbs_params.ciphertext_width <= u32::MAX ==> seen(p, s, "pbs_parameters::ciphertext_width")
            == p.pbs_params.ciphertext_width,
        readable(p, "pbs_parameters::ciphertext_width"),
        readable(p, "pbs_noise_lwe::mode") && seen(p, s, "pbs_noise_lwe::mode")
            == p.pbs_params.lwe_noise_distribution.mode,
        readable(p, "pbs_noise_lwe::raw_0") && seen(p, s, "pbs_noise_lwe::raw_0")
            == p.pbs_params.lwe_noise_distribution.raw_0,
        readable(p, "pbs_noise_lwe::raw_1") && seen(p, s, "pbs_noise_lwe::raw_1")
            == p.pbs_params.lwe_noise_distribution.raw_1,
        readable(p, "pbs_noise_glwe::mode") && seen(p, s, "pbs_noise_glwe::mode")
            == p.pbs_params.glwe_noise_distribution.mode,
        readable(p, "pbs_noise_glwe::raw_0") && seen(p, s, "pbs_noise_glwe::raw_0")
            == p.pbs_params.glwe_noise_distribution.raw_0,
        readable(p, "pbs_noise_glwe::raw_1") && seen(p, s, "pbs_noise_glwe::raw_1")
            == p.pbs_params.glwe_noise_distribution.raw_1,
        p.pc_params.ksk_bytes_w * 8 <= u32::MAX ==> readable(p, "info::hbm_axi4_dataw_ksk")
            && seen(p, s, "info::hbm_axi4_dataw_ksk") == p.pc_params.ksk_bytes_w * 8,
        p.pc_params.bsk_bytes_w * 8 <= u32::MAX ==> readable(p, "info::hbm_axi4_dataw_bsk")
            && seen(p, s, "info::hbm_axi4_dataw_bsk") == p.pc_params.bsk_bytes_w * 8,
        p.pc_params.pem_bytes_w * 8 <= u32::MAX ==> readable(p, "info::hbm_axi4_dataw_pem")
            && seen(p, s, "info::hbm_axi4_dataw_pem") == p.pc_params.pem_bytes_w * 8,
        p.pc_params.glwe_bytes_w * 8 <= u32::MAX ==> readable(p, "info::hbm_axi4_dataw_glwe")
            && seen(p, s, "info::hbm_axi4_dataw_glwe") == p.pc_params.glwe_bytes_w * 8,
{
    registers_have_their_names();
}

/// Widths of the cuts as the digits of a number in base sixteen, from one of them on.
pub open spec fn cut_digits(cuts: Seq<u8>, j: int) -> int
    decreases cuts.len() - j,
{
    if j < 0 || j >= cuts.len() {
        0
    } else {
        cuts[j] + 16 * cut_digits(cuts, j + 1)
    }
}

proof fn lemma_cut_digits(cuts: Seq<u8>, n: int)
    requires
        0 <= n <= cuts.len() <= 8,
        forall|i: int| 0 <= i < cuts.len() ==> (#[trigger] cuts[i]) < 16,
    ensures
        packed_cuts(cuts, n) + pow2((4 * n) as nat) * cut_digits(cuts, n) == cut_digits(cuts, 0),
        0 <= packed_cuts(cuts, n) < pow2((4 * n) as nat),
    decreases n,
{
    lemma2_to64();
    if n == 0 {
        assert(pow2(0) * cut_digits(cuts, 0) == cut_digits(cuts, 0)) by (nonlinear_arith)
            requires
                pow2(0) == 1,
        ;
    } else {
        lemma_cut_digits(cuts, n - 1);
        let k = (4 * (n - 1)) as nat;
        let (w, c, rest) = (pow2(k) as int, cuts[n - 1] as int, cut_digits(cuts, n));
        lemma_pow2_adds(k, 4);
        lemma_pow2_pos(k);
        assert(c * w < 16 * w && 0 <= c * w <= 15 * w) by (nonlinear_arith)
            requires
                0 <= c <= 15,
                w > 0,
        ;
        assert(w <= 0x1000_0000) by {
            if k < 28 {
                vstd::arithmetic::power2::lemma_pow2_strictly_increases(k, 28);
            }
        }
        lemma_u32_shl_is_mul(cuts[n - 1] as u32, k as u32);
        assert(w * (c + 16 * rest) == c * w + (w * 16) * rest) by (nonlinear_arith);
    }
}

/// The host reads the cuts of the transform as the hexadecimal digits of a word, the first one
/// in the lowest digit, or the stages of a pass where the core has no cut.
pub proof fn host_reads_the_cuts(p: HpuParameters, s: RegmapView)
    ensures
        match p.ntt_params.core_arch {
            HpuNttCoreArch::GF64(cuts) => cuts@.len() <= 8 && (forall|i: int|
                0 <= i < cuts@.len() ==> (#[trigger] cuts@[i]) < 16) ==> readable(
                p,
                "info::ntt_rdx_cut",
            ) && seen(p, s, "info::ntt_rdx_cut") == cut_digits(cuts@, 0),
            _ => p.ntt_params.delta < 16 ==> readable(p, "info::ntt_rdx_cut") && seen(
                p,
                s,
                "info::ntt_rdx_cut",
            ) == p.ntt_params.delta,
        },
{
    registers_have_their_names();
    let cuts = super::unit::cuts(p);
    if cuts.len() <= 8 && (forall|i: int| 0 <= i < cuts.len() ==> (#[trigger] cuts[i]) < 16) {
        let n = cuts.len() as int;
        lemma_cut_digits(cuts, n);
        lemma2_to64();
        assert(pow2((4 * n) as nat) * cut_digits(cuts, n) == 0) by (nonlinear_arith)
            requires
                cut_digits(cuts, n) == 0,
        ;
        if n < 8 {
            vstd::arithmetic::power2::lemma_pow2_strictly_increases((4 * n) as nat, 32);
        }
        reveal_with_fuel(cut_digits, 3);
        assert(packed_cuts(cuts, n) <= u32::MAX);
    }
}

/// The host reads the code of the application whose parameters the board has, and 1 for
/// parameters that no application has.
pub proof fn host_reads_the_application(p: HpuParameters, s: RegmapView)
    ensures
        readable(p, "info::application"),
        p.pbs_params == concrete_boolean() ==> seen(p, s, "info::application") == 0x700,
        p.pbs_params == msg2_carry2() ==> seen(p, s, "info::application") == 0x701,
        p.pbs_params == msg2_carry2_64b() ==> seen(p, s, "info::application") == 0x703,
        p.pbs_params == msg2_carry2_44b() ==> seen(p, s, "info::application") == 0x704,
        p.pbs_params == msg2_carry2_64b_fake() ==> seen(p, s, "info::application") == 0x709,
        p.pbs_params == msg2_carry2_gaussian() ==> seen(p, s, "info::application") == 0x70a,
        p.pbs_params == msg2_carry2_tuniform() ==> seen(p, s, "info::application") == 0x70b,
        p.pbs_params == msg2_carry2_pfail64() ==> seen(p, s, "info::application") == 0x70c,
        p.pbs_params != concrete_boolean() && p.pbs_params != msg2_carry2()
            && p.pbs_params != msg2_carry2_64b()
            && p.pbs_params != msg2_carry2_44b()
            && p.pbs_params != msg2_carry2_64b_fake()
            && p.pbs_params != msg2_carry2_gaussian()
            && p.pbs_params != msg2_carry2_tuniform()
            && p.pbs_params != msg2_carry2_pfail64()
            ==> seen(p, s, "info::application") == 1,
{
    registers_have_their_names();
    lemma_applications(p.pbs_params);
}

#[verifier::rlimit(50)]
proof fn lemma_applications(pbs: HpuPBSParameters)
    ensures
        pbs == concrete_boolean() ==> application_value(pbs, known_applications()) == 0x700,
        pbs == msg2_carry2() ==> application_value(pbs, known_applications()) == 0x701,
        pbs == msg2_carry2_64b() ==> application_value(pbs, known_applications()) == 0x703,
        pbs == msg2_carry2_44b() ==> application_value(pbs, known_applications()) == 0x704,
        pbs == msg2_carry2_64b_fake() ==> application_value(pbs, known_applications()) == 0x709,
        pbs == msg2_carry2_gaussian() ==> application_value(pbs, known_applications()) == 0x70a,
        pbs == msg2_carry2_tuniform() ==> application_value(pbs, known_applications()) == 0x70b,
        pbs == msg2_carry2_pfail64() ==> application_value(pbs, known_applications()) == 0x70c,
        pbs != concrete_boolean() && pbs != msg2_carry2()
            && pbs != msg2_carry2_64b()
            && pbs != msg2_carry2_44b()
            && pbs != msg2_carry2_64b_fake()
            && pbs != msg2_carry2_gaussian()
            && pbs != msg2_carry2_tuniform()
            && pbs != msg2_carry2_pfail64()
            ==> application_value(pbs, known_applications()) == 1,
{
    reveal_with_fuel(application_value, 9);
    let all = known_applications();
    assert(all.drop_first() =~= all.skip(1));
    assert(all.drop_first().drop_first() =~= all.skip(2));
    assert(all.drop_first().drop_first().drop_first() =~= all.skip(3));
    assert(all.drop_first().drop_first().drop_first().drop_first() =~= all.skip(4));
    assert(all.drop_first().drop_first().drop_first().drop_first().drop_first() =~= all.skip(5));
    assert(all.drop_first().drop_first().drop_first().drop_first().drop_first().drop_first() =~= all.skip(6));
    assert(all.drop_first().drop_first().drop_first().drop_first().drop_first().drop_first().drop_first() =~= all.skip(7));
    assert(all.drop_first().drop_first().drop_first().drop_first().drop_first().drop_first().drop_first().drop_first() =~= all.skip(8));
}

/// The state of the keys and of the batches is read under their own names.
pub proof fn host_reads_the_state(p: HpuParameters, s: RegmapView)
    ensures
        seen(p, s, "bsk_avail::avail") == (if s.bsk.avail {
            1int
        } else {
            0
        }),
        seen(p, s, "ksk_avail::avail") == (if s.ksk.avail {
            1int
        } else {
            0
        }),
        seen(p, s, "bsk_avail::reset") == (if s.bsk.rst_pdg {
            0x8000_0000int
        } else {
            0
        }),
        seen(p, s, "ksk_avail::reset") == (if s.ksk.rst_pdg {
            0x8000_0000int
        } else {
            0
        }),
        seen(p, s, "bpip::use") % 2 == (if s.bpip.used {
            1int
        } else {
            0
        }),
        seen(p, s, "bpip::use") / 2 == (if s.bpip.use_opportunism {
            1int
        } else {
            0
        }),
        seen(p, s, "bpip::timeout") == s.bpip.timeout,
{
    registers_have_their_names();
}

/// A board that was reset has no key, no batch and null offsets.
pub proof fn reset_board_reads_zero(p: HpuParameters, s: RegmapView, reg: Register)
    requires
        s.reset(),
        reg.wf(),
        reg is BskAvail || reg is BskReset || reg is KskAvail || reg is KskReset || reg is BpipUse
            || reg is BpipTimeout || reg is CtAddr || reg is BskAddr || reg is KskAddr
            || reg is LutAddr || reg is TraceAddr,
    ensures
        read_value(p, s, reg) == 0,
{
}

/// A write with its low bit set under the name of a reset resets this key, and no other write
/// resets a key. What tells of the board cannot be written.
pub proof fn resets_are_asked_by_name(s: RegmapView, name: Seq<char>, value: u32)
    ensures
        write_event(named("bsk_avail::reset"@), value) == (if value % 2 == 1 {
            Some(KeyReset::Bsk)
        } else {
            None
        }),
        write_event(named("ksk_avail::reset"@), value) == (if value % 2 == 1 {
            Some(KeyReset::Ksk)
        } else {
            None
        }),
        write_event(named(name), value) is Some ==> name == "bsk_avail::reset"@ || name
            == "ksk_avail::reset"@,
        !(named(name) is BskAvail || named(name) is BskReset || named(name) is KskAvail || named(
            name,
        ) is KskReset || named(name) is BpipUse || named(name) is BpipTimeout || named(name)
            is CtAddr || named(name) is BskAddr || named(name) is KskAddr || named(name) is LutAddr
            || named(name) is TraceAddr) ==> write_state(s, named(name), value) == s,
{
    registers_have_their_names();
    assert(value & 1 == value % 2) by (bit_vector);
}

/// A register that the model does not hold reads as zero, and nothing happens when it is
/// accessed.
pub proof fn unknown_registers_read_zero(p: HpuParameters, s: RegmapView, name: &str, value: u32)
    requires
        named(name@) is Unhooked,
    ensures
        readable(p, name),
        seen(p, s, name) == 0,
        read_state(s, named(name@)) == s,
        write_state(s, named(name@), value) == s,
        write_event(named(name@), value) is None,
{
}

/// The two words of an address are written apart: the one whose name ends in `msb` is the upper
/// half, the other one the lower half, and a write of one leaves the other as it is.
pub proof fn halves_are_written_apart(s: RegmapView, pc: u8, value: u32)
    requires
        s.wf(),
        pc < 16,
    ensures
        ({
            let set = |name: &str| write_state(s, named(name@), value);
            &&& set("hbm_axi4_addr_1in3::glwe_pc0_msb").lut_addr == (AddrPair {
                msb: value,
                lsb: s.lut_addr.lsb,
            })
            &&& set("hbm_axi4_addr_1in3::glwe_pc0_lsb").lut_addr == (AddrPair {
                msb: s.lut_addr.msb,
                lsb: value,
            })
            &&& set("hbm_axi4_addr_1in3::trc_pc0_msb").trace_addr == (AddrPair {
                msb: value,
                lsb: s.trace_addr.lsb,
            })
            &&& set("hbm_axi4_addr_1in3::trc_pc0_lsb").trace_addr == (AddrPair {
                msb: s.trace_addr.msb,
                lsb: value,
            })
        }),
        ({
            let set = |reg: Register| write_state(s, reg, value);
            let i = pc as int;
            &&& set(Register::BskAddr { pc, half: Half::Msb }).bsk_addr[i].msb == value
            &&& set(Register::BskAddr { pc, half: Half::Lsb }).bsk_addr[i].lsb == value
            &&& set(Register::BskAddr { pc, half: Half::Msb }).bsk_addr[i].lsb == s.bsk_addr[i].lsb
            &&& set(Register::KskAddr { pc, half: Half::Msb }).ksk_addr[i].msb == value
            &&& set(Register::KskAddr { pc, half: Half::Lsb }).ksk_addr[i].lsb == value
            &&& set(Register::KskAddr { pc, half: Half::Msb }).ksk_addr[i].lsb == s.ksk_addr[i].lsb
            &&& pc < 2 ==> set(Register::CtAddr { pc, half: Half::Msb }).ct_addr[i].msb == value
            &&& pc < 2 ==> set(Register::CtAddr { pc, half: Half::Lsb }).ct_addr[i].lsb == value
        }),
{
    registers_have_their_names();
}

/// The accesses that reach the registers are the reads and the writes of one word of thirty-two
/// bits at a physical address.
pub proof fn words_reach_the_registers(req: Request)
    ensures
        reaches(req) ==> req.addr is Some && req.size_b is Some && 8 * req.size_b->0 == 32
            && req.cmd != Command::Other,
        req.addr is Some && req.size_b == Some((u32::BITS / 8) as usize) && (req.cmd
            == Command::Read || req.cmd == Command::Write) ==> reaches(req),
{
}

} // verus!
