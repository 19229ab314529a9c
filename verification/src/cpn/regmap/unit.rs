//! Behaviour of the registers.
use vstd::prelude::*;

use super::preset::{known_applications, presets};
use super::register::{named, Half, Register};
use crate::params::hpu::{HpuNttCoreArch, HpuNttPrime, HpuPBSParameters, HpuParameters};

verus! {

/// First code of the core architectures.
pub const NTT_CORE_ARCH_OFS: u32 = 0x500;

/// First code of the primes.
pub const MOD_NTT_NAME_OFS: u32 = 0x600;

/// First code of the applications.
pub const APPLICATION_NAME_OFS: u32 = 0x700;

/// Memory channels of the ciphertexts.
pub const MEM_CT_PC_MAX: usize = 2;

/// Memory channels of the bootstrapping key.
pub const HBM_BSK_PC_MAX: usize = 16;

/// Memory channels of the keyswitching key.
pub const HBM_KSK_PC_MAX: usize = 16;

/// State of a key.
#[derive(Clone, Copy, Debug, PartialEq, Eq, Structural)]
pub struct KeyState {
    pub avail: bool,
    pub rst_pdg: bool,
}

/// Configuration of the batches.
#[derive(Clone, Copy, Debug, PartialEq, Eq, Structural)]
pub struct BpipState {
    pub used: bool,
    pub use_opportunism: bool,
    pub timeout: u32,
}

/// Memory offset.
#[derive(Clone, Copy, Debug, PartialEq, Eq, Structural)]
pub struct AddrPair {
    pub msb: u32,
    pub lsb: u32,
}

impl AddrPair {
    /// One half of the offset.
    pub open spec fn part(self, half: Half) -> u32 {
        match half {
            Half::Msb => self.msb,
            Half::Lsb => self.lsb,
        }
    }

    /// The offset with one half replaced.
    pub open spec fn with_part(self, half: Half, value: u32) -> AddrPair {
        match half {
            Half::Msb => AddrPair { msb: value, ..self },
            Half::Lsb => AddrPair { lsb: value, ..self },
        }
    }

    fn get(&self, half: Half) -> (r: u32)
        ensures
            r == self.part(half),
    {
        match half {
            Half::Msb => self.msb,
            Half::Lsb => self.lsb,
        }
    }

    fn replaced(&self, half: Half, value: u32) -> (r: AddrPair)
        ensures
            r == self.with_part(half, value),
    {
        match half {
            Half::Msb => AddrPair { msb: value, lsb: self.lsb },
            Half::Lsb => AddrPair { msb: self.msb, lsb: value },
        }
    }
}

/// Memory offsets.
pub struct AddrOffset {
    pub bsk: Vec<AddrPair>,
    pub ksk: Vec<AddrPair>,
    pub lut: AddrPair,
    pub ldst: Vec<AddrPair>,
    pub trace: AddrPair,
}

/// State of the registers.
pub struct RegmapInner {
    pub bsk: KeyState,
    pub ksk: KeyState,
    pub bpip: BpipState,
    pub addr_ofst: AddrOffset,
}

/// Abstract state of the registers.
#[verifier::ext_equal]
pub struct RegmapView {
    pub bsk: KeyState,
    pub ksk: KeyState,
    pub bpip: BpipState,
    pub bsk_addr: Seq<AddrPair>,
    pub ksk_addr: Seq<AddrPair>,
    pub lut_addr: AddrPair,
    pub ct_addr: Seq<AddrPair>,
    pub trace_addr: AddrPair,
}

impl View for RegmapInner {
    type V = RegmapView;

    open spec fn view(&self) -> RegmapView {
        RegmapView {
            bsk: self.bsk,
            ksk: self.ksk,
            bpip: self.bpip,
            bsk_addr: self.addr_ofst.bsk@,
            ksk_addr: self.addr_ofst.ksk@,
            lut_addr: self.addr_ofst.lut,
            ct_addr: self.addr_ofst.ldst@,
            trace_addr: self.addr_ofst.trace,
        }
    }
}

impl RegmapView {
    pub open spec fn wf(self) -> bool {
        &&& self.bsk_addr.len() == 16
        &&& self.ksk_addr.len() == 16
        &&& self.ct_addr.len() == 2
    }

    /// Registers after a reset: no key is available and all offsets are null.
    pub open spec fn reset(self) -> bool {
        let zero = AddrPair { msb: 0, lsb: 0 };
        &&& self.wf()
        &&& self.bsk == (KeyState { avail: false, rst_pdg: false })
        &&& self.ksk == (KeyState { avail: false, rst_pdg: false })
        &&& self.bpip == (BpipState { used: false, use_opportunism: false, timeout: 0 })
        &&& forall|i: int| 0 <= i < 16 ==> #[trigger] self.bsk_addr[i] == zero
        &&& forall|i: int| 0 <= i < 16 ==> #[trigger] self.ksk_addr[i] == zero
        &&& forall|i: int| 0 <= i < 2 ==> #[trigger] self.ct_addr[i] == zero
        &&& self.lut_addr == zero
        &&& self.trace_addr == zero
    }
}

impl RegmapInner {
    /// Registers after a reset: no key is available and all offsets are null.
    pub fn new() -> (r: RegmapInner)
        ensures
            r@.reset(),
    {
        let zero = AddrPair { msb: 0, lsb: 0 };
        RegmapInner {
            bsk: KeyState { avail: false, rst_pdg: false },
            ksk: KeyState { avail: false, rst_pdg: false },
            bpip: BpipState { used: false, use_opportunism: false, timeout: 0 },
            addr_ofst: AddrOffset {
                bsk: vec![zero; 16],
                ksk: vec![zero; 16],
                lut: zero,
                ldst: vec![zero; 2],
                trace: zero,
            },
        }
    }
}

/// Value of the application register, from the parameter sets of the known
/// applications: the code of the first one that is in use, or 1 for none.
pub open spec fn application_value(pbs: HpuPBSParameters, presets: Seq<(u32, HpuPBSParameters)>) -> u32
    decreases presets.len(),
{
    if presets.len() == 0 {
        1
    } else if presets[0].1 == pbs {
        (APPLICATION_NAME_OFS + presets[0].0) as u32
    } else {
        application_value(pbs, presets.drop_first())
    }
}

/// Value of the application register, from the parameter sets of the known
/// applications.
pub fn application_code(pbs: &HpuPBSParameters, presets: &Vec<(u32, HpuPBSParameters)>) -> (r: u32)
    requires
        forall|i: int| 0 <= i < presets@.len() ==> (#[trigger] presets@[i]).0 <= 0xff,
    ensures
        r == application_value(*pbs, presets@),
{
    assert(presets@.skip(0) =~= presets@);
    for i in 0..presets.len()
        invariant
            forall|i: int| 0 <= i < presets@.len() ==> (#[trigger] presets@[i]).0 <= 0xff,
            application_value(*pbs, presets@) == application_value(*pbs, presets@.skip(i as int)),
    {
        assert(presets@.skip(i as int)[0] == presets@[i as int]);
        assert(presets@.skip(i as int).drop_first() =~= presets@.skip(i + 1));
        if presets[i].1 == *pbs {
            return APPLICATION_NAME_OFS + presets[i].0;
        }
    }
    1
}

/// Value of the application register.
pub fn application(pbs: &HpuPBSParameters) -> (r: u32)
    ensures
        r == application_value(*pbs, known_applications()),
{
    application_code(pbs, &presets())
}

/// Widths of the cuts of the number theoretic transform.
pub open spec fn cuts(p: HpuParameters) -> Seq<u8> {
    match p.ntt_params.core_arch {
        HpuNttCoreArch::GF64(cut_w) => cut_w@,
        _ => seq![p.ntt_params.delta as u8],
    }
}

/// Sum of the first `n` cut widths, each shifted by four bits more than the previous one.
pub open spec fn packed_cuts(cuts: Seq<u8>, n: int) -> int
    decreases n,
{
    if n <= 0 {
        0
    } else {
        packed_cuts(cuts, n - 1) + ((cuts[n - 1] as u32) << ((n - 1) * 4))
    }
}

/// Fields of a register placed side by side.
pub open spec fn fields2(a: usize, b: usize) -> int {
    a + (b << 8)
}

/// Fields of a register placed side by side.
pub open spec fn fields3(a: usize, b: usize, c: usize, c_shift: usize) -> int {
    a + (b << 8) + (c << c_shift)
}

/// Code of a prime.
pub open spec fn prime_code(prime: HpuNttPrime) -> u32 {
    match prime {
        HpuNttPrime::GF64 => 0,
        HpuNttPrime::Solinas3_32_17_13 => 1,
        HpuNttPrime::Solinas2_44_14 => 2,
    }
}

/// Bytes written as a number of bits.
pub open spec fn bits_w(bytes_w: usize) -> int {
    (bytes_w as u32) * 8
}

/// The value of a register fits in machine integers.
pub open spec fn read_ok(p: HpuParameters, reg: Register) -> bool {
    let ntt = p.ntt_params;
    let ks = p.ks_params;
    let pc = p.pc_params;
    match reg {
        Register::NttStructure => fields3(ntt.radix, ntt.psi, ntt.delta, 24) <= usize::MAX,
        Register::NttRdxCut => cuts(p).len() <= 8 && packed_cuts(cuts(p), cuts(p).len() as int)
            <= u32::MAX,
        Register::NttPbs => fields2(ntt.batch_pbs_nb, ntt.total_pbs_nb) <= usize::MAX,
        Register::KsStructure => fields3(ks.lbx, ks.lby, ks.lbz, 16) <= usize::MAX,
        Register::KsCryptoParam => fields3(
            ks.width,
            p.pbs_params.ks_level,
            p.pbs_params.ks_base_log,
            16,
        ) <= usize::MAX,
        Register::HbmAxi4Nb => fields3(pc.bsk_pc, pc.ksk_pc, pc.pem_pc, 16) <= usize::MAX,
        Register::HbmDatawKsk => bits_w(pc.ksk_bytes_w) <= u32::MAX,
        Register::HbmDatawBsk => bits_w(pc.bsk_bytes_w) <= u32::MAX,
        Register::HbmDatawPem => bits_w(pc.pem_bytes_w) <= u32::MAX,
        Register::HbmDatawGlwe => bits_w(pc.glwe_bytes_w) <= u32::MAX,
        Register::RegfStructure => fields2(p.regf_params.reg_nb, p.regf_params.coef_nb)
            <= usize::MAX,
        Register::IscStructure => fields2(p.isc_params.depth, p.isc_params.min_iop_size)
            <= usize::MAX,
        _ => true,
    }
}

/// Value of a register.
pub open spec fn read_value(p: HpuParameters, s: RegmapView, reg: Register) -> u32 {
    let ntt = p.ntt_params;
    let ks = p.ks_params;
    let pc = p.pc_params;
    match reg {
        Register::NttStructure => fields3(ntt.radix, ntt.psi, ntt.delta, 24) as u32,
        Register::NttRdxCut => packed_cuts(cuts(p), cuts(p).len() as int) as u32,
        Register::NttArchitecture => match ntt.core_arch {
            HpuNttCoreArch::GF64(_) => (NTT_CORE_ARCH_OFS + 5) as u32,
            _ => (NTT_CORE_ARCH_OFS + 4) as u32,
        },
        Register::NttPbs => fields2(ntt.batch_pbs_nb, ntt.total_pbs_nb) as u32,
        Register::NttModulo => (MOD_NTT_NAME_OFS + prime_code(ntt.prime_modulus)) as u32,
        Register::Application => application_value(p.pbs_params, known_applications()),
        Register::KsStructure => fields3(ks.lbx, ks.lby, ks.lbz, 16) as u32,
        Register::KsCryptoParam => fields3(
            ks.width,
            p.pbs_params.ks_level,
            p.pbs_params.ks_base_log,
            16,
        ) as u32,
        Register::HbmAxi4Nb => fields3(pc.bsk_pc, pc.ksk_pc, pc.pem_pc, 16) as u32,
        Register::HbmDatawKsk => bits_w(pc.ksk_bytes_w) as u32,
        Register::HbmDatawBsk => bits_w(pc.bsk_bytes_w) as u32,
        Register::HbmDatawPem => bits_w(pc.pem_bytes_w) as u32,
        Register::HbmDatawGlwe => bits_w(pc.glwe_bytes_w) as u32,
        Register::RegfStructure => fields2(p.regf_params.reg_nb, p.regf_params.coef_nb) as u32,
        Register::IscStructure => fields2(p.isc_params.depth, p.isc_params.min_iop_size) as u32,
        Register::BskAvail => s.bsk.avail as u32,
        Register::BskReset => if s.bsk.rst_pdg { 0x8000_0000 } else { 0 },
        Register::KskAvail => s.ksk.avail as u32,
        Register::KskReset => if s.ksk.rst_pdg { 0x8000_0000 } else { 0 },
        Register::BpipUse => (s.bpip.used as u32 + 2 * (s.bpip.use_opportunism as u32)) as u32,
        Register::BpipTimeout => s.bpip.timeout,
        Register::CtAddr { pc, half } => s.ct_addr[pc as int].part(half),
        Register::BskAddr { pc, half } => s.bsk_addr[pc as int].part(half),
        Register::KskAddr { pc, half } => s.ksk_addr[pc as int].part(half),
        Register::LutAddr { half } => s.lut_addr.part(half),
        Register::TraceAddr { half } => s.trace_addr.part(half),
        Register::LweDimension => p.pbs_params.lwe_dimension as u32,
        Register::GlweDimension => p.pbs_params.glwe_dimension as u32,
        Register::PolynomialSize => p.pbs_params.polynomial_size as u32,
        Register::PbsBaseLog => p.pbs_params.pbs_base_log as u32,
        Register::PbsLevel => p.pbs_params.pbs_level as u32,
        Register::KsBaseLog => p.pbs_params.ks_base_log as u32,
        Register::KsLevel => p.pbs_params.ks_level as u32,
        Register::MessageWidth => p.pbs_params.message_width as u32,
        Register::CarryWidth => p.pbs_params.carry_width as u32,
        Register::CiphertextWidth => p.pbs_params.ciphertext_width as u32,
        Register::NoiseLweMode => p.pbs_params.lwe_noise_distribution.mode,
        Register::NoiseLweRaw0 => p.pbs_params.lwe_noise_distribution.raw_0,
        Register::NoiseLweRaw1 => p.pbs_params.lwe_noise_distribution.raw_1,
        Register::NoiseGlweMode => p.pbs_params.glwe_noise_distribution.mode,
        Register::NoiseGlweRaw0 => p.pbs_params.glwe_noise_distribution.raw_0,
        Register::NoiseGlweRaw1 => p.pbs_params.glwe_noise_distribution.raw_1,
        Register::Unhooked => 0,
    }
}

/// State after a read: the end of a reset is reported once.
pub open spec fn read_state(s: RegmapView, reg: Register) -> RegmapView {
    match reg {
        Register::BskReset => RegmapView { bsk: KeyState { rst_pdg: false, ..s.bsk }, ..s },
        Register::KskReset => RegmapView { ksk: KeyState { rst_pdg: false, ..s.ksk }, ..s },
        _ => s,
    }
}

/// State after a write. Registers that are not writable are left as they are.
pub open spec fn write_state(s: RegmapView, reg: Register, value: u32) -> RegmapView {
    let set = value & 1 == 1;
    match reg {
        Register::BskAvail => RegmapView { bsk: KeyState { avail: set, ..s.bsk }, ..s },
        Register::BskReset => if set {
            RegmapView { bsk: KeyState { avail: false, rst_pdg: true }, ..s }
        } else {
            s
        },
        Register::KskAvail => RegmapView { ksk: KeyState { avail: set, ..s.ksk }, ..s },
        Register::KskReset => if set {
            RegmapView { ksk: KeyState { avail: false, rst_pdg: true }, ..s }
        } else {
            s
        },
        Register::BpipUse => RegmapView {
            bpip: BpipState { used: set, use_opportunism: value & 2 == 2, ..s.bpip },
            ..s
        },
        Register::BpipTimeout => RegmapView { bpip: BpipState { timeout: value, ..s.bpip }, ..s },
        Register::CtAddr { pc, half } => RegmapView {
            ct_addr: s.ct_addr.update(
                pc as int,
                s.ct_addr[pc as int].with_part(half, value),
            ),
            ..s
        },
        Register::BskAddr { pc, half } => RegmapView {
            bsk_addr: s.bsk_addr.update(
                pc as int,
                s.bsk_addr[pc as int].with_part(half, value),
            ),
            ..s
        },
        Register::KskAddr { pc, half } => RegmapView {
            ksk_addr: s.ksk_addr.update(
                pc as int,
                s.ksk_addr[pc as int].with_part(half, value),
            ),
            ..s
        },
        Register::LutAddr { half } => RegmapView {
            lut_addr: s.lut_addr.with_part(half, value),
            ..s
        },
        Register::TraceAddr { half } => RegmapView {
            trace_addr: s.trace_addr.with_part(half, value),
            ..s
        },
        _ => s,
    }
}

/// Event raised by a write.
#[derive(Clone, Copy, Debug, PartialEq, Eq, Structural)]
pub enum KeyReset {
    Bsk,
    Ksk,
}

/// Event raised by a write: the reset of a key.
pub open spec fn write_event(reg: Register, value: u32) -> Option<KeyReset> {
    if value & 1 == 1 {
        match reg {
            Register::BskReset => Some(KeyReset::Bsk),
            Register::KskReset => Some(KeyReset::Ksk),
            _ => None,
        }
    } else {
        None
    }
}

fn join2(a: usize, b: usize) -> (r: u32)
    requires
        fields2(a, b) <= usize::MAX,
    ensures
        r == fields2(a, b) as u32,
{
    (a + (b << 8)) as u32
}

fn join3(a: usize, b: usize, c: usize, c_shift: usize) -> (r: u32)
    requires
        fields3(a, b, c, c_shift) <= usize::MAX,
        c_shift < 32,
    ensures
        r == fields3(a, b, c, c_shift) as u32,
{
    (a + (b << 8) + (c << c_shift)) as u32
}

fn width_in_bits(bytes_w: usize) -> (r: u32)
    requires
        bits_w(bytes_w) <= u32::MAX,
    ensures
        r == bits_w(bytes_w) as u32,
{
    bytes_w as u32 * 8
}

proof fn lemma_packed_cuts_grow(cuts: Seq<u8>, n: int, m: int)
    requires
        n <= m,
    ensures
        packed_cuts(cuts, n) <= packed_cuts(cuts, m),
    decreases m - n,
{
    if n < m {
        lemma_packed_cuts_grow(cuts, n, m - 1);
    }
}

fn pack_cuts(cut_w: &Vec<u8>) -> (r: u32)
    requires
        cut_w@.len() <= 8,
        packed_cuts(cut_w@, cut_w@.len() as int) <= u32::MAX,
    ensures
        r == packed_cuts(cut_w@, cut_w@.len() as int),
{
    let mut acc: u32 = 0;
    for id in 0..cut_w.len()
        invariant
            cut_w@.len() <= 8,
            packed_cuts(cut_w@, cut_w@.len() as int) <= u32::MAX,
            acc == packed_cuts(cut_w@, id as int),
    {
        proof {
            lemma_packed_cuts_grow(cut_w@, id + 1, cut_w@.len() as int);
        }
        acc = acc + ((cut_w[id] as u32) << (id * 4));
    }
    acc
}

fn fit2(a: usize, b: usize) -> (r: bool)
    ensures
        r == (fields2(a, b) <= usize::MAX),
{
    a.checked_add(b << 8).is_some()
}

fn fit3(a: usize, b: usize, c: usize, c_shift: usize) -> (r: bool)
    requires
        c_shift < 32,
    ensures
        r == (fields3(a, b, c, c_shift) <= usize::MAX),
{
    match a.checked_add(b << 8) {
        Some(low) => low.checked_add(c << c_shift).is_some(),
        None => false,
    }
}

fn width_fits(bytes_w: usize) -> (r: bool)
    ensures
        r == (bits_w(bytes_w) <= u32::MAX),
{
    bytes_w as u32 <= 0x1fff_ffff
}

fn cuts_fit(cut_w: &Vec<u8>) -> (r: bool)
    ensures
        r == (cut_w@.len() <= 8 && packed_cuts(cut_w@, cut_w@.len() as int) <= u32::MAX),
{
    if cut_w.len() > 8 {
        return false;
    }
    let mut acc: u32 = 0;
    for id in 0..cut_w.len()
        invariant
            cut_w@.len() <= 8,
            acc == packed_cuts(cut_w@, id as int),
    {
        proof {
            lemma_packed_cuts_grow(cut_w@, id + 1, cut_w@.len() as int);
        }
        match acc.checked_add((cut_w[id] as u32) << (id * 4)) {
            Some(next) => {
                acc = next;
            },
            None => {
                return false;
            },
        }
    }
    true
}

/// Whether the value of a register fits in machine integers.
fn is_readable(p: &HpuParameters, reg: Register) -> (r: bool)
    ensures
        r == read_ok(*p, reg),
{
    let pbs = &p.pbs_params;
    let ntt = &p.ntt_params;
    let ks = &p.ks_params;
    let pc = &p.pc_params;
    match reg {
        Register::NttStructure => fit3(ntt.radix, ntt.psi, ntt.delta, 24),
        Register::NttRdxCut => match &ntt.core_arch {
            HpuNttCoreArch::GF64(cut_w) => cuts_fit(cut_w),
            _ => {
                let single: Vec<u8> = vec![ntt.delta as u8];
                assert(single@ =~= cuts(*p));
                cuts_fit(&single)
            },
        },
        Register::NttPbs => fit2(ntt.batch_pbs_nb, ntt.total_pbs_nb),
        Register::KsStructure => fit3(ks.lbx, ks.lby, ks.lbz, 16),
        Register::KsCryptoParam => fit3(ks.width, pbs.ks_level, pbs.ks_base_log, 16),
        Register::HbmAxi4Nb => fit3(pc.bsk_pc, pc.ksk_pc, pc.pem_pc, 16),
        Register::HbmDatawKsk => width_fits(pc.ksk_bytes_w),
        Register::HbmDatawBsk => width_fits(pc.bsk_bytes_w),
        Register::HbmDatawPem => width_fits(pc.pem_bytes_w),
        Register::HbmDatawGlwe => width_fits(pc.glwe_bytes_w),
        Register::RegfStructure => fit2(p.regf_params.reg_nb, p.regf_params.coef_nb),
        Register::IscStructure => fit2(p.isc_params.depth, p.isc_params.min_iop_size),
        _ => true,
    }
}

impl RegmapInner {
    /// Reads a register.
    pub fn read(&mut self, rtl: &HpuParameters, reg: Register) -> (r: u32)
        requires
            old(self)@.wf(),
            reg.wf(),
            read_ok(*rtl, reg),
        ensures
            final(self)@.wf(),
            final(self)@ == read_state(old(self)@, reg),
            r == read_value(*rtl, old(self)@, reg),
    {
        let ntt = &rtl.ntt_params;
        let ks = &rtl.ks_params;
        let pc_p = &rtl.pc_params;
        match reg {
            Register::NttStructure => join3(ntt.radix, ntt.psi, ntt.delta, 24),
            Register::NttRdxCut => match &ntt.core_arch {
                HpuNttCoreArch::GF64(cut_w) => pack_cuts(cut_w),
                _ => {
                    let cut_w: Vec<u8> = vec![ntt.delta as u8];
                    assert(cut_w@ =~= cuts(*rtl));
                    pack_cuts(&cut_w)
                },
            },
            Register::NttArchitecture => match &ntt.core_arch {
                HpuNttCoreArch::WmmCompactPcg => NTT_CORE_ARCH_OFS + 4,
                HpuNttCoreArch::WmmUnfoldPcg => NTT_CORE_ARCH_OFS + 4,
                HpuNttCoreArch::GF64(_) => NTT_CORE_ARCH_OFS + 5,
            },
            Register::NttPbs => join2(ntt.batch_pbs_nb, ntt.total_pbs_nb),
            Register::NttModulo => match ntt.prime_modulus {
                HpuNttPrime::GF64 => MOD_NTT_NAME_OFS,
                HpuNttPrime::Solinas3_32_17_13 => MOD_NTT_NAME_OFS + 1,
                HpuNttPrime::Solinas2_44_14 => MOD_NTT_NAME_OFS + 2,
            },
            Register::Application => application(&rtl.pbs_params),
            Register::KsStructure => join3(ks.lbx, ks.lby, ks.lbz, 16),
            Register::KsCryptoParam => join3(
                ks.width,
                rtl.pbs_params.ks_level,
                rtl.pbs_params.ks_base_log,
                16,
            ),
            Register::HbmAxi4Nb => join3(pc_p.bsk_pc, pc_p.ksk_pc, pc_p.pem_pc, 16),
            Register::HbmDatawKsk => width_in_bits(pc_p.ksk_bytes_w),
            Register::HbmDatawBsk => width_in_bits(pc_p.bsk_bytes_w),
            Register::HbmDatawPem => width_in_bits(pc_p.pem_bytes_w),
            Register::HbmDatawGlwe => width_in_bits(pc_p.glwe_bytes_w),
            Register::RegfStructure => join2(rtl.regf_params.reg_nb, rtl.regf_params.coef_nb),
            Register::IscStructure => join2(rtl.isc_params.depth, rtl.isc_params.min_iop_size),
            Register::BskAvail => self.bsk.avail as u32,
            Register::BskReset => {
                if self.bsk.rst_pdg {
                    self.bsk.rst_pdg = false;
                    0x8000_0000
                } else {
                    0
                }
            },
            Register::KskAvail => self.ksk.avail as u32,
            Register::KskReset => {
                if self.ksk.rst_pdg {
                    self.ksk.rst_pdg = false;
                    0x8000_0000
                } else {
                    0
                }
            },
            Register::BpipUse => {
                self.bpip.used as u32 + 2 * (self.bpip.use_opportunism as u32)
            },
            Register::BpipTimeout => self.bpip.timeout,
            Register::CtAddr { pc, half } => self.addr_ofst.ldst[pc as usize].get(half),
            Register::BskAddr { pc, half } => self.addr_ofst.bsk[pc as usize].get(half),
            Register::KskAddr { pc, half } => self.addr_ofst.ksk[pc as usize].get(half),
            Register::LutAddr { half } => self.addr_ofst.lut.get(half),
            Register::TraceAddr { half } => self.addr_ofst.trace.get(half),
            Register::LweDimension => rtl.pbs_params.lwe_dimension as u32,
            Register::GlweDimension => rtl.pbs_params.glwe_dimension as u32,
            Register::PolynomialSize => rtl.pbs_params.polynomial_size as u32,
            Register::PbsBaseLog => rtl.pbs_params.pbs_base_log as u32,
            Register::PbsLevel => rtl.pbs_params.pbs_level as u32,
            Register::KsBaseLog => rtl.pbs_params.ks_base_log as u32,
            Register::KsLevel => rtl.pbs_params.ks_level as u32,
            Register::MessageWidth => rtl.pbs_params.message_width as u32,
            Register::CarryWidth => rtl.pbs_params.carry_width as u32,
            Register::CiphertextWidth => rtl.pbs_params.ciphertext_width as u32,
            Register::NoiseLweMode => rtl.pbs_params.lwe_noise_distribution.mode,
            Register::NoiseLweRaw0 => rtl.pbs_params.lwe_noise_distribution.raw_0,
            Register::NoiseLweRaw1 => rtl.pbs_params.lwe_noise_distribution.raw_1,
            Register::NoiseGlweMode => rtl.pbs_params.glwe_noise_distribution.mode,
            Register::NoiseGlweRaw0 => rtl.pbs_params.glwe_noise_distribution.raw_0,
            Register::NoiseGlweRaw1 => rtl.pbs_params.glwe_noise_distribution.raw_1,
            Register::Unhooked => 0,
        }
    }

    /// Writes a register. Returns the event that the write raises, if any.
    pub fn write(&mut self, reg: Register, value: u32) -> (r: Option<KeyReset>)
        requires
            old(self)@.wf(),
            reg.wf(),
        ensures
            final(self)@.wf(),
            final(self)@ == write_state(old(self)@, reg, value),
            r == write_event(reg, value),
    {
        let set = (value & 1) == 1;
        match reg {
            Register::BskAvail => {
                self.bsk.avail = set;
            },
            Register::BskReset => {
                if set {
                    self.bsk.rst_pdg = true;
                    self.bsk.avail = false;
                    return Some(KeyReset::Bsk);
                }
            },
            Register::KskAvail => {
                self.ksk.avail = set;
            },
            Register::KskReset => {
                if set {
                    self.ksk.rst_pdg = true;
                    self.ksk.avail = false;
                    return Some(KeyReset::Ksk);
                }
            },
            Register::BpipUse => {
                self.bpip.used = set;
                self.bpip.use_opportunism = (value & 2) == 2;
            },
            Register::BpipTimeout => {
                self.bpip.timeout = value;
            },
            Register::CtAddr { pc, half } => {
                let pair = self.addr_ofst.ldst[pc as usize].replaced(half, value);
                self.addr_ofst.ldst.set(pc as usize, pair);
            },
            Register::BskAddr { pc, half } => {
                let pair = self.addr_ofst.bsk[pc as usize].replaced(half, value);
                self.addr_ofst.bsk.set(pc as usize, pair);
            },
            Register::KskAddr { pc, half } => {
                let pair = self.addr_ofst.ksk[pc as usize].replaced(half, value);
                self.addr_ofst.ksk.set(pc as usize, pair);
            },
            Register::LutAddr { half } => {
                self.addr_ofst.lut = self.addr_ofst.lut.replaced(half, value);
            },
            Register::TraceAddr { half } => {
                self.addr_ofst.trace = self.addr_ofst.trace.replaced(half, value);
            },
            _ => {},
        }
        None
    }
}

/// Register of the map of a node.
#[derive(Debug)]
pub struct RegisterEntry {
    pub name: String,
    pub offset: usize,
}

/// Parameters of a register map.
#[derive(Clone, Debug)]
pub struct RegmapParams {
    pub regmap_files: Vec<String>,
    pub rtl: HpuParameters,
    /// Cycles between a request and its response.
    pub latency: usize,
}

/// Register map of a node.
pub struct Regmap {
    pub params: RegmapParams,
    /// Registers of the map.
    pub table: Vec<RegisterEntry>,
    pub inner: RegmapInner,
}

/// The first register at an offset has this position.
pub open spec fn first_at(table: Seq<RegisterEntry>, offset: usize, i: int) -> bool {
    &&& 0 <= i < table.len()
    &&& table[i].offset == offset
    &&& forall|j: int| 0 <= j < i ==> (#[trigger] table[j]).offset != offset
}

/// Position of the first register at an offset.
pub open spec fn position_at(table: Seq<RegisterEntry>, offset: usize) -> int {
    choose|i: int| #[trigger] first_at(table, offset, i)
}

/// There is a register at an offset.
pub open spec fn mapped(table: Seq<RegisterEntry>, offset: usize) -> bool {
    exists|i: int| 0 <= i < table.len() && (#[trigger] table[i]).offset == offset
}

/// Register at an offset: the first one of the table.
pub open spec fn register_at(table: Seq<RegisterEntry>, offset: usize) -> Register {
    named(table[position_at(table, offset)].name@)
}

/// Request on the memory bus.
#[derive(Clone, Copy, Debug, PartialEq, Eq, Structural)]
pub enum Command {
    Read,
    Write,
    Other,
}

/// Memory access to the register map.
#[derive(Debug)]
pub struct Request {
    /// Physical address, where the request has one.
    pub addr: Option<usize>,
    /// Number of bytes of a contiguous access, where the access is one.
    pub size_b: Option<usize>,
    pub cmd: Command,
    /// Word to be written.
    pub value: u32,
}

/// Outcome of a memory access to the register map.
#[derive(Clone, Copy, Debug, PartialEq, Eq, Structural)]
pub enum Response {
    /// Value of the register.
    Value(u32),
    /// The register is written.
    Written(Option<KeyReset>),
    /// The address is not a physical one.
    SubRangeError,
    /// The access is not one word.
    PatternError,
    /// The access is neither a read nor a write.
    CmdError,
}

/// A request reaches the registers: it is a one-word read or write at a physical address.
pub open spec fn reaches(req: Request) -> bool {
    req.addr is Some && req.size_b == Some(4usize) && req.cmd != Command::Other
}

/// No two registers have the same name.
pub open spec fn distinct_names(table: Seq<RegisterEntry>) -> bool {
    forall|i: int, j: int|
        0 <= i < j < table.len() ==> (#[trigger] table[i]).name@ != (#[trigger] table[j]).name@
}

/// Whether no two registers have the same name.
pub fn names_differ(table: &Vec<RegisterEntry>) -> (r: bool)
    ensures
        r == distinct_names(table@),
{
    for j in 0..table.len()
        invariant
            forall|i: int, k: int|
                0 <= i < k < j ==> (#[trigger] table@[i]).name@ != (#[trigger] table@[k]).name@,
    {
        for i in 0..j
            invariant
                j < table@.len(),
                forall|k: int| 0 <= k < i ==> (#[trigger] table@[k]).name@ != table@[j as int].name@,
        {
            if table[i].name == table[j].name {
                assert(table@[i as int].name@ == table@[j as int].name@);
                return false;
            }
        }
    }
    true
}

impl Regmap {
    pub open spec fn wf(self) -> bool {
        &&& self.inner@.wf()
        &&& distinct_names(self.table@)
    }

    /// Registers after a reset.
    pub fn new(params: RegmapParams, table: Vec<RegisterEntry>) -> (r: Regmap)
        requires
            distinct_names(table@),
        ensures
            r.wf(),
            r.params == params,
            r.table == table,
            r.inner@.reset(),
    {
        Regmap { params, table, inner: RegmapInner::new() }
    }

    /// Position of the register at an address.
    fn get_register_name(&self, addr: u64) -> (r: usize)
        requires
            mapped(self.table@, addr as usize),
        ensures
            first_at(self.table@, addr as usize, r as int),
            r == position_at(self.table@, addr as usize),
    {
        let offset: usize = addr as usize;
        let mut i: usize = 0;
        while self.table[i].offset != offset
            invariant
                mapped(self.table@, offset),
                i < self.table.len(),
                forall|j: int| 0 <= j < i ==> (#[trigger] self.table@[j]).offset != offset,
            decreases self.table@.len() - i,
        {
            i = i + 1;
        }
        proof {
            assert(first_at(self.table@, offset, i as int));
            let k = position_at(self.table@, offset);
            assert(first_at(self.table@, offset, k));
            assert(k == i) by {
                if k < i {
                    assert(self.table@[k].offset != offset);
                } else if k > i {
                    assert(self.table@[i as int].offset != offset);
                }
            }
        }
        i
    }

    /// Offset of the register with a name.
    pub fn get_register_addr(&self, name: &String) -> (r: u64)
        requires
            self.wf(),
            exists|i: int| 0 <= i < self.table@.len() && (#[trigger] self.table@[i]).name@ == name@,
        ensures
            forall|i: int|
                0 <= i < self.table@.len() && (#[trigger] self.table@[i]).name@ == name@ ==> r
                    == self.table@[i].offset as u64,
    {
        let mut i: usize = 0;
        while self.table[i].name != *name
            invariant
                exists|i: int|
                    0 <= i < self.table@.len() && (#[trigger] self.table@[i]).name@ == name@,
                i < self.table.len(),
                forall|j: int| 0 <= j < i ==> (#[trigger] self.table@[j]).name@ != name@,
            decreases self.table@.len() - i,
        {
            i = i + 1;
        }
        self.table[i].offset as u64
    }

    /// Whether there is a register at an address.
    pub fn is_mapped(&self, addr: u64) -> (r: bool)
        ensures
            r == mapped(self.table@, addr as usize),
    {
        let offset: usize = addr as usize;
        for i in 0..self.table.len()
            invariant
                offset == addr as usize,
                forall|j: int| 0 <= j < i ==> (#[trigger] self.table@[j]).offset != offset,
        {
            if self.table[i].offset == offset {
                assert(self.table@[i as int].offset == offset);
                return true;
            }
        }
        false
    }

    /// Whether the register at an address can be read.
    pub fn can_read(&self, addr: u64) -> (r: bool)
        ensures
            r == (mapped(self.table@, addr as usize) && read_ok(
                self.params.rtl,
                register_at(self.table@, addr as usize),
            )),
    {
        if !self.is_mapped(addr) {
            return false;
        }
        let i: usize = self.get_register_name(addr);
        let reg = Register::from_name(&self.table[i].name);
        is_readable(&self.params.rtl, reg)
    }

    /// Reads the register at an address.
    pub fn read_reg(&mut self, addr: u64) -> (r: u32)
        requires
            old(self).wf(),
            mapped(old(self).table@, addr as usize),
            read_ok(old(self).params.rtl, register_at(old(self).table@, addr as usize)),
        ensures
            final(self).wf(),
            final(self).params == old(self).params,
            final(self).table == old(self).table,
            ({
                let reg = register_at(old(self).table@, addr as usize);
                &&& final(self).inner@ == read_state(old(self).inner@, reg)
                &&& r == read_value(old(self).params.rtl, old(self).inner@, reg)
            }),
    {
        let i: usize = self.get_register_name(addr);
        let reg = Register::from_name(&self.table[i].name);
        self.inner.read(&self.params.rtl, reg)
    }

    /// Writes the register at an address. Returns the event that the write raises,
    /// if any.
    pub fn write_reg(&mut self, addr: u64, value: u32) -> (r: Option<KeyReset>)
        requires
            old(self).wf(),
            mapped(old(self).table@, addr as usize),
        ensures
            final(self).wf(),
            final(self).params == old(self).params,
            final(self).table == old(self).table,
            ({
                let reg = register_at(old(self).table@, addr as usize);
                &&& final(self).inner@ == write_state(old(self).inner@, reg, value)
                &&& r == write_event(reg, value)
            }),
    {
        let i: usize = self.get_register_name(addr);
        let reg = Register::from_name(&self.table[i].name);
        self.inner.write(reg, value)
    }

    /// Answers a memory access.
    pub fn handle_request(&mut self, req: &Request) -> (r: Response)
        requires
            old(self).wf(),
            reaches(*req) ==> mapped(old(self).table@, req.addr->0 as u64 as usize),
            reaches(*req) && req.cmd == Command::Read ==> read_ok(
                old(self).params.rtl,
                register_at(old(self).table@, req.addr->0 as u64 as usize),
            ),
        ensures
            final(self).wf(),
            final(self).params == old(self).params,
            final(self).table == old(self).table,
            r == Response::SubRangeError <==> req.addr is None,
            r == Response::PatternError <==> req.addr is Some && req.size_b != Some(4usize),
            r == Response::CmdError <==> req.addr is Some && req.size_b == Some(4usize) && req.cmd
                == Command::Other,
            !reaches(*req) ==> final(self).inner@ == old(self).inner@,
            reaches(*req) ==> {
                let reg = register_at(old(self).table@, req.addr->0 as u64 as usize);
                if req.cmd == Command::Read {
                    &&& r == Response::Value(
                        read_value(old(self).params.rtl, old(self).inner@, reg),
                    )
                    &&& final(self).inner@ == read_state(old(self).inner@, reg)
                } else {
                    &&& r == Response::Written(write_event(reg, req.value))
                    &&& final(self).inner@ == write_state(old(self).inner@, reg, req.value)
                }
            },
    {
        let addr: usize = match req.addr {
            Some(addr) => addr,
            None => {
                return Response::SubRangeError;
            },
        };
        let size_b: usize = match req.size_b {
            Some(size_b) => size_b,
            None => {
                return Response::PatternError;
            },
        };
        if size_b != 4 {
            return Response::PatternError;
        }
        match req.cmd {
            Command::Read => Response::Value(self.read_reg(addr as u64)),
            Command::Write => Response::Written(self.write_reg(addr as u64, req.value)),
            Command::Other => Response::CmdError,
        }
    }
}

} // verus!
