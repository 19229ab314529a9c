//! Architecture and cryptographic parameters of an HPU.
//!
//! Real numbers are held by their IEEE 754 encoding.
use vstd::prelude::*;

verus! {

/// Noise distribution used by the encryption, as the registers show it.
///
/// Mode 1 is a Gaussian noise, by the encoding of its standard deviation: the low
/// word, then the high word. Mode 2 is a uniform noise, by the logarithm of its
/// bound and a null word.
#[derive(Clone, Copy, Debug, PartialEq, Eq, Structural)]
pub struct HpuNoiseDistributionInputRaw {
    pub mode: u32,
    pub raw_0: u32,
    pub raw_1: u32,
}

/// Flavour of the modulus switch that precedes a blind rotation.
#[derive(Clone, Copy, Debug, PartialEq, Eq, Structural)]
pub enum HpuModulusSwitchType {
    Standard,
    CenteredMeanNoiseReduction,
}

/// Parameters of the encryption scheme.
#[derive(Clone, Copy, Debug, PartialEq, Eq, Structural)]
pub struct HpuPBSParameters {
    pub lwe_dimension: usize,
    pub glwe_dimension: usize,
    pub polynomial_size: usize,
    pub lwe_noise_distribution: HpuNoiseDistributionInputRaw,
    pub glwe_noise_distribution: HpuNoiseDistributionInputRaw,
    pub pbs_base_log: usize,
    pub pbs_level: usize,
    pub ks_base_log: usize,
    pub ks_level: usize,
    pub message_width: usize,
    pub carry_width: usize,
    pub ciphertext_width: usize,
    /// Encoding of the logarithm of the failure probability.
    pub log2_p_fail: u64,
    pub modulus_switch_type: HpuModulusSwitchType,
}

/// Architecture of the keyswitch.
#[derive(Clone, Copy, Debug)]
pub struct HpuKeyswitchParameters {
    pub width: usize,
    pub lbx: usize,
    pub lby: usize,
    pub lbz: usize,
}

/// Core architecture of the number theoretic transform.
#[derive(Debug)]
pub enum HpuNttCoreArch {
    WmmCompactPcg,
    WmmUnfoldPcg,
    /// Goldilocks core, with the width of each cut.
    GF64(Vec<u8>),
}

/// Prime used by the number theoretic transform.
#[allow(non_camel_case_types)]
#[derive(Clone, Copy, Debug, PartialEq, Eq, Structural)]
pub enum HpuNttPrime {
    GF64,
    Solinas3_32_17_13,
    Solinas2_44_14,
}

/// Architecture of the number theoretic transform.
#[derive(Debug)]
pub struct HpuNttParameters {
    pub core_arch: HpuNttCoreArch,
    pub min_pbs_nb: Option<usize>,
    pub batch_pbs_nb: usize,
    pub total_pbs_nb: usize,
    /// Width of the ciphertext modulus.
    pub ct_width: u32,
    pub radix: usize,
    pub stg_nb: usize,
    pub prime_modulus: HpuNttPrime,
    pub psi: usize,
    pub delta: usize,
}

/// Memory channels allocated to each interface.
#[derive(Clone, Copy, Debug)]
pub struct HpuPcParameters {
    pub ksk_pc: usize,
    pub ksk_bytes_w: usize,
    pub bsk_pc: usize,
    pub glwe_pc: usize,
    pub bsk_bytes_w: usize,
    pub pem_pc: usize,
    pub pem_bytes_w: usize,
    pub glwe_bytes_w: usize,
}

/// Register file.
#[derive(Clone, Copy, Debug)]
pub struct HpuRegfileParameters {
    pub reg_nb: usize,
    /// Number of coefficients read at once.
    pub coef_nb: usize,
}

/// Instruction scheduler.
#[derive(Clone, Copy, Debug)]
pub struct HpuIscParameters {
    pub depth: usize,
    pub min_iop_size: usize,
}

/// Parameters of an HPU.
#[derive(Debug)]
pub struct HpuParameters {
    pub pbs_params: HpuPBSParameters,
    pub ntt_params: HpuNttParameters,
    pub ks_params: HpuKeyswitchParameters,
    pub pc_params: HpuPcParameters,
    pub regf_params: HpuRegfileParameters,
    pub isc_params: HpuIscParameters,
}

impl HpuNttCoreArch {
    /// Same architecture, with the same cuts.
    pub open spec fn same(self, other: HpuNttCoreArch) -> bool {
        match (self, other) {
            (HpuNttCoreArch::WmmCompactPcg, HpuNttCoreArch::WmmCompactPcg) => true,
            (HpuNttCoreArch::WmmUnfoldPcg, HpuNttCoreArch::WmmUnfoldPcg) => true,
            (HpuNttCoreArch::GF64(a), HpuNttCoreArch::GF64(b)) => a@ == b@,
            _ => false,
        }
    }
}

impl Clone for HpuNttCoreArch {
    fn clone(&self) -> (r: HpuNttCoreArch)
        ensures
            r.same(*self),
    {
        match self {
            HpuNttCoreArch::WmmCompactPcg => HpuNttCoreArch::WmmCompactPcg,
            HpuNttCoreArch::WmmUnfoldPcg => HpuNttCoreArch::WmmUnfoldPcg,
            HpuNttCoreArch::GF64(cuts) => {
                let copy = cuts.clone();
                assert(copy@ =~= cuts@);
                HpuNttCoreArch::GF64(copy)
            },
        }
    }
}

impl HpuNttParameters {
    /// Same parameters.
    pub open spec fn same(self, other: HpuNttParameters) -> bool {
        &&& self.core_arch.same(other.core_arch)
        &&& self.min_pbs_nb == other.min_pbs_nb
        &&& self.batch_pbs_nb == other.batch_pbs_nb
        &&& self.total_pbs_nb == other.total_pbs_nb
        &&& self.ct_width == other.ct_width
        &&& self.radix == other.radix
        &&& self.stg_nb == other.stg_nb
        &&& self.prime_modulus == other.prime_modulus
        &&& self.psi == other.psi
        &&& self.delta == other.delta
    }
}

impl Clone for HpuNttParameters {
    fn clone(&self) -> (r: HpuNttParameters)
        ensures
            r.same(*self),
    {
        HpuNttParameters {
            core_arch: self.core_arch.clone(),
            min_pbs_nb: self.min_pbs_nb,
            batch_pbs_nb: self.batch_pbs_nb,
            total_pbs_nb: self.total_pbs_nb,
            ct_width: self.ct_width,
            radix: self.radix,
            stg_nb: self.stg_nb,
            prime_modulus: self.prime_modulus,
            psi: self.psi,
            delta: self.delta,
        }
    }
}

impl HpuParameters {
    /// Same parameters.
    pub open spec fn same(self, other: HpuParameters) -> bool {
        &&& self.pbs_params == other.pbs_params
        &&& self.ntt_params.same(other.ntt_params)
        &&& self.ks_params == other.ks_params
        &&& self.pc_params == other.pc_params
        &&& self.regf_params == other.regf_params
        &&& self.isc_params == other.isc_params
    }
}

impl Clone for HpuParameters {
    fn clone(&self) -> (r: HpuParameters)
        ensures
            r.same(*self),
    {
        HpuParameters {
            pbs_params: self.pbs_params,
            ntt_params: self.ntt_params.clone(),
            ks_params: self.ks_params,
            pc_params: self.pc_params,
            regf_params: self.regf_params,
            isc_params: self.isc_params,
        }
    }
}

impl HpuPBSParameters {
    /// Number of coefficients of a ciphertext that leaves the HPU.
    pub open spec fn big_lwe_size(self) -> int {
        self.glwe_dimension * self.polynomial_size + 1
    }

    /// Width of a message with its carry and its padding bit.
    pub open spec fn cleartext_width(self) -> int {
        self.message_width + self.carry_width + 1
    }
}

} // verus!
