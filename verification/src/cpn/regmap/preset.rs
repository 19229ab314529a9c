//! Parameter sets of the known applications.
use tfhe_hpu_backend::interface::rtl::params::{
    CONCRETE_BOOLEAN, MSG2_CARRY2, MSG2_CARRY2_44B, MSG2_CARRY2_64B, MSG2_CARRY2_64B_FAKE,
    MSG2_CARRY2_GAUSSIAN, MSG2_CARRY2_PFAIL64_132B_GAUSSIAN_1F72DBA, MSG2_CARRY2_TUNIFORM,
};
use tfhe_hpu_backend::prelude::parameters::{
    HpuModulusSwitchType as SwitchType, HpuNoiseDistributionInputRaw as RawNoise,
};
use vstd::prelude::*;

use crate::params::hpu::{
    HpuModulusSwitchType, HpuNoiseDistributionInputRaw as Noise, HpuPBSParameters,
};

verus! {

/// Gaussian noise, from the low and the high word of the encoding of its standard deviation.
pub open spec fn gaussian(low: u32, high: u32) -> Noise {
    Noise { mode: 1, raw_0: low, raw_1: high }
}

/// Encoding of the number -64, the base two logarithm of a probability of failure.
pub const LOG2_P_FAIL_64: u64 = 0xc050_0000_0000_0000;

/// Parameter set `CONCRETE_BOOLEAN`. The standard deviations are 7.069849454709433e-11 and
/// 2.9403601535432532e-21.
pub open spec fn concrete_boolean() -> HpuPBSParameters {
    HpuPBSParameters {
        lwe_dimension: 586,
        glwe_dimension: 2,
        polynomial_size: 512,
        lwe_noise_distribution: gaussian(0xdad3_a29a, 0x3dd3_6ef6),
        glwe_noise_distribution: gaussian(0xc830_d73c, 0x3bab_c55a),
        pbs_base_log: 8,
        pbs_level: 2,
        ks_base_log: 5,
        ks_level: 4,
        message_width: 1,
        carry_width: 0,
        ciphertext_width: 32,
        log2_p_fail: LOG2_P_FAIL_64,
        modulus_switch_type: HpuModulusSwitchType::Standard,
    }
}

/// Reads the constant `tfhe_hpu_backend::interface::rtl::params::CONCRETE_BOOLEAN`:
/// its fields are the given ones, the distributions once converted by
/// `HpuNoiseDistributionInputRaw::from` and the probability of failure by its encoding.
#[verifier::external_body]
fn read_concrete_boolean() -> (r: HpuPBSParameters)
    ensures
        r == concrete_boolean(),
{
    let p = CONCRETE_BOOLEAN;
    let raw = |r: RawNoise| Noise { mode: r.mode, raw_0: r.raw[0], raw_1: r.raw[1] };
    let switch = |s: SwitchType| match s {
        SwitchType::Standard => HpuModulusSwitchType::Standard,
        SwitchType::CenteredMeanNoiseReduction => HpuModulusSwitchType::CenteredMeanNoiseReduction,
    };
    HpuPBSParameters {
        lwe_dimension: p.lwe_dimension, glwe_dimension: p.glwe_dimension,
        polynomial_size: p.polynomial_size, ciphertext_width: p.ciphertext_width,
        lwe_noise_distribution: raw(p.lwe_noise_distribution.into()),
        glwe_noise_distribution: raw(p.glwe_noise_distribution.into()),
        pbs_base_log: p.pbs_base_log, pbs_level: p.pbs_level, ks_base_log: p.ks_base_log,
        ks_level: p.ks_level, message_width: p.message_width, carry_width: p.carry_width,
        log2_p_fail: p.log2_p_fail.to_bits(), modulus_switch_type: switch(p.modulus_switch_type),
    }
}

/// Parameter set `MSG2_CARRY2`. The standard deviations are 9.039924320497611e-06 and
/// 3.1529314934984704e-16.
pub open spec fn msg2_carry2() -> HpuPBSParameters {
    HpuPBSParameters {
        lwe_dimension: 742,
        glwe_dimension: 1,
        polynomial_size: 2048,
        lwe_noise_distribution: gaussian(0xbcf2_8045, 0x3ee2_f545),
        glwe_noise_distribution: gaussian(0xccff_23e6, 0x3cb6_b821),
        pbs_base_log: 19,
        pbs_level: 1,
        ks_base_log: 3,
        ks_level: 5,
        message_width: 2,
        carry_width: 2,
        ciphertext_width: 64,
        log2_p_fail: LOG2_P_FAIL_64,
        modulus_switch_type: HpuModulusSwitchType::Standard,
    }
}

/// Reads the constant `tfhe_hpu_backend::interface::rtl::params::MSG2_CARRY2`:
/// its fields are the given ones, the distributions once converted by
/// `HpuNoiseDistributionInputRaw::from` and the probability of failure by its encoding.
#[verifier::external_body]
fn read_msg2_carry2() -> (r: HpuPBSParameters)
    ensures
        r == msg2_carry2(),
{
    let p = MSG2_CARRY2;
    let raw = |r: RawNoise| Noise { mode: r.mode, raw_0: r.raw[0], raw_1: r.raw[1] };
    let switch = |s: SwitchType| match s {
        SwitchType::Standard => HpuModulusSwitchType::Standard,
        SwitchType::CenteredMeanNoiseReduction => HpuModulusSwitchType::CenteredMeanNoiseReduction,
    };
    HpuPBSParameters {
        lwe_dimension: p.lwe_dimension, glwe_dimension: p.glwe_dimension,
        polynomial_size: p.polynomial_size, ciphertext_width: p.ciphertext_width,
        lwe_noise_distribution: raw(p.lwe_noise_distribution.into()),
        glwe_noise_distribution: raw(p.glwe_noise_distribution.into()),
        pbs_base_log: p.pbs_base_log, pbs_level: p.pbs_level, ks_base_log: p.ks_base_log,
        ks_level: p.ks_level, message_width: p.message_width, carry_width: p.carry_width,
        log2_p_fail: p.log2_p_fail.to_bits(), modulus_switch_type: switch(p.modulus_switch_type),
    }
}

/// Parameter set `MSG2_CARRY2_64B`. The standard deviations are 1.630783646854603e-05 and
/// 3.1529314934984704e-16.
pub open spec fn msg2_carry2_64b() -> HpuPBSParameters {
    HpuPBSParameters {
        lwe_dimension: 710,
        glwe_dimension: 2,
        polynomial_size: 1024,
        lwe_noise_distribution: gaussian(0xfd22_f680, 0x3ef1_1999),
        glwe_noise_distribution: gaussian(0xccff_23e6, 0x3cb6_b821),
        pbs_base_log: 25,
        pbs_level: 1,
        ks_base_log: 2,
        ks_level: 7,
        message_width: 2,
        carry_width: 2,
        ciphertext_width: 64,
        log2_p_fail: LOG2_P_FAIL_64,
        modulus_switch_type: HpuModulusSwitchType::Standard,
    }
}

/// Reads the constant `tfhe_hpu_backend::interface::rtl::params::MSG2_CARRY2_64B`:
/// its fields are the given ones, the distributions once converted by
/// `HpuNoiseDistributionInputRaw::from` and the probability of failure by its encoding.
#[verifier::external_body]
fn read_msg2_carry2_64b() -> (r: HpuPBSParameters)
    ensures
        r == msg2_carry2_64b(),
{
    let p = MSG2_CARRY2_64B;
    let raw = |r: RawNoise| Noise { mode: r.mode, raw_0: r.raw[0], raw_1: r.raw[1] };
    let switch = |s: SwitchType| match s {
        SwitchType::Standard => HpuModulusSwitchType::Standard,
        SwitchType::CenteredMeanNoiseReduction => HpuModulusSwitchType::CenteredMeanNoiseReduction,
    };
    HpuPBSParameters {
        lwe_dimension: p.lwe_dimension, glwe_dimension: p.glwe_dimension,
        polynomial_size: p.polynomial_size, ciphertext_width: p.ciphertext_width,
        lwe_noise_distribution: raw(p.lwe_noise_distribution.into()),
        glwe_noise_distribution: raw(p.glwe_noise_distribution.into()),
        pbs_base_log: p.pbs_base_log, pbs_level: p.pbs_level, ks_base_log: p.ks_base_log,
        ks_level: p.ks_level, message_width: p.message_width, carry_width: p.carry_width,
        log2_p_fail: p.log2_p_fail.to_bits(), modulus_switch_type: switch(p.modulus_switch_type),
    }
}

/// Parameter set `MSG2_CARRY2_44B`. The standard deviations are 1.2597809688976277e-05 and
/// 2.2737367544323206e-13.
pub open spec fn msg2_carry2_44b() -> HpuPBSParameters {
    HpuPBSParameters {
        lwe_dimension: 724,
        glwe_dimension: 2,
        polynomial_size: 1024,
        lwe_noise_distribution: gaussian(0xc799_ea7d, 0x3eea_6b65),
        glwe_noise_distribution: gaussian(0x0000_0000, 0x3d50_0000),
        pbs_base_log: 20,
        pbs_level: 1,
        ks_base_log: 2,
        ks_level: 7,
        message_width: 2,
        carry_width: 2,
        ciphertext_width: 44,
        log2_p_fail: LOG2_P_FAIL_64,
        modulus_switch_type: HpuModulusSwitchType::Standard,
    }
}

/// Reads the constant `tfhe_hpu_backend::interface::rtl::params::MSG2_CARRY2_44B`:
/// its fields are the given ones, the distributions once converted by
/// `HpuNoiseDistributionInputRaw::from` and the probability of failure by its encoding.
#[verifier::external_body]
fn read_msg2_carry2_44b() -> (r: HpuPBSParameters)
    ensures
        r == msg2_carry2_44b(),
{
    let p = MSG2_CARRY2_44B;
    let raw = |r: RawNoise| Noise { mode: r.mode, raw_0: r.raw[0], raw_1: r.raw[1] };
    let switch = |s: SwitchType| match s {
        SwitchType::Standard => HpuModulusSwitchType::Standard,
        SwitchType::CenteredMeanNoiseReduction => HpuModulusSwitchType::CenteredMeanNoiseReduction,
    };
    HpuPBSParameters {
        lwe_dimension: p.lwe_dimension, glwe_dimension: p.glwe_dimension,
        polynomial_size: p.polynomial_size, ciphertext_width: p.ciphertext_width,
        lwe_noise_distribution: raw(p.lwe_noise_distribution.into()),
        glwe_noise_distribution: raw(p.glwe_noise_distribution.into()),
        pbs_base_log: p.pbs_base_log, pbs_level: p.pbs_level, ks_base_log: p.ks_base_log,
        ks_level: p.ks_level, message_width: p.message_width, carry_width: p.carry_width,
        log2_p_fail: p.log2_p_fail.to_bits(), modulus_switch_type: switch(p.modulus_switch_type),
    }
}

/// Parameter set `MSG2_CARRY2_64B_FAKE`. The standard deviations are 1.2597809688976277e-05 and
/// 2.2737367544323206e-13.
pub open spec fn msg2_carry2_64b_fake() -> HpuPBSParameters {
    HpuPBSParameters {
        lwe_dimension: 724,
        glwe_dimension: 2,
        polynomial_size: 1024,
        lwe_noise_distribution: gaussian(0xc799_ea7d, 0x3eea_6b65),
        glwe_noise_distribution: gaussian(0x0000_0000, 0x3d50_0000),
        pbs_base_log: 20,
        pbs_level: 1,
        ks_base_log: 2,
        ks_level: 7,
        message_width: 2,
        carry_width: 2,
        ciphertext_width: 64,
        log2_p_fail: LOG2_P_FAIL_64,
        modulus_switch_type: HpuModulusSwitchType::Standard,
    }
}

/// Reads the constant `tfhe_hpu_backend::interface::rtl::params::MSG2_CARRY2_64B_FAKE`:
/// its fields are the given ones, the distributions once converted by
/// `HpuNoiseDistributionInputRaw::from` and the probability of failure by its encoding.
#[verifier::external_body]
fn read_msg2_carry2_64b_fake() -> (r: HpuPBSParameters)
    ensures
        r == msg2_carry2_64b_fake(),
{
    let p = MSG2_CARRY2_64B_FAKE;
    let raw = |r: RawNoise| Noise { mode: r.mode, raw_0: r.raw[0], raw_1: r.raw[1] };
    let switch = |s: SwitchType| match s {
        SwitchType::Standard => HpuModulusSwitchType::Standard,
        SwitchType::CenteredMeanNoiseReduction => HpuModulusSwitchType::CenteredMeanNoiseReduction,
    };
    HpuPBSParameters {
        lwe_dimension: p.lwe_dimension, glwe_dimension: p.glwe_dimension,
        polynomial_size: p.polynomial_size, ciphertext_width: p.ciphertext_width,
        lwe_noise_distribution: raw(p.lwe_noise_distribution.into()),
        glwe_noise_distribution: raw(p.glwe_noise_distribution.into()),
        pbs_base_log: p.pbs_base_log, pbs_level: p.pbs_level, ks_base_log: p.ks_base_log,
        ks_level: p.ks_level, message_width: p.message_width, carry_width: p.carry_width,
        log2_p_fail: p.log2_p_fail.to_bits(), modulus_switch_type: switch(p.modulus_switch_type),
    }
}

/// Parameter set `MSG2_CARRY2_GAUSSIAN`. The standard deviations are 3.5539902359442825e-06 and
/// 2.845267479601915e-15.
pub open spec fn msg2_carry2_gaussian() -> HpuPBSParameters {
    HpuPBSParameters {
        lwe_dimension: 834,
        glwe_dimension: 1,
        polynomial_size: 2048,
        lwe_noise_distribution: gaussian(0xcb72_3767, 0x3ecd_d022),
        glwe_noise_distribution: gaussian(0x78f9_9e7a, 0x3ce9_a0bd),
        pbs_base_log: 23,
        pbs_level: 1,
        ks_base_log: 3,
        ks_level: 5,
        message_width: 2,
        carry_width: 2,
        ciphertext_width: 64,
        log2_p_fail: LOG2_P_FAIL_64,
        modulus_switch_type: HpuModulusSwitchType::Standard,
    }
}

/// Reads the constant `tfhe_hpu_backend::interface::rtl::params::MSG2_CARRY2_GAUSSIAN`:
/// its fields are the given ones, the distributions once converted by
/// `HpuNoiseDistributionInputRaw::from` and the probability of failure by its encoding.
#[verifier::external_body]
fn read_msg2_carry2_gaussian() -> (r: HpuPBSParameters)
    ensures
        r == msg2_carry2_gaussian(),
{
    let p = MSG2_CARRY2_GAUSSIAN;
    let raw = |r: RawNoise| Noise { mode: r.mode, raw_0: r.raw[0], raw_1: r.raw[1] };
    let switch = |s: SwitchType| match s {
        SwitchType::Standard => HpuModulusSwitchType::Standard,
        SwitchType::CenteredMeanNoiseReduction => HpuModulusSwitchType::CenteredMeanNoiseReduction,
    };
    HpuPBSParameters {
        lwe_dimension: p.lwe_dimension, glwe_dimension: p.glwe_dimension,
        polynomial_size: p.polynomial_size, ciphertext_width: p.ciphertext_width,
        lwe_noise_distribution: raw(p.lwe_noise_distribution.into()),
        glwe_noise_distribution: raw(p.glwe_noise_distribution.into()),
        pbs_base_log: p.pbs_base_log, pbs_level: p.pbs_level, ks_base_log: p.ks_base_log,
        ks_level: p.ks_level, message_width: p.message_width, carry_width: p.carry_width,
        log2_p_fail: p.log2_p_fail.to_bits(), modulus_switch_type: switch(p.modulus_switch_type),
    }
}

/// Parameter set `MSG2_CARRY2_TUNIFORM`. The standard deviations are 3.5539902359442825e-06 and
/// 2.845267479601915e-15.
pub open spec fn msg2_carry2_tuniform() -> HpuPBSParameters {
    HpuPBSParameters {
        lwe_dimension: 887,
        glwe_dimension: 1,
        polynomial_size: 2048,
        lwe_noise_distribution: gaussian(0xcb72_3767, 0x3ecd_d022),
        glwe_noise_distribution: gaussian(0x78f9_9e7a, 0x3ce9_a0bd),
        pbs_base_log: 22,
        pbs_level: 1,
        ks_base_log: 3,
        ks_level: 5,
        message_width: 2,
        carry_width: 2,
        ciphertext_width: 64,
        log2_p_fail: LOG2_P_FAIL_64,
        modulus_switch_type: HpuModulusSwitchType::Standard,
    }
}

/// Reads the constant `tfhe_hpu_backend::interface::rtl::params::MSG2_CARRY2_TUNIFORM`:
/// its fields are the given ones, the distributions once converted by
/// `HpuNoiseDistributionInputRaw::from` and the probability of failure by its encoding.
#[verifier::external_body]
fn read_msg2_carry2_tuniform() -> (r: HpuPBSParameters)
    ensures
        r == msg2_carry2_tuniform(),
{
    let p = MSG2_CARRY2_TUNIFORM;
    let raw = |r: RawNoise| Noise { mode: r.mode, raw_0: r.raw[0], raw_1: r.raw[1] };
    let switch = |s: SwitchType| match s {
        SwitchType::Standard => HpuModulusSwitchType::Standard,
        SwitchType::CenteredMeanNoiseReduction => HpuModulusSwitchType::CenteredMeanNoiseReduction,
    };
    HpuPBSParameters {
        lwe_dimension: p.lwe_dimension, glwe_dimension: p.glwe_dimension,
        polynomial_size: p.polynomial_size, ciphertext_width: p.ciphertext_width,
        lwe_noise_distribution: raw(p.lwe_noise_distribution.into()),
        glwe_noise_distribution: raw(p.glwe_noise_distribution.into()),
        pbs_base_log: p.pbs_base_log, pbs_level: p.pbs_level, ks_base_log: p.ks_base_log,
        ks_level: p.ks_level, message_width: p.message_width, carry_width: p.carry_width,
        log2_p_fail: p.log2_p_fail.to_bits(), modulus_switch_type: switch(p.modulus_switch_type),
    }
}

/// Parameter set `MSG2_CARRY2_PFAIL64_132B_GAUSSIAN_1F72DBA`. The standard deviations are
/// 5.963599673924788e-06 and 2.8452674713391114e-15.
pub open spec fn msg2_carry2_pfail64() -> HpuPBSParameters {
    HpuPBSParameters {
        lwe_dimension: 804,
        glwe_dimension: 1,
        polynomial_size: 2048,
        lwe_noise_distribution: gaussian(0xcbd5_1913, 0x3ed9_035d),
        glwe_noise_distribution: gaussian(0x77b9_f7a2, 0x3ce9_a0bd),
        pbs_base_log: 23,
        pbs_level: 1,
        ks_base_log: 2,
        ks_level: 8,
        message_width: 2,
        carry_width: 2,
        ciphertext_width: 64,
        log2_p_fail: LOG2_P_FAIL_64,
        modulus_switch_type: HpuModulusSwitchType::Standard,
    }
}

/// Reads the constant
/// `tfhe_hpu_backend::interface::rtl::params::MSG2_CARRY2_PFAIL64_132B_GAUSSIAN_1F72DBA`:
/// its fields are the given ones, the distributions once converted by
/// `HpuNoiseDistributionInputRaw::from` and the probability of failure by its encoding.
#[verifier::external_body]
fn read_msg2_carry2_pfail64() -> (r: HpuPBSParameters)
    ensures
        r == msg2_carry2_pfail64(),
{
    let p = MSG2_CARRY2_PFAIL64_132B_GAUSSIAN_1F72DBA;
    let raw = |r: RawNoise| Noise { mode: r.mode, raw_0: r.raw[0], raw_1: r.raw[1] };
    let switch = |s: SwitchType| match s {
        SwitchType::Standard => HpuModulusSwitchType::Standard,
        SwitchType::CenteredMeanNoiseReduction => HpuModulusSwitchType::CenteredMeanNoiseReduction,
    };
    HpuPBSParameters {
        lwe_dimension: p.lwe_dimension, glwe_dimension: p.glwe_dimension,
        polynomial_size: p.polynomial_size, ciphertext_width: p.ciphertext_width,
        lwe_noise_distribution: raw(p.lwe_noise_distribution.into()),
        glwe_noise_distribution: raw(p.glwe_noise_distribution.into()),
        pbs_base_log: p.pbs_base_log, pbs_level: p.pbs_level, ks_base_log: p.ks_base_log,
        ks_level: p.ks_level, message_width: p.message_width, carry_width: p.carry_width,
        log2_p_fail: p.log2_p_fail.to_bits(), modulus_switch_type: switch(p.modulus_switch_type),
    }
}

/// Codes and parameter sets of the known applications, in the order in which they are tried.
pub open spec fn known_applications() -> Seq<(u32, HpuPBSParameters)> {
    seq![
        (0u32, concrete_boolean()),
        (1u32, msg2_carry2()),
        (3u32, msg2_carry2_64b()),
        (4u32, msg2_carry2_44b()),
        (9u32, msg2_carry2_64b_fake()),
        (10u32, msg2_carry2_gaussian()),
        (11u32, msg2_carry2_tuniform()),
        (12u32, msg2_carry2_pfail64()),
    ]
}

/// Codes and parameter sets of the known applications, in the order in which they are tried.
pub fn presets() -> (r: Vec<(u32, HpuPBSParameters)>)
    ensures
        r@ == known_applications(),
{
    let r: Vec<(u32, HpuPBSParameters)> = vec![
        (0u32, read_concrete_boolean()),
        (1u32, read_msg2_carry2()),
        (3u32, read_msg2_carry2_64b()),
        (4u32, read_msg2_carry2_44b()),
        (9u32, read_msg2_carry2_64b_fake()),
        (10u32, read_msg2_carry2_gaussian()),
        (11u32, read_msg2_carry2_tuniform()),
        (12u32, read_msg2_carry2_pfail64()),
    ];
    assert(r@ =~= known_applications());
    r
}

} // verus!
