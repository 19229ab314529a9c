//! Programmable bootstrapping: keyswitch, modulus switch and blind rotation of a
//! lookup table.
use tfhe::core_crypto::prelude::{
    blind_rotate_ntt64_bnf_assign, keyswitch_lwe_ciphertext_with_scalar_change,
    lwe_ciphertext_centered_binary_modulus_switch, lwe_ciphertext_modulus_switch,
    CiphertextModulus, CiphertextModulusLog, DecompositionBaseLog, DecompositionLevelCount,
    GlweCiphertext, LazyStandardModulusSwitchedLweCiphertext, LweCiphertext, LweKeyswitchKey,
    LweSize, NttLweBootstrapKey, PolynomialSize,
};
use vstd::arithmetic::div_mod::{
    lemma_div_by_multiple, lemma_mod_bound, lemma_mod_multiples_basic,
};
use vstd::arithmetic::power::{lemma_pow0, lemma_pow_increases, lemma_pow_positive, pow};
use vstd::arithmetic::power2::{lemma2_to64, lemma_pow2_unfold, pow2};
use vstd::bits::{lemma_u64_pow2_no_overflow, lemma_u64_shl_is_mul};
use vstd::prelude::*;

use crate::cpn::layout::{div_ceil, quotient_ceil};
use crate::params::hpu::{HpuModulusSwitchType, HpuNttPrime, HpuParameters};

verus! {

/// Keys of the server: the keyswitching key and the bootstrapping key, the latter in
/// the domain of the number theoretic transform.
#[derive(Debug)]
pub struct ServerKey {
    pub ksk: Vec<u32>,
    pub bsk: Vec<u64>,
}

/// Ciphertext ready for a blind rotation: a correction is added to its body before
/// its coefficients are switched to a modulus of `log_modulus` bits.
#[derive(Debug)]
pub struct SwitchedLwe {
    pub lwe: Vec<u32>,
    pub correction: u32,
    pub log_modulus: usize,
}

/// Modulus of the number theoretic transform.
pub open spec fn prime_value(prime: HpuNttPrime) -> u64 {
    match prime {
        HpuNttPrime::GF64 => 0xffff_ffff_0000_0001,
        HpuNttPrime::Solinas3_32_17_13 => 0xfffd_e001,
        HpuNttPrime::Solinas2_44_14 => 0xfff_ffff_c001,
    }
}

/// Greatest polynomial size for which the modulus has the needed roots of unity.
pub open spec fn prime_max_size(prime: HpuNttPrime) -> int {
    match prime {
        HpuNttPrime::GF64 => 0x8000_0000,
        HpuNttPrime::Solinas3_32_17_13 => 0x1000,
        HpuNttPrime::Solinas2_44_14 => 0x2000,
    }
}

/// A transform exists for a polynomial size, which is a power of two.
pub open spec fn ntt_ok(prime: HpuNttPrime, size: int) -> bool {
    floor_pow2(size) == size && 16 <= size <= prime_max_size(prime)
}

/// Greatest power of two that is not greater than a number.
pub open spec fn floor_pow2(n: int) -> int
    decreases n,
{
    if n < 2 {
        1
    } else {
        2 * floor_pow2(n / 2)
    }
}

/// Logarithm in base two, rounded down.
pub open spec fn floor_log2(n: int) -> int
    decreases n,
{
    if n < 2 {
        0
    } else {
        1 + floor_log2(n / 2)
    }
}

/// Result of a keyswitch, to ciphertexts of `out_size` coefficients with a modulus
/// of `width` bits.
pub uninterp spec fn keyswitched(
    ksk: Seq<u32>,
    lwe: Seq<u64>,
    base_log: usize,
    level: usize,
    out_size: usize,
    width: usize,
) -> Seq<u32>;

/// Correction of the body that centres the error of a modulus switch.
pub uninterp spec fn centred_correction(lwe: Seq<u32>, log_modulus: usize) -> u32;

/// Result of the blind rotation of an accumulator.
pub uninterp spec fn rotated(
    lwe: Seq<u32>,
    correction: u32,
    log_modulus: usize,
    acc: Seq<u64>,
    width: usize,
    bsk: Seq<u64>,
    poly: usize,
    base_log: usize,
    level: usize,
    prime: u64,
) -> Seq<u64>;

/// Calls `keyswitch_lwe_ciphertext_with_scalar_change`, with a key of `level` levels
/// for each input coefficient. The contract names the result and gives its length.
#[verifier::external_body]
pub(crate) fn keyswitch(
    ksk: &Vec<u32>,
    lwe: &Vec<u64>,
    base_log: usize,
    level: usize,
    out_size: usize,
    width: usize,
) -> (r: Vec<u32>)
    requires
        lwe@.len() > 1,
        level >= 1,
        base_log >= 1,
        base_log * level <= 32,
        out_size >= 1,
        1 <= width <= 32,
        ksk@.len() == (lwe@.len() - 1) * (level * out_size),
    ensures
        r@ == keyswitched(ksk@, lwe@, base_log, level, out_size, width),
        r@.len() == out_size,
{
    let modulus = CiphertextModulus::try_new_power_of_2(width).unwrap();
    let (base_log, level) = (DecompositionBaseLog(base_log), DecompositionLevelCount(level));
    let ksk = ksk.as_slice();
    let ksk = LweKeyswitchKey::from_container(ksk, base_log, level, LweSize(out_size), modulus);
    let lwe = LweCiphertext::from_container(lwe.as_slice(), CiphertextModulus::new_native());
    let mut out = LweCiphertext::new(0u32, LweSize(out_size), modulus);
    keyswitch_lwe_ciphertext_with_scalar_change(&ksk, &lwe, &mut out);
    out.into_container()
}

/// Calls `lwe_ciphertext_modulus_switch`, which switches a ciphertext lazily: the
/// coefficients are kept, and nothing is added to the body.
#[verifier::external_body]
pub(crate) fn standard_switch(lwe: Vec<u32>, log_modulus: usize) -> (r: SwitchedLwe)
    requires
        lwe@.len() > 0,
        log_modulus <= 32,
    ensures
        r.lwe@ == lwe@,
        r.correction == 0,
        r.log_modulus == log_modulus,
{
    let lwe = LweCiphertext::from_container(lwe, CiphertextModulus::new_native());
    let log_modulus = CiphertextModulusLog(log_modulus);
    let switched: LazyStandardModulusSwitchedLweCiphertext<u32, usize, Vec<u32>> =
        lwe_ciphertext_modulus_switch(lwe, log_modulus);
    let (lwe, correction, log_modulus) = switched.into_raw_parts();
    SwitchedLwe { lwe: lwe.into_container(), correction, log_modulus: log_modulus.0 }
}

/// Calls `lwe_ciphertext_centered_binary_modulus_switch`, which switches a
/// ciphertext lazily: the coefficients are kept, and the contract names what is
/// added to the body.
#[verifier::external_body]
pub(crate) fn centred_switch(lwe: Vec<u32>, log_modulus: usize) -> (r: SwitchedLwe)
    requires
        0 < lwe@.len() < 0x8000_0000,
        1 <= log_modulus < 32,
    ensures
        r.lwe@ == lwe@,
        r.correction == centred_correction(lwe@, log_modulus),
        r.log_modulus == log_modulus,
{
    let lwe = LweCiphertext::from_container(lwe, CiphertextModulus::new_native());
    let log_modulus = CiphertextModulusLog(log_modulus);
    let switched: LazyStandardModulusSwitchedLweCiphertext<u32, usize, Vec<u32>> =
        lwe_ciphertext_centered_binary_modulus_switch(lwe, log_modulus);
    let (lwe, correction, log_modulus) = switched.into_raw_parts();
    SwitchedLwe { lwe: lwe.into_container(), correction, log_modulus: log_modulus.0 }
}

/// Calls `blind_rotate_ntt64_bnf_assign` on an accumulator made of polynomials of
/// `poly` coefficients with a modulus of `width` bits. The bootstrapping key has, for
/// each coefficient of the mask, `level` square matrices of polynomials with reduced
/// coefficients. The contract names the result and gives its length.
#[verifier::external_body]
pub(crate) fn blind_rotate(
    input: &SwitchedLwe,
    acc: Vec<u64>,
    width: usize,
    bsk: &Vec<u64>,
    poly: usize,
    base_log: usize,
    level: usize,
    prime: u64,
) -> (r: Vec<u64>)
    requires
        exists|p: HpuNttPrime| prime == prime_value(p) && #[trigger] ntt_ok(p, poly as int),
        input.lwe@.len() >= 1,
        1 <= input.log_modulus <= 32,
        1 <= width <= 64,
        acc@.len() > 0,
        acc@.len() % poly as nat == 0,
        level >= 1,
        base_log >= 1,
        base_log * level < 64,
        pow2((base_log - 1) as nat) < prime,
        bsk@.len() == (input.lwe@.len() - 1) * bsk_matrix_len(
            acc@.len() as int / poly as int,
            poly as int,
            level as int,
        ),
        forall|i: int| 0 <= i < bsk@.len() ==> #[trigger] bsk@[i] < prime,
    ensures
        r@ == rotated(
            input.lwe@,
            input.correction,
            input.log_modulus,
            acc@,
            width,
            bsk@,
            poly,
            base_log,
            level,
            prime,
        ),
        r@.len() == acc@.len(),
{
    let lwe = input.lwe.as_slice();
    let lwe = LweCiphertext::from_container(lwe, CiphertextModulus::new_native());
    let log_modulus = CiphertextModulusLog(input.log_modulus);
    let correction = input.correction;
    let input: LazyStandardModulusSwitchedLweCiphertext<u32, usize, &[u32]> =
        LazyStandardModulusSwitchedLweCiphertext::from_raw_parts(lwe, correction, log_modulus);
    let modulus = CiphertextModulus::try_new_power_of_2(width).unwrap();
    let mut acc = GlweCiphertext::from_container(acc, PolynomialSize(poly), modulus);
    let (base_log, level) = (DecompositionBaseLog(base_log), DecompositionLevelCount(level));
    let (size, poly) = (acc.glwe_size(), PolynomialSize(poly));
    let prime = CiphertextModulus::new(prime as u128);
    let bsk = bsk.as_slice();
    let bsk = NttLweBootstrapKey::from_container(bsk, size, poly, base_log, level, prime);
    blind_rotate_ntt64_bnf_assign(&input, &mut acc, &bsk);
    acc.into_container()
}

/// Number of coefficients of the bootstrapping key for one coefficient of a mask.
pub open spec fn bsk_matrix_len(glwe_size: int, poly: int, level: int) -> int {
    level * (glwe_size * glwe_size * poly)
}

/// Number written with the digits of another one in the reverse order.
pub open spec fn digit_rev(n: int, digits: nat, radix: int) -> int
    decreases digits,
{
    if digits == 0 {
        0
    } else {
        let rest = (digits - 1) as nat;
        (n % radix) * pow(radix, rest) + digit_rev(n / radix, rest, radix)
    }
}

/// The digits of the transform number the coefficients of a polynomial.
pub open spec fn lut_order_ok(rtl: HpuParameters) -> bool {
    &&& rtl.ntt_params.radix > 0
    &&& pow(floor_pow2(rtl.ntt_params.radix as int), rtl.ntt_params.stg_nb as nat)
        == rtl.pbs_params.polynomial_size
    &&& 1 <= rtl.ntt_params.ct_width <= 64
    &&& (rtl.pbs_params.glwe_dimension + 1) * rtl.pbs_params.polynomial_size <= usize::MAX
}

/// Accumulator of a lookup table: a null mask, and the table in the natural order,
/// aligned with the most significant bits.
pub open spec fn accumulator(rtl: HpuParameters, lut: Seq<u64>) -> Seq<u64> {
    let poly = rtl.pbs_params.polynomial_size as int;
    let radix = floor_pow2(rtl.ntt_params.radix as int);
    let mask_len = rtl.pbs_params.glwe_dimension * poly;
    Seq::new(
        (mask_len + poly) as nat,
        |i: int|
            if i < mask_len {
                0
            } else {
                lut[digit_rev(i - mask_len, rtl.ntt_params.stg_nb as nat, radix)] << (64
                    - rtl.ntt_params.ct_width)
            },
    )
}

pub(crate) fn pow2_below(n: usize) -> (r: usize)
    requires
        n > 0,
    ensures
        r == floor_pow2(n as int),
        1 <= r <= n,
    decreases n,
{
    if n < 2 {
        1
    } else {
        2 * pow2_below(n / 2)
    }
}

pub(crate) fn reverse_digits(n: usize, digits: usize, radix: usize, size: usize) -> (r: usize)
    requires
        radix > 0,
        size == pow(radix as int, digits as nat),
    ensures
        r == digit_rev(n as int, digits as nat, radix as int),
        r < size,
    decreases digits,
{
    if digits == 0 {
        proof {
            lemma_pow0(radix as int);
        }
        0
    } else {
        let ghost rest = pow(radix as int, (digits - 1) as nat);
        proof {
            reveal(pow);
            assert(size == radix * rest);
            lemma_pow_positive(radix as int, (digits - 1) as nat);
            assert(size / radix == rest) by {
                lemma_div_by_multiple(rest, radix as int);
                assert(radix * rest == rest * radix) by (nonlinear_arith);
            }
            lemma_mod_bound(n as int, radix as int);
            assert((n % radix) * rest <= (radix - 1) * rest) by (nonlinear_arith)
                requires
                    n % radix <= radix - 1,
                    rest > 0,
            ;
            assert((radix - 1) * rest == radix * rest - rest) by (nonlinear_arith);
            assert((n % radix) * rest >= 0) by (nonlinear_arith)
                requires
                    n % radix >= 0,
                    rest > 0,
            ;
        }
        let sub: usize = size / radix;
        let low: usize = reverse_digits(n / radix, digits - 1, radix, sub);
        (n % radix) * sub + low
    }
}

/// Accumulator of a lookup table.
pub fn lut_to_accumulator(rtl: &HpuParameters, lut: &Vec<u64>) -> (r: Vec<u64>)
    requires
        lut_order_ok(*rtl),
        lut@.len() == rtl.pbs_params.polynomial_size,
    ensures
        r@ == accumulator(*rtl, lut@),
{
    let poly: usize = rtl.pbs_params.polynomial_size;
    let dim: usize = rtl.pbs_params.glwe_dimension;
    proof {
        assert((dim + 1) * poly == dim * poly + poly) by (nonlinear_arith);
        assert(dim * poly >= 0) by (nonlinear_arith);
    }
    let radix: usize = pow2_below(rtl.ntt_params.radix);
    let shift: u32 = 64 - rtl.ntt_params.ct_width;
    let mut r: Vec<u64> = vec![0u64; dim * poly];
    let ghost acc = accumulator(*rtl, lut@);
    for i in 0..poly
        invariant
            lut_order_ok(*rtl),
            lut@.len() == poly,
            poly == rtl.pbs_params.polynomial_size,
            dim == rtl.pbs_params.glwe_dimension,
            dim * poly >= 0,
            radix == floor_pow2(rtl.ntt_params.radix as int),
            1 <= radix,
            shift == 64 - rtl.ntt_params.ct_width,
            acc == accumulator(*rtl, lut@),
            r@.len() == dim * poly + i,
            forall|j: int| 0 <= j < r@.len() ==> #[trigger] r@[j] == acc[j],
    {
        let src: usize = reverse_digits(i, rtl.ntt_params.stg_nb, radix, poly);
        r.push(lut[src] << shift);
    }
    assert(r@ =~= acc);
    r
}

/// Number of bits of the modulus of a ciphertext that rotates an accumulator.
pub open spec fn rotation_log(rtl: HpuParameters) -> int {
    floor_log2(rtl.pbs_params.polynomial_size as int) + 1
}

/// Parameters and keys with which a bootstrapping can be done.
pub open spec fn pbs_ok(rtl: HpuParameters, ksk: Seq<u32>, bsk: Seq<u64>) -> bool {
    let p = rtl.pbs_params;
    let poly = p.polynomial_size as int;
    let prime = rtl.ntt_params.prime_modulus;
    &&& lut_order_ok(rtl)
    &&& ntt_ok(prime, poly)
    &&& p.modulus_switch_type is CenteredMeanNoiseReduction ==> rotation_log(rtl) < 32
    &&& p.glwe_dimension >= 1
    &&& p.modulus_switch_type is CenteredMeanNoiseReduction ==> p.lwe_dimension < 0x7fff_ffff
    &&& p.lwe_dimension < usize::MAX
    &&& p.ks_level >= 1 && p.ks_base_log >= 1 && p.ks_base_log * p.ks_level <= 32
    &&& 1 <= rtl.ks_params.width <= 32
    &&& ksk.len() == (p.glwe_dimension * poly) * (p.ks_level * (p.lwe_dimension + 1))
    &&& 1 <= p.ciphertext_width <= 64
    &&& p.pbs_level >= 1 && p.pbs_base_log >= 1 && p.pbs_base_log * p.pbs_level < 64
    &&& pow2((p.pbs_base_log - 1) as nat) < prime_value(prime)
    &&& bsk.len() == bsk_len(rtl)
    &&& forall|i: int| 0 <= i < bsk.len() ==> #[trigger] bsk[i] < prime_value(prime)
}

/// Ciphertext that leaves the keyswitch.
pub open spec fn after_ks(rtl: HpuParameters, ksk: Seq<u32>, lwe: Seq<u64>) -> Seq<u32> {
    let p = rtl.pbs_params;
    keyswitched(
        ksk,
        lwe,
        p.ks_base_log,
        p.ks_level,
        (p.lwe_dimension + 1) as usize,
        rtl.ks_params.width,
    )
}

/// Correction of the modulus switch.
pub open spec fn ms_correction(rtl: HpuParameters, lwe: Seq<u32>) -> u32 {
    match rtl.pbs_params.modulus_switch_type {
        HpuModulusSwitchType::Standard => 0,
        HpuModulusSwitchType::CenteredMeanNoiseReduction => centred_correction(
            lwe,
            rotation_log(rtl) as usize,
        ),
    }
}

/// Accumulator of a lookup table, rotated by a ciphertext.
pub open spec fn bootstrapped(
    rtl: HpuParameters,
    ksk: Seq<u32>,
    bsk: Seq<u64>,
    lwe: Seq<u64>,
    lut: Seq<u64>,
) -> Seq<u64> {
    let p = rtl.pbs_params;
    let small = after_ks(rtl, ksk, lwe);
    rotated(
        small,
        ms_correction(rtl, small),
        rotation_log(rtl) as usize,
        accumulator(rtl, lut),
        p.ciphertext_width,
        bsk,
        p.polynomial_size,
        p.pbs_base_log,
        p.pbs_level,
        prime_value(rtl.ntt_params.prime_modulus),
    )
}

fn prime_modulus(prime: HpuNttPrime) -> (r: u64)
    ensures
        r == prime_value(prime),
{
    match prime {
        HpuNttPrime::GF64 => 0xffff_ffff_0000_0001,
        HpuNttPrime::Solinas3_32_17_13 => 0xfffd_e001,
        HpuNttPrime::Solinas2_44_14 => 0xfff_ffff_c001,
    }
}

fn log2_below(n: usize) -> (r: usize)
    ensures
        r == floor_log2(n as int),
        r <= n,
    decreases n,
{
    if n < 2 {
        0
    } else {
        1 + log2_below(n / 2)
    }
}

proof fn lemma_log2_bound(n: int, k: nat)
    requires
        n <= pow2(k),
    ensures
        0 <= floor_log2(n) <= k,
    decreases k,
{
    if k == 0 {
        lemma2_to64();
    } else {
        lemma_pow2_unfold(k);
        if n >= 2 {
            lemma_log2_bound(n / 2, (k - 1) as nat);
        }
    }
}

/// Power of a number, where it is a machine integer.
pub(crate) fn power(radix: usize, exp: usize) -> (r: Option<usize>)
    requires
        radix > 0,
    ensures
        match r {
            Some(v) => v == pow(radix as int, exp as nat),
            None => pow(radix as int, exp as nat) > usize::MAX,
        },
{
    let mut acc: usize = 1;
    proof {
        lemma_pow0(radix as int);
    }
    for i in 0..exp
        invariant
            radix > 0,
            acc == pow(radix as int, i as nat),
    {
        proof {
            assert(pow(radix as int, (i + 1) as nat) == radix * acc) by {
                reveal(pow);
            }
            assert(acc * radix == radix * acc) by (nonlinear_arith);
            lemma_pow_increases(radix as nat, (i + 1) as nat, exp as nat);
        }
        match acc.checked_mul(radix) {
            Some(next) => {
                acc = next;
            },
            None => {
                return None;
            },
        }
    }
    Some(acc)
}

/// Product of three numbers, where it is a machine integer.
pub(crate) fn product(a: usize, b: usize, c: usize) -> (r: Option<usize>)
    ensures
        match r {
            Some(v) => v == a * (b * c),
            None => a * (b * c) > usize::MAX,
        },
{
    match b.checked_mul(c) {
        Some(bc) => a.checked_mul(bc),
        None => {
            if a == 0 {
                assert(a * (b * c) == 0) by (nonlinear_arith)
                    requires
                        a == 0,
                ;
                Some(0)
            } else {
                assert(a * (b * c) >= b * c) by (nonlinear_arith)
                    requires
                        a >= 1,
                        b * c >= 0,
                ;
                None
            }
        },
    }
}

/// Number of coefficients of the bootstrapping key.
pub open spec fn bsk_len(rtl: HpuParameters) -> int {
    let p = rtl.pbs_params;
    p.lwe_dimension * bsk_matrix_len(
        p.glwe_dimension + 1,
        p.polynomial_size as int,
        p.pbs_level as int,
    )
}

/// Number of coefficients of the bootstrapping key, where it is a machine integer.
pub fn bsk_size(rtl: &HpuParameters) -> (r: Option<usize>)
    requires
        rtl.pbs_params.glwe_dimension < usize::MAX,
    ensures
        match r {
            Some(v) => v == bsk_len(*rtl),
            None => bsk_len(*rtl) > usize::MAX,
        },
{
    let p = rtl.pbs_params;
    let poly: usize = p.polynomial_size;
    let size: usize = p.glwe_dimension + 1;
    assert(size * size * poly == size * (size * poly)) by (nonlinear_arith);
    match product(size, size, poly) {
        Some(m) => product(p.lwe_dimension, p.pbs_level, m),
        None => {
            let (n, l) = (p.lwe_dimension, p.pbs_level);
            assert(n == 0 || l == 0 ==> n * (l * (size * (size * poly))) == 0)
                by (nonlinear_arith);
            assert(n >= 1 && l >= 1 && size * (size * poly) >= 0 ==> n * (l * (size * (size
                * poly))) >= size * (size * poly)) by (nonlinear_arith);
            if n == 0 || l == 0 {
                Some(0)
            } else {
                None
            }
        },
    }
}

/// Number of words of the keyswitching key in the memory: its three dimensions are
/// rounded up to a whole number of blocks, and a word packs the levels of a block.
pub open spec fn ksk_hw_len(rtl: HpuParameters) -> int {
    let p = rtl.pbs_params;
    let ks = rtl.ks_params;
    (ks.lbx * div_ceil(p.lwe_dimension + 1, ks.lbx as int)) * ((ks.lby * div_ceil(
        p.glwe_dimension * p.polynomial_size,
        ks.lby as int,
    )) * div_ceil(p.ks_level as int, ks.lbz as int))
}

/// The dimensions of the keyswitching key in the memory are machine integers.
pub open spec fn ksk_hw_ok(rtl: HpuParameters) -> bool {
    let p = rtl.pbs_params;
    let ks = rtl.ks_params;
    &&& ks.lbx > 0 && ks.lby > 0 && ks.lbz > 0
    &&& p.lwe_dimension < usize::MAX
    &&& p.glwe_dimension * p.polynomial_size <= usize::MAX
    &&& ks.lbx * div_ceil(p.lwe_dimension + 1, ks.lbx as int) <= usize::MAX
    &&& ks.lby * div_ceil(p.glwe_dimension * p.polynomial_size, ks.lby as int) <= usize::MAX
    &&& ksk_hw_len(rtl) <= usize::MAX
}

/// Number of words of the keyswitching key in the memory.
pub fn ksk_hw_size(rtl: &HpuParameters) -> (r: usize)
    requires
        ksk_hw_ok(*rtl),
    ensures
        r == ksk_hw_len(*rtl),
{
    let p = rtl.pbs_params;
    let ks = rtl.ks_params;
    let x: usize = ks.lbx * quotient_ceil(p.lwe_dimension + 1, ks.lbx);
    let y: usize = ks.lby * quotient_ceil(p.glwe_dimension * p.polynomial_size, ks.lby);
    let z: usize = quotient_ceil(p.ks_level, ks.lbz);
    match product(x, y, z) {
        Some(v) => v,
        None => 0,
    }
}

/// Whether the dimensions of the keyswitching key in the memory are machine integers.
pub fn ksk_hw_fits(rtl: &HpuParameters) -> (r: bool)
    ensures
        r == ksk_hw_ok(*rtl),
{
    let p = rtl.pbs_params;
    let ks = rtl.ks_params;
    if ks.lbx == 0 || ks.lby == 0 || ks.lbz == 0 || p.lwe_dimension == usize::MAX {
        return false;
    }
    let x: Option<usize> = ks.lbx.checked_mul(quotient_ceil(p.lwe_dimension + 1, ks.lbx));
    let y: Option<usize> = match p.glwe_dimension.checked_mul(p.polynomial_size) {
        Some(n) => ks.lby.checked_mul(quotient_ceil(n, ks.lby)),
        None => None,
    };
    match (x, y) {
        (Some(x), Some(y)) => product(x, y, quotient_ceil(p.ks_level, ks.lbz)).is_some(),
        _ => false,
    }
}

/// Whether the digits of the transform number the coefficients of a polynomial.
pub fn lut_order_fits(rtl: &HpuParameters) -> (r: bool)
    ensures
        r == lut_order_ok(*rtl),
{
    let radix: usize = rtl.ntt_params.radix;
    let ct_width: u32 = rtl.ntt_params.ct_width;
    if radix == 0 || ct_width < 1 || ct_width > 64 || rtl.pbs_params.glwe_dimension == usize::MAX {
        proof {
            if rtl.pbs_params.glwe_dimension == usize::MAX && radix > 0 {
                lemma_floor_pow2(radix as int);
                lemma_pow_positive(floor_pow2(radix as int), rtl.ntt_params.stg_nb as nat);
                assert((usize::MAX + 1) * rtl.pbs_params.polynomial_size >= usize::MAX + 1
                    || rtl.pbs_params.polynomial_size == 0) by (nonlinear_arith);
            }
        }
        return false;
    }
    let size: usize = rtl.pbs_params.glwe_dimension + 1;
    match size.checked_mul(rtl.pbs_params.polynomial_size) {
        Some(_) => match power(pow2_below(radix), rtl.ntt_params.stg_nb) {
            Some(poly) => poly == rtl.pbs_params.polynomial_size,
            None => false,
        },
        None => false,
    }
}

pub(crate) proof fn lemma_floor_pow2(n: int)
    ensures
        floor_pow2(n) >= 1,
    decreases n,
{
    if n >= 2 {
        lemma_floor_pow2(n / 2);
    }
}

impl ServerKey {
    /// Whether a bootstrapping can be done with the parameters and the keys.
    pub fn usable(&self, rtl: &HpuParameters) -> (r: bool)
        ensures
            r == pbs_ok(*rtl, self.ksk@, self.bsk@),
    {
        let p = rtl.pbs_params;
        let poly: usize = p.polynomial_size;
        let prime: u64 = prime_modulus(rtl.ntt_params.prime_modulus);
        let max_size: usize = match rtl.ntt_params.prime_modulus {
            HpuNttPrime::GF64 => 0x8000_0000,
            HpuNttPrime::Solinas3_32_17_13 => 0x1000,
            HpuNttPrime::Solinas2_44_14 => 0x2000,
        };
        if !lut_order_fits(rtl) || poly < 16 || poly > max_size || pow2_below(poly) != poly {
            return false;
        }
        let centred = matches!(
            p.modulus_switch_type,
            HpuModulusSwitchType::CenteredMeanNoiseReduction
        );
        if centred && (log2_below(poly) >= 31 || p.lwe_dimension >= 0x7fff_ffff) {
            return false;
        }
        if p.glwe_dimension < 1 || p.lwe_dimension == usize::MAX || p.ks_level < 1 || p.ks_base_log
            < 1 || rtl.ks_params.width < 1 || rtl.ks_params.width > 32 || p.ciphertext_width < 1
            || p.ciphertext_width > 64 || p.pbs_level < 1 || p.pbs_base_log < 1 {
            return false;
        }
        let ks_bits = p.ks_base_log.checked_mul(p.ks_level);
        let pbs_bits = p.pbs_base_log.checked_mul(p.pbs_level);
        let bits_ok = match (ks_bits, pbs_bits) {
            (Some(ks), Some(pbs)) => ks <= 32 && pbs < 64,
            _ => false,
        };
        if !bits_ok {
            return false;
        }
        proof {
            let (base_log, level) = (p.pbs_base_log, p.pbs_level);
            assert(base_log <= base_log * level) by (nonlinear_arith)
                requires
                    level >= 1,
                    base_log >= 1,
            ;
            lemma_u64_pow2_no_overflow((base_log - 1) as nat);
            lemma_u64_shl_is_mul(1, (base_log - 1) as u64);
        }
        let half_base: u64 = 1u64 << ((p.pbs_base_log - 1) as u64);
        if half_base >= prime {
            return false;
        }
        self.lengths_fit(rtl) && self.is_reduced(prime)
    }

    /// Whether the keys have the lengths given by the parameters.
    fn lengths_fit(&self, rtl: &HpuParameters) -> (r: bool)
        requires
            lut_order_ok(*rtl),
            rtl.pbs_params.lwe_dimension < usize::MAX,
            rtl.pbs_params.glwe_dimension >= 1,
            rtl.pbs_params.polynomial_size >= 16,
        ensures
            r == ({
                let p = rtl.pbs_params;
                let poly = p.polynomial_size as int;
                &&& self.ksk@.len() == (p.glwe_dimension * poly) * (p.ks_level * (p.lwe_dimension
                    + 1))
                &&& self.bsk@.len() == bsk_len(*rtl)
            }),
    {
        let p = rtl.pbs_params;
        let poly: usize = p.polynomial_size;
        proof {
            assert((p.glwe_dimension + 1) * poly == p.glwe_dimension * poly + poly)
                by (nonlinear_arith);
            assert(p.glwe_dimension * poly >= p.glwe_dimension) by (nonlinear_arith)
                requires
                    poly >= 16,
            ;
        }
        let ksk_len = product(p.glwe_dimension * poly, p.ks_level, p.lwe_dimension + 1);
        let bsk_len = bsk_size(rtl);
        let (have_ksk, have_bsk): (usize, usize) = (self.ksk.len(), self.bsk.len());
        match (ksk_len, bsk_len) {
            (Some(k), Some(b)) => k == have_ksk && b == have_bsk,
            _ => false,
        }
    }

    /// Whether the coefficients of the bootstrapping key are less than a modulus.
    fn is_reduced(&self, prime: u64) -> (r: bool)
        ensures
            r == forall|i: int| 0 <= i < self.bsk@.len() ==> #[trigger] self.bsk@[i] < prime,
    {
        for i in 0..self.bsk.len()
            invariant
                forall|j: int| 0 <= j < i ==> #[trigger] self.bsk@[j] < prime,
        {
            if self.bsk[i] >= prime {
                return false;
            }
        }
        true
    }

    /// Rotates the accumulator of a lookup table by a ciphertext.
    pub fn bootstrap(&self, rtl: &HpuParameters, lwe: &Vec<u64>, lut: &Vec<u64>) -> (r: Vec<u64>)
        requires
            pbs_ok(*rtl, self.ksk@, self.bsk@),
            lwe@.len() == rtl.pbs_params.big_lwe_size(),
            lut@.len() == rtl.pbs_params.polynomial_size,
        ensures
            r@ == bootstrapped(*rtl, self.ksk@, self.bsk@, lwe@, lut@),
            r@.len() == (rtl.pbs_params.glwe_dimension + 1) * rtl.pbs_params.polynomial_size,
    {
        let p = rtl.pbs_params;
        let ghost prime = rtl.ntt_params.prime_modulus;
        proof {
            lemma2_to64();
            lemma_log2_bound(p.polynomial_size as int, 31);
            assert(p.glwe_dimension * p.polynomial_size >= 1) by (nonlinear_arith)
                requires
                    p.glwe_dimension >= 1,
                    p.polynomial_size >= 16,
            ;
            assert((p.glwe_dimension + 1) * p.polynomial_size == p.glwe_dimension
                * p.polynomial_size + p.polynomial_size) by (nonlinear_arith);
        }
        let out_size: usize = p.lwe_dimension + 1;
        let small = keyswitch(
            &self.ksk,
            lwe,
            p.ks_base_log,
            p.ks_level,
            out_size,
            rtl.ks_params.width,
        );
        let log_modulus: usize = log2_below(p.polynomial_size) + 1;
        let switched = match p.modulus_switch_type {
            HpuModulusSwitchType::Standard => standard_switch(small, log_modulus),
            HpuModulusSwitchType::CenteredMeanNoiseReduction => centred_switch(small, log_modulus),
        };
        let acc = lut_to_accumulator(rtl, lut);
        proof {
            let poly = p.polynomial_size as int;
            let size = p.glwe_dimension + 1;
            assert(acc@.len() == size * poly);
            lemma_div_by_multiple(size, poly);
            lemma_mod_multiples_basic(size, poly);
            assert(ntt_ok(prime, poly));
        }
        blind_rotate(
            &switched,
            acc,
            p.ciphertext_width,
            &self.bsk,
            p.polynomial_size,
            p.pbs_base_log,
            p.pbs_level,
            prime_modulus(rtl.ntt_params.prime_modulus),
        )
    }
}

/// The primes are those that their names give, as sums of powers of two.
pub proof fn primes_are_named_by_their_powers()
    ensures
        prime_value(HpuNttPrime::GF64) == pow2(64) - pow2(32) + 1,
        prime_value(HpuNttPrime::Solinas3_32_17_13) == pow2(32) - pow2(17) - pow2(13) + 1,
        prime_value(HpuNttPrime::Solinas2_44_14) == pow2(44) - pow2(14) + 1,
{
    lemma2_to64();
    vstd::arithmetic::power2::lemma2_to64_rest();
}

/// The greatest size of a polynomial is the one for which the modulus has just the roots of
/// unity that are needed: twice as many as coefficients.
pub proof fn sizes_follow_from_the_roots(prime: HpuNttPrime)
    ensures
        (prime_value(prime) - 1) % (2 * prime_max_size(prime)) == 0,
        (prime_value(prime) - 1) % (4 * prime_max_size(prime)) != 0,
{
    match prime {
        HpuNttPrime::GF64 => {
            assert(0xffff_ffff_0000_0000int % 0x1_0000_0000 == 0);
            assert(0xffff_ffff_0000_0000int % 0x2_0000_0000 == 0x1_0000_0000);
        },
        HpuNttPrime::Solinas3_32_17_13 => {
            assert(0xfffd_e000int % 0x2000 == 0);
            assert(0xfffd_e000int % 0x4000 == 0x2000);
        },
        HpuNttPrime::Solinas2_44_14 => {
            assert(0xfff_ffff_c000int % 0x4000 == 0);
            assert(0xfff_ffff_c000int % 0x8000 == 0x4000);
        },
    }
}

/// A power of two below a number is the greatest one, and its logarithm is that of the number,
/// rounded down.
pub proof fn powers_below_are_the_greatest(n: int)
    requires
        n >= 1,
    ensures
        1 <= floor_pow2(n) <= n < 2 * floor_pow2(n),
        floor_log2(n) >= 0,
        floor_pow2(n) == pow2(floor_log2(n) as nat),
    decreases n,
{
    if n < 2 {
        lemma2_to64();
    } else {
        powers_below_are_the_greatest(n / 2);
        lemma_pow2_unfold(floor_log2(n) as nat);
    }
}

/// A lookup table is the body of an accumulator whose mask is null, and each coefficient of the
/// body is an entry of the table, aligned with the most significant bits: the one whose rank has
/// the digits of the rank of the coefficient in the reverse order.
pub proof fn accumulator_is_the_table(rtl: HpuParameters, lut: Seq<u64>, i: int, a: nat)
    requires
        lut_order_ok(rtl),
        lut.len() == rtl.pbs_params.polynomial_size,
        0 <= i < rtl.pbs_params.polynomial_size,
    ensures
        ({
            let p = rtl.pbs_params;
            let mask_len = p.glwe_dimension * p.polynomial_size;
            let radix = floor_pow2(rtl.ntt_params.radix as int);
            let acc = accumulator(rtl, lut);
            &&& acc.len() == mask_len + p.polynomial_size
            &&& forall|j: int| 0 <= j < mask_len ==> #[trigger] acc[j] == 0
            &&& exists|k: int|
                {
                    &&& 0 <= k < lut.len()
                    &&& acc[mask_len + i] == #[trigger] lut[k] << (64 - rtl.ntt_params.ct_width)
                    &&& a < rtl.ntt_params.stg_nb ==> (k / pow(radix, a)) % radix == (i / pow(
                        radix,
                        (rtl.ntt_params.stg_nb - 1 - a) as nat,
                    )) % radix
                }
        }),
{
    let p = rtl.pbs_params;
    let radix = floor_pow2(rtl.ntt_params.radix as int);
    let digits = rtl.ntt_params.stg_nb as nat;
    assert(p.glwe_dimension * p.polynomial_size >= 0) by (nonlinear_arith);
    lemma_floor_pow2(rtl.ntt_params.radix as int);
    lemma_rev_bound(i, digits, radix);
    let k = digit_rev(i, digits, radix);
    if a < digits {
        super::order::digits_are_reversed(i, digits, radix, a);
    }
    assert(accumulator(rtl, lut)[p.glwe_dimension * p.polynomial_size + i] == lut[k] << (64
        - rtl.ntt_params.ct_width));
}

proof fn lemma_rev_bound(n: int, digits: nat, radix: int)
    requires
        radix > 0,
    ensures
        0 <= digit_rev(n, digits, radix) < pow(radix, digits),
    decreases digits,
{
    lemma_pow0(radix);
    if digits > 0 {
        let rest = (digits - 1) as nat;
        reveal(pow);
        lemma_rev_bound(n / radix, rest, radix);
        lemma_mod_bound(n, radix);
        let (a, w) = (n % radix, pow(radix, rest));
        assert(0 <= a * w && a * w + w <= radix * w) by (nonlinear_arith)
            requires
                0 <= a <= radix - 1,
                w > 0,
        ;
    }
}

} // verus!
