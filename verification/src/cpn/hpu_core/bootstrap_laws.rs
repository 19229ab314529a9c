//! Laws of the bootstrapping: what is extracted from an accumulator, and with which parameters
//! the accumulator is computed.
use vstd::arithmetic::div_mod::{lemma_fundamental_div_mod, lemma_fundamental_div_mod_converse};
use vstd::arithmetic::power2::{lemma_pow2_unfold, pow2};
use vstd::prelude::*;

use super::exec_laws::kept;
use super::lwe::{lwe_sample, wrap_sub};
use super::model::{fn_stride, pbs_regs, rd};
use super::pbs::{
    accumulator, after_ks, bootstrapped, centred_correction, keyswitched, ntt_ok,
    powers_below_are_the_greatest, prime_value, rotated, rotation_log,
};
use super::regfile::{shape_ok, stored_then_loaded};
use crate::cpn::insn::CtReg;
use crate::params::hpu::{HpuModulusSwitchType, HpuParameters};

verus! {

/// Product by the variable of polynomials of `n` coefficients, modulo the variable to the power
/// of `n`, plus one: the coefficients move up, and the last one comes back with the other sign.
pub open spec fn times_variable(glwe: Seq<u64>, n: int) -> Seq<u64> {
    Seq::new(
        glwe.len(),
        |i: int|
            if i % n == 0 {
                wrap_sub(0, glwe[i + n - 1])
            } else {
                glwe[i - 1]
            },
    )
}

/// A ciphertext extracted from an accumulator is the one extracted a degree further from the
/// product of the accumulator by the variable.
pub proof fn extraction_follows_the_degree(glwe: Seq<u64>, dim: int, n: int, degree: int, i: int)
    requires
        dim >= 0,
        n >= 1,
        glwe.len() == (dim + 1) * n,
        0 <= degree < n - 1,
        0 <= i <= dim * n,
    ensures
        lwe_sample(times_variable(glwe, n), dim, n, degree + 1)[i] == lwe_sample(
            glwe,
            dim,
            n,
            degree,
        )[i],
{
    assert((dim + 1) * n == dim * n + n) by (nonlinear_arith);
    assert(dim * n >= 0) by (nonlinear_arith)
        requires
            dim >= 0,
            n >= 1,
    ;
    let next = times_variable(glwe, n);
    if i == dim * n {
        lemma_fundamental_div_mod_converse(dim * n + degree + 1, n, dim, degree + 1);
    } else {
        let (poly, j) = (i / n, i % n);
        lemma_fundamental_div_mod(i, n);
        vstd::arithmetic::div_mod::lemma_mod_bound(i, n);
        assert(0 <= poly && poly * n + n <= dim * n) by (nonlinear_arith)
            requires
                i == n * poly + j,
                0 <= j < n,
                0 <= i < dim * n,
                n >= 1,
        ;
        if j <= degree {
            lemma_fundamental_div_mod_converse(
                poly * n + degree + 1 - j,
                n,
                poly,
                degree + 1 - j,
            );
        } else if j == degree + 1 {
            lemma_fundamental_div_mod_converse(poly * n, n, poly, 0);
            assert(next[poly * n] == wrap_sub(0, glwe[poly * n + n - 1]));
        } else {
            lemma_fundamental_div_mod_converse(
                poly * n + n + degree + 1 - j,
                n,
                poly,
                n + degree + 1 - j,
            );
        }
    }
}

/// The ciphertext extracted at the degree zero has the constant coefficient of the body, and the
/// coefficients of each polynomial of the mask from the constant one down, those that go round
/// with the other sign.
pub proof fn extraction_of_the_constant(glwe: Seq<u64>, dim: int, n: int, poly: int, j: int)
    requires
        n >= 1,
        0 <= poly < dim,
        0 <= j < n,
    ensures
        lwe_sample(glwe, dim, n, 0).len() == dim * n + 1,
        lwe_sample(glwe, dim, n, 0)[dim * n] == glwe[dim * n],
        lwe_sample(glwe, dim, n, 0)[poly * n + j] == (if j == 0 {
            glwe[poly * n] as int
        } else {
            (0 - glwe[(poly + 1) * n - j]) % 0x1_0000_0000_0000_0000
        }),
{
    lemma_fundamental_div_mod_converse(poly * n + j, n, poly, j);
    assert(0 <= poly * n && poly * n + n <= dim * n && (poly + 1) * n == poly * n + n)
        by (nonlinear_arith)
        requires
            n >= 1,
            0 <= poly <= dim - 1,
    ;
}

/// The outputs of a bootstrapping are extracted from the same accumulator, at degrees in
/// arithmetic progression, and put in consecutive registers: the body of each of them is a
/// coefficient of the body of the accumulator.
pub proof fn outputs_are_samples(
    rtl: HpuParameters,
    regs: Seq<Seq<Seq<u64>>>,
    keys: (Seq<u32>, Seq<u64>),
    lut_nb: int,
    dst: CtReg,
    src: CtReg,
    lut: Seq<u64>,
    k: int,
    out: CtReg,
)
    requires
        shape_ok(rtl),
        rtl.pbs_params.glwe_dimension >= 1,
        rtl.pbs_params.polynomial_size >= 1,
        0 <= k < lut_nb,
        dst.addr + k < regs.len(),
        out.addr == dst.addr + k,
    ensures
        ({
            let p = rtl.pbs_params;
            let mask_len = p.glwe_dimension * p.polynomial_size;
            let acc = bootstrapped(rtl, keys.0, keys.1, rd(rtl, regs, src), lut);
            rd(rtl, pbs_regs(rtl, regs, keys, lut_nb, dst, src, lut), out)[mask_len] == kept(
                rtl,
                acc[mask_len + k * fn_stride(p, lut_nb)] as int,
            )
        }),
{
    let p = rtl.pbs_params;
    let (dim, n) = (p.glwe_dimension as int, p.polynomial_size as int);
    let acc = bootstrapped(rtl, keys.0, keys.1, rd(rtl, regs, src), lut);
    let cpu = lwe_sample(acc, dim, n, k * fn_stride(p, lut_nb));
    assert(dim * n >= 1) by (nonlinear_arith)
        requires
            dim >= 1,
            n >= 1,
    ;
    stored_then_loaded(rtl, cpu, dim * n);
    vstd::arithmetic::div_mod::lemma_small_mod(
        acc[dim * n + k * fn_stride(p, lut_nb)] as nat,
        0x1_0000_0000_0000_0000,
    );
}

/// The rotation has one position for each coefficient and each sign: twice as many as
/// coefficients.
pub proof fn rotations_go_round_twice(rtl: HpuParameters)
    requires
        ntt_ok(rtl.ntt_params.prime_modulus, rtl.pbs_params.polynomial_size as int),
    ensures
        rotation_log(rtl) >= 1,
        pow2(rotation_log(rtl) as nat) == 2 * rtl.pbs_params.polynomial_size,
{
    let poly = rtl.pbs_params.polynomial_size as int;
    powers_below_are_the_greatest(poly);
    lemma_pow2_unfold(rotation_log(rtl) as nat);
}

/// A bootstrapping switches the key of its source with the keyswitching parameters, corrects the
/// result where the modulus is switched around its mean only, and rotates the accumulator of the
/// table by it with the bootstrapping parameters.
pub proof fn bootstrapping_uses_its_parameters(
    rtl: HpuParameters,
    ksk: Seq<u32>,
    bsk: Seq<u64>,
    lwe: Seq<u64>,
    lut: Seq<u64>,
    small: Seq<u32>,
    log: usize,
)
    requires
        rtl.pbs_params.lwe_dimension < usize::MAX,
        ntt_ok(rtl.ntt_params.prime_modulus, rtl.pbs_params.polynomial_size as int),
        pow2(log as nat) == 2 * rtl.pbs_params.polynomial_size,
        small == keyswitched(
            ksk,
            lwe,
            rtl.pbs_params.ks_base_log,
            rtl.pbs_params.ks_level,
            (rtl.pbs_params.lwe_dimension + 1) as usize,
            rtl.ks_params.width,
        ),
    ensures
        after_ks(rtl, ksk, lwe) == small,
        bootstrapped(rtl, ksk, bsk, lwe, lut) == rotated(
            small,
            match rtl.pbs_params.modulus_switch_type {
                HpuModulusSwitchType::Standard => 0,
                HpuModulusSwitchType::CenteredMeanNoiseReduction => centred_correction(small, log),
            },
            log,
            accumulator(rtl, lut),
            rtl.pbs_params.ciphertext_width,
            bsk,
            rtl.pbs_params.polynomial_size,
            rtl.pbs_params.pbs_base_log,
            rtl.pbs_params.pbs_level,
            prime_value(rtl.ntt_params.prime_modulus),
        ),
{
    rotations_go_round_twice(rtl);
    let other = rotation_log(rtl) as nat;
    if other < log {
        vstd::arithmetic::power2::lemma_pow2_strictly_increases(other, log as nat);
    } else if log < other {
        vstd::arithmetic::power2::lemma_pow2_strictly_increases(log as nat, other);
    }
}

} // verus!
