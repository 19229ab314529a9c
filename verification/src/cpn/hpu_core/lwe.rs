//! Arithmetic over ciphertexts, each a sequence of coefficients whose last one is
//! the body.
use tfhe::core_crypto::prelude::{
    extract_lwe_sample_from_glwe_ciphertext, lwe_ciphertext_add_assign,
    lwe_ciphertext_cleartext_mul_assign, lwe_ciphertext_opposite_assign,
    lwe_ciphertext_plaintext_add_assign, lwe_ciphertext_plaintext_sub_assign,
    lwe_ciphertext_sub_assign, CiphertextModulus, Cleartext, GlweCiphertext, LweCiphertext, LweSize,
    MonomialDegree, Plaintext, PolynomialSize,
};
use vstd::prelude::*;

verus! {

/// Sum modulo the number of values of a coefficient.
pub open spec fn wrap_add(a: u64, b: u64) -> u64 {
    ((a + b) % 0x1_0000_0000_0000_0000) as u64
}

/// Difference modulo the number of values of a coefficient.
pub open spec fn wrap_sub(a: u64, b: u64) -> u64 {
    ((a - b) % 0x1_0000_0000_0000_0000) as u64
}

/// Product modulo the number of values of a coefficient.
pub open spec fn wrap_mul(a: u64, b: u64) -> u64 {
    ((a * b) % 0x1_0000_0000_0000_0000) as u64
}

/// Sum of two ciphertexts.
pub open spec fn lwe_add(a: Seq<u64>, b: Seq<u64>) -> Seq<u64> {
    Seq::new(a.len(), |i: int| wrap_add(a[i], b[i]))
}

/// Difference of two ciphertexts.
pub open spec fn lwe_sub(a: Seq<u64>, b: Seq<u64>) -> Seq<u64> {
    Seq::new(a.len(), |i: int| wrap_sub(a[i], b[i]))
}

/// Product of a ciphertext and a constant.
pub open spec fn lwe_mul(a: Seq<u64>, cst: u64) -> Seq<u64> {
    Seq::new(a.len(), |i: int| wrap_mul(a[i], cst))
}

/// Opposite of a ciphertext.
pub open spec fn lwe_neg(a: Seq<u64>) -> Seq<u64> {
    Seq::new(a.len(), |i: int| wrap_sub(0, a[i]))
}

/// Sum of a ciphertext and an encoded constant, for a modulus of `width` bits: the
/// constant is aligned with the most significant bits of the body.
pub open spec fn lwe_add_plain(a: Seq<u64>, msg: u64, width: int) -> Seq<u64> {
    a.update(a.len() - 1, wrap_add(a.last(), msg << (64 - width)))
}

/// Difference of a ciphertext and an encoded constant, for a modulus of `width` bits.
pub open spec fn lwe_sub_plain(a: Seq<u64>, msg: u64, width: int) -> Seq<u64> {
    a.update(a.len() - 1, wrap_sub(a.last(), msg << (64 - width)))
}

/// Coefficient `i` of the ciphertext extracted at a degree from an accumulator of
/// polynomials of `n` coefficients. The coefficients of each mask polynomial are
/// reversed and rotated, with their sign changed when they cross the end.
pub open spec fn sample_coef(glwe: Seq<u64>, dim: int, n: int, degree: int, i: int) -> u64 {
    if i == dim * n {
        glwe[dim * n + degree]
    } else {
        let poly = i / n;
        let j = i % n;
        if j <= degree {
            glwe[poly * n + degree - j]
        } else {
            wrap_sub(0, glwe[poly * n + n + degree - j])
        }
    }
}

/// Ciphertext extracted at a degree from an accumulator.
pub open spec fn lwe_sample(glwe: Seq<u64>, dim: int, n: int, degree: int) -> Seq<u64> {
    Seq::new((dim * n + 1) as nat, |i: int| sample_coef(glwe, dim, n, degree, i))
}

/// Calls `lwe_ciphertext_add_assign`: the coefficients are added one by one, modulo
/// the number of their values.
#[verifier::external_body]
pub(crate) fn add_assign(lhs: Vec<u64>, rhs: &Vec<u64>) -> (r: Vec<u64>)
    requires
        lhs@.len() > 0,
        lhs@.len() == rhs@.len(),
    ensures
        r@ == lwe_add(lhs@, rhs@),
{
    let modulus = CiphertextModulus::new_native();
    let mut lhs = LweCiphertext::from_container(lhs, modulus);
    lwe_ciphertext_add_assign(&mut lhs, &LweCiphertext::from_container(rhs.as_slice(), modulus));
    lhs.into_container()
}

/// Calls `lwe_ciphertext_sub_assign`: the coefficients are subtracted one by one,
/// modulo the number of their values.
#[verifier::external_body]
pub(crate) fn sub_assign(lhs: Vec<u64>, rhs: &Vec<u64>) -> (r: Vec<u64>)
    requires
        lhs@.len() > 0,
        lhs@.len() == rhs@.len(),
    ensures
        r@ == lwe_sub(lhs@, rhs@),
{
    let modulus = CiphertextModulus::new_native();
    let mut lhs = LweCiphertext::from_container(lhs, modulus);
    lwe_ciphertext_sub_assign(&mut lhs, &LweCiphertext::from_container(rhs.as_slice(), modulus));
    lhs.into_container()
}

/// Calls `lwe_ciphertext_cleartext_mul_assign`: each coefficient is multiplied,
/// modulo the number of its values.
#[verifier::external_body]
pub(crate) fn mul_assign(lhs: Vec<u64>, cst: u64) -> (r: Vec<u64>)
    requires
        lhs@.len() > 0,
    ensures
        r@ == lwe_mul(lhs@, cst),
{
    let mut lhs = LweCiphertext::from_container(lhs, CiphertextModulus::new_native());
    lwe_ciphertext_cleartext_mul_assign(&mut lhs, Cleartext(cst));
    lhs.into_container()
}

/// Calls `lwe_ciphertext_opposite_assign`: each coefficient is replaced by its
/// opposite, modulo the number of its values.
#[verifier::external_body]
pub(crate) fn opposite_assign(lhs: Vec<u64>) -> (r: Vec<u64>)
    requires
        lhs@.len() > 0,
    ensures
        r@ == lwe_neg(lhs@),
{
    let mut lhs = LweCiphertext::from_container(lhs, CiphertextModulus::new_native());
    lwe_ciphertext_opposite_assign(&mut lhs);
    lhs.into_container()
}

/// Calls `lwe_ciphertext_plaintext_add_assign` for a modulus that is a power of
/// two: the constant, scaled to the most significant bits, is added to the body.
#[verifier::external_body]
pub(crate) fn plaintext_add_assign(lhs: Vec<u64>, msg: u64, width: usize) -> (r: Vec<u64>)
    requires
        lhs@.len() > 0,
        1 <= width <= 64,
    ensures
        r@ == lwe_add_plain(lhs@, msg, width as int),
{
    let modulus = CiphertextModulus::try_new_power_of_2(width).unwrap();
    let mut lhs = LweCiphertext::from_container(lhs, modulus);
    lwe_ciphertext_plaintext_add_assign(&mut lhs, Plaintext(msg));
    lhs.into_container()
}

/// Calls `lwe_ciphertext_plaintext_sub_assign` for a modulus that is a power of
/// two: the constant, scaled to the most significant bits, is subtracted from the
/// body.
#[verifier::external_body]
pub(crate) fn plaintext_sub_assign(lhs: Vec<u64>, msg: u64, width: usize) -> (r: Vec<u64>)
    requires
        lhs@.len() > 0,
        1 <= width <= 64,
    ensures
        r@ == lwe_sub_plain(lhs@, msg, width as int),
{
    let modulus = CiphertextModulus::try_new_power_of_2(width).unwrap();
    let mut lhs = LweCiphertext::from_container(lhs, modulus);
    lwe_ciphertext_plaintext_sub_assign(&mut lhs, Plaintext(msg));
    lhs.into_container()
}

/// Calls `extract_lwe_sample_from_glwe_ciphertext` on an accumulator made of `dim`
/// mask polynomials and a body of `n` coefficients each.
#[verifier::external_body]
pub(crate) fn extract_sample(glwe: &Vec<u64>, dim: usize, n: usize, degree: usize) -> (r: Vec<u64>)
    requires
        n > 0,
        degree < n,
        glwe@.len() == (dim + 1) * n,
    ensures
        r@ == lwe_sample(glwe@, dim as int, n as int, degree as int),
{
    let modulus = CiphertextModulus::new_native();
    let glwe = GlweCiphertext::from_container(glwe.as_slice(), PolynomialSize(n), modulus);
    let mut lwe = LweCiphertext::new(0u64, LweSize(dim * n + 1), modulus);
    extract_lwe_sample_from_glwe_ciphertext(&glwe, &mut lwe, MonomialDegree(degree));
    lwe.into_container()
}

} // verus!
