//! Order in which the transform takes the coefficients of a polynomial.
use vstd::arithmetic::div_mod::{
    lemma_fundamental_div_mod, lemma_fundamental_div_mod_converse, lemma_mod_bound,
};
use vstd::arithmetic::power::{
    lemma_pow0, lemma_pow_adds, lemma_pow_increases, lemma_pow_positive, pow,
};
use vstd::arithmetic::power2::{lemma2_to64, lemma_pow2};
use vstd::prelude::*;

use super::pbs::{
    digit_rev, floor_pow2, lemma_floor_pow2, pow2_below, power, reverse_digits,
};
use crate::params::hpu::{HpuNttCoreArch, HpuParameters};

verus! {

/// Number of bits of the cuts of a Goldilocks core, from one of them on.
pub open spec fn cut_bits(cuts: Seq<u8>, j: int) -> nat
    decreases cuts.len() - j,
{
    if j < 0 || j >= cuts.len() {
        0
    } else {
        cuts[j] as nat + cut_bits(cuts, j + 1)
    }
}

/// Coefficient at a position of the order given by the cuts: the number of the part that the
/// first cut makes, and above it the coefficient at a position of the order given by the
/// others.
pub open spec fn cut_order(cuts: Seq<u8>, j: int, c: int) -> int
    decreases cuts.len() - j,
{
    if j < 0 || j + 1 >= cuts.len() {
        c
    } else {
        let sub = pow(2, cut_bits(cuts, j + 1));
        pow(2, cuts[j] as nat) * cut_order(cuts, j + 1, c % sub) + c / sub
    }
}

/// Number whose lowest `rank` digits are those of another one, and whose next digits, up to
/// `digits` of them, are in the reverse order.
pub open spec fn partial_rev(n: int, digits: nat, rank: nat, radix: int) -> int {
    let low = pow(radix, rank);
    low * digit_rev(n / low, (digits - rank) as nat, radix) + n % low
}

/// Number of stages that follow the first one in the last pass of the network.
pub open spec fn ls_delta(rtl: HpuParameters) -> int {
    let ntt = rtl.ntt_params;
    if ntt.stg_nb % ntt.delta == 0 {
        ntt.delta - 1
    } else {
        ntt.stg_nb % ntt.delta - 1
    }
}

/// Coefficient at a position of the network.
pub open spec fn network_order(rtl: HpuParameters, c: int) -> int {
    let radix = floor_pow2(rtl.ntt_params.radix as int);
    let digits = (rtl.ntt_params.stg_nb - 1) as nat;
    radix * partial_rev(c / radix, digits, ls_delta(rtl) as nat, radix) + c % radix
}

/// Coefficient of a polynomial that the transform takes at a position.
pub open spec fn ntt_order(rtl: HpuParameters, c: int) -> int {
    match rtl.ntt_params.core_arch {
        HpuNttCoreArch::GF64(cuts) => digit_rev(
            cut_order(cuts@, 0, c),
            cut_bits(cuts@, 0),
            2,
        ),
        _ => network_order(rtl, c),
    }
}

/// The architecture of the transform orders polynomials of some size, of which it takes the
/// first `len` positions.
pub open spec fn ntt_arch_ok(rtl: HpuParameters, len: int) -> bool {
    match rtl.ntt_params.core_arch {
        HpuNttCoreArch::GF64(cuts) => {
            &&& cuts@.len() > 0
            &&& len <= pow(2, cut_bits(cuts@, 0)) <= usize::MAX
        },
        _ => {
            &&& rtl.ntt_params.radix > 0
            &&& rtl.ntt_params.delta > 0
            &&& rtl.ntt_params.stg_nb > 0
            &&& len <= pow(floor_pow2(rtl.ntt_params.radix as int), rtl.ntt_params.stg_nb as nat)
                <= usize::MAX
        },
    }
}

/// A number with two digits is less than the product of their bounds.
pub(crate) proof fn lemma_digits(a: int, b: int, m: int, n: int)
    requires
        0 <= a < m,
        0 <= b < n,
    ensures
        0 <= a * n <= a * n + b < m * n,
        (a * n + b) / n == a,
        (a * n + b) % n == b,
        m <= m * n,
        n <= m * n,
{
    assert(0 <= a * n <= a * n + b < m * n && m <= m * n && n <= m * n) by (nonlinear_arith)
        requires
            0 <= a <= m - 1,
            0 <= b < n,
    ;
    lemma_fundamental_div_mod_converse(a * n + b, n, a, b);
}

/// Digits of a number that is less than the product of their bounds.
pub(crate) proof fn lemma_of_digits(i: int, m: int, n: int)
    requires
        0 <= i < m * n,
        0 < n,
    ensures
        0 <= i / n < m,
        0 <= i % n < n,
        i == (i / n) * n + i % n,
{
    lemma_fundamental_div_mod(i, n);
    lemma_mod_bound(i, n);
    let q = i / n;
    assert(0 <= q < m && n * q == q * n) by (nonlinear_arith)
        requires
            n * q + i % n == i,
            0 <= i % n < n,
            0 <= i < m * n,
    ;
}

proof fn lemma_rev(n: int, digits: nat, radix: int)
    requires
        radix > 0,
    ensures
        0 <= digit_rev(n, digits, radix) < pow(radix, digits),
    decreases digits,
{
    lemma_pow0(radix);
    if digits > 0 {
        let rest = (digits - 1) as nat;
        reveal(pow);
        lemma_rev(n / radix, rest, radix);
        lemma_mod_bound(n, radix);
        lemma_digits(n % radix, digit_rev(n / radix, rest, radix), radix, pow(radix, rest));
    }
}

proof fn lemma_rev_injective(a: int, b: int, digits: nat, radix: int)
    requires
        radix > 0,
        0 <= a < pow(radix, digits),
        0 <= b < pow(radix, digits),
        digit_rev(a, digits, radix) == digit_rev(b, digits, radix),
    ensures
        a == b,
    decreases digits,
{
    lemma_pow0(radix);
    if digits > 0 {
        let rest = (digits - 1) as nat;
        let size = pow(radix, rest);
        reveal(pow);
        assert(pow(radix, digits) == size * radix) by (nonlinear_arith)
            requires
                pow(radix, digits) == radix * size,
        ;
        lemma_of_digits(a, size, radix);
        lemma_of_digits(b, size, radix);
        lemma_rev(a / radix, rest, radix);
        lemma_rev(b / radix, rest, radix);
        lemma_digits(a % radix, digit_rev(a / radix, rest, radix), radix, size);
        lemma_digits(b % radix, digit_rev(b / radix, rest, radix), radix, size);
        lemma_rev_injective(a / radix, b / radix, rest, radix);
    }
}

/// The digits of a number are put in the reverse order: each of them takes the place of the one
/// as far from the other end.
pub proof fn digits_are_reversed(n: int, digits: nat, radix: int, i: nat)
    requires
        radix > 0,
        n >= 0,
        i < digits,
    ensures
        (digit_rev(n, digits, radix) / pow(radix, i)) % radix == (n / pow(
            radix,
            (digits - 1 - i) as nat,
        )) % radix,
    decreases digits,
{
    let rest = (digits - 1) as nat;
    let low = digit_rev(n / radix, rest, radix);
    let a = n % radix;
    lemma_pow0(radix);
    lemma_rev(n / radix, rest, radix);
    lemma_mod_bound(n, radix);
    lemma_pow_positive(radix, rest);
    if i == rest {
        lemma_digits(a, low, radix, pow(radix, rest));
        vstd::arithmetic::div_mod::lemma_small_mod(a as nat, radix as nat);
        assert(n / pow(radix, 0) == n) by {
            vstd::arithmetic::div_mod::lemma_div_basics(n);
        }
    } else {
        let (w, k) = (pow(radix, i), (rest - i) as nat);
        let h = pow(radix, (k - 1) as nat);
        vstd::arithmetic::div_mod::lemma_div_pos_is_pos(n, radix);
        digits_are_reversed(n / radix, rest, radix, i);
        lemma_pow_positive(radix, i);
        lemma_pow_adds(radix, i, k);
        reveal(pow);
        assert(pow(radix, k) == radix * h);
        assert(a * pow(radix, rest) == (a * h * radix) * w) by (nonlinear_arith)
            requires
                pow(radix, rest) == w * pow(radix, k),
                pow(radix, k) == radix * h,
        ;
        lemma_fundamental_div_mod(low, w);
        lemma_mod_bound(low, w);
        assert(w * (low / w) == (low / w) * w && (a * h * radix + low / w) * w == (a * h * radix) * w
            + (low / w) * w) by (nonlinear_arith);
        lemma_fundamental_div_mod_converse(
            a * pow(radix, rest) + low,
            w,
            a * h * radix + low / w,
            low % w,
        );
        assert((a * h * radix + low / w) % radix == (low / w) % radix) by {
            vstd::arithmetic::div_mod::lemma_mod_multiples_vanish(a * h, low / w, radix);
            assert(radix * (a * h) == a * h * radix) by (nonlinear_arith);
        }
        lemma_pow_positive(radix, (k - 1) as nat);
        vstd::arithmetic::div_mod::lemma_div_denominator(n, radix, h);
    }
}

/// The cuts from one on make parts of the same size.
proof fn lemma_cut_bits(cuts: Seq<u8>, j: int)
    requires
        0 <= j < cuts.len(),
    ensures
        pow(2, cut_bits(cuts, j)) == pow(2, cuts[j] as nat) * pow(2, cut_bits(cuts, j + 1)),
        pow(2, cuts[j] as nat) > 0,
        pow(2, cut_bits(cuts, j + 1)) > 0,
        cut_bits(cuts, cuts.len() as int) == 0,
{
    lemma_pow_adds(2, cuts[j] as nat, cut_bits(cuts, j + 1));
    lemma_pow_positive(2, cuts[j] as nat);
    lemma_pow_positive(2, cut_bits(cuts, j + 1));
}

proof fn lemma_cut_order(cuts: Seq<u8>, j: int, c: int)
    requires
        0 <= j < cuts.len(),
        0 <= c < pow(2, cut_bits(cuts, j)),
    ensures
        0 <= cut_order(cuts, j, c) < pow(2, cut_bits(cuts, j)),
    decreases cuts.len() - j,
{
    if j + 1 < cuts.len() {
        let (left, sub) = (pow(2, cuts[j] as nat), pow(2, cut_bits(cuts, j + 1)));
        lemma_cut_bits(cuts, j);
        lemma_of_digits(c, left, sub);
        lemma_cut_order(cuts, j + 1, c % sub);
        lemma_digits(cut_order(cuts, j + 1, c % sub), c / sub, sub, left);
        assert(sub * left == left * sub) by (nonlinear_arith);
        let high = cut_order(cuts, j + 1, c % sub);
        assert(left * high == high * left) by (nonlinear_arith);
    }
}

proof fn lemma_cut_order_injective(cuts: Seq<u8>, j: int, a: int, b: int)
    requires
        0 <= j < cuts.len(),
        0 <= a < pow(2, cut_bits(cuts, j)),
        0 <= b < pow(2, cut_bits(cuts, j)),
        cut_order(cuts, j, a) == cut_order(cuts, j, b),
    ensures
        a == b,
    decreases cuts.len() - j,
{
    if j + 1 < cuts.len() {
        let (left, sub) = (pow(2, cuts[j] as nat), pow(2, cut_bits(cuts, j + 1)));
        lemma_cut_bits(cuts, j);
        lemma_of_digits(a, left, sub);
        lemma_of_digits(b, left, sub);
        lemma_cut_order(cuts, j + 1, a % sub);
        lemma_cut_order(cuts, j + 1, b % sub);
        let high_a = cut_order(cuts, j + 1, a % sub);
        let high_b = cut_order(cuts, j + 1, b % sub);
        assert(left * high_a == high_a * left) by (nonlinear_arith);
        assert(left * high_b == high_b * left) by (nonlinear_arith);
        lemma_digits(high_a, a / sub, sub, left);
        lemma_digits(high_b, b / sub, sub, left);
        lemma_cut_order_injective(cuts, j + 1, a % sub, b % sub);
    }
}

proof fn lemma_partial_rev(n: int, digits: nat, rank: nat, radix: int)
    requires
        radix > 0,
        rank <= digits,
        0 <= n < pow(radix, digits),
    ensures
        0 <= partial_rev(n, digits, rank, radix) < pow(radix, digits),
        pow(radix, digits) == pow(radix, (digits - rank) as nat) * pow(radix, rank),
        pow(radix, rank) > 0,
        pow(radix, (digits - rank) as nat) > 0,
        0 <= n / pow(radix, rank) < pow(radix, (digits - rank) as nat),
        partial_rev(n, digits, rank, radix) / pow(radix, rank) == digit_rev(
            n / pow(radix, rank),
            (digits - rank) as nat,
            radix,
        ),
        partial_rev(n, digits, rank, radix) % pow(radix, rank) == n % pow(radix, rank),
{
    let top = (digits - rank) as nat;
    let (low, high) = (pow(radix, rank), pow(radix, top));
    lemma_pow_adds(radix, top, rank);
    lemma_pow_positive(radix, rank);
    lemma_pow_positive(radix, top);
    lemma_of_digits(n, high, low);
    lemma_rev(n / low, top, radix);
    let rev = digit_rev(n / low, top, radix);
    lemma_digits(rev, n % low, high, low);
    assert(low * rev == rev * low) by (nonlinear_arith);
}

proof fn lemma_partial_rev_injective(a: int, b: int, digits: nat, rank: nat, radix: int)
    requires
        radix > 0,
        rank <= digits,
        0 <= a < pow(radix, digits),
        0 <= b < pow(radix, digits),
        partial_rev(a, digits, rank, radix) == partial_rev(b, digits, rank, radix),
    ensures
        a == b,
{
    let low = pow(radix, rank);
    lemma_partial_rev(a, digits, rank, radix);
    lemma_partial_rev(b, digits, rank, radix);
    lemma_rev_injective(a / low, b / low, (digits - rank) as nat, radix);
    lemma_fundamental_div_mod(a, low);
    lemma_fundamental_div_mod(b, low);
}

proof fn lemma_ls_delta(rtl: HpuParameters)
    requires
        rtl.ntt_params.delta > 0,
        rtl.ntt_params.stg_nb > 0,
    ensures
        0 <= ls_delta(rtl) < rtl.ntt_params.stg_nb,
{
    let (stages, delta) = (rtl.ntt_params.stg_nb as int, rtl.ntt_params.delta as int);
    lemma_fundamental_div_mod(stages, delta);
    lemma_mod_bound(stages, delta);
    let q = stages / delta;
    assert(stages % delta <= stages && (stages % delta == 0 ==> delta <= stages))
        by (nonlinear_arith)
        requires
            delta * q + stages % delta == stages,
            0 <= stages % delta < delta,
            stages > 0,
    ;
}

proof fn lemma_network_order(rtl: HpuParameters, len: int, c: int)
    requires
        ntt_arch_ok(rtl, len),
        !(rtl.ntt_params.core_arch is GF64),
        0 <= c < len,
    ensures
        ({
            let radix = floor_pow2(rtl.ntt_params.radix as int);
            let digits = (rtl.ntt_params.stg_nb - 1) as nat;
            let rank = ls_delta(rtl) as nat;
            &&& radix > 0
            &&& rank <= digits
            &&& pow(radix, rtl.ntt_params.stg_nb as nat) == pow(radix, digits) * radix
            &&& 0 <= c / radix < pow(radix, digits)
            &&& 0 <= network_order(rtl, c) < pow(radix, rtl.ntt_params.stg_nb as nat)
            &&& network_order(rtl, c) / radix == partial_rev(c / radix, digits, rank, radix)
            &&& network_order(rtl, c) % radix == c % radix
        }),
{
    let ntt = rtl.ntt_params;
    let radix = floor_pow2(ntt.radix as int);
    let digits = (ntt.stg_nb - 1) as nat;
    let rank = ls_delta(rtl) as nat;
    lemma_floor_pow2(ntt.radix as int);
    lemma_ls_delta(rtl);
    assert(pow(radix, ntt.stg_nb as nat) == radix * pow(radix, digits)) by {
        reveal(pow);
    }
    let size = pow(radix, digits);
    assert(radix * size == size * radix) by (nonlinear_arith);
    lemma_of_digits(c, size, radix);
    lemma_partial_rev(c / radix, digits, rank, radix);
    let rev = partial_rev(c / radix, digits, rank, radix);
    lemma_digits(rev, c % radix, size, radix);
    assert(radix * rev == rev * radix) by (nonlinear_arith);
}

pub(crate) proof fn lemma_ntt_order(rtl: HpuParameters, len: int, c: int)
    requires
        ntt_arch_ok(rtl, len),
        0 <= c < len,
    ensures
        0 <= ntt_order(rtl, c),
{
    match rtl.ntt_params.core_arch {
        HpuNttCoreArch::GF64(cuts) => {
            lemma_rev(cut_order(cuts@, 0, c), cut_bits(cuts@, 0), 2);
        },
        _ => {
            lemma_network_order(rtl, len, c);
        },
    }
}

/// The transform takes a coefficient at one position only.
pub proof fn ntt_order_injective(rtl: HpuParameters, len: int, a: int, b: int)
    requires
        ntt_arch_ok(rtl, len),
        0 <= a < len,
        0 <= b < len,
        ntt_order(rtl, a) == ntt_order(rtl, b),
    ensures
        a == b,
{
    match rtl.ntt_params.core_arch {
        HpuNttCoreArch::GF64(cuts) => {
            lemma_cut_order(cuts@, 0, a);
            lemma_cut_order(cuts@, 0, b);
            lemma_rev_injective(
                cut_order(cuts@, 0, a),
                cut_order(cuts@, 0, b),
                cut_bits(cuts@, 0),
                2,
            );
            lemma_cut_order_injective(cuts@, 0, a, b);
        },
        _ => {
            let radix = floor_pow2(rtl.ntt_params.radix as int);
            let digits = (rtl.ntt_params.stg_nb - 1) as nat;
            lemma_network_order(rtl, len, a);
            lemma_network_order(rtl, len, b);
            lemma_partial_rev_injective(
                a / radix,
                b / radix,
                digits,
                ls_delta(rtl) as nat,
                radix,
            );
            lemma_fundamental_div_mod(a, radix);
            lemma_fundamental_div_mod(b, radix);
        },
    }
}

proof fn lemma_cut_bits_order(cuts: Seq<u8>, i: int, j: int)
    requires
        0 <= i <= j,
    ensures
        cut_bits(cuts, j) <= cut_bits(cuts, i),
    decreases j - i,
{
    if i < j {
        lemma_cut_bits_order(cuts, i + 1, j);
    }
}

/// Size of the polynomials that the cuts of a Goldilocks core order, with its logarithm, where
/// it is a machine integer.
fn cut_size(cuts: &Vec<u8>) -> (r: Option<(usize, usize)>)
    ensures
        match r {
            Some((bits, size)) => bits == cut_bits(cuts@, 0) && size == pow(2, bits as nat),
            None => pow(2, cut_bits(cuts@, 0)) > usize::MAX,
        },
{
    let mut bits: usize = 0;
    let mut j: usize = cuts.len();
    while j > 0
        invariant
            j <= cuts@.len(),
            bits == cut_bits(cuts@, j as int),
            bits <= 64,
        decreases j,
    {
        j = j - 1;
        bits = cuts[j] as usize + bits;
        if bits > 64 {
            proof {
                lemma_cut_bits_order(cuts@, 0, j as int);
                lemma_pow_increases(2, 64, cut_bits(cuts@, 0));
                lemma_pow2(64);
                lemma2_to64();
            }
            return None;
        }
    }
    match power(2, bits) {
        Some(size) => Some((bits, size)),
        None => None,
    }
}

/// Coefficient at a position of the order given by the cuts.
fn cut_index(cuts: &Vec<u8>, j: usize, c: usize, size: usize) -> (r: usize)
    requires
        j < cuts@.len(),
        size == pow(2, cut_bits(cuts@, j as int)),
        c < size,
    ensures
        r == cut_order(cuts@, j as int, c as int),
        r < size,
    decreases cuts@.len() - j,
{
    proof {
        lemma_cut_order(cuts@, j as int, c as int);
    }
    if cuts.len() - j == 1 {
        return c;
    }
    let ghost sub_size = pow(2, cut_bits(cuts@, j + 1));
    let ghost left_size = pow(2, cuts@[j as int] as nat);
    proof {
        lemma_cut_bits(cuts@, j as int);
        assert(left_size <= left_size * sub_size) by (nonlinear_arith)
            requires
                left_size > 0,
                sub_size > 0,
        ;
    }
    let left: usize = match power(2, cuts[j] as usize) {
        Some(left) => left,
        None => size,
    };
    proof {
        lemma_fundamental_div_mod_converse(size as int, left as int, sub_size, 0);
        lemma_of_digits(c as int, left_size, sub_size);
        lemma_cut_order(cuts@, j + 1, c as int % sub_size);
        let high = cut_order(cuts@, j + 1, c as int % sub_size);
        assert(left_size * high >= 0) by (nonlinear_arith)
            requires
                left_size > 0,
                high >= 0,
        ;
    }
    let sub: usize = size / left;
    left * cut_index(cuts, j + 1, c % sub, sub) + c / sub
}

/// Coefficient at a position of the network.
fn network_index(c: usize, radix: usize, low: usize, top: usize, high: usize) -> (r: usize)
    requires
        radix > 0,
        low > 0,
        high == pow(radix as int, top as nat),
        c < (high * low) * radix <= usize::MAX,
    ensures
        ({
            let (n, base) = (c as int / radix as int, radix as int);
            let rev = digit_rev(n / low as int, top as nat, base);
            r == base * (low * rev + n % low as int) + c as int % base
        }),
{
    let n: usize = c / radix;
    let ghost rev = digit_rev(n as int / low as int, top as nat, radix as int);
    proof {
        lemma_of_digits(c as int, high * low, radix as int);
        lemma_of_digits(n as int, high as int, low as int);
        lemma_rev(n as int / low as int, top as nat, radix as int);
        lemma_digits(rev, n as int % low as int, high as int, low as int);
        let m = rev * low + n as int % low as int;
        lemma_digits(m, c as int % radix as int, high * low, radix as int);
        assert(low * rev == rev * low) by (nonlinear_arith);
        assert(radix * m == m * radix) by (nonlinear_arith);
    }
    radix * (low * reverse_digits(n / low, top, radix, high) + n % low) + c % radix
}

/// Coefficients of a polynomial, in the order in which the transform takes the first `len` of
/// them.
pub fn ntt_coefficients(rtl: &HpuParameters, len: usize) -> (r: Vec<usize>)
    requires
        ntt_arch_ok(*rtl, len as int),
    ensures
        r@.len() == len,
        forall|c: int| 0 <= c < len ==> #[trigger] r@[c] == ntt_order(*rtl, c),
{
    match &rtl.ntt_params.core_arch {
        HpuNttCoreArch::GF64(cuts) => cut_coefficients(cuts, len),
        _ => network_coefficients(rtl, len),
    }
}

fn cut_coefficients(cuts: &Vec<u8>, len: usize) -> (r: Vec<usize>)
    requires
        cuts@.len() > 0,
        len <= pow(2, cut_bits(cuts@, 0)) <= usize::MAX,
    ensures
        r@.len() == len,
        forall|c: int|
            0 <= c < len ==> #[trigger] r@[c] == digit_rev(
                cut_order(cuts@, 0, c),
                cut_bits(cuts@, 0),
                2,
            ),
{
    let (bits, size): (usize, usize) = match cut_size(cuts) {
        Some(size) => size,
        None => (0, 0),
    };
    let mut r: Vec<usize> = Vec::new();
    for c in 0..len
        invariant
            cuts@.len() > 0,
            len <= size,
            bits == cut_bits(cuts@, 0),
            size == pow(2, bits as nat),
            r@.len() == c,
            forall|i: int|
                0 <= i < c ==> #[trigger] r@[i] == digit_rev(
                    cut_order(cuts@, 0, i),
                    cut_bits(cuts@, 0),
                    2,
                ),
    {
        r.push(reverse_digits(cut_index(cuts, 0, c, size), bits, 2, size));
    }
    r
}

fn network_coefficients(rtl: &HpuParameters, len: usize) -> (r: Vec<usize>)
    requires
        ntt_arch_ok(*rtl, len as int),
        !(rtl.ntt_params.core_arch is GF64),
    ensures
        r@.len() == len,
        forall|c: int| 0 <= c < len ==> #[trigger] r@[c] == network_order(*rtl, c),
{
    let mut r: Vec<usize> = Vec::new();
    if len == 0 {
        return r;
    }
    let stg_nb: usize = rtl.ntt_params.stg_nb;
    let radix: usize = pow2_below(rtl.ntt_params.radix);
    proof {
        lemma_ls_delta(*rtl);
    }
    let rank: usize = last_delta(rtl);
    let top: usize = stg_nb - 1 - rank;
    proof {
        lemma_network_order(*rtl, len as int, 0);
        lemma_partial_rev(0, (stg_nb - 1) as nat, rank as nat, radix as int);
        let (a, b) = (pow(radix as int, rank as nat), pow(radix as int, top as nat));
        assert(a <= b * a && b <= b * a && b * a <= (b * a) * radix) by (nonlinear_arith)
            requires
                a > 0,
                b > 0,
                radix > 0,
        ;
    }
    let (low, high): (usize, usize) = match (power(radix, rank), power(radix, top)) {
        (Some(low), Some(high)) => (low, high),
        _ => (1, 1),
    };
    for c in 0..len
        invariant
            ntt_arch_ok(*rtl, len as int),
            !(rtl.ntt_params.core_arch is GF64),
            stg_nb == rtl.ntt_params.stg_nb,
            radix == floor_pow2(rtl.ntt_params.radix as int),
            rank == ls_delta(*rtl),
            top == stg_nb - 1 - rank,
            low == pow(radix as int, rank as nat),
            high == pow(radix as int, top as nat),
            low > 0,
            radix > 0,
            len <= (high * low) * radix <= usize::MAX,
            r@.len() == c,
            forall|i: int| 0 <= i < c ==> #[trigger] r@[i] == network_order(*rtl, i),
    {
        r.push(network_index(c, radix, low, top, high));
    }
    r
}

/// Number of stages that follow the first one in the last pass of the network.
fn last_delta(rtl: &HpuParameters) -> (r: usize)
    requires
        rtl.ntt_params.delta > 0,
    ensures
        r == ls_delta(*rtl),
{
    let rest: usize = rtl.ntt_params.stg_nb % rtl.ntt_params.delta;
    if rest == 0 {
        rtl.ntt_params.delta - 1
    } else {
        rest - 1
    }
}

/// Whether the architecture of the transform orders the first `len` positions.
pub fn ntt_arch_fits(rtl: &HpuParameters, len: usize) -> (r: bool)
    ensures
        r == ntt_arch_ok(*rtl, len as int),
{
    let ntt = &rtl.ntt_params;
    match &ntt.core_arch {
        HpuNttCoreArch::GF64(cuts) => match cut_size(cuts) {
            Some((_, size)) => cuts.len() > 0 && len <= size,
            None => false,
        },
        _ => {
            if ntt.radix == 0 || ntt.delta == 0 || ntt.stg_nb == 0 {
                return false;
            }
            match power(pow2_below(ntt.radix), ntt.stg_nb) {
                Some(size) => len <= size,
                None => false,
            }
        },
    }
}

/// The digits that a network keeps in place, besides the first one, are those that are left when
/// the next stages are counted by whole networks.
pub proof fn kept_digits_are_the_remainder(rtl: HpuParameters)
    requires
        rtl.ntt_params.delta > 0,
        rtl.ntt_params.stg_nb > 0,
    ensures
        0 <= ls_delta(rtl) < rtl.ntt_params.delta,
        (rtl.ntt_params.stg_nb - 1 - ls_delta(rtl)) % (rtl.ntt_params.delta as int) == 0,
{
    let (stages, delta) = (rtl.ntt_params.stg_nb as int, rtl.ntt_params.delta as int);
    lemma_fundamental_div_mod(stages, delta);
    lemma_mod_bound(stages, delta);
    let q = stages / delta;
    let rest = stages - 1 - ls_delta(rtl);
    if stages % delta == 0 {
        assert(rest == (q - 1) * delta + 0) by (nonlinear_arith)
            requires
                stages == delta * q,
                rest == stages - delta,
        ;
        vstd::arithmetic::div_mod::lemma_fundamental_div_mod_converse(rest, delta, q - 1, 0);
    } else {
        assert(rest == q * delta + 0) by (nonlinear_arith)
            requires
                stages == delta * q + stages % delta,
                rest == stages - stages % delta,
        ;
        vstd::arithmetic::div_mod::lemma_fundamental_div_mod_converse(rest, delta, q, 0);
    }
}

/// The networks keep the lowest digits of a position, and put the other ones in the reverse
/// order.
pub proof fn networks_reverse_the_high_digits(rtl: HpuParameters, len: int, c: int)
    requires
        ntt_arch_ok(rtl, len),
        !(rtl.ntt_params.core_arch is GF64),
        0 <= c < len,
    ensures
        ({
            let radix = floor_pow2(rtl.ntt_params.radix as int);
            let low = radix * pow(radix, ls_delta(rtl) as nat);
            let high_digits = (rtl.ntt_params.stg_nb - 1 - ls_delta(rtl)) as nat;
            let k = ntt_order(rtl, c);
            &&& low > 0
            &&& k % low == c % low
            &&& k / low == digit_rev(c / low, high_digits, radix)
        }),
{
    let radix = floor_pow2(rtl.ntt_params.radix as int);
    let rank = ls_delta(rtl) as nat;
    let digits = (rtl.ntt_params.stg_nb - 1) as nat;
    lemma_floor_pow2(rtl.ntt_params.radix as int);
    lemma_network_order(rtl, len, c);
    lemma_ls_delta(rtl);
    lemma_pow_positive(radix, rank);
    let w = pow(radix, rank);
    let n = c / radix;
    let (a, b, d) = (n / w, n % w, c % radix);
    lemma_fundamental_div_mod(c, radix);
    lemma_fundamental_div_mod(n, w);
    lemma_mod_bound(c, radix);
    lemma_mod_bound(n, w);
    let rev = digit_rev(a, (digits - rank) as nat, radix);
    let r = radix * b + d;
    assert(0 <= r < radix * w) by (nonlinear_arith)
        requires
            r == radix * b + d,
            0 <= b <= w - 1,
            0 <= d < radix,
    ;
    let low = radix * w;
    assert(c == a * low + r) by (nonlinear_arith)
        requires
            c == radix * n + d,
            n == w * a + b,
            r == radix * b + d,
            low == radix * w,
    ;
    let k = ntt_order(rtl, c);
    assert(k == rev * low + r) by (nonlinear_arith)
        requires
            k == radix * (w * rev + b) + d,
            r == radix * b + d,
            low == radix * w,
    ;
    vstd::arithmetic::div_mod::lemma_fundamental_div_mod_converse(c, low, a, r);
    vstd::arithmetic::div_mod::lemma_fundamental_div_mod_converse(k, low, rev, r);
}

/// The cuts of a position are put in the reverse order, each of them as it is: the cut with the
/// highest bits of a position comes first in the result.
pub proof fn cuts_are_reversed(cuts: Seq<u8>, j: int, c: int, i: int)
    requires
        0 <= j <= i < cuts.len(),
        0 <= c < pow(2, cut_bits(cuts, j)),
    ensures
        cut_bits(cuts, i) <= cut_bits(cuts, j),
        (cut_order(cuts, j, c) / pow(2, (cut_bits(cuts, j) - cut_bits(cuts, i)) as nat)) % pow(
            2,
            cuts[i] as nat,
        ) == (c / pow(2, cut_bits(cuts, i + 1))) % pow(2, cuts[i] as nat),
    decreases cuts.len() - j,
{
    lemma_cut_bits_order(cuts, j, i);
    lemma_cut_bits(cuts, j);
    let (left, sub) = (pow(2, cuts[j] as nat), pow(2, cut_bits(cuts, j + 1)));
    lemma_pow0(2);
    if j + 1 == cuts.len() {
        vstd::arithmetic::div_mod::lemma_div_basics(c);
        vstd::arithmetic::div_mod::lemma_div_basics(cut_order(cuts, j, c));
    } else {
        lemma_of_digits(c, left, sub);
        lemma_cut_order(cuts, j + 1, c % sub);
        let high = cut_order(cuts, j + 1, c % sub);
        let k = cut_order(cuts, j, c);
        assert(left * high == high * left) by (nonlinear_arith);
        vstd::arithmetic::div_mod::lemma_fundamental_div_mod_converse(k, left, high, c / sub);
        if i == j {
            vstd::arithmetic::div_mod::lemma_div_basics(k);
            vstd::arithmetic::div_mod::lemma_small_mod((c / sub) as nat, left as nat);
        } else {
            cuts_are_reversed(cuts, j + 1, c % sub, i);
            lemma_cut_bits_order(cuts, j + 1, i);
            lemma_cut_bits(cuts, i);
            let e = (cut_bits(cuts, j + 1) - cut_bits(cuts, i)) as nat;
            let (m, b) = (pow(2, cuts[i] as nat), pow(2, cut_bits(cuts, i + 1)));
            let h = pow(2, e);
            lemma_pow_positive(2, e);
            lemma_pow_adds(2, cuts[j] as nat, e);
            assert(k >= 0) by (nonlinear_arith)
                requires
                    k == left * high + c / sub,
                    left > 0,
                    high >= 0,
                    c / sub >= 0,
            ;
            vstd::arithmetic::div_mod::lemma_div_denominator(k, left, h);
            lemma_pow_adds(2, cut_bits(cuts, i), e);
            assert(sub == (m * b) * h);
            lemma_inner_digits(c, b, m, h);
        }
    }
}

/// What is above `b` and below `m` of a number does not depend on what is above both.
proof fn lemma_inner_digits(c: int, b: int, m: int, h: int)
    requires
        0 <= c,
        b > 0,
        m > 0,
        h > 0,
    ensures
        ((c % ((m * b) * h)) / b) % m == (c / b) % m,
{
    let sub = (m * b) * h;
    assert(sub > 0) by (nonlinear_arith)
        requires
            sub == (m * b) * h,
            b > 0,
            m > 0,
            h > 0,
    ;
    lemma_fundamental_div_mod(c, sub);
    lemma_mod_bound(c, sub);
    let (q, r) = (c / sub, c % sub);
    lemma_fundamental_div_mod(r, b);
    lemma_mod_bound(r, b);
    let (s, t) = (r / b, r % b);
    let up = q * h;
    assert(c == (up * m + s) * b + t) by (nonlinear_arith)
        requires
            c == sub * q + r,
            sub == (m * b) * h,
            r == b * s + t,
            up == q * h,
    ;
    vstd::arithmetic::div_mod::lemma_fundamental_div_mod_converse(c, b, up * m + s, t);
    vstd::arithmetic::div_mod::lemma_mod_multiples_vanish(up, s, m);
    assert(m * up + s == up * m + s) by (nonlinear_arith);
}

/// A Goldilocks core takes the coefficients in the order of the reversed bits of the reversed
/// cuts.
pub proof fn cuts_are_read_backwards(rtl: HpuParameters, cuts: Vec<u8>, c: int, i: nat)
    requires
        rtl.ntt_params.core_arch == HpuNttCoreArch::GF64(cuts),
        cuts@.len() > 0,
        0 <= c < pow(2, cut_bits(cuts@, 0)),
        i < cut_bits(cuts@, 0),
    ensures
        (ntt_order(rtl, c) / pow(2, i)) % 2 == (cut_order(cuts@, 0, c) / pow(
            2,
            (cut_bits(cuts@, 0) - 1 - i) as nat,
        )) % 2,
{
    lemma_cut_order(cuts@, 0, c);
    digits_are_reversed(cut_order(cuts@, 0, c), cut_bits(cuts@, 0), 2, i);
}

} // verus!
