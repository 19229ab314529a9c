//! Bootstrapping key, from the words of the key memory.
//!
//! The key has, for each coefficient of a mask, a matrix of polynomials for each level of the
//! decomposition. The memory holds it in the order of the computation: the matrices, then
//! their columns, then the batches of coefficients that the transform takes at once. For each
//! batch, it holds the coefficients of the rows of the column, and of the levels in each row.
//! Inside a polynomial, the coefficients are in the order of the transform.
//!
//! The `hpu` feature of `tfhe` has this conversion too. With that feature, the compilation of
//! `tfhe` ends in `out of memory` (SIGABRT) or does not end in five minutes, so it is left off.
use vstd::arithmetic::div_mod::{
    lemma_div_is_ordered, lemma_fundamental_div_mod, lemma_fundamental_div_mod_converse,
    lemma_mod_bound, lemma_mod_multiples_basic,
};
use vstd::prelude::*;

use super::channels::{interleave, interleaved};
use super::order::{
    lemma_digits, lemma_ntt_order, lemma_of_digits, ntt_arch_fits, ntt_arch_ok, ntt_coefficients,
    ntt_order, ntt_order_injective,
};
use super::pbs::{bsk_len, bsk_size};
use crate::params::hpu::HpuParameters;

verus! {

/// Number of coefficients that the transform takes at once.
pub open spec fn ntt_batch(rtl: HpuParameters) -> int {
    rtl.ntt_params.radix * rtl.ntt_params.psi
}

/// Number of whole batches of a polynomial.
pub open spec fn ntt_batches(rtl: HpuParameters) -> int {
    rtl.pbs_params.polynomial_size as int / ntt_batch(rtl)
}

/// Number of coefficients of each polynomial that the memory holds.
pub open spec fn ntt_len(rtl: HpuParameters) -> int {
    ntt_batches(rtl) * ntt_batch(rtl)
}

/// Number of rows, and of columns, of a matrix of the key.
pub open spec fn glwe_size(rtl: HpuParameters) -> int {
    rtl.pbs_params.glwe_dimension + 1
}

/// Number of polynomials of the key.
pub open spec fn bsk_polys(rtl: HpuParameters) -> int {
    let p = rtl.pbs_params;
    ((p.lwe_dimension * p.pbs_level) * glwe_size(rtl)) * glwe_size(rtl)
}

/// Number of words of the key that the memory holds.
pub open spec fn bsk_hw_len(rtl: HpuParameters) -> int {
    bsk_polys(rtl) * ntt_len(rtl)
}

/// Rank of the word that holds the coefficient that the transform takes at position `c`, in
/// a polynomial given by the coefficient `s` of the mask, its level, its row and its column.
pub open spec fn bsk_word(
    rtl: HpuParameters,
    s: int,
    level: int,
    row: int,
    col: int,
    c: int,
) -> int {
    let size = glwe_size(rtl);
    let batch = ntt_batch(rtl);
    let column = s * size + col;
    let rows = (column * ntt_batches(rtl) + c / batch) * size + row;
    (rows * rtl.pbs_params.pbs_level + level) * batch + c % batch
}

/// Rank in the key of a coefficient of a polynomial.
pub open spec fn bsk_rank(
    rtl: HpuParameters,
    s: int,
    level: int,
    row: int,
    col: int,
    k: int,
) -> int {
    let size = glwe_size(rtl);
    let p = rtl.pbs_params;
    (((s * p.pbs_level + level) * size + row) * size + col) * p.polynomial_size + k
}

/// Position at which the transform takes a coefficient, among the first `n` of them: the last
/// one if there are several, and -1 if there is none.
pub open spec fn ntt_position(rtl: HpuParameters, k: int, n: nat) -> int
    decreases n,
{
    if n == 0 {
        -1
    } else if ntt_order(rtl, n - 1) == k {
        n - 1
    } else {
        ntt_position(rtl, k, (n - 1) as nat)
    }
}

/// Coefficient of the key, by its rank. One that the memory does not hold is null.
pub open spec fn bsk_coef(rtl: HpuParameters, words: Seq<u64>, i: int) -> u64 {
    let size = glwe_size(rtl);
    let poly = rtl.pbs_params.polynomial_size as int;
    let level = rtl.pbs_params.pbs_level as int;
    let c = ntt_position(rtl, i % poly, ntt_len(rtl) as nat);
    let matrix = i / poly / size / size;
    if c < 0 {
        0
    } else {
        words[bsk_word(
            rtl,
            matrix / level,
            matrix % level,
            (i / poly / size) % size,
            (i / poly) % size,
            c,
        )]
    }
}

/// Bootstrapping key held by some words.
pub open spec fn bsk_of_words(rtl: HpuParameters, words: Seq<u64>) -> Seq<u64> {
    Seq::new(bsk_len(rtl) as nat, |i: int| bsk_coef(rtl, words, i))
}

/// The key is not empty and has a machine length, and the transform takes coefficients of its
/// polynomials.
pub open spec fn bsk_order_ok(rtl: HpuParameters) -> bool {
    &&& 1 <= bsk_len(rtl) <= usize::MAX
    &&& 1 <= ntt_batch(rtl) <= usize::MAX
    &&& ntt_arch_ok(rtl, ntt_len(rtl))
    &&& forall|c: int|
        0 <= c < ntt_len(rtl) ==> #[trigger] ntt_order(rtl, c) < rtl.pbs_params.polynomial_size
}

/// Dimensions of the key.
proof fn lemma_bsk_len(rtl: HpuParameters)
    requires
        1 <= bsk_len(rtl),
        1 <= ntt_batch(rtl),
    ensures
        rtl.pbs_params.lwe_dimension >= 1,
        rtl.pbs_params.pbs_level >= 1,
        rtl.pbs_params.polynomial_size >= 1,
        bsk_len(rtl) == bsk_polys(rtl) * rtl.pbs_params.polynomial_size,
        1 <= bsk_polys(rtl) <= bsk_len(rtl),
        glwe_size(rtl) <= bsk_polys(rtl),
        rtl.pbs_params.polynomial_size <= bsk_len(rtl),
        0 <= ntt_batches(rtl) <= ntt_len(rtl) <= rtl.pbs_params.polynomial_size,
        0 <= bsk_hw_len(rtl) <= bsk_len(rtl),
{
    let (n, l, k) = (
        rtl.pbs_params.lwe_dimension as int,
        rtl.pbs_params.pbs_level as int,
        glwe_size(rtl),
    );
    let poly = rtl.pbs_params.polynomial_size as int;
    let polys = bsk_polys(rtl);
    assert(bsk_len(rtl) == n * (l * (k * k * poly)));
    assert(n >= 1 && l >= 1 && poly >= 1) by (nonlinear_arith)
        requires
            n * (l * (k * k * poly)) >= 1,
            n >= 0,
            l >= 0,
            poly >= 0,
            k >= 1,
    ;
    assert(n * (l * (k * k * poly)) == polys * poly) by (nonlinear_arith)
        requires
            polys == ((n * l) * k) * k,
    ;
    let nl = n * l;
    assert(nl >= 1) by (nonlinear_arith)
        requires
            nl == n * l,
            n >= 1,
            l >= 1,
    ;
    assert(polys >= k && k >= 1) by (nonlinear_arith)
        requires
            polys == (nl * k) * k,
            nl >= 1,
            k >= 1,
    ;
    assert(polys <= polys * poly && poly <= polys * poly) by (nonlinear_arith)
        requires
            polys >= 1,
            poly >= 1,
    ;
    let batch = ntt_batch(rtl);
    let (q, len) = (ntt_batches(rtl), ntt_len(rtl));
    lemma_fundamental_div_mod(poly, batch);
    lemma_mod_bound(poly, batch);
    assert(0 <= q && q <= len <= poly) by (nonlinear_arith)
        requires
            batch * q + poly % batch == poly,
            0 <= poly % batch < batch,
            len == q * batch,
            poly >= 1,
    ;
    assert(0 <= polys * len <= polys * poly) by (nonlinear_arith)
        requires
            polys >= 1,
            0 <= len <= poly,
    ;
}

/// The word of a coefficient is one of those of the key.
proof fn lemma_bsk_word(rtl: HpuParameters, s: int, level: int, row: int, col: int, c: int)
    requires
        1 <= bsk_len(rtl),
        1 <= ntt_batch(rtl),
        0 <= s < rtl.pbs_params.lwe_dimension,
        0 <= level < rtl.pbs_params.pbs_level,
        0 <= row < glwe_size(rtl),
        0 <= col < glwe_size(rtl),
        0 <= c < ntt_len(rtl),
    ensures
        ({
            let size = glwe_size(rtl);
            let batch = ntt_batch(rtl);
            let column = s * size + col;
            let group = column * ntt_batches(rtl) + c / batch;
            let rows = group * size + row;
            let line = rows * rtl.pbs_params.pbs_level + level;
            let word = bsk_word(rtl, s, level, row, col, c);
            &&& 0 <= s * size <= column <= word
            &&& 0 <= column * ntt_batches(rtl) <= group <= word
            &&& 0 <= group * size <= rows <= word
            &&& 0 <= rows * rtl.pbs_params.pbs_level <= line <= word
            &&& 0 <= line * batch <= word
            &&& word < bsk_hw_len(rtl)
        }),
{
    lemma_bsk_len(rtl);
    let p = rtl.pbs_params;
    let (n, l) = (p.lwe_dimension as int, p.pbs_level as int);
    let size = glwe_size(rtl);
    let batch = ntt_batch(rtl);
    let batches = ntt_batches(rtl);
    let column = s * size + col;
    let group = column * batches + c / batch;
    let rows = group * size + row;
    let line = rows * l + level;
    lemma_of_digits(c, batches, batch);
    lemma_digits(s, col, n, size);
    lemma_digits(column, c / batch, n * size, batches);
    lemma_digits(group, row, (n * size) * batches, size);
    lemma_digits(rows, level, ((n * size) * batches) * size, l);
    lemma_digits(line, c % batch, (((n * size) * batches) * size) * l, batch);
    assert(((((n * size) * batches) * size) * l) * batch == (((n * l) * size) * size) * (batches
        * batch)) by (nonlinear_arith);
    assert(column <= column * batches && group <= group * size && rows <= rows * l && line <= line
        * batch) by (nonlinear_arith)
        requires
            column >= 0,
            group >= 0,
            rows >= 0,
            line >= 0,
            batches >= 1,
            size >= 1,
            l >= 1,
            batch >= 1,
    ;
}

/// Polynomial and coefficient of a rank in the key.
proof fn lemma_bsk_rank(rtl: HpuParameters, i: int)
    requires
        1 <= ntt_batch(rtl),
        0 <= i < bsk_len(rtl),
    ensures
        ({
            let size = glwe_size(rtl);
            let p = rtl.pbs_params;
            let (poly, level) = (p.polynomial_size as int, p.pbs_level as int);
            &&& poly > 0 && level > 0
            &&& 0 <= i % poly < poly
            &&& 0 <= (i / poly) % size < size
            &&& 0 <= (i / poly / size) % size < size
            &&& 0 <= (i / poly / size / size) % level < level
            &&& 0 <= (i / poly / size / size) / level < p.lwe_dimension
        }),
{
    lemma_bsk_len(rtl);
    let size = glwe_size(rtl);
    let p = rtl.pbs_params;
    let (n, l) = (p.lwe_dimension as int, p.pbs_level as int);
    let poly = p.polynomial_size as int;
    lemma_of_digits(i, ((n * l) * size) * size, poly);
    lemma_of_digits(i / poly, (n * l) * size, size);
    lemma_of_digits(i / poly / size, n * l, size);
    lemma_of_digits(i / poly / size / size, n, l);
}

proof fn lemma_position(rtl: HpuParameters, k: int, n: nat)
    ensures
        ({
            let c = ntt_position(rtl, k, n);
            &&& -1 <= c < n
            &&& c >= 0 ==> ntt_order(rtl, c) == k
            &&& forall|d: int| c < d < n ==> #[trigger] ntt_order(rtl, d) != k
        }),
    decreases n,
{
    if n > 0 && ntt_order(rtl, n - 1) != k {
        lemma_position(rtl, k, (n - 1) as nat);
    }
}

/// Each word of the memory is the coefficient of its polynomial that the transform takes at
/// its position.
pub proof fn bsk_coefficient(
    rtl: HpuParameters,
    words: Seq<u64>,
    s: int,
    level: int,
    row: int,
    col: int,
    c: int,
)
    requires
        bsk_order_ok(rtl),
        0 <= s < rtl.pbs_params.lwe_dimension,
        0 <= level < rtl.pbs_params.pbs_level,
        0 <= row < glwe_size(rtl),
        0 <= col < glwe_size(rtl),
        0 <= c < ntt_len(rtl),
    ensures
        ({
            let i = bsk_rank(rtl, s, level, row, col, ntt_order(rtl, c));
            let word = bsk_word(rtl, s, level, row, col, c);
            &&& 0 <= i < bsk_of_words(rtl, words).len()
            &&& 0 <= word < bsk_hw_len(rtl)
            &&& bsk_of_words(rtl, words)[i] == words[word]
        }),
{
    lemma_bsk_len(rtl);
    lemma_bsk_word(rtl, s, level, row, col, c);
    let k = ntt_order(rtl, c);
    lemma_ntt_order(rtl, ntt_len(rtl), c);
    lemma_rank(rtl, s, level, row, col, k);
    let n = ntt_len(rtl) as nat;
    lemma_position(rtl, k, n);
    ntt_order_injective(rtl, ntt_len(rtl), ntt_position(rtl, k, n), c);
}

/// A coefficient that the transform does not take is null.
pub proof fn bsk_unread(
    rtl: HpuParameters,
    words: Seq<u64>,
    s: int,
    level: int,
    row: int,
    col: int,
    k: int,
)
    requires
        bsk_order_ok(rtl),
        0 <= s < rtl.pbs_params.lwe_dimension,
        0 <= level < rtl.pbs_params.pbs_level,
        0 <= row < glwe_size(rtl),
        0 <= col < glwe_size(rtl),
        0 <= k < rtl.pbs_params.polynomial_size,
        forall|c: int| 0 <= c < ntt_len(rtl) ==> #[trigger] ntt_order(rtl, c) != k,
    ensures
        ({
            let i = bsk_rank(rtl, s, level, row, col, k);
            &&& 0 <= i < bsk_of_words(rtl, words).len()
            &&& bsk_of_words(rtl, words)[i] == 0
        }),
{
    lemma_bsk_len(rtl);
    lemma_rank(rtl, s, level, row, col, k);
    lemma_position(rtl, k, ntt_len(rtl) as nat);
}

/// A rank in the key gives back its polynomial and its coefficient.
proof fn lemma_rank(rtl: HpuParameters, s: int, level: int, row: int, col: int, k: int)
    requires
        1 <= bsk_len(rtl),
        1 <= ntt_batch(rtl),
        0 <= s < rtl.pbs_params.lwe_dimension,
        0 <= level < rtl.pbs_params.pbs_level,
        0 <= row < glwe_size(rtl),
        0 <= col < glwe_size(rtl),
        0 <= k < rtl.pbs_params.polynomial_size,
    ensures
        ({
            let i = bsk_rank(rtl, s, level, row, col, k);
            let size = glwe_size(rtl);
            let p = rtl.pbs_params;
            let (poly, levels) = (p.polynomial_size as int, p.pbs_level as int);
            &&& 0 <= i < bsk_len(rtl)
            &&& i % poly == k
            &&& (i / poly) % size == col
            &&& (i / poly / size) % size == row
            &&& (i / poly / size / size) % levels == level
            &&& (i / poly / size / size) / levels == s
        }),
{
    lemma_bsk_len(rtl);
    let size = glwe_size(rtl);
    let p = rtl.pbs_params;
    let (n, l) = (p.lwe_dimension as int, p.pbs_level as int);
    let matrix = s * l + level;
    let line = matrix * size + row;
    lemma_digits(s, level, n, l);
    lemma_digits(matrix, row, n * l, size);
    lemma_digits(line, col, (n * l) * size, size);
    lemma_digits(line * size + col, k, ((n * l) * size) * size, p.polynomial_size as int);
}

/// Number of coefficients that the transform takes at once.
fn batch_size(rtl: &HpuParameters) -> (r: usize)
    requires
        1 <= ntt_batch(*rtl) <= usize::MAX,
    ensures
        r == ntt_batch(*rtl),
{
    rtl.ntt_params.radix * rtl.ntt_params.psi
}

/// Number of coefficients of each polynomial that the memory holds.
fn ntt_size(rtl: &HpuParameters) -> (r: usize)
    requires
        1 <= ntt_batch(*rtl) <= usize::MAX,
        1 <= bsk_len(*rtl),
    ensures
        r == ntt_len(*rtl),
{
    proof {
        lemma_bsk_len(*rtl);
    }
    let batch: usize = batch_size(rtl);
    (rtl.pbs_params.polynomial_size / batch) * batch
}

/// Number of coefficients of the key.
fn key_size(rtl: &HpuParameters) -> (r: usize)
    requires
        bsk_order_ok(*rtl),
    ensures
        r == bsk_len(*rtl),
        rtl.pbs_params.glwe_dimension < usize::MAX,
{
    proof {
        lemma_bsk_len(*rtl);
    }
    match bsk_size(rtl) {
        Some(len) => len,
        None => 0,
    }
}

/// Position at which the transform takes each coefficient of a polynomial, and the number of
/// positions for one that it does not take.
fn positions(rtl: &HpuParameters) -> (r: Vec<usize>)
    requires
        bsk_order_ok(*rtl),
    ensures
        r@.len() == rtl.pbs_params.polynomial_size,
        forall|k: int|
            0 <= k < r@.len() ==> #[trigger] r@[k] == position_or(
                ntt_position(*rtl, k, ntt_len(*rtl) as nat),
                ntt_len(*rtl),
            ),
{
    let len: usize = ntt_size(rtl);
    let poly: usize = rtl.pbs_params.polynomial_size;
    let order = ntt_coefficients(rtl, len);
    let mut r: Vec<usize> = vec![len; poly];
    for c in 0..len
        invariant
            bsk_order_ok(*rtl),
            len == ntt_len(*rtl),
            poly == rtl.pbs_params.polynomial_size,
            order@.len() == len,
            forall|i: int| 0 <= i < len ==> #[trigger] order@[i] == ntt_order(*rtl, i),
            r@.len() == poly,
            forall|k: int|
                0 <= k < poly ==> #[trigger] r@[k] == position_or(
                    ntt_position(*rtl, k, c as nat),
                    len as int,
                ),
    {
        proof {
            assert(order@[c as int] == ntt_order(*rtl, c as int));
            lemma_ntt_order(*rtl, len as int, c as int);
        }
        let ghost before = r@;
        let k: usize = order[c];
        r[k] = c;
        proof {
            assert forall|j: int| 0 <= j < poly implies #[trigger] r@[j] == position_or(
                ntt_position(*rtl, j, (c + 1) as nat),
                len as int,
            ) by {
                if j != k {
                    assert(r@[j] == before[j]);
                }
            }
        }
    }
    r
}

spec fn position_or(c: int, other: int) -> int {
    if c < 0 {
        other
    } else {
        c
    }
}

/// Bootstrapping key held by the words of the memory, in their order in the key.
pub fn bsk_from_words(rtl: &HpuParameters, words: &Vec<u64>) -> (r: Vec<u64>)
    requires
        bsk_order_ok(*rtl),
        words@.len() == bsk_hw_len(*rtl),
    ensures
        r@ == bsk_of_words(*rtl, words@),
{
    let p = rtl.pbs_params;
    let (poly, levels): (usize, usize) = (p.polynomial_size, p.pbs_level);
    let len: usize = key_size(rtl);
    let size: usize = p.glwe_dimension + 1;
    let held: usize = ntt_size(rtl);
    let batch: usize = batch_size(rtl);
    let batches: usize = poly / batch;
    let places = positions(rtl);
    let ghost key = bsk_of_words(*rtl, words@);
    let mut r: Vec<u64> = Vec::new();
    for i in 0..len
        invariant
            bsk_order_ok(*rtl),
            words@.len() == bsk_hw_len(*rtl),
            p == rtl.pbs_params,
            poly == p.polynomial_size,
            levels == p.pbs_level,
            len == bsk_len(*rtl),
            size == glwe_size(*rtl),
            held == ntt_len(*rtl),
            batch == ntt_batch(*rtl),
            batches == ntt_batches(*rtl),
            places@.len() == poly,
            forall|k: int|
                0 <= k < poly ==> #[trigger] places@[k] == position_or(
                    ntt_position(*rtl, k, held as nat),
                    held as int,
                ),
            key == bsk_of_words(*rtl, words@),
            r@.len() == i,
            forall|j: int| 0 <= j < i ==> #[trigger] r@[j] == key[j],
    {
        proof {
            lemma_bsk_len(*rtl);
            lemma_bsk_rank(*rtl, i as int);
            lemma_position(*rtl, i as int % poly as int, held as nat);
        }
        let c: usize = places[i % poly];
        let line: usize = i / poly;
        let matrix: usize = line / size / size;
        let (row, col): (usize, usize) = ((line / size) % size, line % size);
        let coef: u64 = if c == held {
            0
        } else {
            let (s, level): (usize, usize) = (matrix / levels, matrix % levels);
            proof {
                lemma_bsk_word(
                    *rtl,
                    s as int,
                    level as int,
                    row as int,
                    col as int,
                    c as int,
                );
            }
            let group: usize = (s * size + col) * batches + c / batch;
            let rows: usize = group * size + row;
            words[(rows * levels + level) * batch + c % batch]
        };
        r.push(coef);
    }
    assert(r@ =~= key);
    r
}

/// Number of consecutive words of the key that a memory channel holds.
pub open spec fn bsk_run(rtl: HpuParameters) -> int {
    ntt_batch(rtl) / rtl.pc_params.bsk_pc as int
}

/// The words of the key are shared out equally between the memory channels.
pub open spec fn bsk_split_ok(rtl: HpuParameters) -> bool {
    &&& rtl.pc_params.bsk_pc >= 1
    &&& ntt_batch(rtl) % rtl.pc_params.bsk_pc as int == 0
    &&& bsk_len(rtl) % rtl.pc_params.bsk_pc as int == 0
}

/// Number of words of the key in each memory channel.
pub open spec fn bsk_part_len(rtl: HpuParameters) -> int {
    bsk_len(rtl) / rtl.pc_params.bsk_pc as int
}

/// Bootstrapping key held by the words of each memory channel.
pub open spec fn bsk_of_parts(rtl: HpuParameters, parts: Seq<Seq<u64>>) -> Seq<u64> {
    bsk_of_words(rtl, interleaved(bsk_run(rtl), bsk_hw_len(rtl), parts))
}

/// Bootstrapping key held by the words of each memory channel.
pub fn bsk_from_parts(rtl: &HpuParameters, parts: &Vec<Vec<u64>>) -> (r: Vec<u64>)
    requires
        bsk_order_ok(*rtl),
        bsk_split_ok(*rtl),
        parts@.len() == rtl.pc_params.bsk_pc,
        forall|pc: int|
            0 <= pc < parts@.len() ==> (#[trigger] parts@[pc])@.len() == bsk_part_len(*rtl),
    ensures
        r@ == bsk_of_parts(*rtl, parts@.map_values(|part: Vec<u64>| part@)),
{
    let poly: usize = rtl.pbs_params.polynomial_size;
    let pc_nb: usize = rtl.pc_params.bsk_pc;
    let size: usize = key_size(rtl);
    proof {
        lemma_bsk_len(*rtl);
        lemma_fundamental_div_mod_converse(size as int, poly as int, bsk_polys(*rtl), 0);
        let (batch, run) = (ntt_batch(*rtl), bsk_run(*rtl));
        let pc = pc_nb as int;
        lemma_fundamental_div_mod(batch, pc);
        assert(run > 0 && run * pc == batch) by (nonlinear_arith)
            requires
                pc * run == batch,
                batch >= 1,
                pc >= 1,
        ;
        let (polys, batches) = (bsk_polys(*rtl), ntt_batches(*rtl));
        assert(polys * (batches * batch) == (polys * batches) * batch) by (nonlinear_arith);
        lemma_mod_multiples_basic(polys * batches, batch);
        lemma_div_is_ordered(bsk_hw_len(*rtl), size as int, pc);
    }
    let len: usize = (size / poly) * ntt_size(rtl);
    let words = interleave(batch_size(rtl) / pc_nb, len, parts);
    bsk_from_words(rtl, &words)
}

/// Number of words of the bootstrapping key in each memory channel.
pub fn bsk_part_size(rtl: &HpuParameters) -> (r: usize)
    requires
        bsk_order_ok(*rtl),
        rtl.pc_params.bsk_pc >= 1,
    ensures
        r == bsk_part_len(*rtl),
{
    key_size(rtl) / rtl.pc_params.bsk_pc
}

/// Whether the bootstrapping key can be taken out of the memory.
pub fn bsk_fits(rtl: &HpuParameters) -> (r: bool)
    ensures
        r == (bsk_order_ok(*rtl) && bsk_split_ok(*rtl)),
{
    let pc_nb: usize = rtl.pc_params.bsk_pc;
    if rtl.pbs_params.glwe_dimension == usize::MAX || pc_nb == 0 {
        proof {
            if bsk_order_ok(*rtl) {
                lemma_bsk_len(*rtl);
            }
        }
        return false;
    }
    let len: usize = match bsk_size(rtl) {
        Some(len) => len,
        None => {
            return false;
        },
    };
    let batch: usize = match rtl.ntt_params.radix.checked_mul(rtl.ntt_params.psi) {
        Some(batch) => batch,
        None => {
            return false;
        },
    };
    if len == 0 || batch == 0 || batch % pc_nb != 0 || len % pc_nb != 0 {
        return false;
    }
    let held: usize = ntt_size(rtl);
    if !ntt_arch_fits(rtl, held) {
        return false;
    }
    let order = ntt_coefficients(rtl, held);
    for c in 0..held
        invariant
            held == ntt_len(*rtl),
            order@.len() == held,
            forall|i: int| 0 <= i < held ==> #[trigger] order@[i] == ntt_order(*rtl, i),
            forall|i: int|
                0 <= i < c ==> #[trigger] ntt_order(*rtl, i) < rtl.pbs_params.polynomial_size,
    {
        assert(order@[c as int] == ntt_order(*rtl, c as int));
        if order[c] >= rtl.pbs_params.polynomial_size {
            return false;
        }
    }
    true
}

} // verus!
