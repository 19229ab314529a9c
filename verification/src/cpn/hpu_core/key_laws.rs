//! Laws of the keys: where their coefficients are in the memory.
use vstd::arithmetic::div_mod::{
    lemma_fundamental_div_mod, lemma_fundamental_div_mod_converse, lemma_mod_bound,
};
use vstd::arithmetic::power2::{lemma_pow2_adds, lemma_pow2_pos, pow2};
use vstd::bits::{
    lemma_u64_low_bits_mask_is_mod, lemma_u64_pow2_no_overflow, lemma_u64_shl_is_mul,
    lemma_u64_shr_is_div, low_bits_mask,
};
use vstd::prelude::*;

use super::bsk::{bsk_part_len, bsk_rank, bsk_run, bsk_split_ok, bsk_word};
use super::channels::{word_channel, word_ofst};
use super::ksk::{ks_inputs, ksk_coef, ksk_part_len, ksk_run, ksk_split_ok, ksk_word, slice_len};
use super::pbs::{bsk_len, ksk_hw_len};
use crate::cpn::layout::div_ceil;
use crate::params::hpu::HpuParameters;

verus! {

/// The next multiple of a block is in the next block, at the same place of it.
proof fn lemma_next_block(a: int, d: int)
    requires
        d > 0,
    ensures
        (a + d) / d == a / d + 1,
        (a + d) % d == a % d,
{
    lemma_fundamental_div_mod(a, d);
    lemma_mod_bound(a, d);
    let (q, r) = (a / d, a % d);
    assert(a + d == (q + 1) * d + r) by (nonlinear_arith)
        requires
            a == d * q + r,
    ;
    lemma_fundamental_div_mod_converse(a + d, d, q + 1, r);
}

/// The next number is in the same block unless it starts one.
proof fn lemma_next_in_block(a: int, d: int)
    requires
        d > 0,
        a % d + 1 < d,
    ensures
        (a + 1) / d == a / d,
        (a + 1) % d == a % d + 1,
{
    lemma_fundamental_div_mod(a, d);
    lemma_mod_bound(a, d);
    let (q, r) = (a / d, a % d);
    assert(a + 1 == q * d + (r + 1)) by (nonlinear_arith)
        requires
            a == d * q + r,
    ;
    lemma_fundamental_div_mod_converse(a + 1, d, q, r + 1);
}

/// The words of the keyswitching key: the levels of a block share a word, the inputs of a block
/// follow each other, then the blocks of levels, then those of inputs, then the outputs.
pub proof fn keyswitching_words_follow_each_other(rtl: HpuParameters, x: int, y: int, z: int)
    requires
        rtl.ks_params.lby > 0,
        rtl.ks_params.lbz > 0,
    ensures
        ({
            let (lby, lbz) = (rtl.ks_params.lby as int, rtl.ks_params.lbz as int);
            let layers = div_ceil(rtl.pbs_params.ks_level as int, lbz);
            let bands = div_ceil(
                rtl.pbs_params.glwe_dimension * rtl.pbs_params.polynomial_size,
                lby,
            );
            let word = ksk_word(rtl, x, y, z);
            &&& ksk_word(rtl, 0, 0, 0) == 0
            &&& z % lbz + 1 < lbz ==> ksk_word(rtl, x, y, z + 1) == word
            &&& y % lby + 1 < lby ==> ksk_word(rtl, x, y + 1, z) == word + 1
            &&& ksk_word(rtl, x, y, z + lbz) == word + lby
            &&& ksk_word(rtl, x, y + lby, z) == word + lby * layers
            &&& ksk_word(rtl, x + 1, y, z) == word + lby * bands * layers
        }),
{
    let (lby, lbz) = (rtl.ks_params.lby as int, rtl.ks_params.lbz as int);
    let layers = div_ceil(rtl.pbs_params.ks_level as int, lbz);
    let bands = div_ceil(ks_inputs(rtl), lby);
    let slice = (lby * bands) * layers;
    let (b, l) = (y / lby, z / lbz);
    lemma_next_block(y, lby);
    lemma_next_block(z, lbz);
    if z % lbz + 1 < lbz {
        lemma_next_in_block(z, lbz);
    }
    if y % lby + 1 < lby {
        lemma_next_in_block(y, lby);
    }
    lemma_fundamental_div_mod_converse(0, lby, 0, 0);
    lemma_fundamental_div_mod_converse(0, lbz, 0, 0);
    assert(0 * slice == 0 && 0 * layers == 0 && 0 * lby == 0) by (nonlinear_arith);
    assert((b * layers + (l + 1)) * lby == (b * layers + l) * lby + lby) by (nonlinear_arith);
    assert(((b + 1) * layers + l) * lby == (b * layers + l) * lby + lby * layers)
        by (nonlinear_arith);
    assert((x + 1) * slice == x * slice + slice) by (nonlinear_arith);
}

/// A coefficient of the keyswitching key is a field of its word, multiplied so that it takes the
/// most significant bits. The fields of a word follow each other from the least significant bit.
pub proof fn keyswitching_fields_follow_each_other(
    rtl: HpuParameters,
    words: Seq<u64>,
    x: int,
    y: int,
    z: int,
)
    requires
        1 <= rtl.ks_params.width <= 32,
        rtl.ks_params.lbz > 0,
        0 <= z,
        (z % rtl.ks_params.lbz as int) * rtl.ks_params.width < 64,
    ensures
        ({
            let width = rtl.ks_params.width as int;
            let below = (z % rtl.ks_params.lbz as int) * width;
            let field = words[ksk_word(rtl, x, y, z)] as int / pow2(below as nat) as int % pow2(
                width as nat,
            ) as int;
            ksk_coef(rtl, words, x, y, z) == field * pow2((32 - width) as nat)
        }),
{
    let width = rtl.ks_params.width;
    let word = words[ksk_word(rtl, x, y, z)];
    let r = z % rtl.ks_params.lbz as int;
    lemma_mod_bound(z, rtl.ks_params.lbz as int);
    assert(r * width >= 0) by (nonlinear_arith)
        requires
            r >= 0,
    ;
    let below = (r * width) as u64;
    let part = word >> below;
    lemma_u64_shr_is_div(word, below);
    lemma_u64_pow2_no_overflow(width as nat);
    lemma_u64_shl_is_mul(1, width as u64);
    lemma_pow2_pos(width as nat);
    let mask = ((1u64 << width) - 1) as u64;
    assert(mask == low_bits_mask(width as nat));
    lemma_u64_low_bits_mask_is_mod(part, width as nat);
    let field = part & mask;
    lemma_mod_bound(part as int, pow2(width as nat) as int);
    let up = (32 - width) as u64;
    lemma_pow2_adds(width as nat, up as nat);
    lemma_pow2_pos(up as nat);
    assert(pow2(32) == 0x1_0000_0000) by {
        vstd::arithmetic::power2::lemma2_to64();
    }
    let (p, q) = (pow2(width as nat) as int, pow2(up as nat) as int);
    assert(field * q < p * q) by (nonlinear_arith)
        requires
            0 <= field < p,
            q > 0,
    ;
    lemma_u64_shl_is_mul(field, up);
}

/// The words of the bootstrapping key: the coefficients of a batch of the transform follow each
/// other, then the levels, then the rows, then the batches, then the columns, then the steps.
pub proof fn bootstrapping_words_follow_each_other(
    rtl: HpuParameters,
    s: int,
    level: int,
    row: int,
    col: int,
    c: int,
)
    requires
        rtl.ntt_params.radix * rtl.ntt_params.psi > 0,
    ensures
        ({
            let batch = rtl.ntt_params.radix * rtl.ntt_params.psi;
            let batches = rtl.pbs_params.polynomial_size as int / batch;
            let levels = rtl.pbs_params.pbs_level;
            let size = rtl.pbs_params.glwe_dimension + 1;
            let word = bsk_word(rtl, s, level, row, col, c);
            &&& bsk_word(rtl, 0, 0, 0, 0, 0) == 0
            &&& c % batch + 1 < batch ==> bsk_word(rtl, s, level, row, col, c + 1) == word + 1
            &&& bsk_word(rtl, s, level + 1, row, col, c) == word + batch
            &&& bsk_word(rtl, s, level, row + 1, col, c) == word + batch * levels
            &&& bsk_word(rtl, s, level, row, col, c + batch) == word + batch * levels * size
            &&& bsk_word(rtl, s, level, row, col + 1, c) == word + batch * levels * size * batches
            &&& bsk_word(rtl, s + 1, level, row, col, c) == word + batch * levels * size * batches
                * size
        }),
{
    let batch = rtl.ntt_params.radix * rtl.ntt_params.psi;
    let batches = rtl.pbs_params.polynomial_size as int / batch;
    let levels = rtl.pbs_params.pbs_level as int;
    let size = rtl.pbs_params.glwe_dimension + 1;
    lemma_next_block(c, batch);
    if c % batch + 1 < batch {
        lemma_next_in_block(c, batch);
    }
    lemma_fundamental_div_mod_converse(0, batch, 0, 0);
    let q = c / batch;
    let column = s * size + col;
    let rows = (column * batches + q) * size + row;
    assert(0 * size == 0 && 0 * batches == 0 && 0 * levels == 0 && 0 * batch == 0)
        by (nonlinear_arith);
    assert((rows * levels + (level + 1)) * batch == (rows * levels + level) * batch + batch)
        by (nonlinear_arith);
    lemma_rows(rows, 1, levels, level, batch);
    assert((column * batches + (q + 1)) * size == (column * batches + q) * size + size)
        by (nonlinear_arith);
    lemma_rows(rows, size, levels, level, batch);
    assert(((column + 1) * batches + q) * size == (column * batches + q) * size + batches * size)
        by (nonlinear_arith);
    lemma_rows(rows, batches * size, levels, level, batch);
    assert((s + 1) * size == s * size + size) by (nonlinear_arith);
    assert(((column + size) * batches + q) * size == (column * batches + q) * size + size * batches
        * size) by (nonlinear_arith);
    lemma_rows(rows, size * batches * size, levels, level, batch);
    assert(batch * levels * 1 == batch * levels);
    assert(batch * levels * (batches * size) == batch * levels * size * batches)
        by (nonlinear_arith);
    assert(batch * levels * (size * batches * size) == batch * levels * size * batches * size)
        by (nonlinear_arith);
}

proof fn lemma_rows(rows: int, more: int, levels: int, level: int, batch: int)
    ensures
        ((rows + more) * levels + level) * batch == (rows * levels + level) * batch + batch * levels
            * more,
{
    assert(((rows + more) * levels + level) * batch == (rows * levels + level) * batch + batch
        * levels * more) by (nonlinear_arith);
}

/// The coefficients of the bootstrapping key: those of a polynomial follow each other, then the
/// columns, then the rows, then the levels, then the steps.
pub proof fn bootstrapping_ranks_follow_each_other(
    rtl: HpuParameters,
    s: int,
    level: int,
    row: int,
    col: int,
    k: int,
)
    ensures
        ({
            let poly = rtl.pbs_params.polynomial_size;
            let levels = rtl.pbs_params.pbs_level;
            let size = rtl.pbs_params.glwe_dimension + 1;
            let rank = bsk_rank(rtl, s, level, row, col, k);
            &&& bsk_rank(rtl, 0, 0, 0, 0, 0) == 0
            &&& bsk_rank(rtl, s, level, row, col, k + 1) == rank + 1
            &&& bsk_rank(rtl, s, level, row, col + 1, k) == rank + poly
            &&& bsk_rank(rtl, s, level, row + 1, col, k) == rank + poly * size
            &&& bsk_rank(rtl, s, level + 1, row, col, k) == rank + poly * size * size
            &&& bsk_rank(rtl, s + 1, level, row, col, k) == rank + poly * size * size * levels
        }),
{
    let poly = rtl.pbs_params.polynomial_size as int;
    let levels = rtl.pbs_params.pbs_level as int;
    let size = rtl.pbs_params.glwe_dimension + 1;
    let matrix = s * levels + level;
    assert(0 * size == 0 && 0 * poly == 0 && 0 * levels == 0) by (nonlinear_arith);
    assert((((matrix) * size + row) * size + (col + 1)) * poly == (((matrix) * size + row) * size
        + col) * poly + poly) by (nonlinear_arith);
    assert((((matrix) * size + (row + 1)) * size + col) * poly == (((matrix) * size + row) * size
        + col) * poly + poly * size) by (nonlinear_arith);
    lemma_matrices(matrix, 1, size, row, col, poly);
    assert((s + 1) * levels == s * levels + levels) by (nonlinear_arith);
    lemma_matrices(matrix, levels, size, row, col, poly);
    assert(poly * size * size * 1 == poly * size * size);
}

proof fn lemma_matrices(matrix: int, more: int, size: int, row: int, col: int, poly: int)
    ensures
        (((matrix + more) * size + row) * size + col) * poly == ((matrix * size + row) * size + col)
            * poly + poly * size * size * more,
{
    assert((((matrix + more) * size + row) * size + col) * poly == ((matrix * size + row) * size
        + col) * poly + poly * size * size * more) by (nonlinear_arith);
}

/// The channels take turns to hold the words of a key, a run of consecutive words each, from the
/// first channel and its first word.
pub proof fn key_words_take_turns(run: int, pc_nb: int, i: int)
    requires
        run > 0,
        pc_nb > 0,
        i >= 0,
    ensures
        word_channel(run, pc_nb, 0) == 0 && word_ofst(run, pc_nb, 0) == 0,
        i % run + 1 < run ==> word_channel(run, pc_nb, i + 1) == word_channel(run, pc_nb, i)
            && word_ofst(run, pc_nb, i + 1) == word_ofst(run, pc_nb, i) + 1,
        word_channel(run, pc_nb, i) + 1 < pc_nb ==> word_channel(run, pc_nb, i + run)
            == word_channel(run, pc_nb, i) + 1 && word_ofst(run, pc_nb, i + run) == word_ofst(
            run,
            pc_nb,
            i,
        ),
        word_channel(run, pc_nb, i + run * pc_nb) == word_channel(run, pc_nb, i),
        word_ofst(run, pc_nb, i + run * pc_nb) == word_ofst(run, pc_nb, i) + run,
{
    lemma_fundamental_div_mod_converse(0, run, 0, 0);
    lemma_fundamental_div_mod_converse(0, pc_nb, 0, 0);
    assert(0 * run == 0) by (nonlinear_arith);
    if i % run + 1 < run {
        lemma_next_in_block(i, run);
    }
    lemma_next_block(i, run);
    let turn = i / run;
    if turn % pc_nb + 1 < pc_nb {
        lemma_next_in_block(turn, pc_nb);
    }
    lemma_next_block(turn, pc_nb);
    lemma_fundamental_div_mod(i, run);
    lemma_mod_bound(i, run);
    let r = i % run;
    assert(i + run * pc_nb == (turn + pc_nb) * run + r) by (nonlinear_arith)
        requires
            i == run * turn + r,
    ;
    lemma_fundamental_div_mod_converse(i + run * pc_nb, run, turn + pc_nb, r);
    let q = turn / pc_nb;
    assert((q + 1) * run == q * run + run) by (nonlinear_arith);
}

/// The channels of a key share it out: the runs of all of them make a row of a block of inputs,
/// or a batch of the transform, and their parts make the whole key.
pub proof fn channels_share_the_keys(rtl: HpuParameters)
    ensures
        ksk_split_ok(rtl) ==> {
            let pc_nb = rtl.pc_params.ksk_pc as int;
            &&& ksk_run(rtl) * pc_nb <= rtl.ks_params.lby < (ksk_run(rtl) + 1) * pc_nb
            &&& ksk_run(rtl) >= 1
            &&& ksk_part_len(rtl) * pc_nb == ksk_hw_len(rtl)
        },
        bsk_split_ok(rtl) ==> {
            let pc_nb = rtl.pc_params.bsk_pc as int;
            &&& bsk_run(rtl) * pc_nb == rtl.ntt_params.radix * rtl.ntt_params.psi
            &&& bsk_part_len(rtl) * pc_nb == bsk_len(rtl)
        },
{
    if ksk_split_ok(rtl) {
        let (lby, pc_nb) = (rtl.ks_params.lby as int, rtl.pc_params.ksk_pc as int);
        let (run, len) = (ksk_run(rtl), ksk_hw_len(rtl));
        lemma_fundamental_div_mod(lby, pc_nb);
        lemma_mod_bound(lby, pc_nb);
        assert(run * pc_nb <= lby < (run + 1) * pc_nb && run >= 1) by (nonlinear_arith)
            requires
                lby == pc_nb * run + lby % pc_nb,
                0 <= lby % pc_nb < pc_nb,
                1 <= pc_nb <= lby,
        ;
        assert(run * pc_nb > 0);
        lemma_fundamental_div_mod(len, run * pc_nb);
        let turns = len / (run * pc_nb);
        assert(len == (turns * run) * pc_nb + 0) by (nonlinear_arith)
            requires
                len == (run * pc_nb) * turns,
        ;
        lemma_fundamental_div_mod_converse(len, pc_nb, turns * run, 0);
    }
    if bsk_split_ok(rtl) {
        let pc_nb = rtl.pc_params.bsk_pc as int;
        let batch = rtl.ntt_params.radix * rtl.ntt_params.psi;
        lemma_fundamental_div_mod(batch, pc_nb);
        lemma_fundamental_div_mod(bsk_len(rtl), pc_nb);
        assert(bsk_run(rtl) * pc_nb == pc_nb * bsk_run(rtl)) by (nonlinear_arith);
        assert(bsk_part_len(rtl) * pc_nb == pc_nb * bsk_part_len(rtl)) by (nonlinear_arith);
    }
}

/// The keyswitching key has whole blocks of outputs, inputs and levels in the memory, no more
/// than are needed; the bootstrapping key has its coefficients only.
pub proof fn keys_have_whole_blocks(rtl: HpuParameters)
    requires
        rtl.ks_params.lbx > 0,
    ensures
        ({
            let p = rtl.pbs_params;
            let size = p.glwe_dimension + 1;
            &&& exists|slices: int| #[trigger]
                holds_exactly(p.lwe_dimension + 1, slices, rtl.ks_params.lbx as int)
                    && ksk_hw_len(rtl) == ksk_word(rtl, slices * rtl.ks_params.lbx, 0, 0)
                    - ksk_word(rtl, 0, 0, 0)
            &&& bsk_len(rtl) == bsk_rank(rtl, p.lwe_dimension as int, 0, 0, 0, 0)
        }),
{
    let p = rtl.pbs_params;
    let lbx = rtl.ks_params.lbx as int;
    let outputs = p.lwe_dimension + 1;
    let slices = div_ceil(outputs, lbx);
    lemma_fundamental_div_mod(outputs, lbx);
    lemma_mod_bound(outputs, lbx);
    let (q, r) = (outputs / lbx, outputs % lbx);
    assert((slices - 1) * lbx < outputs <= slices * lbx) by (nonlinear_arith)
        requires
            outputs == lbx * q + r,
            0 <= r < lbx,
            slices == (if r == 0 {
                q
            } else {
                q + 1
            }),
    ;
    assert(holds_exactly(outputs, slices, lbx));
    let slice = slice_len(rtl);
    assert((slices * lbx) * slice - 0 * slice == (lbx * slices) * slice) by (nonlinear_arith);
    let (s, l, size, poly) = (
        p.lwe_dimension as int,
        p.pbs_level as int,
        p.glwe_dimension + 1,
        p.polynomial_size as int,
    );
    assert((((s * l + 0) * size + 0) * size + 0) * poly + 0 == s * (l * (size * size * poly)))
        by (nonlinear_arith);
}

/// A number of blocks holds some items, and one less does not.
pub open spec fn holds_exactly(items: int, blocks: int, block: int) -> bool {
    (blocks - 1) * block < items <= blocks * block
}

} // verus!
