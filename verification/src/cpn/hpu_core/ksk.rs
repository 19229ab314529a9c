//! Keyswitching key, from the words of the key memory.
//!
//! The key is a block of coefficients with three dimensions: `x` runs over the outputs of the
//! keyswitch, `y` over its inputs and `z` over the levels of the decomposition. The memory
//! holds it slice by slice over `x`. A slice is cut in rectangles of `lby` inputs by `lbz`
//! levels, and a word packs the levels of a rectangle for one input.
use vstd::arithmetic::div_mod::{
    lemma_fundamental_div_mod, lemma_fundamental_div_mod_converse, lemma_mod_bound,
};
use vstd::prelude::*;

use super::channels::{interleave, interleaved};
use super::pbs::{ksk_hw_fits, ksk_hw_len, ksk_hw_ok, ksk_hw_size, product};
use crate::cpn::layout::{div_ceil, quotient_ceil};
use crate::params::hpu::HpuParameters;

verus! {

/// Number of inputs of the keyswitch.
pub open spec fn ks_inputs(rtl: HpuParameters) -> int {
    rtl.pbs_params.glwe_dimension * rtl.pbs_params.polynomial_size
}

/// Number of outputs of the keyswitch.
pub open spec fn ks_outputs(rtl: HpuParameters) -> int {
    rtl.pbs_params.lwe_dimension + 1
}

/// Number of coefficients of the keyswitching key.
pub open spec fn ksk_len(rtl: HpuParameters) -> int {
    ks_inputs(rtl) * (rtl.pbs_params.ks_level * ks_outputs(rtl))
}

/// Number of words of a slice of the key.
pub open spec fn slice_len(rtl: HpuParameters) -> int {
    let ks = rtl.ks_params;
    (ks.lby * div_ceil(ks_inputs(rtl), ks.lby as int)) * div_ceil(
        rtl.pbs_params.ks_level as int,
        ks.lbz as int,
    )
}

/// Rank in its slice of the rectangle that holds a coefficient.
pub open spec fn ksk_rectangle(rtl: HpuParameters, y: int, z: int) -> int {
    let ks = rtl.ks_params;
    (y / ks.lby as int) * div_ceil(rtl.pbs_params.ks_level as int, ks.lbz as int) + z
        / ks.lbz as int
}

/// Rank of the word that holds a coefficient.
pub open spec fn ksk_word(rtl: HpuParameters, x: int, y: int, z: int) -> int {
    let lby = rtl.ks_params.lby as int;
    x * slice_len(rtl) + ksk_rectangle(rtl, y, z) * lby + y % lby
}

/// Coefficient of the key: a field of its word, aligned with the most significant bits.
pub open spec fn ksk_coef(rtl: HpuParameters, words: Seq<u64>, x: int, y: int, z: int) -> u32 {
    let width = rtl.ks_params.width;
    let word = words[ksk_word(rtl, x, y, z)];
    let field = (word >> ((z % rtl.ks_params.lbz as int) * width)) & ((1u64 << width) - 1) as u64;
    (field << (32 - width)) as u32
}

/// Keyswitching key held by some words: for each input, for each level, its outputs.
pub open spec fn ksk_of_words(rtl: HpuParameters, words: Seq<u64>) -> Seq<u32> {
    let n = ks_outputs(rtl);
    let level = rtl.pbs_params.ks_level as int;
    Seq::new(
        ksk_len(rtl) as nat,
        |i: int| ksk_coef(rtl, words, i % n, (i / n) / level, (i / n) % level),
    )
}

/// The levels that a word packs are fields of it, and the key has a machine length.
pub open spec fn ksk_pack_ok(rtl: HpuParameters) -> bool {
    let level = rtl.pbs_params.ks_level;
    let lbz = rtl.ks_params.lbz;
    let packed = if level < lbz {
        level
    } else {
        lbz
    };
    &&& ksk_hw_ok(rtl)
    &&& 1 <= rtl.ks_params.width <= 32
    &&& (packed - 1) * rtl.ks_params.width < 64
    &&& ksk_len(rtl) <= usize::MAX
}

/// The word of a coefficient is one of those of the key.
proof fn lemma_ksk_word(rtl: HpuParameters, x: int, y: int, z: int)
    requires
        ksk_hw_ok(rtl),
        0 <= x < ks_outputs(rtl),
        0 <= y < ks_inputs(rtl),
        0 <= z < rtl.pbs_params.ks_level,
    ensures
        0 <= ksk_word(rtl, x, y, z) < ksk_hw_len(rtl),
        0 <= x * slice_len(rtl) <= ksk_hw_len(rtl),
        0 < slice_len(rtl) <= ksk_hw_len(rtl),
        0 <= (y / rtl.ks_params.lby as int) * div_ceil(
            rtl.pbs_params.ks_level as int,
            rtl.ks_params.lbz as int,
        ) <= ksk_rectangle(rtl, y, z) <= ksk_hw_len(rtl),
        0 <= ksk_rectangle(rtl, y, z) * rtl.ks_params.lby,
        ksk_rectangle(rtl, y, z) * rtl.ks_params.lby + (y % rtl.ks_params.lby as int) < slice_len(
            rtl,
        ),
{
    let lbx = rtl.ks_params.lbx as int;
    let lby = rtl.ks_params.lby as int;
    let lbz = rtl.ks_params.lbz as int;
    let level = rtl.pbs_params.ks_level as int;
    let bands = div_ceil(ks_inputs(rtl), lby);
    let layers = div_ceil(level, lbz);
    let slices = lbx * div_ceil(ks_outputs(rtl), lbx);
    let slice = slice_len(rtl);
    let (b, l, r) = (y / lby, z / lbz, y % lby);
    lemma_below_ceil(ks_inputs(rtl), lby, y);
    lemma_below_ceil(level, lbz, z);
    lemma_ceil(ks_outputs(rtl), lbx);
    lemma_mod_bound(y, lby);
    assert(0 <= b < bands && 0 <= l < layers && 0 <= r < lby);
    assert(slice == (lby * bands) * layers);
    assert(ksk_hw_len(rtl) == slices * slice);
    assert(slices > x);
    let rank = b * layers + l;
    assert(rank < bands * layers && 0 <= b * layers <= rank) by (nonlinear_arith)
        requires
            rank == b * layers + l,
            0 <= b <= bands - 1,
            0 <= l < layers,
    ;
    assert(rank * lby + r < (lby * bands) * layers && 0 <= rank * lby && rank <= rank * lby)
        by (nonlinear_arith)
        requires
            0 <= rank <= bands * layers - 1,
            0 <= r < lby,
    ;
    let inner = rank * lby + r;
    assert(x * slice + inner < slices * slice && 0 <= x * slice <= slices * slice && slice
        <= slices * slice) by (nonlinear_arith)
        requires
            0 <= x <= slices - 1,
            0 <= inner < slice,
    ;
}

proof fn lemma_ceil(n: int, d: int)
    requires
        n >= 0,
        d > 0,
    ensures
        d * div_ceil(n, d) >= n,
        div_ceil(n, d) >= 0,
{
    lemma_fundamental_div_mod(n, d);
    lemma_mod_bound(n, d);
    let q = n / d;
    assert(q >= 0) by (nonlinear_arith)
        requires
            d * q + n % d == n,
            n % d < d,
            n >= 0,
            d > 0,
    ;
    assert(d * (q + 1) == d * q + d) by (nonlinear_arith);
}

proof fn lemma_below_ceil(n: int, d: int, i: int)
    requires
        0 <= i < n,
        d > 0,
    ensures
        0 <= i / d < div_ceil(n, d),
{
    lemma_ceil(n, d);
    lemma_fundamental_div_mod(i, d);
    lemma_mod_bound(i, d);
    let (q, c) = (i / d, div_ceil(n, d));
    assert(0 <= q < c) by (nonlinear_arith)
        requires
            d * q + i % d == i,
            0 <= i % d < d,
            0 <= i,
            i < d * c,
            d > 0,
    ;
}

/// Input, level and output of a coefficient, from its rank in the key.
proof fn lemma_ksk_rank(rtl: HpuParameters, i: int)
    requires
        0 <= i < ksk_len(rtl),
    ensures
        ({
            let n = ks_outputs(rtl);
            let level = rtl.pbs_params.ks_level as int;
            &&& level > 0
            &&& 0 <= i % n < n
            &&& 0 <= (i / n) % level < level
            &&& 0 <= (i / n) / level < ks_inputs(rtl)
        }),
{
    let n = ks_outputs(rtl);
    let level = rtl.pbs_params.ks_level as int;
    let inputs = ks_inputs(rtl);
    assert(level > 0) by {
        if level == 0 {
            assert(inputs * (0 * n) == 0) by (nonlinear_arith);
        }
    }
    let q = i / n;
    let y = q / level;
    lemma_mod_bound(i, n);
    lemma_mod_bound(q, level);
    lemma_fundamental_div_mod(i, n);
    lemma_fundamental_div_mod(q, level);
    assert(0 <= q) by (nonlinear_arith)
        requires
            n * q + i % n == i,
            i % n < n,
            i >= 0,
            n > 0,
    ;
    assert(0 <= y) by (nonlinear_arith)
        requires
            level * y + q % level == q,
            q % level < level,
            q >= 0,
            level > 0,
    ;
    assert(q < inputs * level) by (nonlinear_arith)
        requires
            n * q <= i,
            i < inputs * (level * n),
            n > 0,
    ;
    assert(y < inputs) by (nonlinear_arith)
        requires
            level * y <= q,
            q < inputs * level,
            level > 0,
    ;
}

/// Each coefficient of the key is the one that its word holds.
pub proof fn ksk_coefficient(rtl: HpuParameters, words: Seq<u64>, x: int, y: int, z: int)
    requires
        0 <= x < ks_outputs(rtl),
        0 <= y < ks_inputs(rtl),
        0 <= z < rtl.pbs_params.ks_level,
    ensures
        ({
            let i = (y * rtl.pbs_params.ks_level + z) * ks_outputs(rtl) + x;
            &&& 0 <= i < ksk_of_words(rtl, words).len()
            &&& ksk_of_words(rtl, words)[i] == ksk_coef(rtl, words, x, y, z)
        }),
{
    let n = ks_outputs(rtl);
    let level = rtl.pbs_params.ks_level as int;
    let inputs = ks_inputs(rtl);
    let q = y * level + z;
    let i = q * n + x;
    assert(0 <= q <= inputs * level - 1) by (nonlinear_arith)
        requires
            q == y * level + z,
            0 <= y <= inputs - 1,
            0 <= z < level,
    ;
    assert(0 <= i < inputs * (level * n)) by (nonlinear_arith)
        requires
            i == q * n + x,
            0 <= q <= inputs * level - 1,
            0 <= x < n,
    ;
    lemma_fundamental_div_mod_converse(i, n, q, x);
    lemma_fundamental_div_mod_converse(q, level, y, z);
}

/// Keyswitching key held by the words of the memory, in their order in the key.
pub fn ksk_from_words(rtl: &HpuParameters, words: &Vec<u64>) -> (r: Vec<u32>)
    requires
        ksk_pack_ok(*rtl),
        words@.len() == ksk_hw_len(*rtl),
    ensures
        r@ == ksk_of_words(*rtl, words@),
{
    let p = rtl.pbs_params;
    let ks = rtl.ks_params;
    let n: usize = p.lwe_dimension + 1;
    let inputs: usize = p.glwe_dimension * p.polynomial_size;
    let level: usize = p.ks_level;
    let len: usize = match product(inputs, level, n) {
        Some(len) => len,
        None => 0,
    };
    let ghost key = ksk_of_words(*rtl, words@);
    let rows: usize = ks.lby * quotient_ceil(inputs, ks.lby);
    let layers: usize = quotient_ceil(level, ks.lbz);
    let mask: u64 = field_mask(ks.width);
    let mut r: Vec<u32> = Vec::new();
    for i in 0..len
        invariant
            ksk_pack_ok(*rtl),
            words@.len() == ksk_hw_len(*rtl),
            p == rtl.pbs_params,
            ks == rtl.ks_params,
            n == ks_outputs(*rtl),
            inputs == ks_inputs(*rtl),
            level == p.ks_level,
            len == ksk_len(*rtl),
            rows == ks.lby * div_ceil(inputs as int, ks.lby as int),
            layers == div_ceil(level as int, ks.lbz as int),
            mask == (1u64 << ks.width) - 1,
            key == ksk_of_words(*rtl, words@),
            r@.len() == i,
            forall|j: int| 0 <= j < i ==> #[trigger] r@[j] == key[j],
    {
        proof {
            lemma_ksk_rank(*rtl, i as int);
        }
        let x: usize = i % n;
        let y: usize = (i / n) / level;
        let z: usize = (i / n) % level;
        proof {
            lemma_ksk_word(*rtl, x as int, y as int, z as int);
            lemma_packed(*rtl, z as int);
        }
        let inner: usize = ((y / ks.lby) * layers + z / ks.lbz) * ks.lby + y % ks.lby;
        let word: u64 = words[x * (rows * layers) + inner];
        let field: u64 = (word >> ((z % ks.lbz) * ks.width)) & mask;
        r.push((field << (32 - ks.width)) as u32);
    }
    assert(r@ =~= key);
    r
}

/// The fields of a word are inside it.
proof fn lemma_packed(rtl: HpuParameters, z: int)
    requires
        ksk_pack_ok(rtl),
        0 <= z < rtl.pbs_params.ks_level,
    ensures
        0 <= z % rtl.ks_params.lbz as int,
        0 <= (z % rtl.ks_params.lbz as int) * rtl.ks_params.width < 64,
{
    let lbz = rtl.ks_params.lbz as int;
    let level = rtl.pbs_params.ks_level as int;
    let width = rtl.ks_params.width as int;
    let packed = if level < lbz {
        level
    } else {
        lbz
    };
    lemma_mod_bound(z, lbz);
    let k = z % lbz;
    assert(k <= z) by {
        lemma_fundamental_div_mod(z, lbz);
        let q = z / lbz;
        assert(lbz * q >= 0) by (nonlinear_arith)
            requires
                lbz * q + k == z,
                0 <= k < lbz,
                z >= 0,
        ;
    }
    assert(0 <= k * width <= (packed - 1) * width) by (nonlinear_arith)
        requires
            0 <= k <= packed - 1,
            width >= 1,
    ;
}

fn field_mask(width: usize) -> (r: u64)
    requires
        width <= 32,
    ensures
        r == (1u64 << width) - 1,
{
    proof {
        assert(width <= 32 ==> 1u64 << width >= 1) by (bit_vector);
    }
    (1u64 << width) - 1
}

/// Number of consecutive words of the key that a memory channel holds.
pub open spec fn ksk_run(rtl: HpuParameters) -> int {
    rtl.ks_params.lby as int / rtl.pc_params.ksk_pc as int
}

/// The words of the key are shared out equally between the memory channels.
pub open spec fn ksk_split_ok(rtl: HpuParameters) -> bool {
    &&& 1 <= rtl.pc_params.ksk_pc <= rtl.ks_params.lby
    &&& ksk_hw_len(rtl) % (ksk_run(rtl) * rtl.pc_params.ksk_pc) == 0
}

/// Number of words of the key in each memory channel.
pub open spec fn ksk_part_len(rtl: HpuParameters) -> int {
    ksk_hw_len(rtl) / rtl.pc_params.ksk_pc as int
}

/// Keyswitching key held by the words of each memory channel.
pub open spec fn ksk_of_parts(rtl: HpuParameters, parts: Seq<Seq<u64>>) -> Seq<u32> {
    ksk_of_words(rtl, interleaved(ksk_run(rtl), ksk_hw_len(rtl), parts))
}

proof fn lemma_ksk_run(rtl: HpuParameters)
    requires
        ksk_split_ok(rtl),
    ensures
        ksk_run(rtl) > 0,
{
    let pc = rtl.pc_params.ksk_pc as int;
    let lby = rtl.ks_params.lby as int;
    let run = ksk_run(rtl);
    lemma_fundamental_div_mod(lby, pc);
    lemma_mod_bound(lby, pc);
    assert(run > 0) by (nonlinear_arith)
        requires
            pc * run + lby % pc == lby,
            lby % pc < pc,
            1 <= pc <= lby,
    ;
}

/// Keyswitching key held by the words of each memory channel.
pub fn ksk_from_parts(rtl: &HpuParameters, parts: &Vec<Vec<u64>>) -> (r: Vec<u32>)
    requires
        ksk_pack_ok(*rtl),
        ksk_split_ok(*rtl),
        parts@.len() == rtl.pc_params.ksk_pc,
        forall|pc: int|
            0 <= pc < parts@.len() ==> (#[trigger] parts@[pc])@.len() == ksk_part_len(*rtl),
    ensures
        r@ == ksk_of_parts(*rtl, parts@.map_values(|part: Vec<u64>| part@)),
{
    let len: usize = ksk_hw_size(rtl);
    let run: usize = rtl.ks_params.lby / rtl.pc_params.ksk_pc;
    proof {
        lemma_ksk_run(*rtl);
        lemma_hw_len(*rtl);
    }
    let words = interleave(run, len, parts);
    ksk_from_words(rtl, &words)
}

/// Number of words of the keyswitching key in each memory channel.
pub fn ksk_part_size(rtl: &HpuParameters) -> (r: usize)
    requires
        ksk_hw_ok(*rtl),
        rtl.pc_params.ksk_pc >= 1,
    ensures
        r == ksk_part_len(*rtl),
{
    ksk_hw_size(rtl) / rtl.pc_params.ksk_pc
}

proof fn lemma_hw_len(rtl: HpuParameters)
    requires
        ksk_hw_ok(rtl),
    ensures
        ksk_hw_len(rtl) >= 0,
{
    let ks = rtl.ks_params;
    assert(ks_inputs(rtl) >= 0) by (nonlinear_arith);
    lemma_ceil(ks_outputs(rtl), ks.lbx as int);
    lemma_ceil(ks_inputs(rtl), ks.lby as int);
    lemma_ceil(rtl.pbs_params.ks_level as int, ks.lbz as int);
    let x = ks.lbx * div_ceil(ks_outputs(rtl), ks.lbx as int);
    let y = ks.lby * div_ceil(ks_inputs(rtl), ks.lby as int);
    let z = div_ceil(rtl.pbs_params.ks_level as int, ks.lbz as int);
    assert(x * (y * z) >= 0) by (nonlinear_arith)
        requires
            x >= 0,
            y >= 0,
            z >= 0,
    ;
}

/// Whether the keyswitching key can be taken out of the memory.
pub fn ksk_fits(rtl: &HpuParameters) -> (r: bool)
    ensures
        r == (ksk_pack_ok(*rtl) && ksk_split_ok(*rtl)),
{
    let ks = rtl.ks_params;
    let p = rtl.pbs_params;
    let pc: usize = rtl.pc_params.ksk_pc;
    if !ksk_hw_fits(rtl) || ks.width < 1 || ks.width > 32 || pc < 1 || pc > ks.lby {
        return false;
    }
    let packed: usize = if p.ks_level < ks.lbz {
        p.ks_level
    } else {
        ks.lbz
    };
    proof {
        if packed > 64 {
            assert((packed - 1) * ks.width >= 64) by (nonlinear_arith)
                requires
                    packed > 64,
                    ks.width >= 1,
            ;
        } else if packed >= 1 {
            assert((packed - 1) * ks.width <= 64 * 32) by (nonlinear_arith)
                requires
                    1 <= packed <= 64,
                    1 <= ks.width <= 32,
            ;
            assert((packed - 1) * ks.width >= 0) by (nonlinear_arith)
                requires
                    1 <= packed,
                    1 <= ks.width,
            ;
        } else {
            assert((packed - 1) * ks.width <= 0) by (nonlinear_arith)
                requires
                    packed == 0,
                    1 <= ks.width,
            ;
        }
    }
    if packed > 64 || (packed >= 1 && (packed - 1) * ks.width >= 64) {
        return false;
    }
    if product(p.glwe_dimension * p.polynomial_size, p.ks_level, p.lwe_dimension + 1)
        .is_none() {
        return false;
    }
    proof {
        let lby = ks.lby as int;
        lemma_hw_len(*rtl);
        lemma_fundamental_div_mod(lby, pc as int);
        lemma_mod_bound(lby, pc as int);
        let run = ksk_run(*rtl);
        assert(run > 0 && 0 < run * pc <= lby) by (nonlinear_arith)
            requires
                pc * run + lby % (pc as int) == lby,
                0 <= lby % (pc as int) < pc,
                1 <= pc <= lby,
        ;
    }
    ksk_hw_size(rtl) % ((ks.lby / pc) * pc) == 0
}

} // verus!
