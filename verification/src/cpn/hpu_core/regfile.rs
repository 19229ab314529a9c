//! Register file of the computation core.
//!
//! A register holds a ciphertext split over the memory channels. Its coefficients
//! are aligned with the least significant bits, while arithmetic is done on
//! coefficients aligned with the most significant ones.
use vstd::arithmetic::div_mod::{
    lemma_fundamental_div_mod, lemma_fundamental_div_mod_converse, lemma_mod_bound,
};
use vstd::prelude::*;

use crate::params::hpu::HpuParameters;

verus! {

/// Register: the coefficients held by each memory channel.
pub struct HpuLweCiphertext {
    pub pc_data: Vec<Vec<u64>>,
}

impl View for HpuLweCiphertext {
    type V = Seq<Seq<u64>>;

    open spec fn view(&self) -> Seq<Seq<u64>> {
        Seq::new(self.pc_data@.len(), |i: int| self.pc_data@[i]@)
    }
}

/// Number of consecutive coefficients held by a channel.
pub open spec fn stripe(rtl: HpuParameters) -> int {
    rtl.regf_params.coef_nb as int / rtl.pc_params.pem_pc as int
}

/// Channel that holds a coefficient.
pub open spec fn coef_pc(rtl: HpuParameters, i: int) -> int {
    (i / stripe(rtl)) % (rtl.pc_params.pem_pc as int)
}

/// Position of a coefficient in its channel.
pub open spec fn coef_ofst(rtl: HpuParameters, i: int) -> int {
    ((i / stripe(rtl)) / rtl.pc_params.pem_pc as int) * stripe(rtl) + i % stripe(rtl)
}

/// Number of coefficients of a channel: they are shared equally, and the body is in
/// the first channel.
pub open spec fn pc_len(rtl: HpuParameters, pc: int) -> int {
    let share = rtl.pbs_params.big_lwe_size() / rtl.pc_params.pem_pc as int;
    if pc == 0 && rtl.pc_params.pem_pc != 1 {
        share + 1
    } else {
        share
    }
}

/// The channels hold the coefficients of a ciphertext, and no more.
pub open spec fn shape_ok(rtl: HpuParameters) -> bool {
    let n = rtl.pbs_params.big_lwe_size();
    let pem_pc = rtl.pc_params.pem_pc as int;
    &&& pem_pc > 0
    &&& n < usize::MAX
    &&& stripe(rtl) > 0
    &&& n == (n / pem_pc) * pem_pc + (if pem_pc == 1 { 0int } else { 1int })
    &&& forall|i: int|
        0 <= i < n ==> #[trigger] coef_ofst(rtl, i) < pc_len(rtl, coef_pc(rtl, i))
    &&& 1 <= rtl.ntt_params.ct_width <= 64
}

/// A register has the shape given by the parameters.
pub open spec fn reg_ok(rtl: HpuParameters, reg: Seq<Seq<u64>>) -> bool {
    &&& reg.len() == rtl.pc_params.pem_pc
    &&& forall|pc: int| 0 <= pc < reg.len() ==> (#[trigger] reg[pc]).len() == pc_len(rtl, pc)
}

/// Coefficients of a register, in their natural order.
pub open spec fn coefs(rtl: HpuParameters, reg: Seq<Seq<u64>>) -> Seq<u64> {
    Seq::new(
        rtl.pbs_params.big_lwe_size() as nat,
        |i: int| reg[coef_pc(rtl, i)][coef_ofst(rtl, i)],
    )
}

/// Number of unused bits of a coefficient.
pub open spec fn align(rtl: HpuParameters) -> int {
    64 - rtl.ntt_params.ct_width
}

/// Coefficients aligned with the most significant bits.
pub open spec fn to_cpu(rtl: HpuParameters, hpu: Seq<u64>) -> Seq<u64> {
    hpu.map_values(|x: u64| x << align(rtl))
}

/// Coefficients aligned with the least significant bits.
pub open spec fn to_hpu(rtl: HpuParameters, cpu: Seq<u64>) -> Seq<u64> {
    cpu.map_values(|x: u64| x >> align(rtl))
}

/// Coefficient held at a position of a channel.
pub open spec fn coef_at(rtl: HpuParameters, pc: int, k: int) -> int {
    ((k / stripe(rtl)) * rtl.pc_params.pem_pc + pc) * stripe(rtl) + k % stripe(rtl)
}

/// Register that holds some coefficients, each in its place.
pub open spec fn scatter(rtl: HpuParameters, hpu: Seq<u64>) -> Seq<Seq<u64>> {
    Seq::new(
        rtl.pc_params.pem_pc as nat,
        |pc: int|
            Seq::new(
                pc_len(rtl, pc) as nat,
                |k: int|
                    if coef_at(rtl, pc, k) < hpu.len() {
                        hpu[coef_at(rtl, pc, k)]
                    } else {
                        0
                    },
            ),
    )
}

/// Ciphertext read from a register.
pub open spec fn reg_read(rtl: HpuParameters, reg: Seq<Seq<u64>>) -> Seq<u64> {
    to_cpu(rtl, coefs(rtl, reg))
}

/// Register in which a ciphertext is written.
pub open spec fn reg_write(rtl: HpuParameters, cpu: Seq<u64>) -> Seq<Seq<u64>> {
    scatter(rtl, to_hpu(rtl, cpu))
}

/// Each coefficient has its own place.
proof fn lemma_place_of(rtl: HpuParameters, i: int)
    requires
        stripe(rtl) > 0,
        rtl.pc_params.pem_pc > 0,
        0 <= i,
    ensures
        coef_at(rtl, coef_pc(rtl, i), coef_ofst(rtl, i)) == i,
        0 <= coef_pc(rtl, i) < rtl.pc_params.pem_pc,
        0 <= coef_ofst(rtl, i),
{
    let s = stripe(rtl);
    let p = rtl.pc_params.pem_pc as int;
    let row = i / s;
    lemma_mod_bound(i, s);
    lemma_mod_bound(row, p);
    lemma_fundamental_div_mod(i, s);
    lemma_fundamental_div_mod(row, p);
    lemma_fundamental_div_mod_converse(coef_ofst(rtl, i), s, row / p, i % s);
    assert((row / p) * p == p * (row / p)) by (nonlinear_arith);
    assert(row * s == s * row) by (nonlinear_arith);
    assert((row / p) * s >= 0) by (nonlinear_arith)
        requires
            i >= 0,
            s > 0,
            p > 0,
            row == i / s,
    ;
}

/// Each place has its own coefficient.
proof fn lemma_coef_of(rtl: HpuParameters, pc: int, k: int)
    requires
        stripe(rtl) > 0,
        0 <= pc < rtl.pc_params.pem_pc,
        0 <= k,
    ensures
        coef_pc(rtl, coef_at(rtl, pc, k)) == pc,
        coef_ofst(rtl, coef_at(rtl, pc, k)) == k,
        0 <= coef_at(rtl, pc, k),
{
    let s = stripe(rtl);
    let p = rtl.pc_params.pem_pc as int;
    let row = (k / s) * p + pc;
    lemma_mod_bound(k, s);
    lemma_fundamental_div_mod(k, s);
    lemma_fundamental_div_mod_converse(coef_at(rtl, pc, k), s, row, k % s);
    lemma_fundamental_div_mod_converse(row, p, k / s, pc);
    assert((k / s) * s == s * (k / s)) by (nonlinear_arith);
    assert(row * s >= 0) by (nonlinear_arith)
        requires
            k >= 0,
            s > 0,
            p > 0,
            pc >= 0,
            row == (k / s) * p + pc,
    ;
}

/// The coefficients of a register are those that were put in it.
pub proof fn scatter_then_gather(rtl: HpuParameters, hpu: Seq<u64>)
    requires
        shape_ok(rtl),
        hpu.len() == rtl.pbs_params.big_lwe_size(),
    ensures
        reg_ok(rtl, scatter(rtl, hpu)),
        coefs(rtl, scatter(rtl, hpu)) == hpu,
{
    lemma_pc_len(rtl);
    assert forall|i: int| 0 <= i < hpu.len() implies coefs(rtl, scatter(rtl, hpu))[i] == hpu[i] by {
        lemma_place_of(rtl, i);
        assert(coef_ofst(rtl, i) < pc_len(rtl, coef_pc(rtl, i)));
    }
    assert(coefs(rtl, scatter(rtl, hpu)) =~= hpu);
}

proof fn lemma_pc_len(rtl: HpuParameters)
    requires
        shape_ok(rtl),
    ensures
        forall|pc: int| #[trigger] pc_len(rtl, pc) >= 0,
{
    vstd::arithmetic::div_mod::lemma_div_pos_is_pos(
        rtl.pbs_params.big_lwe_size(),
        rtl.pc_params.pem_pc as int,
    );
}

impl HpuLweCiphertext {
    /// Null register.
    pub fn new(rtl: &HpuParameters) -> (r: HpuLweCiphertext)
        requires
            shape_ok(*rtl),
        ensures
            reg_ok(*rtl, r@),
            forall|pc: int, k: int|
                0 <= pc < r@.len() && 0 <= k < r@[pc].len() ==> #[trigger] r@[pc][k] == 0,
    {
        let pem_pc: usize = rtl.pc_params.pem_pc;
        let size: usize = rtl.pbs_params.glwe_dimension * rtl.pbs_params.polynomial_size + 1;
        let share: usize = size / pem_pc;
        proof {
            assert(share <= size) by (nonlinear_arith)
                requires
                    share == size / pem_pc,
                    pem_pc > 0,
            ;
        }
        let mut pc_data: Vec<Vec<u64>> = Vec::new();
        for id in 0..pem_pc
            invariant
                pem_pc == rtl.pc_params.pem_pc,
                share == rtl.pbs_params.big_lwe_size() / pem_pc as int,
                share < usize::MAX,
                pc_data@.len() == id,
                forall|pc: int| 0 <= pc < id ==> (#[trigger] pc_data@[pc])@.len() == pc_len(*rtl, pc),
                forall|pc: int, k: int|
                    0 <= pc < id && 0 <= k < pc_data@[pc]@.len() ==> #[trigger] pc_data@[pc]@[k] == 0,
        {
            let len: usize = if id == 0 && pem_pc != 1 {
                share + 1
            } else {
                share
            };
            pc_data.push(vec![0u64; len]);
        }
        HpuLweCiphertext { pc_data }
    }

    /// Coefficient of a register.
    pub fn get(&self, rtl: &HpuParameters, i: usize) -> (r: u64)
        requires
            shape_ok(*rtl),
            reg_ok(*rtl, self@),
            i < rtl.pbs_params.big_lwe_size(),
        ensures
            r == coefs(*rtl, self@)[i as int],
    {
        let (pc, ofst) = Self::place(rtl, i);
        assert(self@[pc as int].len() == pc_len(*rtl, pc as int));
        self.pc_data[pc][ofst]
    }

    /// Channel of a coefficient, and its position in the channel.
    fn place(rtl: &HpuParameters, i: usize) -> (r: (usize, usize))
        requires
            shape_ok(*rtl),
            i < rtl.pbs_params.big_lwe_size(),
        ensures
            r.0 == coef_pc(*rtl, i as int),
            r.1 == coef_ofst(*rtl, i as int),
            r.0 < rtl.pc_params.pem_pc,
            r.1 < pc_len(*rtl, r.0 as int),
    {
        let pem_pc: usize = rtl.pc_params.pem_pc;
        let chunk: usize = rtl.regf_params.coef_nb / pem_pc;
        let row: usize = i / chunk;
        proof {
            lemma_mod_bound(row as int, pem_pc as int);
            assert(coef_ofst(*rtl, i as int) < pc_len(*rtl, coef_pc(*rtl, i as int)));
            lemma_mod_bound(i as int, chunk as int);
            assert((row / pem_pc) * chunk <= i) by (nonlinear_arith)
                requires
                    row == i / chunk,
                    chunk > 0,
                    pem_pc > 0,
            ;
            assert((row / pem_pc) * chunk + i % chunk <= i) by (nonlinear_arith)
                requires
                    row == i / chunk,
                    chunk > 0,
                    pem_pc > 0,
            ;
        }
        (row % pem_pc, (row / pem_pc) * chunk + i % chunk)
    }

    /// Copy of a register, aligned with the most significant bits.
    pub fn reg2cpu(&self, rtl: &HpuParameters) -> (r: Vec<u64>)
        requires
            shape_ok(*rtl),
            reg_ok(*rtl, self@),
        ensures
            r@ == reg_read(*rtl, self@),
            r@.len() == rtl.pbs_params.big_lwe_size(),
    {
        let size: usize = rtl.pbs_params.glwe_dimension * rtl.pbs_params.polynomial_size + 1;
        let shift: u32 = 64 - rtl.ntt_params.ct_width;
        let mut r: Vec<u64> = Vec::new();
        for i in 0..size
            invariant
                shape_ok(*rtl),
                reg_ok(*rtl, self@),
                size == rtl.pbs_params.big_lwe_size(),
                shift == align(*rtl),
                r@.len() == i,
                forall|j: int|
                    0 <= j < i ==> #[trigger] r@[j] == coefs(*rtl, self@)[j] << align(*rtl),
        {
            r.push(self.get(rtl, i) << shift);
        }
        assert(r@ =~= to_cpu(*rtl, coefs(*rtl, self@)));
        r
    }

    /// Register that holds a ciphertext aligned with the most significant bits.
    pub fn cpu2reg(cpu: &Vec<u64>, rtl: &HpuParameters) -> (r: HpuLweCiphertext)
        requires
            shape_ok(*rtl),
            cpu@.len() == rtl.pbs_params.big_lwe_size(),
        ensures
            reg_ok(*rtl, r@),
            r@ == reg_write(*rtl, cpu@),
    {
        let mut r = HpuLweCiphertext::new(rtl);
        let shift: u32 = 64 - rtl.ntt_params.ct_width;
        proof {
            assert forall|pc: int, k: int|
                0 <= pc < r@.len() && 0 <= k < r@[pc].len() implies #[trigger] r@[pc][k] == filled(
                *rtl,
                cpu@,
                0,
                pc,
                k,
            ) by {
                lemma_coef_of(*rtl, pc, k);
            }
        }
        for i in 0..cpu.len()
            invariant
                shape_ok(*rtl),
                cpu@.len() == rtl.pbs_params.big_lwe_size(),
                reg_ok(*rtl, r@),
                shift == align(*rtl),
                forall|pc: int, k: int|
                    0 <= pc < r@.len() && 0 <= k < r@[pc].len() ==> #[trigger] r@[pc][k] == filled(
                        *rtl,
                        cpu@,
                        i as int,
                        pc,
                        k,
                    ),
        {
            let ghost before = r@;
            let (pc, ofst) = Self::place(rtl, i);
            assert(r@[pc as int].len() == pc_len(*rtl, pc as int));
            let val: u64 = cpu[i] >> shift;
            let mut line: Vec<u64> = Vec::new();
            line.append(&mut r.pc_data[pc]);
            line.set(ofst, val);
            r.pc_data.set(pc, line);
            proof {
                assert(r@[pc as int] =~= before[pc as int].update(ofst as int, val));
                assert forall|q: int| 0 <= q < r@.len() implies (#[trigger] r@[q]).len() == pc_len(
                    *rtl,
                    q,
                ) by {
                    assert(before[q].len() == pc_len(*rtl, q));
                }
                lemma_place_of(*rtl, i as int);
                assert forall|q: int, k: int|
                    0 <= q < r@.len() && 0 <= k < r@[q].len() implies #[trigger] r@[q][k] == filled(
                    *rtl,
                    cpu@,
                    i + 1,
                    q,
                    k,
                ) by {
                    lemma_coef_of(*rtl, q, k);
                    assert(before[q].len() == r@[q].len());
                    if coef_at(*rtl, q, k) != i {
                        assert(before[q][k] == filled(*rtl, cpu@, i as int, q, k));
                        assert(q != pc || k != ofst);
                    }
                }
            }
        }
        proof {
            lemma_pc_len(*rtl);
            let w = reg_write(*rtl, cpu@);
            assert forall|pc: int| 0 <= pc < r@.len() implies r@[pc] == w[pc] by {
                assert(r@[pc].len() == pc_len(*rtl, pc));
                assert forall|k: int| 0 <= k < r@[pc].len() implies r@[pc][k] == w[pc][k] by {
                    assert(r@[pc][k] == filled(*rtl, cpu@, cpu@.len() as int, pc, k));
                    lemma_coef_of(*rtl, pc, k);
                }
                assert(r@[pc] =~= w[pc]);
            }
            assert(r@ =~= w);
        }
        r
    }
}

/// Whether the channels hold the coefficients of a ciphertext, and no more.
pub fn shape_fits(rtl: &HpuParameters) -> (r: bool)
    ensures
        r == shape_ok(*rtl),
{
    let pem_pc: usize = rtl.pc_params.pem_pc;
    let ct_width: u32 = rtl.ntt_params.ct_width;
    if pem_pc == 0 || ct_width < 1 || ct_width > 64 {
        return false;
    }
    let chunk: usize = rtl.regf_params.coef_nb / pem_pc;
    if chunk == 0 {
        return false;
    }
    let size: usize = match rtl.pbs_params.glwe_dimension.checked_mul(
        rtl.pbs_params.polynomial_size,
    ) {
        Some(n) => {
            if n >= usize::MAX - 1 {
                return false;
            }
            n + 1
        },
        None => {
            return false;
        },
    };
    let share: usize = size / pem_pc;
    let body: usize = if pem_pc == 1 {
        0
    } else {
        1
    };
    proof {
        lemma_fundamental_div_mod(size as int, pem_pc as int);
        lemma_mod_bound(size as int, pem_pc as int);
        assert(share * pem_pc == pem_pc * share) by (nonlinear_arith);
    }
    if size % pem_pc != body {
        return false;
    }
    for i in 0..size
        invariant
            pem_pc > 0,
            chunk > 0,
            pem_pc == rtl.pc_params.pem_pc,
            chunk == stripe(*rtl),
            size == rtl.pbs_params.big_lwe_size(),
            share == size as int / pem_pc as int,
            size < usize::MAX,
            forall|j: int|
                0 <= j < i ==> #[trigger] coef_ofst(*rtl, j) < pc_len(*rtl, coef_pc(*rtl, j)),
    {
        let row: usize = i / chunk;
        proof {
            lemma_mod_bound(i as int, chunk as int);
            assert((row / pem_pc) * chunk + i % chunk <= i) by (nonlinear_arith)
                requires
                    row == i / chunk,
                    chunk > 0,
                    pem_pc > 0,
            ;
            assert((row / pem_pc) * chunk >= 0) by (nonlinear_arith)
                requires
                    pem_pc > 0,
            ;
            assert(share <= size) by (nonlinear_arith)
                requires
                    share == size as int / pem_pc as int,
                    pem_pc > 0,
            ;
        }
        let ofst: usize = (row / pem_pc) * chunk + i % chunk;
        let len: usize = if row % pem_pc == 0 && pem_pc != 1 {
            share + 1
        } else {
            share
        };
        if ofst >= len {
            assert(!(coef_ofst(*rtl, i as int) < pc_len(*rtl, coef_pc(*rtl, i as int))));
            return false;
        }
    }
    true
}

/// Content of a place once the first `n` coefficients are written.
spec fn filled(rtl: HpuParameters, cpu: Seq<u64>, n: int, pc: int, k: int) -> u64 {
    if coef_at(rtl, pc, k) < n {
        cpu[coef_at(rtl, pc, k)] >> align(rtl)
    } else {
        0
    }
}

/// Parameters whose mask is a whole number of register lines, each line being
/// shared equally by the channels, have room for all the coefficients.
pub proof fn whole_lines_fit(rtl: HpuParameters, lines: int)
    requires
        rtl.pc_params.pem_pc > 0,
        rtl.regf_params.coef_nb > 0,
        rtl.regf_params.coef_nb as int % rtl.pc_params.pem_pc as int == 0,
        rtl.pbs_params.big_lwe_size() == lines * rtl.regf_params.coef_nb + 1,
        rtl.pbs_params.big_lwe_size() < usize::MAX,
        1 <= rtl.ntt_params.ct_width <= 64,
    ensures
        shape_ok(rtl),
{
    let c = rtl.regf_params.coef_nb as int;
    let p = rtl.pc_params.pem_pc as int;
    let s = stripe(rtl);
    let n = rtl.pbs_params.big_lwe_size();
    lemma_fundamental_div_mod(c, p);
    assert(c == p * s);
    assert(s > 0) by (nonlinear_arith)
        requires
            c == p * s,
            c > 0,
            p > 0,
    ;
    assert(lines >= 0) by (nonlinear_arith)
        requires
            n == lines * c + 1,
            n >= 1,
            c > 0,
    ;
    assert(lines * c == (lines * s) * p) by (nonlinear_arith)
        requires
            c == p * s,
    ;
    if p == 1 {
        lemma_fundamental_div_mod_converse(n, p, n, 0);
    } else {
        lemma_fundamental_div_mod_converse(n, p, lines * s, 1);
    }
    assert forall|i: int| 0 <= i < n implies #[trigger] coef_ofst(rtl, i) < pc_len(
        rtl,
        coef_pc(rtl, i),
    ) by {
        lemma_fundamental_div_mod(i, s);
        lemma_mod_bound(i, s);
        let row = i / s;
        lemma_fundamental_div_mod(row, p);
        lemma_mod_bound(row, p);
        if p == 1 {
            assert(row / p == row);
            assert(coef_ofst(rtl, i) == i) by (nonlinear_arith)
                requires
                    coef_ofst(rtl, i) == (row / p) * s + i % s,
                    row / p == row,
                    i == s * row + i % s,
            ;
        } else if i < n - 1 {
            assert(row < lines * p) by (nonlinear_arith)
                requires
                    i == s * row + i % s,
                    0 <= i % s,
                    i < (lines * s) * p,
                    s > 0,
            ;
            assert(row / p < lines) by (nonlinear_arith)
                requires
                    row == p * (row / p) + row % p,
                    0 <= row % p,
                    row < lines * p,
                    p > 0,
            ;
            assert(coef_ofst(rtl, i) < lines * s) by (nonlinear_arith)
                requires
                    coef_ofst(rtl, i) == (row / p) * s + i % s,
                    row / p < lines,
                    i % s < s,
                    s > 0,
            ;
        } else {
            assert(i == (lines * p) * s + 0) by (nonlinear_arith)
                requires
                    i == (lines * s) * p,
            ;
            lemma_fundamental_div_mod_converse(i, s, lines * p, 0);
            lemma_fundamental_div_mod_converse(row, p, lines, 0);
            assert(coef_ofst(rtl, i) == lines * s);
            assert(coef_pc(rtl, i) == 0);
        }
    }
}

/// A ciphertext written in a register reads back with its unused bits cleared.
pub proof fn stored_then_loaded(rtl: HpuParameters, cpu: Seq<u64>, i: int)
    requires
        shape_ok(rtl),
        cpu.len() == rtl.pbs_params.big_lwe_size(),
        0 <= i < cpu.len(),
    ensures
        reg_read(rtl, reg_write(rtl, cpu))[i] == (cpu[i] >> align(rtl)) << align(rtl),
        cpu[i] & ((1u64 << align(rtl)) - 1) as u64 == 0 ==> reg_read(rtl, reg_write(rtl, cpu))[i]
            == cpu[i],
{
    scatter_then_gather(rtl, to_hpu(rtl, cpu));
    let x = cpu[i];
    let a = align(rtl) as u64;
    assert(a < 64 && x & ((1u64 << a) - 1) as u64 == 0 ==> (x >> a) << a == x) by (bit_vector);
}

} // verus!
