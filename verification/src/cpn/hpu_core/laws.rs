//! Laws of the computation core.
use vstd::arithmetic::div_mod::{
    lemma_add_mod_noop, lemma_fundamental_div_mod, lemma_fundamental_div_mod_converse,
    lemma_mod_add_multiples_vanish,
    lemma_mod_bound, lemma_mod_mod, lemma_mul_mod_noop_left, lemma_small_mod, lemma_sub_mod_noop,
    lemma_sub_mod_noop_right,
};
use vstd::arithmetic::power2::{lemma2_to64, lemma_pow2_adds, lemma_pow2_pos, pow2};
use vstd::bits::{
    lemma_u64_low_bits_mask_is_mod, lemma_u64_pow2_no_overflow, lemma_u64_shl_is_mul,
    lemma_u64_shr_is_div,
};
use vstd::prelude::*;

use super::event::{Event, IscCommand, Trigger, NOTIFY_ISC};
use super::lwe::{
    lwe_add, lwe_add_plain, lwe_mul, lwe_neg, lwe_sub, lwe_sub_plain, wrap_add, wrap_mul, wrap_sub,
};
use super::model::{
    alu, command_of, const_of, decoded, delta, encodable, encoded, exec_regs, hook_ok, hook_one,
    hooks, hooks_ok, overlay, pbs_regs, rd, trace_next, trace_pieces, trivial, HookView,
};
use super::regfile::{
    align, coefs, pc_len, reg_ok, reg_read, reg_write, scatter_then_gather, shape_ok, to_hpu,
};
use super::trace::SlotProperties;
use crate::cpn::bytes::{encodes_u64, read_back};
use crate::cpn::insn::{CtReg, DOp, PtArg};
use crate::cpn::payload::DOpPayloadView;
use crate::params::hpu::{HpuPBSParameters, HpuParameters};

verus! {

/// An instruction changes no register but its destination.
pub proof fn exec_is_local(rtl: HpuParameters, regs: Seq<Seq<Seq<u64>>>, dop: DOp, i: int)
    requires
        0 <= i < regs.len(),
        alu(rtl, regs, dop) matches Some((dst, _)) ==> dst.addr < regs.len() && dst.addr != i,
    ensures
        exec_regs(rtl, regs, dop)[i] == regs[i],
        exec_regs(rtl, regs, dop).len() == regs.len(),
{
}

/// A bootstrapping changes no register but those that receive its outputs.
pub proof fn pbs_is_local(
    rtl: HpuParameters,
    regs: Seq<Seq<Seq<u64>>>,
    keys: (Seq<u32>, Seq<u64>),
    lut_nb: int,
    dst: CtReg,
    src: CtReg,
    lut: Seq<u64>,
    i: int,
)
    requires
        0 <= i < regs.len(),
        i < dst.addr || dst.addr + lut_nb <= i,
    ensures
        pbs_regs(rtl, regs, keys, lut_nb, dst, src, lut)[i] == regs[i],
        pbs_regs(rtl, regs, keys, lut_nb, dst, src, lut).len() == regs.len(),
{
}

/// A coefficient without unused bits.
spec fn clean(rtl: HpuParameters, x: u64) -> bool {
    x as int % pow2(align(rtl) as nat) as int == 0
}

/// The modulus of the coefficients is a multiple of the weight of a used bit.
proof fn lemma_wrap_mod(rtl: HpuParameters, u: int)
    requires
        1 <= rtl.ntt_params.ct_width <= 64,
    ensures
        (u % 0x1_0000_0000_0000_0000) % pow2(align(rtl) as nat) as int == u % pow2(
            align(rtl) as nat,
        ) as int,
        pow2(align(rtl) as nat) > 0,
{
    let a = align(rtl) as nat;
    let b = (64 - a) as nat;
    lemma_pow2_pos(a);
    lemma_pow2_pos(b);
    lemma_pow2_adds(a, b);
    lemma2_to64();
    lemma_mod_mod(u, pow2(a) as int, pow2(b) as int);
}

proof fn lemma_shifts(rtl: HpuParameters, x: u64)
    requires
        1 <= rtl.ntt_params.ct_width <= 64,
    ensures
        clean(rtl, x) ==> (x >> align(rtl)) << align(rtl) == x,
        clean(rtl, x << align(rtl)),
{
    let a = align(rtl) as u64;
    let p = pow2(a as nat) as int;
    lemma_u64_pow2_no_overflow(a as nat);
    lemma_u64_shr_is_div(x, a);
    lemma_fundamental_div_mod(x as int, p);
    lemma_mod_bound(x as int, p);
    let q = x as int / p;
    assert(q * p == p * q) by (nonlinear_arith);
    lemma_u64_shl_is_mul((x >> a), a);
    let y = x << a;
    let z = y >> a;
    assert(a < 64 ==> ((x << a) >> a) << a == x << a) by (bit_vector);
    lemma_u64_shr_is_div(y, a);
    lemma_fundamental_div_mod(y as int, p);
    lemma_mod_bound(y as int, p);
    let r = y as int / p;
    assert(r * p == p * r) by (nonlinear_arith);
    lemma_u64_shl_is_mul(z, a);
}

proof fn lemma_read_is_clean(rtl: HpuParameters, reg: Seq<Seq<u64>>)
    requires
        shape_ok(rtl),
    ensures
        forall|i: int|
            0 <= i < rtl.pbs_params.big_lwe_size() ==> clean(rtl, #[trigger] reg_read(rtl, reg)[i]),
        reg_read(rtl, reg).len() == rtl.pbs_params.big_lwe_size(),
        rtl.pbs_params.big_lwe_size() >= 1,
{
    assert(rtl.pbs_params.glwe_dimension * rtl.pbs_params.polynomial_size >= 0)
        by (nonlinear_arith);
    assert forall|i: int| 0 <= i < rtl.pbs_params.big_lwe_size() implies clean(
        rtl,
        #[trigger] reg_read(rtl, reg)[i],
    ) by {
        lemma_shifts(rtl, coefs(rtl, reg)[i]);
    }
}

/// A ciphertext without unused bits reads back from a register as it was written.
proof fn lemma_clean_reads_back(rtl: HpuParameters, cpu: Seq<u64>)
    requires
        shape_ok(rtl),
        cpu.len() == rtl.pbs_params.big_lwe_size(),
        forall|i: int| 0 <= i < cpu.len() ==> clean(rtl, #[trigger] cpu[i]),
    ensures
        reg_read(rtl, reg_write(rtl, cpu)) == cpu,
{
    scatter_then_gather(rtl, to_hpu(rtl, cpu));
    assert forall|i: int| 0 <= i < cpu.len() implies reg_read(rtl, reg_write(rtl, cpu))[i]
        == cpu[i] by {
        assert(clean(rtl, cpu[i]));
        lemma_shifts(rtl, cpu[i]);
    }
    assert(reg_read(rtl, reg_write(rtl, cpu)) =~= cpu);
}

proof fn lemma_clean_ops(rtl: HpuParameters, a: u64, b: u64, c: u64)
    requires
        1 <= rtl.ntt_params.ct_width <= 64,
        clean(rtl, a),
        clean(rtl, b),
    ensures
        clean(rtl, wrap_add(a, b)),
        clean(rtl, wrap_sub(a, b)),
        clean(rtl, wrap_mul(a, c)),
{
    let p = pow2(align(rtl) as nat) as int;
    lemma_wrap_mod(rtl, a + b);
    lemma_wrap_mod(rtl, a - b);
    lemma_wrap_mod(rtl, a * c);
    lemma_add_mod_noop(a as int, b as int, p);
    lemma_sub_mod_noop(a as int, b as int, p);
    lemma_mul_mod_noop_left(a as int, c as int, p);
    lemma_small_mod(0, p as nat);
    assert(0 * c == 0) by (nonlinear_arith);
}

proof fn lemma_clean_seq(rtl: HpuParameters, a: Seq<u64>, b: Seq<u64>, c: u64)
    requires
        1 <= rtl.ntt_params.ct_width <= 64,
        a.len() == b.len(),
        forall|i: int| 0 <= i < a.len() ==> clean(rtl, #[trigger] a[i]),
        forall|i: int| 0 <= i < b.len() ==> clean(rtl, #[trigger] b[i]),
    ensures
        forall|i: int| 0 <= i < a.len() ==> clean(rtl, #[trigger] lwe_add(a, b)[i]),
        forall|i: int| 0 <= i < a.len() ==> clean(rtl, #[trigger] lwe_sub(a, b)[i]),
        forall|i: int| 0 <= i < a.len() ==> clean(rtl, #[trigger] lwe_mul(a, c)[i]),
{
    assert forall|i: int| 0 <= i < a.len() implies clean(rtl, #[trigger] lwe_add(a, b)[i]) by {
        assert(clean(rtl, a[i]) && clean(rtl, b[i]));
        lemma_clean_ops(rtl, a[i], b[i], c);
    }
    assert forall|i: int| 0 <= i < a.len() implies clean(rtl, #[trigger] lwe_sub(a, b)[i]) by {
        assert(clean(rtl, a[i]) && clean(rtl, b[i]));
        lemma_clean_ops(rtl, a[i], b[i], c);
    }
    assert forall|i: int| 0 <= i < a.len() implies clean(rtl, #[trigger] lwe_mul(a, c)[i]) by {
        assert(clean(rtl, a[i]) && clean(rtl, b[i]));
        lemma_clean_ops(rtl, a[i], b[i], c);
    }
}

proof fn lemma_sub_add(x: u64, y: u64)
    ensures
        wrap_sub(wrap_add(x, y), y) == x,
        wrap_add(wrap_sub(x, y), y) == x,
        wrap_sub(x, wrap_sub(x, y)) == y,
{
    let m = 0x1_0000_0000_0000_0000int;
    lemma_sub_mod_noop_right(y as int, x + y, m);
    lemma_small_mod(x as nat, m as nat);
    lemma_small_mod(y as nat, m as nat);
    lemma_mod_bound(x + y, m);
    lemma_mod_bound(x - y, m);
    lemma_sub_mod_noop(x + y, y as int, m);
    lemma_add_mod_noop(x - y, y as int, m);
    lemma_sub_mod_noop(x as int, x - y, m);
}

/// A subtraction undoes an addition.
pub proof fn sub_undoes_add(
    rtl: HpuParameters,
    regs: Seq<Seq<Seq<u64>>>,
    sum: CtReg,
    a: CtReg,
    b: CtReg,
    diff: CtReg,
)
    requires
        shape_ok(rtl),
        sum.addr < regs.len(),
        a.addr < regs.len(),
        b.addr < regs.len(),
        diff.addr < regs.len(),
        sum.addr != b.addr,
    ensures
        ({
            let regs = exec_regs(rtl, regs, DOp::ADD { dst: sum, src1: a, src2: b });
            exec_regs(rtl, regs, DOp::SUB { dst: diff, src1: sum, src2: b })[diff.addr as int]
        }) == reg_write(rtl, rd(rtl, regs, a)),
{
    let (x, y) = (rd(rtl, regs, a), rd(rtl, regs, b));
    lemma_read_is_clean(rtl, regs[a.addr as int]);
    lemma_read_is_clean(rtl, regs[b.addr as int]);
    lemma_clean_seq(rtl, x, y, 0);
    lemma_clean_reads_back(rtl, lwe_add(x, y));
    assert forall|i: int| 0 <= i < x.len() implies lwe_sub(lwe_add(x, y), y)[i] == x[i] by {
        lemma_sub_add(x[i], y[i]);
    }
    assert(lwe_sub(lwe_add(x, y), y) =~= x);
}

/// A multiply-accumulate is a multiplication followed by an addition.
pub proof fn mac_is_mul_then_add(
    rtl: HpuParameters,
    regs: Seq<Seq<Seq<u64>>>,
    dst: CtReg,
    tmp: CtReg,
    src1: CtReg,
    src2: CtReg,
    cst: PtArg,
)
    requires
        shape_ok(rtl),
        dst.addr < regs.len(),
        tmp.addr < regs.len(),
        src1.addr < regs.len(),
        src2.addr < regs.len(),
        tmp.addr != src2.addr,
    ensures
        ({
            let regs = exec_regs(rtl, regs, DOp::MULS { dst: tmp, src: src1, cst });
            exec_regs(rtl, regs, DOp::ADD { dst, src1: tmp, src2 })[dst.addr as int]
        }) == exec_regs(rtl, regs, DOp::MAC { dst, src1, src2, cst })[dst.addr as int],
{
    let x = rd(rtl, regs, src1);
    lemma_read_is_clean(rtl, regs[src1.addr as int]);
    lemma_clean_seq(rtl, x, x, const_of(cst));
    lemma_clean_reads_back(rtl, lwe_mul(x, const_of(cst)));
}

/// An addition does not depend on the order of its operands.
pub proof fn add_commutes(
    rtl: HpuParameters,
    regs: Seq<Seq<Seq<u64>>>,
    dst: CtReg,
    a: CtReg,
    b: CtReg,
)
    ensures
        exec_regs(rtl, regs, DOp::ADD { dst, src1: a, src2: b }) == exec_regs(
            rtl,
            regs,
            DOp::ADD { dst, src1: b, src2: a },
        ),
{
    let (x, y) = (rd(rtl, regs, a), rd(rtl, regs, b));
    assert(lwe_add(x, y) =~= lwe_add(y, x));
}

/// A constant uses no bit that a register leaves out: it is never so wide, or its own low
/// bits are null.
pub open spec fn constant_fits(rtl: HpuParameters, cst: PtArg) -> bool {
    let plain = trivial(rtl.pbs_params, const_of(cst));
    ||| rtl.pbs_params.cleartext_width() <= rtl.ntt_params.ct_width
    ||| (plain >> align(rtl)) << align(rtl) == plain
}

proof fn lemma_plain_is_clean(rtl: HpuParameters, cst: PtArg)
    requires
        1 <= rtl.ntt_params.ct_width <= 64,
        encodable(rtl.pbs_params, cst),
        constant_fits(rtl, cst),
    ensures
        clean(rtl, (encoded(rtl.pbs_params, cst) as u64) << (64 - rtl.pbs_params.ciphertext_width)),
{
    let p = rtl.pbs_params;
    let c = const_of(cst);
    let a = align(rtl) as u64;
    immediate_is_trivial(p, cst);
    if p.cleartext_width() <= rtl.ntt_params.ct_width {
        let w = (64 - p.cleartext_width()) as u64;
        assert(a <= w < 64 ==> (c << ((w - a) as u64)) << a == c << w) by (bit_vector);
        lemma_shifts(rtl, c << ((w - a) as u64));
    } else {
        lemma_shifts(rtl, trivial(p, c) >> a);
    }
}

/// The subtraction of a constant undoes its addition, where the constant uses no bit that
/// a register leaves out.
pub proof fn subs_undoes_adds(
    rtl: HpuParameters,
    regs: Seq<Seq<Seq<u64>>>,
    sum: CtReg,
    src: CtReg,
    diff: CtReg,
    cst: PtArg,
)
    requires
        shape_ok(rtl),
        sum.addr < regs.len(),
        src.addr < regs.len(),
        diff.addr < regs.len(),
        encodable(rtl.pbs_params, cst),
        constant_fits(rtl, cst),
    ensures
        ({
            let added = exec_regs(rtl, regs, DOp::ADDS { dst: sum, src, cst });
            let back = exec_regs(rtl, added, DOp::SUBS { dst: diff, src: sum, cst });
            &&& back[diff.addr as int] == reg_write(rtl, rd(rtl, regs, src))
            &&& rd(rtl, back, diff) == rd(rtl, regs, src)
        }),
{
    let x = rd(rtl, regs, src);
    let msg = encoded(rtl.pbs_params, cst) as u64;
    let width = rtl.pbs_params.ciphertext_width as int;
    let plain = msg << (64 - width);
    let y = lwe_add_plain(x, msg, width);
    lemma_read_is_clean(rtl, regs[src.addr as int]);
    lemma_plain_is_clean(rtl, cst);
    assert(clean(rtl, x[x.len() - 1]));
    lemma_clean_ops(rtl, x.last(), plain, 0);
    assert forall|i: int| 0 <= i < y.len() implies clean(rtl, #[trigger] y[i]) by {
        assert(clean(rtl, x[i]));
    }
    lemma_clean_reads_back(rtl, y);
    lemma_clean_reads_back(rtl, x);
    lemma_sub_add(x.last(), plain);
    assert(lwe_sub_plain(y, msg, width) =~= x);
}

/// The subtraction from a constant, done twice, restores the source. What a register leaves
/// out of the constant the first time is left out again the second time.
pub proof fn ssub_undoes_itself(
    rtl: HpuParameters,
    regs: Seq<Seq<Seq<u64>>>,
    mid: CtReg,
    src: CtReg,
    dst: CtReg,
    cst: PtArg,
)
    requires
        shape_ok(rtl),
        mid.addr < regs.len(),
        src.addr < regs.len(),
        dst.addr < regs.len(),
    ensures
        ({
            let once = exec_regs(rtl, regs, DOp::SSUB { dst: mid, src, cst });
            let twice = exec_regs(rtl, once, DOp::SSUB { dst, src: mid, cst });
            &&& twice[dst.addr as int] == reg_write(rtl, rd(rtl, regs, src))
            &&& rd(rtl, twice, dst) == rd(rtl, regs, src)
        }),
{
    let x = rd(rtl, regs, src);
    let msg = encoded(rtl.pbs_params, cst) as u64;
    let width = rtl.pbs_params.ciphertext_width as int;
    let plain = msg << (64 - width);
    let y = lwe_add_plain(lwe_neg(x), msg, width);
    let z = reg_read(rtl, reg_write(rtl, y));
    let v = lwe_add_plain(lwe_neg(z), msg, width);
    lemma_read_is_clean(rtl, regs[src.addr as int]);
    lemma_reads_back(rtl, y);
    lemma_clean_reads_back(rtl, x);
    assert forall|i: int| 0 <= i < x.len() implies v[i] >> align(rtl) == x[i] >> align(rtl) by {
        assert(clean(rtl, x[i]));
        if i == x.len() - 1 {
            lemma_cut_twice(rtl, x[i], plain);
        } else {
            lemma_cut_twice(rtl, x[i], 0);
            lemma_wrap_zero(wrap_sub(0, x[i]));
            lemma_wrap_zero(wrap_sub(0, z[i]));
        }
    }
    assert(to_hpu(rtl, v) =~= to_hpu(rtl, x));
}

proof fn lemma_wrap_zero(x: u64)
    ensures
        wrap_add(x, 0) == x,
{
    lemma_small_mod(x as nat, 0x1_0000_0000_0000_0000);
}

/// What a coefficient keeps in a register.
proof fn lemma_cut(rtl: HpuParameters, x: u64)
    requires
        1 <= rtl.ntt_params.ct_width <= 64,
    ensures
        (x >> align(rtl)) << align(rtl) == x - x as int % pow2(align(rtl) as nat) as int,
        x >> align(rtl) == x as int / pow2(align(rtl) as nat) as int,
{
    let a = align(rtl) as u64;
    let p = pow2(a as nat) as int;
    lemma_u64_pow2_no_overflow(a as nat);
    lemma_pow2_pos(a as nat);
    lemma_u64_shr_is_div(x, a);
    lemma_fundamental_div_mod(x as int, p);
    lemma_mod_bound(x as int, p);
    let q = x as int / p;
    assert(q * p == p * q) by (nonlinear_arith);
    lemma_u64_shl_is_mul(x >> a, a);
}

/// A ciphertext reads back from a register without its unused bits.
proof fn lemma_reads_back(rtl: HpuParameters, cpu: Seq<u64>)
    requires
        shape_ok(rtl),
        cpu.len() == rtl.pbs_params.big_lwe_size(),
    ensures
        reg_read(rtl, reg_write(rtl, cpu)).len() == cpu.len(),
        forall|i: int|
            0 <= i < cpu.len() ==> #[trigger] reg_read(rtl, reg_write(rtl, cpu))[i] == (cpu[i]
                >> align(rtl)) << align(rtl),
{
    scatter_then_gather(rtl, to_hpu(rtl, cpu));
}

/// A coefficient subtracted twice from a constant, with the unused bits cut between the two,
/// keeps its used bits.
proof fn lemma_cut_twice(rtl: HpuParameters, x: u64, plain: u64)
    requires
        1 <= rtl.ntt_params.ct_width <= 64,
        clean(rtl, x),
    ensures
        ({
            let y = wrap_add(wrap_sub(0, x), plain);
            let z = (y >> align(rtl)) << align(rtl);
            wrap_add(wrap_sub(0, z), plain) >> align(rtl) == x >> align(rtl)
        }),
{
    let m = 0x1_0000_0000_0000_0000int;
    let a = align(rtl) as nat;
    let p = pow2(a) as int;
    let y = wrap_add(wrap_sub(0, x), plain);
    let z = (y >> align(rtl)) << align(rtl);
    let v = wrap_add(wrap_sub(0, z), plain);
    let f = plain as int % p;
    lemma_wrap_mod(rtl, plain - x);
    lemma_cut(rtl, y);
    lemma_cut(rtl, v);
    lemma_cut(rtl, x);
    lemma_small_mod(plain as nat, m as nat);
    lemma_mod_bound(0 - x, m);
    lemma_mod_bound(plain - x, m);
    lemma_add_mod_noop(0 - x, plain as int, m);
    assert(y == (plain - x) % m);
    // The cut takes away the low bits of the constant.
    lemma_sub_mod_noop(plain as int, x as int, p);
    lemma_mod_bound(plain as int, p);
    lemma_mod_mod_same(plain as int, p);
    assert(y as int % p == f);
    assert(z == y - f);
    lemma_mod_bound(0 - z, m);
    lemma_add_mod_noop(0 - z, plain as int, m);
    assert(v == (plain - z) % m);
    lemma_sub_mod_noop_right(plain + f, plain - x, m);
    assert((plain + f - y) % m == (plain + f - (plain - x)) % m);
    // The sum of a coefficient without low bits and of low bits does not wrap.
    lemma_pow2_pos(a);
    lemma_pow2_pos((64 - a) as nat);
    lemma_pow2_adds(a, (64 - a) as nat);
    lemma2_to64();
    lemma_fundamental_div_mod(x as int, p);
    let q = x as int / p;
    let n = pow2((64 - a) as nat) as int;
    assert(q < n) by (nonlinear_arith)
        requires
            p * q < p * n,
            p > 0,
    ;
    assert(p * q + p <= p * n) by (nonlinear_arith)
        requires
            q < n,
            p > 0,
    ;
    lemma_small_mod((x + f) as nat, m as nat);
    assert(v == x + f);
    lemma_fundamental_div_mod_converse(x + f, p, q, f);
}

proof fn lemma_mod_mod_same(x: int, p: int)
    requires
        p > 0,
    ensures
        (x % p - 0) % p == x % p,
{
    lemma_mod_bound(x, p);
    lemma_small_mod((x % p) as nat, p as nat);
}

/// A message that is encoded reads back as it was, whatever its carry and its
/// padding bit.
pub proof fn trivial_round_trip(p: HpuPBSParameters, clear: u64)
    requires
        p.cleartext_width() < 64,
        clear < 1u64 << p.cleartext_width(),
    ensures
        decoded(p, trivial(p, clear)) == clear,
{
    let w = p.cleartext_width() as u64;
    assert(0 < w < 64 && clear < 1u64 << w ==> ((clear << ((64 - w) as u64)) >> ((64 - w) as u64))
        & ((1u64 << w) - 1) as u64 == clear) by (bit_vector);
}

/// The sum of two encoded messages is the encoding of their sum, modulo the number of
/// messages.
pub proof fn trivial_sum(p: HpuPBSParameters, a: u64, b: u64)
    requires
        p.cleartext_width() < 64,
        a < 1u64 << p.cleartext_width(),
        b < 1u64 << p.cleartext_width(),
    ensures
        decoded(p, wrap_add(trivial(p, a), trivial(p, b))) == (a + b) % (1u64
            << p.cleartext_width()) as int,
{
    let w = p.cleartext_width() as u64;
    let s = (64 - w) as u64;
    let x = a << s;
    let y = b << s;
    assert(wrap_add(x, y) == (x + y) as u64) by (bit_vector)
        requires
            wrap_add(x, y) == ((x + y) % 0x1_0000_0000_0000_0000) as u64,
    ;
    let m = 1u64 << w;
    let sum = (a + b) as u64;
    assert(0 < w < 64 ==> 1u64 << w <= 0x8000_0000_0000_0000) by (bit_vector);
    assert((((a << s) + (b << s)) as u64) >> s == sum & (m - 1) as u64) by (bit_vector)
        requires
            0 < w < 64,
            s == 64 - w,
            m == 1u64 << w,
            sum == (a + b) as u64,
    ;
    assert((sum & (m - 1) as u64) & (m - 1) as u64 == sum & (m - 1) as u64) by (bit_vector);
    lemma_u64_pow2_no_overflow(w as nat);
    lemma_u64_shl_is_mul(1, w);
    lemma_u64_low_bits_mask_is_mod(sum, w as nat);
}

/// An immediate is encoded as the body of a ciphertext that is not encrypted.
pub proof fn immediate_is_trivial(p: HpuPBSParameters, cst: PtArg)
    requires
        encodable(p, cst),
    ensures
        (encoded(p, cst) as u64) << (64 - p.ciphertext_width) == trivial(p, const_of(cst)),
{
    let c = const_of(cst);
    let cw = p.ciphertext_width as u64;
    let w = p.cleartext_width() as u64;
    let d = delta(p);
    let e = encoded(p, cst) as u64;
    let k = (cw - w) as u64;
    lemma_u64_pow2_no_overflow(k as nat);
    lemma_u64_shl_is_mul(1, k);
    assert(c * d <= u64::MAX);
    lemma_u64_shl_is_mul(c, k);
    assert(e == c << k);
    assert((c << k) << ((64 - cw) as u64) == c << ((64 - w) as u64)) by (bit_vector)
        requires
            0 < w <= cw <= 64,
            k == cw - w,
    ;
}

/// The bytes are those of each part of a register, in one of the two byte orders.
pub open spec fn encodes_reg(big: bool, bytes: Seq<Seq<u8>>, reg: Seq<Seq<u64>>) -> bool {
    &&& bytes.len() == reg.len()
    &&& forall|pc: int| 0 <= pc < reg.len() ==> encodes_u64(big, #[trigger] bytes[pc], reg[pc])
}

/// A register that is stored, then loaded from memory channels that start with what was
/// stored, is the register that was stored, and no other register changes. Both the store and
/// the load are in one byte order, that of the machine.
pub proof fn store_then_load(
    rtl: HpuParameters,
    big: bool,
    regs: Seq<Seq<Seq<u64>>>,
    src: CtReg,
    dst: CtReg,
    stored: Seq<Seq<u8>>,
    chunks: Seq<Seq<u8>>,
    parts: Seq<Seq<u64>>,
)
    requires
        src.addr < regs.len(),
        dst.addr < regs.len(),
        forall|i: int| 0 <= i < regs.len() ==> reg_ok(rtl, #[trigger] regs[i]),
        encodes_reg(big, stored, regs[src.addr as int]),
        chunks.len() == stored.len(),
        forall|pc: int|
            0 <= pc < chunks.len() ==> (#[trigger] chunks[pc]).take(stored[pc].len() as int)
                == stored[pc],
        encodes_reg(
            big,
            Seq::new(chunks.len(), |pc: int| chunks[pc].take(pc_len(rtl, pc) * 8)),
            parts,
        ),
    ensures
        ({
            let loaded = regs.update(dst.addr as int, overlay(regs[dst.addr as int], parts));
            &&& loaded[dst.addr as int] == regs[src.addr as int]
            &&& forall|i: int| 0 <= i < regs.len() && i != dst.addr ==> loaded[i] == regs[i]
        }),
{
    let from = regs[src.addr as int];
    let to = regs[dst.addr as int];
    let read = Seq::new(chunks.len(), |pc: int| chunks[pc].take(pc_len(rtl, pc) * 8));
    assert(reg_ok(rtl, from) && reg_ok(rtl, to));
    assert forall|pc: int| 0 <= pc < from.len() implies overlay(to, parts)[pc] == from[pc] by {
        assert(encodes_u64(big, stored[pc], from[pc]));
        assert(from[pc].len() == pc_len(rtl, pc));
        assert(chunks[pc].take(stored[pc].len() as int) == stored[pc]);
        assert(encodes_u64(big, read[pc], parts[pc]));
        read_back(big, stored[pc], from[pc], parts[pc]);
    }
    assert(overlay(to, parts) =~= from);
}

/// Number of the events that report an action of the scheduler.
pub open spec fn notified(batch: Seq<Trigger>) -> nat
    decreases batch.len(),
{
    if batch.len() == 0 {
        0
    } else {
        notified(batch.drop_last()) + if batch.last().event.kind == NOTIFY_ISC {
            1nat
        } else {
            0nat
        }
    }
}

/// Events lose no instruction: those that leave the instructions in flight are put
/// off to be retired. Each action of the scheduler adds sixteen bytes to the trace.
pub proof fn hooks_lose_nothing(
    h: HookView,
    batch: Seq<Trigger>,
    slots: Seq<Option<SlotProperties>>,
    timestamp: u32,
)
    requires
        h.dops.dom().finite(),
        hooks_ok(h, batch, slots, timestamp),
    ensures
        hooks(h, batch, slots, timestamp).dops.dom().finite(),
        hooks(h, batch, slots, timestamp).dops.len() + hooks(
            h,
            batch,
            slots,
            timestamp,
        ).deferred.retire.len() == h.dops.len() + h.deferred.retire.len(),
        hooks(h, batch, slots, timestamp).deferred.trace.len() == h.deferred.trace.len() + 16
            * notified(batch),
    decreases batch.len(),
{
    if batch.len() > 0 {
        let event = batch.last().event;
        let next = hook_one(h, event, slots.last(), timestamp);
        assert(next.dops.dom().finite());
        assert(next.dops.len() + next.deferred.retire.len() == h.dops.len()
            + h.deferred.retire.len()) by {
            if event.kind == NOTIFY_ISC {
                assert(h.dops.dom().contains(event.a));
                assert(h.dops.insert(event.a, h.dops[event.a]).dom() =~= h.dops.dom());
                assert(forall|v: DOpPayloadView|
                    #[trigger] h.dops.insert(event.a, v).dom() =~= h.dops.dom());
            }
        }
        hooks_lose_nothing(next, batch.drop_last(), slots.drop_last(), timestamp);
    }
}

/// An instruction that was retired in a cycle is not in flight any more, and its
/// history ends with its retirement.
pub proof fn retired_leaves(h: HookView, event: Event, slot: Option<SlotProperties>, timestamp: u32)
    requires
        hook_ok(h, event),
        event.kind == NOTIFY_ISC,
        command_of(event.b) == IscCommand::Retire,
    ensures
        !hook_one(h, event, slot, timestamp).dops.contains_key(event.a),
        ({
            let retire = hook_one(h, event, slot, timestamp).deferred.retire;
            &&& retire.len() == h.deferred.retire.len() + 1
            &&& retire.last().inner == h.dops[event.a].inner
            &&& retire.last().trace == h.dops[event.a].trace.push(IscCommand::Retire)
        }),
{
}

/// Instructions that a batch of events retires, in the order in which they are retired.
pub open spec fn retired_ids(batch: Seq<Trigger>) -> Seq<usize>
    decreases batch.len(),
{
    if batch.len() == 0 {
        Seq::empty()
    } else {
        let event = batch.last().event;
        let first = if event.kind == NOTIFY_ISC && command_of(event.b) == IscCommand::Retire {
            seq![event.a]
        } else {
            Seq::empty()
        };
        first + retired_ids(batch.drop_last())
    }
}

/// Each instruction that a batch of events retires leaves the instructions in flight and is
/// put off to be retired once, and no other one leaves them, whatever is executed of them.
pub proof fn retired_once(
    h: HookView,
    batch: Seq<Trigger>,
    slots: Seq<Option<SlotProperties>>,
    timestamp: u32,
)
    requires
        hooks_ok(h, batch, slots, timestamp),
    ensures
        ({
            let ids = retired_ids(batch);
            let end = hooks(h, batch, slots, timestamp);
            let n = h.deferred.retire.len() as int;
            &&& ids.no_duplicates()
            &&& forall|id: usize| #[trigger]
                end.dops.contains_key(id) <==> h.dops.contains_key(id) && !ids.contains(id)
            &&& forall|id: usize| #[trigger]
                end.dops.contains_key(id) ==> end.dops[id].inner == h.dops[id].inner
            &&& end.deferred.retire.len() == n + ids.len()
            &&& end.deferred.retire.take(n) == h.deferred.retire
            &&& forall|j: int|
                0 <= j < ids.len() ==> {
                    &&& h.dops.contains_key(#[trigger] ids[j])
                    &&& end.deferred.retire[n + j].inner == h.dops[ids[j]].inner
                }
        }),
    decreases batch.len(),
{
    let n = h.deferred.retire.len() as int;
    let end = hooks(h, batch, slots, timestamp);
    if batch.len() > 0 {
        let event = batch.last().event;
        let next = hook_one(h, event, slots.last(), timestamp);
        let ids = retired_ids(batch);
        let rest = retired_ids(batch.drop_last());
        retired_once(next, batch.drop_last(), slots.drop_last(), timestamp);
        let m = next.deferred.retire.len() as int;
        if event.kind == NOTIFY_ISC && command_of(event.b) == IscCommand::Retire {
            assert(ids[0] == event.a);
            assert(forall|j: int| 0 <= j < rest.len() ==> ids[j + 1] == #[trigger] rest[j]);
            assert(!next.dops.contains_key(event.a));
            assert forall|j: int| 0 <= j < rest.len() implies #[trigger] rest[j] != event.a by {
                assert(next.dops.contains_key(rest[j]));
            }
            assert(forall|id: usize| ids.contains(id) <==> id == event.a || rest.contains(id)) by {
                assert forall|id: usize| rest.contains(id) implies ids.contains(id) by {
                    let j = choose|j: int| 0 <= j < rest.len() && rest[j] == id;
                    assert(ids[j + 1] == id);
                }
            }
            assert(end.deferred.retire.take(m)[n] == next.deferred.retire[n]);
            assert(end.deferred.retire.take(n) =~= end.deferred.retire.take(m).take(n));
            assert(next.deferred.retire.take(n) =~= h.deferred.retire);
        } else {
            assert(ids =~= rest);
            assert(next.deferred.retire == h.deferred.retire);
        }
    } else {
        assert(end.deferred.retire.take(n) =~= h.deferred.retire);
    }
}

/// An instruction that a batch of events retires is not retired by the next one.
pub proof fn retired_for_good(
    h: HookView,
    first: Seq<Trigger>,
    first_slots: Seq<Option<SlotProperties>>,
    next: Seq<Trigger>,
    next_slots: Seq<Option<SlotProperties>>,
    timestamp: u32,
    id: usize,
)
    requires
        hooks_ok(h, first, first_slots, timestamp),
        hooks_ok(hooks(h, first, first_slots, timestamp), next, next_slots, timestamp),
        retired_ids(first).contains(id),
    ensures
        !retired_ids(next).contains(id),
{
    let mid = hooks(h, first, first_slots, timestamp);
    retired_once(h, first, first_slots, timestamp);
    retired_once(mid, next, next_slots, timestamp);
    assert(!mid.dops.contains_key(id));
    if retired_ids(next).contains(id) {
        let j = choose|j: int| 0 <= j < retired_ids(next).len() && retired_ids(next)[j] == id;
        assert(mid.dops.contains_key(retired_ids(next)[j]));
    }
}

/// Every byte of trace is written in the trace memory, and the bytes that follow each other
/// are written one after the other, the first byte of the memory coming after its last one:
/// byte `k` is at the distance `k` from the first one, modulo the size of the memory.
pub proof fn trace_stays_in_its_memory(base: int, size: int, addr: int, len: int)
    requires
        base <= addr < base + size,
        len >= 0,
    ensures
        base <= trace_next(base, size, addr, len) < base + size,
        trace_next(base, size, addr, len) == base + (addr - base + len) % size,
        pieces_len(trace_pieces(base, size, addr, len)) == len,
        forall|i: int|
            0 <= i < trace_pieces(base, size, addr, len).len() ==> {
                let piece = #[trigger] trace_pieces(base, size, addr, len)[i];
                let before = pieces_len(trace_pieces(base, size, addr, len).take(i));
                &&& base <= piece.0 && 0 < piece.1 && piece.0 + piece.1 <= base + size
                &&& piece.0 == base + (addr - base + before) % size
            },
    decreases len,
{
    reveal_with_fuel(pieces_len, 2);
    let pieces = trace_pieces(base, size, addr, len);
    let room = base + size - addr;
    if len == 0 {
        lemma_small_mod((addr - base) as nat, size as nat);
    } else if len < room {
        lemma_small_mod((addr - base + len) as nat, size as nat);
        lemma_small_mod((addr - base) as nat, size as nat);
        assert(pieces.drop_last() =~= Seq::<(int, int)>::empty());
        assert(pieces.take(0) =~= Seq::<(int, int)>::empty());
    } else {
        let rest = trace_pieces(base, size, base, len - room);
        trace_stays_in_its_memory(base, size, base, len - room);
        lemma_pieces_len(seq![(addr, room)], rest);
        assert(seq![(addr, room)].drop_last() =~= Seq::<(int, int)>::empty());
        lemma_mod_add_multiples_vanish(len - room, size);
        assert(size + (len - room) == addr - base + len);
        lemma_small_mod((addr - base) as nat, size as nat);
        assert forall|i: int| 0 <= i < pieces.len() implies {
            let piece = #[trigger] pieces[i];
            let before = pieces_len(pieces.take(i));
            &&& base <= piece.0 && 0 < piece.1 && piece.0 + piece.1 <= base + size
            &&& piece.0 == base + (addr - base + before) % size
        } by {
            if i == 0 {
                assert(pieces.take(0) =~= Seq::<(int, int)>::empty());
            } else {
                assert(pieces[i] == rest[i - 1]);
                assert(pieces.take(i) =~= seq![(addr, room)] + rest.take(i - 1));
                lemma_pieces_len(seq![(addr, room)], rest.take(i - 1));
                let before = pieces_len(rest.take(i - 1));
                lemma_mod_add_multiples_vanish(before, size);
                assert(size + before == addr - base + (room + before));
            }
        }
    }
}

/// Number of bytes of some writes.
pub open spec fn pieces_len(pieces: Seq<(int, int)>) -> int
    decreases pieces.len(),
{
    if pieces.len() == 0 {
        0
    } else {
        pieces_len(pieces.drop_last()) + pieces.last().1
    }
}

proof fn lemma_pieces_len(a: Seq<(int, int)>, b: Seq<(int, int)>)
    ensures
        pieces_len(a + b) == pieces_len(a) + pieces_len(b),
    decreases b.len(),
{
    if b.len() == 0 {
        assert(a + b =~= a);
    } else {
        lemma_pieces_len(a, b.drop_last());
        assert((a + b).drop_last() =~= a + b.drop_last());
    }
}

} // verus!
