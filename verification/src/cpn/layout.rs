//! Position of ciphertexts and lookup tables in the on-board memories.
use tfhe_hpu_backend::prelude::page_align;
use vstd::prelude::*;

use super::insn::CtId;
use crate::params::hpu::HpuParameters;

verus! {

/// Number of bytes of a memory page.
pub const PAGE_SIZE_B: usize = 4096;

/// Memory that holds a buffer.
#[derive(Clone, Copy, Debug, PartialEq, Eq, Structural)]
pub enum MemKind {
    /// Byte offset in the DDR.
    Ddr { offset: usize },
    /// Channel of the HBM.
    Hbm { pc: usize },
}

/// Quotient rounded up.
pub open spec fn div_ceil(a: int, b: int) -> int {
    if a % b == 0 {
        a / b
    } else {
        a / b + 1
    }
}

/// Size rounded up to a whole number of pages.
pub open spec fn page_aligned(size_b: int) -> int {
    div_ceil(size_b, 4096) * 4096
}

/// Contract of `tfhe_hpu_backend::prelude::page_align`: the size is rounded up
/// to the next multiple of a page of 4096 bytes.
pub assume_specification[ page_align ](size_b: usize) -> (r: usize)
    requires
        page_aligned(size_b as int) <= usize::MAX,
    ensures
        r == page_aligned(size_b as int),
;

/// Bytes reserved for a ciphertext in each of its `pem_pc` memory channels.
pub open spec fn ct_chunk_b(rtl: HpuParameters) -> int {
    page_aligned(div_ceil(rtl.pbs_params.big_lwe_size(), rtl.pc_params.pem_pc as int) * 8)
}

/// Bytes reserved for a lookup table.
pub open spec fn lut_chunk_b(rtl: HpuParameters) -> int {
    page_aligned(rtl.pbs_params.polynomial_size * 8)
}

/// Physical address of a byte offset in a memory.
pub open spec fn phys_addr(mem: MemKind, hbm_global_ofst: int, hbm_pc_ofst: int, ofst: int) -> int {
    match mem {
        MemKind::Ddr { offset } => offset + ofst,
        MemKind::Hbm { pc } => hbm_global_ofst + pc * hbm_pc_ofst + ofst,
    }
}

/// Quotient rounded up.
pub fn quotient_ceil(a: usize, b: usize) -> (r: usize)
    requires
        b > 0,
    ensures
        r == div_ceil(a as int, b as int),
{
    if a % b == 0 {
        a / b
    } else {
        proof {
            assert(a / b <= a - 1) by (nonlinear_arith)
                requires
                    b > 0,
                    a % b != 0,
            ;
        }
        a / b + 1
    }
}

/// Physical address of a byte offset in a memory, where it is a machine integer.
pub fn checked_phys_addr(
    mem: MemKind,
    hbm_global_ofst: usize,
    hbm_pc_ofst: usize,
    ofst: usize,
) -> (r: Option<usize>)
    ensures
        match r {
            Some(addr) => addr == phys_addr(
                mem,
                hbm_global_ofst as int,
                hbm_pc_ofst as int,
                ofst as int,
            ),
            None => phys_addr(mem, hbm_global_ofst as int, hbm_pc_ofst as int, ofst as int)
                > usize::MAX,
        },
{
    match mem {
        MemKind::Ddr { offset } => offset.checked_add(ofst),
        MemKind::Hbm { pc } => {
            match pc.checked_mul(hbm_pc_ofst) {
                Some(base) => match hbm_global_ofst.checked_add(base) {
                    Some(addr) => addr.checked_add(ofst),
                    None => None,
                },
                None => None,
            }
        },
    }
}

/// Size rounded up to a whole number of pages, where it is a machine integer.
pub fn checked_page_align(size_b: usize) -> (r: Option<usize>)
    ensures
        match r {
            Some(v) => v == page_aligned(size_b as int),
            None => page_aligned(size_b as int) > usize::MAX,
        },
{
    let pages: usize = quotient_ceil(size_b, PAGE_SIZE_B);
    match pages.checked_mul(PAGE_SIZE_B) {
        Some(_) => Some(page_align(size_b)),
        None => None,
    }
}

/// Whether the addresses of a ciphertext slot can be computed on machine integers.
pub fn is_addressable(
    rtl: &HpuParameters,
    ct_pc: &Vec<MemKind>,
    hbm_global_ofst: usize,
    hbm_pc_ofst: usize,
    cid: CtId,
) -> (r: bool)
    ensures
        r == ct_addressable(*rtl, ct_pc@, hbm_global_ofst as int, hbm_pc_ofst as int, cid),
{
    let pem_pc: usize = rtl.pc_params.pem_pc;
    let pbs_p = rtl.pbs_params;
    if pem_pc == 0 {
        return false;
    }
    let lwe_size: usize = match pbs_p.glwe_dimension.checked_mul(pbs_p.polynomial_size) {
        Some(n) => {
            if n == usize::MAX {
                return false;
            }
            n + 1
        },
        None => {
            return false;
        },
    };
    let words: usize = quotient_ceil(lwe_size, pem_pc);
    let chunk_b: usize = match words.checked_mul(8) {
        Some(size_b) => match checked_page_align(size_b) {
            Some(v) => v,
            None => {
                return false;
            },
        },
        None => {
            return false;
        },
    };
    let ct_ofst: usize = match chunk_b.checked_mul(cid.0 as usize) {
        Some(v) => {
            assert(chunk_b * cid.0 == cid.0 * chunk_b) by (nonlinear_arith);
            v
        },
        None => {
            assert(chunk_b * cid.0 == cid.0 * chunk_b) by (nonlinear_arith);
            return false;
        },
    };
    let ghost addrs = ct_addrs(*rtl, ct_pc@, hbm_global_ofst as int, hbm_pc_ofst as int, cid);
    for i in 0..ct_pc.len()
        invariant
            addrs == ct_addrs(*rtl, ct_pc@, hbm_global_ofst as int, hbm_pc_ofst as int, cid),
            ct_ofst == cid.0 * ct_chunk_b(*rtl),
            forall|j: int| 0 <= j < i ==> #[trigger] addrs[j] <= usize::MAX,
    {
        let addr = checked_phys_addr(ct_pc[i], hbm_global_ofst, hbm_pc_ofst, ct_ofst);
        if addr.is_none() {
            assert(addrs[i as int] > usize::MAX);
            return false;
        }
    }
    true
}

/// Bytes reserved for a ciphertext in each of its memory channels.
pub fn ct_chunk_size_b(rtl: &HpuParameters) -> (r: usize)
    requires
        rtl.pc_params.pem_pc > 0,
        rtl.pbs_params.big_lwe_size() <= usize::MAX,
        ct_chunk_b(*rtl) <= usize::MAX,
    ensures
        r == ct_chunk_b(*rtl),
{
    let pbs_p = rtl.pbs_params;
    let lwe_size: usize = pbs_p.glwe_dimension * pbs_p.polynomial_size + 1;
    let words: usize = quotient_ceil(lwe_size, rtl.pc_params.pem_pc);
    page_align(words * 8)
}

/// Bytes reserved for a lookup table.
pub fn lut_chunk_size_b(rtl: &HpuParameters) -> (r: usize)
    requires
        lut_chunk_b(*rtl) <= usize::MAX,
    ensures
        r == lut_chunk_b(*rtl),
{
    page_align(rtl.pbs_params.polynomial_size * 8)
}

/// Physical address of a byte offset in a memory.
pub fn to_phys_addr(
    mem: MemKind,
    hbm_global_ofst: usize,
    hbm_pc_ofst: usize,
    ofst: usize,
) -> (r: usize)
    requires
        phys_addr(mem, hbm_global_ofst as int, hbm_pc_ofst as int, ofst as int) <= usize::MAX,
    ensures
        r == phys_addr(mem, hbm_global_ofst as int, hbm_pc_ofst as int, ofst as int),
{
    match mem {
        MemKind::Ddr { offset } => offset + ofst,
        MemKind::Hbm { pc } => {
            proof {
                assert(pc * hbm_pc_ofst >= 0) by (nonlinear_arith);
            }
            hbm_global_ofst + pc * hbm_pc_ofst + ofst
        },
    }
}

/// Addresses of a ciphertext slot, one for each memory channel.
pub open spec fn ct_addrs(
    rtl: HpuParameters,
    ct_pc: Seq<MemKind>,
    hbm_global_ofst: int,
    hbm_pc_ofst: int,
    cid: CtId,
) -> Seq<int> {
    Seq::new(
        ct_pc.len(),
        |i: int| phys_addr(ct_pc[i], hbm_global_ofst, hbm_pc_ofst, cid.0 * ct_chunk_b(rtl)),
    )
}

/// The addresses of a ciphertext slot can be computed on machine integers.
pub open spec fn ct_addressable(
    rtl: HpuParameters,
    ct_pc: Seq<MemKind>,
    hbm_global_ofst: int,
    hbm_pc_ofst: int,
    cid: CtId,
) -> bool {
    let addrs = ct_addrs(rtl, ct_pc, hbm_global_ofst, hbm_pc_ofst, cid);
    &&& rtl.pc_params.pem_pc > 0
    &&& rtl.pbs_params.big_lwe_size() <= usize::MAX
    &&& ct_chunk_b(rtl) <= usize::MAX
    &&& cid.0 * ct_chunk_b(rtl) <= usize::MAX
    &&& forall|i: int| 0 <= i < ct_pc.len() ==> #[trigger] addrs[i] <= usize::MAX
}

/// Addresses of a ciphertext slot, one for each memory channel.
pub fn cid_to_addr(
    rtl: &HpuParameters,
    ct_pc: &Vec<MemKind>,
    hbm_global_ofst: usize,
    hbm_pc_ofst: usize,
    cid: CtId,
) -> (r: Vec<usize>)
    requires
        ct_addressable(*rtl, ct_pc@, hbm_global_ofst as int, hbm_pc_ofst as int, cid),
    ensures
        r@.map_values(|a: usize| a as int) == ct_addrs(
            *rtl,
            ct_pc@,
            hbm_global_ofst as int,
            hbm_pc_ofst as int,
            cid,
        ),
{
    let chunk_b: usize = ct_chunk_size_b(rtl);
    proof {
        assert(cid.0 * chunk_b >= 0) by (nonlinear_arith);
    }
    let ct_ofst: usize = cid.0 as usize * chunk_b;
    let ghost addrs = ct_addrs(*rtl, ct_pc@, hbm_global_ofst as int, hbm_pc_ofst as int, cid);
    let mut r: Vec<usize> = Vec::new();
    for i in 0..ct_pc.len()
        invariant
            ct_addressable(*rtl, ct_pc@, hbm_global_ofst as int, hbm_pc_ofst as int, cid),
            addrs == ct_addrs(*rtl, ct_pc@, hbm_global_ofst as int, hbm_pc_ofst as int, cid),
            ct_ofst == cid.0 * ct_chunk_b(*rtl),
            r@.len() == i,
            forall|j: int| 0 <= j < i ==> #[trigger] r@[j] == addrs[j],
    {
        assert(addrs[i as int] <= usize::MAX);
        r.push(to_phys_addr(ct_pc[i], hbm_global_ofst, hbm_pc_ofst, ct_ofst));
    }
    assert(r@.map_values(|a: usize| a as int) =~= addrs);
    r
}

/// Two ciphertext slots never share a byte of a memory channel.
pub proof fn ct_slots_disjoint(
    rtl: HpuParameters,
    ct_pc: Seq<MemKind>,
    hbm_global_ofst: int,
    hbm_pc_ofst: int,
    a: CtId,
    b: CtId,
    i: int,
)
    requires
        a.0 < b.0,
        rtl.pc_params.pem_pc > 0,
        0 <= i < ct_pc.len(),
    ensures
        ct_addrs(rtl, ct_pc, hbm_global_ofst, hbm_pc_ofst, a)[i] + ct_chunk_b(rtl) <= ct_addrs(
            rtl,
            ct_pc,
            hbm_global_ofst,
            hbm_pc_ofst,
            b,
        )[i],
{
    let chunk = ct_chunk_b(rtl);
    let words = div_ceil(rtl.pbs_params.big_lwe_size(), rtl.pc_params.pem_pc as int);
    assert(rtl.pbs_params.big_lwe_size() >= 1) by {
        assert(rtl.pbs_params.glwe_dimension * rtl.pbs_params.polynomial_size >= 0)
            by (nonlinear_arith);
    }
    vstd::arithmetic::div_mod::lemma_div_pos_is_pos(
        rtl.pbs_params.big_lwe_size(),
        rtl.pc_params.pem_pc as int,
    );
    assert(words >= 0);
    assert(chunk >= 0);
    assert((b.0 - a.0) * chunk >= chunk) by (nonlinear_arith)
        requires
            b.0 - a.0 >= 1,
            chunk >= 0,
    ;
    assert((b.0 - a.0) * chunk == b.0 * chunk - a.0 * chunk) by (nonlinear_arith);
}

/// The pages reserved for a ciphertext hold all its coefficients: the channels
/// together have room for the whole ciphertext.
pub proof fn ct_chunk_holds_ciphertext(rtl: HpuParameters)
    requires
        rtl.pc_params.pem_pc > 0,
    ensures
        ct_chunk_b(rtl) * rtl.pc_params.pem_pc >= rtl.pbs_params.big_lwe_size() * 8,
        ct_chunk_b(rtl) % 4096 == 0,
{
    let n = rtl.pbs_params.big_lwe_size();
    let k = rtl.pc_params.pem_pc as int;
    let words = div_ceil(n, k);
    vstd::arithmetic::div_mod::lemma_fundamental_div_mod(n, k);
    vstd::arithmetic::div_mod::lemma_mod_bound(n, k);
    assert(words * k >= n) by (nonlinear_arith)
        requires
            n == k * (n / k) + n % k,
            0 <= n % k < k,
            words == (if n % k == 0 {
                n / k
            } else {
                n / k + 1
            }),
    ;
    let chunk = ct_chunk_b(rtl);
    assert(chunk >= words * 8);
    assert(chunk * k >= n * 8) by (nonlinear_arith)
        requires
            chunk >= words * 8,
            words * k >= n,
            k > 0,
    ;
}

/// An address grows with its offset, byte by byte. A memory of the DDR starts at its own offset
/// and the channels of the HBM follow each other at the same distance, from the first one on.
pub proof fn addresses_follow_offsets(
    mem: MemKind,
    hbm_global_ofst: int,
    hbm_pc_ofst: int,
    ofst: int,
    n: int,
)
    ensures
        phys_addr(mem, hbm_global_ofst, hbm_pc_ofst, ofst + n) == phys_addr(
            mem,
            hbm_global_ofst,
            hbm_pc_ofst,
            ofst,
        ) + n,
        match mem {
            MemKind::Ddr { offset } => phys_addr(mem, hbm_global_ofst, hbm_pc_ofst, 0) == offset,
            MemKind::Hbm { pc } => {
                let base = phys_addr(mem, hbm_global_ofst, hbm_pc_ofst, 0);
                &&& pc == 0 ==> base == hbm_global_ofst
                &&& pc > 0 ==> base == phys_addr(
                    MemKind::Hbm { pc: (pc - 1) as usize },
                    hbm_global_ofst,
                    hbm_pc_ofst,
                    0,
                ) + hbm_pc_ofst
            },
        },
{
    if let MemKind::Hbm { pc } = mem {
        assert(pc * hbm_pc_ofst == (pc - 1) * hbm_pc_ofst + hbm_pc_ofst) by (nonlinear_arith);
        assert(0 * hbm_pc_ofst == 0) by (nonlinear_arith);
    }
}

/// The size reserved for some bytes is the least number of whole pages that holds them.
pub proof fn pages_are_the_least(size_b: int)
    requires
        size_b >= 0,
    ensures
        page_aligned(size_b) % 4096 == 0,
        size_b <= page_aligned(size_b) < size_b + 4096,
{
}

/// The pages reserved for a ciphertext in a channel are the least ones that hold the share of
/// the channel: a page less would leave a coefficient out.
pub proof fn ct_chunk_is_the_least(rtl: HpuParameters)
    requires
        rtl.pc_params.pem_pc > 0,
    ensures
        (ct_chunk_b(rtl) - 4096) * rtl.pc_params.pem_pc < rtl.pbs_params.big_lwe_size() * 8
            || ct_chunk_b(rtl) == 4096,
        ct_chunk_b(rtl) >= 4096,
{
    let n = rtl.pbs_params.big_lwe_size();
    let k = rtl.pc_params.pem_pc as int;
    let words = div_ceil(n, k);
    assert(n >= 1) by {
        assert(rtl.pbs_params.glwe_dimension * rtl.pbs_params.polynomial_size >= 0)
            by (nonlinear_arith);
    }
    vstd::arithmetic::div_mod::lemma_fundamental_div_mod(n, k);
    vstd::arithmetic::div_mod::lemma_mod_bound(n, k);
    let q = n / k;
    assert(words >= 1 && (words - 1) * k < n) by (nonlinear_arith)
        requires
            n == k * q + n % k,
            0 <= n % k < k,
            n >= 1,
            words == (if n % k == 0 {
                q
            } else {
                q + 1
            }),
    ;
    pages_are_the_least(words * 8);
    let chunk = ct_chunk_b(rtl);
    assert(chunk - 4096 <= words * 8 - 8);
    assert((chunk - 4096) * k < n * 8) by (nonlinear_arith)
        requires
            chunk - 4096 <= (words - 1) * 8,
            (words - 1) * k < n,
            k > 0,
    ;
}

/// Slots follow each other in each channel at the distance of the bytes reserved for one of
/// them, from the first byte of the channel on.
pub proof fn ct_slots_follow_each_other(
    rtl: HpuParameters,
    ct_pc: Seq<MemKind>,
    hbm_global_ofst: int,
    hbm_pc_ofst: int,
    cid: CtId,
    i: int,
)
    requires
        0 <= i < ct_pc.len(),
        cid.0 < u16::MAX,
    ensures
        ({
            let at = |c: CtId| ct_addrs(rtl, ct_pc, hbm_global_ofst, hbm_pc_ofst, c);
            &&& at(cid).len() == ct_pc.len()
            &&& at(CtId((cid.0 + 1) as u16))[i] == at(cid)[i] + ct_chunk_b(rtl)
            &&& match ct_pc[i] {
                MemKind::Ddr { offset } => at(CtId(0))[i] == offset,
                MemKind::Hbm { pc } => at(CtId(0))[i] == hbm_global_ofst + pc * hbm_pc_ofst,
            }
        }),
{
    let chunk = ct_chunk_b(rtl);
    assert((cid.0 + 1) * chunk == cid.0 * chunk + chunk) by (nonlinear_arith);
    assert(0 * chunk == 0) by (nonlinear_arith);
}

} // verus!
