//! Keys of the server, from the memory.
use vstd::prelude::*;

use super::bsk::{
    bsk_from_parts, bsk_of_parts, bsk_order_ok, bsk_part_len, bsk_part_size, bsk_split_ok,
};
use super::channels::{chunks_ok, parts_read, read_parts};
use super::ksk::{
    ksk_from_parts, ksk_of_parts, ksk_pack_ok, ksk_part_len, ksk_part_size, ksk_split_ok,
};
use super::model::{channel_reads, HpuCoreParams, HpuCoreView};
use super::pbs::{pbs_ok, ServerKey};
use super::unit::HpuCore;
use crate::cpn::layout::MemKind;
use crate::params::hpu::HpuParameters;

verus! {

impl HpuCore {
    /// Takes the keys of the server. Returns whether a bootstrapping can be done with them;
    /// they are kept only then.
    pub fn take_keys(&mut self, ksk: Vec<u32>, bsk: Vec<u64>) -> (r: bool)
        requires
            old(self).wf(),
        ensures
            final(self).params == old(self).params,
            final(self).wf(),
            r == pbs_ok(old(self).params.compute_params, ksk@, bsk@),
            final(self)@ == if r {
                HpuCoreView { sks: Some((ksk@, bsk@)), ..old(self)@ }
            } else {
                old(self)@
            },
    {
        let keys = ServerKey { ksk, bsk };
        let usable = keys.usable(&self.params.compute_params);
        if usable {
            self.set_server_key(keys);
        }
        usable
    }

    /// Takes the keys that were read from the memory, from the bytes of each channel. Returns
    /// whether a bootstrapping can be done with them; they are kept only then.
    ///
    /// The bytes of each word are read in the byte order of the machine, which the contract
    /// leaves open.
    pub fn load_keys(&mut self, ksk_chunks: &Vec<Vec<u8>>, bsk_chunks: &Vec<Vec<u8>>) -> (r: bool)
        requires
            old(self).wf(),
            ({
                let rtl = old(self).params.compute_params;
                let (ksk_pc, bsk_pc) = (rtl.pc_params.ksk_pc, rtl.pc_params.bsk_pc);
                &&& ksk_pack_ok(rtl) && ksk_split_ok(rtl)
                &&& chunks_ok(ksk_pc as int, ksk_part_len(rtl), ksk_chunks@)
                &&& bsk_order_ok(rtl) && bsk_split_ok(rtl)
                &&& chunks_ok(bsk_pc as int, bsk_part_len(rtl), bsk_chunks@)
            }),
        ensures
            final(self).params == old(self).params,
            final(self).wf(),
            exists|ksk_parts: Seq<Seq<u64>>, bsk_parts: Seq<Seq<u64>>|
                {
                    let rtl = old(self).params.compute_params;
                    let ksk = ksk_of_parts(rtl, ksk_parts);
                    let bsk = bsk_of_parts(rtl, bsk_parts);
                    &&& #[trigger] keys_read(
                        old(self).params.compute_params,
                        ksk_chunks@,
                        bsk_chunks@,
                        ksk_parts,
                        bsk_parts,
                    )
                    &&& r == pbs_ok(rtl, ksk, bsk)
                    &&& final(self)@ == if r {
                        HpuCoreView { sks: Some((ksk, bsk)), ..old(self)@ }
                    } else {
                        old(self)@
                    }
                },
    {
        let rtl = &self.params.compute_params;
        let ksk_parts = read_parts(rtl.pc_params.ksk_pc, ksk_part_size(rtl), ksk_chunks);
        let bsk_parts = read_parts(rtl.pc_params.bsk_pc, bsk_part_size(rtl), bsk_chunks);
        let ghost ksk_views = ksk_parts@.map_values(|part: Vec<u64>| part@);
        let ghost bsk_views = bsk_parts@.map_values(|part: Vec<u64>| part@);
        proof {
            assert forall|pc: int| 0 <= pc < ksk_parts@.len() implies (
            #[trigger] ksk_parts@[pc])@.len() == ksk_part_len(*rtl) by {
                assert(ksk_views[pc] == ksk_parts@[pc]@);
            }
            assert forall|pc: int| 0 <= pc < bsk_parts@.len() implies (
            #[trigger] bsk_parts@[pc])@.len() == bsk_part_len(*rtl) by {
                assert(bsk_views[pc] == bsk_parts@[pc]@);
            }
            assert(keys_read(*rtl, ksk_chunks@, bsk_chunks@, ksk_views, bsk_views));
        }
        let ksk = ksk_from_parts(rtl, &ksk_parts);
        let bsk = bsk_from_parts(rtl, &bsk_parts);
        self.take_keys(ksk, bsk)
    }
}

/// Words of each memory channel of the two keys, from the bytes that were read there. A channel
/// that is not read is null.
pub open spec fn keys_read(
    rtl: HpuParameters,
    ksk_chunks: Seq<Vec<u8>>,
    bsk_chunks: Seq<Vec<u8>>,
    ksk_parts: Seq<Seq<u64>>,
    bsk_parts: Seq<Seq<u64>>,
) -> bool {
    let (ksk_pc, bsk_pc) = (rtl.pc_params.ksk_pc, rtl.pc_params.bsk_pc);
    &&& parts_read(ksk_pc as int, ksk_part_len(rtl), ksk_chunks, ksk_parts)
    &&& parts_read(bsk_pc as int, bsk_part_len(rtl), bsk_chunks, bsk_parts)
}

/// What the accesses to the memory read of a key is what is taken: the bytes of whole channels.
pub proof fn key_reads_are_whole_channels(
    params: HpuCoreParams,
    len: int,
    mems: Seq<MemKind>,
    pc_nb: int,
    chunks: Seq<Vec<u8>>,
)
    requires
        pc_nb >= 0,
        chunks.len() == channel_reads(params, len, pc_nb, mems).len(),
        forall|pc: int|
            0 <= pc < chunks.len() ==> (#[trigger] chunks[pc])@.len() == channel_reads(
                params,
                len,
                pc_nb,
                mems,
            )[pc].1,
    ensures
        chunks_ok(pc_nb, len / pc_nb, chunks),
{
}

} // verus!
