//! Words of a key that is shared out between memory channels.
//!
//! The channels take turns: each of them holds a run of consecutive words, then the next one.
use vstd::arithmetic::div_mod::{
    lemma_fundamental_div_mod, lemma_fundamental_div_mod_converse, lemma_mod_bound,
};
use vstd::prelude::*;

use crate::cpn::bytes::{holds_u64, words_u64};

verus! {

/// Memory channel of a word.
pub open spec fn word_channel(run: int, pc_nb: int, i: int) -> int {
    (i / run) % pc_nb
}

/// Position of a word in its memory channel.
pub open spec fn word_ofst(run: int, pc_nb: int, i: int) -> int {
    ((i / run) / pc_nb) * run + i % run
}

/// First `len` words of a key, from those of each memory channel.
pub open spec fn interleaved(run: int, len: int, parts: Seq<Seq<u64>>) -> Seq<u64> {
    let pc_nb = parts.len() as int;
    Seq::new(len as nat, |i: int| parts[word_channel(run, pc_nb, i)][word_ofst(run, pc_nb, i)])
}

/// The channels have taken the same number of turns after `len` words.
pub open spec fn whole_turns(run: int, pc_nb: int, len: int) -> bool {
    &&& run > 0
    &&& pc_nb > 0
    &&& len % (run * pc_nb) == 0
}

/// Each word has its place in a memory channel.
pub proof fn word_place(run: int, pc_nb: int, len: int, i: int)
    requires
        whole_turns(run, pc_nb, len),
        0 <= i < len,
    ensures
        0 <= word_channel(run, pc_nb, i) < pc_nb,
        0 <= ((i / run) / pc_nb) * run <= word_ofst(run, pc_nb, i) < len / pc_nb,
        0 <= i / run,
{
    let turn = run * pc_nb;
    assert(turn > 0) by (nonlinear_arith)
        requires
            turn == run * pc_nb,
            run > 0,
            pc_nb > 0,
    ;
    lemma_fundamental_div_mod(len, turn);
    let turns = len / turn;
    assert(len == (turns * run) * pc_nb) by (nonlinear_arith)
        requires
            len == turn * turns,
            turn == run * pc_nb,
    ;
    lemma_fundamental_div_mod_converse(len, pc_nb, turns * run, 0);
    let q = i / run;
    let t = q / pc_nb;
    lemma_fundamental_div_mod(i, run);
    lemma_fundamental_div_mod(q, pc_nb);
    lemma_mod_bound(i, run);
    lemma_mod_bound(q, pc_nb);
    assert(0 <= q < turns * pc_nb) by (nonlinear_arith)
        requires
            run * q + i % run == i,
            0 <= i % run < run,
            0 <= i < (turns * run) * pc_nb,
    ;
    assert(0 <= t < turns) by (nonlinear_arith)
        requires
            pc_nb * t + q % pc_nb == q,
            0 <= q % pc_nb < pc_nb,
            0 <= q < turns * pc_nb,
    ;
    assert(0 <= t * run && t * run + run <= turns * run) by (nonlinear_arith)
        requires
            0 <= t <= turns - 1,
            run > 0,
    ;
}

/// First `len` words of a key, from those of each memory channel.
pub fn interleave(run: usize, len: usize, parts: &Vec<Vec<u64>>) -> (r: Vec<u64>)
    requires
        whole_turns(run as int, parts@.len() as int, len as int),
        forall|pc: int|
            0 <= pc < parts@.len() ==> len as int / parts@.len() as int <= (
            #[trigger] parts@[pc])@.len(),
    ensures
        r@ == interleaved(
            run as int,
            len as int,
            parts@.map_values(|part: Vec<u64>| part@),
        ),
{
    let pc_nb: usize = parts.len();
    let ghost views = parts@.map_values(|part: Vec<u64>| part@);
    let ghost all = interleaved(run as int, len as int, views);
    let mut words: Vec<u64> = Vec::new();
    for i in 0..len
        invariant
            whole_turns(run as int, pc_nb as int, len as int),
            pc_nb == parts@.len(),
            forall|pc: int|
                0 <= pc < parts@.len() ==> len as int / pc_nb as int <= (
                #[trigger] parts@[pc])@.len(),
            views == parts@.map_values(|part: Vec<u64>| part@),
            all == interleaved(run as int, len as int, views),
            words@.len() == i,
            forall|j: int| 0 <= j < i ==> #[trigger] words@[j] == all[j],
    {
        proof {
            word_place(run as int, pc_nb as int, len as int, i as int);
        }
        let part: &Vec<u64> = &parts[(i / run) % pc_nb];
        assert(part.len() == part@.len());
        words.push(part[((i / run) / pc_nb) * run + i % run]);
    }
    assert(words@ =~= all);
    words
}

/// Words of each memory channel, from the bytes that were read there. A channel that is not
/// read is null.
pub open spec fn parts_read(
    pc_nb: int,
    part_len: int,
    chunks: Seq<Vec<u8>>,
    parts: Seq<Seq<u64>>,
) -> bool {
    &&& parts.len() == pc_nb
    &&& forall|pc: int|
        0 <= pc < parts.len() ==> {
            &&& (#[trigger] parts[pc]).len() == part_len
            &&& pc < chunks.len() ==> holds_u64(chunks[pc]@, parts[pc])
            &&& pc >= chunks.len() ==> forall|k: int|
                0 <= k < parts[pc].len() ==> #[trigger] parts[pc][k] == 0
        }
}

/// The bytes are those of whole memory channels, at most one for each channel.
pub open spec fn chunks_ok(pc_nb: int, part_len: int, chunks: Seq<Vec<u8>>) -> bool {
    &&& chunks.len() <= pc_nb
    &&& forall|pc: int| 0 <= pc < chunks.len() ==> (#[trigger] chunks[pc])@.len() == part_len * 8
}

/// Words of each memory channel. The bytes of each word are read in the byte order of the
/// machine.
pub(crate) fn read_parts(pc_nb: usize, part_len: usize, chunks: &Vec<Vec<u8>>) -> (r: Vec<
    Vec<u64>,
>)
    requires
        chunks_ok(pc_nb as int, part_len as int, chunks@),
    ensures
        parts_read(
            pc_nb as int,
            part_len as int,
            chunks@,
            r@.map_values(|part: Vec<u64>| part@),
        ),
{
    let mut parts: Vec<Vec<u64>> = Vec::new();
    for pc in 0..pc_nb
        invariant
            chunks_ok(pc_nb as int, part_len as int, chunks@),
            parts@.len() == pc,
            forall|i: int|
                0 <= i < pc ==> {
                    &&& (#[trigger] parts@[i])@.len() == part_len
                    &&& i < chunks@.len() ==> holds_u64(chunks@[i]@, parts@[i]@)
                    &&& i >= chunks@.len() ==> forall|k: int|
                        0 <= k < part_len ==> #[trigger] parts@[i]@[k] == 0
                },
    {
        let part: Vec<u64> = if pc < chunks.len() {
            words_u64(&chunks[pc])
        } else {
            vec![0u64; part_len]
        };
        parts.push(part);
    }
    parts
}

/// Whether the bytes are those of whole memory channels.
pub fn chunks_fit(pc_nb: usize, part_len: usize, chunks: &Vec<Vec<u8>>) -> (r: bool)
    ensures
        r == chunks_ok(pc_nb as int, part_len as int, chunks@),
{
    if chunks.len() > pc_nb {
        return false;
    }
    for pc in 0..chunks.len()
        invariant
            forall|i: int| 0 <= i < pc ==> (#[trigger] chunks@[i])@.len() == part_len * 8,
    {
        let size_b: usize = chunks[pc].len();
        if size_b / 8 != part_len || size_b % 8 != 0 {
            assert(chunks@[pc as int]@.len() != part_len * 8);
            return false;
        }
    }
    true
}

} // verus!
