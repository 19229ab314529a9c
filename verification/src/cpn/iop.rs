//! Integer operations queued by the host.
use std::collections::VecDeque;

use tfhe_hpu_backend::prelude::hpu_asm;
use vstd::prelude::*;

use super::insn::{CtId, IOpId, NodeId};

verus! {

/// Number of nodes that a mapping word can name.
pub const MAX_HPU_IN_CLUSTER: usize = 8;

/// Number of blocks that an immediate can be asked for.
pub const IMM_BLOCKS: usize = 256;

/// Source or destination operand of an integer operation.
#[derive(Clone, Copy, Debug, PartialEq, Eq, Structural)]
pub struct Operand {
    /// Index of the last block of the operand.
    pub block: u8,
    /// Slot of the first block.
    pub base_cid: CtId,
    /// Operation that produces the operand.
    pub iid: IOpId,
    /// Node that stores the operand.
    pub pos: NodeId,
}

/// Integer operation.
#[derive(Debug)]
pub struct IOp {
    pub opcode: u8,
    /// Index of the last block of the widest operand.
    pub blk_width: usize,
    /// Whether the firmware is looked up regardless of the operand width.
    pub dynamic: bool,
    /// Nodes involved in the operation.
    pub mapping: Vec<NodeId>,
    pub dst: Vec<Operand>,
    pub src: Vec<Operand>,
    /// Blocks of each immediate, zero beyond its last one.
    pub imm: Vec<Vec<u16>>,
    /// Encoding of the operation.
    pub words: Vec<u32>,
}

/// Abstract value of an `IOp`.
#[verifier::ext_equal]
pub struct IOpView {
    pub opcode: u8,
    pub blk_width: usize,
    pub dynamic: bool,
    pub mapping: Seq<NodeId>,
    pub dst: Seq<Operand>,
    pub src: Seq<Operand>,
    pub imm: Seq<Seq<u16>>,
    pub words: Seq<u32>,
}

impl View for IOp {
    type V = IOpView;

    open spec fn view(&self) -> IOpView {
        IOpView {
            opcode: self.opcode,
            blk_width: self.blk_width,
            dynamic: self.dynamic,
            mapping: self.mapping@,
            dst: self.dst@,
            src: self.src@,
            imm: Seq::new(self.imm@.len(), |i: int| self.imm@[i]@),
            words: self.words@,
        }
    }
}

impl IOpView {
    /// What holds of every operation extracted from a stream.
    pub open spec fn wf(self) -> bool {
        &&& self.blk_width <= 0xff
        &&& 1 <= self.mapping.len() <= MAX_HPU_IN_CLUSTER
        &&& self.dst.len() >= 1
        &&& self.words.len() >= 1
        &&& forall|i: int| 0 <= i < self.imm.len() ==> (#[trigger] self.imm[i]).len() == IMM_BLOCKS
    }

    /// Identifier of the operation, carried by its first destination.
    pub open spec fn iid(self) -> IOpId {
        self.dst[0].iid
    }

    /// Entry of the firmware table for a node: eight nodes for each operation
    /// code, and all operation codes for each width.
    pub open spec fn fw_entry(self, hid: u8) -> int {
        let bucket = if self.dynamic {
            1int
        } else {
            0x800 * self.blk_width
        };
        bucket + 8 * self.opcode + hid
    }
}

/// Virtual identifier given to node `i` by a mapping word, if the node is used.
pub open spec fn virt_id(word: u32, i: u32) -> Option<u32> {
    if (word >> ((4 * i) as u32)) & 1 == 1 {
        Some((word >> ((4 * i + 1) as u32)) & 7)
    } else {
        None
    }
}

/// Number of nodes below `n` used by a mapping word.
pub open spec fn used_nodes(word: u32, n: nat) -> nat
    decreases n,
{
    if n == 0 {
        0
    } else {
        used_nodes(word, (n - 1) as nat) + if virt_id(word, (n - 1) as u32) is Some {
            1nat
        } else {
            0nat
        }
    }
}

/// A mapping word uses at least one node, its virtual identifiers start at zero
/// and the highest one is one less than the number of nodes.
pub open spec fn mapping_ok(word: u32) -> bool {
    &&& exists|i: u32| i < 8 && #[trigger] virt_id(word, i) == Some(0u32)
    &&& exists|i: u32|
        i < 8 && #[trigger] virt_id(word, i) == Some((used_nodes(word, 8) - 1) as u32)
    &&& forall|i: u32|
        i < 8 ==> ((#[trigger] virt_id(word, i)) matches Some(v) ==> v < used_nodes(word, 8))
}

/// Virtual identifier given to a node by a mapping word, if the node is used.
fn virt_of(word: u32, i: u32) -> (r: Option<u32>)
    requires
        i < 8,
    ensures
        r == virt_id(word, i),
{
    if (word >> (4 * i)) & 1 == 1 {
        Some((word >> (4 * i + 1)) & 7)
    } else {
        None
    }
}

/// Whether a mapping word is accepted.
pub fn is_mapping(word: u32) -> (r: bool)
    ensures
        r == mapping_ok(word),
{
    let mut used: u32 = 0;
    for i in 0..8u32
        invariant
            used <= i,
            used == used_nodes(word, i as nat),
    {
        if virt_of(word, i).is_some() {
            used = used + 1;
        }
    }
    let mut first = false;
    let mut last = false;
    for i in 0..8u32
        invariant
            used <= 8,
            used == used_nodes(word, 8),
            first == exists|j: u32| j < i && #[trigger] virt_id(word, j) == Some(0u32),
            last == exists|j: u32|
                j < i && #[trigger] virt_id(word, j) == Some((used_nodes(word, 8) - 1) as u32),
            forall|j: u32|
                j < i ==> ((#[trigger] virt_id(word, j)) matches Some(v) ==> v < used_nodes(word, 8)),
    {
        let virt = virt_of(word, i);
        match virt {
            Some(v) => {
                if v >= used {
                    assert(virt_id(word, i) == Some(v));
                    return false;
                }
                if v == 0 {
                    first = true;
                    assert(virt_id(word, i) == Some(0u32));
                }
                if v == used - 1 {
                    last = true;
                    assert(virt_id(word, i) == Some((used_nodes(word, 8) - 1) as u32));
                }
            },
            None => {},
        }
    }
    first && last
}

/// Operation encoded at the front of a stream, with its number of words.
pub uninterp spec fn iop_of_words(words: Seq<u32>) -> Option<(IOpView, nat)>;

/// Parts of an operation other than its operands.
pub(crate) struct IOpHeader {
    pub opcode: u8,
    pub blk_width: usize,
    pub dynamic: bool,
    pub mapping: Vec<NodeId>,
    pub imm: Vec<Vec<u16>>,
    pub words: Vec<u32>,
}

/// Calls `hpu_asm::IOp::from_words`, which extracts an operation from the front
/// of the stream and leaves the stream as it is where it holds none. The call
/// panics on a mapping word that is not accepted. The fields are those that
/// the accessors of `hpu_asm::IOp` return. Beside the name of the result, the
/// contract says that an operation has a destination, an encoding, at most
/// eight nodes and a width of one byte, and that it takes words of the stream.
#[verifier::external_body]
pub(crate) fn header_from_words(stream: &mut VecDeque<u32>) -> (r: Option<IOpHeader>)
    requires
        old(stream)@.len() >= 2 ==> mapping_ok(old(stream)@[1]),
    ensures
        match iop_of_words(old(stream)@) {
            Some((view, n)) => {
                &&& r matches Some(h)
                &&& h.opcode == view.opcode && h.blk_width == view.blk_width && h.dynamic
                    == view.dynamic && h.mapping@ == view.mapping && h.words@ == view.words
                &&& Seq::new(h.imm@.len(), |i: int| h.imm@[i]@) == view.imm
                &&& view.wf() && n <= old(stream)@.len()
                &&& final(stream)@ == old(stream)@.skip(n as int)
            },
            None => r is None && final(stream)@ == old(stream)@,
        },
{
    let iop = hpu_asm::IOp::from_words(stream).ok()?;
    let blocks = |m: &hpu_asm::iop::Immediate| (0..=u8::MAX).map(|b| m.msg_block(b)).collect();
    Some(IOpHeader {
        opcode: iop.opcode().0,
        blk_width: iop.fw_blk_width(),
        dynamic: matches!(iop.fw_mode(), hpu_asm::FwMode::Dynamic),
        mapping: iop.mapping().iter().map(|p| NodeId(p.0)).collect(),
        imm: iop.imm().iter().map(blocks).collect(),
        words: iop.to_words(),
    })
}

/// Calls `hpu_asm::IOp::from_words` on a copy of the stream, and returns the
/// destination and the source operands of the operation at its front.
#[verifier::external_body]
pub(crate) fn operands_from_words(stream: &VecDeque<u32>) -> (r: Option<
    (Vec<Operand>, Vec<Operand>),
>)
    requires
        stream@.len() >= 2 ==> mapping_ok(stream@[1]),
    ensures
        match iop_of_words(stream@) {
            Some((view, _)) => r matches Some(ops) && ops.0@ == view.dst && ops.1@ == view.src,
            None => r is None,
        },
{
    let iop = hpu_asm::IOp::from_words(&mut stream.clone()).ok()?;
    let operand = |o: &hpu_asm::Operand| Operand {
        block: o.props.block.0,
        base_cid: CtId(o.addr.base_cid.0),
        iid: IOpId(o.props.iid.0),
        pos: NodeId(o.props.pos.0),
    };
    Some((iop.dst().iter().map(operand).collect(), iop.src().iter().map(operand).collect()))
}

/// Extracts an operation from the front of a stream. The stream is left as it is
/// where it holds none.
pub fn iop_from_words(stream: &mut VecDeque<u32>) -> (r: Option<IOp>)
    requires
        old(stream)@.len() >= 2 ==> mapping_ok(old(stream)@[1]),
    ensures
        match iop_of_words(old(stream)@) {
            Some((view, n)) => r matches Some(iop) && iop@ == view && view.wf() && n
                <= old(stream)@.len() && final(stream)@ == old(stream)@.skip(n as int),
            None => r is None && final(stream)@ == old(stream)@,
        },
{
    let operands = operands_from_words(stream);
    let header = header_from_words(stream);
    match (header, operands) {
        (Some(h), Some((dst, src))) => {
            let iop = IOp {
                opcode: h.opcode,
                blk_width: h.blk_width,
                dynamic: h.dynamic,
                mapping: h.mapping,
                dst,
                src,
                imm: h.imm,
                words: h.words,
            };
            Some(iop)
        },
        _ => None,
    }
}

impl Clone for IOp {
    fn clone(&self) -> (r: IOp)
        ensures
            r@ == self@,
    {
        let mut imm: Vec<Vec<u16>> = Vec::new();
        for i in 0..self.imm.len()
            invariant
                imm@.len() == i,
                forall|j: int| 0 <= j < i ==> (#[trigger] imm@[j])@ == self.imm@[j]@,
        {
            imm.push(self.imm[i].clone());
            assert(imm@[i as int]@ =~= self.imm@[i as int]@);
        }
        let r = IOp {
            opcode: self.opcode,
            blk_width: self.blk_width,
            dynamic: self.dynamic,
            mapping: self.mapping.clone(),
            dst: self.dst.clone(),
            src: self.src.clone(),
            imm,
            words: self.words.clone(),
        };
        assert(r@ =~~= self@);
        r
    }
}

impl IOp {
    /// Identifier of the operation.
    pub fn get_iid(&self) -> (r: IOpId)
        requires
            self.dst@.len() >= 1,
        ensures
            r == self@.iid(),
    {
        self.dst[0].iid
    }

    /// Entry of the firmware table for the operation on node `hid`.
    pub fn fw_entry(&self, hid: u8) -> (r: usize)
        requires
            self.blk_width <= 0xff,
        ensures
            r == self@.fw_entry(hid),
    {
        let bucket: usize = if self.dynamic {
            1
        } else {
            0x800 * self.blk_width
        };
        bucket + 8 * self.opcode as usize + hid as usize
    }
}

/// A mapping word has four bits for each node: the lowest one tells whether the node is used,
/// and the others are its virtual identifier.
pub proof fn mapping_has_four_bits_for_each_node(word: u32, i: u32)
    requires
        i < 8,
    ensures
        ({
            let bits = (word >> ((4 * i) as u32)) % 16;
            match virt_id(word, i) {
                Some(id) => bits == 2 * id + 1,
                None => bits % 2 == 0,
            }
        }),
{
    let k = (4 * i) as u32;
    let l = (4 * i + 1) as u32;
    assert(((word >> k) & 1 == 1 ==> (word >> k) % 16 == 2 * ((word >> l) & 7) + 1) && ((word >> k)
        & 1 != 1 ==> ((word >> k) % 16) % 2 == 0)) by (bit_vector)
        requires
            k <= 28,
            l == k + 1,
    ;
}

/// A node more counts once, where it is used.
pub proof fn used_nodes_are_counted(word: u32, n: nat)
    requires
        n < 8,
    ensures
        used_nodes(word, 0) == 0,
        used_nodes(word, n + 1) == used_nodes(word, n) + (if (word >> ((4 * n) as u32)) % 2 == 1 {
            1int
        } else {
            0int
        }),
        used_nodes(word, n) <= n,
    decreases n,
{
    let k = (4 * n) as u32;
    assert((word >> k) & 1 == (word >> k) % 2) by (bit_vector);
    if n > 0 {
        used_nodes_are_counted(word, (n - 1) as nat);
    }
}

/// An accepted mapping uses its virtual identifiers from zero on: the first and the last of
/// them are given to nodes, and none is beyond the number of nodes.
pub proof fn accepted_mappings_number_their_nodes(word: u32, i: u32)
    requires
        mapping_ok(word),
        i < 8,
    ensures
        1 <= used_nodes(word, 8) <= 8,
        virt_id(word, i) matches Some(id) ==> id < used_nodes(word, 8),
        exists|j: u32| j < 8 && #[trigger] virt_id(word, j) == Some(0u32),
        exists|j: u32|
            j < 8 && #[trigger] virt_id(word, j) == Some((used_nodes(word, 8) - 1) as u32),
{
    used_nodes_are_counted(word, 7);
    let j = choose|j: u32| j < 8 && #[trigger] virt_id(word, j) == Some(0u32);
}

} // verus!
