//! Conversion between the bytes of a memory and machine words.
//!
//! Words are stored in the byte order of the machine.
use tfhe_hpu_backend::prelude::UcoreConfig;
use vstd::arithmetic::div_mod::{lemma_div_denominator, lemma_fundamental_div_mod_converse};
use vstd::arithmetic::power::{lemma_pow0, lemma_pow_positive, pow};
use vstd::prelude::*;

verus! {

/// Bytes of the configuration of a micro-core in the firmware memory.
pub const UCORE_CONFIG_SIZE_B: usize = 260;

/// Number written by some bytes, the least significant first.
pub open spec fn little_endian(bytes: Seq<u8>) -> int
    decreases bytes.len(),
{
    if bytes.len() == 0 {
        0
    } else {
        bytes[0] + 256 * little_endian(bytes.drop_first())
    }
}

/// Number written by some bytes, in one of the two byte orders.
pub open spec fn number(big: bool, bytes: Seq<u8>) -> int {
    if big {
        little_endian(bytes.reverse())
    } else {
        little_endian(bytes)
    }
}

/// Word `i` of a sequence of bytes, each word made of `size` bytes.
pub open spec fn word_at(big: bool, bytes: Seq<u8>, size: int, i: int) -> int {
    number(big, bytes.subrange(i * size, i * size + size))
}

/// The bytes are those of the words, in one of the two byte orders.
pub open spec fn encodes_u32(big: bool, bytes: Seq<u8>, words: Seq<u32>) -> bool {
    &&& bytes.len() == words.len() * 4
    &&& forall|i: int| 0 <= i < words.len() ==> #[trigger] words[i] == word_at(big, bytes, 4, i)
}

/// The bytes are those of the words, in one of the two byte orders.
pub open spec fn encodes_u64(big: bool, bytes: Seq<u8>, words: Seq<u64>) -> bool {
    &&& bytes.len() == words.len() * 8
    &&& forall|i: int| 0 <= i < words.len() ==> #[trigger] words[i] == word_at(big, bytes, 8, i)
}

/// The bytes are those of the words, in the byte order of some machine.
pub open spec fn holds_u64(bytes: Seq<u8>, words: Seq<u64>) -> bool {
    exists|big: bool| encodes_u64(big, bytes, words)
}

/// Calls `bytemuck::pod_collect_to_vec` from bytes to words of four bytes. The
/// bytes of each word are read in the byte order of the machine, which the
/// contract leaves open.
#[verifier::external_body]
pub(crate) fn words_u32(bytes: &Vec<u8>) -> (r: Vec<u32>)
    requires
        bytes@.len() % 4 == 0,
    ensures
        exists|big: bool| encodes_u32(big, bytes@, r@),
{
    bytemuck::pod_collect_to_vec::<u8, u32>(bytes)
}

/// Calls `bytemuck::pod_collect_to_vec` from bytes to words of eight bytes. The
/// bytes of each word are read in the byte order of the machine, which the
/// contract leaves open.
#[verifier::external_body]
pub(crate) fn words_u64(bytes: &Vec<u8>) -> (r: Vec<u64>)
    requires
        bytes@.len() % 8 == 0,
    ensures
        holds_u64(bytes@, r@),
{
    bytemuck::pod_collect_to_vec::<u8, u64>(bytes)
}

/// Calls `bytemuck::cast_slice` from words of eight bytes to bytes. The bytes of
/// each word are written in the byte order of the machine, which the contract
/// leaves open.
#[verifier::external_body]
pub(crate) fn bytes_of_u64(words: &Vec<u64>) -> (r: Vec<u8>)
    ensures
        holds_u64(r@, words@),
{
    bytemuck::cast_slice::<u64, u8>(words).to_vec()
}

/// Calls `bytemuck::pod_read_unaligned` on the bytes of a
/// `tfhe_hpu_backend::prelude::UcoreConfig`, whose first byte is the identifier of
/// the node. The call panics where the number of bytes is not that of the
/// structure.
#[verifier::external_body]
pub(crate) fn config_node_id(bytes: &Vec<u8>) -> (r: u8)
    requires
        bytes@.len() == UCORE_CONFIG_SIZE_B,
    ensures
        r == bytes@[0],
{
    bytemuck::pod_read_unaligned::<UcoreConfig>(bytes).node_id
}

/// First bytes of some data.
pub(crate) fn first_bytes(data: &Vec<u8>, n: usize) -> (r: Vec<u8>)
    requires
        n <= data@.len(),
    ensures
        r@ == data@.take(n as int),
{
    let mut r: Vec<u8> = Vec::new();
    for i in 0..n
        invariant
            n <= data@.len(),
            r@ == data@.take(i as int),
    {
        r.push(data[i]);
        assert(r@ =~= data@.take(i + 1));
    }
    r
}

/// Two sequences of words with the same bytes, in the same byte order, are equal:
/// what is read back in the order of the machine is what was written.
pub proof fn read_back(big: bool, bytes: Seq<u8>, written: Seq<u64>, read: Seq<u64>)
    requires
        encodes_u64(big, bytes, written),
        encodes_u64(big, bytes, read),
    ensures
        written == read,
{
    assert(written.len() == read.len());
    assert forall|i: int| 0 <= i < written.len() implies written[i] == read[i] by {
        assert(written[i] == word_at(big, bytes, 8, i));
        assert(read[i] == word_at(big, bytes, 8, i));
    }
    assert(written =~= read);
}

/// The bytes of a number are its digits in base 256, from the lowest one.
pub proof fn bytes_are_digits(bytes: Seq<u8>, i: nat)
    requires
        i < bytes.len(),
    ensures
        0 <= little_endian(bytes) < pow(256, bytes.len()),
        (little_endian(bytes) / pow(256, i)) % 256 == bytes[i as int],
    decreases bytes.len(),
{
    lemma_pow0(256);
    let rest = bytes.drop_first();
    let high = little_endian(rest);
    let low = bytes[0] as int;
    assert(pow(256, bytes.len()) == 256 * pow(256, rest.len())) by {
        reveal(pow);
    }
    if rest.len() > 0 {
        bytes_are_digits(rest, if i == 0 {
            0
        } else {
            (i - 1) as nat
        });
    }
    let n = little_endian(bytes);
    lemma_fundamental_div_mod_converse(n, 256, high, low);
    if i == 0 {
        assert(n / 1 == n);
    } else {
        let below = pow(256, (i - 1) as nat);
        lemma_pow_positive(256, (i - 1) as nat);
        assert(pow(256, i) == 256 * below) by {
            reveal(pow);
        }
        lemma_div_denominator(n, 256, below);
    }
}

/// The byte orders are the reverse of each other.
pub proof fn byte_orders_are_opposite(big: bool, bytes: Seq<u8>)
    ensures
        number(big, bytes) == number(!big, bytes.reverse()),
        number(false, bytes) == little_endian(bytes),
{
    assert(bytes.reverse().reverse() =~= bytes);
}

} // verus!
