//! Big-endian numbers and the fixed-size words of Ethereum calldata.
use alloy_primitives::{Address, B256, U256};
use vstd::arithmetic::div_mod::*;
use vstd::arithmetic::power2::*;
use vstd::prelude::*;

verus! {

/// The number that bytes stand for, the first byte being the most significant.
pub open spec fn be_value(bytes: Seq<u8>) -> nat
    decreases bytes.len(),
{
    if bytes.len() == 0 {
        0
    } else {
        be_value(bytes.drop_last()) * 256 + bytes.last() as nat
    }
}

/// The lowest `len` bytes of `n`, the most significant one first.
pub open spec fn be_bytes(n: nat, len: nat) -> Seq<u8>
    decreases len,
{
    if len == 0 {
        Seq::empty()
    } else {
        be_bytes(n / 256, (len - 1) as nat).push((n % 256) as u8)
    }
}

/// `n` zero bytes.
pub open spec fn zeros(n: nat) -> Seq<u8> {
    Seq::new(n, |i: int| 0u8)
}

/// `len` bytes are `len` bytes long.
pub proof fn lemma_be_bytes_len(n: nat, len: nat)
    ensures
        be_bytes(n, len).len() == len,
    decreases len,
{
    if len > 0 {
        lemma_be_bytes_len(n / 256, (len - 1) as nat);
    }
}

/// One more byte makes room for numbers that are 256 times larger.
proof fn lemma_byte_of_room(len: nat)
    ensures
        pow2(8 * (len + 1)) == pow2(8 * len) * 256,
{
    lemma2_to64();
    lemma_pow2_adds(8 * len, 8);
    assert(8 * (len + 1) == 8 * len + 8);
}

/// `len` bytes stand for a number below `2^(8 * len)`.
pub proof fn lemma_be_value_bound(bytes: Seq<u8>)
    ensures
        be_value(bytes) < pow2(8 * bytes.len()),
    decreases bytes.len(),
{
    if bytes.len() == 0 {
        lemma2_to64();
    } else {
        lemma_be_value_bound(bytes.drop_last());
        lemma_byte_of_room((bytes.len() - 1) as nat);
    }
}

/// A number that fits is read back from its bytes.
pub proof fn lemma_value_of_bytes(n: nat, len: nat)
    requires
        n < pow2(8 * len),
    ensures
        be_value(be_bytes(n, len)) == n,
    decreases len,
{
    if len == 0 {
        lemma2_to64();
    } else {
        let less = (len - 1) as nat;
        lemma_byte_of_room(less);
        lemma_value_of_bytes(n / 256, less);
        assert(be_bytes(n, len).drop_last() =~= be_bytes(n / 256, less));
    }
}

/// Bytes are written back from the number that they stand for.
pub proof fn lemma_bytes_of_value(bytes: Seq<u8>)
    ensures
        be_bytes(be_value(bytes), bytes.len()) == bytes,
    decreases bytes.len(),
{
    if bytes.len() > 0 {
        let front = bytes.drop_last();
        lemma_bytes_of_value(front);
        assert(be_value(bytes) / 256 == be_value(front));
        assert(be_value(bytes) % 256 == bytes.last() as nat);
        assert(front.push(bytes.last()) =~= bytes);
    }
    assert(be_bytes(be_value(bytes), bytes.len()) =~= bytes);
}

/// Leading zero bytes do not change the number.
pub proof fn lemma_be_bytes_padded(n: nat, len: nat, pad: nat)
    requires
        n < pow2(8 * len),
    ensures
        be_bytes(n, pad + len) == zeros(pad) + be_bytes(n, len),
    decreases len + pad,
{
    if len > 0 {
        lemma_byte_of_room((len - 1) as nat);
        lemma_be_bytes_padded(n / 256, (len - 1) as nat, pad);
    } else if pad > 0 {
        lemma2_to64();
        lemma_be_bytes_padded(n, 0, (pad - 1) as nat);
    }
    assert(be_bytes(n, pad + len) =~= zeros(pad) + be_bytes(n, len));
}

/// What bytes stand for: nothing for none, itself for one, and for bytes in two
/// parts the first part, moved up by as many bytes as the second has, and the
/// second.
pub proof fn lemma_be_value_of_parts(a: Seq<u8>, b: Seq<u8>)
    ensures
        be_value(Seq::empty()) == 0,
        forall|byte: u8| be_value(#[trigger] seq![byte]) == byte,
        be_value(a + b) == be_value(a) * pow2(8 * b.len()) + be_value(b),
    decreases b.len(),
{
    assert forall|byte: u8| be_value(#[trigger] seq![byte]) == byte by {
        assert(seq![byte].drop_last() =~= Seq::empty());
        assert(be_value(Seq::<u8>::empty()) == 0);
    }
    if b.len() == 0 {
        lemma2_to64();
        assert(a + b =~= a);
        assert(be_value(a) * 1 == be_value(a));
    } else {
        let front = b.drop_last();
        assert((a + b).drop_last() =~= a + front);
        lemma_be_value_of_parts(a, front);
        lemma_byte_of_room(front.len());
        let x = be_value(a) as int;
        let p = pow2(8 * front.len()) as int;
        assert(x * p * 256 == x * (p * 256)) by (nonlinear_arith);
    }
}

/// Zero bytes are zero, and as many as asked for.
pub proof fn lemma_zeros_are_zero(n: nat)
    ensures
        zeros(n).len() == n,
        forall|i: int| 0 <= i < n ==> zeros(n)[i] == 0,
{
}

/// The powers of two that bound the integers of a calldata.
pub proof fn lemma_byte_bounds()
    ensures
        pow2(8 * 4) == 0x1_0000_0000,
        pow2(8 * 8) == 0x1_0000_0000_0000_0000,
        pow2(8 * 15) == 0x1_00_0000_0000_0000_0000_0000_0000_0000,
        pow2(8 * 16) == u128::MAX + 1,
{
    lemma2_to64();
    lemma2_to64_rest();
    lemma_pow2_adds(64, 56);
    lemma_pow2_adds(64, 64);
}

/// Appends the lowest `len` bytes of `n`.
pub(crate) fn push_be(buf: &mut Vec<u8>, n: u128, len: usize)
    ensures
        final(buf)@ == old(buf)@ + be_bytes(n as nat, len as nat),
    decreases len,
{
    if len > 0 {
        push_be(buf, n / 256, len - 1);
        buf.push((n % 256) as u8);
    }
    assert(buf@ =~= old(buf)@ + be_bytes(n as nat, len as nat));
}

/// Reads the number in the `len` bytes from `start` on.
pub(crate) fn read_be(bytes: &[u8], start: usize, len: usize) -> (r: u128)
    requires
        start + len <= bytes@.len(),
        len <= 16,
    ensures
        r == be_value(bytes@.subrange(start as int, start + len)),
        r < pow2(8 * len as nat),
    decreases len,
{
    let ghost field = bytes@.subrange(start as int, start + len);
    proof {
        lemma_be_value_bound(field);
    }
    if len == 0 {
        0
    } else {
        let high: u128 = read_be(bytes, start, len - 1);
        proof {
            assert(field.drop_last() =~= bytes@.subrange(start as int, start + len - 1));
            lemma_byte_bounds();
            if len < 16 {
                lemma_pow2_strictly_increases(8 * (len - 1) as nat, 8 * 15);
            }
        }
        let end: usize = bytes.len();
        assert(start + len <= end);
        high * 256 + bytes[start + len - 1] as u128
    }
}

/// `U256::from` and `Uint::to_be_bytes` write `n` as a word of 32 bytes.
#[verifier::external_body]
pub(crate) fn u256_word(n: u128) -> (r: [u8; 32])
    ensures
        r@ == be_bytes(n as nat, 32),
{
    U256::from(n).to_be_bytes::<32>()
}

/// `Address::into_word` puts the address behind 12 zero bytes.
#[verifier::external_body]
pub(crate) fn address_word(address: [u8; 20]) -> (r: [u8; 32])
    ensures
        r@ == zeros(12) + address@,
{
    Address::from(address).into_word().0
}

/// `B256::from_slice` takes the 32 bytes over; it panics on any other number.
#[verifier::external_body]
pub(crate) fn hash_from_slice(bytes: &[u8]) -> (r: [u8; 32])
    requires
        bytes@.len() == 32,
    ensures
        r@ == bytes@,
{
    B256::from_slice(bytes).0
}

/// `Address::from_slice` takes the 20 bytes over; it panics on any other number.
#[verifier::external_body]
pub(crate) fn address_from_slice(bytes: &[u8]) -> (r: [u8; 20])
    requires
        bytes@.len() == 20,
    ensures
        r@ == bytes@,
{
    Address::from_slice(bytes).into_array()
}

} // verus!
