//! Base-128 variable-length integers: the mathematical model of the encoding
//! and the laws that tie encoding and decoding together.

use vstd::arithmetic::div_mod::*;
use vstd::arithmetic::mul::*;
use vstd::prelude::*;

verus! {

/// Two to the sixty-fourth: the modulus of 64-bit arithmetic.
pub open spec fn two_64() -> nat {
    0x1_0000_0000_0000_0000
}

/// The encoding of `v`: seven bits per byte, least significant group first,
/// the top bit set on every byte but the last.
pub open spec fn encode_varint(v: nat) -> Seq<u8>
    decreases v,
{
    if v < 128 {
        seq![v as u8]
    } else {
        seq![(v % 128 + 128) as u8].add(encode_varint(v / 128))
    }
}

/// How many bytes a decoder takes from `data` starting at `offset`: up to and
/// including the first byte without the continuation bit, or up to the end.
pub open spec fn varint_len(data: Seq<u8>, offset: int) -> nat
    decreases data.len() - offset,
{
    if offset < 0 || offset >= data.len() {
        0
    } else if data[offset] < 128 {
        1
    } else {
        1 + varint_len(data, offset + 1)
    }
}

/// The number that the bytes of one varint stand for, without any bound:
/// the sum of the low seven bits of byte `k` times 128 to the `k`.
pub open spec fn varint_value(bytes: Seq<u8>) -> nat
    decreases bytes.len(),
{
    if bytes.len() == 0 {
        0
    } else {
        (bytes[0] % 128) as nat + 128 * varint_value(bytes.skip(1))
    }
}

/// The value decoded at `offset`: the bytes taken there, read as a varint and
/// reduced to 64 bits. Nothing is taken outside the data, and the value is 0.
pub open spec fn decoded_value(data: Seq<u8>, offset: int) -> nat {
    if 0 <= offset < data.len() {
        varint_value(data.subrange(offset, offset + varint_len(data, offset))) % two_64()
    } else {
        0
    }
}

/// 128 to the `k`.
pub open spec fn pow128(k: nat) -> nat
    decreases k,
{
    if k == 0 {
        1
    } else {
        128 * pow128((k - 1) as nat)
    }
}

/// Appending a byte to a varint adds its low seven bits at the next place.
pub proof fn lemma_varint_value_push(bytes: Seq<u8>, b: u8)
    ensures
        varint_value(bytes.push(b)) == varint_value(bytes) + (b % 128) as nat * pow128(bytes.len()),
    decreases bytes.len(),
{
    let low = (b % 128) as nat;
    let longer = bytes.push(b);
    if bytes.len() == 0 {
        assert(longer.skip(1) =~= Seq::<u8>::empty());
        assert(varint_value(longer.skip(1)) == 0);
        assert(pow128(0) == 1);
        assert(low * 1 == low);
    } else {
        let rest = bytes.skip(1);
        let place = pow128(rest.len());
        let tail = varint_value(rest);
        assert(longer.skip(1) =~= rest.push(b));
        assert(longer[0] == bytes[0]);
        lemma_varint_value_push(rest, b);
        assert(varint_value(longer.skip(1)) == tail + low * place);
        assert(pow128(bytes.len()) == 128 * place);
        assert(128 * (tail + low * place) == 128 * tail + low * (128 * place))
            by (nonlinear_arith);
        assert(varint_value(longer) == (bytes[0] % 128) as nat + 128 * (tail + low * place));
        assert(varint_value(bytes) == (bytes[0] % 128) as nat + 128 * tail);
    }
}

/// The bytes taken at `offset` never reach past the end of the data.
pub proof fn lemma_varint_len_bound(data: Seq<u8>, offset: int)
    requires
        0 <= offset <= data.len(),
    ensures
        offset + varint_len(data, offset) <= data.len(),
        offset < data.len() ==> varint_len(data, offset) >= 1,
    decreases data.len() - offset,
{
    if offset < data.len() && data[offset] >= 128 {
        lemma_varint_len_bound(data, offset + 1);
    }
}

/// One step of the decoder in 64-bit arithmetic agrees with the unbounded sum.
pub proof fn lemma_step_mod(acc: nat, low: nat, scale: nat)
    ensures
        ((acc % two_64()) + ((low * (scale % two_64())) % two_64())) % two_64() == (acc + low
            * scale) % two_64(),
{
    let m = two_64() as int;
    lemma_mul_mod_noop_right(low as int, scale as int, m);
    lemma_add_mod_noop(acc as int, (low * scale) as int, m);
}

/// Scaling by 128 commutes with reduction to 64 bits.
pub proof fn lemma_scale_mod(scale: nat)
    ensures
        ((scale % two_64()) * 128) % two_64() == (128 * scale) % two_64(),
{
    let m = two_64() as int;
    lemma_mul_mod_noop_left(scale as int, 128, m);
    assert(scale * 128 == 128 * scale) by (nonlinear_arith);
}

/// The number of binary digits of `v`; 0 has none.
pub open spec fn bit_length(v: nat) -> nat
    decreases v,
{
    if v == 0 {
        0
    } else {
        1 + bit_length(v / 2)
    }
}

/// Dropping seven binary digits divides by 128.
pub proof fn lemma_bit_length_step(v: nat)
    requires
        v >= 128,
    ensures
        bit_length(v) == 7 + bit_length(v / 128),
{
    reveal_with_fuel(bit_length, 8);
    assert(v / 2 / 2 / 2 / 2 / 2 / 2 / 2 == v / 128);
}

/// The encoding of `v` takes one byte for every seven binary digits of `v`,
/// rounded up, and one byte for 0.
pub proof fn lemma_encoded_len(v: nat)
    ensures
        encode_varint(v).len() == (if v == 0 {
            1
        } else {
            (bit_length(v) + 6) / 7
        }),
    decreases v,
{
    if v < 128 {
        reveal_with_fuel(bit_length, 9);
        assert(v > 0 ==> 1 <= bit_length(v) <= 7);
    } else {
        lemma_bit_length_step(v);
        lemma_encoded_len(v / 128);
    }
}

/// The shape of an encoding: it has at least one byte; every byte but the
/// last has the continuation bit set and the last has it clear; and the last
/// byte is not zero unless the number is, so that no group is there for
/// padding.
pub proof fn lemma_encoded_shape(v: nat)
    ensures
        encode_varint(v).len() >= 1,
        forall|i: int|
            0 <= i < encode_varint(v).len() - 1 ==> #[trigger] encode_varint(v)[i] >= 128,
        encode_varint(v).last() < 128,
        v >= 1 ==> encode_varint(v).last() != 0,
    decreases v,
{
    let e = encode_varint(v);
    if v >= 128 {
        let rest = encode_varint(v / 128);
        lemma_encoded_shape(v / 128);
        assert(e.len() == rest.len() + 1);
        assert(e[0] >= 128);
        assert forall|i: int| 0 <= i < e.len() - 1 implies #[trigger] e[i] >= 128 by {
            if i > 0 {
                assert(e[i] == rest[i - 1]);
            }
        }
        assert(e.last() == rest.last());
    }
}

/// The bytes of an encoding stand for the number that was encoded.
pub proof fn lemma_value_of_encoded(v: nat)
    ensures
        varint_value(encode_varint(v)) == v,
    decreases v,
{
    let e = encode_varint(v);
    if v < 128 {
        assert(e.skip(1) =~= Seq::<u8>::empty());
        assert(varint_value(e.skip(1)) == 0);
    } else {
        assert(e.skip(1) =~= encode_varint(v / 128));
        lemma_value_of_encoded(v / 128);
    }
}

/// A decoder that starts at an encoding takes exactly its bytes, whatever
/// stands before and behind it.
pub proof fn lemma_len_of_encoded(front: Seq<u8>, v: nat, rest: Seq<u8>)
    ensures
        varint_len(front + encode_varint(v) + rest, front.len() as int) == encode_varint(v).len(),
    decreases v,
{
    let e = encode_varint(v);
    let data = front + e + rest;
    assert(data[front.len() as int] == e[0]);
    if v >= 128 {
        let longer = front.push(e[0]);
        assert(longer + encode_varint(v / 128) + rest =~= data);
        lemma_len_of_encoded(longer, v / 128, rest);
    }
}

/// Decoding gives back what was encoded: for every 64-bit `v`, a decoder
/// that starts at the encoding of `v` returns `v` and stops right behind the
/// encoding.
pub proof fn lemma_varint_round_trip(front: Seq<u8>, v: u64, rest: Seq<u8>)
    ensures
        decoded_value(front + encode_varint(v as nat) + rest, front.len() as int) == v,
        varint_len(front + encode_varint(v as nat) + rest, front.len() as int) == encode_varint(
            v as nat,
        ).len(),
{
    let e = encode_varint(v as nat);
    let data = front + e + rest;
    lemma_len_of_encoded(front, v as nat, rest);
    lemma_value_of_encoded(v as nat);
    assert(data.subrange(front.len() as int, (front.len() + e.len()) as int) =~= e);
    assert(e.len() >= 1);
}

} // verus!
