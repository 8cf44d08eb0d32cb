//! Fields of the wire format: variable-length integers, keys, and
//! length-delimited payloads.

use prost::encoding::{DecodeContext, WireType};
use vstd::prelude::*;

verus! {

/// The wire type of a variable-length integer.
pub const WIRE_VARINT: u8 = 0;

/// The wire type of eight raw bytes.
pub const WIRE_FIXED64: u8 = 1;

/// The wire type of a payload behind its length.
pub const WIRE_BYTES: u8 = 2;

/// The wire type that opens a group.
pub const WIRE_GROUP: u8 = 3;

/// The wire type that closes a group.
pub const WIRE_GROUP_END: u8 = 4;

/// The wire type of four raw bytes.
pub const WIRE_FIXED32: u8 = 5;

/// A number in groups of seven bits, least significant first; every byte but the
/// last has its high bit set.
pub open spec fn varint(number: nat) -> Seq<u8>
    decreases number,
{
    if number < 128 {
        seq![number as u8]
    } else {
        seq![(number % 128 + 128) as u8] + varint(number / 128)
    }
}

/// Reads a number from the front of `bytes`, of which `count` bytes came before:
/// the number and how many bytes it takes. A number takes at most ten bytes and
/// fits 64 bits.
pub open spec fn varint_tail(bytes: Seq<u8>, count: nat) -> Option<(nat, nat)>
    decreases 10 - count,
{
    if count >= 10 || bytes.len() == 0 {
        None
    } else if bytes[0] < 128 {
        if count == 9 && bytes[0] >= 2 {
            None
        } else {
            Some((bytes[0] as nat, 1nat))
        }
    } else {
        match varint_tail(bytes.drop_first(), count + 1) {
            Some((rest, length)) => Some(((bytes[0] - 128 + 128 * rest) as nat, length + 1)),
            None => None,
        }
    }
}

/// Reads a number from the front of `bytes`.
pub open spec fn varint_prefix(bytes: Seq<u8>) -> Option<(nat, nat)> {
    varint_tail(bytes, 0)
}

/// Reads a field key: the field number, the wire type, and the length of the key.
pub open spec fn key_prefix(bytes: Seq<u8>) -> Option<(nat, nat, nat)> {
    match varint_prefix(bytes) {
        Some((key, length)) => if key <= u32::MAX && key % 8 <= 5 && key / 8 >= 1 {
            Some((key / 8, key % 8, length))
        } else {
            None
        },
        None => None,
    }
}

/// Reads a payload behind its length: the payload and how many bytes both take.
pub open spec fn payload_prefix(bytes: Seq<u8>) -> Option<(Seq<u8>, nat)> {
    match varint_prefix(bytes) {
        Some((size, length)) => if length + size <= bytes.len() {
            Some((bytes.subrange(length as int, (length + size) as int), length + size))
        } else {
            None
        },
        None => None,
    }
}

/// How deep the value of a field may be nested in groups when nothing encloses it.
pub const GROUP_DEPTH: usize = 100;

/// How many bytes the value of a field takes, whatever it means. `depth` is how many
/// values may still be nested in each other, this one included.
pub open spec fn value_length(field: nat, wire: nat, bytes: Seq<u8>, depth: nat) -> Option<nat>
    decreases depth, bytes.len(), 1nat,
{
    if depth == 0 {
        None
    } else if wire == WIRE_VARINT {
        match varint_prefix(bytes) {
            Some((_, length)) => Some(length),
            None => None,
        }
    } else if wire == WIRE_FIXED64 {
        if bytes.len() >= 8 {
            Some(8nat)
        } else {
            None
        }
    } else if wire == WIRE_BYTES {
        match payload_prefix(bytes) {
            Some((_, length)) => Some(length),
            None => None,
        }
    } else if wire == WIRE_GROUP {
        group_length(field, bytes, depth)
    } else if wire == WIRE_FIXED32 {
        if bytes.len() >= 4 {
            Some(4nat)
        } else {
            None
        }
    } else {
        None
    }
}

/// How many bytes a group takes behind the key that opened it: fields, each behind its
/// key, up to the key that closes a group with the same field number.
pub open spec fn group_length(field: nat, bytes: Seq<u8>, depth: nat) -> Option<nat>
    decreases depth, bytes.len(), 0nat,
{
    match key_prefix(bytes) {
        Some((inner, wire, length)) => if wire == WIRE_GROUP_END {
            if inner == field {
                Some(length)
            } else {
                None
            }
        } else if depth == 0 {
            None
        } else {
            match value_length(inner, wire, bytes.skip(length as int), (depth - 1) as nat) {
                Some(used) => if 1 <= length && length + used <= bytes.len() {
                    match group_length(field, bytes.skip((length + used) as int), depth) {
                        Some(rest) => Some(length + used + rest),
                        None => None,
                    }
                } else {
                    None
                },
                None => None,
            }
        },
        None => None,
    }
}

/// `prost::encoding::encode_varint` appends a number in its variable-length form.
#[verifier::external_body]
pub(crate) fn put_varint(number: u64, target: &mut Vec<u8>)
    ensures
        final(target)@ == old(target)@ + varint(number as nat),
{
    prost::encoding::encode_varint(number, target)
}

/// `prost::encoding::decode_varint` reads a number from the front of a buffer and
/// advances it; it fails where the bytes end early, where the number takes more
/// than ten bytes, and where it does not fit 64 bits.
#[verifier::external_body]
pub(crate) fn take_varint(bytes: &[u8]) -> (result: Option<(u64, &[u8])>)
    ensures
        match result {
            Some((number, rest)) => {
                &&& varint_prefix(bytes@) matches Some((n, length))
                &&& n == number
                &&& length <= bytes@.len()
                &&& rest@ == bytes@.skip(length as int)
            },
            None => varint_prefix(bytes@) is None,
        },
{
    let mut rest = bytes;
    match prost::encoding::decode_varint(&mut rest) {
        Ok(number) => Some((number, rest)),
        Err(_) => None,
    }
}

/// `prost::encoding::skip_field` advances a buffer over the value of a field: over
/// a number, over four or eight bytes, over a payload behind its length, or over
/// the fields of a group up to the key that closes it. It fails where the buffer ends
/// early, at a key that closes no group or another one, and where groups are nested
/// deeper than a decoding that starts with a fresh context allows.
#[verifier::external_body]
pub(crate) fn skip_value(field: u32, wire: u8, bytes: &[u8]) -> (result: Option<&[u8]>)
    requires
        wire <= 5,
    ensures
        match result {
            Some(rest) => {
                &&& value_length(field as nat, wire as nat, bytes@, GROUP_DEPTH as nat) matches Some(
                    length,
                )
                &&& length <= bytes@.len()
                &&& rest@ == bytes@.skip(length as int)
            },
            None => value_length(field as nat, wire as nat, bytes@, GROUP_DEPTH as nat) is None,
        },
{
    let mut rest = bytes;
    let wire_type = WireType::try_from(u64::from(wire)).ok()?;
    match prost::encoding::skip_field(wire_type, field, &mut rest, DecodeContext::default()) {
        Ok(()) => Some(rest),
        Err(_) => None,
    }
}

/// The largest number, plus one, that fits behind `count` bytes.
spec fn varint_bound(count: nat) -> nat {
    if count == 0 {
        0x10000000000000000
    } else if count == 1 {
        0x200000000000000
    } else if count == 2 {
        0x4000000000000
    } else if count == 3 {
        0x80000000000
    } else if count == 4 {
        0x1000000000
    } else if count == 5 {
        0x20000000
    } else if count == 6 {
        0x400000
    } else if count == 7 {
        0x8000
    } else if count == 8 {
        0x100
    } else {
        2
    }
}

proof fn lemma_varint_tail(number: nat, count: nat, rest: Seq<u8>)
    requires
        count < 10,
        number < varint_bound(count),
    ensures
        varint_tail(varint(number) + rest, count) == Some((number, varint(number).len())),
    decreases number,
{
    let bytes = varint(number) + rest;
    if number < 128 {
        assert(bytes[0] == number as u8);
    } else {
        assert(bytes[0] == (number % 128 + 128) as u8);
        assert(bytes.drop_first() =~= varint(number / 128) + rest);
        lemma_varint_tail(number / 128, count + 1, rest);
    }
}

/// A number reads back from its variable-length form, whatever follows it.
pub proof fn law_varint_round_trip(number: nat, rest: Seq<u8>)
    requires
        number <= u64::MAX,
    ensures
        varint_prefix(varint(number) + rest) == Some((number, varint(number).len())),
{
    lemma_varint_tail(number, 0, rest);
}

pub proof fn lemma_varint_nonempty(number: nat)
    ensures
        varint(number).len() >= 1,
    decreases number,
{
}

/// A number that was read lies within the bytes and takes at least one.
pub proof fn lemma_varint_tail_length(bytes: Seq<u8>, count: nat)
    ensures
        varint_tail(bytes, count) matches Some((_, length)) ==> 1 <= length <= bytes.len(),
    decreases 10 - count,
{
    if count < 10 && bytes.len() > 0 && bytes[0] >= 128 {
        lemma_varint_tail_length(bytes.drop_first(), count + 1);
    }
}

/// A key that was read lies within the bytes and takes at least one.
pub proof fn lemma_key_length(bytes: Seq<u8>)
    ensures
        key_prefix(bytes) matches Some((_, _, length)) ==> 1 <= length <= bytes.len(),
{
    lemma_varint_tail_length(bytes, 0);
}

/// Two byte strings start alike.
pub open spec fn agree(left: Seq<u8>, right: Seq<u8>, count: nat) -> bool {
    &&& count <= left.len()
    &&& count <= right.len()
    &&& forall|i: int| 0 <= i < count ==> left[i] == right[i]
}

/// What is read of a number depends on the bytes of the number alone.
proof fn lemma_varint_tail_agrees(left: Seq<u8>, right: Seq<u8>, count: nat)
    requires
        varint_tail(left, count) matches Some((_, length)) && agree(left, right, length),
    ensures
        varint_tail(right, count) == varint_tail(left, count),
    decreases 10 - count,
{
    lemma_varint_tail_length(left, count);
    assert(left[0] == right[0]);
    if left[0] >= 128 {
        let length = varint_tail(left, count)->Some_0.1;
        let left_rest = left.drop_first();
        let right_rest = right.drop_first();
        assert forall|i: int| 0 <= i < length - 1 implies left_rest[i] == right_rest[i] by {
            assert(left[i + 1] == right[i + 1]);
        }
        lemma_varint_tail_agrees(left_rest, right_rest, count + 1);
    }
}

/// The value of a field lies within the bytes.
pub proof fn lemma_value_length(field: nat, wire: nat, bytes: Seq<u8>, depth: nat)
    ensures
        value_length(field, wire, bytes, depth) matches Some(length) ==> length <= bytes.len(),
    decreases depth, bytes.len(), 1nat,
{
    lemma_varint_tail_length(bytes, 0);
    if depth > 0 && wire == WIRE_GROUP {
        lemma_group_length(field, bytes, depth);
    }
}

proof fn lemma_group_length(field: nat, bytes: Seq<u8>, depth: nat)
    ensures
        group_length(field, bytes, depth) matches Some(length) ==> length <= bytes.len(),
    decreases depth, bytes.len(), 0nat,
{
    lemma_key_length(bytes);
    if let Some((inner, wire, length)) = key_prefix(bytes) {
        if wire != WIRE_GROUP_END && depth > 0 {
            let used = value_length(inner, wire, bytes.skip(length as int), (depth - 1) as nat);
            if let Some(used) = used {
                if length + used <= bytes.len() {
                    lemma_group_length(field, bytes.skip((length + used) as int), depth);
                }
            }
        }
    }
}

/// How long a value is depends on the bytes of the value alone, and not on how much
/// deeper it might have been nested.
pub proof fn lemma_value_agrees(
    field: nat,
    wire: nat,
    left: Seq<u8>,
    right: Seq<u8>,
    depth: nat,
    deeper: nat,
)
    requires
        value_length(field, wire, left, depth) matches Some(length) && agree(left, right, length),
        depth <= deeper,
    ensures
        value_length(field, wire, right, deeper) == value_length(field, wire, left, depth),
    decreases depth, left.len(), 1nat,
{
    if wire == WIRE_VARINT || wire == WIRE_BYTES {
        lemma_varint_tail_length(left, 0);
        lemma_varint_tail_agrees(left, right, 0);
    }
    if wire == WIRE_GROUP {
        lemma_group_agrees(field, left, right, depth, deeper);
    }
}

proof fn lemma_group_agrees(
    field: nat,
    left: Seq<u8>,
    right: Seq<u8>,
    depth: nat,
    deeper: nat,
)
    requires
        group_length(field, left, depth) matches Some(length) && agree(left, right, length),
        depth <= deeper,
    ensures
        group_length(field, right, deeper) == group_length(field, left, depth),
    decreases depth, left.len(), 0nat,
{
    let total = group_length(field, left, depth)->Some_0;
    let (inner, wire, length) = key_prefix(left)->Some_0;
    lemma_key_length(left);
    lemma_varint_tail_agrees(left, right, 0);
    assert(key_prefix(right) == key_prefix(left));
    if wire != WIRE_GROUP_END {
        let left_value = left.skip(length as int);
        let right_value = right.skip(length as int);
        let used = value_length(inner, wire, left_value, (depth - 1) as nat)->Some_0;
        let left_rest = left.skip((length + used) as int);
        let right_rest = right.skip((length + used) as int);
        let rest = group_length(field, left_rest, depth)->Some_0;
        assert(total == length + used + rest);
        assert forall|i: int| 0 <= i < used implies left_value[i] == right_value[i] by {
            assert(left[i + length] == right[i + length]);
        }
        assert forall|i: int| 0 <= i < rest implies left_rest[i] == right_rest[i] by {
            assert(left[i + length + used] == right[i + length + used]);
        }
        lemma_group_length(field, left_rest, depth);
        lemma_value_agrees(
            inner,
            wire,
            left_value,
            right_value,
            (depth - 1) as nat,
            (deeper - 1) as nat,
        );
        lemma_group_agrees(field, left_rest, right_rest, depth, deeper);
    }
}

/// The key of a field.
pub open spec fn key(field: nat, wire: nat) -> Seq<u8> {
    varint(field * 8 + wire)
}

pub proof fn lemma_key_round_trip(field: nat, wire: nat, rest: Seq<u8>)
    requires
        1 <= field < 0x20000000,
        wire <= 5,
    ensures
        key_prefix(key(field, wire) + rest) == Some((field, wire, key(field, wire).len())),
        1 <= key(field, wire).len(),
{
    law_varint_round_trip(field * 8 + wire, rest);
    lemma_varint_nonempty(field * 8 + wire);
}

/// Small numbers take few bytes.
pub proof fn lemma_varint_is_short(number: nat)
    ensures
        number < 128 ==> varint(number).len() == 1,
        number < 0x4000 ==> varint(number).len() <= 2,
        number < 0x200000 ==> varint(number).len() <= 3,
{
    reveal_with_fuel(varint, 3);
}

/// A payload behind its length.
pub open spec fn delimited(payload: Seq<u8>) -> Seq<u8> {
    varint(payload.len()) + payload
}

/// A payload reads back from behind its length, whatever follows it.
pub proof fn law_payload_round_trip(payload: Seq<u8>, rest: Seq<u8>)
    requires
        payload.len() <= u64::MAX,
    ensures
        payload_prefix(delimited(payload) + rest) == Some((payload, delimited(payload).len())),
{
    law_varint_round_trip(payload.len(), payload + rest);
    let bytes = delimited(payload) + rest;
    let length = varint(payload.len()).len();
    assert(bytes =~= varint(payload.len()) + (payload + rest));
    assert(bytes.subrange(length as int, (length + payload.len()) as int) =~= payload);
}

/// Reads a key from the front of `bytes`: the field number, the wire type, and
/// what follows.
pub(crate) fn take_key(bytes: &[u8]) -> (result: Option<(u32, u8, &[u8])>)
    ensures
        match result {
            Some((field, wire, rest)) => {
                &&& key_prefix(bytes@) matches Some((f, w, length))
                &&& f == field
                &&& w == wire
                &&& wire <= 5
                &&& 1 <= field < 0x20000000
                &&& 1 <= length <= bytes@.len()
                &&& rest@ == bytes@.skip(length as int)
            },
            None => key_prefix(bytes@) is None,
        },
{
    proof {
        lemma_key_length(bytes@);
    }
    match take_varint(bytes) {
        Some((number, rest)) => {
            if number > 0xffff_ffff {
                return None;
            }
            let wire: u8 = (number % 8) as u8;
            let field: u32 = (number / 8) as u32;
            if wire > 5 || field < 1 {
                return None;
            }
            Some((field, wire, rest))
        },
        None => None,
    }
}

/// Reads a payload behind its length: the payload and what follows.
pub(crate) fn take_payload(bytes: &[u8]) -> (result: Option<(&[u8], &[u8])>)
    ensures
        match result {
            Some((payload, rest)) => {
                &&& payload_prefix(bytes@) matches Some((p, length))
                &&& p == payload@
                &&& 1 <= length <= bytes@.len()
                &&& payload@.len() < length
                &&& rest@ == bytes@.skip(length as int)
            },
            None => payload_prefix(bytes@) is None,
        },
{
    proof {
        lemma_varint_tail_length(bytes@, 0);
    }
    match take_varint(bytes) {
        Some((size, rest)) => {
            if size > rest.len() as u64 {
                return None;
            }
            let (payload, after) = rest.split_at(size as usize);
            proof {
                let length = varint_prefix(bytes@)->Some_0.1;
                assert(payload@ =~= bytes@.subrange(length as int, (length + size) as int));
                assert(after@ =~= bytes@.skip((length + size) as int));
            }
            Some((payload, after))
        },
        None => None,
    }
}

/// The number that carries a signed 32-bit value: its two's complement in 64 bits.
pub open spec fn signed_number(value: i32) -> nat {
    if value >= 0 {
        value as nat
    } else {
        (0x10000000000000000 + value) as nat
    }
}

/// The signed 32-bit value in the low bits of a number.
pub open spec fn low_signed(number: nat) -> i32 {
    let low = number % 0x100000000;
    if low < 0x80000000 {
        low as i32
    } else {
        (low - 0x100000000) as i32
    }
}

/// The unsigned 32-bit value in the low bits of a number.
pub open spec fn low_unsigned(number: nat) -> u32 {
    (number % 0x100000000) as u32
}

pub proof fn lemma_signed_round_trip(value: i32)
    ensures
        low_signed(signed_number(value)) == value,
        signed_number(value) <= u64::MAX,
{
}

pub(crate) fn signed_number_of(value: i32) -> (number: u64)
    ensures
        number == signed_number(value),
{
    if value >= 0 {
        value as u64
    } else {
        let wide: i64 = value as i64;
        let distance: u64 = (-(wide + 1)) as u64;
        0xffff_ffff_ffff_ffff - distance
    }
}

pub(crate) fn low_signed_of(number: u64) -> (value: i32)
    ensures
        value == low_signed(number as nat),
{
    let low: u64 = number % 0x1_0000_0000;
    if low < 0x8000_0000 {
        low as i32
    } else {
        (low as i64 - 0x1_0000_0000) as i32
    }
}

pub(crate) fn low_unsigned_of(number: u64) -> (value: u32)
    ensures
        value == low_unsigned(number as nat),
{
    (number % 0x1_0000_0000) as u32
}

} // verus!
