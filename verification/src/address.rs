//! Address "encryption": a destination is the source plus a key, octet by octet.
//!
//! For IPv4 the octets are added and subtracted modulo 256; for IPv6 they
//! are combined with exclusive or.

use vstd::prelude::*;

verus! {

/// The octet `(a + b) mod 256`.
pub open spec fn add_octet(a: u8, b: u8) -> u8 {
    ((a + b) % 256) as u8
}

/// The octet `(a - b) mod 256`.
pub open spec fn sub_octet(a: u8, b: u8) -> u8 {
    ((a - b + 256) % 256) as u8
}

/// The destination address of a packet sent from `from` with `key`:
/// each octet is the sum of the two octets, wrapping around at 256.
pub fn produce_dest(from: [u8; 4], key: [u8; 4]) -> (dest: [u8; 4])
    ensures
        forall|i: int| 0 <= i < 4 ==> #[trigger] dest@[i] == add_octet(from@[i], key@[i]),
        forall|i: int|
            0 <= i < 4 ==> #[trigger] dest@[i] as int == (from@[i] as int + key@[i] as int) % 256,
{
    proof {
        lemma_add_octet_is_sum_mod_256();
    }
    let mut dest: [u8; 4] = [0u8; 4];
    for i in 0..4usize
        invariant
            forall|j: int| 0 <= j < i ==> #[trigger] dest@[j] == add_octet(from@[j], key@[j]),
    {
        dest[i] = from[i].wrapping_add(key[i]);
    }
    dest
}

/// The key with which `from` was turned into `to`: each octet is the
/// difference of the two octets, wrapping around at 256.
pub fn recover_key(from: [u8; 4], to: [u8; 4]) -> (key: [u8; 4])
    ensures
        forall|i: int| 0 <= i < 4 ==> #[trigger] key@[i] == sub_octet(to@[i], from@[i]),
        forall|i: int|
            0 <= i < 4 ==> #[trigger] key@[i] as int == (to@[i] as int - from@[i] as int + 256) % 256,
        forall|i: int|
            0 <= i < 4 ==> (from@[i] as int + #[trigger] key@[i] as int) % 256 == to@[i] as int,
{
    proof {
        lemma_sub_octet_is_difference_mod_256();
    }
    let mut key: [u8; 4] = [0u8; 4];
    for i in 0..4usize
        invariant
            forall|j: int| 0 <= j < i ==> #[trigger] key@[j] == sub_octet(to@[j], from@[j]),
    {
        key[i] = to[i].wrapping_sub(from[i]);
    }
    key
}

/// The IPv6 destination: each octet of `from` exclusive-or the octet of `key`.
pub fn produce_dest_v6(from: [u8; 16], key: [u8; 16]) -> (dest: [u8; 16])
    ensures
        forall|i: int| 0 <= i < 16 ==> #[trigger] dest@[i] == from@[i] ^ key@[i],
{
    let mut dest: [u8; 16] = [0u8; 16];
    for i in 0..16usize
        invariant
            forall|j: int| 0 <= j < i ==> #[trigger] dest@[j] == from@[j] ^ key@[j],
    {
        dest[i] = from[i] ^ key[i];
    }
    dest
}

/// The IPv6 key that turns `from` into `to`: each octet of `from`
/// exclusive-or the octet of `to`.
pub fn recover_key_v6(from: [u8; 16], to: [u8; 16]) -> (key: [u8; 16])
    ensures
        forall|i: int| 0 <= i < 16 ==> #[trigger] key@[i] == from@[i] ^ to@[i],
{
    let mut key: [u8; 16] = [0u8; 16];
    for i in 0..16usize
        invariant
            forall|j: int| 0 <= j < i ==> #[trigger] key@[j] == from@[j] ^ to@[j],
    {
        key[i] = from[i] ^ to[i];
    }
    key
}

/// The key recovered from a source and the destination that the key
/// produced is that key: `recover_key(from, produce_dest(from, key)) == key`.
pub proof fn lemma_recover_key_undoes_dest(from: [u8; 4], key: [u8; 4])
    ensures
        forall|i: int|
            0 <= i < 4 ==> sub_octet(add_octet(from@[i], key@[i]), from@[i]) == #[trigger] key@[i],
{
}

/// Sending from `from` with the key recovered for `to` arrives at `to`:
/// `produce_dest(from, recover_key(from, to)) == to`.
pub proof fn lemma_dest_of_recovered_key(from: [u8; 4], to: [u8; 4])
    ensures
        forall|i: int|
            0 <= i < 4 ==> add_octet(from@[i], sub_octet(to@[i], from@[i])) == #[trigger] to@[i],
{
}

/// For IPv6 the recovered key is the key: `(f ^ k) ^ f == k` octet by octet.
pub proof fn lemma_recover_key_v6_undoes_dest(from: [u8; 16], key: [u8; 16])
    ensures
        forall|i: int| 0 <= i < 16 ==> ((from@[i] ^ key@[i]) ^ from@[i]) == #[trigger] key@[i],
{
    assert forall|i: int| 0 <= i < 16 implies ((from@[i] ^ key@[i]) ^ from@[i]) == #[trigger] key@[i] by {
        let f = from@[i];
        let k = key@[i];
        assert((f ^ k) ^ f == k) by (bit_vector);
    }
}

/// For IPv6, sending from `from` with the key recovered for `to` arrives at `to`.
pub proof fn lemma_dest_v6_of_recovered_key(from: [u8; 16], to: [u8; 16])
    ensures
        forall|i: int| 0 <= i < 16 ==> (from@[i] ^ (from@[i] ^ to@[i])) == #[trigger] to@[i],
{
    assert forall|i: int| 0 <= i < 16 implies (from@[i] ^ (from@[i] ^ to@[i])) == #[trigger] to@[i] by {
        let f = from@[i];
        let t = to@[i];
        assert(f ^ (f ^ t) == t) by (bit_vector);
    }
}

/// An IPv4 destination octet is the sum of the source and key octets,
/// taken modulo 256.
pub proof fn lemma_add_octet_is_sum_mod_256()
    ensures
        forall|a: u8, b: u8| #[trigger] add_octet(a, b) as int == (a as int + b as int) % 256,
{
}

/// An IPv4 key octet is the destination octet less the source octet,
/// taken modulo 256, and adding it back to the source gives the destination.
pub proof fn lemma_sub_octet_is_difference_mod_256()
    ensures
        forall|t: u8, f: u8| #[trigger] sub_octet(t, f) as int == (t as int - f as int + 256) % 256,
        forall|t: u8, f: u8| (f as int + #[trigger] sub_octet(t, f) as int) % 256 == t as int,
{
}

} // verus!
