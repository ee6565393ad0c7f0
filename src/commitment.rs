use vstd::prelude::*;
use crate::rpscore::Weapon;

verus! {

/// The 32-byte Blake2b digest of a byte string.
pub uninterp spec fn blake2_256_of(data: Seq<u8>) -> [u8; 32];

/// Relies on sp_core's `Blake2Hasher::hash` (Blake2b with a 32-byte output):
/// the digest depends on the input bytes alone.
#[verifier::external_body]
pub(crate) fn blake2_256(data: &[u8]) -> (r: [u8; 32])
    ensures
        r == blake2_256_of(data@),
{
    <sp_core::Blake2Hasher as sp_core::Hasher>::hash(data).0
}

/// The bytes that are hashed to commit `weapon` to `slot`: a copy of `salt`
/// whose byte 30 holds the slot and byte 31 the weapon's code.
pub open spec fn commitment_preimage(salt: Seq<u8>, slot: u8, weapon: Weapon) -> Seq<u8> {
    salt.update(30, slot).update(31, weapon.spec_code())
}

/// The commitment to `weapon` at `slot` under `salt`: the preimage hashed,
/// and the 32-byte digest hashed once more.
pub open spec fn commitment(salt: Seq<u8>, slot: u8, weapon: Weapon) -> [u8; 32] {
    blake2_256_of(blake2_256_of(commitment_preimage(salt, slot, weapon))@)
}

/// Whether `hash` is the commitment to `weapon` at `slot` under `salt`.
pub open spec fn verifies(hash: [u8; 32], salt: Seq<u8>, slot: u8, weapon: Weapon) -> bool {
    hash == commitment(salt, slot, weapon)
}

/// Whether two 32-byte values are equal.
pub fn bytes_equal(a: &[u8; 32], b: &[u8; 32]) -> (r: bool)
    ensures
        r == (a@ == b@),
{
    let mut i: usize = 0;
    while i < 32
        invariant
            0 <= i <= 32,
            forall|j: int| 0 <= j < i ==> a@[j] == b@[j],
        decreases 32 - i,
    {
        if a[i] != b[i] {
            return false;
        }
        i = i + 1;
    }
    assert(a@ =~= b@);
    true
}

/// Commits `weapon` to `slot` under `salt`.
pub fn commit(salt: &[u8; 32], slot: u8, weapon: &Weapon) -> (r: [u8; 32])
    ensures
        r == commitment(salt@, slot, *weapon),
{
    let mut choice_value: [u8; 32] = *salt;
    choice_value[30] = slot;
    choice_value[31] = weapon.code();
    assert(choice_value@ =~= commitment_preimage(salt@, slot, *weapon));
    let choice_hashed = blake2_256(&choice_value);
    blake2_256(&choice_hashed)
}

/// Whether `hash` is the commitment to `weapon` at `slot` under `salt`.
pub fn verify(hash: &[u8; 32], salt: &[u8; 32], slot: u8, weapon: &Weapon) -> (r: bool)
    ensures
        r == verifies(*hash, salt@, slot, *weapon),
{
    let expected = commit(salt, slot, weapon);
    let r = bytes_equal(hash, &expected);
    assert(r == (*hash == expected)) by {
        if hash@ == expected@ {
            assert(*hash =~= expected);
        }
    }
    r
}

/// A commitment verifies against the salt, slot and weapon it was made from.
pub proof fn lemma_commit_round_trip(salt: [u8; 32], slot: u8, weapon: Weapon)
    ensures
        verifies(commitment(salt@, slot, weapon), salt@, slot, weapon),
{
}

/// Changing the slot, the weapon, or any salt byte but the last two changes
/// the bytes that are hashed; so a commitment binds all three, as far as the
/// hash has no collisions. (Bytes 30 and 31 of the salt are overwritten and
/// bind nothing.)
pub proof fn lemma_commitment_preimage_binds(
    salt1: [u8; 32],
    slot1: u8,
    weapon1: Weapon,
    salt2: [u8; 32],
    slot2: u8,
    weapon2: Weapon,
)
    requires
        salt1@.subrange(0, 30) != salt2@.subrange(0, 30) || slot1 != slot2 || weapon1 != weapon2,
    ensures
        commitment_preimage(salt1@, slot1, weapon1) != commitment_preimage(salt2@, slot2, weapon2),
{
    let pre_a = commitment_preimage(salt1@, slot1, weapon1);
    let pre_b = commitment_preimage(salt2@, slot2, weapon2);
    if salt1@.subrange(0, 30) != salt2@.subrange(0, 30) {
        let j = choose|j: int| 0 <= j < 30 && salt1@[j] != salt2@[j];
        if !(exists|j: int| 0 <= j < 30 && salt1@[j] != salt2@[j]) {
            assert(salt1@.subrange(0, 30) =~= salt2@.subrange(0, 30));
        }
        assert(pre_a[j] != pre_b[j]);
    } else if slot1 != slot2 {
        assert(pre_a[30] != pre_b[30]);
    } else {
        assert(pre_a[31] != pre_b[31]);
    }
}

} // verus!
