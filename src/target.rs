use vstd::prelude::*;
use vstd::string::StringSliceAdditionalSpecFns;
use crate::error::MinerError;
use crate::hexcode::{hex_decode, hex_bytes, is_hex_text};

verus! {

/// The 32-byte big-endian target of a compact encoding with an exponent in
/// `3..=32`: the three mantissa bytes stand at offset `32 - e`, all else is 0.
pub open spec fn compact_target(bits: Seq<u8>) -> Seq<u8> {
    let start = 32 - bits[0] as int;
    Seq::new(
        32,
        |i: int|
            if start <= i < start + 3 {
                bits[1 + i - start]
            } else {
                0u8
            },
    )
}

/// Whether an exponent can be placed in a 32-byte target.
pub open spec fn exponent_in_range(e: u8) -> bool {
    3 <= e && e <= 32
}

/// `a <= b` for equal-length big-endian byte strings, compared
/// most-significant byte first.
pub open spec fn bytes_le(a: Seq<u8>, b: Seq<u8>) -> bool {
    a == b || exists|k: int|
        0 <= k < a.len() && a[k] < b[k] && (forall|j: int| 0 <= j < k ==> a[j] == b[j])
}

/// Whether a digest satisfies a target: both are 32 bytes and the digest is
/// at most the target.
pub open spec fn meets_target(hash: Seq<u8>, target: Seq<u8>) -> bool {
    hash.len() == 32 && target.len() == 32 && bytes_le(hash, target)
}

/// Decodes a 4-byte compact target (exponent, then 3 mantissa bytes) into a
/// 32-byte big-endian target.
pub fn target_from_compact(bits: &[u8]) -> (r: Result<Vec<u8>, MinerError>)
    requires
        bits@.len() == 4,
    ensures
        r is Ok <==> exponent_in_range(bits@[0]),
        r is Ok ==> r->Ok_0@ == compact_target(bits@),
        r is Err ==> r->Err_0 == MinerError::InvalidTarget,
{
    let exponent = bits[0];
    if exponent < 3 || exponent > 32 {
        return Err(MinerError::InvalidTarget);
    }
    let mut target: Vec<u8> = Vec::new();
    let start: usize = 32 - exponent as usize;
    let mut i: usize = 0;
    while i < 32
        invariant
            i <= 32,
            bits@.len() == 4,
            start == 32 - bits@[0] as int,
            3 <= bits@[0] <= 32,
            target@ == compact_target(bits@).subrange(0, i as int),
        decreases 32 - i,
    {
        if start <= i && i < start + 3 {
            target.push(bits[1 + i - start]);
        } else {
            target.push(0u8);
        }
        i = i + 1;
        assert(target@ =~= compact_target(bits@).subrange(0, i as int));
    }
    assert(target@ =~= compact_target(bits@));
    Ok(target)
}

/// Decodes the pool's `nbits` field: 8 hex digits holding a compact target.
pub fn calculate_target(nbits: &str) -> (r: Result<Vec<u8>, MinerError>)
    ensures
        ({
            let t = nbits.spec_bytes();
            &&& r is Ok <==> (t.len() == 8 && is_hex_text(t) && exponent_in_range(hex_bytes(t)[0]))
            &&& (r is Err && r->Err_0 == MinerError::Decode) <==> !(t.len() == 8 && is_hex_text(t))
            &&& (r is Err && r->Err_0 == MinerError::InvalidTarget) <==> (t.len() == 8
                && is_hex_text(t) && !exponent_in_range(hex_bytes(t)[0]))
            &&& r is Ok ==> r->Ok_0@ == compact_target(hex_bytes(t))
        }),
{
    let text = nbits.as_bytes();
    if text.len() != 8 {
        return Err(MinerError::Decode);
    }
    match hex_decode(text) {
        Ok(bits) => target_from_compact(bits.as_slice()),
        Err(_) => Err(MinerError::Decode),
    }
}

/// Whether a 32-byte digest is at most a 32-byte target, compared
/// most-significant byte first; inputs of another length never meet.
pub fn hash_meets_target(hash: &[u8], target: &[u8]) -> (r: bool)
    ensures
        r == meets_target(hash@, target@),
{
    if hash.len() != 32 || target.len() != 32 {
        return false;
    }
    let mut i: usize = 0;
    while i < 32
        invariant
            i <= 32,
            hash@.len() == 32,
            target@.len() == 32,
            forall|j: int| 0 <= j < i ==> hash@[j] == target@[j],
        decreases 32 - i,
    {
        if hash[i] < target[i] {
            return true;
        }
        if hash[i] > target[i] {
            assert(hash@ != target@);
            assert forall|k: int|
                !(0 <= k < hash@.len() && hash@[k] < target@[k] && (forall|j: int|
                    0 <= j < k ==> hash@[j] == target@[j])) by {
                if 0 <= k < hash@.len() && hash@[k] < target@[k] && (forall|j: int|
                    0 <= j < k ==> hash@[j] == target@[j]) {
                    if k > i {
                        assert(hash@[i as int] == target@[i as int]);
                    }
                }
            }
            return false;
        }
        i = i + 1;
    }
    assert(hash@ =~= target@);
    true
}

} // verus!
