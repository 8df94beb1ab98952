use vstd::prelude::*;
use vstd::utf8::encode_utf8;
use vstd::slice::slice_to_vec;
use crate::digest::{double_sha256, double_sha256_of};
use crate::error::MinerError;
use crate::hexcode::{hex_decode, hex_bytes, is_hex_text};

verus! {

/// Folds a branch into an accumulator: each entry in order replaces the
/// accumulator by the double hash of the accumulator followed by the entry.
pub open spec fn merkle_root_of(coinbase_hash: Seq<u8>, branch: Seq<Seq<u8>>) -> Seq<u8>
    decreases branch.len(),
{
    if branch.len() == 0 {
        coinbase_hash
    } else {
        double_sha256_of(merkle_root_of(coinbase_hash, branch.drop_last()) + branch.last())
    }
}

/// The byte strings held by a list of byte vectors.
pub open spec fn byte_lists(v: Seq<Vec<u8>>) -> Seq<Seq<u8>> {
    v.map_values(|b: Vec<u8>| b@)
}

/// The UTF-8 bytes of each text of a list.
pub open spec fn text_bytes(v: Seq<String>) -> Seq<Seq<u8>> {
    v.map_values(|s: String| encode_utf8(s@))
}

/// Every text is hex that decodes.
pub open spec fn all_hex_texts(v: Seq<Seq<u8>>) -> bool {
    forall|i: int| 0 <= i < v.len() ==> #[trigger] is_hex_text(v[i])
}

/// The bytes each hex text denotes.
pub open spec fn decoded_all(v: Seq<Seq<u8>>) -> Seq<Seq<u8>> {
    v.map_values(|t: Seq<u8>| hex_bytes(t))
}

/// Folds the coinbase hash with the branch hashes into the merkle root.
pub fn build_merkle_root(coinbase_hash: &[u8], branch: &Vec<Vec<u8>>) -> (r: Vec<u8>)
    ensures
        r@ == merkle_root_of(coinbase_hash@, byte_lists(branch@)),
{
    let mut acc: Vec<u8> = slice_to_vec(coinbase_hash);
    let mut i: usize = 0;
    while i < branch.len()
        invariant
            i <= branch@.len(),
            acc@ == merkle_root_of(coinbase_hash@, byte_lists(branch@).subrange(0, i as int)),
        decreases branch@.len() - i,
    {
        let mut combined = acc.clone();
        let mut k: usize = 0;
        let entry = &branch[i];
        while k < entry.len()
            invariant
                k <= entry@.len(),
                combined@ == acc@ + entry@.subrange(0, k as int),
            decreases entry@.len() - k,
        {
            combined.push(entry[k]);
            k = k + 1;
            assert(combined@ =~= acc@ + entry@.subrange(0, k as int));
        }
        assert(entry@.subrange(0, entry@.len() as int) =~= entry@);
        acc = double_sha256(combined.as_slice());
        let ghost pre = byte_lists(branch@).subrange(0, i + 1);
        assert(pre.drop_last() =~= byte_lists(branch@).subrange(0, i as int));
        i = i + 1;
    }
    assert(byte_lists(branch@).subrange(0, branch@.len() as int) =~= byte_lists(branch@));
    acc
}

/// Decodes each hex text of a merkle branch.
pub fn decode_branch(branch: &Vec<String>) -> (r: Result<Vec<Vec<u8>>, MinerError>)
    ensures
        r is Ok <==> all_hex_texts(text_bytes(branch@)),
        r is Ok ==> byte_lists(r->Ok_0@) == decoded_all(text_bytes(branch@)),
        r is Err ==> r->Err_0 == MinerError::Decode,
{
    let mut out: Vec<Vec<u8>> = Vec::new();
    let mut i: usize = 0;
    while i < branch.len()
        invariant
            i <= branch@.len(),
            out@.len() == i,
            forall|j: int| 0 <= j < i ==> #[trigger] is_hex_text(text_bytes(branch@)[j]),
            forall|j: int| 0 <= j < i ==> #[trigger] out@[j]@ == hex_bytes(text_bytes(branch@)[j]),
        decreases branch@.len() - i,
    {
        let text = branch[i].as_str().as_bytes();
        assert(text@ == text_bytes(branch@)[i as int]);
        match hex_decode(text) {
            Ok(bytes) => {
                out.push(bytes);
                i = i + 1;
            },
            Err(_) => {
                assert(!is_hex_text(text_bytes(branch@)[i as int]));
                return Err(MinerError::Decode);
            },
        }
    }
    assert(byte_lists(out@) =~= decoded_all(text_bytes(branch@)));
    Ok(out)
}

/// An empty branch leaves the coinbase hash as the merkle root, and a branch
/// of one entry gives the double hash of the coinbase hash followed by it.
pub proof fn lemma_merkle_short_branches(coinbase_hash: Seq<u8>, entry: Seq<u8>)
    ensures
        merkle_root_of(coinbase_hash, Seq::empty()) == coinbase_hash,
        merkle_root_of(coinbase_hash, seq![entry]) == double_sha256_of(coinbase_hash + entry),
{
    assert(seq![entry].drop_last() =~= Seq::<Seq<u8>>::empty());
    assert(merkle_root_of(coinbase_hash, Seq::empty()) == coinbase_hash);
    assert(seq![entry].last() == entry);
}

} // verus!
