use vstd::prelude::*;
use vstd::string::StringSliceAdditionalSpecFns;
use vstd::utf8::{encode_utf8, is_ascii_chars, is_ascii_chars_encode_utf8};
use crate::digest::{double_sha256, double_sha256_of};
use crate::error::MinerError;
use crate::header::{all_hex_digits, encode_header, fields_fit, fits, header_text, push_all};
use crate::hexcode::{
    hex_bytes, hex_decode, hex_encode, hex_text, is_hex_digit, is_hex_text, lower_digit,
    lemma_reverse_pairs_reverses_bytes, reverse_hex_bytes, reversed_bytes,
};
use crate::job::MiningJob;
use crate::state::MiningConfig;
use crate::merkle::{
    all_hex_texts, build_merkle_root, decode_branch, decoded_all, merkle_root_of, text_bytes,
};
use crate::target::{
    calculate_target, compact_target, exponent_in_range, hash_meets_target, meets_target,
};

verus! {

/// Everything of a job that the nonce search reads: the header fields as hex
/// text, with the merkle root already folded and byte-reversed, and the
/// 32-byte target.
#[derive(Debug, Clone)]
pub struct HeaderTemplate {
    pub version: String,
    pub prevhash: String,
    pub merkle_root: String,
    pub nbits: String,
    pub ntime: String,
    pub target: Vec<u8>,
}

/// How a search over a run of nonces ended.
#[derive(Debug, Clone)]
pub enum SearchOutcome {
    /// The first nonce of the run whose header hash meets the target.
    Found { nonce: u32, hash: Vec<u8> },
    /// No nonce of the run meets the target.
    Exhausted,
}

/// The ASCII lower-case digit for a value below 16.
pub open spec fn ascii_digit(v: int) -> u8 {
    if v < 10 {
        (48 + v) as u8
    } else {
        (87 + v) as u8
    }
}

/// A nonce as 8 lower-case hex digits, most significant first.
pub open spec fn nonce_text(n: u32) -> Seq<u8> {
    seq![
        ascii_digit(n as int / 0x10000000 % 16),
        ascii_digit(n as int / 0x1000000 % 16),
        ascii_digit(n as int / 0x100000 % 16),
        ascii_digit(n as int / 0x10000 % 16),
        ascii_digit(n as int / 0x1000 % 16),
        ascii_digit(n as int / 0x100 % 16),
        ascii_digit(n as int / 0x10 % 16),
        ascii_digit(n as int % 16),
    ]
}

/// A nonce as 4 bytes, most significant first.
pub open spec fn be_bytes(n: u32) -> Seq<u8> {
    seq![
        (n / 0x1000000) as u8,
        (n / 0x10000 % 256) as u8,
        (n / 0x100 % 256) as u8,
        (n % 256) as u8,
    ]
}

proof fn lemma_digit_char(d: int)
    requires
        0 <= d < 16,
    ensures
        lower_digit(d) <= '\u{7f}',
        lower_digit(d) as u8 == ascii_digit(d),
{
}

/// The hex text of a nonce's bytes, as UTF-8, is the nonce text a header is
/// built with.
pub proof fn lemma_nonce_hex_is_nonce_text(n: u32)
    ensures
        encode_utf8(hex_text(be_bytes(n))) == nonce_text(n),
{
    let b = be_bytes(n);
    let h = hex_text(b);
    assert forall|i: int| 0 <= i < h.len() implies #[trigger] h[i] <= '\u{7f}' && h[i] as u8
        == nonce_text(n)[i] by {
        let v: int = if i % 2 == 0 {
            b[i / 2] as int / 16
        } else {
            b[i / 2] as int % 16
        };
        lemma_digit_char(v);
        assert(((n / 0x1000000) as u8) / 16 == (n / 0x10000000 % 16) as u8) by (bit_vector);
        assert(((n / 0x1000000) as u8) % 16 == (n / 0x1000000 % 16) as u8) by (bit_vector);
        assert(((n / 0x10000 % 256) as u8) / 16 == (n / 0x100000 % 16) as u8) by (bit_vector);
        assert(((n / 0x10000 % 256) as u8) % 16 == (n / 0x10000 % 16) as u8) by (bit_vector);
        assert(((n / 0x100 % 256) as u8) / 16 == (n / 0x1000 % 16) as u8) by (bit_vector);
        assert(((n / 0x100 % 256) as u8) % 16 == (n / 0x100 % 16) as u8) by (bit_vector);
        assert(((n % 256) as u8) / 16 == (n / 0x10 % 16) as u8) by (bit_vector);
        assert(((n % 256) as u8) % 16 == (n % 16) as u8) by (bit_vector);
    }
    assert(is_ascii_chars(h));
    is_ascii_chars_encode_utf8(h);
    assert(encode_utf8(h) =~= nonce_text(n));
}

/// A nonce that solves a template, written as the hex text that is
/// submitted, gives a header whose double hash meets the target.
pub proof fn lemma_submitted_nonce_meets(t: HeaderTemplate, n: u32)
    requires
        solves(t, n),
    ensures
        meets_target(
            double_sha256_of(
                hex_bytes(
                    header_text(
                        encode_utf8(t.version@),
                        encode_utf8(t.prevhash@),
                        encode_utf8(t.merkle_root@),
                        encode_utf8(t.nbits@),
                        encode_utf8(t.ntime@),
                        encode_utf8(hex_text(be_bytes(n))),
                    ),
                ),
            ),
            t.target@,
        ),
{
    lemma_nonce_hex_is_nonce_text(n);
}

/// The header text of a template with a given nonce.
pub open spec fn template_text(t: HeaderTemplate, n: u32) -> Seq<u8> {
    header_text(
        encode_utf8(t.version@),
        encode_utf8(t.prevhash@),
        encode_utf8(t.merkle_root@),
        encode_utf8(t.nbits@),
        encode_utf8(t.ntime@),
        nonce_text(n),
    )
}

/// The template's fields are hex digits within their widths, so its header
/// encodes whatever the nonce.
pub open spec fn template_valid(t: HeaderTemplate) -> bool {
    &&& fits(encode_utf8(t.version@), 8)
    &&& fits(encode_utf8(t.prevhash@), 64)
    &&& fits(encode_utf8(t.merkle_root@), 64)
    &&& fits(encode_utf8(t.nbits@), 8)
    &&& fits(encode_utf8(t.ntime@), 8)
}

/// The double hash of the header of a template with a given nonce.
pub open spec fn header_hash(t: HeaderTemplate, n: u32) -> Seq<u8> {
    double_sha256_of(hex_bytes(template_text(t, n)))
}

/// A nonce whose header hash meets the template's target.
pub open spec fn solves(t: HeaderTemplate, n: u32) -> bool {
    meets_target(header_hash(t, n), t.target@)
}

/// The nonce `k` steps after `first`, wrapping past the largest.
pub open spec fn nonce_at(first: u32, k: int) -> u32 {
    ((first as int + k) % 0x1_0000_0000) as u32
}

/// What a search over `count` nonces from `first` may report: the first nonce
/// of the run that solves the template, with its header hash, or that none
/// of the run does.
pub open spec fn search_outcome(t: HeaderTemplate, first: u32, count: u32, o: SearchOutcome) -> bool {
    match o {
        SearchOutcome::Found { nonce, hash } => {
            &&& hash@ == header_hash(t, nonce)
            &&& solves(t, nonce)
            &&& exists|k: int|
                0 <= k < count && nonce == nonce_at(first, k) && (forall|j: int|
                    0 <= j < k ==> !solves(t, #[trigger] nonce_at(first, j)))
        },
        SearchOutcome::Exhausted => forall|k: int|
            0 <= k < count ==> !solves(t, #[trigger] nonce_at(first, k)),
    }
}

/// The search is deterministic: two runs over the same template and nonces
/// report the same outcome, the same nonce with the same hash where they find
/// one, and that hash meets the target.
pub proof fn lemma_search_deterministic(
    t: HeaderTemplate,
    first: u32,
    count: u32,
    a: SearchOutcome,
    b: SearchOutcome,
)
    requires
        search_outcome(t, first, count, a),
        search_outcome(t, first, count, b),
    ensures
        a is Found <==> b is Found,
        (a, b) matches (
            SearchOutcome::Found { nonce: na, hash: ha },
            SearchOutcome::Found { nonce: nb, hash: hb },
        ) ==> na == nb && ha@ == hb@ && meets_target(ha@, t.target@),
{
    if let SearchOutcome::Found { nonce: na, hash: ha } = a {
        let ka = choose|k: int|
            0 <= k < count && na == nonce_at(first, k) && (forall|j: int|
                0 <= j < k ==> !solves(t, #[trigger] nonce_at(first, j)));
        if let SearchOutcome::Found { nonce: nb, hash: hb } = b {
            let kb = choose|k: int|
                0 <= k < count && nb == nonce_at(first, k) && (forall|j: int|
                    0 <= j < k ==> !solves(t, #[trigger] nonce_at(first, j)));
            if ka < kb {
                assert(!solves(t, nonce_at(first, ka)));
            }
            if kb < ka {
                assert(!solves(t, nonce_at(first, kb)));
            }
        } else {
            assert(!solves(t, nonce_at(first, ka)));
        }
    } else if let SearchOutcome::Found { nonce: nb, hash: hb } = b {
        let kb = choose|k: int|
            0 <= k < count && nb == nonce_at(first, k) && (forall|j: int|
                0 <= j < k ==> !solves(t, #[trigger] nonce_at(first, j)));
        assert(!solves(t, nonce_at(first, kb)));
    }
}

/// The coinbase transaction as hex text: coinb1, extranonce1, extranonce2,
/// coinb2.
pub open spec fn coinbase_text(job: MiningJob, extranonce1: Seq<u8>, extranonce2: Seq<u8>) -> Seq<
    u8,
> {
    encode_utf8(job.coinb1@) + extranonce1 + extranonce2 + encode_utf8(job.coinb2@)
}

/// The compact target text of a job decodes to a usable target.
pub open spec fn nbits_usable(nbits: Seq<u8>) -> bool {
    nbits.len() == 8 && is_hex_text(nbits) && exponent_in_range(hex_bytes(nbits)[0])
}

/// The merkle root of a job, byte-reversed, as the hex text that goes into
/// its header.
pub open spec fn merkle_root_text(job: MiningJob, extranonce1: Seq<u8>, extranonce2: Seq<u8>) -> Seq<
    char,
> {
    hex_text(
        reversed_bytes(
            merkle_root_of(
                double_sha256_of(hex_bytes(coinbase_text(job, extranonce1, extranonce2))),
                decoded_all(text_bytes(job.merkle_branch@)),
            ),
        ),
    )
}

proof fn lemma_nonce_text_hex(n: u32)
    ensures
        nonce_text(n).len() == 8,
        all_hex_digits(nonce_text(n)),
{
    assert forall|i: int| 0 <= i < 8 implies #[trigger] is_hex_digit(nonce_text(n)[i]) by {
        assert(0 <= nonce_text(n)[i] - 48 < 10 || 0 <= nonce_text(n)[i] - 97 < 6);
    }
}

/// Whether the header of a template encodes does not depend on the nonce.
proof fn lemma_template_valid(t: HeaderTemplate, n: u32)
    ensures
        fields_fit(
            encode_utf8(t.version@),
            encode_utf8(t.prevhash@),
            encode_utf8(t.merkle_root@),
            encode_utf8(t.nbits@),
            encode_utf8(t.ntime@),
            nonce_text(n),
        ) == template_valid(t),
{
    lemma_nonce_text_hex(n);
}

fn ascii_digit_of(v: u32) -> (r: u8)
    requires
        v < 16,
    ensures
        r == ascii_digit(v as int),
{
    if v < 10 {
        (48 + v) as u8
    } else {
        (87 + v) as u8
    }
}

/// The nonce as 8 lower-case hex digits.
pub fn nonce_digits(n: u32) -> (r: Vec<u8>)
    ensures
        r@ == nonce_text(n),
{
    let r = vec![
        ascii_digit_of(n / 0x10000000 % 16),
        ascii_digit_of(n / 0x1000000 % 16),
        ascii_digit_of(n / 0x100000 % 16),
        ascii_digit_of(n / 0x10000 % 16),
        ascii_digit_of(n / 0x1000 % 16),
        ascii_digit_of(n / 0x100 % 16),
        ascii_digit_of(n / 0x10 % 16),
        ascii_digit_of(n % 16),
    ];
    assert(r@ =~= nonce_text(n));
    r
}

/// Prepares a job for the search: decodes its target, builds and double-hashes
/// the coinbase, folds the merkle branch over it and byte-reverses the root.
pub fn prepare_job(job: &MiningJob, extranonce1: &str, extranonce2: &str) -> (r: Result<
    HeaderTemplate,
    MinerError,
>)
    ensures
        ({
            let nbits = encode_utf8(job.nbits@);
            let coinbase = coinbase_text(*job, extranonce1.spec_bytes(), extranonce2.spec_bytes());
            let branch = text_bytes(job.merkle_branch@);
            &&& r is Ok <==> (nbits_usable(nbits) && is_hex_text(coinbase) && all_hex_texts(branch))
            &&& (r is Err && r->Err_0 == MinerError::InvalidTarget) <==> (nbits.len() == 8
                && is_hex_text(nbits) && !exponent_in_range(hex_bytes(nbits)[0]))
            &&& r is Err ==> (r->Err_0 == MinerError::InvalidTarget || r->Err_0 == MinerError::Decode)
            &&& r matches Ok(t) ==> {
                &&& t.target@ == compact_target(hex_bytes(nbits))
                &&& t.merkle_root@ == merkle_root_text(
                    *job,
                    extranonce1.spec_bytes(),
                    extranonce2.spec_bytes(),
                )
                &&& t.version == job.version
                &&& t.prevhash == job.prevhash
                &&& t.nbits == job.nbits
                &&& t.ntime == job.ntime
            }
        }),
{
    let nbits_str = job.nbits.as_str();
    let target = match calculate_target(nbits_str) {
        Ok(t) => t,
        Err(e) => {
            return Err(e);
        },
    };
    let mut text: Vec<u8> = Vec::new();
    push_all(&mut text, job.coinb1.as_str().as_bytes());
    push_all(&mut text, extranonce1.as_bytes());
    push_all(&mut text, extranonce2.as_bytes());
    push_all(&mut text, job.coinb2.as_str().as_bytes());
    let coinbase = match hex_decode(text.as_slice()) {
        Ok(bytes) => bytes,
        Err(_) => {
            return Err(MinerError::Decode);
        },
    };
    let coinbase_hash = double_sha256(coinbase.as_slice());
    let branch = match decode_branch(&job.merkle_branch) {
        Ok(b) => b,
        Err(e) => {
            return Err(e);
        },
    };
    let root = build_merkle_root(coinbase_hash.as_slice(), &branch);
    let root_hex = hex_encode(root.as_slice());
    let merkle_root = reverse_hex_bytes(root_hex.as_str());
    proof {
        lemma_reverse_pairs_reverses_bytes(root@);
    }
    Ok(
        HeaderTemplate {
            version: job.version.clone(),
            prevhash: job.prevhash.clone(),
            merkle_root,
            nbits: job.nbits.clone(),
            ntime: job.ntime.clone(),
            target,
        },
    )
}

/// Tries `count` nonces from `first` on, in order and wrapping past the
/// largest, and stops at the first whose header hash meets the target.
pub fn search_nonces(t: &HeaderTemplate, first: u32, count: u32) -> (r: Result<
    SearchOutcome,
    MinerError,
>)
    ensures
        r is Err <==> (count > 0 && !template_valid(*t)),
        r is Err ==> r->Err_0 == MinerError::Decode,
        r matches Ok(o) ==> search_outcome(*t, first, count, o),
{
    let mut k: u32 = 0;
    while k < count
        invariant
            k <= count,
            k > 0 ==> template_valid(*t),
            forall|j: int| 0 <= j < k ==> !solves(*t, #[trigger] nonce_at(first, j)),
        decreases count - k,
    {
        let nonce = ((first as u64 + k as u64) % 0x1_0000_0000) as u32;
        assert(nonce == nonce_at(first, k as int));
        let digits = nonce_digits(nonce);
        proof {
            lemma_template_valid(*t, nonce);
        }
        let header = match encode_header(
            t.version.as_str().as_bytes(),
            t.prevhash.as_str().as_bytes(),
            t.merkle_root.as_str().as_bytes(),
            t.nbits.as_str().as_bytes(),
            t.ntime.as_str().as_bytes(),
            digits.as_slice(),
        ) {
            Ok(h) => h,
            Err(_) => {
                return Err(MinerError::Decode);
            },
        };
        let hash = double_sha256(header.as_slice());
        if hash_meets_target(hash.as_slice(), t.target.as_slice()) {
            return Ok(SearchOutcome::Found { nonce, hash });
        }
        k = k + 1;
    }
    Ok(SearchOutcome::Exhausted)
}

/// What the search loop of a job does next.
#[derive(Debug, Clone, Copy, PartialEq, Eq, Structural)]
pub enum MineAction {
    /// Search a batch of nonces from `first` on.
    Search { first: u32 },
    /// Submit this nonce: its header meets the target.
    Submit { nonce: u32 },
    /// The job is stale; start a new session.
    Restart,
}

/// Before a batch: restart once a height above the job's start height is
/// stored, else search from `first`.
pub fn before_batch(config: &MiningConfig, work_on: u64, first: u32) -> (r: MineAction)
    ensures
        r == (if config.current_height > work_on {
            MineAction::Restart
        } else {
            MineAction::Search { first }
        }),
{
    if config.is_stale(work_on) {
        MineAction::Restart
    } else {
        MineAction::Search { first }
    }
}

/// After a batch of `count` nonces from `first`: submit the nonce found, else
/// search on from the nonce after the batch, wrapping past the largest.
pub fn after_batch(outcome: &SearchOutcome, first: u32, count: u32) -> (r: MineAction)
    ensures
        *outcome matches SearchOutcome::Found { nonce, .. } ==> r == (MineAction::Submit { nonce }),
        outcome is Exhausted ==> r == (MineAction::Search { first: nonce_at(first, count as int) }),
{
    match outcome {
        SearchOutcome::Found { nonce, .. } => MineAction::Submit { nonce: *nonce },
        SearchOutcome::Exhausted => MineAction::Search {
            first: ((first as u64 + count as u64) % 0x1_0000_0000) as u32,
        },
    }
}

} // verus!
