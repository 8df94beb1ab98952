use vstd::prelude::*;
use vstd::string::StringSliceAdditionalSpecFns;
use crate::error::MinerError;
use crate::hexcode::{hex_decode, hex_bytes, is_hex_text, is_hex_digit};

verus! {

/// `s` with `'0'` digits in front up to width `w`; longer text is kept whole.
pub open spec fn pad_left(s: Seq<u8>, w: int) -> Seq<u8> {
    if s.len() >= w {
        s
    } else {
        Seq::new((w - s.len()) as nat, |i: int| 48u8) + s
    }
}

/// `s` with `'0'` digits behind up to width `w`; longer text is kept whole.
pub open spec fn pad_right(s: Seq<u8>, w: int) -> Seq<u8> {
    if s.len() >= w {
        s
    } else {
        s + Seq::new((w - s.len()) as nat, |i: int| 48u8)
    }
}

/// The hex text of a header: version, prevhash, merkle root, nbits, ntime and
/// nonce, each padded to its width, in that order.
pub open spec fn header_text(
    version: Seq<u8>,
    prevhash: Seq<u8>,
    merkle_root: Seq<u8>,
    nbits: Seq<u8>,
    ntime: Seq<u8>,
    nonce: Seq<u8>,
) -> Seq<u8> {
    pad_left(version, 8) + pad_right(prevhash, 64) + pad_right(merkle_root, 64) + pad_left(nbits, 8)
        + pad_left(ntime, 8) + pad_left(nonce, 8)
}

/// Every byte is a hex digit (of any count).
pub open spec fn all_hex_digits(s: Seq<u8>) -> bool {
    forall|i: int| 0 <= i < s.len() ==> #[trigger] is_hex_digit(s[i])
}

/// A field of hex digits that fits its width.
pub open spec fn fits(s: Seq<u8>, w: int) -> bool {
    all_hex_digits(s) && s.len() <= w
}

fn push_zeros(out: &mut Vec<u8>, count: usize)
    ensures
        final(out)@ == old(out)@ + Seq::new(count as nat, |i: int| 48u8),
{
    let mut k: usize = 0;
    while k < count
        invariant
            k <= count,
            out@ == old(out)@ + Seq::new(k as nat, |i: int| 48u8),
        decreases count - k,
    {
        out.push(48u8);
        k = k + 1;
        assert(out@ =~= old(out)@ + Seq::new(k as nat, |i: int| 48u8));
    }
}

pub(crate) fn push_all(out: &mut Vec<u8>, s: &[u8])
    ensures
        final(out)@ == old(out)@ + s@,
{
    let mut k: usize = 0;
    while k < s.len()
        invariant
            k <= s@.len(),
            out@ == old(out)@ + s@.subrange(0, k as int),
        decreases s@.len() - k,
    {
        out.push(s[k]);
        k = k + 1;
        assert(out@ =~= old(out)@ + s@.subrange(0, k as int));
    }
    assert(s@.subrange(0, s@.len() as int) =~= s@);
}

fn push_padded_left(out: &mut Vec<u8>, s: &[u8], w: usize)
    ensures
        final(out)@ == old(out)@ + pad_left(s@, w as int),
{
    if s.len() < w {
        push_zeros(out, w - s.len());
    }
    push_all(out, s);
    assert(out@ =~= old(out)@ + pad_left(s@, w as int));
}

fn push_padded_right(out: &mut Vec<u8>, s: &[u8], w: usize)
    ensures
        final(out)@ == old(out)@ + pad_right(s@, w as int),
{
    push_all(out, s);
    if s.len() < w {
        push_zeros(out, w - s.len());
    }
    assert(out@ =~= old(out)@ + pad_right(s@, w as int));
}

/// Each of the six header fields is hex digits within its width: 8 for the
/// version, nbits, ntime and nonce, 64 for the prevhash and the merkle root.
pub open spec fn fields_fit(
    version: Seq<u8>,
    prevhash: Seq<u8>,
    merkle_root: Seq<u8>,
    nbits: Seq<u8>,
    ntime: Seq<u8>,
    nonce: Seq<u8>,
) -> bool {
    &&& fits(version, 8)
    &&& fits(prevhash, 64)
    &&& fits(merkle_root, 64)
    &&& fits(nbits, 8)
    &&& fits(ntime, 8)
    &&& fits(nonce, 8)
}

/// Encodes the six header fields, given as hex text, into the 80 header
/// bytes: each field is padded to its width, the texts are joined in order
/// and decoded. A field longer than its width, or holding a byte that is not
/// a hex digit, fails.
pub fn encode_header(
    version: &[u8],
    prevhash: &[u8],
    merkle_root: &[u8],
    nbits: &[u8],
    ntime: &[u8],
    nonce: &[u8],
) -> (r: Result<Vec<u8>, MinerError>)
    ensures
        ({
            let t = header_text(version@, prevhash@, merkle_root@, nbits@, ntime@, nonce@);
            &&& r is Ok <==> fields_fit(version@, prevhash@, merkle_root@, nbits@, ntime@, nonce@)
            &&& r is Ok ==> r->Ok_0@ == hex_bytes(t) && r->Ok_0@.len() == 80
            &&& r is Err ==> r->Err_0 == MinerError::Decode
        }),
{
    if version.len() > 8 || prevhash.len() > 64 || merkle_root.len() > 64 || nbits.len() > 8
        || ntime.len() > 8 || nonce.len() > 8 {
        return Err(MinerError::Decode);
    }
    proof {
        if fields_fit(version@, prevhash@, merkle_root@, nbits@, ntime@, nonce@) {
            lemma_header_is_80_bytes(version@, prevhash@, merkle_root@, nbits@, ntime@, nonce@);
        } else {
            lemma_malformed_field_fails(version@, prevhash@, merkle_root@, nbits@, ntime@, nonce@);
        }
    }
    let mut text: Vec<u8> = Vec::new();
    push_padded_left(&mut text, version, 8);
    push_padded_right(&mut text, prevhash, 64);
    push_padded_right(&mut text, merkle_root, 64);
    push_padded_left(&mut text, nbits, 8);
    push_padded_left(&mut text, ntime, 8);
    push_padded_left(&mut text, nonce, 8);
    assert(text@ =~= header_text(version@, prevhash@, merkle_root@, nbits@, ntime@, nonce@));
    match hex_decode(text.as_slice()) {
        Ok(bytes) => Ok(bytes),
        Err(_) => Err(MinerError::Decode),
    }
}

/// Builds the 80-byte block header from its six hex fields; a field longer
/// than its width, or not hex, fails.
pub fn create_block_header(
    version: &str,
    prevhash: &str,
    merkle_root: &str,
    nbits: &str,
    ntime: &str,
    nonce: &str,
) -> (r: Result<Vec<u8>, MinerError>)
    ensures
        ({
            let (v, p, m, b, t, n) = (
                version.spec_bytes(),
                prevhash.spec_bytes(),
                merkle_root.spec_bytes(),
                nbits.spec_bytes(),
                ntime.spec_bytes(),
                nonce.spec_bytes(),
            );
            &&& r is Ok <==> fields_fit(v, p, m, b, t, n)
            &&& r is Ok ==> r->Ok_0@ == hex_bytes(header_text(v, p, m, b, t, n)) && r->Ok_0@.len()
                == 80
            &&& r is Err ==> r->Err_0 == MinerError::Decode
        }),
{
    encode_header(
        version.as_bytes(),
        prevhash.as_bytes(),
        merkle_root.as_bytes(),
        nbits.as_bytes(),
        ntime.as_bytes(),
        nonce.as_bytes(),
    )
}

/// Fields of hex digits within their widths make header text that decodes to
/// exactly 80 bytes.
pub proof fn lemma_header_is_80_bytes(
    version: Seq<u8>,
    prevhash: Seq<u8>,
    merkle_root: Seq<u8>,
    nbits: Seq<u8>,
    ntime: Seq<u8>,
    nonce: Seq<u8>,
)
    requires
        fits(version, 8),
        fits(prevhash, 64),
        fits(merkle_root, 64),
        fits(nbits, 8),
        fits(ntime, 8),
        fits(nonce, 8),
    ensures
        is_hex_text(header_text(version, prevhash, merkle_root, nbits, ntime, nonce)),
        hex_bytes(header_text(version, prevhash, merkle_root, nbits, ntime, nonce)).len() == 80,
{
    let t = header_text(version, prevhash, merkle_root, nbits, ntime, nonce);
    assert(all_hex_digits(pad_left(version, 8)));
    assert(all_hex_digits(pad_right(prevhash, 64)));
    assert(all_hex_digits(pad_right(merkle_root, 64)));
    assert(all_hex_digits(pad_left(nbits, 8)));
    assert(all_hex_digits(pad_left(ntime, 8)));
    assert(all_hex_digits(pad_left(nonce, 8)));
    assert(t.len() == 160);
    assert forall|i: int| 0 <= i < t.len() implies #[trigger] is_hex_digit(t[i]) by {
        lemma_concat_hex(pad_left(version, 8), pad_right(prevhash, 64));
        lemma_concat_hex(pad_left(version, 8) + pad_right(prevhash, 64), pad_right(merkle_root, 64));
        lemma_concat_hex(
            pad_left(version, 8) + pad_right(prevhash, 64) + pad_right(merkle_root, 64),
            pad_left(nbits, 8),
        );
        lemma_concat_hex(
            pad_left(version, 8) + pad_right(prevhash, 64) + pad_right(merkle_root, 64)
                + pad_left(nbits, 8),
            pad_left(ntime, 8),
        );
        lemma_concat_hex(
            pad_left(version, 8) + pad_right(prevhash, 64) + pad_right(merkle_root, 64)
                + pad_left(nbits, 8) + pad_left(ntime, 8),
            pad_left(nonce, 8),
        );
    }
}

proof fn lemma_concat_hex(a: Seq<u8>, b: Seq<u8>)
    requires
        all_hex_digits(a),
        all_hex_digits(b),
    ensures
        all_hex_digits(a + b),
{
    assert forall|i: int| 0 <= i < (a + b).len() implies #[trigger] is_hex_digit((a + b)[i]) by {
        if i < a.len() {
            assert((a + b)[i] == a[i]);
        } else {
            assert((a + b)[i] == b[i - a.len()]);
        }
    }
}

/// A header field holding a byte that is not a hex digit makes the header
/// text fail to decode.
pub proof fn lemma_malformed_field_fails(
    version: Seq<u8>,
    prevhash: Seq<u8>,
    merkle_root: Seq<u8>,
    nbits: Seq<u8>,
    ntime: Seq<u8>,
    nonce: Seq<u8>,
)
    requires
        !all_hex_digits(version) || !all_hex_digits(prevhash) || !all_hex_digits(merkle_root)
            || !all_hex_digits(nbits) || !all_hex_digits(ntime) || !all_hex_digits(nonce),
    ensures
        !is_hex_text(header_text(version, prevhash, merkle_root, nbits, ntime, nonce)),
{
    let a = pad_left(version, 8);
    let b = pad_right(prevhash, 64);
    let c = pad_right(merkle_root, 64);
    let d = pad_left(nbits, 8);
    let e = pad_left(ntime, 8);
    let f = pad_left(nonce, 8);
    let t = a + b + c + d + e + f;
    assert(t =~= header_text(version, prevhash, merkle_root, nbits, ntime, nonce));
    if !all_hex_digits(version) {
        let i = choose|i: int| 0 <= i < version.len() && !is_hex_digit(version[i]);
        let k = a.len() - version.len() + i;
        assert(a[k] == version[i]);
        assert(t[k] == a[k]);
    } else if !all_hex_digits(prevhash) {
        let i = choose|i: int| 0 <= i < prevhash.len() && !is_hex_digit(prevhash[i]);
        let k = a.len() + i;
        assert(b[i] == prevhash[i]);
        assert(t[k] == b[i]);
    } else if !all_hex_digits(merkle_root) {
        let i = choose|i: int| 0 <= i < merkle_root.len() && !is_hex_digit(merkle_root[i]);
        let k = a.len() + b.len() + i;
        assert(c[i] == merkle_root[i]);
        assert(t[k] == c[i]);
    } else if !all_hex_digits(nbits) {
        let i = choose|i: int| 0 <= i < nbits.len() && !is_hex_digit(nbits[i]);
        let k = a.len() + b.len() + c.len() + d.len() - nbits.len() + i;
        assert(d[d.len() - nbits.len() + i] == nbits[i]);
        assert(t[k] == d[d.len() - nbits.len() + i]);
    } else if !all_hex_digits(ntime) {
        let i = choose|i: int| 0 <= i < ntime.len() && !is_hex_digit(ntime[i]);
        let k = a.len() + b.len() + c.len() + d.len() + e.len() - ntime.len() + i;
        assert(e[e.len() - ntime.len() + i] == ntime[i]);
        assert(t[k] == e[e.len() - ntime.len() + i]);
    } else {
        let i = choose|i: int| 0 <= i < nonce.len() && !is_hex_digit(nonce[i]);
        let k = a.len() + b.len() + c.len() + d.len() + e.len() + f.len() - nonce.len() + i;
        assert(f[f.len() - nonce.len() + i] == nonce[i]);
        assert(t[k] == f[f.len() - nonce.len() + i]);
    }
}

} // verus!
