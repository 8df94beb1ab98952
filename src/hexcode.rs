use vstd::prelude::*;

verus! {

/// An ASCII hex digit, either case.
pub open spec fn is_hex_digit(b: u8) -> bool {
    (48 <= b && b <= 57) || (97 <= b && b <= 102) || (65 <= b && b <= 70)
}

/// The value of a hex digit.
pub open spec fn hex_digit_value(b: u8) -> int {
    if 48 <= b && b <= 57 {
        b - 48
    } else if 97 <= b && b <= 102 {
        b - 87
    } else {
        b - 55
    }
}

/// Text that decodes to bytes: an even number of hex digits.
pub open spec fn is_hex_text(t: Seq<u8>) -> bool {
    &&& t.len() % 2 == 0
    &&& forall|i: int| 0 <= i < t.len() ==> #[trigger] is_hex_digit(t[i])
}

/// The bytes that hex text denotes, two digits per byte, high digit first.
pub open spec fn hex_bytes(t: Seq<u8>) -> Seq<u8> {
    Seq::new(
        t.len() / 2,
        |i: int| (16 * hex_digit_value(t[2 * i]) + hex_digit_value(t[2 * i + 1])) as u8,
    )
}

/// The lower-case hex digit for a value below 16.
pub open spec fn lower_digit(n: int) -> char {
    seq!['0', '1', '2', '3', '4', '5', '6', '7', '8', '9', 'a', 'b', 'c', 'd', 'e', 'f'][n]
}

/// Lower-case hex text of bytes, two digits per byte, high digit first.
pub open spec fn hex_text(b: Seq<u8>) -> Seq<char> {
    Seq::new(
        2 * b.len(),
        |i: int|
            if i % 2 == 0 {
                lower_digit(b[i / 2] as int / 16)
            } else {
                lower_digit(b[i / 2] as int % 16)
            },
    )
}

/// The whole two-character groups of a text in reverse order; a trailing
/// odd character is dropped.
pub open spec fn reverse_pairs<A>(s: Seq<A>) -> Seq<A> {
    Seq::new(
        2 * (s.len() / 2),
        |i: int| s[2 * (s.len() / 2 - 1 - i / 2) + i % 2],
    )
}

/// Bytes in reverse order.
pub open spec fn reversed_bytes(b: Seq<u8>) -> Seq<u8> {
    Seq::new(b.len(), |i: int| b[b.len() - 1 - i])
}

/// Reversing the two-digit groups of hex text is the hex text of the bytes in
/// reverse order: the reversal works on whole bytes.
pub proof fn lemma_reverse_pairs_reverses_bytes(b: Seq<u8>)
    ensures
        reverse_pairs(hex_text(b)) == hex_text(reversed_bytes(b)),
{
    let h = hex_text(b);
    let n = b.len() as int;
    assert(h.len() / 2 == n);
    assert forall|i: int| 0 <= i < 2 * n implies #[trigger] reverse_pairs(h)[i] == hex_text(
        reversed_bytes(b),
    )[i] by {
        let m = 2 * (n - 1 - i / 2) + i % 2;
        assert(m / 2 == n - 1 - i / 2);
        assert(m % 2 == i % 2);
    }
    assert(reverse_pairs(h) =~= hex_text(reversed_bytes(b)));
}

#[verifier::external_type_specification]
#[verifier::external_body]
pub struct ExFromHexError(hex::FromHexError);

/// Relies on hex::decode: odd length or a non-hex byte is an error, else each
/// pair of digits becomes one byte, high digit first.
#[verifier::external_body]
pub(crate) fn hex_decode(text: &[u8]) -> (r: Result<Vec<u8>, hex::FromHexError>)
    ensures
        r is Ok <==> is_hex_text(text@),
        r is Ok ==> r->Ok_0@ == hex_bytes(text@),
{
    hex::decode(text)
}

/// Relies on hex::encode: two lower-case digits per byte, high digit first.
#[verifier::external_body]
pub(crate) fn hex_encode(b: &[u8]) -> (r: String)
    ensures
        r@ == hex_text(b@),
{
    hex::encode(b)
}

/// Reverses the order of the two-character groups of a hex text (a byte-wise
/// reversal of the value it encodes); a trailing odd character is dropped.
pub fn reverse_hex_bytes(hex_str: &str) -> (r: String)
    ensures
        r@ == reverse_pairs(hex_str@),
{
    let n = hex_str.unicode_len();
    let pairs = n / 2;
    let mut out = String::new();
    let mut k: usize = 0;
    while k < pairs
        invariant
            n == hex_str@.len(),
            pairs == n / 2,
            k <= pairs,
            out@ == reverse_pairs(hex_str@).subrange(0, 2 * k as int),
        decreases pairs - k,
    {
        let at = 2 * (pairs - 1 - k);
        let piece = hex_str.substring_char(at, at + 2);
        out.append(piece);
        k = k + 1;
        assert(out@ =~= reverse_pairs(hex_str@).subrange(0, 2 * k as int));
    }
    assert(out@ =~= reverse_pairs(hex_str@));
    out
}

} // verus!
