//! Digests and textual encodings: SHA-256 (from `sha2`), lowercase hex,
//! percent-encoding of single bytes (from `percent_encoding`) and UUID text
//! (from `uuid`).

use vstd::prelude::*;
use crate::text::{digit_char, digit_of, push_char};

verus! {

/// The SHA-256 digest of `data`, as computed by the `sha2` crate.
pub uninterp spec fn sha256_spec(data: Seq<u8>) -> Seq<u8>;

/// Calls `sha2::Sha256::digest`. The contract claims only that the result is
/// the (named) SHA-256 digest of the input and that it is 32 bytes long, as a
/// 256-bit digest is.
#[verifier::external_body]
pub(crate) fn sha256(data: &[u8]) -> (out: Vec<u8>)
    ensures
        out@ == sha256_spec(data@),
        out@.len() == 32,
{
    <sha2::Sha256 as sha2::Digest>::digest(data).to_vec()
}

/// Lowercase hexadecimal digit for a value below sixteen.
pub open spec fn hex_digit_lower(d: nat) -> char {
    if d < 10 { digit_char(d) }
    else if d == 10 { 'a' }
    else if d == 11 { 'b' }
    else if d == 12 { 'c' }
    else if d == 13 { 'd' }
    else if d == 14 { 'e' }
    else { 'f' }
}

/// Uppercase hexadecimal digit for a value below sixteen.
pub open spec fn hex_digit_upper(d: nat) -> char {
    if d < 10 { digit_char(d) }
    else if d == 10 { 'A' }
    else if d == 11 { 'B' }
    else if d == 12 { 'C' }
    else if d == 13 { 'D' }
    else if d == 14 { 'E' }
    else { 'F' }
}

/// Lowercase hex of a byte string: two digits per byte, high nibble first.
pub open spec fn hex_lower(bytes: Seq<u8>) -> Seq<char>
    decreases bytes.len(),
{
    if bytes.len() == 0 {
        Seq::empty()
    } else {
        let b = bytes.last();
        hex_lower(bytes.drop_last()) + seq![hex_digit_lower((b / 16) as nat), hex_digit_lower((b % 16) as nat)]
    }
}

pub proof fn lemma_hex_lower_len(bytes: Seq<u8>)
    ensures
        hex_lower(bytes).len() == 2 * bytes.len(),
    decreases bytes.len(),
{
    if bytes.len() > 0 {
        lemma_hex_lower_len(bytes.drop_last());
    }
}

fn hex_char_lower(d: u8) -> (c: char)
    requires
        d < 16,
    ensures
        c == hex_digit_lower(d as nat),
{
    if d < 10 { digit_of(d) }
    else if d == 10 { 'a' }
    else if d == 11 { 'b' }
    else if d == 12 { 'c' }
    else if d == 13 { 'd' }
    else if d == 14 { 'e' }
    else { 'f' }
}

/// Lowercase hex encoding of a byte string.
pub fn to_hex_lower(bytes: &[u8]) -> (r: String)
    ensures
        r@ == hex_lower(bytes@),
{
    let mut r = String::new();
    let mut i: usize = 0;
    while i < bytes.len()
        invariant
            i <= bytes@.len(),
            r@ == hex_lower(bytes@.subrange(0, i as int)),
        decreases bytes.len() - i,
    {
        let b = bytes[i];
        push_char(&mut r, hex_char_lower(b / 16));
        push_char(&mut r, hex_char_lower(b % 16));
        proof {
            let pre = bytes@.subrange(0, i as int);
            let next = bytes@.subrange(0, i + 1);
            assert(next.drop_last() =~= pre);
            assert(next.last() == b);
        }
        i = i + 1;
        assert(r@ =~= hex_lower(bytes@.subrange(0, i as int)));
    }
    assert(bytes@.subrange(0, bytes@.len() as int) =~= bytes@);
    r
}

/// Lowercase hex of the SHA-256 digest of `data`.
pub open spec fn sha256_hex_spec(data: Seq<u8>) -> Seq<char> {
    hex_lower(sha256_spec(data))
}

/// SHA-256 of `data`, rendered as 64 lowercase hex digits.
pub fn sha256_hex(data: &[u8]) -> (r: String)
    ensures
        r@ == sha256_hex_spec(data@),
        r@.len() == 64,
{
    let digest = sha256(data);
    let r = to_hex_lower(digest.as_slice());
    proof { lemma_hex_lower_len(sha256_spec(data@)); }
    r
}

/// The three characters `%XY` that percent-encode one byte (uppercase hex).
pub open spec fn percent_triplet(b: u8) -> Seq<char> {
    seq!['%', hex_digit_upper((b / 16) as nat), hex_digit_upper((b % 16) as nat)]
}

/// Calls `percent_encoding::percent_encode_byte`, whose documented result is
/// `%` followed by the byte's two uppercase hex digits.
#[verifier::external_body]
pub(crate) fn percent_encode_byte(b: u8) -> (r: &'static str)
    ensures
        r@ == percent_triplet(b),
{
    percent_encoding::percent_encode_byte(b)
}

/// The 32 lowercase hex digits of a 128-bit value, most significant first.
pub open spec fn hex128(v: u128) -> Seq<char> {
    Seq::new(32, |i: int| hex_digit_lower(((v >> ((4 * (31 - i)) as u128)) & 0xf) as nat))
}

/// Hyphenated lowercase UUID text (8-4-4-4-12 hex digits).
pub open spec fn uuid_text_spec(v: u128) -> Seq<char> {
    let h = hex128(v);
    h.subrange(0, 8) + seq!['-'] + h.subrange(8, 12) + seq!['-'] + h.subrange(12, 16)
        + seq!['-'] + h.subrange(16, 20) + seq!['-'] + h.subrange(20, 32)
}

proof fn lemma_hex_digit_injective(x: nat, y: nat)
    requires
        x < 16,
        y < 16,
        hex_digit_lower(x) == hex_digit_lower(y),
    ensures
        x == y,
{
}

proof fn lemma_nibbles_determine(a: u128, b: u128)
    requires
        (a >> 0u128) & 0xfu128 == (b >> 0u128) & 0xfu128,
        (a >> 4u128) & 0xfu128 == (b >> 4u128) & 0xfu128,
        (a >> 8u128) & 0xfu128 == (b >> 8u128) & 0xfu128,
        (a >> 12u128) & 0xfu128 == (b >> 12u128) & 0xfu128,
        (a >> 16u128) & 0xfu128 == (b >> 16u128) & 0xfu128,
        (a >> 20u128) & 0xfu128 == (b >> 20u128) & 0xfu128,
        (a >> 24u128) & 0xfu128 == (b >> 24u128) & 0xfu128,
        (a >> 28u128) & 0xfu128 == (b >> 28u128) & 0xfu128,
        (a >> 32u128) & 0xfu128 == (b >> 32u128) & 0xfu128,
        (a >> 36u128) & 0xfu128 == (b >> 36u128) & 0xfu128,
        (a >> 40u128) & 0xfu128 == (b >> 40u128) & 0xfu128,
        (a >> 44u128) & 0xfu128 == (b >> 44u128) & 0xfu128,
        (a >> 48u128) & 0xfu128 == (b >> 48u128) & 0xfu128,
        (a >> 52u128) & 0xfu128 == (b >> 52u128) & 0xfu128,
        (a >> 56u128) & 0xfu128 == (b >> 56u128) & 0xfu128,
        (a >> 60u128) & 0xfu128 == (b >> 60u128) & 0xfu128,
        (a >> 64u128) & 0xfu128 == (b >> 64u128) & 0xfu128,
        (a >> 68u128) & 0xfu128 == (b >> 68u128) & 0xfu128,
        (a >> 72u128) & 0xfu128 == (b >> 72u128) & 0xfu128,
        (a >> 76u128) & 0xfu128 == (b >> 76u128) & 0xfu128,
        (a >> 80u128) & 0xfu128 == (b >> 80u128) & 0xfu128,
        (a >> 84u128) & 0xfu128 == (b >> 84u128) & 0xfu128,
        (a >> 88u128) & 0xfu128 == (b >> 88u128) & 0xfu128,
        (a >> 92u128) & 0xfu128 == (b >> 92u128) & 0xfu128,
        (a >> 96u128) & 0xfu128 == (b >> 96u128) & 0xfu128,
        (a >> 100u128) & 0xfu128 == (b >> 100u128) & 0xfu128,
        (a >> 104u128) & 0xfu128 == (b >> 104u128) & 0xfu128,
        (a >> 108u128) & 0xfu128 == (b >> 108u128) & 0xfu128,
        (a >> 112u128) & 0xfu128 == (b >> 112u128) & 0xfu128,
        (a >> 116u128) & 0xfu128 == (b >> 116u128) & 0xfu128,
        (a >> 120u128) & 0xfu128 == (b >> 120u128) & 0xfu128,
        (a >> 124u128) & 0xfu128 == (b >> 124u128) & 0xfu128,
    ensures
        a == b,
{
    assert(a == b) by (bit_vector)
        requires
        (a >> 0u128) & 0xfu128 == (b >> 0u128) & 0xfu128,
        (a >> 4u128) & 0xfu128 == (b >> 4u128) & 0xfu128,
        (a >> 8u128) & 0xfu128 == (b >> 8u128) & 0xfu128,
        (a >> 12u128) & 0xfu128 == (b >> 12u128) & 0xfu128,
        (a >> 16u128) & 0xfu128 == (b >> 16u128) & 0xfu128,
        (a >> 20u128) & 0xfu128 == (b >> 20u128) & 0xfu128,
        (a >> 24u128) & 0xfu128 == (b >> 24u128) & 0xfu128,
        (a >> 28u128) & 0xfu128 == (b >> 28u128) & 0xfu128,
        (a >> 32u128) & 0xfu128 == (b >> 32u128) & 0xfu128,
        (a >> 36u128) & 0xfu128 == (b >> 36u128) & 0xfu128,
        (a >> 40u128) & 0xfu128 == (b >> 40u128) & 0xfu128,
        (a >> 44u128) & 0xfu128 == (b >> 44u128) & 0xfu128,
        (a >> 48u128) & 0xfu128 == (b >> 48u128) & 0xfu128,
        (a >> 52u128) & 0xfu128 == (b >> 52u128) & 0xfu128,
        (a >> 56u128) & 0xfu128 == (b >> 56u128) & 0xfu128,
        (a >> 60u128) & 0xfu128 == (b >> 60u128) & 0xfu128,
        (a >> 64u128) & 0xfu128 == (b >> 64u128) & 0xfu128,
        (a >> 68u128) & 0xfu128 == (b >> 68u128) & 0xfu128,
        (a >> 72u128) & 0xfu128 == (b >> 72u128) & 0xfu128,
        (a >> 76u128) & 0xfu128 == (b >> 76u128) & 0xfu128,
        (a >> 80u128) & 0xfu128 == (b >> 80u128) & 0xfu128,
        (a >> 84u128) & 0xfu128 == (b >> 84u128) & 0xfu128,
        (a >> 88u128) & 0xfu128 == (b >> 88u128) & 0xfu128,
        (a >> 92u128) & 0xfu128 == (b >> 92u128) & 0xfu128,
        (a >> 96u128) & 0xfu128 == (b >> 96u128) & 0xfu128,
        (a >> 100u128) & 0xfu128 == (b >> 100u128) & 0xfu128,
        (a >> 104u128) & 0xfu128 == (b >> 104u128) & 0xfu128,
        (a >> 108u128) & 0xfu128 == (b >> 108u128) & 0xfu128,
        (a >> 112u128) & 0xfu128 == (b >> 112u128) & 0xfu128,
        (a >> 116u128) & 0xfu128 == (b >> 116u128) & 0xfu128,
        (a >> 120u128) & 0xfu128 == (b >> 120u128) & 0xfu128,
        (a >> 124u128) & 0xfu128 == (b >> 124u128) & 0xfu128,
    ;
}

/// Distinct 128-bit values have distinct hex texts.
pub proof fn lemma_hex128_injective(a: u128, b: u128)
    requires
        hex128(a) == hex128(b),
    ensures
        a == b,
{
    assert forall|x: u128, k: u128| #![auto] (x >> k) & 0xf < 16 by {
        assert((x >> k) & 0xf <= 0xf) by (bit_vector);
    }
    assert(((a >> 124u128) & 0xfu128) == ((b >> 124u128) & 0xfu128)) by {
        assert(hex128(a)[0] == hex_digit_lower(((a >> ((4 * (31 - 0)) as u128)) & 0xf) as nat));
        assert(hex128(b)[0] == hex_digit_lower(((b >> ((4 * (31 - 0)) as u128)) & 0xf) as nat));
        assert(hex128(a)[0] == hex128(b)[0]);
        lemma_hex_digit_injective(((a >> ((4 * (31 - 0)) as u128)) & 0xf) as nat, ((b >> ((4 * (31 - 0)) as u128)) & 0xf) as nat);
    }
    assert(((a >> 120u128) & 0xfu128) == ((b >> 120u128) & 0xfu128)) by {
        assert(hex128(a)[1] == hex_digit_lower(((a >> ((4 * (31 - 1)) as u128)) & 0xf) as nat));
        assert(hex128(b)[1] == hex_digit_lower(((b >> ((4 * (31 - 1)) as u128)) & 0xf) as nat));
        assert(hex128(a)[1] == hex128(b)[1]);
        lemma_hex_digit_injective(((a >> ((4 * (31 - 1)) as u128)) & 0xf) as nat, ((b >> ((4 * (31 - 1)) as u128)) & 0xf) as nat);
    }
    assert(((a >> 116u128) & 0xfu128) == ((b >> 116u128) & 0xfu128)) by {
        assert(hex128(a)[2] == hex_digit_lower(((a >> ((4 * (31 - 2)) as u128)) & 0xf) as nat));
        assert(hex128(b)[2] == hex_digit_lower(((b >> ((4 * (31 - 2)) as u128)) & 0xf) as nat));
        assert(hex128(a)[2] == hex128(b)[2]);
        lemma_hex_digit_injective(((a >> ((4 * (31 - 2)) as u128)) & 0xf) as nat, ((b >> ((4 * (31 - 2)) as u128)) & 0xf) as nat);
    }
    assert(((a >> 112u128) & 0xfu128) == ((b >> 112u128) & 0xfu128)) by {
        assert(hex128(a)[3] == hex_digit_lower(((a >> ((4 * (31 - 3)) as u128)) & 0xf) as nat));
        assert(hex128(b)[3] == hex_digit_lower(((b >> ((4 * (31 - 3)) as u128)) & 0xf) as nat));
        assert(hex128(a)[3] == hex128(b)[3]);
        lemma_hex_digit_injective(((a >> ((4 * (31 - 3)) as u128)) & 0xf) as nat, ((b >> ((4 * (31 - 3)) as u128)) & 0xf) as nat);
    }
    assert(((a >> 108u128) & 0xfu128) == ((b >> 108u128) & 0xfu128)) by {
        assert(hex128(a)[4] == hex_digit_lower(((a >> ((4 * (31 - 4)) as u128)) & 0xf) as nat));
        assert(hex128(b)[4] == hex_digit_lower(((b >> ((4 * (31 - 4)) as u128)) & 0xf) as nat));
        assert(hex128(a)[4] == hex128(b)[4]);
        lemma_hex_digit_injective(((a >> ((4 * (31 - 4)) as u128)) & 0xf) as nat, ((b >> ((4 * (31 - 4)) as u128)) & 0xf) as nat);
    }
    assert(((a >> 104u128) & 0xfu128) == ((b >> 104u128) & 0xfu128)) by {
        assert(hex128(a)[5] == hex_digit_lower(((a >> ((4 * (31 - 5)) as u128)) & 0xf) as nat));
        assert(hex128(b)[5] == hex_digit_lower(((b >> ((4 * (31 - 5)) as u128)) & 0xf) as nat));
        assert(hex128(a)[5] == hex128(b)[5]);
        lemma_hex_digit_injective(((a >> ((4 * (31 - 5)) as u128)) & 0xf) as nat, ((b >> ((4 * (31 - 5)) as u128)) & 0xf) as nat);
    }
    assert(((a >> 100u128) & 0xfu128) == ((b >> 100u128) & 0xfu128)) by {
        assert(hex128(a)[6] == hex_digit_lower(((a >> ((4 * (31 - 6)) as u128)) & 0xf) as nat));
        assert(hex128(b)[6] == hex_digit_lower(((b >> ((4 * (31 - 6)) as u128)) & 0xf) as nat));
        assert(hex128(a)[6] == hex128(b)[6]);
        lemma_hex_digit_injective(((a >> ((4 * (31 - 6)) as u128)) & 0xf) as nat, ((b >> ((4 * (31 - 6)) as u128)) & 0xf) as nat);
    }
    assert(((a >> 96u128) & 0xfu128) == ((b >> 96u128) & 0xfu128)) by {
        assert(hex128(a)[7] == hex_digit_lower(((a >> ((4 * (31 - 7)) as u128)) & 0xf) as nat));
        assert(hex128(b)[7] == hex_digit_lower(((b >> ((4 * (31 - 7)) as u128)) & 0xf) as nat));
        assert(hex128(a)[7] == hex128(b)[7]);
        lemma_hex_digit_injective(((a >> ((4 * (31 - 7)) as u128)) & 0xf) as nat, ((b >> ((4 * (31 - 7)) as u128)) & 0xf) as nat);
    }
    assert(((a >> 92u128) & 0xfu128) == ((b >> 92u128) & 0xfu128)) by {
        assert(hex128(a)[8] == hex_digit_lower(((a >> ((4 * (31 - 8)) as u128)) & 0xf) as nat));
        assert(hex128(b)[8] == hex_digit_lower(((b >> ((4 * (31 - 8)) as u128)) & 0xf) as nat));
        assert(hex128(a)[8] == hex128(b)[8]);
        lemma_hex_digit_injective(((a >> ((4 * (31 - 8)) as u128)) & 0xf) as nat, ((b >> ((4 * (31 - 8)) as u128)) & 0xf) as nat);
    }
    assert(((a >> 88u128) & 0xfu128) == ((b >> 88u128) & 0xfu128)) by {
        assert(hex128(a)[9] == hex_digit_lower(((a >> ((4 * (31 - 9)) as u128)) & 0xf) as nat));
        assert(hex128(b)[9] == hex_digit_lower(((b >> ((4 * (31 - 9)) as u128)) & 0xf) as nat));
        assert(hex128(a)[9] == hex128(b)[9]);
        lemma_hex_digit_injective(((a >> ((4 * (31 - 9)) as u128)) & 0xf) as nat, ((b >> ((4 * (31 - 9)) as u128)) & 0xf) as nat);
    }
    assert(((a >> 84u128) & 0xfu128) == ((b >> 84u128) & 0xfu128)) by {
        assert(hex128(a)[10] == hex_digit_lower(((a >> ((4 * (31 - 10)) as u128)) & 0xf) as nat));
        assert(hex128(b)[10] == hex_digit_lower(((b >> ((4 * (31 - 10)) as u128)) & 0xf) as nat));
        assert(hex128(a)[10] == hex128(b)[10]);
        lemma_hex_digit_injective(((a >> ((4 * (31 - 10)) as u128)) & 0xf) as nat, ((b >> ((4 * (31 - 10)) as u128)) & 0xf) as nat);
    }
    assert(((a >> 80u128) & 0xfu128) == ((b >> 80u128) & 0xfu128)) by {
        assert(hex128(a)[11] == hex_digit_lower(((a >> ((4 * (31 - 11)) as u128)) & 0xf) as nat));
        assert(hex128(b)[11] == hex_digit_lower(((b >> ((4 * (31 - 11)) as u128)) & 0xf) as nat));
        assert(hex128(a)[11] == hex128(b)[11]);
        lemma_hex_digit_injective(((a >> ((4 * (31 - 11)) as u128)) & 0xf) as nat, ((b >> ((4 * (31 - 11)) as u128)) & 0xf) as nat);
    }
    assert(((a >> 76u128) & 0xfu128) == ((b >> 76u128) & 0xfu128)) by {
        assert(hex128(a)[12] == hex_digit_lower(((a >> ((4 * (31 - 12)) as u128)) & 0xf) as nat));
        assert(hex128(b)[12] == hex_digit_lower(((b >> ((4 * (31 - 12)) as u128)) & 0xf) as nat));
        assert(hex128(a)[12] == hex128(b)[12]);
        lemma_hex_digit_injective(((a >> ((4 * (31 - 12)) as u128)) & 0xf) as nat, ((b >> ((4 * (31 - 12)) as u128)) & 0xf) as nat);
    }
    assert(((a >> 72u128) & 0xfu128) == ((b >> 72u128) & 0xfu128)) by {
        assert(hex128(a)[13] == hex_digit_lower(((a >> ((4 * (31 - 13)) as u128)) & 0xf) as nat));
        assert(hex128(b)[13] == hex_digit_lower(((b >> ((4 * (31 - 13)) as u128)) & 0xf) as nat));
        assert(hex128(a)[13] == hex128(b)[13]);
        lemma_hex_digit_injective(((a >> ((4 * (31 - 13)) as u128)) & 0xf) as nat, ((b >> ((4 * (31 - 13)) as u128)) & 0xf) as nat);
    }
    assert(((a >> 68u128) & 0xfu128) == ((b >> 68u128) & 0xfu128)) by {
        assert(hex128(a)[14] == hex_digit_lower(((a >> ((4 * (31 - 14)) as u128)) & 0xf) as nat));
        assert(hex128(b)[14] == hex_digit_lower(((b >> ((4 * (31 - 14)) as u128)) & 0xf) as nat));
        assert(hex128(a)[14] == hex128(b)[14]);
        lemma_hex_digit_injective(((a >> ((4 * (31 - 14)) as u128)) & 0xf) as nat, ((b >> ((4 * (31 - 14)) as u128)) & 0xf) as nat);
    }
    assert(((a >> 64u128) & 0xfu128) == ((b >> 64u128) & 0xfu128)) by {
        assert(hex128(a)[15] == hex_digit_lower(((a >> ((4 * (31 - 15)) as u128)) & 0xf) as nat));
        assert(hex128(b)[15] == hex_digit_lower(((b >> ((4 * (31 - 15)) as u128)) & 0xf) as nat));
        assert(hex128(a)[15] == hex128(b)[15]);
        lemma_hex_digit_injective(((a >> ((4 * (31 - 15)) as u128)) & 0xf) as nat, ((b >> ((4 * (31 - 15)) as u128)) & 0xf) as nat);
    }
    assert(((a >> 60u128) & 0xfu128) == ((b >> 60u128) & 0xfu128)) by {
        assert(hex128(a)[16] == hex_digit_lower(((a >> ((4 * (31 - 16)) as u128)) & 0xf) as nat));
        assert(hex128(b)[16] == hex_digit_lower(((b >> ((4 * (31 - 16)) as u128)) & 0xf) as nat));
        assert(hex128(a)[16] == hex128(b)[16]);
        lemma_hex_digit_injective(((a >> ((4 * (31 - 16)) as u128)) & 0xf) as nat, ((b >> ((4 * (31 - 16)) as u128)) & 0xf) as nat);
    }
    assert(((a >> 56u128) & 0xfu128) == ((b >> 56u128) & 0xfu128)) by {
        assert(hex128(a)[17] == hex_digit_lower(((a >> ((4 * (31 - 17)) as u128)) & 0xf) as nat));
        assert(hex128(b)[17] == hex_digit_lower(((b >> ((4 * (31 - 17)) as u128)) & 0xf) as nat));
        assert(hex128(a)[17] == hex128(b)[17]);
        lemma_hex_digit_injective(((a >> ((4 * (31 - 17)) as u128)) & 0xf) as nat, ((b >> ((4 * (31 - 17)) as u128)) & 0xf) as nat);
    }
    assert(((a >> 52u128) & 0xfu128) == ((b >> 52u128) & 0xfu128)) by {
        assert(hex128(a)[18] == hex_digit_lower(((a >> ((4 * (31 - 18)) as u128)) & 0xf) as nat));
        assert(hex128(b)[18] == hex_digit_lower(((b >> ((4 * (31 - 18)) as u128)) & 0xf) as nat));
        assert(hex128(a)[18] == hex128(b)[18]);
        lemma_hex_digit_injective(((a >> ((4 * (31 - 18)) as u128)) & 0xf) as nat, ((b >> ((4 * (31 - 18)) as u128)) & 0xf) as nat);
    }
    assert(((a >> 48u128) & 0xfu128) == ((b >> 48u128) & 0xfu128)) by {
        assert(hex128(a)[19] == hex_digit_lower(((a >> ((4 * (31 - 19)) as u128)) & 0xf) as nat));
        assert(hex128(b)[19] == hex_digit_lower(((b >> ((4 * (31 - 19)) as u128)) & 0xf) as nat));
        assert(hex128(a)[19] == hex128(b)[19]);
        lemma_hex_digit_injective(((a >> ((4 * (31 - 19)) as u128)) & 0xf) as nat, ((b >> ((4 * (31 - 19)) as u128)) & 0xf) as nat);
    }
    assert(((a >> 44u128) & 0xfu128) == ((b >> 44u128) & 0xfu128)) by {
        assert(hex128(a)[20] == hex_digit_lower(((a >> ((4 * (31 - 20)) as u128)) & 0xf) as nat));
        assert(hex128(b)[20] == hex_digit_lower(((b >> ((4 * (31 - 20)) as u128)) & 0xf) as nat));
        assert(hex128(a)[20] == hex128(b)[20]);
        lemma_hex_digit_injective(((a >> ((4 * (31 - 20)) as u128)) & 0xf) as nat, ((b >> ((4 * (31 - 20)) as u128)) & 0xf) as nat);
    }
    assert(((a >> 40u128) & 0xfu128) == ((b >> 40u128) & 0xfu128)) by {
        assert(hex128(a)[21] == hex_digit_lower(((a >> ((4 * (31 - 21)) as u128)) & 0xf) as nat));
        assert(hex128(b)[21] == hex_digit_lower(((b >> ((4 * (31 - 21)) as u128)) & 0xf) as nat));
        assert(hex128(a)[21] == hex128(b)[21]);
        lemma_hex_digit_injective(((a >> ((4 * (31 - 21)) as u128)) & 0xf) as nat, ((b >> ((4 * (31 - 21)) as u128)) & 0xf) as nat);
    }
    assert(((a >> 36u128) & 0xfu128) == ((b >> 36u128) & 0xfu128)) by {
        assert(hex128(a)[22] == hex_digit_lower(((a >> ((4 * (31 - 22)) as u128)) & 0xf) as nat));
        assert(hex128(b)[22] == hex_digit_lower(((b >> ((4 * (31 - 22)) as u128)) & 0xf) as nat));
        assert(hex128(a)[22] == hex128(b)[22]);
        lemma_hex_digit_injective(((a >> ((4 * (31 - 22)) as u128)) & 0xf) as nat, ((b >> ((4 * (31 - 22)) as u128)) & 0xf) as nat);
    }
    assert(((a >> 32u128) & 0xfu128) == ((b >> 32u128) & 0xfu128)) by {
        assert(hex128(a)[23] == hex_digit_lower(((a >> ((4 * (31 - 23)) as u128)) & 0xf) as nat));
        assert(hex128(b)[23] == hex_digit_lower(((b >> ((4 * (31 - 23)) as u128)) & 0xf) as nat));
        assert(hex128(a)[23] == hex128(b)[23]);
        lemma_hex_digit_injective(((a >> ((4 * (31 - 23)) as u128)) & 0xf) as nat, ((b >> ((4 * (31 - 23)) as u128)) & 0xf) as nat);
    }
    assert(((a >> 28u128) & 0xfu128) == ((b >> 28u128) & 0xfu128)) by {
        assert(hex128(a)[24] == hex_digit_lower(((a >> ((4 * (31 - 24)) as u128)) & 0xf) as nat));
        assert(hex128(b)[24] == hex_digit_lower(((b >> ((4 * (31 - 24)) as u128)) & 0xf) as nat));
        assert(hex128(a)[24] == hex128(b)[24]);
        lemma_hex_digit_injective(((a >> ((4 * (31 - 24)) as u128)) & 0xf) as nat, ((b >> ((4 * (31 - 24)) as u128)) & 0xf) as nat);
    }
    assert(((a >> 24u128) & 0xfu128) == ((b >> 24u128) & 0xfu128)) by {
        assert(hex128(a)[25] == hex_digit_lower(((a >> ((4 * (31 - 25)) as u128)) & 0xf) as nat));
        assert(hex128(b)[25] == hex_digit_lower(((b >> ((4 * (31 - 25)) as u128)) & 0xf) as nat));
        assert(hex128(a)[25] == hex128(b)[25]);
        lemma_hex_digit_injective(((a >> ((4 * (31 - 25)) as u128)) & 0xf) as nat, ((b >> ((4 * (31 - 25)) as u128)) & 0xf) as nat);
    }
    assert(((a >> 20u128) & 0xfu128) == ((b >> 20u128) & 0xfu128)) by {
        assert(hex128(a)[26] == hex_digit_lower(((a >> ((4 * (31 - 26)) as u128)) & 0xf) as nat));
        assert(hex128(b)[26] == hex_digit_lower(((b >> ((4 * (31 - 26)) as u128)) & 0xf) as nat));
        assert(hex128(a)[26] == hex128(b)[26]);
        lemma_hex_digit_injective(((a >> ((4 * (31 - 26)) as u128)) & 0xf) as nat, ((b >> ((4 * (31 - 26)) as u128)) & 0xf) as nat);
    }
    assert(((a >> 16u128) & 0xfu128) == ((b >> 16u128) & 0xfu128)) by {
        assert(hex128(a)[27] == hex_digit_lower(((a >> ((4 * (31 - 27)) as u128)) & 0xf) as nat));
        assert(hex128(b)[27] == hex_digit_lower(((b >> ((4 * (31 - 27)) as u128)) & 0xf) as nat));
        assert(hex128(a)[27] == hex128(b)[27]);
        lemma_hex_digit_injective(((a >> ((4 * (31 - 27)) as u128)) & 0xf) as nat, ((b >> ((4 * (31 - 27)) as u128)) & 0xf) as nat);
    }
    assert(((a >> 12u128) & 0xfu128) == ((b >> 12u128) & 0xfu128)) by {
        assert(hex128(a)[28] == hex_digit_lower(((a >> ((4 * (31 - 28)) as u128)) & 0xf) as nat));
        assert(hex128(b)[28] == hex_digit_lower(((b >> ((4 * (31 - 28)) as u128)) & 0xf) as nat));
        assert(hex128(a)[28] == hex128(b)[28]);
        lemma_hex_digit_injective(((a >> ((4 * (31 - 28)) as u128)) & 0xf) as nat, ((b >> ((4 * (31 - 28)) as u128)) & 0xf) as nat);
    }
    assert(((a >> 8u128) & 0xfu128) == ((b >> 8u128) & 0xfu128)) by {
        assert(hex128(a)[29] == hex_digit_lower(((a >> ((4 * (31 - 29)) as u128)) & 0xf) as nat));
        assert(hex128(b)[29] == hex_digit_lower(((b >> ((4 * (31 - 29)) as u128)) & 0xf) as nat));
        assert(hex128(a)[29] == hex128(b)[29]);
        lemma_hex_digit_injective(((a >> ((4 * (31 - 29)) as u128)) & 0xf) as nat, ((b >> ((4 * (31 - 29)) as u128)) & 0xf) as nat);
    }
    assert(((a >> 4u128) & 0xfu128) == ((b >> 4u128) & 0xfu128)) by {
        assert(hex128(a)[30] == hex_digit_lower(((a >> ((4 * (31 - 30)) as u128)) & 0xf) as nat));
        assert(hex128(b)[30] == hex_digit_lower(((b >> ((4 * (31 - 30)) as u128)) & 0xf) as nat));
        assert(hex128(a)[30] == hex128(b)[30]);
        lemma_hex_digit_injective(((a >> ((4 * (31 - 30)) as u128)) & 0xf) as nat, ((b >> ((4 * (31 - 30)) as u128)) & 0xf) as nat);
    }
    assert(((a >> 0u128) & 0xfu128) == ((b >> 0u128) & 0xfu128)) by {
        assert(hex128(a)[31] == hex_digit_lower(((a >> ((4 * (31 - 31)) as u128)) & 0xf) as nat));
        assert(hex128(b)[31] == hex_digit_lower(((b >> ((4 * (31 - 31)) as u128)) & 0xf) as nat));
        assert(hex128(a)[31] == hex128(b)[31]);
        lemma_hex_digit_injective(((a >> ((4 * (31 - 31)) as u128)) & 0xf) as nat, ((b >> ((4 * (31 - 31)) as u128)) & 0xf) as nat);
    }
    lemma_nibbles_determine(a, b);
}

/// Distinct UUIDs have distinct hyphenated texts, 36 characters long.
pub proof fn lemma_uuid_text_injective(a: u128, b: u128)
    ensures
        uuid_text_spec(a).len() == 36,
        uuid_text_spec(a) == uuid_text_spec(b) ==> a == b,
{
    let ta = uuid_text_spec(a);
    let tb = uuid_text_spec(b);
    if ta == tb {
        let ha = hex128(a);
        let hb = hex128(b);
        assert forall|k: int| 0 <= k < 32 implies ha[k] == hb[k] by {
            let off: int = if k < 8 { 0 } else if k < 12 { 1 } else if k < 16 { 2 } else if k < 20 { 3 } else { 4 };
            assert(ta[k + off] == ha[k]);
            assert(tb[k + off] == hb[k]);
        }
        assert(ha =~= hb);
        lemma_hex128_injective(a, b);
    }
}


/// Calls `uuid::Uuid::from_u128(v).to_string()`: the UUID whose big-endian
/// bytes are `v`, rendered in `uuid`'s `Display` form, the hyphenated
/// lowercase layout stated by `uuid_text_spec`.
#[verifier::external_body]
pub(crate) fn uuid_text(v: u128) -> (r: String)
    ensures
        r@ == uuid_text_spec(v),
{
    uuid::Uuid::from_u128(v).to_string()
}


/// Calls `uuid::Uuid::from_u128(v).simple().to_string()`: the UUID whose
/// big-endian bytes are `v` in `uuid`'s simple form, its 32 lowercase hex
/// digits with no hyphens.
#[verifier::external_body]
pub(crate) fn uuid_simple(v: u128) -> (r: String)
    ensures
        r@ == hex128(v),
{
    uuid::Uuid::from_u128(v).simple().to_string()
}

/// The UUID, as its big-endian 128-bit value, that `uuid::Uuid::parse_str`
/// reads from a text, or `None` when it rejects the text.
pub uninterp spec fn uuid_parse_spec(s: Seq<char>) -> Option<u128>;

/// Calls `uuid::Uuid::parse_str(s)` and takes the parsed UUID's `as_u128`
/// value. The contract names the outcome, and states what the crate's
/// documentation promises: the forms it writes itself, the hyphenated
/// lowercase text and the 32 simple hex digits of a value, read back as that
/// value. Which other texts it accepts is not stated.
#[verifier::external_body]
pub(crate) fn parse_uuid(s: &str) -> (r: Option<u128>)
    ensures
        r == uuid_parse_spec(s@),
        forall|v: u128| s@ == uuid_text_spec(v) ==> r == Some(v),
        forall|v: u128| s@ == hex128(v) ==> r == Some(v),
{
    uuid::Uuid::parse_str(s).ok().map(|u| u.as_u128())
}

} // verus!
