//! Standard Base64 (RFC 4648 alphabet, with padding) of byte strings, and
//! the facts about it that the search relies on.
use vstd::prelude::*;
use base64::Engine;

verus! {

/// The symbol for a 6-bit value in the standard alphabet `A-Z a-z 0-9 + /`.
pub open spec fn sextet_char(v: u8) -> u8 {
    if v < 26 {
        (v + 65) as u8
    } else if v < 52 {
        (v + 71) as u8
    } else if v < 62 {
        (v - 4) as u8
    } else if v == 62 {
        43u8
    } else {
        47u8
    }
}

/// The four symbols for three bytes.
pub open spec fn quad(b0: u8, b1: u8, b2: u8) -> Seq<u8> {
    seq![
        sextet_char(b0 >> 2u8),
        sextet_char(((b0 & 3u8) << 4u8) | (b1 >> 4u8)),
        sextet_char(((b1 & 15u8) << 2u8) | (b2 >> 6u8)),
        sextet_char(b2 & 63u8),
    ]
}

/// Standard Base64 with padding: each group of three bytes gives four
/// symbols; a final group of two bytes gives three symbols and one `=`, a
/// final single byte two symbols and `==`.
pub open spec fn b64_encode(b: Seq<u8>) -> Seq<u8>
    decreases b.len(),
{
    if b.len() == 0 {
        seq![]
    } else if b.len() == 1 {
        seq![sextet_char(b[0] >> 2u8), sextet_char((b[0] & 3u8) << 4u8), 61u8, 61u8]
    } else if b.len() == 2 {
        seq![
            sextet_char(b[0] >> 2u8),
            sextet_char(((b[0] & 3u8) << 4u8) | (b[1] >> 4u8)),
            sextet_char((b[1] & 15u8) << 2u8),
            61u8,
        ]
    } else {
        quad(b[0], b[1], b[2]) + b64_encode(b.subrange(3, b.len() as int))
    }
}

/// What decoding a text gives: the bytes whose encoding it is, if any.
pub open spec fn b64_decode(s: Seq<u8>) -> Option<Seq<u8>> {
    if exists|v: Seq<u8>| b64_encode(v) == s {
        Some(choose|v: Seq<u8>| b64_encode(v) == s)
    } else {
        None
    }
}

/// Relies on base64's `STANDARD.encode`: standard alphabet, with padding.
#[verifier::external_body]
fn encode_standard(b: &[u8]) -> (r: Vec<u8>)
    ensures
        r@ == b64_encode(b@),
{
    base64::engine::general_purpose::STANDARD.encode(b).into_bytes()
}

/// Relies on base64's `STANDARD.decode`: it accepts exactly the canonical
/// padded encodings (the engine's configuration requires canonical padding
/// and refuses non-zero trailing bits) and returns the bytes encoded.
#[verifier::external_body]
fn decode_standard(s: &[u8]) -> (r: Option<Vec<u8>>)
    ensures
        r matches Some(v) ==> b64_encode(v@) == s@,
        forall|v: Seq<u8>| #[trigger] b64_encode(v) == s@ ==> r is Some,
{
    base64::engine::general_purpose::STANDARD.decode(s).ok()
}

/// The Base64 text of a 32-byte key: 44 bytes, the last of them `=`.
pub fn encode_key(k: &[u8; 32]) -> (r: Vec<u8>)
    ensures
        r@ == b64_encode(k@),
        r@.len() == 44,
        r@[43] == 61u8,
{
    let r = encode_standard(k.as_slice());
    proof {
        lemma_encoded_len(k@);
    }
    r
}

/// Decodes the Base64 text of a 32-byte key; `None` where `s` is not the
/// encoding of 32 bytes.
pub fn decode_key(s: &[u8]) -> (r: Option<[u8; 32]>)
    ensures
        r matches Some(k) ==> b64_decode(s@) == Some(k@),
        r is None ==> !(b64_decode(s@) matches Some(v) && v.len() == 32),
{
    match decode_standard(s) {
        Some(v) => {
            proof {
                lemma_decode_unique(v@);
            }
            if v.len() != 32 {
                return None;
            }
            let mut k: [u8; 32] = [0u8; 32];
            let mut i: usize = 0;
            while i < 32
                invariant
                    v@.len() == 32,
                    i <= 32,
                    forall|j: int| 0 <= j < i ==> k@[j] == v@[j],
                decreases 32 - i,
            {
                k[i] = v[i];
                i = i + 1;
            }
            assert(k@ =~= v@);
            Some(k)
        },
        None => None,
    }
}

/// The encoding of `n` bytes has `4 * ceil(n / 3)` symbols, and ends with
/// `=` unless `n` is a multiple of three.
pub proof fn lemma_encoded_len(b: Seq<u8>)
    ensures
        b64_encode(b).len() == 4 * ((b.len() + 2) / 3),
        b.len() % 3 != 0 ==> b64_encode(b).last() == 61u8,
    decreases b.len(),
{
    if b.len() >= 3 {
        let rest = b.subrange(3, b.len() as int);
        lemma_encoded_len(rest);
        let e = b64_encode(b);
        assert(e == quad(b[0], b[1], b[2]) + b64_encode(rest));
        if b.len() % 3 != 0 {
            assert(e.last() == b64_encode(rest).last());
        }
    }
}

/// Every symbol value below 64 gives a symbol other than `=`, and distinct
/// values give distinct symbols.
proof fn lemma_sextet_char(x: u8, y: u8)
    requires
        x < 64,
        y < 64,
    ensures
        sextet_char(x) != 61u8,
        sextet_char(x) == sextet_char(y) ==> x == y,
{
}

proof fn lemma_sextets_small(b0: u8, b1: u8, b2: u8)
    ensures
        b0 >> 2u8 < 64,
        ((b0 & 3u8) << 4u8) | (b1 >> 4u8) < 64,
        ((b1 & 15u8) << 2u8) | (b2 >> 6u8) < 64,
        b2 & 63u8 < 64,
        (b0 & 3u8) << 4u8 < 64,
        (b1 & 15u8) << 2u8 < 64,
{
    assert(b0 >> 2u8 < 64) by (bit_vector);
    assert(((b0 & 3u8) << 4u8) | (b1 >> 4u8) < 64) by (bit_vector);
    assert(((b1 & 15u8) << 2u8) | (b2 >> 6u8) < 64) by (bit_vector);
    assert(b2 & 63u8 < 64) by (bit_vector);
    assert((b0 & 3u8) << 4u8 < 64) by (bit_vector);
    assert((b1 & 15u8) << 2u8 < 64) by (bit_vector);
}

/// No two byte strings have the same encoding.
pub proof fn lemma_encode_injective(a: Seq<u8>, b: Seq<u8>)
    requires
        b64_encode(a) == b64_encode(b),
    ensures
        a == b,
    decreases a.len(),
{
    lemma_encoded_len(a);
    lemma_encoded_len(b);
    let e = b64_encode(a);
    if a.len() == 0 || b.len() == 0 {
        assert(a.len() == 0 && b.len() == 0);
        assert(a =~= b);
        return;
    }
    let (a0, a1, a2) = (a[0], if a.len() > 1 { a[1] } else { 0u8 }, if a.len() > 2 { a[2] } else { 0u8 });
    let (b0, b1, b2) = (b[0], if b.len() > 1 { b[1] } else { 0u8 }, if b.len() > 2 { b[2] } else { 0u8 });
    lemma_sextets_small(a0, a1, a2);
    lemma_sextets_small(b0, b1, b2);
    // The fourth and third symbols tell how many bytes the first group has.
    if a.len() >= 3 {
        lemma_sextet_char(a2 & 63u8, a2 & 63u8);
        lemma_sextet_char(((a1 & 15u8) << 2u8) | (a2 >> 6u8), 0);
    }
    if b.len() >= 3 {
        lemma_sextet_char(b2 & 63u8, b2 & 63u8);
        lemma_sextet_char(((b1 & 15u8) << 2u8) | (b2 >> 6u8), 0);
    }
    if a.len() == 2 {
        lemma_sextet_char((a1 & 15u8) << 2u8, 0);
    }
    if b.len() == 2 {
        lemma_sextet_char((b1 & 15u8) << 2u8, 0);
    }
    assert(a.len() >= 3 <==> b.len() >= 3);
    assert(a.len() == 2 <==> b.len() == 2);
    assert(a.len() == 1 <==> b.len() == 1);
    lemma_sextet_char(a0 >> 2u8, b0 >> 2u8);
    if a.len() == 1 {
        lemma_sextet_char((a0 & 3u8) << 4u8, (b0 & 3u8) << 4u8);
        assert(a0 == b0) by (bit_vector)
            requires
                a0 >> 2u8 == b0 >> 2u8,
                (a0 & 3u8) << 4u8 == (b0 & 3u8) << 4u8,
        ;
        assert(a =~= b);
    } else if a.len() == 2 {
        lemma_sextet_char(((a0 & 3u8) << 4u8) | (a1 >> 4u8), ((b0 & 3u8) << 4u8) | (b1 >> 4u8));
        lemma_sextet_char((a1 & 15u8) << 2u8, (b1 & 15u8) << 2u8);
        assert(a0 == b0 && a1 == b1) by (bit_vector)
            requires
                a0 >> 2u8 == b0 >> 2u8,
                ((a0 & 3u8) << 4u8) | (a1 >> 4u8) == ((b0 & 3u8) << 4u8) | (b1 >> 4u8),
                (a1 & 15u8) << 2u8 == (b1 & 15u8) << 2u8,
        ;
        assert(a =~= b);
    } else {
        let ra = a.subrange(3, a.len() as int);
        let rb = b.subrange(3, b.len() as int);
        assert(e == quad(a0, a1, a2) + b64_encode(ra));
        assert(e == quad(b0, b1, b2) + b64_encode(rb));
        assert(quad(a0, a1, a2) =~= e.subrange(0, 4));
        assert(quad(b0, b1, b2) =~= e.subrange(0, 4));
        assert(b64_encode(ra) =~= e.subrange(4, e.len() as int));
        assert(b64_encode(rb) =~= e.subrange(4, e.len() as int));
        lemma_sextet_char(((a0 & 3u8) << 4u8) | (a1 >> 4u8), ((b0 & 3u8) << 4u8) | (b1 >> 4u8));
        lemma_sextet_char(((a1 & 15u8) << 2u8) | (a2 >> 6u8), ((b1 & 15u8) << 2u8) | (b2 >> 6u8));
        lemma_sextet_char(a2 & 63u8, b2 & 63u8);
        assert(a0 == b0 && a1 == b1 && a2 == b2) by (bit_vector)
            requires
                a0 >> 2u8 == b0 >> 2u8,
                ((a0 & 3u8) << 4u8) | (a1 >> 4u8) == ((b0 & 3u8) << 4u8) | (b1 >> 4u8),
                ((a1 & 15u8) << 2u8) | (a2 >> 6u8) == ((b1 & 15u8) << 2u8) | (b2 >> 6u8),
                a2 & 63u8 == b2 & 63u8,
        ;
        lemma_encode_injective(ra, rb);
        assert(a =~= seq![a0, a1, a2] + ra);
        assert(b =~= seq![b0, b1, b2] + rb);
    }
}

/// Decoding the encoding of `v` gives `v` back.
pub proof fn lemma_decode_unique(v: Seq<u8>)
    ensures
        b64_decode(b64_encode(v)) == Some(v),
{
    let s = b64_encode(v);
    assert(exists|w: Seq<u8>| b64_encode(w) == s);
    let w = choose|w: Seq<u8>| b64_encode(w) == s;
    lemma_encode_injective(w, v);
}

/// The encoding of any 32-byte key has exactly 44 symbols, the last of them
/// the padding symbol `=`.
pub proof fn lemma_key_text_shape(k: Seq<u8>)
    requires
        k.len() == 32,
    ensures
        b64_encode(k).len() == 44,
        b64_encode(k)[43] == 61u8,
{
    lemma_encoded_len(k);
}

/// Encoding a 32-byte key and decoding the text gives the key back.
pub proof fn lemma_key_round_trip(k: Seq<u8>)
    requires
        k.len() == 32,
    ensures
        b64_decode(b64_encode(k)) == Some(k),
{
    lemma_decode_unique(k);
}

} // verus!
