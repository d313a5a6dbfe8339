//! Private scalars for X25519 and the public points derived from them.
use vstd::prelude::*;
use rand::rngs::SmallRng;
use rand::RngCore;
use rand::SeedableRng;

verus! {

/// A 32-byte value satisfies the X25519 clamping rule: the low three bits of
/// the first byte are clear, the top bit of the last byte is clear and bit 6
/// of the last byte is set.
pub open spec fn is_clamped(sk: Seq<u8>) -> bool {
    &&& sk.len() == 32
    &&& sk[0] & 7u8 == 0
    &&& sk[31] & 128u8 == 0
    &&& sk[31] & 64u8 == 64u8
}

/// The clamped form of a 32-byte value: only bytes 0 and 31 change.
pub open spec fn clamp_spec(sk: Seq<u8>) -> Seq<u8> {
    sk.update(0, sk[0] & 248u8).update(31, (sk[31] & 127u8) | 64u8)
}

/// Clamps `sk` in place so that it is a valid X25519 private scalar.
pub fn clamp_x25519_scalar(sk: &mut [u8; 32])
    ensures
        final(sk)@ == clamp_spec(old(sk)@),
        is_clamped(final(sk)@),
{
    let b0: u8 = sk[0];
    let b31: u8 = sk[31];
    let first: u8 = b0 & 248u8;
    let last: u8 = (b31 & 127u8) | 64u8;
    sk[0] = first;
    sk[31] = last;
    assert(first & 7u8 == 0) by (bit_vector)
        requires first == b0 & 248u8;
    assert(last & 128u8 == 0 && last & 64u8 == 64u8) by (bit_vector)
        requires last == (b31 & 127u8) | 64u8;
    assert(sk@ =~= clamp_spec(old(sk)@));
}


#[verifier::external_type_specification]
#[verifier::external_body]
pub struct ExSmallRng(SmallRng);

/// The X25519 public point, as 32 bytes, of the private scalar `sk`.
pub uninterp spec fn x25519_public(sk: Seq<u8>) -> Seq<u8>;

/// Relies on `x25519_dalek::x25519` with `X25519_BASEPOINT_BYTES`: the
/// scalar multiple of the curve's base point, which depends on the scalar
/// alone.
#[verifier::external_body]
fn x25519_base(sk: &[u8; 32]) -> (r: [u8; 32])
    ensures
        r@ == x25519_public(sk@),
{
    x25519_dalek::x25519(*sk, x25519_dalek::X25519_BASEPOINT_BYTES)
}

/// Relies on rand's `SeedableRng::from_rng` for `SmallRng`, fed from
/// `OsRng`: a generator seeded from the operating system's entropy source,
/// or `None` where the system gives none (the call reports that as an error
/// and does not panic).
#[verifier::external_body]
fn rng_from_entropy() -> Option<SmallRng> {
    SmallRng::from_rng(rand::rngs::OsRng).ok()
}

/// Relies on rand's `RngCore::fill_bytes` for `SmallRng`: overwrites the
/// buffer with fresh random bytes, of which nothing more is known.
#[verifier::external_body]
fn fill_random(rng: &mut SmallRng, buf: &mut [u8; 32]) {
    rng.fill_bytes(buf)
}

/// A source of private keys, owned by one worker.
pub struct KeySource {
    rng: SmallRng,
}

impl KeySource {
    /// A source with a generator of its own, seeded from the operating
    /// system; `None` where the system has no entropy to give.
    pub fn new() -> (r: Option<KeySource>) {
        match rng_from_entropy() {
            Some(rng) => Some(KeySource { rng }),
            None => None,
        }
    }

    /// Draws 32 random bytes and clamps them into a private scalar.
    pub fn next_private(&mut self) -> (sk: [u8; 32])
        ensures
            is_clamped(sk@),
            exists|raw: Seq<u8>| raw.len() == 32 && sk@ == clamp_spec(raw),
    {
        let mut sk: [u8; 32] = [0u8; 32];
        fill_random(&mut self.rng, &mut sk);
        let ghost raw = sk@;
        clamp_x25519_scalar(&mut sk);
        sk
    }
}

/// The public key of the private scalar `sk`.
pub fn public_key(sk: &[u8; 32]) -> (r: [u8; 32])
    ensures
        r@ == x25519_public(sk@),
        x25519_public(sk@).len() == 32,
{
    x25519_base(sk)
}

} // verus!
