//! One worker's part of the search: examining candidates, counting attempts
//! in batches, and deciding when to stop.
use vstd::prelude::*;
use crate::encoding::{b64_encode, encode_key, lemma_key_text_shape};
use crate::keygen::{is_clamped, public_key, x25519_public, KeySource};
use crate::pattern::{any_hits, matches_any, Pattern};

verus! {

/// Attempts a worker counts locally before it adds them to the shared total.
pub const BATCH: u64 = 1024;

/// A key pair whose public text hit a pattern.
pub struct FoundKey {
    /// The private scalar.
    pub private: [u8; 32],
    /// Base64 text of the public key.
    pub public_text: Vec<u8>,
    /// Base64 text of the private key.
    pub private_text: Vec<u8>,
}

/// All patterns are well formed.
pub open spec fn all_wf(pats: Seq<Pattern>) -> bool {
    forall|i: int| 0 <= i < pats.len() ==> #[trigger] pats[i].wf()
}

/// `f` is the pair of texts for private scalar `sk` and public key `pk`.
pub open spec fn texts_of(f: FoundKey, sk: Seq<u8>, pk: Seq<u8>) -> bool {
    &&& f.private@ == sk
    &&& f.public_text@ == b64_encode(pk)
    &&& f.private_text@ == b64_encode(sk)
}

/// Examines the key pair (`sk`, `pk`): encodes the public key, tests it
/// against the patterns, and only on a hit encodes the private key too.
pub fn check_candidate(sk: &[u8; 32], pk: &[u8; 32], pats: &Vec<Pattern>) -> (r: Option<
    FoundKey,
>)
    requires
        all_wf(pats@),
    ensures
        r is Some <==> any_hits(b64_encode(pk@), pats@),
        r matches Some(f) ==> texts_of(f, sk@, pk@),
{
    let public_text = encode_key(pk);
    if !matches_any(public_text.as_slice(), pats) {
        return None;
    }
    let private_text = encode_key(sk);
    Some(FoundKey { private: *sk, public_text, private_text })
}

/// Examines the private scalar `sk` with the public key derived from it.
pub fn check_private(sk: &[u8; 32], pats: &Vec<Pattern>) -> (r: Option<FoundKey>)
    requires
        all_wf(pats@),
    ensures
        r is Some <==> any_hits(b64_encode(x25519_public(sk@)), pats@),
        r matches Some(f) ==> texts_of(f, sk@, x25519_public(sk@)),
        r matches Some(f) ==> f.public_text@.len() == 44 && f.public_text@[43] == 61u8,
{
    let pk = public_key(sk);
    proof {
        lemma_key_text_shape(pk@);
    }
    check_candidate(sk, &pk, pats)
}

/// What one attempt of a worker gives back.
pub struct Attempt {
    /// Attempts to add to the shared total now (0 or a full batch).
    pub flush: u64,
    /// The private scalar drawn.
    pub private: [u8; 32],
    /// The key pair, where it hit a pattern.
    pub found: Option<FoundKey>,
}

/// A worker's own state: its key source and the attempts not yet flushed.
pub struct Worker {
    keys: KeySource,
    pending: u64,
}

impl Worker {
    /// Attempts made and not yet added to the shared total.
    pub closed spec fn pending(&self) -> nat {
        self.pending as nat
    }

    pub closed spec fn wf(&self) -> bool {
        self.pending < BATCH
    }

    /// A worker with a key source of its own; `None` where the system has no
    /// entropy to seed it.
    pub fn new() -> (w: Option<Worker>)
        ensures
            w matches Some(x) ==> x.wf() && x.pending() == 0,
    {
        match KeySource::new() {
            Some(keys) => Some(Worker { keys, pending: 0 }),
            None => None,
        }
    }

    /// Makes one attempt: draws a clamped private key, derives and tests its
    /// public key, and counts the attempt, handing out a full batch of
    /// counted attempts when one is complete.
    pub fn attempt(&mut self, pats: &Vec<Pattern>) -> (a: Attempt)
        requires
            old(self).wf(),
            all_wf(pats@),
        ensures
            final(self).wf(),
            old(self).pending() + 1 == final(self).pending() + a.flush,
            a.flush == 0 || a.flush == BATCH,
            is_clamped(a.private@),
            a.found is Some <==> any_hits(b64_encode(x25519_public(a.private@)), pats@),
            a.found matches Some(f) ==> texts_of(f, a.private@, x25519_public(a.private@)),
            a.found matches Some(f) ==> f.public_text@.len() == 44 && f.public_text@[43] == 61u8,
    {
        let sk = self.keys.next_private();
        let found = check_private(&sk, pats);
        let flush: u64 = if self.pending + 1 >= BATCH {
            self.pending = 0;
            BATCH
        } else {
            self.pending = self.pending + 1;
            0
        };
        Attempt { flush, private: sk, found }
    }

    /// Ends the worker's run: hands out the attempts not yet flushed.
    pub fn finish(&mut self) -> (n: u64)
        ensures
            n == old(self).pending(),
            final(self).pending() == 0,
            final(self).wf(),
    {
        let n = self.pending;
        self.pending = 0;
        n
    }
}

/// Whether a worker stops after its hit made the shared match count
/// `found_after`, with `target` matches asked for.
pub open spec fn stops_at(found_after: nat, target: nat) -> bool {
    found_after >= target
}

pub fn reached_target(found_after: u64, target: u64) -> (r: bool)
    ensures
        r == stops_at(found_after as nat, target as nat),
{
    found_after >= target
}


/// Seconds between two reports of the attempt count.
pub const REPORT_INTERVAL_SECS: u64 = 5;

/// The periodic reporter's memory: the total it saw last.
pub struct Reporter {
    pub last: u64,
}

impl Reporter {
    pub fn new() -> (r: Reporter)
        ensures
            r.last == 0,
    {
        Reporter { last: 0 }
    }

    /// Takes a sample of the (never decreasing) shared total and gives the
    /// attempts per second since the sample before.
    pub fn sample(&mut self, total: u64) -> (rate: u64)
        requires
            old(self).last <= total,
        ensures
            rate == (total - old(self).last) / (REPORT_INTERVAL_SECS as int),
            final(self).last == total,
    {
        let d = total - self.last;
        self.last = total;
        d / REPORT_INTERVAL_SECS
    }
}

} // verus!
