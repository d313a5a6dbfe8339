//! Search patterns: validation of the operator's text, the byte strings that
//! a candidate key is compared with, and the matcher itself.
use vstd::prelude::*;

verus! {

/// Length of the Base64 text of a 32-byte key, padding included.
pub const ENCODED_LEN: usize = 44;

/// The padding symbol of standard Base64, as a byte.
pub const PAD_BYTE: u8 = 61;

/// One of the 64 symbols of the standard Base64 alphabet.
pub open spec fn is_b64_symbol(c: char) -> bool {
    ('A' <= c && c <= 'Z') || ('a' <= c && c <= 'z') || ('0' <= c && c <= '9') || c == '+'
        || c == '/'
}

/// Text that may be searched for: non-empty, and drawn from the Base64
/// alphabet alone (so without the padding symbol).
pub open spec fn is_search_text(s: Seq<char>) -> bool {
    s.len() > 0 && forall|i: int| 0 <= i < s.len() ==> #[trigger] is_b64_symbol(s[i])
}

/// The bytes of an ASCII text.
pub open spec fn ascii_bytes(s: Seq<char>) -> Seq<u8> {
    s.map_values(|c: char| c as u8)
}

pub open spec fn starts_with(e: Seq<u8>, p: Seq<u8>) -> bool {
    p.len() <= e.len() && e.subrange(0, p.len() as int) == p
}

pub open spec fn ends_with(e: Seq<u8>, p: Seq<u8>) -> bool {
    p.len() <= e.len() && e.subrange(e.len() - p.len(), e.len() as int) == p
}

/// Where a suffix of `n` bytes starts in an encoded key (0 when it cannot fit).
pub open spec fn suffix_offset(n: nat) -> nat {
    if n <= ENCODED_LEN { (ENCODED_LEN - n) as nat } else { 0 }
}

/// A compiled search pattern.
pub struct Pattern {
    /// The searched text, as bytes.
    pub prefix: Vec<u8>,
    /// The searched text followed by one padding byte.
    pub suffix: Vec<u8>,
    /// Position of `suffix` inside an encoded key.
    pub suffix_off: usize,
}

impl Pattern {
    /// The derived fields agree with `prefix`.
    pub open spec fn wf(&self) -> bool {
        &&& self.suffix@ == self.prefix@.push(PAD_BYTE)
        &&& self.suffix_off == suffix_offset(self.suffix@.len())
    }

    /// The pattern compiled from the text `s`.
    pub open spec fn compiled_from(&self, s: Seq<char>) -> bool {
        &&& self.wf()
        &&& self.prefix@ == ascii_bytes(s)
    }

    /// The test that the matcher makes: the first bytes of `e` equal `prefix`,
    /// or the bytes of `e` from `suffix_off` on equal `suffix`.
    pub open spec fn hits(&self, e: Seq<u8>) -> bool {
        ||| starts_with(e, self.prefix@)
        ||| (self.suffix@.len() <= e.len() && e.subrange(self.suffix_off as int, e.len() as int)
            == self.suffix@)
    }
}

/// Some pattern of the list hits `e`.
pub open spec fn any_hits(e: Seq<u8>, pats: Seq<Pattern>) -> bool {
    exists|i: int| 0 <= i < pats.len() && #[trigger] pats[i].hits(e)
}

fn is_symbol(c: char) -> (r: bool)
    ensures
        r == is_b64_symbol(c),
{
    ('A' <= c && c <= 'Z') || ('a' <= c && c <= 'z') || ('0' <= c && c <= '9') || c == '+'
        || c == '/'
}

/// Tells whether `s` may be searched for: it is non-empty and uses only the
/// Base64 alphabet `[A-Za-z0-9+/]`.
pub fn is_base64_search(s: &str) -> (r: bool)
    ensures
        r == is_search_text(s@),
{
    let n = s.unicode_len();
    if n == 0 {
        return false;
    }
    let mut i: usize = 0;
    while i < n
        invariant
            n == s@.len(),
            i <= n,
            forall|j: int| 0 <= j < i ==> #[trigger] is_b64_symbol(s@[j]),
        decreases n - i,
    {
        let c = s.get_char(i);
        if !is_symbol(c) {
            return false;
        }
        i = i + 1;
    }
    true
}

/// Compiles the search text `s`; `None` where `s` is empty or holds a
/// character outside the Base64 alphabet.
pub fn compile_pattern(s: &str) -> (r: Option<Pattern>)
    ensures
        r is Some <==> is_search_text(s@),
        r matches Some(p) ==> p.compiled_from(s@),
{
    if !is_base64_search(s) {
        return None;
    }
    let n = s.unicode_len();
    let mut prefix: Vec<u8> = Vec::new();
    let mut i: usize = 0;
    while i < n
        invariant
            n == s@.len(),
            i <= n,
            prefix@ == ascii_bytes(s@.subrange(0, i as int)),
        decreases n - i,
    {
        let c = s.get_char(i);
        prefix.push(c as u8);
        assert(s@.subrange(0, i + 1) == s@.subrange(0, i as int).push(c));
        assert(ascii_bytes(s@.subrange(0, i + 1)) =~= ascii_bytes(s@.subrange(0, i as int)).push(
            c as u8,
        ));
        i = i + 1;
    }
    assert(s@.subrange(0, n as int) == s@);
    let mut suffix = prefix.clone();
    suffix.push(PAD_BYTE);
    let suffix_off: usize = if suffix.len() <= ENCODED_LEN {
        ENCODED_LEN - suffix.len()
    } else {
        0
    };
    Some(Pattern { prefix, suffix, suffix_off })
}

fn bytes_equal_at(e: &[u8], start: usize, p: &Vec<u8>) -> (r: bool)
    requires
        start + p@.len() <= e@.len(),
    ensures
        r == (e@.subrange(start as int, start + p@.len()) == p@),
{
    let elen = e.len();
    let mut i: usize = 0;
    while i < p.len()
        invariant
            start + p@.len() <= e@.len(),
            elen == e@.len(),
            i <= p@.len(),
            forall|j: int| 0 <= j < i ==> e@[start + j] == p@[j],
        decreases p@.len() - i,
    {
        if e[start + i] != p[i] {
            assert(e@.subrange(start as int, start + p@.len())[i as int] != p@[i as int]);
            return false;
        }
        i = i + 1;
    }
    assert(e@.subrange(start as int, start + p@.len()) =~= p@);
    true
}

impl Pattern {
    /// Tests one encoded key against this pattern, by prefix and by suffix.
    pub fn hits_key(&self, enc: &[u8]) -> (r: bool)
        requires
            self.wf(),
            enc@.len() == ENCODED_LEN,
        ensures
            r == self.hits(enc@),
    {
        if self.prefix.len() <= enc.len() && bytes_equal_at(enc, 0, &self.prefix) {
            return true;
        }
        self.suffix.len() <= enc.len() && bytes_equal_at(enc, self.suffix_off, &self.suffix)
    }
}

/// Tests one encoded key against every pattern, in order, and stops at the
/// first that hits.
pub fn matches_any(enc: &[u8], pats: &Vec<Pattern>) -> (r: bool)
    requires
        enc@.len() == ENCODED_LEN,
        forall|i: int| 0 <= i < pats@.len() ==> #[trigger] pats@[i].wf(),
    ensures
        r == any_hits(enc@, pats@),
{
    let mut i: usize = 0;
    while i < pats.len()
        invariant
            enc@.len() == ENCODED_LEN,
            forall|k: int| 0 <= k < pats@.len() ==> #[trigger] pats@[k].wf(),
            i <= pats@.len(),
            forall|j: int| 0 <= j < i ==> !(#[trigger] pats@[j].hits(enc@)),
        decreases pats@.len() - i,
    {
        if pats[i].hits_key(enc) {
            return true;
        }
        i = i + 1;
    }
    false
}

/// A pattern compiled from the text `s` holds `s` as its prefix and `s`
/// followed by the padding symbol as its suffix, and it hits an encoded key
/// exactly where the key starts with `s` or ends with `s` and the padding
/// symbol.
pub proof fn lemma_compiled_pattern_hits(s: Seq<char>, p: Pattern, e: Seq<u8>)
    requires
        is_search_text(s),
        s.len() <= ENCODED_LEN,
        p.compiled_from(s),
        e.len() == ENCODED_LEN,
    ensures
        p.prefix@ == ascii_bytes(s),
        p.suffix@ == ascii_bytes(s).push(PAD_BYTE),
        p.hits(e) <==> (starts_with(e, ascii_bytes(s)) || ends_with(e, ascii_bytes(s).push(PAD_BYTE))),
{
}

} // verus!
