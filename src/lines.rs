//! The text lines the search prints.
use vstd::prelude::*;
use crate::magnitude::{human, human_text};
use crate::search::FoundKey;

verus! {

/// `FOUND: pub=` as bytes.
pub open spec fn found_head() -> Seq<u8> {
    seq![70u8, 79u8, 85u8, 78u8, 68u8, 58u8, 32u8, 112u8, 117u8, 98u8, 61u8]
}

/// ` priv=` as bytes.
pub open spec fn private_head() -> Seq<u8> {
    seq![32u8, 112u8, 114u8, 105u8, 118u8, 61u8]
}

/// The line for a found key: `FOUND: pub=<public text> priv=<private text>`.
pub open spec fn found_line_text(f: FoundKey) -> Seq<u8> {
    found_head() + f.public_text@ + private_head() + f.private_text@
}

fn append_bytes(out: &mut Vec<u8>, b: &[u8])
    ensures
        final(out)@ == old(out)@ + b@,
{
    let mut i: usize = 0;
    while i < b.len()
        invariant
            i <= b@.len(),
            out@ == old(out)@ + b@.subrange(0, i as int),
        decreases b@.len() - i,
    {
        out.push(b[i]);
        assert(b@.subrange(0, i + 1) == b@.subrange(0, i as int).push(b@[i as int]));
        i = i + 1;
    }
    assert(b@.subrange(0, b@.len() as int) == b@);
}

/// The line printed for a found key pair.
pub fn found_line(f: &FoundKey) -> (r: Vec<u8>)
    ensures
        r@ == found_line_text(*f),
{
    let head: [u8; 11] = [70u8, 79u8, 85u8, 78u8, 68u8, 58u8, 32u8, 112u8, 117u8, 98u8, 61u8];
    let mid: [u8; 6] = [32u8, 112u8, 114u8, 105u8, 118u8, 61u8];
    assert(head@ =~= found_head());
    assert(mid@ =~= private_head());
    let mut out: Vec<u8> = Vec::new();
    append_bytes(&mut out, head.as_slice());
    append_bytes(&mut out, f.public_text.as_slice());
    append_bytes(&mut out, mid.as_slice());
    append_bytes(&mut out, f.private_text.as_slice());
    assert(out@ =~= found_line_text(*f));
    out
}

/// The periodic report: `Keys: total=<total>, <rate>/s`, both counts with a
/// magnitude suffix.
pub fn keys_line(total: u64, rate: u64) -> (r: String)
    ensures
        r@ == "Keys: total="@ + human_text(total as nat) + ", "@ + human_text(rate as nat) + "/s"@,
{
    let t = human(total);
    let p = human(rate);
    String::from_str("Keys: total=").concat(t.as_str()).concat(", ").concat(p.as_str()).concat(
        "/s",
    )
}

} // verus!
