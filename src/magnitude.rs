//! Counts written with a magnitude suffix (`K`, `M`, `G`, `T`, `P`, `E`):
//! two decimals below 10 units of the suffix, one below 100, none above.
use vstd::prelude::*;

verus! {

pub open spec fn pow1000(k: nat) -> nat
    decreases k,
{
    if k == 0 {
        1
    } else {
        1000 * pow1000((k - 1) as nat)
    }
}

/// The suffix index for `n`, counting up from `k`: one step per factor of
/// 1000 that `n` reaches, at most six.
pub open spec fn scale_from(n: nat, k: nat) -> nat
    decreases 6 - k,
{
    if k < 6 && n >= pow1000(k + 1) {
        scale_from(n, k + 1)
    } else {
        k
    }
}

/// Decimals shown for `n` at suffix index `k`.
pub open spec fn decimals(n: nat, k: nat) -> nat {
    if n >= 1000 && n < 10 * pow1000(k) {
        2
    } else if n >= 1000 && n < 100 * pow1000(k) {
        1
    } else {
        0
    }
}

/// Ten to the power `d`, for the decimals shown.
pub open spec fn decimal_unit(d: nat) -> nat {
    if d == 0 {
        1
    } else if d == 1 {
        10
    } else {
        100
    }
}

/// `num / den` rounded to the nearest integer, ties to the even one.
pub open spec fn round_div(num: nat, den: nat) -> nat {
    let q = num / den;
    let r = num % den;
    if 2 * r > den || (2 * r == den && q % 2 == 1) {
        q + 1
    } else {
        q
    }
}

pub open spec fn digit_char(d: nat) -> char {
    (('0' as u8) + d) as char
}

/// Decimal digits of `v`, without leading zeros.
pub open spec fn dec_text(v: nat) -> Seq<char>
    decreases v,
{
    if v < 10 {
        seq![digit_char(v)]
    } else {
        dec_text(v / 10).push(digit_char(v % 10))
    }
}

/// The last `d` decimal digits of `v`, leading zeros kept.
pub open spec fn frac_text(v: nat, d: nat) -> Seq<char>
    decreases d,
{
    if d == 0 {
        seq![]
    } else {
        frac_text(v / 10, (d - 1) as nat).push(digit_char(v % 10))
    }
}

pub open spec fn suffix_text(k: nat) -> Seq<char> {
    if k == 0 {
        seq![]
    } else if k == 1 {
        seq!['K']
    } else if k == 2 {
        seq!['M']
    } else if k == 3 {
        seq!['G']
    } else if k == 4 {
        seq!['T']
    } else if k == 5 {
        seq!['P']
    } else {
        seq!['E']
    }
}

/// The text for `n`: `n / 1000^k` rounded to the decimals shown, then the
/// suffix.
pub open spec fn human_text(n: nat) -> Seq<char> {
    let k = scale_from(n, 0);
    let d = decimals(n, k);
    let q = round_div(n * decimal_unit(d), pow1000(k));
    let number = if d == 0 {
        dec_text(q)
    } else {
        dec_text(q / decimal_unit(d)) + seq!['.'] + frac_text(q % decimal_unit(d), d)
    };
    number + suffix_text(k)
}

fn digit_str(d: u128) -> (r: &'static str)
    requires
        d < 10,
    ensures
        r@ == seq![digit_char(d as nat)],
{
    proof {
        reveal_strlit("0");
        reveal_strlit("1");
        reveal_strlit("2");
        reveal_strlit("3");
        reveal_strlit("4");
        reveal_strlit("5");
        reveal_strlit("6");
        reveal_strlit("7");
        reveal_strlit("8");
        reveal_strlit("9");
    }
    if d == 0 {
        "0"
    } else if d == 1 {
        "1"
    } else if d == 2 {
        "2"
    } else if d == 3 {
        "3"
    } else if d == 4 {
        "4"
    } else if d == 5 {
        "5"
    } else if d == 6 {
        "6"
    } else if d == 7 {
        "7"
    } else if d == 8 {
        "8"
    } else {
        "9"
    }
}

fn suffix_str(k: usize) -> (r: &'static str)
    requires
        k <= 6,
    ensures
        r@ == suffix_text(k as nat),
{
    proof {
        reveal_strlit("");
        reveal_strlit("K");
        reveal_strlit("M");
        reveal_strlit("G");
        reveal_strlit("T");
        reveal_strlit("P");
        reveal_strlit("E");
    }
    if k == 0 {
        ""
    } else if k == 1 {
        "K"
    } else if k == 2 {
        "M"
    } else if k == 3 {
        "G"
    } else if k == 4 {
        "T"
    } else if k == 5 {
        "P"
    } else {
        "E"
    }
}

fn append_dec(s: &mut String, v: u128)
    ensures
        final(s)@ == old(s)@ + dec_text(v as nat),
    decreases v,
{
    if v >= 10 {
        append_dec(s, v / 10);
    }
    s.append(digit_str(v % 10));
}

fn append_frac(s: &mut String, v: u128, d: u128)
    ensures
        final(s)@ == old(s)@ + frac_text(v as nat, d as nat),
    decreases d,
{
    if d > 0 {
        append_frac(s, v / 10, d - 1);
        s.append(digit_str(v % 10));
    }
}

fn scale_of(n: u64) -> (r: (usize, u64))
    ensures
        r.0 == scale_from(n as nat, 0),
        r.1 == pow1000(r.0 as nat),
        r.0 <= 6,
        r.1 >= 1,
{
    let mut k: usize = 0;
    let mut p: u64 = 1;
    while k < 6 && n >= p * 1000
        invariant
            k <= 6,
            p == pow1000(k as nat),
            k == 0 ==> p == 1,
            k == 1 ==> p == 1000,
            k == 2 ==> p == 1_000_000,
            k == 3 ==> p == 1_000_000_000,
            k == 4 ==> p == 1_000_000_000_000u64,
            k == 5 ==> p == 1_000_000_000_000_000u64,
            k == 6 ==> p == 1_000_000_000_000_000_000u64,
            scale_from(n as nat, 0) == scale_from(n as nat, k as nat),
        decreases 6 - k,
    {
        p = p * 1000;
        k = k + 1;
    }
    (k, p)
}

fn round_quotient(num: u128, den: u128) -> (q: u128)
    requires
        den >= 1,
    ensures
        q == round_div(num as nat, den as nat),
{
    let q0: u128 = num / den;
    let rem: u128 = num % den;
    if rem > den - rem || (rem == den - rem && q0 % 2 == 1) {
        assert(q0 < 0xffff_ffff_ffff_ffff_ffff_ffff_ffff_ffffu128) by (nonlinear_arith)
            requires
                q0 == num / den,
                rem == num % den,
                rem >= den - rem,
                rem < den,
                den >= 1,
        ;
        q0 + 1
    } else {
        q0
    }
}

/// Writes `n` with a magnitude suffix: `999`, `1.50K`, `12.3M`, `456G`.
pub fn human(n: u64) -> (r: String)
    ensures
        r@ == human_text(n as nat),
{
    let (k, p) = scale_of(n);
    let d: u128 = if n >= 1000 && (n as u128) < 10 * (p as u128) {
        2
    } else if n >= 1000 && (n as u128) < 100 * (p as u128) {
        1
    } else {
        0
    };
    let unit: u128 = if d == 0 {
        1
    } else if d == 1 {
        10
    } else {
        100
    };
    assert(d == decimals(n as nat, k as nat));
    assert(unit == decimal_unit(d as nat));
    assert((n as u128) * unit <= 0xffff_ffff_ffff_ffffu128 * 100) by (nonlinear_arith)
        requires
            unit <= 100,
            n <= 0xffff_ffff_ffff_ffffu64,
    ;
    let q = round_quotient((n as u128) * unit, p as u128);
    let mut s = String::new();
    if d == 0 {
        append_dec(&mut s, q);
    } else {
        append_dec(&mut s, q / unit);
        s.append(".");
        append_frac(&mut s, q % unit, d);
    }
    s.append(suffix_str(k));
    proof {
        reveal_strlit(".");
    }
    s
}

} // verus!
