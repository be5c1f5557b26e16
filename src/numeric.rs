use vstd::prelude::*;
use crate::convert::{nat_text, push_nat, push_zero_padded, zero_padded};

verus! {

/// The big-endian 16-bit integer at byte `i`.
pub open spec fn be16(b: Seq<u8>, i: int) -> int {
    b[i] as int * 256 + b[i + 1] as int
}

pub open spec fn numeric_ndigits(b: Seq<u8>) -> int {
    be16(b, 0)
}

/// The weight of the first base-10000 group: the power of 10000 it stands for.
pub open spec fn numeric_weight(b: Seq<u8>) -> int {
    if be16(b, 2) >= 0x8000 {
        be16(b, 2) - 0x10000
    } else {
        be16(b, 2)
    }
}

pub open spec fn numeric_sign(b: Seq<u8>) -> int {
    be16(b, 4)
}

/// The number of decimal digits shown after the point.
pub open spec fn numeric_dscale(b: Seq<u8>) -> int {
    be16(b, 6)
}

/// Base-10000 group `i`; groups past the stored ones are zero.
pub open spec fn numeric_group(b: Seq<u8>, i: int) -> int {
    if 0 <= i < numeric_ndigits(b) {
        be16(b, 8 + 2 * i)
    } else {
        0
    }
}

pub const NUMERIC_POS: u16 = 0x0000;
pub const NUMERIC_NEG: u16 = 0x4000;
pub const NUMERIC_NAN: u16 = 0xC000;
pub const NUMERIC_PINF: u16 = 0xD000;
pub const NUMERIC_NINF: u16 = 0xF000;

/// The store's binary form of a NUMERIC value: a header of four 16-bit
/// integers (group count, weight, sign, display scale), then the groups.
pub open spec fn numeric_wf(b: Seq<u8>) -> bool {
    &&& b.len() >= 8
    &&& b.len() == 8 + 2 * numeric_ndigits(b)
    &&& forall|i: int| 0 <= i < numeric_ndigits(b) ==> numeric_group(b, i) <= 9999
    &&& numeric_sign(b) == NUMERIC_POS || numeric_sign(b) == NUMERIC_NEG || numeric_sign(b) == NUMERIC_NAN
        || numeric_sign(b) == NUMERIC_PINF || numeric_sign(b) == NUMERIC_NINF
}

pub open spec fn numeric_is_finite(b: Seq<u8>) -> bool {
    numeric_sign(b) == NUMERIC_POS || numeric_sign(b) == NUMERIC_NEG
}

/// The integer part from groups `0..k`: the first group without leading
/// zeros, the others four digits each.
pub open spec fn int_groups_text(b: Seq<u8>, k: int) -> Seq<char>
    decreases k,
{
    if k <= 0 {
        Seq::empty()
    } else if k == 1 {
        nat_text(numeric_group(b, 0) as nat)
    } else {
        int_groups_text(b, k - 1) + zero_padded(numeric_group(b, k - 1) as nat, 4)
    }
}

/// The first `k` groups after the point, four digits each.
pub open spec fn frac_groups_text(b: Seq<u8>, k: int) -> Seq<char>
    decreases k,
{
    if k <= 0 {
        Seq::empty()
    } else {
        frac_groups_text(b, k - 1) + zero_padded(numeric_group(b, numeric_weight(b) + k) as nat, 4)
    }
}

/// The decimal literal of a finite NUMERIC value, as the store prints it:
/// every group and exactly `dscale` digits after the point.
pub open spec fn numeric_text(b: Seq<u8>) -> Seq<char> {
    let ds = numeric_dscale(b);
    let sign = if numeric_sign(b) == NUMERIC_NEG {
        seq!['-']
    } else {
        Seq::empty()
    };
    let ip = if numeric_weight(b) < 0 {
        seq!['0']
    } else {
        int_groups_text(b, numeric_weight(b) + 1)
    };
    let fp = if ds > 0 {
        seq!['.'] + frac_groups_text(b, (ds + 3) / 4).take(ds)
    } else {
        Seq::empty()
    };
    sign + ip + fp
}

pub open spec fn pow10(k: nat) -> nat
    decreases k,
{
    if k == 0 {
        1
    } else {
        10 * pow10((k - 1) as nat)
    }
}

proof fn lemma_nat_text_len(n: nat, k: nat)
    requires
        k >= 1,
        n < pow10(k),
    ensures
        nat_text(n).len() <= k,
    decreases k,
{
    if n >= 10 {
        let p = pow10((k - 1) as nat);
        assert(k >= 2) by {
            if k == 1 {
                assert(pow10(0) == 1);
            }
        }
        assert(n / 10 < p) by (nonlinear_arith)
            requires
                n < 10 * p,
        ;
        lemma_nat_text_len(n / 10, (k - 1) as nat);
    }
}

proof fn lemma_padded4_len(g: int)
    requires
        0 <= g <= 9999,
    ensures
        zero_padded(g as nat, 4).len() == 4,
{
    assert(pow10(0) == 1);
    assert(pow10(1) == 10);
    assert(pow10(2) == 100);
    assert(pow10(3) == 1000);
    assert(pow10(4) == 10000);
    lemma_nat_text_len(g as nat, 4);
}

proof fn lemma_frac_len(b: Seq<u8>, k: int)
    requires
        numeric_wf(b),
        k >= 0,
    ensures
        frac_groups_text(b, k).len() == 4 * k,
    decreases k,
{
    if k > 0 {
        lemma_frac_len(b, k - 1);
        let i = numeric_weight(b) + k;
        if 0 <= i < numeric_ndigits(b) {
            lemma_padded4_len(numeric_group(b, i));
        } else {
            lemma_padded4_len(0);
        }
    }
}

fn read_be16(b: &[u8], i: usize) -> (r: u16)
    requires
        i + 1 < b@.len(),
    ensures
        r as int == be16(b@, i as int),
{
    (b[i] as u16) * 256 + (b[i + 1] as u16)
}

fn group_at(b: &[u8], ndigits: usize, i: i64) -> (r: u64)
    requires
        numeric_wf(b@),
        ndigits as int == numeric_ndigits(b@),
    ensures
        r as int == numeric_group(b@, i as int),
        r <= 9999,
{
    if 0 <= i && i < ndigits as i64 {
        let g = read_be16(b, 8 + 2 * (i as usize));
        g as u64
    } else {
        0
    }
}

/// Reads the store's binary NUMERIC form: `None` where the bytes are not of
/// that form, `Some(None)` for NaN and the infinities, which JSON numbers
/// cannot hold, and else the exact literal.
pub fn numeric_literal(b: &[u8]) -> (r: Option<Option<String>>)
    ensures
        match r {
            None => !numeric_wf(b@),
            Some(None) => numeric_wf(b@) && !numeric_is_finite(b@),
            Some(Some(t)) => numeric_wf(b@) && numeric_is_finite(b@) && t@ == numeric_text(b@),
        },
{
    if b.len() < 8 {
        return None;
    }
    let ndigits = read_be16(b, 0) as usize;
    if b.len() != 8 + 2 * ndigits {
        return None;
    }
    let mut i: usize = 0;
    while i < ndigits
        invariant
            b@.len() == 8 + 2 * ndigits,
            ndigits as int == numeric_ndigits(b@),
            i <= ndigits,
            forall|j: int| 0 <= j < i ==> numeric_group(b@, j) <= 9999,
        decreases ndigits - i,
    {
        if read_be16(b, 8 + 2 * i) > 9999 {
            assert(numeric_group(b@, i as int) > 9999);
            return None;
        }
        i = i + 1;
    }
    let raw_weight = read_be16(b, 2);
    let sign = read_be16(b, 4);
    let dscale = read_be16(b, 6) as usize;
    if sign != NUMERIC_POS && sign != NUMERIC_NEG && sign != NUMERIC_NAN && sign != NUMERIC_PINF
        && sign != NUMERIC_NINF {
        return None;
    }
    if sign != NUMERIC_POS && sign != NUMERIC_NEG {
        return Some(None);
    }
    let weight: i64 = if raw_weight >= 0x8000 {
        raw_weight as i64 - 0x10000
    } else {
        raw_weight as i64
    };
    let mut out = String::new();
    if sign == NUMERIC_NEG {
        out.push('-');
    }
    let ghost signed = out@;
    if weight < 0 {
        out.push('0');
    } else {
        push_nat(&mut out, group_at(b, ndigits, 0));
        let mut k: i64 = 1;
        while k <= weight
            invariant
                numeric_wf(b@),
                ndigits as int == numeric_ndigits(b@),
                0 <= weight < 0x8000,
                1 <= k <= weight + 1,
                out@ == signed + int_groups_text(b@, k as int),
            decreases weight + 1 - k,
        {
            push_zero_padded(&mut out, group_at(b, ndigits, k), 4);
            k = k + 1;
        }
    }
    let ghost int_done = out@;
    if dscale > 0 {
        out.push('.');
        let groups: i64 = ((dscale + 3) / 4) as i64;
        let mut frac = String::new();
        let mut k: i64 = 1;
        while k <= groups
            invariant
                numeric_wf(b@),
                ndigits as int == numeric_ndigits(b@),
                -0x8000 <= weight < 0x8000,
                weight as int == numeric_weight(b@),
                groups as int == (numeric_dscale(b@) + 3) / 4,
                0 < numeric_dscale(b@) <= 0xFFFF,
                1 <= k <= groups + 1,
                frac@ == frac_groups_text(b@, k - 1),
            decreases groups + 1 - k,
        {
            push_zero_padded(&mut frac, group_at(b, ndigits, weight + k), 4);
            k = k + 1;
        }
        proof {
            lemma_frac_len(b@, groups as int);
        }
        let shown = frac.as_str().substring_char(0, dscale);
        out.append(shown);
    }
    assert(out@ =~= numeric_text(b@));
    Some(Some(out))
}

} // verus!
