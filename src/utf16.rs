use vstd::prelude::*;

verus! {

/// The UTF-16 code units of one character: one unit below U+10000, else a
/// high and a low surrogate.
pub open spec fn units_of_char(c: char) -> Seq<u16> {
    let v = c as u32;
    if v < 0x10000 {
        seq![v as u16]
    } else {
        seq![(0xD800 + (v - 0x10000) / 0x400) as u16, (0xDC00 + (v - 0x10000) % 0x400) as u16]
    }
}

/// The UTF-16 encoding of a text.
pub open spec fn utf16_of(s: Seq<char>) -> Seq<u16>
    decreases s.len(),
{
    if s.len() == 0 {
        Seq::empty()
    } else {
        utf16_of(s.drop_last()) + units_of_char(s.last())
    }
}

pub open spec fn is_high_surrogate(u: u16) -> bool {
    0xD800 <= u < 0xDC00
}

pub open spec fn is_low_surrogate(u: u16) -> bool {
    0xDC00 <= u < 0xE000
}

pub open spec fn pair_value(hi: u16, lo: u16) -> u32 {
    (0x10000 + (hi - 0xD800) * 0x400 + (lo - 0xDC00)) as u32
}

pub open spec fn prepend(p: Seq<char>, rest: Option<Seq<char>>) -> Option<Seq<char>> {
    match rest {
        Some(r) => Some(p + r),
        None => None,
    }
}

/// The text that a sequence of UTF-16 code units spells, or `None` where a
/// surrogate stands unpaired.
pub open spec fn utf16_decode(u: Seq<u16>) -> Option<Seq<char>>
    decreases u.len(),
{
    if u.len() == 0 {
        Some(Seq::empty())
    } else if is_high_surrogate(u[0]) && u.len() >= 2 && is_low_surrogate(u[1]) {
        prepend(seq![pair_value(u[0], u[1]) as char], utf16_decode(u.subrange(2, u.len() as int)))
    } else if is_high_surrogate(u[0]) || is_low_surrogate(u[0]) {
        None
    } else {
        prepend(seq![u[0] as char], utf16_decode(u.subrange(1, u.len() as int)))
    }
}

/// Relies on `char::from_u32`: the character of a Unicode scalar value, and
/// `None` for a surrogate or a value past U+10FFFF.
pub assume_specification[ char::from_u32 ](i: u32) -> (r: Option<char>)
    ensures
        r == (if i <= 0xD7FF || (0xE000 <= i <= 0x10FFFF) {
            Some(i as char)
        } else {
            None
        }),
;

/// Relies on `String::push`: the character is appended at the end.
pub assume_specification[ std::string::String::push ](s: &mut std::string::String, ch: char)
    ensures
        final(s)@ == old(s)@.push(ch),
;

/// Decodes UTF-16 code units into text; `None` where a surrogate stands unpaired.
pub fn decode_utf16(u: &[u16]) -> (r: Option<String>)
    ensures
        match r {
            Some(t) => utf16_decode(u@) == Some(t@),
            None => utf16_decode(u@) is None,
        },
{
    let mut out = String::new();
    let n = u.len();
    let mut i: usize = 0;
    proof {
        assert(u@.subrange(0, n as int) =~= u@);
        if let Some(r) = utf16_decode(u@) {
            assert(out@ + r =~= r);
        }
    }
    while i < n
        invariant
            n == u@.len(),
            i <= n,
            utf16_decode(u@) == prepend(out@, utf16_decode(u@.subrange(i as int, n as int))),
        decreases n - i,
    {
        let ghost rest = u@.subrange(i as int, n as int);
        let a = u[i];
        if 0xD800 <= a && a < 0xDC00 && i + 1 < n && 0xDC00 <= u[i + 1] && u[i + 1] < 0xE000 {
            let b = u[i + 1];
            let v: u32 = 0x10000 + (a as u32 - 0xD800) * 0x400 + (b as u32 - 0xDC00);
            match char::from_u32(v) {
                Some(c) => {
                    proof {
                        assert(rest.subrange(2, rest.len() as int) =~= u@.subrange(i + 2, n as int));
                        assert(out@.push(c) =~= out@ + seq![c]);
                    }
                    out.push(c);
                },
                None => {
                    return None;
                },
            }
            i = i + 2;
        } else if 0xD800 <= a && a < 0xE000 {
            return None;
        } else {
            match char::from_u32(a as u32) {
                Some(c) => {
                    proof {
                        assert(rest.subrange(1, rest.len() as int) =~= u@.subrange(i + 1, n as int));
                        assert(out@.push(c) =~= out@ + seq![c]);
                    }
                    out.push(c);
                },
                None => {
                    return None;
                },
            }
            i = i + 1;
        }
    }
    Some(out)
}

/// Encodes text as UTF-16 code units.
pub fn encode_utf16(s: &str) -> (r: Vec<u16>)
    ensures
        r@ == utf16_of(s@),
{
    let mut out: Vec<u16> = Vec::new();
    for c in it: s.chars()
        invariant
            it.seq() == s@,
            out@ == utf16_of(s@.take(it.index() as int)),
    {
        let ghost before = out@;
        let v = c as u32;
        if v < 0x10000 {
            out.push(v as u16);
        } else {
            let w: u32 = v - 0x10000;
            out.push((0xD800 + w / 0x400) as u16);
            out.push((0xDC00 + w % 0x400) as u16);
        }
        proof {
            let i = it.index() as int;
            assert(s@.take(i + 1).drop_last() =~= s@.take(i));
            assert(out@ =~= before + units_of_char(c));
        }
    }
    assert(s@.take(s@.len() as int) =~= s@);
    out
}

} // verus!

verus! {

proof fn lemma_decode_concat(a: Seq<u16>, b: Seq<u16>)
    requires
        utf16_decode(a) is Some,
        utf16_decode(b) is Some,
    ensures
        utf16_decode(a + b) == Some(utf16_decode(a)->0 + utf16_decode(b)->0),
    decreases a.len(),
{
    if a.len() == 0 {
        assert(a + b =~= b);
        assert(utf16_decode(a)->0 + utf16_decode(b)->0 =~= utf16_decode(b)->0);
    } else {
        let ab = a + b;
        let k: int = if is_high_surrogate(a[0]) && a.len() >= 2 && is_low_surrogate(a[1]) { 2 } else { 1 };
        assert(ab.subrange(k, ab.len() as int) =~= a.subrange(k, a.len() as int) + b);
        lemma_decode_concat(a.subrange(k, a.len() as int), b);
        let x = utf16_decode(a.subrange(k, a.len() as int))->0;
        let y = utf16_decode(b)->0;
        let h = utf16_decode(a)->0.subrange(0, utf16_decode(a)->0.len() - x.len());
        assert(ab[0] == a[0]);
        if k == 2 {
            assert(ab[1] == a[1]);
            assert(utf16_decode(a)->0 == seq![pair_value(a[0], a[1]) as char] + x);
            assert(seq![pair_value(a[0], a[1]) as char] + (x + y) =~= (seq![pair_value(a[0], a[1]) as char] + x) + y);
        } else {
            if a.len() >= 2 {
                assert(ab[1] == a[1]);
            }
            assert(utf16_decode(a)->0 == seq![a[0] as char] + x);
            assert(seq![a[0] as char] + (x + y) =~= (seq![a[0] as char] + x) + y);
        }
    }
}

proof fn lemma_decode_char(c: char)
    ensures
        utf16_decode(units_of_char(c)) == Some(seq![c]),
{
    let v = c as u32;
    let u = units_of_char(c);
    if v < 0x10000 {
        assert(u.subrange(1, 1) =~= Seq::<u16>::empty());
        assert(utf16_decode(u.subrange(1, 1)) == Some(Seq::<char>::empty()));
        assert(seq![c] + Seq::<char>::empty() =~= seq![c]);
        assert((v as u16) as char == c);
    } else {
        let w = (v - 0x10000) as int;
        assert(0 <= w < 0x100000);
        let hi = w / 0x400;
        let lo = w % 0x400;
        assert(0 <= hi < 0x400 && 0 <= lo < 0x400 && w == hi * 0x400 + lo) by (nonlinear_arith)
            requires
                0 <= w < 0x100000,
                hi == w / 0x400,
                lo == w % 0x400,
        ;
        assert(u[0] == (0xD800 + hi) as u16);
        assert(u[1] == (0xDC00 + lo) as u16);
        assert(pair_value(u[0], u[1]) == v);
        assert((v as char) == c);
        assert(is_high_surrogate(u[0]) && is_low_surrogate(u[1]));
        assert(u.subrange(2, 2) =~= Seq::<u16>::empty());
        assert(utf16_decode(u.subrange(2, 2)) == Some(Seq::<char>::empty()));
        assert(seq![c] + Seq::<char>::empty() =~= seq![c]);
    }
}

proof fn lemma_utf16_of_concat(a: Seq<char>, b: Seq<char>)
    ensures
        utf16_of(a + b) == utf16_of(a) + utf16_of(b),
    decreases b.len(),
{
    if b.len() == 0 {
        assert(a + b =~= a);
        assert(utf16_of(a) + utf16_of(b) =~= utf16_of(a));
    } else {
        assert((a + b).drop_last() =~= a + b.drop_last());
        assert((a + b).last() == b.last());
        lemma_utf16_of_concat(a, b.drop_last());
        assert(utf16_of(a) + utf16_of(b) =~= (utf16_of(a) + utf16_of(b.drop_last())) + units_of_char(b.last()));
    }
}

/// Encoding any text as UTF-16 and decoding the code units again gives back
/// the same text.
pub proof fn lemma_decode_encode(s: Seq<char>)
    ensures
        utf16_decode(utf16_of(s)) == Some(s),
    decreases s.len(),
{
    if s.len() == 0 {
        assert(utf16_of(s) =~= Seq::<u16>::empty());
    } else {
        lemma_decode_encode(s.drop_last());
        lemma_decode_char(s.last());
        lemma_decode_concat(utf16_of(s.drop_last()), units_of_char(s.last()));
        assert(s.drop_last() + seq![s.last()] =~= s);
    }
}

/// Every well-formed UTF-16 buffer is exactly the encoding of the text that it
/// decodes to.
pub proof fn lemma_encode_decode(u: Seq<u16>)
    requires
        utf16_decode(u) is Some,
    ensures
        utf16_of(utf16_decode(u)->0) == u,
    decreases u.len(),
{
    if u.len() == 0 {
        assert(utf16_of(Seq::<char>::empty()) =~= Seq::<u16>::empty());
    } else {
        let k: int = if is_high_surrogate(u[0]) && u.len() >= 2 && is_low_surrogate(u[1]) { 2 } else { 1 };
        let rest = u.subrange(k, u.len() as int);
        lemma_encode_decode(rest);
        let c: char = if k == 2 { pair_value(u[0], u[1]) as char } else { u[0] as char };
        assert(utf16_decode(u)->0 == seq![c] + utf16_decode(rest)->0);
        lemma_utf16_of_concat(seq![c], utf16_decode(rest)->0);
        assert(seq![c].drop_last() =~= Seq::<char>::empty());
        assert(utf16_of(seq![c]) =~= units_of_char(c)) by {
            assert(utf16_of(Seq::<char>::empty()) =~= Seq::<u16>::empty());
        }
        if k == 2 {
            let hi = (u[0] - 0xD800) as int;
            let lo = (u[1] - 0xDC00) as int;
            let w = hi * 0x400 + lo;
            assert(0 <= w < 0x100000 && w / 0x400 == hi && w % 0x400 == lo) by (nonlinear_arith)
                requires
                    0 <= hi < 0x400,
                    0 <= lo < 0x400,
                    w == hi * 0x400 + lo,
            ;
            assert((c as u32) == 0x10000 + w);
            assert(units_of_char(c) =~= u.subrange(0, 2));
        } else {
            assert(units_of_char(c) =~= u.subrange(0, 1));
        }
        assert(u =~= u.subrange(0, k) + rest);
    }
}

} // verus!
