//! Parsing of enhanced keyboard events of the form `ESC [ codepoint ; modifiers u`.
use vstd::prelude::*;
use vstd::utf8::valid_utf8;

verus! {

pub const ESC: u8 = 0x1b;

/// Index of the first `b` in `s` at or after `from`, or `s.len()` when there is none.
pub open spec fn find_from(s: Seq<u8>, b: u8, from: int) -> int
    decreases s.len() - from,
{
    if from >= s.len() {
        s.len() as int
    } else if s[from] == b {
        from
    } else {
        find_from(s, b, from + 1)
    }
}

pub open spec fn is_digit(b: u8) -> bool {
    0x30 <= b <= 0x39
}

pub open spec fn all_digits(s: Seq<u8>) -> bool {
    forall|i: int| 0 <= i < s.len() ==> is_digit(#[trigger] s[i])
}

/// The number written by the decimal digits `s`.
pub open spec fn digits_value(s: Seq<u8>) -> nat
    decreases s.len(),
{
    if s.len() == 0 {
        0
    } else {
        digits_value(s.drop_last()) * 10 + (s.last() - 0x30) as nat
    }
}

/// `s` without a leading `+`.
pub open spec fn unsigned_digits(s: Seq<u8>) -> Seq<u8> {
    if s.len() > 0 && s[0] == 0x2b { s.drop_first() } else { s }
}

/// What parsing `s` as a `u32` gives: an optional `+`, then one or more decimal
/// digits whose value fits in 32 bits.
pub open spec fn parse_u32(s: Seq<u8>) -> Option<u32> {
    let t = unsigned_digits(s);
    if t.len() > 0 && all_digits(t) && digits_value(t) <= u32::MAX {
        Some(digits_value(t) as u32)
    } else {
        None
    }
}

/// The text before the first `;`.
pub open spec fn first_field(seg: Seq<u8>) -> Seq<u8> {
    seg.subrange(0, find_from(seg, 0x3b, 0))
}

/// The text between the first and the second `;`, if there is a first `;`.
pub open spec fn second_field(seg: Seq<u8>) -> Option<Seq<u8>> {
    let p = find_from(seg, 0x3b, 0);
    if p < seg.len() {
        Some(seg.subrange(p + 1, find_from(seg, 0x3b, p + 1)))
    } else {
        None
    }
}

/// The modifier parameter: the second field read as a number, 1 where it is
/// missing or not a number.
pub open spec fn modifier_param(seg: Seq<u8>) -> u32 {
    match second_field(seg) {
        Some(f) => match parse_u32(f) {
            Some(m) => m,
            None => 1,
        },
        None => 1,
    }
}

/// A key event read from the start of `data`: its codepoint, its modifier
/// parameter, and how many bytes it spans (up to and including the first `u`).
/// The text between `ESC [` and that `u` must be UTF-8 and must open with a number.
pub open spec fn csi_u_event(data: Seq<u8>) -> Option<(u32, u32, int)> {
    if data.len() >= 4 && data[0] == ESC && data[1] == 0x5b {
        let up = find_from(data, 0x75, 0);
        if 3 <= up < data.len() {
            let seg = data.subrange(2, up);
            if valid_utf8(seg) {
                match parse_u32(first_field(seg)) {
                    Some(cp) => Some((cp, modifier_param(seg), up + 1)),
                    None => None,
                }
            } else {
                None
            }
        } else {
            None
        }
    } else {
        None
    }
}

pub proof fn lemma_find_from(s: Seq<u8>, b: u8, from: int, i: int)
    requires
        0 <= from <= i <= s.len(),
        forall|j: int| from <= j < i ==> s[j] != b,
        i == s.len() || s[i] == b,
    ensures
        find_from(s, b, from) == i,
    decreases i - from,
{
    if from < i {
        lemma_find_from(s, b, from + 1, i);
    }
}

pub proof fn lemma_find_from_bounds(s: Seq<u8>, b: u8, from: int)
    requires
        0 <= from <= s.len(),
    ensures
        from <= find_from(s, b, from) <= s.len(),
        find_from(s, b, from) < s.len() ==> s[find_from(s, b, from)] == b,
    decreases s.len() - from,
{
    if from < s.len() && s[from] != b {
        lemma_find_from_bounds(s, b, from + 1);
    }
}

/// Relies on std::str::from_utf8, which fails exactly on byte strings that are
/// not UTF-8.
#[verifier::external_body]
fn is_utf8(b: &[u8]) -> (r: bool)
    ensures
        r == valid_utf8(b@),
{
    std::str::from_utf8(b).is_ok()
}

/// Index of the first `b` in `s` at or after `from`, or `s.len()`.
pub fn find_byte(s: &[u8], b: u8, from: usize) -> (r: usize)
    requires
        from <= s@.len(),
    ensures
        r == find_from(s@, b, from as int),
        from <= r <= s@.len(),
{
    let mut i = from;
    while i < s.len() && s[i] != b
        invariant
            from <= i <= s@.len(),
            forall|j: int| from <= j < i ==> s@[j] != b,
        decreases s@.len() - i,
    {
        i = i + 1;
    }
    proof {
        lemma_find_from(s@, b, from as int, i as int);
    }
    i
}

/// Reads `s` as a `u32` as `str::parse` does: an optional `+` and decimal digits.
pub fn parse_decimal(s: &[u8]) -> (r: Option<u32>)
    ensures
        r == parse_u32(s@),
{
    let start: usize = if s.len() > 0 && s[0] == 0x2b { 1 } else { 0 };
    let ghost t = unsigned_digits(s@);
    assert(t == s@.subrange(start as int, s@.len() as int));
    if start >= s.len() {
        return None;
    }
    let mut value: u32 = 0;
    let mut i = start;
    while i < s.len()
        invariant
            start <= i <= s@.len(),
            start < s@.len(),
            t == s@.subrange(start as int, s@.len() as int),
            t == unsigned_digits(s@),
            all_digits(s@.subrange(start as int, i as int)),
            value as nat == digits_value(s@.subrange(start as int, i as int)),
        decreases s@.len() - i,
    {
        let c = s[i];
        let ghost prev = s@.subrange(start as int, i as int);
        let ghost next = s@.subrange(start as int, i + 1);
        assert(next.drop_last() == prev);
        if c < 0x30 || c > 0x39 {
            assert(!all_digits(t)) by {
                assert(t[i - start] == c);
                assert(!is_digit(t[i - start]));
            }
            assert(parse_u32(s@) is None);
            return None;
        }
        let d = (c - 0x30) as u32;
        assert(digits_value(next) == digits_value(prev) * 10 + d as nat);
        if value > 429496729 || (value == 429496729 && d > 5) {
            proof {
                lemma_digits_value_grows(t, i + 1 - start);
            }
            assert(t.subrange(0, i + 1 - start) == next);
            assert(digits_value(prev) * 10 + d as nat > u32::MAX) by (nonlinear_arith)
                requires
                    value as nat == digits_value(prev),
                    value > 429496729 || (value == 429496729 && d > 5),
            ;
            assert(parse_u32(s@) is None);
            return None;
        }
        value = value * 10 + d;
        i = i + 1;
    }
    assert(s@.subrange(start as int, i as int) == t);
    Some(value)
}

/// A longer run of digits is worth at least as much as its prefix.
pub proof fn lemma_digits_value_grows(t: Seq<u8>, k: int)
    requires
        0 <= k <= t.len(),
    ensures
        digits_value(t) >= digits_value(t.subrange(0, k)),
    decreases t.len() - k,
{
    if k < t.len() {
        lemma_digits_value_grows(t, k + 1);
        let p = t.subrange(0, k + 1);
        assert(p.drop_last() == t.subrange(0, k));
        assert(digits_value(p) == digits_value(t.subrange(0, k)) * 10 + (p.last() - 0x30) as nat);
    } else {
        assert(t.subrange(0, k) == t);
    }
}

/// Reads a key event of the form `ESC [ codepoint [; modifiers] u` from the start of `data`.
pub fn parse_csi_u(data: &[u8]) -> (r: Option<(u32, u32, usize)>)
    ensures
        match csi_u_event(data@) {
            Some((cp, m, n)) => r == Some((cp, m, n as usize)),
            None => r is None,
        },
{
    if data.len() < 4 || data[0] != ESC || data[1] != 0x5b {
        return None;
    }
    let up = find_byte(data, 0x75, 0);
    if up >= data.len() || up < 3 {
        return None;
    }
    let seg = &data[2..up];
    if !is_utf8(seg) {
        return None;
    }
    let p = find_byte(seg, 0x3b, 0);
    let first = &seg[0..p];
    let cp = match parse_decimal(first) {
        Some(v) => v,
        None => return None,
    };
    let modifiers: u32 = if p < seg.len() {
        let q = find_byte(seg, 0x3b, p + 1);
        match parse_decimal(&seg[p + 1..q]) {
            Some(m) => m,
            None => 1,
        }
    } else {
        1
    };
    Some((cp, modifiers, up + 1))
}

/// The decimal digits of `n` as bytes.
pub open spec fn dec_bytes(n: nat) -> Seq<u8>
    decreases n,
{
    if n < 10 {
        seq![(0x30 + n) as u8]
    } else {
        dec_bytes(n / 10).push((0x30 + n % 10) as u8)
    }
}

pub proof fn lemma_dec_bytes(n: nat)
    ensures
        dec_bytes(n).len() >= 1,
        all_digits(dec_bytes(n)),
        digits_value(dec_bytes(n)) == n,
        dec_bytes(n)[0] != 0x2b,
    decreases n,
{
    let d = dec_bytes(n);
    if n < 10 {
        assert(d.drop_last() =~= Seq::<u8>::empty());
        assert(digits_value(Seq::<u8>::empty()) == 0);
    } else {
        lemma_dec_bytes(n / 10);
        let p = dec_bytes(n / 10);
        assert(d.drop_last() == p);
        assert((n / 10) * 10 + n % 10 == n) by (nonlinear_arith);
        assert forall|i: int| 0 <= i < d.len() implies is_digit(#[trigger] d[i]) by {
            if i < p.len() {
                assert(d[i] == p[i]);
            }
        }
        assert(d[0] == p[0]);
    }
}

/// Byte strings of ASCII characters are UTF-8.
pub proof fn lemma_ascii_utf8(s: Seq<u8>)
    requires
        forall|i: int| 0 <= i < s.len() ==> #[trigger] s[i] < 0x80,
    ensures
        valid_utf8(s),
    decreases s.len(),
{
    if s.len() > 0 {
        let b = s[0];
        assert(b & 0x7f == b) by (bit_vector)
            requires
                b < 0x80,
        ;
        assert(vstd::utf8::valid_first_scalar(s));
        let rest = vstd::utf8::pop_first_scalar(s);
        assert(rest == s.drop_first());
        lemma_ascii_utf8(rest);
    }
}

/// The enhanced encoding of a key: `ESC [ code u`, or `ESC [ code ; modifiers u`.
pub open spec fn key_event_bytes(cp: u32, m: Option<u32>) -> Seq<u8> {
    match m {
        Some(mv) => seq![ESC, 0x5bu8] + dec_bytes(cp as nat) + seq![0x3bu8] + dec_bytes(mv as nat) + seq![0x75u8],
        None => seq![ESC, 0x5bu8] + dec_bytes(cp as nat) + seq![0x75u8],
    }
}

/// A key's enhanced encoding reads back as that key, spanning the whole encoding.
pub proof fn lemma_key_event(cp: u32, m: Option<u32>)
    ensures
        csi_u_event(key_event_bytes(cp, m)) == Some(
            (
                cp,
                match m {
                    Some(mv) => mv,
                    None => 1u32,
                },
                key_event_bytes(cp, m).len() as int,
            ),
        ),
        key_event_bytes(cp, m).len() >= 4,
        is_digit(key_event_bytes(cp, m)[2]),
        forall|j: int| 1 <= j < key_event_bytes(cp, m).len() ==> #[trigger] key_event_bytes(cp, m)[j] != ESC,
{
    let d = dec_bytes(cp as nat);
    lemma_dec_bytes(cp as nat);
    let dm = match m {
        Some(mv) => dec_bytes(mv as nat),
        None => seq![],
    };
    if let Some(mv) = m {
        lemma_dec_bytes(mv as nat);
    }
    let mid = match m {
        Some(_) => seq![0x3bu8] + dm,
        None => Seq::<u8>::empty(),
    };
    let e = key_event_bytes(cp, m);
    assert(e =~= seq![ESC, 0x5bu8] + d + mid + seq![0x75u8]);
    let n = e.len() as int;
    assert(n == d.len() + mid.len() + 3);
    assert forall|j: int| 0 <= j < mid.len() implies #[trigger] mid[j] == 0x3b || is_digit(mid[j]) by {
        if j > 0 {
            assert(mid[j] == dm[j - 1]);
        }
    }
    assert forall|j: int| 0 <= j < n - 1 implies #[trigger] e[j] != 0x75 && (j >= 1 ==> e[j] != ESC) && e[j] < 0x80 by {
        if 2 <= j < 2 + d.len() {
            assert(e[j] == d[j - 2]);
            assert(is_digit(d[j - 2]));
        } else if 2 + d.len() <= j < n - 1 {
            assert(e[j] == mid[j - 2 - d.len()]);
        }
    }
    assert(e[2] == d[0]);
    lemma_find_from(e, 0x75, 0, n - 1);
    let seg = e.subrange(2, n - 1);
    assert(seg =~= d + mid);
    assert forall|i: int| 0 <= i < seg.len() implies #[trigger] seg[i] < 0x80 by {
        assert(seg[i] == e[i + 2]);
    }
    lemma_ascii_utf8(seg);
    assert forall|j: int| 0 <= j < d.len() implies seg[j] != 0x3b by {
        assert(is_digit(d[j]));
    }
    lemma_find_from(seg, 0x3b, 0, d.len() as int);
    assert(seg.subrange(0, d.len() as int) =~= d);
    assert(unsigned_digits(d) == d);
    assert(parse_u32(d) == Some(cp));
    match m {
        Some(mv) => {
            assert(seg[d.len() as int] == 0x3b);
            assert forall|j: int| d.len() + 1 <= j < seg.len() implies seg[j] != 0x3b by {
                assert(seg[j] == dm[j - d.len() - 1]);
                assert(is_digit(dm[j - d.len() - 1]));
            }
            lemma_find_from(seg, 0x3b, d.len() as int + 1, seg.len() as int);
            assert(seg.subrange(d.len() as int + 1, seg.len() as int) =~= dm);
            assert(unsigned_digits(dm) == dm);
            assert(modifier_param(seg) == mv);
        },
        None => {
            assert(seg =~= d);
            assert(second_field(seg) is None);
        },
    }
}

} // verus!
