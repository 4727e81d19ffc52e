//! The enhanced keyboard protocol: translating its key events back to the
//! traditional bytes, and following the inner program's requests to turn it on or off.
use vstd::prelude::*;
use crate::config::{
    enhanced_bytes, law_keybind_matches_both_encodings, legacy_bytes, low_byte, Keybind,
};
use crate::csi::{
    csi_u_event, find_from, is_digit, key_event_bytes, lemma_find_from_bounds, lemma_key_event, parse_csi_u,
    ESC,
};

verus! {

pub open spec fn is_letter_code(cp: u32) -> bool {
    (0x41 <= cp <= 0x5a) || (0x61 <= cp <= 0x7a)
}

pub open spec fn lower_byte(c: u8) -> u8 {
    if 0x41 <= c <= 0x5a { (c + 32) as u8 } else { c }
}

pub open spec fn upper_byte(c: u8) -> u8 {
    if 0x61 <= c <= 0x7a { (c - 32) as u8 } else { c }
}

/// An ESC when Alt is held, else nothing.
pub open spec fn alt_prefix(alt: bool) -> Seq<u8> {
    if alt { seq![ESC] } else { seq![] }
}

/// The traditional byte for Ctrl with a non-letter ASCII key, ESC-prefixed
/// literal when there is none and Alt is held.
pub open spec fn ctrl_symbol(c: u8, alt: bool) -> Seq<u8> {
    if c == 0x5b {
        seq![ESC]
    } else if c == 0x5c {
        seq![0x1cu8]
    } else if c == 0x5d {
        seq![0x1du8]
    } else if c == 0x5e || c == 0x36 {
        seq![0x1eu8]
    } else if c == 0x5f || c == 0x2d {
        seq![0x1fu8]
    } else if c == 0x40 || c == 0x32 {
        seq![0x00u8]
    } else {
        alt_prefix(alt) + seq![c]
    }
}

/// The traditional bytes for a key with the given codepoint and modifier
/// parameter (the held modifiers plus one: shift 1, alt 2, ctrl 4), if there are any.
pub open spec fn traditional_bytes(cp: u32, modifiers: u32) -> Option<Seq<u8>> {
    let bits = if modifiers >= 1 { (modifiers - 1) as u32 } else { 0u32 };
    let shift = bits & 1 != 0;
    let alt = bits & 2 != 0;
    let ctrl = bits & 4 != 0;
    if cp == 27 {
        Some(seq![ESC])
    } else if cp == 13 {
        Some(alt_prefix(alt) + seq![0x0du8])
    } else if cp == 9 {
        if shift {
            Some(alt_prefix(alt) + seq![ESC, 0x5bu8, 0x5au8])
        } else {
            Some(alt_prefix(alt) + seq![0x09u8])
        }
    } else if cp == 127 {
        Some(alt_prefix(alt) + if ctrl { seq![0x08u8] } else { seq![0x7fu8] })
    } else if is_letter_code(cp) && ctrl {
        Some(alt_prefix(alt) + seq![lower_byte(cp as u8) & 0x1f])
    } else if is_letter_code(cp) && alt {
        Some(seq![ESC, if shift { upper_byte(cp as u8) } else { lower_byte(cp as u8) }])
    } else if cp < 128 {
        if ctrl {
            Some(ctrl_symbol(cp as u8, alt))
        } else if alt {
            Some(seq![ESC, cp as u8])
        } else {
            Some(seq![cp as u8])
        }
    } else {
        None
    }
}

/// The byte after `ESC [` opens a protocol request rather than a key (`>`, `<`, `=`, `?`).
pub open spec fn is_protocol_marker(b: u8) -> bool {
    b == 0x3e || b == 0x3c || b == 0x3d || b == 0x3f
}

/// The translation of the key event at the start of `data`, with the number of
/// bytes it replaces.
pub open spec fn translate_event(data: Seq<u8>) -> Option<(Seq<u8>, int)> {
    if data.len() >= 4 && is_protocol_marker(data[2]) {
        None
    } else {
        match csi_u_event(data) {
            Some((cp, m, n)) => match traditional_bytes(cp, m) {
                Some(t) => Some((t, n)),
                None => None,
            },
            None => None,
        }
    }
}

/// Whether a translatable key event starts at `i`.
pub open spec fn event_at(data: Seq<u8>, i: int) -> bool {
    data[i] == ESC && i + 1 < data.len() && data[i + 1] == 0x5b
        && translate_event(data.subrange(i, data.len() as int)) is Some
}

/// `data` from `i` on, each key event replaced by its translation.
pub open spec fn translate_from(data: Seq<u8>, i: int) -> Seq<u8>
    decreases data.len() - i,
{
    if i < 0 || i >= data.len() {
        seq![]
    } else if event_at(data, i) {
        let (t, n) = translate_event(data.subrange(i, data.len() as int))->0;
        if n > 0 {
            t + translate_from(data, i + n)
        } else {
            seq![]
        }
    } else {
        seq![data[i]] + translate_from(data, i + 1)
    }
}

/// `data` with each key event replaced by its translation.
pub open spec fn translate_all(data: Seq<u8>) -> Seq<u8> {
    translate_from(data, 0)
}

pub proof fn lemma_event_len(data: Seq<u8>)
    requires
        csi_u_event(data) is Some,
    ensures
        (csi_u_event(data)->0).2 >= 4,
        (csi_u_event(data)->0).2 <= data.len(),
{
}

fn alt_prefix_into(out: &mut Vec<u8>, alt: bool)
    ensures
        final(out)@ == old(out)@ + alt_prefix(alt),
{
    if alt {
        out.push(ESC);
    }
    assert(final(out)@ == old(out)@ + alt_prefix(alt));
}

fn lower_u8(c: u8) -> (r: u8)
    ensures
        r == lower_byte(c),
{
    if 0x41 <= c && c <= 0x5a { c + 32 } else { c }
}

fn upper_u8(c: u8) -> (r: u8)
    ensures
        r == upper_byte(c),
{
    if 0x61 <= c && c <= 0x7a { c - 32 } else { c }
}

/// The traditional bytes for a key code and modifier parameter.
pub fn key_to_traditional(cp: u32, modifiers: u32) -> (r: Option<Vec<u8>>)
    ensures
        match traditional_bytes(cp, modifiers) {
            Some(t) => r is Some && r->0@ == t,
            None => r is None,
        },
{
    let bits: u32 = if modifiers >= 1 { modifiers - 1 } else { 0 };
    let shift = bits & 1 != 0;
    let alt = bits & 2 != 0;
    let ctrl = bits & 4 != 0;
    let mut out: Vec<u8> = Vec::new();
    if cp == 27 {
        out.push(ESC);
        return Some(out);
    }
    if cp == 13 {
        alt_prefix_into(&mut out, alt);
        out.push(0x0d);
        return Some(out);
    }
    if cp == 9 {
        alt_prefix_into(&mut out, alt);
        if shift {
            out.push(ESC);
            out.push(0x5b);
            out.push(0x5a);
        } else {
            out.push(0x09);
        }
        return Some(out);
    }
    if cp == 127 {
        alt_prefix_into(&mut out, alt);
        if ctrl {
            out.push(0x08);
        } else {
            out.push(0x7f);
        }
        return Some(out);
    }
    let is_letter = (0x41 <= cp && cp <= 0x5a) || (0x61 <= cp && cp <= 0x7a);
    if is_letter && ctrl {
        alt_prefix_into(&mut out, alt);
        out.push(lower_u8(cp as u8) & 0x1f);
        return Some(out);
    }
    if is_letter && alt {
        out.push(ESC);
        out.push(if shift { upper_u8(cp as u8) } else { lower_u8(cp as u8) });
        return Some(out);
    }
    if cp < 128 {
        let c = cp as u8;
        if ctrl {
            if c == 0x5b {
                out.push(ESC);
            } else if c == 0x5c {
                out.push(0x1c);
            } else if c == 0x5d {
                out.push(0x1d);
            } else if c == 0x5e || c == 0x36 {
                out.push(0x1e);
            } else if c == 0x5f || c == 0x2d {
                out.push(0x1f);
            } else if c == 0x40 || c == 0x32 {
                out.push(0x00);
            } else {
                alt_prefix_into(&mut out, alt);
                out.push(c);
            }
        } else if alt {
            out.push(ESC);
            out.push(c);
        } else {
            out.push(c);
        }
        return Some(out);
    }
    None
}

/// Translates the enhanced key event `ESC [ codepoint [; modifiers] u` at the start
/// of `data` to the bytes a traditional terminal sends for that key, with the
/// number of bytes it spans.
pub fn translate_csi_u_to_traditional(data: &[u8]) -> (r: Option<(Vec<u8>, usize)>)
    ensures
        match translate_event(data@) {
            Some((t, n)) => r is Some && (r->0).0@ == t && (r->0).1 == n,
            None => r is None,
        },
{
    if data.len() >= 4 {
        let b = data[2];
        if b == 0x3e || b == 0x3c || b == 0x3d || b == 0x3f {
            return None;
        }
    }
    let (cp, modifiers, consumed) = match parse_csi_u(data) {
        Some(e) => e,
        None => return None,
    };
    match key_to_traditional(cp, modifiers) {
        Some(t) => Some((t, consumed)),
        None => None,
    }
}

/// Translates every enhanced key event in `data`, passing other bytes through.
pub fn translate_all_csi_u(data: &[u8]) -> (r: Vec<u8>)
    ensures
        r@ == translate_all(data@),
{
    let mut result: Vec<u8> = Vec::new();
    let mut i: usize = 0;
    while i < data.len()
        invariant
            i <= data@.len(),
            result@ + translate_from(data@, i as int) == translate_all(data@),
        decreases data@.len() - i,
    {
        if data[i] == ESC && i + 1 < data.len() && data[i + 1] == 0x5b {
            let rest = &data[i..data.len()];
            match translate_csi_u_to_traditional(rest) {
                Some((t, n)) => {
                    proof {
                        lemma_event_len(rest@);
                    }
                    let ghost old_result = result@;
                    let ghost tv = t@;
                    let mut t = t;
                    result.append(&mut t);
                    assert(translate_from(data@, i as int) == tv + translate_from(data@, i + n));
                    i = i + n;
                    assert(result@ + translate_from(data@, i as int) == translate_all(data@)) by {
                        assert(result@ == old_result + (translate_event(rest@)->0).0);
                    }
                    continue;
                },
                None => {},
            }
        }
        let ghost old_result = result@;
        result.push(data[i]);
        assert(translate_from(data@, i as int) == seq![data@[i as int]] + translate_from(data@, i + 1));
        i = i + 1;
        assert(result@ + translate_from(data@, i as int) == translate_all(data@)) by {
            assert(result@ == old_result + seq![data@[i - 1]]);
        }
    }
    result
}

/// Keybinds whose two encodings carry the same key: Alt with a lowercase ASCII
/// letter, Ctrl with an ASCII letter.
pub open spec fn both_encodings_agree(k: Keybind) -> bool {
    match k {
        Keybind::Alt(c) => 'a' <= c <= 'z',
        Keybind::Ctrl(c) => ('a' <= c <= 'z') || ('A' <= c <= 'Z'),
    }
}

/// Translating the enhanced encoding of such a keybind gives its legacy encoding.
pub proof fn law_enhanced_translates_to_legacy(k: Keybind)
    requires
        both_encodings_agree(k),
    ensures
        translate_all(enhanced_bytes(k)) == legacy_bytes(k),
{
    let e = enhanced_bytes(k);
    let n = e.len() as int;
    law_keybind_matches_both_encodings(k);
    let (c, want) = match k {
        Keybind::Alt(c) => (c, 3u32),
        Keybind::Ctrl(c) => (c, 5u32),
    };
    let cp = c as u32;
    assert(e[2] == crate::csi::dec_bytes(cp as nat)[0]);
    crate::csi::lemma_dec_bytes(cp as nat);
    assert(is_digit(e[2]));
    assert(csi_u_event(e) == Some((cp, want, n)));
    let b = cp as u8;
    assert(low_byte(c) == b);
    let bits = (want - 1) as u32;
    match k {
        Keybind::Alt(_) => {
            assert(bits & 1 == 0 && bits & 2 != 0 && bits & 4 == 0) by (bit_vector)
                requires
                    bits == 2,
            ;
            assert(traditional_bytes(cp, want) == Some(seq![ESC, b]));
        },
        Keybind::Ctrl(_) => {
            assert(bits & 1 == 0 && bits & 2 == 0 && bits & 4 != 0) by (bit_vector)
                requires
                    bits == 4,
            ;
            let l = lower_byte(b);
            assert(l & 0x1f == b & 0x1f) by (bit_vector)
                requires
                    (0x41 <= b <= 0x5a && l == b + 32) || (0x61 <= b <= 0x7a && l == b),
            ;
            assert(traditional_bytes(cp, want) == Some(seq![l & 0x1f])) by {
                assert(alt_prefix(false) + seq![l & 0x1f] =~= seq![l & 0x1f]);
            }
        },
    }
    assert(e.subrange(0, n) =~= e);
    assert(translate_from(e, n) == Seq::<u8>::empty());
    assert(translate_from(e, 0) =~= legacy_bytes(k));
}

/// No `ESC [` in `data` is followed, anywhere later, by a `u`.
pub open spec fn no_key_event_text(data: Seq<u8>) -> bool {
    forall|i: int, j: int|
        0 <= i && i + 2 <= j < data.len() && #[trigger] data[i] == ESC && data[i + 1] == 0x5b
            ==> #[trigger] data[j] != 0x75
}

proof fn lemma_identity_from(data: Seq<u8>, i: int)
    requires
        no_key_event_text(data),
        0 <= i <= data.len(),
    ensures
        translate_from(data, i) == data.subrange(i, data.len() as int),
    decreases data.len() - i,
{
    if i < data.len() {
        let rest = data.subrange(i, data.len() as int);
        if data[i] == ESC && i + 1 < data.len() && data[i + 1] == 0x5b && rest.len() >= 4 {
            lemma_find_from_bounds(rest, 0x75, 0);
            let up = find_from(rest, 0x75, 0);
            if up < rest.len() && up >= 3 {
                assert(data[i + up] == 0x75);
                assert(data[i] == ESC);
            }
        }
        assert(!event_at(data, i));
        lemma_identity_from(data, i + 1);
        assert(seq![data[i]] + data.subrange(i + 1, data.len() as int) =~= rest);
    } else {
        assert(data.subrange(i, data.len() as int) =~= Seq::<u8>::empty());
    }
}

/// The translator leaves alone a buffer with no `ESC [ ... u` in it.
pub proof fn law_translate_identity_without_events(data: Seq<u8>)
    requires
        no_key_event_text(data),
    ensures
        translate_all(data) == data,
{
    lemma_identity_from(data, 0);
    assert(data.subrange(0, data.len() as int) =~= data);
}

/// A translated key event does not end in `u`, unless its key is `u` or `U`.
pub proof fn law_translation_does_not_end_in_u(data: Seq<u8>)
    requires
        translate_event(data) is Some,
        (csi_u_event(data)->0).0 != 0x75,
        (csi_u_event(data)->0).0 != 0x55,
    ensures
        (translate_event(data)->0).0.len() > 0,
        (translate_event(data)->0).0.last() != 0x75,
{
    let (cp, m, n) = csi_u_event(data)->0;
    let b = cp as u8;
    let l = lower_byte(b);
    assert(l & 0x1f <= 0x1f) by (bit_vector);
    if is_letter_code(cp) {
        assert(l != 0x75);
        assert(upper_byte(b) != 0x75);
    }
}

proof fn lemma_no_escape_from(data: Seq<u8>, i: int)
    requires
        1 <= i <= data.len(),
        forall|j: int| 1 <= j < data.len() ==> #[trigger] data[j] != ESC,
    ensures
        translate_from(data, i) == data.subrange(i, data.len() as int),
    decreases data.len() - i,
{
    if i < data.len() {
        lemma_no_escape_from(data, i + 1);
        assert(seq![data[i]] + data.subrange(i + 1, data.len() as int) =~= data.subrange(i, data.len() as int));
    } else {
        assert(data.subrange(i, data.len() as int) =~= Seq::<u8>::empty());
    }
}

/// The modifier parameter a key encoding carries: 1 when it has none.
pub open spec fn modifier_or_one(m: Option<u32>) -> u32 {
    match m {
        Some(mv) => mv,
        None => 1,
    }
}

/// A buffer holding one enhanced key event becomes the traditional bytes of
/// that key; a key with no traditional bytes is left as it is.
pub proof fn law_key_event_translation(cp: u32, m: Option<u32>)
    ensures
        translate_all(key_event_bytes(cp, m)) == match traditional_bytes(cp, modifier_or_one(m)) {
            Some(t) => t,
            None => key_event_bytes(cp, m),
        },
{
    let e = key_event_bytes(cp, m);
    let n = e.len() as int;
    lemma_key_event(cp, m);
    assert(e.subrange(0, n) =~= e);
    match traditional_bytes(cp, modifier_or_one(m)) {
        Some(t) => {
            assert(translate_event(e) == Some((t, n)));
            assert(translate_from(e, n) == Seq::<u8>::empty());
            assert(translate_from(e, 0) =~= t);
        },
        None => {
            assert(!event_at(e, 0));
            lemma_no_escape_from(e, 1);
            assert(seq![e[0]] + e.subrange(1, n) =~= e);
        },
    }
}

/// An unmodified ASCII key other than Tab, Enter, Escape and Backspace becomes
/// its own byte.
pub proof fn law_plain_key_translation(cp: u32)
    requires
        cp < 128,
        cp != 9 && cp != 13 && cp != 27 && cp != 127,
    ensures
        translate_all(key_event_bytes(cp, None)) == seq![cp as u8],
        translate_all(key_event_bytes(cp, Some(1))) == seq![cp as u8],
{
    law_key_event_translation(cp, None);
    law_key_event_translation(cp, Some(1));
    let bits = 0u32;
    assert(bits & 1 == 0 && bits & 2 == 0 && bits & 4 == 0) by (bit_vector)
        requires
            bits == 0,
    ;
    if is_letter_code(cp) {
        assert(lower_byte(cp as u8) == cp as u8 || upper_byte(cp as u8) == cp as u8);
    }
}

/// Alt with a letter becomes ESC and the lowercase letter, Alt+Shift ESC and
/// the uppercase letter, Ctrl the control byte.
pub proof fn law_letter_translation(c: u8)
    requires
        0x61 <= c <= 0x7a,
    ensures
        translate_all(key_event_bytes(c as u32, Some(3))) == seq![ESC, c],
        translate_all(key_event_bytes(c as u32, Some(4))) == seq![ESC, (c - 32) as u8],
        translate_all(key_event_bytes(c as u32, Some(5))) == seq![c & 0x1f],
{
    law_key_event_translation(c as u32, Some(3));
    law_key_event_translation(c as u32, Some(4));
    law_key_event_translation(c as u32, Some(5));
    let (b2, b3, b4) = (2u32, 3u32, 4u32);
    assert(b2 & 1 == 0 && b2 & 2 != 0 && b2 & 4 == 0) by (bit_vector)
        requires
            b2 == 2,
    ;
    assert(b3 & 1 != 0 && b3 & 2 != 0 && b3 & 4 == 0) by (bit_vector)
        requires
            b3 == 3,
    ;
    assert(b4 & 1 == 0 && b4 & 2 == 0 && b4 & 4 != 0) by (bit_vector)
        requires
            b4 == 4,
    ;
    assert(c as u32 as u8 == c);
    assert(alt_prefix(false) + seq![c & 0x1f] =~= seq![c & 0x1f]);
}

/// When the translator changes a buffer holding one key event, what it leaves
/// does not end in the `u` that closed the event, unless the key is `u` or `U`.
pub proof fn law_translated_buffer_does_not_end_in_u(cp: u32, m: Option<u32>)
    requires
        cp != 0x75 && cp != 0x55,
        translate_all(key_event_bytes(cp, m)) != key_event_bytes(cp, m),
    ensures
        translate_all(key_event_bytes(cp, m)).len() > 0,
        translate_all(key_event_bytes(cp, m)).last() != 0x75,
{
    let e = key_event_bytes(cp, m);
    law_key_event_translation(cp, m);
    lemma_key_event(cp, m);
    law_translation_does_not_end_in_u(e);
}

pub open spec fn is_param_byte(b: u8) -> bool {
    is_digit(b) || b == 0x3b || b == 0x3a
}

/// The first index at or after `i` that does not hold a digit, `;` or `:`.
pub open spec fn param_end(s: Seq<u8>, i: int) -> int
    decreases s.len() - i,
{
    if i < 0 || i >= s.len() {
        s.len() as int
    } else if is_param_byte(s[i]) {
        param_end(s, i + 1)
    } else {
        i
    }
}

pub proof fn lemma_param_end_bounds(s: Seq<u8>, i: int)
    requires
        0 <= i <= s.len(),
    ensures
        i <= param_end(s, i) <= s.len(),
    decreases s.len() - i,
{
    if i < s.len() && is_param_byte(s[i]) {
        lemma_param_end_bounds(s, i + 1);
    }
}

pub open spec fn has_nonzero_digit(s: Seq<u8>) -> bool {
    exists|i: int| 0 <= i < s.len() && is_digit(#[trigger] s[i]) && s[i] != 0x30
}

/// A mode request whose marker opens `rest`: parameters, then `term`. It turns
/// the protocol on when its number (the digits read in order) is above zero.
/// The length counts the `ESC [` before `rest`.
pub open spec fn mode_request(rest: Seq<u8>, term: u8) -> Option<(Option<bool>, int)> {
    let j = param_end(rest, 1);
    if j < rest.len() && rest[j] == term {
        Some((Some(has_nonzero_digit(rest.subrange(1, j))), j + 3))
    } else {
        None
    }
}

/// The protocol request at the start of `data`: `ESC [ > flags u` pushes,
/// `ESC [ < u` pops, `ESC [ = flags m` sets; with what it turns the protocol to,
/// and its length.
pub open spec fn kitty_request(data: Seq<u8>) -> Option<(Option<bool>, int)> {
    if data.len() < 3 || data[0] != ESC || data[1] != 0x5b {
        None
    } else {
        let rest = data.subrange(2, data.len() as int);
        if rest[0] == 0x3e {
            mode_request(rest, 0x75)
        } else if rest[0] == 0x3c && rest.len() > 1 && rest[1] == 0x75 {
            Some((Some(false), 4))
        } else if rest[0] == 0x3d {
            mode_request(rest, 0x6d)
        } else {
            None
        }
    }
}

/// Whether the protocol is on after the requests in `data` from `i` on, starting from `on`.
pub open spec fn kitty_scan(data: Seq<u8>, i: int, on: bool) -> bool
    decreases data.len() - i,
{
    if i < 0 || i >= data.len() {
        on
    } else if data[i] == ESC && i + 1 < data.len() && data[i + 1] == 0x5b
        && kitty_request(data.subrange(i, data.len() as int)) is Some {
        let (e, n) = kitty_request(data.subrange(i, data.len() as int))->0;
        let next = match e {
            Some(b) => b,
            None => on,
        };
        if n > 0 {
            kitty_scan(data, i + n, next)
        } else {
            on
        }
    } else {
        kitty_scan(data, i + 1, on)
    }
}

/// Whether the program inside has asked for the enhanced keyboard protocol.
#[derive(Debug)]
pub struct KittyState {
    pub inner_supports_kitty: bool,
}

impl Default for KittyState {
    fn default() -> (r: Self)
        ensures
            !r.inner_supports_kitty,
    {
        KittyState::new()
    }
}

/// Reads the parameters after a mode request's marker up to `term`.
fn parse_mode_request(rest: &[u8], term: u8) -> (r: Option<(Option<bool>, usize)>)
    requires
        rest@.len() + 2 <= usize::MAX,
    ensures
        match mode_request(rest@, term) {
            Some((e, n)) => r == Some((e, n as usize)),
            None => r is None,
        },
{
    let mut i: usize = 1;
    let mut nonzero = false;
    if rest.len() < 1 {
        return None;
    }
    while i < rest.len() && (is_digit_byte(rest[i]) || rest[i] == 0x3b || rest[i] == 0x3a)
        invariant
            1 <= i <= rest@.len(),
            param_end(rest@, i as int) == param_end(rest@, 1),
            nonzero == has_nonzero_digit(rest@.subrange(1, i as int)),
        decreases rest@.len() - i,
    {
        let c = rest[i];
        let is_nz = c != 0x30 && is_digit_byte(c);
        proof {
            let before = rest@.subrange(1, i as int);
            assert(rest@.subrange(1, i + 1) == before.push(c));
            lemma_nonzero_push(before, c);
        }
        nonzero = nonzero || is_nz;
        i = i + 1;
    }
    proof {
        lemma_param_end_bounds(rest@, i as int);
    }
    if i < rest.len() && rest[i] == term {
        Some((Some(nonzero), i + 3))
    } else {
        None
    }
}

proof fn lemma_nonzero_push(s: Seq<u8>, b: u8)
    ensures
        has_nonzero_digit(s.push(b)) == (has_nonzero_digit(s) || (is_digit(b) && b != 0x30)),
{
    let t = s.push(b);
    if has_nonzero_digit(s) {
        let k = choose|k: int| 0 <= k < s.len() && is_digit(#[trigger] s[k]) && s[k] != 0x30;
        assert(t[k] == s[k]);
    }
    if is_digit(b) && b != 0x30 {
        assert(t[s.len() as int] == b);
    }
    if has_nonzero_digit(t) {
        let k = choose|k: int| 0 <= k < t.len() && is_digit(#[trigger] t[k]) && t[k] != 0x30;
        if k < s.len() {
            assert(s[k] == t[k]);
        }
    }
}

fn is_digit_byte(b: u8) -> (r: bool)
    ensures
        r == is_digit(b),
{
    0x30 <= b && b <= 0x39
}

impl KittyState {
    pub fn new() -> (r: Self)
        ensures
            !r.inner_supports_kitty,
    {
        KittyState { inner_supports_kitty: false }
    }

    /// Follows the protocol requests in output of the program inside.
    pub fn process_pty_output(&mut self, data: &[u8])
        ensures
            final(self).inner_supports_kitty == kitty_scan(data@, 0, old(self).inner_supports_kitty),
    {
        let mut i: usize = 0;
        while i < data.len()
            invariant
                i <= data@.len(),
                kitty_scan(data@, i as int, self.inner_supports_kitty) == kitty_scan(
                    data@,
                    0,
                    old(self).inner_supports_kitty,
                ),
            decreases data@.len() - i,
        {
            if data[i] == ESC && i + 1 < data.len() && data[i + 1] == 0x5b {
                let rest = &data[i..data.len()];
                match self.parse_kitty_sequence(rest) {
                    Some((enabled, consumed)) => {
                        let ghost on = self.inner_supports_kitty;
                        if let Some(e) = enabled {
                            self.inner_supports_kitty = e;
                        }
                        assert(kitty_scan(data@, i as int, on) == kitty_scan(
                            data@,
                            i + consumed,
                            self.inner_supports_kitty,
                        ));
                        i = i + consumed;
                        continue;
                    },
                    None => {},
                }
            }
            i = i + 1;
        }
    }

    /// The protocol request at the start of `data`, if there is one.
    fn parse_kitty_sequence(&self, data: &[u8]) -> (r: Option<(Option<bool>, usize)>)
        ensures
            match kitty_request(data@) {
                Some((e, n)) => r == Some((e, n as usize)) && n > 0 && n <= data@.len(),
                None => r is None,
            },
    {
        if data.len() < 3 || data[0] != ESC || data[1] != 0x5b {
            return None;
        }
        let rest = &data[2..data.len()];
        proof {
            lemma_param_end_bounds(rest@, 1);
        }
        if rest[0] == 0x3e {
            return self.parse_push_sequence(rest);
        }
        if rest[0] == 0x3c && rest.len() > 1 && rest[1] == 0x75 {
            return Some((Some(false), 4));
        }
        if rest[0] == 0x3d {
            return self.parse_set_sequence(rest);
        }
        None
    }

    /// `> flags u`: a push, which turns the protocol on when the flags are above zero.
    fn parse_push_sequence(&self, rest: &[u8]) -> (r: Option<(Option<bool>, usize)>)
        requires
            rest@.len() + 2 <= usize::MAX,
        ensures
            match mode_request(rest@, 0x75) {
                Some((e, n)) => r == Some((e, n as usize)),
                None => r is None,
            },
    {
        parse_mode_request(rest, 0x75)
    }

    /// `= flags m`: a set, which turns the protocol on when the flags are above zero.
    fn parse_set_sequence(&self, rest: &[u8]) -> (r: Option<(Option<bool>, usize)>)
        requires
            rest@.len() + 2 <= usize::MAX,
        ensures
            match mode_request(rest@, 0x6d) {
                Some((e, n)) => r == Some((e, n as usize)),
                None => r is None,
            },
    {
        parse_mode_request(rest, 0x6d)
    }
}

} // verus!
