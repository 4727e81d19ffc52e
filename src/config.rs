//! Settings handed to the host, and the keybinds they name.
use vstd::prelude::*;
use vstd::string::*;
use crate::csi::{csi_u_event, key_event_bytes, lemma_key_event, parse_csi_u, ESC};
use crate::text::{chars_eq_str, find_char, find_char_from, str_chars, string_from_chars};

verus! {

/// The host's settings.
pub struct Config {
    /// Editor command; when absent `$EDITOR`, then `$VISUAL`, then `vi` is used.
    pub editor: Option<String>,
    pub keybinds: KeybindConfig,
    pub timing: TimingConfig,
}

pub struct KeybindConfig {
    /// Keybind that opens the scrollback in the editor, such as `Alt-e` or `Ctrl-e`.
    pub editor: String,
    /// Keybind that detaches the local terminal from the session; none by default.
    pub detach: Option<String>,
}

pub struct TimingConfig {
    /// How long a lone ESC waits for a following key, in milliseconds.
    pub escape_timeout_ms: u64,
}

impl Default for KeybindConfig {
    fn default() -> (r: Self)
        ensures
            r.editor@ == "Alt-e"@,
            r.detach is None,
    {
        KeybindConfig { editor: "Alt-e".to_string(), detach: None }
    }
}

impl Default for TimingConfig {
    fn default() -> (r: Self)
        ensures
            r.escape_timeout_ms == 50,
    {
        TimingConfig { escape_timeout_ms: 50 }
    }
}

impl Default for Config {
    fn default() -> (r: Self)
        ensures
            r.editor is None,
            r.keybinds.editor@ == "Alt-e"@,
            r.keybinds.detach is None,
            r.timing.escape_timeout_ms == 50,
    {
        Config { editor: None, keybinds: KeybindConfig::default(), timing: TimingConfig::default() }
    }
}

/// The editor command to run: the configured one, else `editor_var` (`$EDITOR`),
/// else `visual_var` (`$VISUAL`), else `vi`.
pub fn get_editor(config: &Config, editor_var: Option<String>, visual_var: Option<String>) -> (r: String)
    ensures
        r@ == match config.editor {
            Some(e) => e@,
            None => match editor_var {
                Some(e) => e@,
                None => match visual_var {
                    Some(v) => v@,
                    None => "vi"@,
                },
            },
        },
{
    match &config.editor {
        Some(e) => e.clone(),
        None => match editor_var {
            Some(e) => e,
            None => match visual_var {
                Some(v) => v,
                None => "vi".to_string(),
            },
        },
    }
}

/// A key combination the host intercepts.
#[derive(Debug, Clone, Copy, PartialEq, Eq, Structural)]
pub enum Keybind {
    Alt(char),
    Ctrl(char),
}

/// Why a keybind text was refused.
#[derive(Debug, Clone, Copy, PartialEq, Eq, Structural)]
pub enum KeybindError {
    /// The text is not two parts joined by one `-`.
    InvalidFormat,
    /// Nothing follows the `-`.
    MissingKey,
    /// The part before the `-` is neither `alt` nor `ctrl` in any case.
    UnknownModifier,
}

/// What `str::to_lowercase` makes of `s`.
pub uninterp spec fn lower_of(s: Seq<char>) -> Seq<char>;

/// Relies on str::to_lowercase, whose result depends on the characters alone.
#[verifier::external_body]
fn lowercase(s: &str) -> (r: String)
    ensures
        r@ == lower_of(s@),
{
    s.to_lowercase()
}

/// The low eight bits of a character's code, as `c as u8` gives them.
pub open spec fn low_byte(c: char) -> u8 {
    (c as u32 % 256) as u8
}

pub open spec fn ascii_lower(c: char) -> char {
    if 'A' <= c <= 'Z' {
        (((c as u32) + 32) as u8) as char
    } else {
        c
    }
}

/// The keybind that a lowercased modifier and the key text after the `-` spell.
pub open spec fn keybind_from_parts(modifier: Seq<char>, key: Seq<char>) -> Result<Keybind, KeybindError> {
    if key.len() == 0 {
        Err(KeybindError::MissingKey)
    } else if modifier == seq!['a', 'l', 't'] {
        Ok(Keybind::Alt(key[0]))
    } else if modifier == seq!['c', 't', 'r', 'l'] {
        Ok(Keybind::Ctrl(ascii_lower(key[0])))
    } else {
        Err(KeybindError::UnknownModifier)
    }
}

/// The keybind written `s`: a modifier and a key joined by exactly one `-`.
pub open spec fn keybind_of(s: Seq<char>) -> Result<Keybind, KeybindError> {
    let p = find_char_from(s, '-', 0);
    if p < s.len() && find_char_from(s, '-', p + 1) == s.len() {
        keybind_from_parts(lower_of(s.subrange(0, p)), s.subrange(p + 1, s.len() as int))
    } else {
        Err(KeybindError::InvalidFormat)
    }
}

/// The keybind matched by an enhanced key event at the start of `b`, with the
/// bytes it spans: the codepoint is the key, the modifier parameter 3 (Alt) or 5 (Ctrl).
pub open spec fn enhanced_match(k: Keybind, b: Seq<u8>) -> Option<int> {
    match csi_u_event(b) {
        Some((cp, m, n)) => {
            let (c, want) = match k {
                Keybind::Alt(c) => (c, 3u32),
                Keybind::Ctrl(c) => (c, 5u32),
            };
            if cp == c as u32 && m == want {
                Some(n)
            } else {
                None
            }
        },
        None => None,
    }
}

/// The legacy encodings: Alt is ESC then the key's byte; Ctrl is the key's byte
/// masked with 0x1f.
pub open spec fn legacy_match(k: Keybind, b: Seq<u8>) -> Option<int> {
    match k {
        Keybind::Alt(c) => if b.len() >= 2 && b[0] == ESC && b[1] == low_byte(c) {
            Some(2)
        } else {
            None
        },
        Keybind::Ctrl(c) => if b.len() >= 1 && b[0] == low_byte(c) & 0x1f {
            Some(1)
        } else {
            None
        },
    }
}

/// How many bytes at the start of `b` the keybind `k` matches, the enhanced form
/// tried first.
pub open spec fn keybind_match(k: Keybind, b: Seq<u8>) -> Option<int> {
    match enhanced_match(k, b) {
        Some(n) => Some(n),
        None => legacy_match(k, b),
    }
}

fn char_low_byte(c: char) -> (r: u8)
    ensures
        r == low_byte(c),
{
    (c as u32 % 256) as u8
}

fn char_ascii_lower(c: char) -> (r: char)
    ensures
        r == ascii_lower(c),
{
    if 'A' <= c && c <= 'Z' {
        (((c as u32) + 32) as u8) as char
    } else {
        c
    }
}

impl Keybind {
    /// The keybind from a lowercased modifier (`alt` or `ctrl`) and the key text.
    pub fn from_parts(modifier: &str, key: &str) -> (r: Result<Keybind, KeybindError>)
        ensures
            r == keybind_from_parts(modifier@, key@),
    {
        let key_chars = str_chars(key);
        if key_chars.len() == 0 {
            return Err(KeybindError::MissingKey);
        }
        let m = str_chars(modifier);
        let alt = chars_eq_str(m.as_slice(), "alt");
        let ctrl = chars_eq_str(m.as_slice(), "ctrl");
        proof {
            reveal_strlit("alt");
            reveal_strlit("ctrl");
            assert("alt"@ == seq!['a', 'l', 't']);
            assert("ctrl"@ == seq!['c', 't', 'r', 'l']);
        }
        if alt {
            Ok(Keybind::Alt(key_chars[0]))
        } else if ctrl {
            Ok(Keybind::Ctrl(char_ascii_lower(key_chars[0])))
        } else {
            Err(KeybindError::UnknownModifier)
        }
    }

    /// Parses a keybind such as `Alt-e` or `Ctrl-e`; the modifier may be in any case.
    pub fn parse(s: &str) -> (r: Result<Keybind, KeybindError>)
        ensures
            r == keybind_of(s@),
    {
        let cs = str_chars(s);
        let p = find_char(cs.as_slice(), '-', 0);
        if p >= cs.len() {
            return Err(KeybindError::InvalidFormat);
        }
        let q = find_char(cs.as_slice(), '-', p + 1);
        if q < cs.len() {
            return Err(KeybindError::InvalidFormat);
        }
        let modifier = string_from_chars(&cs.as_slice()[0..p]);
        let key = string_from_chars(&cs.as_slice()[p + 1..cs.len()]);
        let lowered = lowercase(modifier.as_str());
        Keybind::from_parts(lowered.as_str(), key.as_str())
    }

    /// How many bytes at the start of `bytes` make up this keybind, in the
    /// enhanced or in the legacy encoding.
    pub fn matches(&self, bytes: &[u8]) -> (r: Option<usize>)
        ensures
            match keybind_match(*self, bytes@) {
                Some(n) => r == Some(n as usize),
                None => r is None,
            },
    {
        if let Some(n) = self.matches_kitty(bytes) {
            return Some(n);
        }
        match self {
            Keybind::Alt(c) => {
                if bytes.len() >= 2 && bytes[0] == ESC && bytes[1] == char_low_byte(*c) {
                    Some(2)
                } else {
                    None
                }
            },
            Keybind::Ctrl(c) => {
                let ctrl_byte = char_low_byte(*c) & 0x1f;
                if bytes.len() >= 1 && bytes[0] == ctrl_byte {
                    Some(1)
                } else {
                    None
                }
            },
        }
    }

    /// The enhanced-form match: `ESC [ codepoint ; modifiers u` with this key's
    /// codepoint and 3 for Alt or 5 for Ctrl.
    pub fn matches_kitty(&self, bytes: &[u8]) -> (r: Option<usize>)
        ensures
            match enhanced_match(*self, bytes@) {
                Some(n) => r == Some(n as usize),
                None => r is None,
            },
    {
        let (cp, modifiers, consumed) = match parse_csi_u(bytes) {
            Some(e) => e,
            None => return None,
        };
        let (c, want) = match self {
            Keybind::Alt(c) => (*c, 3u32),
            Keybind::Ctrl(c) => (*c, 5u32),
        };
        if cp == c as u32 && modifiers == want {
            Some(consumed)
        } else {
            None
        }
    }
}

/// The legacy bytes a terminal sends for a keybind.
pub open spec fn legacy_bytes(k: Keybind) -> Seq<u8> {
    match k {
        Keybind::Alt(c) => seq![ESC, low_byte(c)],
        Keybind::Ctrl(c) => seq![low_byte(c) & 0x1f],
    }
}

/// The enhanced event a terminal sends for a keybind: `ESC [ code ; 3 u` for
/// Alt, `ESC [ code ; 5 u` for Ctrl.
pub open spec fn enhanced_bytes(k: Keybind) -> Seq<u8> {
    match k {
        Keybind::Alt(c) => key_event_bytes(c as u32, Some(3)),
        Keybind::Ctrl(c) => key_event_bytes(c as u32, Some(5)),
    }
}

/// Every keybind matches, whole, both encodings of itself.
pub proof fn law_keybind_matches_both_encodings(k: Keybind)
    ensures
        keybind_match(k, legacy_bytes(k)) == Some(legacy_bytes(k).len() as int),
        keybind_match(k, enhanced_bytes(k)) == Some(enhanced_bytes(k).len() as int),
{
    match k {
        Keybind::Alt(c) => lemma_key_event(c as u32, Some(3)),
        Keybind::Ctrl(c) => lemma_key_event(c as u32, Some(5)),
    }
    assert(csi_u_event(legacy_bytes(k)) is None);
}

} // verus!
