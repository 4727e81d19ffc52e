//! Classification of raw local input into passthrough bytes, keybind actions, or
//! a wait for the escape timeout.
use vstd::prelude::*;
use crate::config::{keybind_match, keybind_of, Config, Keybind, KeybindError};
use crate::csi::ESC;

verus! {

/// What a keybind asks the host to do.
#[derive(Debug, Clone, Copy, PartialEq, Eq, Structural)]
pub enum KeybindAction {
    OpenEditor,
    Detach,
}

/// What to do with a piece of local input.
#[derive(Debug)]
pub enum InputResult {
    /// Send these bytes on to the program.
    Passthrough(Vec<u8>),
    /// A keybind was pressed.
    Action(KeybindAction),
    /// A lone ESC is held until more input or the escape timeout.
    NeedMore,
}

/// The meaning of an [`InputResult`].
pub enum Classified {
    Passthrough(Seq<u8>),
    Action(KeybindAction),
    NeedMore,
}

impl View for InputResult {
    type V = Classified;

    open spec fn view(&self) -> Classified {
        match self {
            InputResult::Passthrough(b) => Classified::Passthrough(b@),
            InputResult::Action(a) => Classified::Action(*a),
            InputResult::NeedMore => Classified::NeedMore,
        }
    }
}

/// The action of the first binding whose keybind matches at the start of `b`.
pub open spec fn first_match(kbs: Seq<(Keybind, KeybindAction)>, b: Seq<u8>) -> Option<KeybindAction>
    decreases kbs.len(),
{
    if kbs.len() == 0 {
        None
    } else if keybind_match(kbs[0].0, b) is Some {
        Some(kbs[0].1)
    } else {
        first_match(kbs.drop_first(), b)
    }
}

/// One step of the classifier on the input `b`: whether an ESC is held
/// afterwards, and the result. A held ESC is put in front of the new input; an
/// empty input releases it.
pub open spec fn classify(kbs: Seq<(Keybind, KeybindAction)>, pending: bool, b: Seq<u8>) -> (bool, Classified) {
    if b.len() == 0 {
        (false, Classified::Passthrough(if pending { seq![ESC] } else { seq![] }))
    } else {
        let eff = if pending { seq![ESC] + b } else { b };
        if eff == seq![ESC] {
            (true, Classified::NeedMore)
        } else {
            match first_match(kbs, eff) {
                Some(a) => (false, Classified::Action(a)),
                None => (false, Classified::Passthrough(eff)),
            }
        }
    }
}

/// The escape timeout: a held ESC is released on its own.
pub open spec fn timeout_step(pending: bool) -> (bool, Classified) {
    (false, Classified::Passthrough(if pending { seq![ESC] } else { seq![] }))
}

/// The bytes a classifier result sends on to the program.
pub open spec fn emitted(c: Classified) -> Seq<u8> {
    match c {
        Classified::Passthrough(b) => b,
        _ => seq![],
    }
}

/// `n` rounds, each a lone ESC read and then the escape timeout, from the state
/// `pending`: the state after them and the bytes sent on.
pub open spec fn escape_rounds(kbs: Seq<(Keybind, KeybindAction)>, pending: bool, n: nat) -> (bool, Seq<u8>)
    decreases n,
{
    if n == 0 {
        (pending, seq![])
    } else {
        let (p1, r1) = classify(kbs, pending, seq![ESC]);
        let (p2, r2) = timeout_step(p1);
        let (p3, out) = escape_rounds(kbs, p2, (n - 1) as nat);
        (p3, emitted(r1) + emitted(r2) + out)
    }
}

/// Each lone ESC that the timeout ends is sent on exactly once: `n` rounds from
/// the idle state send `n` ESC bytes and end idle, and a timeout with no ESC
/// held sends nothing.
pub proof fn law_one_escape_per_timeout(kbs: Seq<(Keybind, KeybindAction)>, n: nat)
    ensures
        escape_rounds(kbs, false, n) == (false, Seq::new(n, |_i: int| ESC)),
        emitted(timeout_step(false).1) == Seq::<u8>::empty(),
    decreases n,
{
    if n > 0 {
        law_one_escape_per_timeout(kbs, (n - 1) as nat);
        assert(classify(kbs, false, seq![ESC]) == (true, Classified::NeedMore));
        assert(seq![ESC] + Seq::new((n - 1) as nat, |_i: int| ESC) =~= Seq::new(n, |_i: int| ESC));
        assert(Seq::<u8>::empty() + seq![ESC] + Seq::new((n - 1) as nat, |_i: int| ESC) =~= Seq::new(
            n,
            |_i: int| ESC,
        ));
    } else {
        assert(Seq::<u8>::empty() =~= Seq::new(0, |_i: int| ESC));
    }
}

/// The keybinds the settings ask for: the editor keybind, then the detach
/// keybind when there is one; or the first of them that does not parse.
pub open spec fn configured_bindings(config: &Config) -> Result<Seq<(Keybind, KeybindAction)>, KeybindError> {
    match keybind_of(config.keybinds.editor@) {
        Err(e) => Err(e),
        Ok(k) => match config.keybinds.detach {
            None => Ok(seq![(k, KeybindAction::OpenEditor)]),
            Some(d) => match keybind_of(d@) {
                Err(e) => Err(e),
                Ok(kd) => Ok(seq![(k, KeybindAction::OpenEditor), (kd, KeybindAction::Detach)]),
            },
        },
    }
}

/// The classifier of local input.
pub struct InputProcessor {
    keybinds: Vec<(Keybind, KeybindAction)>,
    escape_timeout_ms: u64,
    pending_escape: bool,
}

/// Relies on std::time::Duration::from_millis.
#[verifier::external_body]
fn duration_from_millis(ms: u64) -> std::time::Duration {
    std::time::Duration::from_millis(ms)
}

impl InputProcessor {
    /// The keybinds and their actions, in the order they are tried.
    pub closed spec fn bindings(&self) -> Seq<(Keybind, KeybindAction)> {
        self.keybinds@
    }

    pub closed spec fn timeout_ms(&self) -> u64 {
        self.escape_timeout_ms
    }

    pub closed spec fn pending(&self) -> bool {
        self.pending_escape
    }

    /// A classifier with the editor keybind of `config` and its escape timeout.
    pub fn new(config: &Config) -> (r: Result<InputProcessor, KeybindError>)
        ensures
            match configured_bindings(config) {
                Ok(kbs) => r is Ok && (r->Ok_0).bindings() == kbs
                    && (r->Ok_0).timeout_ms() == config.timing.escape_timeout_ms
                    && !(r->Ok_0).pending(),
                Err(e) => r == Err::<InputProcessor, KeybindError>(e),
            },
    {
        let editor = match Keybind::parse(config.keybinds.editor.as_str()) {
            Ok(k) => k,
            Err(e) => return Err(e),
        };
        let mut keybinds: Vec<(Keybind, KeybindAction)> = Vec::new();
        keybinds.push((editor, KeybindAction::OpenEditor));
        if let Some(d) = &config.keybinds.detach {
            match Keybind::parse(d.as_str()) {
                Ok(k) => keybinds.push((k, KeybindAction::Detach)),
                Err(e) => return Err(e),
            }
        }
        Ok(InputProcessor {
            keybinds,
            escape_timeout_ms: config.timing.escape_timeout_ms,
            pending_escape: false,
        })
    }

    /// A classifier with the given keybinds, tried in order, and escape timeout.
    pub fn with_bindings(keybinds: Vec<(Keybind, KeybindAction)>, escape_timeout_ms: u64) -> (r: InputProcessor)
        ensures
            r.bindings() == keybinds@,
            r.timeout_ms() == escape_timeout_ms,
            !r.pending(),
    {
        InputProcessor { keybinds, escape_timeout_ms, pending_escape: false }
    }

    /// How long a lone ESC waits for more input.
    pub fn escape_timeout(&self) -> std::time::Duration {
        duration_from_millis(self.escape_timeout_ms)
    }

    /// The escape timeout in milliseconds.
    pub fn escape_timeout_ms(&self) -> (r: u64)
        ensures
            r == self.timeout_ms(),
    {
        self.escape_timeout_ms
    }

    /// Whether a lone ESC is held, so that the caller should arm the escape timer.
    pub fn has_pending_escape(&self) -> (r: bool)
        ensures
            r == self.pending(),
    {
        self.pending_escape
    }

    fn first_action(&self, eff: &[u8]) -> (r: Option<KeybindAction>)
        ensures
            r == first_match(self.bindings(), eff@),
    {
        let mut i: usize = 0;
        assert(self.keybinds@.subrange(0, self.keybinds@.len() as int) == self.keybinds@);
        while i < self.keybinds.len()
            invariant
                i <= self.keybinds@.len(),
                first_match(self.keybinds@, eff@) == first_match(
                    self.keybinds@.subrange(i as int, self.keybinds@.len() as int),
                    eff@,
                ),
            decreases self.keybinds@.len() - i,
        {
            let ghost rest = self.keybinds@.subrange(i as int, self.keybinds@.len() as int);
            assert(rest.drop_first() == self.keybinds@.subrange(i + 1, self.keybinds@.len() as int));
            let (k, a) = self.keybinds[i];
            if k.matches(eff).is_some() {
                return Some(a);
            }
            i = i + 1;
        }
        None
    }

    /// Classifies one read of local input.
    pub fn process(&mut self, bytes: &[u8]) -> (r: InputResult)
        ensures
            (final(self).pending(), r@) == classify(old(self).bindings(), old(self).pending(), bytes@),
            final(self).bindings() == old(self).bindings(),
            final(self).timeout_ms() == old(self).timeout_ms(),
    {
        if bytes.len() == 0 {
            if self.pending_escape {
                self.pending_escape = false;
                let mut out: Vec<u8> = Vec::new();
                out.push(ESC);
                return InputResult::Passthrough(out);
            }
            return InputResult::Passthrough(Vec::new());
        }
        let mut eff: Vec<u8> = Vec::new();
        if self.pending_escape {
            eff.push(ESC);
        }
        let mut i: usize = 0;
        let ghost start = eff@;
        while i < bytes.len()
            invariant
                i <= bytes@.len(),
                eff@ == start + bytes@.subrange(0, i as int),
            decreases bytes@.len() - i,
        {
            eff.push(bytes[i]);
            i = i + 1;
        }
        assert(bytes@.subrange(0, bytes@.len() as int) == bytes@);
        assert(eff@ == if old(self).pending_escape { seq![ESC] + bytes@ } else { bytes@ });
        self.pending_escape = false;
        if eff.len() == 1 && eff[0] == ESC {
            assert(eff@ == seq![ESC]);
            self.pending_escape = true;
            return InputResult::NeedMore;
        }
        assert(eff@ != seq![ESC]) by {
            if eff@ == seq![ESC] {
                assert(eff@[0] == ESC);
            }
        }
        match self.first_action(eff.as_slice()) {
            Some(a) => InputResult::Action(a),
            None => InputResult::Passthrough(eff),
        }
    }

    /// Releases a held ESC when the escape timer fires.
    pub fn timeout_escape(&mut self) -> (r: InputResult)
        ensures
            (final(self).pending(), r@) == timeout_step(old(self).pending()),
            final(self).bindings() == old(self).bindings(),
            final(self).timeout_ms() == old(self).timeout_ms(),
    {
        if self.pending_escape {
            self.pending_escape = false;
            let mut out: Vec<u8> = Vec::new();
            out.push(ESC);
            InputResult::Passthrough(out)
        } else {
            InputResult::Passthrough(Vec::new())
        }
    }
}

} // verus!
