//! The decisions of the session host: what to run, how to answer socket
//! requests, what to do with local input, who holds the attach slot, and how
//! the child's end becomes an exit code.
use vstd::prelude::*;
use vstd::string::*;
use vstd::utf8::encode_utf8;
use crate::csi::ESC;
use crate::editor::{command_name, Position};
use crate::input::{classify, timeout_step, Classified, InputProcessor, InputResult, KeybindAction};
use crate::config::Keybind;
use crate::kitty::translate_from;
use crate::kitty::{translate_all, translate_all_csi_u};
use crate::protocol::{Request, Response, Session};
use crate::scrollback::{lines_view, ScrollbackBuffer};
use crate::text::{chars_eq_str, line_count, lines_of, str_chars};

verus! {

/// Rows shown by a terminal whose size is not known; also the viewport height
/// the editor position is measured against.
pub const DEFAULT_ROWS: u16 = 24;
pub const DEFAULT_COLS: u16 = 80;

/// How to start a session.
#[derive(Debug, Clone, Default)]
pub struct ServerConfig {
    /// Command to run; the user's shell when empty.
    pub command: Vec<String>,
    /// Session name; a generated one when absent.
    pub session_id: Option<String>,
    /// Start with no terminal attached.
    pub detached: bool,
}

/// How an attached run ended.
#[derive(Debug)]
pub enum RunResult {
    /// The program exited with this code.
    Exited(i32),
    /// The user detached; the session goes on.
    Detached { session_id: String },
}

/// The flag a shell needs to read its settings: `-l` for nushell, `-i` for bash
/// and zsh, by the shell's command name.
pub open spec fn shell_flag(shell: Seq<char>) -> Option<Seq<char>> {
    let n = command_name(shell);
    if n == "nu"@ || n == "nushell"@ {
        Some("-l"@)
    } else if n == "bash"@ || n == "zsh"@ {
        Some("-i"@)
    } else {
        None
    }
}

pub open spec fn string_views(v: Seq<String>) -> Seq<Seq<char>> {
    v.map_values(|s: String| s@)
}

/// The command line of a session: `requested` unless empty, else the shell
/// (`$SHELL`, else `/bin/sh`) with the flag it needs.
pub open spec fn command_line(requested: Seq<Seq<char>>, shell_var: Option<Seq<char>>) -> Seq<Seq<char>> {
    if requested.len() > 0 {
        requested
    } else {
        let shell = match shell_var {
            Some(s) => s,
            None => "/bin/sh"@,
        };
        match shell_flag(shell) {
            Some(f) => seq![shell, f],
            None => seq![shell],
        }
    }
}

/// The command line to run: `requested`, or the shell from `shell_var` (`$SHELL`).
pub fn command_for(requested: Vec<String>, shell_var: Option<String>) -> (r: Vec<String>)
    ensures
        string_views(r@) == command_line(
            string_views(requested@),
            match shell_var {
                Some(s) => Some(s@),
                None => None,
            },
        ),
{
    if requested.len() > 0 {
        return requested;
    }
    let shell = match shell_var {
        Some(s) => s,
        None => "/bin/sh".to_string(),
    };
    let cs = str_chars(shell.as_str());
    let name = crate::editor::command_name_of(cs.as_slice());
    let n = name.as_slice();
    let flag: Option<String> = if chars_eq_str(n, "nu") || chars_eq_str(n, "nushell") {
        Some("-l".to_string())
    } else if chars_eq_str(n, "bash") || chars_eq_str(n, "zsh") {
        Some("-i".to_string())
    } else {
        None
    };
    let ghost sv = shell@;
    let mut out: Vec<String> = Vec::new();
    out.push(shell);
    match flag {
        Some(f) => {
            let ghost fv = f@;
            out.push(f);
            assert(string_views(out@) =~= seq![sv, fv]);
        },
        None => {
            assert(string_views(out@) =~= seq![sv]);
        },
    }
    out
}

/// Relies on human_id::id, which draws three words at random and joins them with
/// the separator, so the result is never empty.
#[verifier::external_body]
fn generated_id() -> (r: String)
    ensures
        r@.len() > 0,
{
    human_id::id("-", false)
}

/// The session name: the requested one, else a generated word triplet.
pub fn choose_session_id(requested: Option<String>) -> (r: String)
    ensures
        requested is Some ==> r == requested->0,
        requested is None ==> r@.len() > 0,
{
    match requested {
        Some(id) => id,
        None => generated_id(),
    }
}

/// Relies on chrono::Utc::now and DateTime::to_rfc3339: the time now, in RFC 3339.
#[verifier::external_body]
fn now_rfc3339() -> String {
    chrono::Utc::now().to_rfc3339()
}

/// The registry record of a session started now by process `pid`.
pub fn session_record(id: String, pid: u32, command: Vec<String>, detached: bool) -> (r: Session)
    ensures
        r.id == id,
        r.pid == pid,
        r.command == command,
        r.attached == !detached,
{
    Session { id, pid, started: now_rfc3339(), command, attached: !detached }
}

/// The size a new session's terminal gets: 24x80 when detached, else the size
/// of the local terminal.
pub fn initial_size(detached: bool, local: (u16, u16)) -> (r: (u16, u16))
    ensures
        r == if detached { (DEFAULT_ROWS, DEFAULT_COLS) } else { local },
{
    if detached { (DEFAULT_ROWS, DEFAULT_COLS) } else { local }
}

/// What waiting for the child reported.
#[derive(Debug, Clone, Copy, PartialEq, Eq, Structural)]
pub enum WaitOutcome {
    /// It exited with this code.
    Exited(i32),
    /// A signal with this number ended it.
    Signaled(u8),
    /// It changed state but is still there (stopped, continued).
    StillThere,
    /// The wait was interrupted.
    Interrupted,
    /// The wait failed.
    Failed,
}

/// The session's exit code from a wait, or `None` when the wait has to be repeated.
pub open spec fn exit_code_spec(o: WaitOutcome) -> Option<i32> {
    match o {
        WaitOutcome::Exited(c) => Some(c),
        WaitOutcome::Signaled(s) => Some((128 + s) as i32),
        WaitOutcome::StillThere => None,
        WaitOutcome::Interrupted => None,
        WaitOutcome::Failed => Some(1),
    }
}

/// The exit code for a wait: the code of a normal exit, 128 plus the signal
/// number, 1 when the wait failed; `None` to wait again.
pub fn exit_code_of(o: WaitOutcome) -> (r: Option<i32>)
    ensures
        r == exit_code_spec(o),
{
    match o {
        WaitOutcome::Exited(c) => Some(c),
        WaitOutcome::Signaled(s) => Some(128 + s as i32),
        WaitOutcome::StillThere => None,
        WaitOutcome::Interrupted => None,
        WaitOutcome::Failed => Some(1),
    }
}

/// The editor line for the cursor: the screen's lines past the first 24, plus
/// the cursor row, counted from 1; saturating at the largest `usize`.
pub open spec fn cursor_line(total_lines: nat, row: nat) -> nat {
    let above = if total_lines > DEFAULT_ROWS { total_lines - DEFAULT_ROWS } else { 0 };
    let l = above + row + 1;
    if l > usize::MAX { usize::MAX as nat } else { l as nat }
}

/// Where the editor opens the screen `content` for a cursor at zero-based
/// `(row, col)`: line as [`cursor_line`], column `col + 1`.
pub fn editor_position(content: &str, cursor: (usize, usize)) -> (r: Position)
    ensures
        r.line == cursor_line(lines_of(content@).len(), cursor.0 as nat),
        r.col == Some(if cursor.1 == usize::MAX { usize::MAX } else { (cursor.1 + 1) as usize }),
{
    let total = line_count(content);
    let above = total.saturating_sub(DEFAULT_ROWS as usize);
    let line = above.saturating_add(cursor.0).saturating_add(1);
    let col = cursor.1.saturating_add(1);
    Position::new(line, Some(col))
}

/// What the host does after a socket request besides replying.
#[derive(Debug)]
pub enum HostEffect {
    Nothing,
    /// Write these bytes to the program, after what is already queued.
    Enqueue(Vec<u8>),
    /// Set the program's terminal size.
    SetSize { rows: u16, cols: u16 },
    /// Forward the program's output on this connection from now on.
    StartStream,
    /// Give this connection the attach slot, size the terminal, and switch it
    /// to attached mode.
    BeginAttach { rows: u16, cols: u16 },
}

/// What the host knows when a request comes in.
#[derive(Debug, Clone, Copy)]
pub struct HostFacts {
    /// The program's terminal size, or `None` when there is no terminal to ask.
    pub window: Option<(u16, u16)>,
    /// Whether the program still takes input.
    pub input_open: bool,
    /// Whether the attach slot is empty.
    pub attach_free: bool,
}

pub open spec fn is_error(r: Response, msg: Seq<char>) -> bool {
    match r {
        Response::Error { message } => message@ == msg,
        _ => false,
    }
}

pub open spec fn enqueues(e: HostEffect, data: Seq<u8>) -> bool {
    match e {
        HostEffect::Enqueue(v) => v@ == data,
        _ => false,
    }
}

fn error(msg: &str) -> (r: Response)
    ensures
        is_error(r, msg@),
{
    Response::Error { message: msg.to_string() }
}

/// The reply to a request on a connection that is not attached, and what the
/// host does besides.
pub fn respond(req: Request, scrollback: &ScrollbackBuffer, facts: HostFacts) -> (r: (Response, HostEffect))
    requires
        scrollback.wf(),
    ensures
        match req {
            Request::GetScrollback { lines } => r.1 is Nothing && match r.0 {
                Response::Scrollback { content } => content@ == lines_view(
                    scrollback.max_scrollback(),
                    scrollback.fed(),
                    lines,
                ),
                _ => false,
            },
            Request::GetCursor => r.1 is Nothing && match r.0 {
                Response::Cursor { row, col } => (row, col) == crate::scrollback::cursor_view(
                    scrollback.max_scrollback(),
                    scrollback.fed(),
                ),
                _ => false,
            },
            Request::GetSize => r.1 is Nothing && match facts.window {
                Some((rows, cols)) => r.0 == Response::Size { rows, cols },
                None => is_error(r.0, "no master FD"@),
            },
            Request::Inject { data } => if facts.input_open {
                r.0 is Success && enqueues(r.1, encode_utf8(data@))
            } else {
                is_error(r.0, "session ended"@) && r.1 is Nothing
            },
            Request::Input { data } => if facts.input_open {
                r.0 is Success && enqueues(r.1, data@)
            } else {
                is_error(r.0, "session ended"@) && r.1 is Nothing
            },
            Request::Subscribe => r.0 is Subscribed && r.1 is StartStream,
            Request::Attach { rows, cols } => if facts.attach_free {
                r.1 == HostEffect::BeginAttach { rows, cols } && match r.0 {
                    Response::Attached { scrollback: s } => s@ == lines_view(
                        scrollback.max_scrollback(),
                        scrollback.fed(),
                        None,
                    ),
                    _ => false,
                }
            } else {
                is_error(r.0, "session already has attached client"@) && r.1 is Nothing
            },
            Request::Resize { rows, cols } => if facts.window is Some {
                r.0 is Success && r.1 == HostEffect::SetSize { rows, cols }
            } else {
                is_error(r.0, "no master FD"@) && r.1 is Nothing
            },
        },
{
    match req {
        Request::GetScrollback { lines } => {
            (Response::Scrollback { content: scrollback.get_lines(lines) }, HostEffect::Nothing)
        },
        Request::GetCursor => {
            let (row, col) = scrollback.cursor_position();
            (Response::Cursor { row, col }, HostEffect::Nothing)
        },
        Request::GetSize => match facts.window {
            Some((rows, cols)) => (Response::Size { rows, cols }, HostEffect::Nothing),
            None => (error("no master FD"), HostEffect::Nothing),
        },
        Request::Inject { data } => {
            if facts.input_open {
                (Response::Success, HostEffect::Enqueue(data.as_str().as_bytes_vec()))
            } else {
                (error("session ended"), HostEffect::Nothing)
            }
        },
        Request::Input { data } => {
            if facts.input_open {
                (Response::Success, HostEffect::Enqueue(data))
            } else {
                (error("session ended"), HostEffect::Nothing)
            }
        },
        Request::Subscribe => (Response::Subscribed, HostEffect::StartStream),
        Request::Attach { rows, cols } => {
            if facts.attach_free {
                (
                    Response::Attached { scrollback: scrollback.get_lines(None) },
                    HostEffect::BeginAttach { rows, cols },
                )
            } else {
                (error("session already has attached client"), HostEffect::Nothing)
            }
        },
        Request::Resize { rows, cols } => {
            if facts.window.is_some() {
                (Response::Success, HostEffect::SetSize { rows, cols })
            } else {
                (error("no master FD"), HostEffect::Nothing)
            }
        },
    }
}

/// What the host does with a request from the attached client: input is
/// queued, a resize is applied, anything else is ignored.
pub fn attached_request(req: Request) -> (r: HostEffect)
    ensures
        match req {
            Request::Input { data } => enqueues(r, data@),
            Request::Resize { rows, cols } => r == HostEffect::SetSize { rows, cols },
            _ => r is Nothing,
        },
{
    match req {
        Request::Input { data } => HostEffect::Enqueue(data),
        Request::Resize { rows, cols } => HostEffect::SetSize { rows, cols },
        _ => HostEffect::Nothing,
    }
}

/// The slot for the one attached client. `T` is what the host keeps of it.
pub struct AttachSlot<T> {
    client: Option<T>,
}

impl<T> AttachSlot<T> {
    pub closed spec fn holder(&self) -> Option<T> {
        self.client
    }

    pub fn new() -> (r: Self)
        ensures
            r.holder() is None,
    {
        AttachSlot { client: None }
    }

    pub fn is_occupied(&self) -> (r: bool)
        ensures
            r == self.holder() is Some,
    {
        self.client.is_some()
    }

    /// Gives the slot to `client` if it is empty; an occupied slot is left as it is.
    pub fn try_attach(&mut self, client: T) -> (r: bool)
        ensures
            r == old(self).holder() is None,
            r ==> final(self).holder() == Some(client),
            !r ==> final(self).holder() == old(self).holder(),
    {
        if self.client.is_some() {
            false
        } else {
            self.client = Some(client);
            true
        }
    }

    /// The holder of the slot, if any.
    pub fn holder_ref(&self) -> (r: Option<&T>)
        ensures
            match self.holder() {
                Some(c) => r == Some(&c),
                None => r is None,
            },
    {
        match &self.client {
            Some(c) => Some(c),
            None => None,
        }
    }

    /// Empties the slot.
    pub fn release(&mut self)
        ensures
            final(self).holder() is None,
    {
        self.client = None;
    }
}

/// What the host does with a read of local input.
#[derive(Debug)]
pub enum LocalStep {
    /// Write these bytes to the program.
    Write(Vec<u8>),
    /// Open the screen in the editor.
    OpenEditor,
    /// Detach from the session.
    Detach,
    /// Nothing to do yet.
    Wait,
}

/// The step for a classifier result: passthrough bytes are translated to
/// traditional input and written, unless there are none.
pub open spec fn local_step(c: Classified) -> (KeybindActionOrBytes) {
    match c {
        Classified::Passthrough(b) => if b.len() > 0 {
            KeybindActionOrBytes::Bytes(translate_all(b))
        } else {
            KeybindActionOrBytes::Nothing
        },
        Classified::Action(a) => KeybindActionOrBytes::Act(a),
        Classified::NeedMore => KeybindActionOrBytes::Nothing,
    }
}

/// The meaning of a [`LocalStep`].
pub enum KeybindActionOrBytes {
    Bytes(Seq<u8>),
    Act(KeybindAction),
    Nothing,
}

impl View for LocalStep {
    type V = KeybindActionOrBytes;

    open spec fn view(&self) -> KeybindActionOrBytes {
        match self {
            LocalStep::Write(b) => KeybindActionOrBytes::Bytes(b@),
            LocalStep::OpenEditor => KeybindActionOrBytes::Act(KeybindAction::OpenEditor),
            LocalStep::Detach => KeybindActionOrBytes::Act(KeybindAction::Detach),
            LocalStep::Wait => KeybindActionOrBytes::Nothing,
        }
    }
}

fn step_for(res: InputResult) -> (r: LocalStep)
    ensures
        r@ == local_step(res@),
{
    match res {
        InputResult::Passthrough(b) => {
            if b.len() > 0 {
                LocalStep::Write(translate_all_csi_u(b.as_slice()))
            } else {
                LocalStep::Wait
            }
        },
        InputResult::Action(KeybindAction::OpenEditor) => LocalStep::OpenEditor,
        InputResult::Action(KeybindAction::Detach) => LocalStep::Detach,
        InputResult::NeedMore => LocalStep::Wait,
    }
}

/// Classifies a read of local input and says what to do with it.
pub fn on_local_input(classifier: &mut InputProcessor, bytes: &[u8]) -> (r: LocalStep)
    ensures
        (final(classifier).pending(), r@) == ({
            let (p, c) = crate::input::classify(old(classifier).bindings(), old(classifier).pending(), bytes@);
            (p, local_step(c))
        }),
        final(classifier).bindings() == old(classifier).bindings(),
        final(classifier).timeout_ms() == old(classifier).timeout_ms(),
{
    let res = classifier.process(bytes);
    step_for(res)
}

/// Says what to do when the escape timer fires.
pub fn on_escape_timeout(classifier: &mut InputProcessor) -> (r: LocalStep)
    ensures
        (final(classifier).pending(), r@) == ({
            let (p, c) = crate::input::timeout_step(old(classifier).pending());
            (p, local_step(c))
        }),
        final(classifier).bindings() == old(classifier).bindings(),
        final(classifier).timeout_ms() == old(classifier).timeout_ms(),
{
    let res = classifier.timeout_escape();
    step_for(res)
}

/// Where a session is in its life.
#[derive(Debug, Clone, Copy, PartialEq, Eq, Structural)]
pub enum SessionState {
    /// The child is forked; the loop has not started.
    Starting,
    /// A local terminal drives the session.
    AttachedRunning,
    /// No local terminal; socket clients may attach.
    DetachedRunning,
    /// The child is gone.
    Ended,
}

/// What happens to a session.
#[derive(Debug, Clone, Copy, PartialEq, Eq, Structural)]
pub enum SessionEvent {
    /// The main loop starts, with or without a local terminal.
    LoopStarted { attached: bool },
    /// The user pressed the detach keybind.
    DetachKey,
    /// An attach request took the attach slot.
    AttachAccepted,
    /// An attach request found the slot taken.
    AttachRejected,
    /// The child exited or its terminal closed.
    ChildExited,
}

pub open spec fn session_step(s: SessionState, e: SessionEvent) -> SessionState {
    match (s, e) {
        (SessionState::Ended, _) => SessionState::Ended,
        (_, SessionEvent::ChildExited) => SessionState::Ended,
        (SessionState::Starting, SessionEvent::LoopStarted { attached }) => if attached {
            SessionState::AttachedRunning
        } else {
            SessionState::DetachedRunning
        },
        (SessionState::AttachedRunning, SessionEvent::DetachKey) => SessionState::DetachedRunning,
        (SessionState::DetachedRunning, SessionEvent::AttachAccepted) => SessionState::AttachedRunning,
        _ => s,
    }
}

/// The session's state after an event.
pub fn next_session_state(s: SessionState, e: SessionEvent) -> (r: SessionState)
    ensures
        r == session_step(s, e),
{
    match (s, e) {
        (SessionState::Ended, _) => SessionState::Ended,
        (_, SessionEvent::ChildExited) => SessionState::Ended,
        (SessionState::Starting, SessionEvent::LoopStarted { attached }) => if attached {
            SessionState::AttachedRunning
        } else {
            SessionState::DetachedRunning
        },
        (SessionState::AttachedRunning, SessionEvent::DetachKey) => SessionState::DetachedRunning,
        (SessionState::DetachedRunning, SessionEvent::AttachAccepted) => SessionState::AttachedRunning,
        _ => s,
    }
}

/// An ended session stays ended, and a refused attach changes nothing.
pub proof fn law_session_end_is_final(s: SessionState, e: SessionEvent)
    ensures
        session_step(SessionState::Ended, e) == SessionState::Ended,
        session_step(s, SessionEvent::ChildExited) == SessionState::Ended,
        session_step(s, SessionEvent::AttachRejected) == s,
{
}

/// A lone ESC with no input after it reaches the program as one `0x1b` when the
/// escape timer fires, and not before.
pub proof fn law_lone_escape_written_after_timeout(kbs: Seq<(Keybind, KeybindAction)>)
    ensures
        classify(kbs, false, seq![ESC]).0,
        local_step(classify(kbs, false, seq![ESC]).1) is Nothing,
        !timeout_step(true).0,
        local_step(timeout_step(true).1) == KeybindActionOrBytes::Bytes(seq![ESC]),
{
    let e = seq![ESC];
    assert(!crate::kitty::event_at(e, 0));
    assert(translate_from(e, 1) == Seq::<u8>::empty());
    assert(translate_from(e, 0) =~= e);
}

} // verus!
