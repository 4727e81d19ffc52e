//! The messages of the socket protocol and the registry's session record.
use vstd::prelude::*;

verus! {

/// A live session as the registry lists it.
#[derive(Debug, Clone)]
pub struct Session {
    pub id: String,
    pub pid: u32,
    /// Start time, RFC 3339.
    pub started: String,
    pub command: Vec<String>,
    /// Whether a terminal is attached.
    pub attached: bool,
}

/// A client's request.
#[derive(Debug)]
#[allow(inconsistent_fields)]
pub enum Request {
    /// The visible screen, or its last `lines` lines.
    GetScrollback { lines: Option<usize> },
    GetCursor,
    /// Text to type into the session.
    Inject { data: String },
    GetSize,
    /// Stream the program's output from now on.
    Subscribe,
    /// Take over the session with a terminal of this size.
    Attach { rows: u16, cols: u16 },
    /// Bytes typed by the attached client.
    Input { data: Vec<u8> },
    /// A new size of the attached client's terminal.
    Resize { rows: u16, cols: u16 },
}

/// The server's reply or stream message.
#[derive(Debug)]
pub enum Response {
    Scrollback { content: String },
    Cursor { row: usize, col: usize },
    Size { rows: u16, cols: u16 },
    /// A chunk of the program's output.
    Output { data: Vec<u8> },
    Subscribed,
    /// The attach succeeded; the screen at that moment.
    Attached { scrollback: String },
    /// The program has exited.
    SessionEnded { exit_code: i32 },
    /// The request was carried out.
    Success,
    Error { message: String },
}

} // verus!
