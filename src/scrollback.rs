//! The scrollback store: a terminal emulator fed with the program's output,
//! read back as the text of its visible screen and its cursor.
use vstd::prelude::*;
use crate::text::{last_lines, last_lines_of};

verus! {

pub const DEFAULT_SCROLLBACK_LINES: usize = 10000;
pub const DEFAULT_TERMINAL_ROWS: u16 = 24;
pub const DEFAULT_TERMINAL_COLS: u16 = 80;

#[verifier::external_type_specification]
#[verifier::external_body]
pub struct ExParser(vt100::Parser);

/// The bytes an emulator has been fed since it was made.
pub uninterp spec fn fed_bytes(p: vt100::Parser) -> Seq<u8>;

/// The rows, columns and scrollback length an emulator was made with.
pub uninterp spec fn emulator_shape(p: vt100::Parser) -> (u16, u16, usize);

/// What `Screen::contents` gives for an emulator of that shape fed `fed`: the
/// text of the visible screen (the alternate screen while it is active).
pub uninterp spec fn screen_text(rows: u16, cols: u16, scrollback: usize, fed: Seq<u8>) -> Seq<char>;

/// What `Screen::cursor_position` gives for an emulator of that shape fed `fed`:
/// the zero-based row and column.
pub uninterp spec fn screen_cursor(rows: u16, cols: u16, scrollback: usize, fed: Seq<u8>) -> (u16, u16);

/// Relies on vt100::Parser::new: a fresh emulator of the given shape, fed nothing.
#[verifier::external_body]
fn new_emulator(rows: u16, cols: u16, scrollback: usize) -> (p: vt100::Parser)
    requires
        rows > 0,
        cols > 0,
    ensures
        fed_bytes(p) == Seq::<u8>::empty(),
        emulator_shape(p) == (rows, cols, scrollback),
{
    vt100::Parser::new(rows, cols, scrollback)
}

/// Relies on vt100::Parser::process, which feeds the bytes one at a time.
#[verifier::external_body]
fn feed(p: &mut vt100::Parser, data: &[u8])
    ensures
        fed_bytes(*final(p)) == fed_bytes(*old(p)) + data@,
        emulator_shape(*final(p)) == emulator_shape(*old(p)),
{
    p.process(data)
}

/// Relies on vt100::Screen::contents.
#[verifier::external_body]
fn contents(p: &vt100::Parser) -> (r: String)
    ensures
        r@ == screen_text(emulator_shape(*p).0, emulator_shape(*p).1, emulator_shape(*p).2, fed_bytes(*p)),
{
    p.screen().contents()
}

/// Relies on vt100::Screen::cursor_position.
#[verifier::external_body]
fn cursor(p: &vt100::Parser) -> (r: (u16, u16))
    ensures
        r == screen_cursor(emulator_shape(*p).0, emulator_shape(*p).1, emulator_shape(*p).2, fed_bytes(*p)),
{
    p.screen().cursor_position()
}

/// The visible screen of a store with scrollback length `max` that has been fed
/// `fed` (`None` before the first append).
pub open spec fn visible_text(max: usize, fed: Option<Seq<u8>>) -> Seq<char> {
    match fed {
        Some(b) => screen_text(DEFAULT_TERMINAL_ROWS, DEFAULT_TERMINAL_COLS, max, b),
        None => seq![],
    }
}

/// What `get_lines(count)` returns: the visible screen, or its last `n` lines.
pub open spec fn lines_view(max: usize, fed: Option<Seq<u8>>, count: Option<usize>) -> Seq<char> {
    match count {
        None => visible_text(max, fed),
        Some(n) => match fed {
            Some(_) => last_lines(visible_text(max, fed), n as nat),
            None => seq![],
        },
    }
}

/// What `cursor_position` returns.
pub open spec fn cursor_view(max: usize, fed: Option<Seq<u8>>) -> (usize, usize) {
    match fed {
        Some(b) => {
            let (r, c) = screen_cursor(DEFAULT_TERMINAL_ROWS, DEFAULT_TERMINAL_COLS, max, b);
            (r as usize, c as usize)
        },
        None => (0, 0),
    }
}

/// The scrollback store. Its emulator is made at the first append.
pub struct ScrollbackBuffer {
    parser: Option<vt100::Parser>,
    max_lines: usize,
}

impl ScrollbackBuffer {
    /// The bytes appended so far, or `None` before the first append.
    pub closed spec fn fed(&self) -> Option<Seq<u8>> {
        match self.parser {
            Some(p) => Some(fed_bytes(p)),
            None => None,
        }
    }

    /// The scrollback length of the emulator.
    pub closed spec fn max_scrollback(&self) -> usize {
        self.max_lines
    }

    pub closed spec fn wf(&self) -> bool {
        match self.parser {
            Some(p) => emulator_shape(p) == (DEFAULT_TERMINAL_ROWS, DEFAULT_TERMINAL_COLS, self.max_lines),
            None => true,
        }
    }

    pub fn new() -> (r: Self)
        ensures
            r.wf(),
            r.fed() is None,
            r.max_scrollback() == DEFAULT_SCROLLBACK_LINES,
    {
        ScrollbackBuffer { parser: None, max_lines: DEFAULT_SCROLLBACK_LINES }
    }

    /// Feeds the program's output to the emulator.
    pub fn push(&mut self, data: &[u8])
        requires
            old(self).wf(),
        ensures
            final(self).wf(),
            final(self).max_scrollback() == old(self).max_scrollback(),
            final(self).fed() == Some(
                match old(self).fed() {
                    Some(b) => b,
                    None => Seq::<u8>::empty(),
                } + data@,
            ),
    {
        if self.parser.is_none() {
            self.parser = Some(new_emulator(DEFAULT_TERMINAL_ROWS, DEFAULT_TERMINAL_COLS, self.max_lines));
        }
        match &mut self.parser {
            Some(p) => feed(p, data),
            None => {},
        }
    }

    /// The visible screen if `count` is `None`, else its last `count` lines
    /// joined with `\n`; empty before the first append.
    pub fn get_lines(&self, count: Option<usize>) -> (r: String)
        requires
            self.wf(),
        ensures
            r@ == lines_view(self.max_scrollback(), self.fed(), count),
    {
        match &self.parser {
            None => String::new(),
            Some(p) => {
                let all = contents(p);
                match count {
                    None => all,
                    Some(n) => last_lines_of(all.as_str(), n),
                }
            },
        }
    }

    /// The cursor's zero-based row and column; `(0, 0)` before the first append.
    pub fn cursor_position(&self) -> (r: (usize, usize))
        requires
            self.wf(),
        ensures
            r == cursor_view(self.max_scrollback(), self.fed()),
    {
        match &self.parser {
            None => (0, 0),
            Some(p) => {
                let (row, col) = cursor(p);
                (row as usize, col as usize)
            },
        }
    }
}

/// Two stores fed the same bytes show the same screen, the same last lines and
/// the same cursor: replaying what one was fed into another reproduces it, and
/// a store reads the same until it is fed again.
pub proof fn law_same_bytes_same_screen(a: ScrollbackBuffer, b: ScrollbackBuffer, count: Option<usize>)
    requires
        a.fed() == b.fed(),
        a.max_scrollback() == b.max_scrollback(),
    ensures
        lines_view(a.max_scrollback(), a.fed(), count) == lines_view(b.max_scrollback(), b.fed(), count),
        cursor_view(a.max_scrollback(), a.fed()) == cursor_view(b.max_scrollback(), b.fed()),
{
}

} // verus!
