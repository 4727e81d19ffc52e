//! Command-line arguments that open a file at a line and column in the usual editors.
use vstd::prelude::*;
use crate::text::{chars_eq_str, decimal, push_decimal, push_str, str_chars, string_from_chars};

verus! {

/// Families of editors, by how they take a position.
#[derive(Debug, Clone, Copy, PartialEq, Eq, Structural)]
pub enum EditorKind {
    /// vim, nvim, vi: `+{line}` before the file.
    Vim,
    /// VS Code, Cursor: `-g {file}:{line}:{col}`.
    VsCode,
    /// nano: `+{line},{col}` before the file.
    Nano,
    /// emacs: `+{line}:{col}` before the file.
    Emacs,
    /// helix: `{file}:{line}`.
    Helix,
    /// No known way to pass a position.
    Unknown,
}

/// The text after the last `/`.
pub open spec fn last_segment(s: Seq<char>) -> Seq<char>
    decreases s.len(),
{
    if s.len() == 0 {
        s
    } else if s.last() == '/' {
        seq![]
    } else {
        last_segment(s.drop_last()).push(s.last())
    }
}

/// `s` without trailing `/` and `/.` parts, which name no further component.
pub open spec fn trim_tail(s: Seq<char>) -> Seq<char>
    decreases s.len(),
{
    if s.len() > 0 && s.last() == '/' {
        trim_tail(s.drop_last())
    } else if s.len() >= 2 && s.last() == '.' && s[s.len() - 2] == '/' {
        trim_tail(s.drop_last())
    } else {
        s
    }
}

/// The final component of a path as `Path::file_name` gives it, if there is one:
/// trailing `/` and `/.` are ignored, and a path that ends in `..`, is `.`, or
/// has no component (empty, or only `/`) has none.
pub open spec fn file_name(s: Seq<char>) -> Option<Seq<char>> {
    let n = last_segment(trim_tail(s));
    if n.len() == 0 || n == seq!['.'] || n == seq!['.', '.'] {
        None
    } else {
        Some(n)
    }
}

/// The name a command is known by: its final path component, or the whole
/// command when it has none.
pub open spec fn command_name(s: Seq<char>) -> Seq<char> {
    match file_name(s) {
        Some(n) => n,
        None => s,
    }
}

/// The editor family of a command name.
pub open spec fn kind_of_name(n: Seq<char>) -> EditorKind {
    if n == "vim"@ || n == "nvim"@ || n == "vi"@ || n == "view"@ || n == "vimdiff"@ {
        EditorKind::Vim
    } else if n == "code"@ || n == "cursor"@ || n == "code-insiders"@ || n == "codium"@
        || n == "vscodium"@ {
        EditorKind::VsCode
    } else if n == "nano"@ || n == "pico"@ {
        EditorKind::Nano
    } else if n == "emacs"@ || n == "emacsclient"@ {
        EditorKind::Emacs
    } else if n == "hx"@ || n == "helix"@ {
        EditorKind::Helix
    } else {
        EditorKind::Unknown
    }
}

fn last_segment_of(s: &[char]) -> (r: Vec<char>)
    ensures
        r@ == last_segment(s@),
{
    let mut name: Vec<char> = Vec::new();
    let mut i: usize = 0;
    while i < s.len()
        invariant
            i <= s@.len(),
            name@ == last_segment(s@.subrange(0, i as int)),
        decreases s@.len() - i,
    {
        let ghost next = s@.subrange(0, i + 1);
        assert(next.drop_last() == s@.subrange(0, i as int));
        if s[i] == '/' {
            name = Vec::new();
        } else {
            name.push(s[i]);
        }
        i = i + 1;
    }
    assert(s@.subrange(0, s@.len() as int) == s@);
    name
}

fn copy_chars(s: &[char]) -> (r: Vec<char>)
    ensures
        r@ == s@,
{
    let mut out: Vec<char> = Vec::new();
    let mut i: usize = 0;
    while i < s.len()
        invariant
            i <= s@.len(),
            out@ == s@.subrange(0, i as int),
        decreases s@.len() - i,
    {
        out.push(s[i]);
        i = i + 1;
    }
    assert(s@.subrange(0, s@.len() as int) == s@);
    out
}

/// The name a command is known by, as [`command_name`] says.
pub fn command_name_of(s: &[char]) -> (r: Vec<char>)
    ensures
        r@ == command_name(s@),
{
    let mut k: usize = s.len();
    assert(s@.subrange(0, k as int) == s@);
    while k > 0 && (s[k - 1] == '/' || (k >= 2 && s[k - 1] == '.' && s[k - 2] == '/'))
        invariant
            k <= s@.len(),
            trim_tail(s@.subrange(0, k as int)) == trim_tail(s@),
        decreases k,
    {
        let ghost cur = s@.subrange(0, k as int);
        assert(cur.drop_last() == s@.subrange(0, k - 1));
        assert(cur.last() == s@[k - 1]);
        assert(k >= 2 ==> cur[cur.len() - 2] == s@[k - 2]);
        k = k - 1;
    }
    let ghost t = s@.subrange(0, k as int);
    assert(k >= 2 ==> t[t.len() - 2] == s@[k - 2]);
    assert(trim_tail(t) == t);
    let n = last_segment_of(&s[0..k]);
    let dot = n.len() == 1 && n[0] == '.';
    let dotdot = n.len() == 2 && n[0] == '.' && n[1] == '.';
    proof {
        if n@ == seq!['.'] {
            assert(n@[0] == '.');
        }
        if n@ == seq!['.', '.'] {
            assert(n@[0] == '.' && n@[1] == '.');
        }
        if dot {
            assert(n@ =~= seq!['.']);
        }
        if dotdot {
            assert(n@ =~= seq!['.', '.']);
        }
    }
    if n.len() == 0 || dot || dotdot {
        copy_chars(s)
    } else {
        n
    }
}

fn name_in(n: &[char], a: &str, b: &str) -> (r: bool)
    ensures
        r == (n@ == a@ || n@ == b@),
{
    chars_eq_str(n, a) || chars_eq_str(n, b)
}

impl EditorKind {
    /// The editor family of a command, by its final path component.
    pub fn detect(cmd: &str) -> (r: EditorKind)
        ensures
            r == kind_of_name(command_name(cmd@)),
    {
        let cs = str_chars(cmd);
        let name = command_name_of(cs.as_slice());
        let n = name.as_slice();
        if name_in(n, "vim", "nvim") || name_in(n, "vi", "view") || chars_eq_str(n, "vimdiff") {
            EditorKind::Vim
        } else if name_in(n, "code", "cursor") || name_in(n, "code-insiders", "codium")
            || chars_eq_str(n, "vscodium") {
            EditorKind::VsCode
        } else if name_in(n, "nano", "pico") {
            EditorKind::Nano
        } else if name_in(n, "emacs", "emacsclient") {
            EditorKind::Emacs
        } else if name_in(n, "hx", "helix") {
            EditorKind::Helix
        } else {
            EditorKind::Unknown
        }
    }
}

/// A place in a file; both numbers count from 1.
#[derive(Debug, Clone, Copy, Default)]
pub struct Position {
    pub line: usize,
    pub col: Option<usize>,
}

impl Position {
    pub fn new(line: usize, col: Option<usize>) -> (r: Position)
        ensures
            r.line == line,
            r.col == col,
    {
        Position { line, col }
    }

    /// A line with no column.
    pub fn line(line: usize) -> (r: Position)
        ensures
            r.line == line,
            r.col is None,
    {
        Position { line, col: None }
    }
}

/// `+{line}`.
pub open spec fn plus_line(line: usize) -> Seq<char> {
    seq!['+'] + decimal(line as nat)
}

/// The arguments before the file, and the file argument, that open `file` at
/// `pos` in an editor of family `kind`.
pub open spec fn editor_args(kind: EditorKind, file: Seq<char>, pos: Option<Position>) -> (Seq<Seq<char>>, Seq<char>) {
    match pos {
        None => (seq![], file),
        Some(p) => match kind {
            EditorKind::Vim => (seq![plus_line(p.line)], file),
            EditorKind::VsCode => {
                let col = match p.col {
                    Some(c) => c,
                    None => 1,
                };
                (seq![seq!['-', 'g']], file + seq![':'] + decimal(p.line as nat) + seq![':'] + decimal(col as nat))
            },
            EditorKind::Nano => match p.col {
                Some(c) => (seq![plus_line(p.line) + seq![','] + decimal(c as nat)], file),
                None => (seq![plus_line(p.line)], file),
            },
            EditorKind::Emacs => match p.col {
                Some(c) => (seq![plus_line(p.line) + seq![':'] + decimal(c as nat)], file),
                None => (seq![plus_line(p.line)], file),
            },
            EditorKind::Helix => (seq![], file + seq![':'] + decimal(p.line as nat)),
            EditorKind::Unknown => (seq![], file),
        },
    }
}

pub open spec fn string_views(v: Seq<String>) -> Seq<Seq<char>> {
    v.map_values(|s: String| s@)
}

fn one_arg(a: Vec<char>) -> (r: Vec<String>)
    ensures
        string_views(r@) == seq![a@],
{
    let mut v: Vec<String> = Vec::new();
    v.push(string_from_chars(a.as_slice()));
    assert(string_views(v@) =~= seq![a@]);
    v
}

/// Builds the arguments that open `file_path` at `pos` with `editor_cmd`:
/// those that go before the file, and the file argument itself.
pub fn build_editor_args(editor_cmd: &str, file_path: &str, pos: Option<Position>) -> (r: (Vec<String>, String))
    ensures
        (string_views(r.0@), r.1@) == editor_args(kind_of_name(command_name(editor_cmd@)), file_path@, pos),
{
    let kind = EditorKind::detect(editor_cmd);
    let file = str_chars(file_path);
    let p = match pos {
        None => {
            let v: Vec<String> = Vec::new();
            assert(string_views(v@) =~= seq![]);
            return (v, string_from_chars(file.as_slice()));
        },
        Some(p) => p,
    };
    let mut arg: Vec<char> = Vec::new();
    arg.push('+');
    push_decimal(&mut arg, p.line);
    assert(arg@ =~= plus_line(p.line));
    let result: (Vec<String>, String) = match kind {
        EditorKind::Vim => (one_arg(arg), string_from_chars(file.as_slice())),
        EditorKind::VsCode => {
            let col = match p.col {
                Some(c) => c,
                None => 1,
            };
            let mut f = file;
            f.push(':');
            push_decimal(&mut f, p.line);
            f.push(':');
            push_decimal(&mut f, col);
            let mut g: Vec<char> = Vec::new();
            push_str(&mut g, "-g");
            proof {
                reveal_strlit("-g");
                assert(g@ =~= seq!['-', 'g']);
            }
            (one_arg(g), string_from_chars(f.as_slice()))
        },
        EditorKind::Nano => {
            if let Some(c) = p.col {
                let ghost a0 = arg@;
                arg.push(',');
                push_decimal(&mut arg, c);
                assert(arg@ =~= a0 + seq![','] + decimal(c as nat));
            }
            (one_arg(arg), string_from_chars(file.as_slice()))
        },
        EditorKind::Emacs => {
            if let Some(c) = p.col {
                let ghost a0 = arg@;
                arg.push(':');
                push_decimal(&mut arg, c);
                assert(arg@ =~= a0 + seq![':'] + decimal(c as nat));
            }
            (one_arg(arg), string_from_chars(file.as_slice()))
        },
        EditorKind::Helix => {
            let mut f = file;
            f.push(':');
            push_decimal(&mut f, p.line);
            let v: Vec<String> = Vec::new();
            assert(string_views(v@) =~= seq![]);
            (v, string_from_chars(f.as_slice()))
        },
        EditorKind::Unknown => {
            let v: Vec<String> = Vec::new();
            assert(string_views(v@) =~= seq![]);
            (v, string_from_chars(file.as_slice()))
        },
    };
    result
}

} // verus!
