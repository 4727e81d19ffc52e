//! Where the sessions' sockets, the registry and the settings file live.
use vstd::prelude::*;
use crate::text::{push_str, str_chars, string_from_chars};

verus! {

/// `name` joined under `dir` as `Path::join` does it: an absolute `name`
/// replaces `dir`, and one `/` separates them.
pub open spec fn join_path(dir: Seq<char>, name: Seq<char>) -> Seq<char> {
    if name.len() > 0 && name[0] == '/' {
        name
    } else if dir.len() == 0 {
        name
    } else if dir.last() == '/' {
        dir + name
    } else {
        dir + seq!['/'] + name
    }
}

/// The socket directory: the runtime directory, else `.tap` in the home
/// directory, else `/tmp/tap`.
pub open spec fn socket_dir_of(runtime: Option<Seq<char>>, home: Option<Seq<char>>) -> Seq<char> {
    match runtime {
        Some(r) => r,
        None => match home {
            Some(h) => join_path(h, ".tap"@),
            None => "/tmp/tap"@,
        },
    }
}

pub open spec fn opt_view(o: Option<String>) -> Option<Seq<char>> {
    match o {
        Some(s) => Some(s@),
        None => None,
    }
}

/// A runtime directory as dirs gives it: an absolute path.
pub open spec fn absolute_dir(o: Option<Seq<char>>) -> bool {
    o is Some ==> o->0.len() > 0 && o->0[0] == '/'
}

/// A home directory as dirs gives it: not empty.
pub open spec fn nonempty_dir(o: Option<Seq<char>>) -> bool {
    o is Some ==> o->0.len() > 0
}

/// A socket directory that some environment gives.
pub open spec fn possible_socket_dir(d: Seq<char>) -> bool {
    exists|rt: Option<Seq<char>>, h: Option<Seq<char>>|
        #![trigger socket_dir_of(rt, h)]
        absolute_dir(rt) && nonempty_dir(h) && d == socket_dir_of(rt, h)
}

/// Relies on dirs::runtime_dir, which gives `$XDG_RUNTIME_DIR` only when it is an
/// absolute path; otherwise the answer depends on the environment.
#[verifier::external_body]
fn runtime_dir() -> (r: Option<String>)
    ensures
        absolute_dir(opt_view(r)),
{
    dirs::runtime_dir().and_then(|p| p.into_os_string().into_string().ok())
}

/// Relies on dirs::home_dir, which never gives an empty path; otherwise the
/// answer depends on the environment.
#[verifier::external_body]
fn home_dir() -> (r: Option<String>)
    ensures
        nonempty_dir(opt_view(r)),
{
    dirs::home_dir().and_then(|p| p.into_os_string().into_string().ok())
}

/// Relies on dirs::config_dir, which gives an absolute `$XDG_CONFIG_HOME` or
/// `.config` under the (non-empty) home directory, so never an empty path;
/// otherwise the answer depends on the environment.
#[verifier::external_body]
fn config_dir() -> (r: Option<String>)
    ensures
        nonempty_dir(opt_view(r)),
{
    dirs::config_dir().and_then(|p| p.into_os_string().into_string().ok())
}

/// `name` joined under `dir`.
pub fn join(dir: &str, name: &str) -> (r: String)
    ensures
        r@ == join_path(dir@, name@),
{
    let n = str_chars(name);
    if n.len() > 0 && n[0] == '/' {
        return string_from_chars(n.as_slice());
    }
    let mut out = str_chars(dir);
    if out.len() == 0 {
        return string_from_chars(n.as_slice());
    }
    if out[out.len() - 1] != '/' {
        out.push('/');
    }
    push_str(&mut out, name);
    string_from_chars(out.as_slice())
}

/// The socket directory given the runtime and home directories.
pub fn socket_dir_in(runtime: Option<String>, home: Option<String>) -> (r: String)
    ensures
        r@ == socket_dir_of(opt_view(runtime), opt_view(home)),
{
    match runtime {
        Some(r) => r,
        None => match home {
            Some(h) => join(h.as_str(), ".tap"),
            None => "/tmp/tap".to_string(),
        },
    }
}

/// The socket directory of this user.
pub fn socket_dir() -> (r: String)
    ensures
        possible_socket_dir(r@),
{
    let rt = runtime_dir();
    let h = home_dir();
    let ghost (rv, hv) = (opt_view(rt), opt_view(h));
    let r = socket_dir_in(rt, h);
    assert(absolute_dir(rv) && nonempty_dir(hv) && r@ == socket_dir_of(rv, hv));
    r
}

/// `<session_id>.sock` under `dir`.
pub fn socket_path_in(dir: &str, session_id: &str) -> (r: String)
    ensures
        r@ == join_path(dir@, session_id@ + ".sock"@),
{
    let mut name = str_chars(session_id);
    push_str(&mut name, ".sock");
    let name = string_from_chars(name.as_slice());
    join(dir, name.as_str())
}

/// The socket of a session.
pub fn socket_path(session_id: &str) -> (r: String)
    ensures
        exists|d: Seq<char>| #[trigger] possible_socket_dir(d) && r@ == join_path(d, session_id@ + ".sock"@),
{
    let dir = socket_dir();
    socket_path_in(dir.as_str(), session_id)
}

/// The registry file under `dir`.
pub fn sessions_file_in(dir: &str) -> (r: String)
    ensures
        r@ == join_path(dir@, "sessions.json"@),
{
    join(dir, "sessions.json")
}

/// The registry file.
pub fn sessions_file() -> (r: String)
    ensures
        exists|d: Seq<char>| #[trigger] possible_socket_dir(d) && r@ == join_path(d, "sessions.json"@),
{
    let dir = socket_dir();
    sessions_file_in(dir.as_str())
}

/// The settings file given the configuration directory: `tap/config.toml`
/// under it, or under `~/.config` when there is none.
pub fn config_path_in(config_dir: Option<String>) -> (r: String)
    ensures
        r@ == join_path(
            join_path(
                match config_dir {
                    Some(d) => d@,
                    None => "~/.config"@,
                },
                "tap"@,
            ),
            "config.toml"@,
        ),
{
    let base = match config_dir {
        Some(d) => d,
        None => "~/.config".to_string(),
    };
    let t = join(base.as_str(), "tap");
    join(t.as_str(), "config.toml")
}

/// The settings file of this user.
pub fn config_path() -> (r: String)
    ensures
        exists|d: Seq<char>| d.len() > 0 && #[trigger] join_path(join_path(d, "tap"@), "config.toml"@) == r@,
{
    let d = config_dir();
    let ghost dv = opt_view(d);
    let ghost base = match dv {
        Some(s) => s,
        None => "~/.config"@,
    };
    let r = config_path_in(d);
    proof {
        reveal_strlit("~/.config");
    }
    assert(base.len() > 0 && join_path(join_path(base, "tap"@), "config.toml"@) == r@);
    r
}

} // verus!
