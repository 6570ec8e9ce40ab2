//! Path resolution on plain strings: home expansion, joining, and the choice
//! between the permissive and the strict mode.
//!
//! What only the file system knows (whether a path exists, whether it is a
//! directory, its canonical form) comes in as a [`PathProbe`].

use vstd::prelude::*;

verus! {

broadcast use vstd::string::group_string_axioms;

/// `s` without the leading characters equal to `c`.
pub open spec fn strip_leading(s: Seq<char>, c: char) -> Seq<char>
    decreases s.len(),
{
    if s.len() > 0 && s[0] == c {
        strip_leading(s.drop_first(), c)
    } else {
        s
    }
}

/// `rest` joined onto `base` as a path: an absolute `rest` replaces `base`,
/// and a separator is put between the two where `base` ends without one.
pub open spec fn joined(base: Seq<char>, rest: Seq<char>) -> Seq<char> {
    if rest.len() > 0 && rest[0] == '/' {
        rest
    } else if base.len() == 0 || base.last() == '/' {
        base + rest
    } else {
        base + seq!['/'] + rest
    }
}

/// `path` with a leading `~` replaced by the home directory `home`.
pub open spec fn expanded(path: Seq<char>, home: Seq<char>) -> Seq<char> {
    if path.len() > 0 && path[0] == '~' {
        joined(home, strip_leading(strip_leading(path, '~'), '/'))
    } else {
        path
    }
}

/// `path` made absolute against the working directory `cwd`.
pub open spec fn absolute(path: Seq<char>, cwd: Seq<char>) -> Seq<char> {
    if path.len() > 0 && path[0] == '/' {
        path
    } else {
        joined(cwd, path)
    }
}

/// Why a path was refused.
#[derive(Clone, Copy, Debug, PartialEq, Eq, Structural)]
pub enum PathError {
    /// The path does not exist.
    NotFound,
    /// The path exists and is not a directory.
    NotADirectory,
}

/// How strictly a path is checked.
#[derive(Clone, Copy, Debug, PartialEq, Eq, Structural)]
pub enum ResolveMode {
    /// Any path is accepted, existing or not.
    Permissive,
    /// The path must name an existing directory.
    Strict,
}

/// What the file system says of a path.
#[derive(Debug)]
pub struct PathProbe {
    pub exists: bool,
    pub is_dir: bool,
    /// The canonical form of the path, when it could be computed.
    pub canonical: Option<String>,
}

fn strip_leading_at(s: &Vec<char>, start: usize, c: char) -> (r: usize)
    requires
        start <= s@.len(),
    ensures
        start <= r <= s@.len(),
        s@.subrange(r as int, s@.len() as int) == strip_leading(
            s@.subrange(start as int, s@.len() as int),
            c,
        ),
{
    let mut i = start;
    while i < s.len() && s[i] == c
        invariant
            start <= i <= s@.len(),
            strip_leading(s@.subrange(i as int, s@.len() as int), c) == strip_leading(
                s@.subrange(start as int, s@.len() as int),
                c,
            ),
        decreases s@.len() - i,
    {
        assert(s@.subrange(i as int, s@.len() as int).drop_first() =~= s@.subrange(
            i + 1,
            s@.len() as int,
        ));
        i = i + 1;
    }
    i
}

/// `rest` joined onto `base` as a path.
pub fn join_path(base: &str, rest: &str) -> (r: String)
    ensures
        r@ == joined(base@, rest@),
{
    let b = crate::text::chars_of(base);
    let t = crate::text::chars_of(rest);
    if t.len() > 0 && t[0] == '/' {
        rest.to_owned()
    } else if b.len() == 0 || b[b.len() - 1] == '/' {
        let mut out = base.to_owned();
        out.append(rest);
        out
    } else {
        let mut out = base.to_owned();
        out.append("/");
        proof {
            reveal_strlit("/");
        }
        out.append(rest);
        out
    }
}

/// `path` with a leading `~` replaced by the home directory `home`.
pub fn expand_home_in(path: &str, home: &str) -> (r: String)
    ensures
        r@ == expanded(path@, home@),
{
    let p = crate::text::chars_of(path);
    if p.len() > 0 && p[0] == '~' {
        let a = strip_leading_at(&p, 0, '~');
        let b = strip_leading_at(&p, a, '/');
        assert(p@.subrange(0, p@.len() as int) =~= p@);
        let rest = path.substring_char(b, p.len());
        join_path(home, rest)
    } else {
        path.to_owned()
    }
}

/// `path` made absolute against the working directory `cwd`.
pub fn make_absolute(path: &str, cwd: &str) -> (r: String)
    ensures
        r@ == absolute(path@, cwd@),
{
    let p = crate::text::chars_of(path);
    if p.len() > 0 && p[0] == '/' {
        path.to_owned()
    } else {
        join_path(cwd, path)
    }
}

/// Resolves the absolute path `abs` from what the file system says of it. In
/// strict mode a path that does not exist, or is no directory, is refused.
/// Otherwise the result is the canonical form, or `abs` itself when none
/// could be computed.
pub fn resolve(mode: ResolveMode, abs: &str, probe: PathProbe) -> (r: Result<String, PathError>)
    ensures
        mode is Strict && !probe.exists ==> r == Err::<String, PathError>(PathError::NotFound),
        mode is Strict && probe.exists && !probe.is_dir ==> r == Err::<String, PathError>(
            PathError::NotADirectory,
        ),
        mode is Permissive || (probe.exists && probe.is_dir) ==> (r matches Ok(s) && s@ == (
        match probe.canonical {
            Some(c) => c@,
            None => abs@,
        })),
{
    if matches!(mode, ResolveMode::Strict) {
        if !probe.exists {
            return Err(PathError::NotFound);
        }
        if !probe.is_dir {
            return Err(PathError::NotADirectory);
        }
    }
    match probe.canonical {
        Some(c) => Ok(c),
        None => Ok(abs.to_owned()),
    }
}

/// Relies on dirs::home_dir: the home directory of the current user, when one
/// is known and is valid UTF-8.
#[verifier::external_body]
fn home_directory() -> (r: Option<String>) {
    dirs::home_dir().and_then(|p| p.into_os_string().into_string().ok())
}

/// `path` with a leading `~` replaced by the current user's home directory,
/// or by `.` when none is known.
pub fn expand_home(path: &str) -> (r: String)
    ensures
        !(path@.len() > 0 && path@[0] == '~') ==> r@ == path@,
        exists|home: Seq<char>| r@ == expanded(path@, home),
{
    let home = match home_directory() {
        Some(h) => h,
        None => {
            proof {
                reveal_strlit(".");
            }
            ".".to_owned()
        },
    };
    let r = expand_home_in(path, home.as_str());
    assert(r@ == expanded(path@, home@));
    r
}

} // verus!
