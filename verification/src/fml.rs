//! Feature manifests: errors for clients, and where manifests are loaded from.

use crate::seq_util::{lemma_position, lemma_position_first, position};
use crate::store::opt_text;
use crate::text::{spec_starts_with, starts_with};
use vstd::prelude::*;
use vstd::string::*;

verus! {

/// What a client of the feature manifest did wrong.
#[derive(Clone, Debug, PartialEq, Eq)]
pub enum ClientError {
    InvalidFeatureConfig(String),
    InvalidFeatureId(String),
    InvalidFeatureValue(String),
    JsonMergeError(String),
}

impl ClientError {
    /// The text that the error carries.
    pub open spec fn spec_message(self) -> Seq<char> {
        match self {
            ClientError::InvalidFeatureConfig(m) => m@,
            ClientError::InvalidFeatureId(m) => m@,
            ClientError::InvalidFeatureValue(m) => m@,
            ClientError::JsonMergeError(m) => m@,
        }
    }

    /// The text that the error carries.
    pub fn message(&self) -> (r: String)
        ensures
            r@ == self.spec_message(),
    {
        match self {
            ClientError::InvalidFeatureConfig(m) => m.clone(),
            ClientError::InvalidFeatureId(m) => m.clone(),
            ClientError::InvalidFeatureValue(m) => m.clone(),
            ClientError::JsonMergeError(m) => m.clone(),
        }
    }
}

/// Where manifests are loaded from: the working directory, files that map
/// repositories to locations, a cache directory, and the git refs to use
/// for repositories.
#[derive(Clone, Debug)]
pub struct LoaderConfig {
    pub cwd: String,
    pub repo_files: Vec<String>,
    pub cache_dir: Option<String>,
    pub refs: Vec<(String, String)>,
}

/// True for the character that parts a repository shorthand.
pub open spec fn is_slash() -> spec_fn(char) -> bool {
    |c: char| c == '/'
}

/// A shorthand `@user/repo/path` parted into `@user/repo` and `path`, at
/// its second slash; nothing for a text that does not begin with `@` or
/// has fewer than two slashes.
pub open spec fn spec_repo_and_path(f: Seq<char>) -> Option<(Seq<char>, Seq<char>)> {
    if f.len() > 0 && f[0] == '@' {
        match position(f, is_slash()) {
            Some(first) => match position(f.skip(first + 1), is_slash()) {
                Some(k) => {
                    let second = first + 1 + k;
                    Some((f.take(second), f.skip(second + 1)))
                },
                None => None,
            },
            None => None,
        }
    } else {
        None
    }
}

/// The first slash of `f` at or after `from`.
fn find_slash(f: &str, from: usize) -> (r: Option<usize>)
    requires
        from <= f@.len(),
    ensures
        match r {
            Some(i) => from <= i < f@.len() && position(f@.skip(from as int), is_slash()) == Some(
                i - from,
            ),
            None => position(f@.skip(from as int), is_slash()) is None,
        },
{
    let n = f.unicode_len();
    let ghost rest = f@.skip(from as int);
    let mut i: usize = from;
    while i < n
        invariant
            from <= i <= n,
            n == f@.len(),
            rest == f@.skip(from as int),
            forall|j: int| 0 <= j < i - from ==> !is_slash()(#[trigger] rest[j]),
        decreases n - i,
    {
        if f.get_char(i) == '/' {
            proof {
                lemma_position_first(rest, is_slash(), i - from);
            }
            return Some(i);
        }
        i += 1;
    }
    proof {
        lemma_position(rest, is_slash());
    }
    None
}

impl LoaderConfig {
    /// Parts a repository shorthand into the repository and the path.
    pub fn repo_and_path(f: &str) -> (r: Option<(String, String)>)
        ensures
            match spec_repo_and_path(f@) {
                Some((repo, path)) => r matches Some((a, b)) && a@ == repo && b@ == path,
                None => r is None,
            },
    {
        let n = f.unicode_len();
        if n == 0 || f.get_char(0) != '@' {
            return None;
        }
        proof {
            assert(f@.skip(0) =~= f@);
        }
        let first = match find_slash(f, 0) {
            Some(i) => i,
            None => {
                return None;
            },
        };
        let second = match find_slash(f, first + 1) {
            Some(j) => j,
            None => {
                return None;
            },
        };
        let repo = f.substring_char(0, second).to_owned();
        let path = f.substring_char(second + 1, n).to_owned();
        proof {
            lemma_repo_and_path(f@, first as int, second as int);
        }
        Some((repo, path))
    }
}

/// Where the slashes stand decides the parts of a shorthand.
proof fn lemma_repo_and_path(f: Seq<char>, first: int, second: int)
    requires
        f.len() > 0,
        f[0] == '@',
        0 <= first < second < f.len(),
        position(f, is_slash()) == Some(first),
        position(f.skip(first + 1), is_slash()) == Some(second - (first + 1)),
    ensures
        spec_repo_and_path(f) == Some((f.subrange(0, second), f.subrange(second + 1, f.len() as int))),
{
    assert(f.take(second) =~= f.subrange(0, second));
    assert(f.skip(second + 1) =~= f.subrange(second + 1, f.len() as int));
}

/// Where the slashes stand decides the parts of a shorthand.
proof fn lemma_parse_shortcut(f: Seq<char>, first: int, second: int)
    requires
        f.len() > 0,
        f[0] == '@',
        1 <= first < second < f.len(),
        position(f.skip(1), is_slash()) == Some(first - 1),
        position(f.skip(first + 1), is_slash()) == Some(second - (first + 1)),
    ensures
        spec_parse_shortcut(f) == (ShortcutView::Parts {
            user: f.subrange(1, first),
            repo: f.subrange(first + 1, second),
            path: f.subrange(second + 1, f.len() as int),
        }),
{
    assert(f.skip(second + 1) =~= f.subrange(second + 1, f.len() as int));
}

/// True when `pat` stands somewhere in `s`.
pub open spec fn spec_contains_text(s: Seq<char>, pat: Seq<char>) -> bool {
    exists|i: int| 0 <= i && i + pat.len() <= s.len() && #[trigger] s.subrange(i, i + pat.len()) == pat
}

/// Whether `pat` stands in `s` at the position `at`.
fn matches_at(s: &str, pat: &str, at: usize) -> (r: bool)
    requires
        at + pat@.len() <= s@.len(),
    ensures
        r == (s@.subrange(at as int, at + pat@.len()) == pat@),
{
    let m = pat.unicode_len();
    let n = s.unicode_len();
    let ghost part = s@.subrange(at as int, at + m);
    let mut j: usize = 0;
    while j < m
        invariant
            j <= m,
            m == pat@.len(),
            n == s@.len(),
            at + m <= s@.len(),
            part == s@.subrange(at as int, at + m),
            forall|k: int| 0 <= k < j ==> part[k] == pat@[k],
        decreases m - j,
    {
        if s.get_char(at + j) != pat.get_char(j) {
            assert(part[j as int] != pat@[j as int]);
            return false;
        }
        j += 1;
    }
    assert(part =~= pat@);
    true
}

/// Whether `pat` stands somewhere in `s`.
pub fn contains_text(s: &str, pat: &str) -> (r: bool)
    ensures
        r == spec_contains_text(s@, pat@),
{
    let n = s.unicode_len();
    let m = pat.unicode_len();
    if m > n {
        return false;
    }
    let mut i: usize = 0;
    loop
        invariant
            i <= n - m,
            m <= n,
            n == s@.len(),
            m == pat@.len(),
            forall|k: int| 0 <= k < i ==> #[trigger] s@.subrange(k, k + m) != pat@,
        decreases n - m - i,
    {
        if matches_at(s, pat, i) {
            return true;
        }
        if i == n - m {
            return false;
        }
        i += 1;
    }
}

/// True when `file` names a URL rather than a path.
pub open spec fn spec_is_url(file: Seq<char>) -> bool {
    spec_contains_text(file, "://"@)
}

/// Whether `file` names a URL rather than a path.
pub fn is_url(file: &str) -> (r: bool)
    ensures
        r == spec_is_url(file@),
{
    contains_text(file, "://")
}

/// True when `loc` is a place to find a repository at (a relative or
/// absolute path, or a URL) rather than a branch, tag or commit of it.
pub open spec fn spec_is_location(loc: Seq<char>) -> bool {
    spec_starts_with(loc, "."@) || spec_starts_with(loc, "/"@) || spec_contains_text(
        loc,
        ":\\"@,
    ) || spec_contains_text(loc, "://"@)
}

/// Whether `loc` is a place to find a repository at rather than a git ref.
pub fn is_location(loc: &str) -> (r: bool)
    ensures
        r == spec_is_location(loc@),
{
    starts_with(loc, ".") || starts_with(loc, "/") || contains_text(loc, ":\\") || contains_text(
        loc,
        "://",
    )
}

/// `loc` with a slash at its end, so that it is taken for a directory.
pub open spec fn spec_as_directory(loc: Seq<char>) -> Seq<char> {
    if loc.len() > 0 && loc.last() == '/' {
        loc
    } else {
        loc.push('/')
    }
}

/// `loc` with a slash at its end.
pub fn as_directory(loc: &str) -> (r: String)
    ensures
        r@ == spec_as_directory(loc@),
{
    let n = loc.unicode_len();
    if n > 0 && loc.get_char(n - 1) == '/' {
        loc.to_owned()
    } else {
        proof {
            reveal_strlit("/");
            assert("/"@ =~= seq!['/']);
            assert(loc@ + seq!['/'] =~= loc@.push('/'));
        }
        loc.to_owned().concat("/")
    }
}

/// A file name as a repository shorthand reads it.
#[derive(Clone, Debug, PartialEq, Eq)]
pub enum Shortcut {
    /// The name does not begin with `@`: it is no shorthand.
    Plain,
    /// `@user/repo/path`, in its parts.
    Parts { user: String, repo: String, path: String },
    /// The name begins with `@` but has no user, repository and path.
    Malformed,
}

/// A shorthand as plain values.
pub enum ShortcutView {
    Plain,
    Parts { user: Seq<char>, repo: Seq<char>, path: Seq<char> },
    Malformed,
}

impl View for Shortcut {
    type V = ShortcutView;

    open spec fn view(&self) -> ShortcutView {
        match self {
            Shortcut::Plain => ShortcutView::Plain,
            Shortcut::Parts { user, repo, path } => ShortcutView::Parts {
                user: user@,
                repo: repo@,
                path: path@,
            },
            Shortcut::Malformed => ShortcutView::Malformed,
        }
    }
}

/// The parts of a shorthand: what follows the `@` up to the first slash is
/// the user, from there to the second slash the repository, and the rest
/// the path.
pub open spec fn spec_parse_shortcut(f: Seq<char>) -> ShortcutView {
    if f.len() > 0 && f[0] == '@' {
        match position(f.skip(1), is_slash()) {
            Some(a) => {
                let first = 1 + a;
                match position(f.skip(first + 1), is_slash()) {
                    Some(b) => {
                        let second = first + 1 + b;
                        ShortcutView::Parts {
                            user: f.subrange(1, first),
                            repo: f.subrange(first + 1, second),
                            path: f.skip(second + 1),
                        }
                    },
                    None => ShortcutView::Malformed,
                }
            },
            None => ShortcutView::Malformed,
        }
    } else {
        ShortcutView::Plain
    }
}

/// Reads a file name as a repository shorthand.
pub fn parse_shortcut(f: &str) -> (r: Shortcut)
    ensures
        r@ == spec_parse_shortcut(f@),
{
    let n = f.unicode_len();
    if n == 0 || f.get_char(0) != '@' {
        return Shortcut::Plain;
    }
    let first = match find_slash(f, 1) {
        Some(i) => i,
        None => {
            return Shortcut::Malformed;
        },
    };
    let second = match find_slash(f, first + 1) {
        Some(j) => j,
        None => {
            return Shortcut::Malformed;
        },
    };
    let user = f.substring_char(1, first).to_owned();
    let repo = f.substring_char(first + 1, second).to_owned();
    let path = f.substring_char(second + 1, n).to_owned();
    proof {
        lemma_parse_shortcut(f@, first as int, second as int);
    }
    Shortcut::Parts { user, repo, path }
}

/// True for the character that parts a file name from its extension.
pub open spec fn is_dot() -> spec_fn(char) -> bool {
    |c: char| c == '.'
}

/// What follows the last dot of a file name; nothing for a name without dot.
pub open spec fn spec_extension_of(name: Seq<char>) -> Option<Seq<char>> {
    match position(name.reverse(), is_dot()) {
        Some(k) => Some(name.skip(name.len() - k)),
        None => None,
    }
}

/// What follows the last dot of a file name.
pub fn extension_of(name: &str) -> (r: Option<String>)
    ensures
        opt_text(r) == spec_extension_of(name@),
{
    let n = name.unicode_len();
    let ghost back = name@.reverse();
    let mut k: usize = 0;
    while k < n
        invariant
            k <= n,
            n == name@.len(),
            back == name@.reverse(),
            forall|j: int| 0 <= j < k ==> !is_dot()(#[trigger] back[j]),
        decreases n - k,
    {
        if name.get_char(n - 1 - k) == '.' {
            proof {
                assert(back[k as int] == name@[n - 1 - k]);
                lemma_position_first(back, is_dot(), k as int);
                assert(name@.skip(n - k) =~= name@.subrange(n - k, n as int));
            }
            return Some(name.substring_char(n - k, n).to_owned());
        }
        proof {
            assert(back[k as int] == name@[n - 1 - k]);
        }
        k += 1;
    }
    proof {
        lemma_position(back, is_dot());
    }
    None
}

/// The URL from which a file of a public repository is downloaded.
pub open spec fn spec_download_url(
    repo_id: Seq<char>,
    git_ref: Seq<char>,
    path: Seq<char>,
) -> Seq<char> {
    "https://raw.githubusercontent.com/"@ + repo_id + "/"@ + git_ref + path
}

/// The URL from which a file of a public repository is downloaded; `path`
/// begins with a slash.
pub fn download_url(repo_id: &str, git_ref: &str, path: &str) -> (r: String)
    ensures
        r@ == spec_download_url(repo_id@, git_ref@, path@),
{
    "https://raw.githubusercontent.com/".to_owned().concat(repo_id).concat("/").concat(
        git_ref,
    ).concat(path)
}

/// The URL at which the repository's host tells where a file is downloaded.
pub open spec fn spec_contents_api_url(
    repo_id: Seq<char>,
    git_ref: Seq<char>,
    path: Seq<char>,
) -> Seq<char> {
    "https://api.github.com/repos/"@ + repo_id + "/contents"@ + path + "?ref="@ + git_ref
}

/// The URL at which the repository's host tells where a file is
/// downloaded; `path` begins with a slash.
pub fn contents_api_url(repo_id: &str, git_ref: &str, path: &str) -> (r: String)
    ensures
        r@ == spec_contents_api_url(repo_id@, git_ref@, path@),
{
    "https://api.github.com/repos/".to_owned().concat(repo_id).concat("/contents").concat(
        path,
    ).concat("?ref=").concat(git_ref)
}

} // verus!
