//! The `download` command: its arguments, and what to do with the exercise
//! tool's answer.
use vstd::prelude::*;
use crate::text::{find, find_in, has_prefix, lemma_find, prefix_in, trim_newlines, trim_trailing_newlines};
use crate::track::views;

verus! {

/// The line that the exercise tool writes when the exercise directory is
/// already there.
pub const EXISTS_PREFIX: &'static str = "Error: directory";

/// The text between the first two single quotes of `line`, if it has two.
pub open spec fn quoted(line: Seq<char>) -> Option<Seq<char>> {
    let a = find(line, '\'');
    if a < line.len() {
        let rest = line.subrange(a + 1 as int, line.len() as int);
        let b = find(rest, '\'');
        if b < rest.len() {
            Some(rest.subrange(0, b as int))
        } else {
            None
        }
    } else {
        None
    }
}

/// The directory named by the first line of `s` that starts with
/// `Error: directory`, taken from between that line's first two quotes;
/// `None` when no line starts so, or that line holds no quoted text.
pub open spec fn directory_in(s: Seq<char>) -> Option<Seq<char>>
    decreases s.len(),
{
    if s.len() == 0 {
        None
    } else {
        let nl = find(s, '\n');
        let e: int = if nl < s.len() {
            nl as int
        } else {
            s.len() as int
        };
        let line = s.subrange(0, e);
        if has_prefix(line, EXISTS_PREFIX@) {
            quoted(line)
        } else if e < s.len() {
            directory_in(s.subrange(e + 1, s.len() as int))
        } else {
            None
        }
    }
}

/// The arguments of the `download` invocation.
pub open spec fn download_invocation(track: Seq<char>, exercise: Seq<char>, force: bool) -> Seq<
    Seq<char>,
> {
    seq!["download"@, "--track="@ + track, "--exercise="@ + exercise] + if force {
        seq!["--force"@]
    } else {
        seq![]
    }
}

/// What follows a `download`.
#[derive(Debug, Clone, PartialEq, Eq)]
pub enum DownloadAction {
    /// Open this directory in the editor.
    OpenEditor(String),
    /// Show this message to the user; nothing is opened.
    Report(String),
}

impl DownloadAction {
    pub open spec fn opens(&self, dir: Seq<char>) -> bool {
        match self {
            DownloadAction::OpenEditor(d) => d@ == dir,
            DownloadAction::Report(_) => false,
        }
    }

    pub open spec fn reports(&self, msg: Seq<char>) -> bool {
        match self {
            DownloadAction::OpenEditor(_) => false,
            DownloadAction::Report(m) => m@ == msg,
        }
    }
}

/// The action owed to the tool's answer: on success the directory printed
/// on `stdout`; on failure the directory that `stderr` says already exists,
/// or else `stderr` itself, to be shown.
pub open spec fn download_action(succeeded: bool, stdout: Seq<char>, stderr: Seq<char>, a: DownloadAction) -> bool {
    if succeeded {
        a.opens(trim_newlines(stdout))
    } else {
        match directory_in(stderr) {
            Some(d) => a.opens(d),
            None => a.reports(stderr),
        }
    }
}

/// The arguments for `download`: `--track=`, `--exercise=` and, when
/// `force` is set, `--force`.
pub fn download_args(track: &str, exercise: &str, force: bool) -> (r: Vec<String>)
    ensures
        views(r@) == download_invocation(track@, exercise@, force),
{
    let mut r: Vec<String> = Vec::new();
    r.push(String::from_str("download"));
    r.push(String::from_str("--track=").concat(track));
    r.push(String::from_str("--exercise=").concat(exercise));
    if force {
        r.push(String::from_str("--force"));
    }
    assert(views(r@) =~= download_invocation(track@, exercise@, force));
    r
}

/// The directory that the exercise tool's error output reports as already
/// existing, if it reports one.
pub fn existing_directory(stderr: &str) -> (r: Option<String>)
    ensures
        match r {
            Some(d) => directory_in(stderr@) == Some(d@),
            None => directory_in(stderr@) is None,
        },
{
    let ghost s = stderr@;
    let n = stderr.unicode_len();
    let mut i: usize = 0;
    assert(s.subrange(0, n as int) =~= s);
    while i < n
        invariant
            n == s.len(),
            s == stderr@,
            i <= n,
            directory_in(s.subrange(i as int, n as int)) == directory_in(s),
        decreases n - i,
    {
        let e = find_in(stderr, '\n', i, n);
        let ghost rest = s.subrange(i as int, n as int);
        proof {
            lemma_find(rest, '\n', e - i);
            assert(rest.subrange(0, e - i) =~= s.subrange(i as int, e as int));
        }
        if prefix_in(stderr, i, e, EXISTS_PREFIX) {
            let a = find_in(stderr, '\'', i, e);
            let ghost line = s.subrange(i as int, e as int);
            proof {
                lemma_find(line, '\'', a - i);
            }
            if a == e {
                return None;
            }
            let b = find_in(stderr, '\'', a + 1, e);
            proof {
                let after = line.subrange(a - i + 1, line.len() as int);
                assert(after =~= s.subrange(a + 1, e as int));
                lemma_find(after, '\'', b - a - 1);
                assert(after.subrange(0, b - a - 1) =~= s.subrange(a + 1, b as int));
            }
            if b == e {
                return None;
            }
            return Some(String::from_str(stderr.substring_char(a + 1, b)));
        }
        if e == n {
            return None;
        }
        assert(rest.subrange(e - i + 1, rest.len() as int) =~= s.subrange(e + 1, n as int));
        i = e + 1;
    }
    None
}

/// The action that follows a `download` that succeeded or not, with what it
/// wrote to `stdout` and `stderr`.
pub fn download_outcome(succeeded: bool, stdout: &str, stderr: &str) -> (r: DownloadAction)
    ensures
        download_action(succeeded, stdout@, stderr@, r),
{
    if succeeded {
        DownloadAction::OpenEditor(trim_trailing_newlines(stdout))
    } else {
        match existing_directory(stderr) {
            Some(d) => DownloadAction::OpenEditor(d),
            None => DownloadAction::Report(String::from_str(stderr)),
        }
    }
}

} // verus!
