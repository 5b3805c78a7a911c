//! The decisions a scan makes about what it finds: which directories are
//! not worth descending into, where a linked worktree's repository lives,
//! and how a discovered worktree is classified. Walking the disk and reading
//! repositories is the caller's job; it hands the facts found here.

use vstd::prelude::*;

use crate::paths::{parent_of, path_parent};
use crate::text::{has_prefix, str_eq, trim, trimmed, starts_with};
use crate::worktree::{Worktree, WorktreeStatus, days_since};

verus! {

/// A linked worktree is stale once its last activity is more than this many
/// days old.
pub const STALE_AFTER_DAYS: u64 = 30;

/// An event emitted while a scan is in progress.
#[derive(Debug)]
pub enum ScanEvent {
    /// A directory currently being visited (only the latest one matters).
    Progress(String),
    /// A newly discovered, classified worktree; its size is not known yet.
    Found(Worktree),
    /// The computed on-disk size of the worktree at this path.
    Size(String, u64),
    /// The directory walk has finished; `Size` events may still follow.
    Done,
}

/// Directory names that never hold worktrees worth finding and are expensive
/// to descend into.
pub open spec fn pruned(name: Seq<char>) -> bool {
    ||| name == "node_modules"@
    ||| name == "target"@
    ||| name == ".cargo"@
    ||| name == ".cache"@
}

/// Whether a directory entry named `name` is skipped by the walk.
pub fn is_pruned(name: &str) -> (r: bool)
    ensures
        r == pruned(name@),
{
    str_eq(name, "node_modules") || str_eq(name, "target") || str_eq(name, ".cargo") || str_eq(
        name,
        ".cache",
    )
}

/// Whether activity at `last` is stale as of `now`: known, and more than
/// [`STALE_AFTER_DAYS`] whole days ago.
pub open spec fn stale(last: Option<i64>, now: i64) -> bool {
    match last {
        Some(t) => days_since(now as int, t as int) > 30,
        None => false,
    }
}

/// Whether the most recent activity `last_activity` is stale as of `now`.
pub fn is_stale(last_activity: Option<i64>, now: i64) -> (r: bool)
    ensures
        r == stale(last_activity, now),
{
    match last_activity {
        Some(t) => crate::worktree::days_between(now, t) > STALE_AFTER_DAYS,
        None => false,
    }
}

/// What could be read from a worktree's repository.
#[derive(Debug)]
pub enum RepoInfo {
    /// The repository could not be opened (for a linked worktree: its
    /// repository or admin directory is gone).
    Unreadable,
    /// The repository opened.
    Opened {
        /// Shorthand of the checked-out branch or ref.
        branch: Option<String>,
        /// Short id of the HEAD commit.
        head: Option<String>,
        /// Time of the HEAD commit.
        last_commit: Option<i64>,
        /// Whether HEAD is merged into the default branch; `None` when that
        /// could not be determined.
        merged: Option<bool>,
        /// Whether the worktree has uncommitted or untracked changes.
        dirty: bool,
    },
}

/// The status of a discovered worktree: the main working tree is `MainRepo`;
/// a linked one whose repository cannot be opened is `Orphaned`; otherwise
/// it is `Stale` when its last commit (else its modification time) is stale,
/// and `Active` if not.
pub open spec fn status_of(is_main: bool, info: RepoInfo, last_modified: Option<i64>, now: i64) -> WorktreeStatus {
    if is_main {
        WorktreeStatus::MainRepo
    } else {
        match info {
            RepoInfo::Unreadable => WorktreeStatus::Orphaned,
            RepoInfo::Opened { last_commit, .. } => if stale(
                match last_commit {
                    Some(t) => Some(t),
                    None => last_modified,
                },
                now,
            ) {
                WorktreeStatus::Stale
            } else {
                WorktreeStatus::Active
            },
        }
    }
}

/// Whether `w` is the record a scan builds from these facts.
pub open spec fn classified(
    w: Worktree,
    path: Seq<char>,
    repo_path: Option<String>,
    is_main: bool,
    size_bytes: Option<u64>,
    info: RepoInfo,
    last_modified: Option<i64>,
    now: i64,
) -> bool {
    &&& w.path@ == path
    &&& w.repo_path == repo_path
    &&& w.last_modified == last_modified
    &&& w.size_bytes == size_bytes
    &&& w.status == status_of(is_main, info, last_modified, now)
    &&& match info {
        RepoInfo::Unreadable => {
            &&& w.branch is None
            &&& w.head is None
            &&& w.last_commit is None
            &&& !w.merged
            &&& !w.dirty
        },
        RepoInfo::Opened { branch, head, last_commit, merged, dirty } => {
            &&& w.branch == branch
            &&& w.head == head
            &&& w.last_commit == last_commit
            &&& w.merged == (!is_main && merged == Some(true))
            &&& w.dirty == dirty
        },
    }
}

/// Build the record of a discovered worktree from what was found about it,
/// as of `now`.
pub fn classify(
    path: String,
    repo_path: Option<String>,
    is_main: bool,
    size_bytes: Option<u64>,
    info: RepoInfo,
    last_modified: Option<i64>,
    now: i64,
) -> (r: Worktree)
    ensures
        classified(r, path@, repo_path, is_main, size_bytes, info, last_modified, now),
{
    let ghost info0 = info;
    match info {
        RepoInfo::Unreadable => {
            let status = if is_main {
                WorktreeStatus::MainRepo
            } else {
                WorktreeStatus::Orphaned
            };
            Worktree {
                path,
                repo_path,
                branch: None,
                head: None,
                last_commit: None,
                last_modified,
                status,
                merged: false,
                dirty: false,
                size_bytes,
            }
        },
        RepoInfo::Opened { branch, head, last_commit, merged, dirty } => {
            let activity = match last_commit {
                Some(t) => Some(t),
                None => last_modified,
            };
            let status = if is_main {
                WorktreeStatus::MainRepo
            } else if is_stale(activity, now) {
                WorktreeStatus::Stale
            } else {
                WorktreeStatus::Active
            };
            let merged = !is_main && match merged {
                Some(m) => m,
                None => false,
            };
            Worktree {
                path,
                repo_path,
                branch,
                head,
                last_commit,
                last_modified,
                status,
                merged,
                dirty,
                size_bytes,
            }
        },
    }
}

/// The first seven characters of a commit id (all of it when shorter).
pub open spec fn short(id: Seq<char>) -> Seq<char> {
    if id.len() <= 7 {
        id
    } else {
        id.take(7)
    }
}

/// The short form of a commit id shown for a worktree's HEAD.
pub fn short_id(id: &str) -> (r: String)
    ensures
        r@ == short(id@),
{
    let n = id.unicode_len();
    if n <= 7 {
        String::from_str(id)
    } else {
        String::from_str(id.substring_char(0, 7))
    }
}

/// Number of characters before the first line break of `s` (all of them
/// when there is none).
pub open spec fn line_len(s: Seq<char>) -> nat
    decreases s.len(),
{
    if s.len() == 0 || s[0] == '\n' {
        0
    } else {
        1 + line_len(s.drop_first())
    }
}

/// The value of the first line of `s` that starts with `gitdir:`, trimmed.
pub open spec fn gitdir_value(s: Seq<char>) -> Option<Seq<char>>
    decreases s.len(),
{
    let n = line_len(s);
    let line = s.take(n as int);
    if has_prefix(line, "gitdir:"@) {
        Some(trimmed(line.skip(7)))
    } else if n >= s.len() {
        None
    } else {
        gitdir_value(s.skip(n + 1 as int))
    }
}

/// The `.git` directory of the repository owning a linked worktree, from the
/// contents of the worktree's `.git` file: its `gitdir:` line names
/// `<repo>/.git/worktrees/<name>`, two levels below it.
pub open spec fn owning_git_dir(contents: Seq<char>) -> Option<Seq<char>> {
    match gitdir_value(contents) {
        Some(g) => match path_parent(g) {
            Some(p) => path_parent(p),
            None => None,
        },
        None => None,
    }
}

proof fn lemma_line_len(s: Seq<char>)
    ensures
        line_len(s) <= s.len(),
        forall|i: int| 0 <= i < line_len(s) ==> #[trigger] s[i] != '\n',
        line_len(s) < s.len() ==> s[line_len(s) as int] == '\n',
    decreases s.len(),
{
    if s.len() > 0 && s[0] != '\n' {
        lemma_line_len(s.drop_first());
        assert forall|i: int| 0 <= i < line_len(s) implies #[trigger] s[i] != '\n' by {
            if i > 0 {
                assert(s[i] == s.drop_first()[i - 1]);
            }
        }
        if line_len(s) < s.len() {
            assert(s[line_len(s) as int] == s.drop_first()[line_len(s.drop_first()) as int]);
        }
    }
}

/// The value of the first `gitdir:` line of `contents`, trimmed.
fn find_gitdir(contents: &str) -> (r: Option<String>)
    ensures
        match r {
            Some(v) => gitdir_value(contents@) == Some(v@),
            None => gitdir_value(contents@) is None,
        },
{
    let n = contents.unicode_len();
    let mut start: usize = 0;
    assert(contents@.skip(0) =~= contents@);
    while start <= n
        invariant
            n == contents@.len(),
            start <= n + 1,
            start <= n ==> gitdir_value(contents@) == gitdir_value(contents@.skip(start as int)),
            start > n ==> gitdir_value(contents@) is None,
        decreases n + 1 - start,
    {
        let ghost rest = contents@.skip(start as int);
        proof {
            lemma_line_len(rest);
        }
        let mut end: usize = start;
        while end < n && contents.get_char(end) != '\n'
            invariant
                n == contents@.len(),
                start <= end <= n,
                rest == contents@.skip(start as int),
                end - start <= line_len(rest),
                forall|i: int| 0 <= i < line_len(rest) ==> #[trigger] rest[i] != '\n',
                line_len(rest) < rest.len() ==> rest[line_len(rest) as int] == '\n',
                line_len(rest) <= rest.len(),
            decreases n - end,
        {
            assert(rest[end - start] == contents@[end as int]);
            end = end + 1;
        }
        assert(end - start == line_len(rest)) by {
            if end < n {
                assert(rest[end - start] == contents@[end as int]);
            }
        }
        let line = contents.substring_char(start, end);
        assert(line@ =~= rest.take(line_len(rest) as int));
        proof {
            reveal_strlit("gitdir:");
        }
        if starts_with(line, "gitdir:") {
            let len = line.unicode_len();
            let value = trim(line.substring_char(7, len));
            assert(line@.skip(7) =~= line@.subrange(7, len as int));
            return Some(value);
        }
        if end >= n {
            return None;
        }
        assert(rest.skip(line_len(rest) + 1 as int) =~= contents@.skip(end + 1));
        start = end + 1;
    }
    None
}

/// The `.git` directory of the repository owning a linked worktree, from the
/// contents of its `.git` file (see [`owning_git_dir`]).
pub fn linked_repo_path(contents: &str) -> (r: Option<String>)
    ensures
        match r {
            Some(p) => owning_git_dir(contents@) == Some(p@),
            None => owning_git_dir(contents@) is None,
        },
{
    match find_gitdir(contents) {
        Some(g) => match parent_of(g.as_str()) {
            Some(p) => parent_of(p.as_str()),
            None => None,
        },
        None => None,
    }
}

/// What is found at a `.git` entry: the worktree directory (the entry's
/// parent), the owning repository's `.git` path, and whether this is a main
/// working tree.
pub open spec fn discovered(
    git_path: Seq<char>,
    is_dir: bool,
    contents: Option<Seq<char>>,
) -> Option<(Seq<char>, Option<Seq<char>>, bool)> {
    match path_parent(git_path) {
        None => None,
        Some(dir) => Some(
            (
                dir,
                if is_dir {
                    Some(git_path)
                } else {
                    match contents {
                        Some(c) => owning_git_dir(c),
                        None => None,
                    }
                },
                is_dir,
            ),
        ),
    }
}

/// Resolve a discovered `.git` entry: a `.git` directory marks a main
/// working tree, whose repository it is; a `.git` file marks a linked
/// worktree, whose repository its `gitdir:` line names (`contents` is the
/// file's text, `None` when it could not be read). `None` when the entry
/// has no parent directory. Paths are returned as found; making them
/// absolute is the caller's job.
pub fn discover_at(git_path: &str, is_dir: bool, contents: Option<&str>) -> (r: Option<
    (String, Option<String>, bool),
>)
    ensures
        match r {
            Some((dir, repo, main)) => discovered(
                git_path@,
                is_dir,
                match contents {
                    Some(c) => Some(c@),
                    None => None,
                },
            ) == Some(
                (
                    dir@,
                    match repo {
                        Some(p) => Some(p@),
                        None => None,
                    },
                    main,
                ),
            ),
            None => discovered(
                git_path@,
                is_dir,
                match contents {
                    Some(c) => Some(c@),
                    None => None,
                },
            ) is None,
        },
{
    let dir = match parent_of(git_path) {
        Some(d) => d,
        None => {
            return None;
        },
    };
    let repo = if is_dir {
        Some(String::from_str(git_path))
    } else {
        match contents {
            Some(c) => linked_repo_path(c),
            None => None,
        }
    };
    Some((dir, repo, is_dir))
}

/// A linked worktree whose repository opens is stale exactly when the time
/// it is judged by lies at least 31 whole days (more than 30 days) before
/// `now`; that time is its last commit when it has one, whatever its
/// modification time, and its modification time only when it has no
/// commit. With neither, it is active.
pub proof fn lemma_last_commit_decides_staleness(
    w: Worktree,
    path: Seq<char>,
    repo_path: Option<String>,
    size_bytes: Option<u64>,
    info: RepoInfo,
    last_modified: Option<i64>,
    now: i64,
)
    requires
        classified(w, path, repo_path, false, size_bytes, info, last_modified, now),
        info is Opened,
    ensures
        w.status == WorktreeStatus::Stale || w.status == WorktreeStatus::Active,
        info->last_commit matches Some(t) ==> (w.status == WorktreeStatus::Stale <==> now - t
            >= 31 * 86_400),
        info->last_commit is None ==> (last_modified matches Some(m) ==> (w.status
            == WorktreeStatus::Stale <==> now - m >= 31 * 86_400)),
        info->last_commit is None && last_modified is None ==> w.status == WorktreeStatus::Active,
{
}

/// What a scan records does not depend on the clock except through the
/// status, and the status of a main working tree or of a linked worktree
/// whose repository cannot be opened never depends on times at all.
pub proof fn lemma_status_without_times(
    w: Worktree,
    path: Seq<char>,
    repo_path: Option<String>,
    is_main: bool,
    size_bytes: Option<u64>,
    info: RepoInfo,
    last_modified: Option<i64>,
    now: i64,
)
    requires
        classified(w, path, repo_path, is_main, size_bytes, info, last_modified, now),
    ensures
        is_main ==> w.status == WorktreeStatus::MainRepo,
        !is_main && info is Unreadable ==> w.status == WorktreeStatus::Orphaned,
        !is_main && info is Opened ==> w.status != WorktreeStatus::Orphaned && w.status
            != WorktreeStatus::MainRepo,
        w.merged ==> !is_main,
{
}

} // verus!
