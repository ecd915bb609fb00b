//! What the gateway needs to front git's smart-HTTP helper program, and the
//! file modes of git tree entries.

use vstd::prelude::*;
use vstd::string::{StrSliceExecFns, StringExecFns};

use crate::mount::{CgiScript as Mount, Method, DEFAULT_RANK};
use crate::script::CgiScript;
use crate::text::{replace_char, replace_chars};

verus! {

/// The mode of an entry in a git tree.
#[derive(Clone, Copy, Debug, PartialEq, Eq, Structural)]
pub enum FileMode {
    Directory,
    File,
    GroupWriteableFile,
    Executable,
    Symlink,
    Gitlink,
}

impl FileMode {
    /// The mode as git writes it in a tree.
    pub open spec fn bits(self) -> i32 {
        match self {
            FileMode::Directory => 0o040000,
            FileMode::File => 0o100644,
            FileMode::GroupWriteableFile => 0o100664,
            FileMode::Executable => 0o100755,
            FileMode::Symlink => 0o120000,
            FileMode::Gitlink => 0o160000,
        }
    }

    fn mode_bits(self) -> (r: i32)
        ensures
            r == self.bits(),
    {
        match self {
            FileMode::Directory => 0o040000,
            FileMode::File => 0o100644,
            FileMode::GroupWriteableFile => 0o100664,
            FileMode::Executable => 0o100755,
            FileMode::Symlink => 0o120000,
            FileMode::Gitlink => 0o160000,
        }
    }

    pub fn is(self, other: i32) -> (r: bool)
        ensures
            r == (self.bits() == other),
    {
        self.mode_bits() == other
    }

    pub fn from_i32(from: i32) -> (r: Option<FileMode>)
        ensures
            r matches Some(m) ==> m.bits() == from,
            r is None ==> forall|m: FileMode| #[trigger] m.bits() != from,
    {
        if FileMode::Directory.is(from) {
            Some(FileMode::Directory)
        } else if FileMode::File.is(from) {
            Some(FileMode::File)
        } else if FileMode::GroupWriteableFile.is(from) {
            Some(FileMode::GroupWriteableFile)
        } else if FileMode::Executable.is(from) {
            Some(FileMode::Executable)
        } else if FileMode::Symlink.is(from) {
            Some(FileMode::Symlink)
        } else if FileMode::Gitlink.is(from) {
            Some(FileMode::Gitlink)
        } else {
            None
        }
    }
}

/// What kind of thing a tree entry is, as a listing shows it.
#[derive(Clone, Copy, Debug, PartialEq, Eq, Structural)]
pub enum TreeEntryKind {
    File,
    Directory,
    Symlink,
    Gitlink,
}

pub open spec fn kind_of(m: FileMode) -> TreeEntryKind {
    match m {
        FileMode::File | FileMode::GroupWriteableFile | FileMode::Executable => TreeEntryKind::File,
        FileMode::Directory => TreeEntryKind::Directory,
        FileMode::Symlink => TreeEntryKind::Symlink,
        FileMode::Gitlink => TreeEntryKind::Gitlink,
    }
}

impl TreeEntryKind {
    pub fn of(m: FileMode) -> (r: TreeEntryKind)
        ensures
            r == kind_of(m),
    {
        match m {
            FileMode::File | FileMode::GroupWriteableFile | FileMode::Executable => {
                TreeEntryKind::File
            },
            FileMode::Directory => TreeEntryKind::Directory,
            FileMode::Symlink => TreeEntryKind::Symlink,
            FileMode::Gitlink => TreeEntryKind::Gitlink,
        }
    }
}

pub open spec fn ends_with(s: Seq<char>, suffix: Seq<char>) -> bool {
    suffix.len() <= s.len() && s.subrange(s.len() - suffix.len(), s.len() as int) == suffix
}

/// The repository segment of a path, with `.git` added where it lacks it.
pub open spec fn repository_segment(s: Seq<char>) -> Seq<char> {
    if ends_with(s, ".git"@) {
        s
    } else {
        s + ".git"@
    }
}

/// The segment at `i` as it stands in the repository path: the second one
/// names the repository.
pub open spec fn segment_at(segs: Seq<Seq<char>>, i: int) -> Seq<char> {
    if i == 1 {
        repository_segment(segs[1])
    } else {
        segs[i]
    }
}

/// The first `n` segments joined by `/`.
pub open spec fn joined_segments(segs: Seq<Seq<char>>, n: int) -> Seq<char>
    decreases n,
{
    if n <= 0 {
        Seq::empty()
    } else if n == 1 {
        segment_at(segs, 0)
    } else {
        joined_segments(segs, n - 1) + "/"@ + segment_at(segs, n - 1)
    }
}

/// The repository directory and the joined request segments, with one `/`
/// between them where the directory is not empty and does not already end
/// with one.
pub open spec fn joined_path(repo_dir: Seq<char>, segs: Seq<Seq<char>>) -> Seq<char> {
    if repo_dir.len() == 0 || ends_with(repo_dir, "/"@) {
        repo_dir + joined_segments(segs, segs.len() as int)
    } else {
        repo_dir + "/"@ + joined_segments(segs, segs.len() as int)
    }
}

/// The translated path handed to the helper program: the joined path with
/// every `\` written as `/`.
pub open spec fn translated_path(repo_dir: Seq<char>, segs: Seq<Seq<char>>) -> Seq<char> {
    replace_char(joined_path(repo_dir, segs), '\\', '/')
}

/// Whether `s` ends with `suffix`.
fn str_ends_with(s: &str, suffix: &str) -> (r: bool)
    ensures
        r == ends_with(s@, suffix@),
{
    let n = s.unicode_len();
    let m = suffix.unicode_len();
    if m > n {
        return false;
    }
    let tail = s.substring_char(n - m, n);
    crate::text::str_eq(tail, suffix)
}

/// Fronts git's `http-backend` for the repositories under one directory.
#[derive(Clone, Debug)]
pub struct GitHttpBackend {
    repo_dir: String,
}

impl View for GitHttpBackend {
    type V = Seq<char>;

    closed spec fn view(&self) -> Seq<char> {
        self.repo_dir@
    }
}

impl GitHttpBackend {
    pub fn new(repo_dir: &str) -> (r: GitHttpBackend)
        ensures
            r@ == repo_dir@,
    {
        GitHttpBackend { repo_dir: repo_dir.to_owned() }
    }

    /// The file system path of a request whose path has the segments
    /// `segments` (`user`, `repo`, then what the helper serves): the
    /// repository segment gets `.git` where it lacks it, and every `\` of
    /// the result is written as `/`.
    pub fn path_translated(&self, segments: &[&str]) -> (r: String)
        ensures
            r@ == translated_path(self@, segments@.map_values(|s: &str| s@)),
    {
        let ghost segs = segments@.map_values(|s: &str| s@);
        let mut joined = String::new();
        let mut i: usize = 0;
        while i < segments.len()
            invariant
                segs == segments@.map_values(|s: &str| s@),
                i <= segs.len(),
                joined@ == joined_segments(segs, i as int),
            decreases segs.len() - i,
        {
            if i > 0 {
                joined.append("/");
            }
            joined.append(segments[i]);
            if i == 1 && !str_ends_with(joined.as_str(), ".git") {
                joined.append(".git");
            }
            proof {
                reveal_strlit(".git");
                reveal_strlit("/");
                let prev = joined_segments(segs, i as int);
                if i == 1 {
                    let with_seg = prev + "/"@ + segs[1];
                    assert(ends_with(with_seg, ".git"@) == ends_with(segs[1], ".git"@)) by {
                        if segs[1].len() >= 4 {
                            assert(with_seg.subrange(with_seg.len() - 4, with_seg.len() as int)
                                =~= segs[1].subrange(segs[1].len() - 4, segs[1].len() as int));
                        } else if ends_with(with_seg, ".git"@) {
                            let k = with_seg.len() - segs[1].len() - 1;
                            assert(with_seg[k] == '/');
                            assert(with_seg.subrange(with_seg.len() - 4, with_seg.len() as int)[3
                                - segs[1].len()] == with_seg[k]);
                        }
                    }
                }
                assert(joined@ =~= joined_segments(segs, i + 1));
            }
            i = i + 1;
        }
        let mut path = self.repo_dir.clone();
        if path.as_str().unicode_len() > 0 && !str_ends_with(path.as_str(), "/") {
            path.append("/");
        }
        path.append(joined.as_str());
        proof {
            reveal_strlit("/");
        }
        replace_chars(path.as_str(), '\\', "/")
    }

    /// The invocation of `git http-backend` for a request with the path
    /// segments `segments`; the caller adds the request's meta-variables.
    pub fn script(&self, segments: &[&str]) -> (r: CgiScript)
        ensures
            r@.command == "git"@,
            r@.args == seq!["http-backend"@],
            r@.env_vars.len() == 0,
            r@.path_translated == Some(translated_path(self@, segments@.map_values(|s: &str| s@))),
            r@.server_software is None,
            r@.server_name is None,
            r@.server_port is None,
            r@.request_method is None,
            r@.query_string is None,
            r@.remote_host is None,
            r@.remote_addr is None,
            r@.path_info is None,
            r@.auth_type is None,
            r@.remote_user is None,
            r@.remote_ident is None,
            r@.content_type is None,
            r@.content_length is None,
            r@.body_prefix.len() == 0,
    {
        let path = self.path_translated(segments);
        let args: [&str; 1] = ["http-backend"];
        let env: [(&str, &str); 0] = [];
        let script = CgiScript::new("git", args.as_slice(), env.as_slice());
        assert(args@.map_values(|s: &str| s@) =~= seq!["http-backend"@]);
        script.path_translated(path.as_str())
    }
}

impl GitHttpBackend {
    /// The routes of git's smart-HTTP protocol, mounted on `git
    /// http-backend` with the repository directory as `GIT_PROJECT_ROOT`.
    pub fn mount(&self) -> (r: Mount)
        ensures
            r@.template.command == "git"@,
            r@.template.args == seq!["http-backend"@],
            r@.template.env_vars == seq![("GIT_PROJECT_ROOT"@, self@)],
            r@.template.path_translated == Some(self@),
            r@.template.server_software is None,
            r@.template.server_name is None,
            r@.template.server_port is None,
            r@.template.request_method is None,
            r@.template.query_string is None,
            r@.template.remote_host is None,
            r@.template.remote_addr is None,
            r@.template.path_info is None,
            r@.template.auth_type is None,
            r@.template.remote_user is None,
            r@.template.remote_ident is None,
            r@.template.content_type is None,
            r@.template.content_length is None,
            r@.template.body_prefix.len() == 0,
            r@.rank == DEFAULT_RANK,
            r@.methods == seq![Method::Get, Method::Post, Method::Post],
            r@.paths == seq![
                "/<user>/<repo>/info/refs"@,
                "/<user>/<repo>/git-upload-pack"@,
                "/<user>/<repo>/git-receive-pack"@,
            ],
    {
        let root = self.repo_dir.as_str();
        let args: [&str; 1] = ["http-backend"];
        let env: [(&str, &str); 1] = [("GIT_PROJECT_ROOT", root)];
        let paths: [&str; 3] = [
            "/<user>/<repo>/info/refs",
            "/<user>/<repo>/git-upload-pack",
            "/<user>/<repo>/git-receive-pack",
        ];
        let r = Mount::new(
            "git",
            args.as_slice(),
            env.as_slice(),
            paths.as_slice(),
            vec![Method::Get, Method::Post, Method::Post],
            root,
        );
        assert(args@.map_values(|s: &str| s@) =~= seq!["http-backend"@]);
        assert(env@.map_values(|p: (&str, &str)| (p.0@, p.1@)) =~= seq![("GIT_PROJECT_ROOT"@, self@)]);
        assert(paths@.map_values(|s: &str| s@) =~= seq![
            "/<user>/<repo>/info/refs"@,
            "/<user>/<repo>/git-upload-pack"@,
            "/<user>/<repo>/git-receive-pack"@,
        ]);
        r
    }
}

/// The directory that holds the git repositories under the data directory
/// `data_dir`.
pub fn git_project_root(data_dir: &str) -> (r: String)
    ensures
        r@ == if ends_with(data_dir@, "/"@) {
            data_dir@ + "git_repos"@
        } else {
            data_dir@ + "/"@ + "git_repos"@
        },
{
    let mut base = data_dir.to_owned();
    if !str_ends_with(data_dir, "/") {
        base.append("/");
    }
    base.append("git_repos");
    base
}

} // verus!
