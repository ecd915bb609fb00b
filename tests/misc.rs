use std::io::Write;

use flate2::write::GzEncoder;
use flate2::Compression;
use sourceshack::auth::Auth;
use sourceshack::body::decode_request_body;
use sourceshack::git::{git_project_root, FileMode, GitHttpBackend, TreeEntryKind};
use sourceshack::guards::{AaudStr, UserNameGuard};
use sourceshack::mount::{CgiScript as MountedScript, Method, DEFAULT_RANK};
use sourceshack::script::StreamError;
use sourceshack::util::{convert_separators, ensure_correct_path_separator};

fn gzip(data: &[u8]) -> Vec<u8> {
    let mut e = GzEncoder::new(Vec::new(), Compression::default());
    e.write_all(data).unwrap();
    e.finish().unwrap()
}

#[test]
fn gzip_body_is_decompressed() {
    let data = b"0032want 0123456789abcdef\n".repeat(100);
    let packed = gzip(&data);
    assert_ne!(packed, data);
    assert_eq!(decode_request_body(&packed, true).unwrap(), data);
}

#[test]
fn plain_body_is_passed_unchanged() {
    let packed = gzip(b"abc");
    assert_eq!(decode_request_body(&packed, false).unwrap(), packed);
    assert_eq!(decode_request_body(b"", false).unwrap(), Vec::<u8>::new());
}

#[test]
fn malformed_gzip_body_fails_as_source_read() {
    assert_eq!(decode_request_body(b"not gzip", true).unwrap_err(), StreamError::SourceRead);
}

#[test]
fn auth_names() {
    assert_eq!(Auth::Basic.as_str(), "Basic");
    assert_eq!(Auth::Digest.as_str(), "Digest");
    assert_eq!("Digest".parse::<Auth>().unwrap(), Auth::Digest);
    assert!("basic".parse::<Auth>().is_err());
}

#[test]
fn aaud_strings() {
    assert_eq!(AaudStr::new("abc_-XYZ09").unwrap().as_str(), "abc_-XYZ09");
    assert!(AaudStr::new("a b").is_none());
    assert!(AaudStr::new("caf\u{e9}").is_none());
    assert!(AaudStr::is_valid(""));
    assert!(!AaudStr::is_valid("a/b"));
    assert!(AaudStr::from_param("").is_err());
    assert_eq!(AaudStr::from_param("repo").unwrap().as_str(), "repo");
    assert_eq!(AaudStr::from_param("re.po").unwrap_err(), "re.po");
    assert!(AaudStr::from_form_value("").is_ok());
}

#[test]
fn user_name_guards() {
    assert_eq!(UserNameGuard::from_param("~alice").unwrap().as_str(), "alice");
    assert_eq!(UserNameGuard::from_param("alice").unwrap_err(), "alice");
    assert!(UserNameGuard::from_param("~").is_err());
    assert!(UserNameGuard::from_param("~al ice").is_err());
    assert!(UserNameGuard::from_param("").is_err());
}

#[test]
fn file_modes() {
    assert_eq!(FileMode::from_i32(0o100644), Some(FileMode::File));
    assert_eq!(FileMode::from_i32(0o040000), Some(FileMode::Directory));
    assert_eq!(FileMode::from_i32(0o160000), Some(FileMode::Gitlink));
    assert_eq!(FileMode::from_i32(33188), Some(FileMode::File));
    assert_eq!(FileMode::from_i32(1), None);
    assert!(FileMode::Executable.is(0o100755));
    assert!(!FileMode::Executable.is(0o100644));
    assert_eq!(TreeEntryKind::of(FileMode::GroupWriteableFile), TreeEntryKind::File);
    assert_eq!(TreeEntryKind::of(FileMode::Symlink), TreeEntryKind::Symlink);
}

#[test]
fn repository_paths_get_git_suffix() {
    let backend = GitHttpBackend::new("/srv/git_repos");
    assert_eq!(
        backend.path_translated(&["alice", "repo", "info", "refs"]),
        "/srv/git_repos/alice/repo.git/info/refs"
    );
    assert_eq!(
        backend.path_translated(&["alice", "repo.git", "git-upload-pack"]),
        "/srv/git_repos/alice/repo.git/git-upload-pack"
    );
    let slash = GitHttpBackend::new("/srv/");
    assert_eq!(slash.path_translated(&["bob", "x"]), "/srv/bob/x.git");
    let script = backend.script(&["alice", "repo", "info", "refs"]);
    assert_eq!(script.command(), "git");
    assert_eq!(script.args(), &vec!["http-backend".to_string()]);
}

#[test]
fn project_root() {
    assert_eq!(git_project_root("/data"), "/data/git_repos");
    assert_eq!(git_project_root("/data/"), "/data/git_repos");
}

#[test]
fn path_separators() {
    assert_eq!(convert_separators("a/b/c", '\\'), "a\\b\\c");
    assert_eq!(convert_separators("a/b/c", '/'), "a/b/c");
    let converted = ensure_correct_path_separator("x/y".to_string());
    assert!(converted == "x/y" || converted == "x\\y");
}

#[test]
fn mounted_routes_pair_paths_with_methods() {
    let mount = MountedScript::new(
        "git",
        &["http-backend"],
        &[("GIT_PROJECT_ROOT", "/srv/git_repos")],
        &["/<user>/<repo>/info/refs", "/<user>/<repo>/git-upload-pack", "/<user>/<repo>/git-receive-pack"],
        vec![Method::Get, Method::Post],
        "/srv/git_repos",
    );
    let routes = mount.routes();
    assert_eq!(routes.len(), 2);
    assert_eq!(routes[0].method, Method::Get);
    assert_eq!(routes[0].path, "/<user>/<repo>/info/refs");
    assert_eq!(routes[1].method, Method::Post);
    assert_eq!(routes[1].rank, DEFAULT_RANK);
    let ranked = mount.rank(-3).routes();
    assert!(ranked.iter().all(|r| r.rank == -3));
    assert_eq!(Method::Post.as_str(), "POST");
}

#[test]
fn mount_template_carries_invocation() {
    let mount = MountedScript::new("git", &["http-backend"], &[], &["/x"], vec![Method::Get], "/srv");
    let vars = mount
        .template()
        .environment()
        .unwrap_err();
    assert_eq!(vars, sourceshack::script::CgiScriptError::MissingRequestMethod);
    assert_eq!(mount.template().command(), "git");
}

#[test]
fn git_backend_mount() {
    let mount = GitHttpBackend::new("/srv/git_repos").mount();
    let routes = mount.routes();
    assert_eq!(routes.len(), 3);
    assert_eq!(routes[0].method, Method::Get);
    assert_eq!(routes[0].path, "/<user>/<repo>/info/refs");
    assert_eq!(routes[2].method, Method::Post);
    assert_eq!(routes[2].path, "/<user>/<repo>/git-receive-pack");
    let env = mount
        .template()
        .clone()
        .request_method("GET")
        .path_info("/alice/repo/info/refs")
        .environment()
        .unwrap();
    assert_eq!(env[0], ("GIT_PROJECT_ROOT".to_string(), "/srv/git_repos".to_string()));
    assert_eq!(mount.template().args(), &vec!["http-backend".to_string()]);
}

#[test]
fn translated_path_writes_backslashes_as_slashes() {
    let backend = GitHttpBackend::new("C:\\repos");
    assert_eq!(
        backend.path_translated(&["alice", "proj.git", "info", "refs"]),
        "C:/repos/alice/proj.git/info/refs"
    );
    let windows = GitHttpBackend::new("C:\\data\\git_repos\\");
    assert_eq!(windows.path_translated(&["bob", "x"]), "C:/data/git_repos//bob/x.git");
}

#[test]
fn translated_path_under_empty_directory() {
    let backend = GitHttpBackend::new("");
    assert_eq!(backend.path_translated(&["alice", "proj"]), "alice/proj.git");
}

#[test]
fn git_backend_mount_has_default_rank() {
    let routes = GitHttpBackend::new("/srv/git_repos").mount().routes();
    assert!(routes.iter().all(|r| r.rank == DEFAULT_RANK));
    assert_eq!(DEFAULT_RANK, 10);
}
