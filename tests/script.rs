use sourceshack::auth::Auth;
use sourceshack::output::ParseCgiOutputError;
use sourceshack::script::{decimal_string, meta_var_name, CgiScript, CgiScriptError, ExitStatus, StreamError};

const NAMES: [&str; 16] = [
    "SERVER_SOFTWARE",
    "SERVER_NAME",
    "SERVER_PORT",
    "GATEWAY_INTERFACE",
    "SERVER_PROTOCOL",
    "REQUEST_METHOD",
    "QUERY_STRING",
    "REMOTE_HOST",
    "REMOTE_ADDR",
    "PATH_INFO",
    "PATH_TRANSLATED",
    "AUTH_TYPE",
    "REMOTE_USER",
    "REMOTE_IDENT",
    "CONTENT_TYPE",
    "CONTENT_LENGTH",
];

fn minimal() -> CgiScript {
    CgiScript::new("git", &["http-backend"], &[])
        .request_method("GET")
        .path_info("/alice/repo/info/refs")
}

fn value<'a>(vars: &'a [(String, String)], name: &str) -> &'a str {
    vars.iter().find(|(k, _)| k == name).map(|(_, v)| v.as_str()).unwrap()
}

#[test]
fn every_meta_variable_is_present() {
    let vars = minimal().meta_variables().unwrap();
    let names: Vec<&str> = vars.iter().map(|(k, _)| k.as_str()).collect();
    assert_eq!(names, NAMES.to_vec());
    assert_eq!(value(&vars, "REQUEST_METHOD"), "GET");
    assert_eq!(value(&vars, "PATH_INFO"), "/alice/repo/info/refs");
    assert_eq!(value(&vars, "GATEWAY_INTERFACE"), "CGI/1.1");
    assert_eq!(value(&vars, "SERVER_PROTOCOL"), "HTTP/1.1");
    for name in [
        "SERVER_SOFTWARE",
        "SERVER_NAME",
        "SERVER_PORT",
        "QUERY_STRING",
        "REMOTE_HOST",
        "REMOTE_ADDR",
        "PATH_TRANSLATED",
        "AUTH_TYPE",
        "REMOTE_USER",
        "REMOTE_IDENT",
        "CONTENT_TYPE",
        "CONTENT_LENGTH",
    ] {
        assert_eq!(value(&vars, name), "", "{}", name);
    }
}

#[test]
fn meta_variables_take_request_values() {
    let vars = minimal()
        .server_software("sourceshack")
        .server_name("127.0.0.1")
        .server_port("8000")
        .query_string("service=git-upload-pack")
        .remote_host("client")
        .remote_addr("10.0.0.2")
        .path_translated("/srv/git_repos/alice/repo.git/info/refs")
        .auth_type(Auth::Basic)
        .remote_user("alice")
        .remote_ident("ident")
        .content_type("application/x-git-upload-pack-request")
        .content_length(5242880)
        .meta_variables()
        .unwrap();
    assert_eq!(value(&vars, "SERVER_SOFTWARE"), "sourceshack");
    assert_eq!(value(&vars, "SERVER_NAME"), "127.0.0.1");
    assert_eq!(value(&vars, "SERVER_PORT"), "8000");
    assert_eq!(value(&vars, "QUERY_STRING"), "service=git-upload-pack");
    assert_eq!(value(&vars, "REMOTE_HOST"), "client");
    assert_eq!(value(&vars, "REMOTE_ADDR"), "10.0.0.2");
    assert_eq!(value(&vars, "PATH_TRANSLATED"), "/srv/git_repos/alice/repo.git/info/refs");
    assert_eq!(value(&vars, "AUTH_TYPE"), "Basic");
    assert_eq!(value(&vars, "REMOTE_USER"), "alice");
    assert_eq!(value(&vars, "REMOTE_IDENT"), "ident");
    assert_eq!(value(&vars, "CONTENT_TYPE"), "application/x-git-upload-pack-request");
    assert_eq!(value(&vars, "CONTENT_LENGTH"), "5242880");
}

#[test]
fn mapping_twice_gives_the_same_variables() {
    let script = minimal().query_string("a=b").remote_addr("::1");
    assert_eq!(script.meta_variables().unwrap(), script.meta_variables().unwrap());
    let other = CgiScript::new("other", &[], &[("X", "y")])
        .request_method("GET")
        .path_info("/alice/repo/info/refs")
        .query_string("a=b")
        .remote_addr("::1");
    assert_eq!(script.meta_variables().unwrap(), other.meta_variables().unwrap());
}

#[test]
fn mandatory_fields_fail_closed() {
    let no_method = CgiScript::new("git", &[], &[]).path_info("/");
    assert_eq!(no_method.meta_variables().unwrap_err(), CgiScriptError::MissingRequestMethod);
    let no_path = CgiScript::new("git", &[], &[]).request_method("GET");
    assert_eq!(no_path.meta_variables().unwrap_err(), CgiScriptError::MissingPathInfo);
    let relative = CgiScript::new("git", &[], &[]).request_method("GET").path_info("alice");
    assert_eq!(relative.meta_variables().unwrap_err(), CgiScriptError::PathInfoNotRooted);
    let empty = CgiScript::new("git", &[], &[]).request_method("GET").path_info("");
    assert_eq!(empty.environment().unwrap_err(), CgiScriptError::PathInfoNotRooted);
}

#[test]
fn meta_variables_take_precedence_in_environment() {
    let script = CgiScript::new(
        "git",
        &["http-backend"],
        &[("GIT_PROJECT_ROOT", "/srv/git_repos"), ("QUERY_STRING", "stale"), ("LANG", "C")],
    )
    .request_method("POST")
    .path_info("/alice/repo/git-upload-pack")
    .query_string("fresh");
    let env = script.environment().unwrap();
    assert_eq!(env[0], ("GIT_PROJECT_ROOT".to_string(), "/srv/git_repos".to_string()));
    assert_eq!(env[1], ("LANG".to_string(), "C".to_string()));
    assert_eq!(env.len(), 2 + NAMES.len());
    assert_eq!(env.iter().filter(|(k, _)| k == "QUERY_STRING").count(), 1);
    assert_eq!(value(&env, "QUERY_STRING"), "fresh");
    assert_eq!(script.command(), "git");
    assert_eq!(script.args(), &vec!["http-backend".to_string()]);
}

#[test]
fn decimal_content_length() {
    assert_eq!(decimal_string(0), "0");
    assert_eq!(decimal_string(7), "7");
    assert_eq!(decimal_string(10), "10");
    assert_eq!(decimal_string(u64::MAX), "18446744073709551615");
}

#[test]
fn meta_variable_names_are_recognised() {
    assert!(meta_var_name("PATH_INFO"));
    assert!(meta_var_name("CONTENT_LENGTH"));
    assert!(!meta_var_name("path_info"));
    assert!(!meta_var_name("GIT_PROJECT_ROOT"));
}

#[test]
fn stream_failure_is_a_gateway_failure() {
    let r = minimal().conclude(Err(StreamError::DestinationWrite), ExitStatus::Code(0), b"A: 1\r\n\r\n");
    assert_eq!(r.unwrap_err(), CgiScriptError::Stream(StreamError::DestinationWrite));
}

#[test]
fn aborted_process_without_output_fails() {
    let r = minimal().conclude(Ok(0), ExitStatus::Abnormal, b"");
    assert_eq!(r.unwrap_err(), CgiScriptError::ProcessAborted);
    let r = minimal().conclude(Ok(0), ExitStatus::Code(1), b"");
    assert_eq!(
        r.unwrap_err(),
        CgiScriptError::ParseOutput(ParseCgiOutputError::NoHeaderTerminator)
    );
}

#[test]
fn nonzero_exit_passes_parsed_status_through() {
    let r = minimal()
        .conclude(Ok(3), ExitStatus::Code(128), b"Status: 403 Forbidden\r\n\r\ndenied")
        .unwrap();
    assert_eq!(r.status_code(), 403);
    assert_eq!(r.body().as_slice(), b"denied");
    let r = minimal().conclude(Ok(3), ExitStatus::Abnormal, b"A: 1\r\n\r\nx").unwrap();
    assert_eq!(r.status_code(), 200);
}

#[test]
fn conclude_uses_configured_body_prefix() {
    let r = minimal()
        .strip_body_prefix(b"\n")
        .conclude(Ok(0), ExitStatus::Code(0), b"Content-Type: x\r\n\r\n\n0008NAK\n")
        .unwrap();
    assert_eq!(r.body().as_slice(), b"0008NAK\n");
}
