//! The description of one invocation of an external program, and the
//! meta-variables that tell the program about the request.

use vstd::prelude::*;
use vstd::string::{StrSliceExecFns, StringExecFns};

use crate::auth::Auth;
use crate::output::strings_view;
use crate::text::str_eq;

verus! {

/// How starting the external program failed.
#[derive(Clone, Copy, Debug, PartialEq, Eq, Structural)]
pub enum LaunchError {
    NotFound,
    PermissionDenied,
    ResourceExhausted,
    Other,
}

/// How moving the request body into the program failed.
#[derive(Clone, Copy, Debug, PartialEq, Eq, Structural)]
pub enum StreamError {
    /// The request body could not be read (or decompressed).
    SourceRead,
    /// The program's input could not be written, as when it exited early.
    DestinationWrite,
}

/// Why an invocation produced no response.
#[derive(Clone, Copy, Debug, PartialEq, Eq, Structural)]
pub enum CgiScriptError {
    /// The request names no method.
    MissingRequestMethod,
    /// The request names no path.
    MissingPathInfo,
    /// The request path does not start with `/`.
    PathInfoNotRooted,
    Launch(LaunchError),
    Stream(StreamError),
    /// The program was ended abnormally before it wrote anything.
    ProcessAborted,
    ParseOutput(crate::output::ParseCgiOutputError),
}

/// An external program and what it is told about one request.
#[derive(Clone, Debug)]
pub struct CgiScript {
    command: String,
    args: Vec<String>,
    env_vars: Vec<(String, String)>,
    server_software: Option<String>,
    server_name: Option<String>,
    server_port: Option<String>,
    request_method: Option<String>,
    query_string: Option<String>,
    remote_host: Option<String>,
    remote_addr: Option<String>,
    path_info: Option<String>,
    path_translated: Option<String>,
    auth_type: Option<Auth>,
    remote_user: Option<String>,
    remote_ident: Option<String>,
    content_type: Option<String>,
    content_length: Option<u64>,
    body_prefix: Vec<u8>,
}

/// What a [`CgiScript`] holds.
pub struct ScriptView {
    pub command: Seq<char>,
    pub args: Seq<Seq<char>>,
    pub env_vars: Seq<(Seq<char>, Seq<char>)>,
    pub server_software: Option<Seq<char>>,
    pub server_name: Option<Seq<char>>,
    pub server_port: Option<Seq<char>>,
    pub request_method: Option<Seq<char>>,
    pub query_string: Option<Seq<char>>,
    pub remote_host: Option<Seq<char>>,
    pub remote_addr: Option<Seq<char>>,
    pub path_info: Option<Seq<char>>,
    pub path_translated: Option<Seq<char>>,
    pub auth_type: Option<Auth>,
    pub remote_user: Option<Seq<char>>,
    pub remote_ident: Option<Seq<char>>,
    pub content_type: Option<Seq<char>>,
    pub content_length: Option<u64>,
    pub body_prefix: Seq<u8>,
}

pub open spec fn opt_view(o: Option<String>) -> Option<Seq<char>> {
    match o {
        Some(s) => Some(s@),
        None => None,
    }
}

pub open spec fn or_empty(o: Option<Seq<char>>) -> Seq<char> {
    match o {
        Some(s) => s,
        None => Seq::empty(),
    }
}

pub open spec fn digit_char(d: nat) -> char {
    if d == 0 {
        '0'
    } else if d == 1 {
        '1'
    } else if d == 2 {
        '2'
    } else if d == 3 {
        '3'
    } else if d == 4 {
        '4'
    } else if d == 5 {
        '5'
    } else if d == 6 {
        '6'
    } else if d == 7 {
        '7'
    } else if d == 8 {
        '8'
    } else {
        '9'
    }
}

/// `n` in decimal, without leading zeros.
pub open spec fn decimal(n: nat) -> Seq<char>
    decreases n,
{
    if n < 10 {
        seq![digit_char(n)]
    } else {
        decimal(n / 10).push(digit_char(n % 10))
    }
}

/// The names of the meta-variables set on every invocation.
pub open spec fn meta_var_names() -> Seq<Seq<char>> {
    seq![
        "SERVER_SOFTWARE"@,
        "SERVER_NAME"@,
        "SERVER_PORT"@,
        "GATEWAY_INTERFACE"@,
        "SERVER_PROTOCOL"@,
        "REQUEST_METHOD"@,
        "QUERY_STRING"@,
        "REMOTE_HOST"@,
        "REMOTE_ADDR"@,
        "PATH_INFO"@,
        "PATH_TRANSLATED"@,
        "AUTH_TYPE"@,
        "REMOTE_USER"@,
        "REMOTE_IDENT"@,
        "CONTENT_TYPE"@,
        "CONTENT_LENGTH"@,
    ]
}

/// The meta-variables of an invocation, in the order of
/// [`meta_var_names`]: each takes its value from the request where the
/// request has one, and is the empty string where it has none.
pub open spec fn meta_vars_of(v: ScriptView) -> Seq<(Seq<char>, Seq<char>)> {
    seq![
        ("SERVER_SOFTWARE"@, or_empty(v.server_software)),
        ("SERVER_NAME"@, or_empty(v.server_name)),
        ("SERVER_PORT"@, or_empty(v.server_port)),
        ("GATEWAY_INTERFACE"@, "CGI/1.1"@),
        ("SERVER_PROTOCOL"@, "HTTP/1.1"@),
        ("REQUEST_METHOD"@, or_empty(v.request_method)),
        ("QUERY_STRING"@, or_empty(v.query_string)),
        ("REMOTE_HOST"@, or_empty(v.remote_host)),
        ("REMOTE_ADDR"@, or_empty(v.remote_addr)),
        ("PATH_INFO"@, or_empty(v.path_info)),
        ("PATH_TRANSLATED"@, or_empty(v.path_translated)),
        (
            "AUTH_TYPE"@,
            match v.auth_type {
                Some(a) => a.name(),
                None => Seq::empty(),
            },
        ),
        ("REMOTE_USER"@, or_empty(v.remote_user)),
        ("REMOTE_IDENT"@, or_empty(v.remote_ident)),
        ("CONTENT_TYPE"@, or_empty(v.content_type)),
        (
            "CONTENT_LENGTH"@,
            match v.content_length {
                Some(n) => decimal(n as nat),
                None => Seq::empty(),
            },
        ),
    ]
}

/// Why the meta-variables of an invocation cannot be set, if they cannot:
/// the method and the path are mandatory, and the path starts with `/`.
pub open spec fn meta_var_error(v: ScriptView) -> Option<CgiScriptError> {
    if v.request_method is None {
        Some(CgiScriptError::MissingRequestMethod)
    } else if v.path_info is None {
        Some(CgiScriptError::MissingPathInfo)
    } else if v.path_info->0.len() == 0 || v.path_info->0[0] != '/' {
        Some(CgiScriptError::PathInfoNotRooted)
    } else {
        None
    }
}

pub open spec fn is_meta_var_name(k: Seq<char>) -> bool {
    meta_var_names().contains(k)
}

/// The environment of the program: the configured variables that do not
/// share a name with a meta-variable, then the meta-variables.
pub open spec fn environment_of(v: ScriptView) -> Seq<(Seq<char>, Seq<char>)> {
    v.env_vars.filter(|p: (Seq<char>, Seq<char>)| !is_meta_var_name(p.0)) + meta_vars_of(v)
}

impl View for CgiScript {
    type V = ScriptView;

    closed spec fn view(&self) -> ScriptView {
        ScriptView {
            command: self.command@,
            args: self.args@.map_values(|s: String| s@),
            env_vars: strings_view(self.env_vars@),
            server_software: opt_view(self.server_software),
            server_name: opt_view(self.server_name),
            server_port: opt_view(self.server_port),
            request_method: opt_view(self.request_method),
            query_string: opt_view(self.query_string),
            remote_host: opt_view(self.remote_host),
            remote_addr: opt_view(self.remote_addr),
            path_info: opt_view(self.path_info),
            path_translated: opt_view(self.path_translated),
            auth_type: self.auth_type,
            remote_user: opt_view(self.remote_user),
            remote_ident: opt_view(self.remote_ident),
            content_type: opt_view(self.content_type),
            content_length: self.content_length,
            body_prefix: self.body_prefix@,
        }
    }
}

fn string_or_empty(o: &Option<String>) -> (r: String)
    ensures
        r@ == or_empty(opt_view(*o)),
{
    match o {
        Some(s) => s.clone(),
        None => String::new(),
    }
}

fn digit_str(d: u64) -> (r: &'static str)
    requires
        d < 10,
    ensures
        r@ == seq![digit_char(d as nat)],
{
    proof {
        reveal_strlit("0");
        reveal_strlit("1");
        reveal_strlit("2");
        reveal_strlit("3");
        reveal_strlit("4");
        reveal_strlit("5");
        reveal_strlit("6");
        reveal_strlit("7");
        reveal_strlit("8");
        reveal_strlit("9");
    }
    match d {
        0 => "0",
        1 => "1",
        2 => "2",
        3 => "3",
        4 => "4",
        5 => "5",
        6 => "6",
        7 => "7",
        8 => "8",
        _ => "9",
    }
}

/// Appends `n` in decimal to `s`.
fn push_decimal(s: &mut String, n: u64)
    ensures
        final(s)@ == old(s)@ + decimal(n as nat),
    decreases n,
{
    if n >= 10 {
        push_decimal(s, n / 10);
    }
    s.append(digit_str(n % 10));
    proof {
        if n >= 10 {
            assert(decimal(n as nat) == decimal((n / 10) as nat).push(digit_char((n % 10) as nat)));
        }
    }
}

/// `n` in decimal.
pub fn decimal_string(n: u64) -> (r: String)
    ensures
        r@ == decimal(n as nat),
{
    let mut s = String::new();
    push_decimal(&mut s, n);
    proof {
        assert(Seq::<char>::empty() + decimal(n as nat) =~= decimal(n as nat));
    }
    s
}

fn meta_var_name_list() -> (r: Vec<&'static str>)
    ensures
        r@.map_values(|s: &str| s@) == meta_var_names(),
{
    let r = vec![
        "SERVER_SOFTWARE",
        "SERVER_NAME",
        "SERVER_PORT",
        "GATEWAY_INTERFACE",
        "SERVER_PROTOCOL",
        "REQUEST_METHOD",
        "QUERY_STRING",
        "REMOTE_HOST",
        "REMOTE_ADDR",
        "PATH_INFO",
        "PATH_TRANSLATED",
        "AUTH_TYPE",
        "REMOTE_USER",
        "REMOTE_IDENT",
        "CONTENT_TYPE",
        "CONTENT_LENGTH",
    ];
    assert(r@.map_values(|s: &str| s@) =~= meta_var_names());
    r
}

/// Whether `k` is the name of a meta-variable.
pub fn meta_var_name(k: &str) -> (r: bool)
    ensures
        r == is_meta_var_name(k@),
{
    let names = meta_var_name_list();
    let ghost ns = names@.map_values(|s: &str| s@);
    let mut i: usize = 0;
    while i < names.len()
        invariant
            ns == names@.map_values(|s: &str| s@),
            ns == meta_var_names(),
            i <= names@.len(),
            forall|j: int| 0 <= j < i ==> ns[j] != k@,
        decreases names@.len() - i,
    {
        if str_eq(names[i], k) {
            assert(ns[i as int] == k@);
            return true;
        }
        i = i + 1;
    }
    false
}

impl CgiScript {
    /// An invocation of `command` with `args`, whose environment holds
    /// `env_vars` beside the meta-variables. No request field is set yet.
    pub fn new(command: &str, args: &[&str], env_vars: &[(&str, &str)]) -> (r: CgiScript)
        ensures
            r@.command == command@,
            r@.args == args@.map_values(|s: &str| s@),
            r@.env_vars == env_vars@.map_values(|p: (&str, &str)| (p.0@, p.1@)),
            r@.server_software is None,
            r@.server_name is None,
            r@.server_port is None,
            r@.request_method is None,
            r@.query_string is None,
            r@.remote_host is None,
            r@.remote_addr is None,
            r@.path_info is None,
            r@.path_translated is None,
            r@.auth_type is None,
            r@.remote_user is None,
            r@.remote_ident is None,
            r@.content_type is None,
            r@.content_length is None,
            r@.body_prefix.len() == 0,
    {
        let mut owned_args: Vec<String> = Vec::new();
        let mut i: usize = 0;
        while i < args.len()
            invariant
                i <= args@.len(),
                owned_args@.map_values(|s: String| s@) == args@.subrange(0, i as int).map_values(
                    |s: &str| s@,
                ),
            decreases args@.len() - i,
        {
            let ghost before = owned_args@;
            let a = args[i].to_owned();
            owned_args.push(a);
            proof {
                assert(owned_args@.map_values(|s: String| s@) =~= before.map_values(|s: String| s@).push(a@));
                assert(args@.subrange(0, i + 1) =~= args@.subrange(0, i as int).push(args@[i as int]));
                assert(owned_args@.map_values(|s: String| s@) =~= args@.subrange(
                    0,
                    i + 1,
                ).map_values(|s: &str| s@));
            }
            i = i + 1;
        }
        let mut owned_env: Vec<(String, String)> = Vec::new();
        let mut j: usize = 0;
        while j < env_vars.len()
            invariant
                j <= env_vars@.len(),
                strings_view(owned_env@) == env_vars@.subrange(0, j as int).map_values(
                    |p: (&str, &str)| (p.0@, p.1@),
                ),
            decreases env_vars@.len() - j,
        {
            let (k, v) = env_vars[j];
            let ghost before = owned_env@;
            let pair = (k.to_owned(), v.to_owned());
            owned_env.push(pair);
            proof {
                assert(strings_view(owned_env@) =~= strings_view(before).push((k@, v@)));
                assert(env_vars@.subrange(0, j + 1) =~= env_vars@.subrange(0, j as int).push(env_vars@[j as int]));
                assert(strings_view(owned_env@) =~= env_vars@.subrange(0, j + 1).map_values(
                    |p: (&str, &str)| (p.0@, p.1@),
                ));
            }
            j = j + 1;
        }
        proof {
            assert(args@.subrange(0, args@.len() as int) =~= args@);
            assert(env_vars@.subrange(0, env_vars@.len() as int) =~= env_vars@);
        }
        CgiScript {
            command: command.to_owned(),
            args: owned_args,
            env_vars: owned_env,
            server_software: None,
            server_name: None,
            server_port: None,
            request_method: None,
            query_string: None,
            remote_host: None,
            remote_addr: None,
            path_info: None,
            path_translated: None,
            auth_type: None,
            remote_user: None,
            remote_ident: None,
            content_type: None,
            content_length: None,
            body_prefix: Vec::new(),
        }
    }

    pub fn command(&self) -> (r: &String)
        ensures
            r@ == self@.command,
    {
        &self.command
    }

    pub fn args(&self) -> (r: &Vec<String>)
        ensures
            r@.map_values(|s: String| s@) == self@.args,
    {
        &self.args
    }

    /// The bytes dropped from the front of the program's body (see
    /// [`crate::output::parse_cgi_output`]).
    pub fn body_prefix(&self) -> (r: &Vec<u8>)
        ensures
            r@ == self@.body_prefix,
    {
        &self.body_prefix
    }

    pub fn server_software(self, server_software: &str) -> (r: CgiScript)
        ensures
            r@ == (ScriptView { server_software: Some(server_software@), ..self@ }),
    {
        CgiScript { server_software: Some(server_software.to_owned()), ..self }
    }

    pub fn server_name(self, server_name: &str) -> (r: CgiScript)
        ensures
            r@ == (ScriptView { server_name: Some(server_name@), ..self@ }),
    {
        CgiScript { server_name: Some(server_name.to_owned()), ..self }
    }

    pub fn server_port(self, server_port: &str) -> (r: CgiScript)
        ensures
            r@ == (ScriptView { server_port: Some(server_port@), ..self@ }),
    {
        CgiScript { server_port: Some(server_port.to_owned()), ..self }
    }

    pub fn request_method(self, request_method: &str) -> (r: CgiScript)
        ensures
            r@ == (ScriptView { request_method: Some(request_method@), ..self@ }),
    {
        CgiScript { request_method: Some(request_method.to_owned()), ..self }
    }

    pub fn query_string(self, query_string: &str) -> (r: CgiScript)
        ensures
            r@ == (ScriptView { query_string: Some(query_string@), ..self@ }),
    {
        CgiScript { query_string: Some(query_string.to_owned()), ..self }
    }

    pub fn remote_host(self, remote_host: &str) -> (r: CgiScript)
        ensures
            r@ == (ScriptView { remote_host: Some(remote_host@), ..self@ }),
    {
        CgiScript { remote_host: Some(remote_host.to_owned()), ..self }
    }

    pub fn remote_addr(self, remote_addr: &str) -> (r: CgiScript)
        ensures
            r@ == (ScriptView { remote_addr: Some(remote_addr@), ..self@ }),
    {
        CgiScript { remote_addr: Some(remote_addr.to_owned()), ..self }
    }

    /// The request path, not URL-encoded; where the program is mounted below
    /// the root, the caller takes the mount point off first.
    pub fn path_info(self, path_info: &str) -> (r: CgiScript)
        ensures
            r@ == (ScriptView { path_info: Some(path_info@), ..self@ }),
    {
        CgiScript { path_info: Some(path_info.to_owned()), ..self }
    }

    pub fn path_translated(self, path_translated: &str) -> (r: CgiScript)
        ensures
            r@ == (ScriptView { path_translated: Some(path_translated@), ..self@ }),
    {
        CgiScript { path_translated: Some(path_translated.to_owned()), ..self }
    }

    pub fn remote_user(self, remote_user: &str) -> (r: CgiScript)
        ensures
            r@ == (ScriptView { remote_user: Some(remote_user@), ..self@ }),
    {
        CgiScript { remote_user: Some(remote_user.to_owned()), ..self }
    }

    pub fn remote_ident(self, remote_ident: &str) -> (r: CgiScript)
        ensures
            r@ == (ScriptView { remote_ident: Some(remote_ident@), ..self@ }),
    {
        CgiScript { remote_ident: Some(remote_ident.to_owned()), ..self }
    }

    pub fn content_type(self, content_type: &str) -> (r: CgiScript)
        ensures
            r@ == (ScriptView { content_type: Some(content_type@), ..self@ }),
    {
        CgiScript { content_type: Some(content_type.to_owned()), ..self }
    }

    pub fn auth_type(self, auth_type: Auth) -> (r: CgiScript)
        ensures
            r@ == (ScriptView { auth_type: Some(auth_type), ..self@ }),
    {
        CgiScript { auth_type: Some(auth_type), ..self }
    }

    /// The length of the request body, where it is known in advance.
    pub fn content_length(self, content_length: u64) -> (r: CgiScript)
        ensures
            r@ == (ScriptView { content_length: Some(content_length), ..self@ }),
    {
        CgiScript { content_length: Some(content_length), ..self }
    }

    /// Bytes that this program writes before its body and that are not part
    /// of it; they are dropped where they stand at the front of the body.
    pub fn strip_body_prefix(self, prefix: &[u8]) -> (r: CgiScript)
        ensures
            r@ == (ScriptView { body_prefix: prefix@, ..self@ }),
    {
        CgiScript { body_prefix: vstd::slice::slice_to_vec(prefix), ..self }
    }

    /// The environment of the program: the configured variables whose names
    /// are not those of meta-variables, then the meta-variables, which so
    /// take precedence.
    pub fn environment(&self) -> (r: Result<Vec<(String, String)>, CgiScriptError>)
        ensures
            match meta_var_error(self@) {
                Some(e) => r == Err::<Vec<(String, String)>, CgiScriptError>(e),
                None => r is Ok && strings_view(r->Ok_0@) == environment_of(self@),
            },
    {
        let meta = self.meta_variables()?;
        let ghost pred = |p: (Seq<char>, Seq<char>)| !is_meta_var_name(p.0);
        let ghost base = strings_view(self.env_vars@);
        let mut env: Vec<(String, String)> = Vec::new();
        proof {
            reveal(Seq::filter);
            assert(strings_view(env@) =~= base.subrange(0, 0).filter(pred));
        }
        let mut i: usize = 0;
        while i < self.env_vars.len()
            invariant
                i <= self.env_vars@.len(),
                base == strings_view(self.env_vars@),
                pred == (|p: (Seq<char>, Seq<char>)| !is_meta_var_name(p.0)),
                strings_view(env@) == base.subrange(0, i as int).filter(pred),
            decreases self.env_vars@.len() - i,
        {
            let ghost before = env@;
            let ghost prefix = base.subrange(0, i as int);
            let ghost next = base.subrange(0, i + 1);
            assert(next.drop_last() =~= prefix);
            proof {
                reveal(Seq::filter);
            }
            let (k, v) = &self.env_vars[i];
            if !meta_var_name(k.as_str()) {
                env.push((k.clone(), v.clone()));
                assert(strings_view(env@) =~= strings_view(before).push((k@, v@)));
            }
            assert(next.filter(pred) == if pred(next.last()) {
                prefix.filter(pred).push(next.last())
            } else {
                prefix.filter(pred)
            });
            i = i + 1;
        }
        proof {
            assert(base.subrange(0, i as int) =~= base);
        }
        let ghost kept = env@;
        let mut meta = meta;
        env.append(&mut meta);
        proof {
            assert(strings_view(env@) =~= strings_view(kept) + meta_vars_of(self@));
        }
        Ok(env)
    }

    /// Decides the outcome of an invocation once the program has ended:
    /// `streamed` is how moving the request body went, `exit` how the
    /// program ended, `stdout` all it wrote on its output.
    pub fn conclude(&self, streamed: Result<u64, StreamError>, exit: ExitStatus, stdout: &[u8]) -> (r: Result<
        crate::output::CgiResponse,
        CgiScriptError,
    >)
        ensures
            match conclusion(streamed, exit, stdout@, self@.body_prefix) {
                Ok(m) => r is Ok && r->Ok_0@ == m,
                Err(e) => r == Err::<crate::output::CgiResponse, CgiScriptError>(e),
            },
    {
        if let Err(e) = streamed {
            return Err(CgiScriptError::Stream(e));
        }
        if exit == ExitStatus::Abnormal && stdout.len() == 0 {
            return Err(CgiScriptError::ProcessAborted);
        }
        match crate::output::parse_cgi_output(stdout, self.body_prefix.as_slice()) {
            Ok(resp) => Ok(resp),
            Err(e) => Err(CgiScriptError::ParseOutput(e)),
        }
    }
    /// The meta-variables, in the order of [`meta_var_names`], or why they
    /// cannot be set.
    pub fn meta_variables(&self) -> (r: Result<Vec<(String, String)>, CgiScriptError>)
        ensures
            match meta_var_error(self@) {
                Some(e) => r == Err::<Vec<(String, String)>, CgiScriptError>(e),
                None => r is Ok && strings_view(r->Ok_0@) == meta_vars_of(self@),
            },
    {
        let method = match &self.request_method {
            Some(m) => m.clone(),
            None => {
                return Err(CgiScriptError::MissingRequestMethod);
            },
        };
        let path = match &self.path_info {
            Some(p) => p.clone(),
            None => {
                return Err(CgiScriptError::MissingPathInfo);
            },
        };
        if !path_is_rooted(path.as_str()) {
            return Err(CgiScriptError::PathInfoNotRooted);
        }
        let auth = match self.auth_type {
            Some(a) => a.as_str().to_owned(),
            None => String::new(),
        };
        let length = match self.content_length {
            Some(n) => decimal_string(n),
            None => String::new(),
        };
        let mut vars: Vec<(String, String)> = Vec::new();
        vars.push(("SERVER_SOFTWARE".to_owned(), string_or_empty(&self.server_software)));
        vars.push(("SERVER_NAME".to_owned(), string_or_empty(&self.server_name)));
        vars.push(("SERVER_PORT".to_owned(), string_or_empty(&self.server_port)));
        vars.push(("GATEWAY_INTERFACE".to_owned(), "CGI/1.1".to_owned()));
        vars.push(("SERVER_PROTOCOL".to_owned(), "HTTP/1.1".to_owned()));
        vars.push(("REQUEST_METHOD".to_owned(), method));
        vars.push(("QUERY_STRING".to_owned(), string_or_empty(&self.query_string)));
        vars.push(("REMOTE_HOST".to_owned(), string_or_empty(&self.remote_host)));
        vars.push(("REMOTE_ADDR".to_owned(), string_or_empty(&self.remote_addr)));
        vars.push(("PATH_INFO".to_owned(), path));
        vars.push(("PATH_TRANSLATED".to_owned(), string_or_empty(&self.path_translated)));
        vars.push(("AUTH_TYPE".to_owned(), auth));
        vars.push(("REMOTE_USER".to_owned(), string_or_empty(&self.remote_user)));
        vars.push(("REMOTE_IDENT".to_owned(), string_or_empty(&self.remote_ident)));
        vars.push(("CONTENT_TYPE".to_owned(), string_or_empty(&self.content_type)));
        vars.push(("CONTENT_LENGTH".to_owned(), length));
        assert(strings_view(vars@) =~= meta_vars_of(self@));
        Ok(vars)
    }
}

/// How the program ended.
#[derive(Clone, Copy, Debug, PartialEq, Eq, Structural)]
pub enum ExitStatus {
    /// It exited with this code. A nonzero code does not make the invocation
    /// fail: once the program has written a well-formed output, that output
    /// is the response.
    Code(i32),
    /// It was ended without an exit code, as by a signal.
    Abnormal,
}

/// The response, or the failure, that an invocation comes to.
pub open spec fn conclusion(
    streamed: Result<u64, StreamError>,
    exit: ExitStatus,
    stdout: Seq<u8>,
    body_prefix: Seq<u8>,
) -> Result<crate::output::ResponseView, CgiScriptError> {
    match streamed {
        Err(e) => Err(CgiScriptError::Stream(e)),
        Ok(_) => if exit == ExitStatus::Abnormal && stdout.len() == 0 {
            Err(CgiScriptError::ProcessAborted)
        } else {
            match crate::output::parse_output(stdout, body_prefix) {
                Err(e) => Err(CgiScriptError::ParseOutput(e)),
                Ok(m) => if crate::output::fields_valid_utf8(m.fields) {
                    Ok(
                        crate::output::ResponseView {
                            status_code: m.status,
                            headers: crate::output::decoded_fields(m.fields),
                            body: m.body,
                        },
                    )
                } else {
                    Err(
                        CgiScriptError::ParseOutput(
                            crate::output::ParseCgiOutputError::InvalidHeaderEncoding,
                        ),
                    )
                },
            }
        },
    }
}

/// Whether `p` starts with `/`.
fn path_is_rooted(p: &str) -> (r: bool)
    ensures
        r == (p@.len() > 0 && p@[0] == '/'),
{
    if p.unicode_len() == 0 {
        return false;
    }
    p.get_char(0) == '/'
}

/// Every meta-variable is set on every invocation whose mapping succeeds,
/// never left out: the entry at each position has the name at that position
/// of [`meta_var_names`], its value being the request's or the empty string
/// (see [`meta_vars_of`]), and each name is in the program's environment.
pub proof fn lemma_meta_vars_complete(v: ScriptView)
    ensures
        meta_vars_of(v).len() == meta_var_names().len(),
        forall|i: int| #![trigger meta_vars_of(v)[i]]
            0 <= i < meta_var_names().len() ==> meta_vars_of(v)[i].0 == meta_var_names()[i],
        forall|n: Seq<char>| #[trigger]
            meta_var_names().contains(n) ==> exists|i: int|
                0 <= i < environment_of(v).len() && (#[trigger] environment_of(v)[i]).0 == n,
{
    let mv = meta_vars_of(v);
    let names = meta_var_names();
    assert forall|i: int| #![trigger mv[i]] 0 <= i < names.len() implies mv[i].0 == names[i] by {
        assert(mv[i].0 == names[i]);
    }
    let env = environment_of(v);
    let kept = v.env_vars.filter(|p: (Seq<char>, Seq<char>)| !is_meta_var_name(p.0));
    assert forall|n: Seq<char>| #[trigger] names.contains(n) implies exists|i: int|
        0 <= i < env.len() && (#[trigger] env[i]).0 == n by {
        let k = choose|k: int| 0 <= k < names.len() && names[k] == n;
        let i = kept.len() + k;
        assert(env[i] == mv[k]);
        assert(mv[k].0 == names[k]);
    }
}

/// Mapping the same request twice gives the same meta-variables: they depend
/// on the request's fields alone, not on the program or its configuration.
pub proof fn lemma_meta_vars_deterministic(a: ScriptView, b: ScriptView)
    requires
        a.server_software == b.server_software,
        a.server_name == b.server_name,
        a.server_port == b.server_port,
        a.request_method == b.request_method,
        a.query_string == b.query_string,
        a.remote_host == b.remote_host,
        a.remote_addr == b.remote_addr,
        a.path_info == b.path_info,
        a.path_translated == b.path_translated,
        a.auth_type == b.auth_type,
        a.remote_user == b.remote_user,
        a.remote_ident == b.remote_ident,
        a.content_type == b.content_type,
        a.content_length == b.content_length,
    ensures
        meta_vars_of(a) == meta_vars_of(b),
        meta_var_error(a) == meta_var_error(b),
{
}

} // verus!
