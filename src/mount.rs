//! A gateway program mounted on routes: the request methods and paths it
//! answers, its rank among other routes, and the invocation it is run with.

use vstd::prelude::*;

verus! {

/// An HTTP request method.
#[derive(Clone, Copy, Debug, PartialEq, Eq, Structural)]
pub enum Method {
    Get,
    Put,
    Post,
    Delete,
    Options,
    Head,
    Trace,
    Connect,
    Patch,
}

impl Method {
    pub open spec fn name(self) -> Seq<char> {
        match self {
            Method::Get => "GET"@,
            Method::Put => "PUT"@,
            Method::Post => "POST"@,
            Method::Delete => "DELETE"@,
            Method::Options => "OPTIONS"@,
            Method::Head => "HEAD"@,
            Method::Trace => "TRACE"@,
            Method::Connect => "CONNECT"@,
            Method::Patch => "PATCH"@,
        }
    }

    /// The method as `REQUEST_METHOD` names it.
    pub fn as_str(self) -> (r: &'static str)
        ensures
            r@ == self.name(),
    {
        match self {
            Method::Get => "GET",
            Method::Put => "PUT",
            Method::Post => "POST",
            Method::Delete => "DELETE",
            Method::Options => "OPTIONS",
            Method::Head => "HEAD",
            Method::Trace => "TRACE",
            Method::Connect => "CONNECT",
            Method::Patch => "PATCH",
        }
    }
}

/// One route: requests with `method` on `path` go to the program; among
/// routes that match a request, the lowest rank is tried first.
#[derive(Debug)]
pub struct Route {
    pub method: Method,
    pub path: String,
    pub rank: isize,
}

pub const DEFAULT_RANK: isize = 10;

/// A program, the routes it answers, and the file system path its requests
/// map to.
#[derive(Clone, Debug)]
pub struct CgiScript {
    template: crate::script::CgiScript,
    methods: Vec<Method>,
    paths: Vec<String>,
    rank: isize,
}

pub struct MountView {
    pub template: crate::script::ScriptView,
    pub methods: Seq<Method>,
    pub paths: Seq<Seq<char>>,
    pub rank: isize,
}

impl View for CgiScript {
    type V = MountView;

    closed spec fn view(&self) -> MountView {
        MountView {
            template: self.template@,
            methods: self.methods@,
            paths: self.paths@.map_values(|s: String| s@),
            rank: self.rank,
        }
    }
}

/// The routes of a mount: the i-th path with the i-th method, as many as the
/// shorter of the two lists holds, all with the mount's rank.
pub open spec fn routes_of(v: MountView) -> Seq<(Method, Seq<char>, isize)> {
    let n = if v.paths.len() < v.methods.len() {
        v.paths.len()
    } else {
        v.methods.len()
    };
    Seq::new(n, |i: int| (v.methods[i], v.paths[i], v.rank))
}

impl CgiScript {
    pub fn new(
        command: &str,
        args: &[&str],
        env_vars: &[(&str, &str)],
        paths: &[&str],
        methods: Vec<Method>,
        path_translated: &str,
    ) -> (r: CgiScript)
        ensures
            r@.template.command == command@,
            r@.template.args == args@.map_values(|s: &str| s@),
            r@.template.env_vars == env_vars@.map_values(|p: (&str, &str)| (p.0@, p.1@)),
            r@.template.path_translated == Some(path_translated@),
            r@.template.server_software is None,
            r@.template.server_name is None,
            r@.template.server_port is None,
            r@.template.request_method is None,
            r@.template.query_string is None,
            r@.template.remote_host is None,
            r@.template.remote_addr is None,
            r@.template.path_info is None,
            r@.template.auth_type is None,
            r@.template.remote_user is None,
            r@.template.remote_ident is None,
            r@.template.content_type is None,
            r@.template.content_length is None,
            r@.template.body_prefix.len() == 0,
            r@.methods == methods@,
            r@.paths == paths@.map_values(|s: &str| s@),
            r@.rank == DEFAULT_RANK,
    {
        let template = crate::script::CgiScript::new(command, args, env_vars).path_translated(
            path_translated,
        );
        let mut owned: Vec<String> = Vec::new();
        let mut i: usize = 0;
        while i < paths.len()
            invariant
                i <= paths@.len(),
                owned@.map_values(|s: String| s@) == paths@.subrange(0, i as int).map_values(
                    |s: &str| s@,
                ),
            decreases paths@.len() - i,
        {
            let ghost before = owned@;
            let p = paths[i].to_owned();
            owned.push(p);
            proof {
                assert(owned@.map_values(|s: String| s@) =~= before.map_values(|s: String| s@).push(p@));
                assert(paths@.subrange(0, i + 1) =~= paths@.subrange(0, i as int).push(paths@[i as int]));
            }
            i = i + 1;
        }
        assert(paths@.subrange(0, paths@.len() as int) =~= paths@);
        CgiScript { template, methods, paths: owned, rank: DEFAULT_RANK }
    }

    pub fn rank(self, rank: isize) -> (r: CgiScript)
        ensures
            r@ == (MountView { rank, ..self@ }),
    {
        CgiScript { rank, ..self }
    }

    /// The invocation that every request on these routes starts from; the
    /// request's own meta-variables are added to it.
    pub fn template(&self) -> (r: &crate::script::CgiScript)
        ensures
            r@ == self@.template,
    {
        &self.template
    }

    pub fn routes(&self) -> (r: Vec<Route>)
        ensures
            r@.map_values(|x: Route| (x.method, x.path@, x.rank)) == routes_of(self@),
    {
        let ghost want = routes_of(self@);
        let ghost paths = self.paths@.map_values(|s: String| s@);
        let n = if self.paths.len() < self.methods.len() {
            self.paths.len()
        } else {
            self.methods.len()
        };
        let mut out: Vec<Route> = Vec::new();
        let mut i: usize = 0;
        while i < n
            invariant
                want == routes_of(self@),
                paths == self.paths@.map_values(|s: String| s@),
                n == want.len(),
                n <= self.paths@.len(),
                n <= self.methods@.len(),
                i <= n,
                out@.map_values(|x: Route| (x.method, x.path@, x.rank)) == want.subrange(0, i as int),
            decreases n - i,
        {
            let ghost before = out@;
            let route = Route { method: self.methods[i], path: self.paths[i].clone(), rank: self.rank };
            out.push(route);
            proof {
                assert(out@.map_values(|x: Route| (x.method, x.path@, x.rank)) =~= before.map_values(
                    |x: Route| (x.method, x.path@, x.rank),
                ).push((self.methods@[i as int], paths[i as int], self.rank)));
                assert(want.subrange(0, i + 1) =~= want.subrange(0, i as int).push(want[i as int]));
            }
            i = i + 1;
        }
        assert(want.subrange(0, n as int) =~= want);
        out
    }
}

} // verus!
