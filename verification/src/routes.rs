//! The route table, compiled once from the stack configuration: exact
//! routes for every function with an HTTP trigger, one optional fallback
//! for a function that claims the wildcard path, and resolution that
//! always answers control paths itself — a function can never shadow
//! `/health` or the system API.

use vstd::prelude::*;
use vstd::string::StringExecFns;

use crate::config::{
    spec_handler_port, spec_internal_url, Config, Function, HttpMethod, Trigger,
};
use crate::errors::SentinelError;
use crate::text::str_eq;

verus! {

/// One compiled route.
pub struct Route {
    /// The method filter; `Any` matches every method.
    pub method: HttpMethod,
    /// The exact request path this route serves.
    pub path: String,
    /// The function woken and proxied to.
    pub function_name: String,
    /// The function's internal URL on the stack network.
    pub internal_url: String,
}

/// The mathematical content of a [`Route`].
pub struct RouteView {
    pub method: HttpMethod,
    pub path: Seq<char>,
    pub function_name: Seq<char>,
    pub internal_url: Seq<char>,
}

impl View for Route {
    type V = RouteView;

    open spec fn view(&self) -> RouteView {
        RouteView {
            method: self.method,
            path: self.path@,
            function_name: self.function_name@,
            internal_url: self.internal_url@,
        }
    }
}

/// The compiled table: exact routes in declaration order, and the
/// fallback, if a function claimed the wildcard path.
pub struct RouteTable {
    pub routes: Vec<Route>,
    pub fallback: Option<Route>,
}

/// A control endpoint of the sentinel itself.
#[derive(PartialEq, Eq, Structural, Clone, Copy, Debug)]
pub enum ControlEndpoint {
    /// `GET /health`.
    Health,
    /// `GET /system/sessions`.
    Sessions,
    /// `GET /system/config`.
    ConfigView,
    /// `POST /system/functions/start`.
    StartFunction,
    /// Any other request under a control path.
    Unknown,
}

/// Where a request goes.
pub enum Resolution {
    /// The sentinel answers it itself.
    Control(ControlEndpoint),
    /// It wakes and is proxied to a function.
    Function { function_name: String, internal_url: String },
    /// Nothing matches.
    NotFound,
}

/// The spec-level resolution.
pub enum SpecResolution {
    Control(ControlEndpoint),
    Function { function_name: Seq<char>, internal_url: Seq<char> },
    NotFound,
}

/// The paths the sentinel reserves for itself: the health endpoint and
/// everything under the system API.
pub open spec fn spec_is_control_path(p: Seq<char>) -> bool {
    ||| p == "/health"@
    ||| p == "/system"@
    ||| p.len() >= 8 && p.subrange(0, 8) == "/system/"@
}

/// Which control endpoint a method and path name.
pub open spec fn spec_control_endpoint(m: Option<HttpMethod>, p: Seq<char>) -> ControlEndpoint {
    if m == Option::Some(HttpMethod::Get) && p == "/health"@ {
        ControlEndpoint::Health
    } else if m == Option::Some(HttpMethod::Get) && p == "/system/sessions"@ {
        ControlEndpoint::Sessions
    } else if m == Option::Some(HttpMethod::Get) && p == "/system/config"@ {
        ControlEndpoint::ConfigView
    } else if m == Option::Some(HttpMethod::Post) && p == "/system/functions/start"@ {
        ControlEndpoint::StartFunction
    } else {
        ControlEndpoint::Unknown
    }
}

/// Whether a route serves a request: the path matches exactly and the
/// method filter is `Any` or the request's method.
pub open spec fn spec_route_matches(r: RouteView, m: Option<HttpMethod>, p: Seq<char>) -> bool {
    r.path == p && (r.method is Any || Option::Some(r.method) == m)
}

/// The first matching route, in table order.
pub open spec fn spec_first_match(rs: Seq<RouteView>, m: Option<HttpMethod>, p: Seq<char>) -> Option<
    RouteView,
>
    decreases rs.len(),
{
    if rs.len() == 0 {
        Option::None
    } else if spec_route_matches(rs[0], m, p) {
        Option::Some(rs[0])
    } else {
        spec_first_match(rs.drop_first(), m, p)
    }
}

/// Where the table sends a request: control paths first, then the first
/// matching exact route, then the fallback if its filter matches.
pub open spec fn spec_resolve(
    rs: Seq<RouteView>,
    fallback: Option<RouteView>,
    m: Option<HttpMethod>,
    p: Seq<char>,
) -> SpecResolution {
    if spec_is_control_path(p) {
        SpecResolution::Control(spec_control_endpoint(m, p))
    } else {
        match spec_first_match(rs, m, p) {
            Option::Some(r) => SpecResolution::Function {
                function_name: r.function_name,
                internal_url: r.internal_url,
            },
            Option::None => match fallback {
                Option::Some(f) => if f.method is Any || Option::Some(f.method) == m {
                    SpecResolution::Function {
                        function_name: f.function_name,
                        internal_url: f.internal_url,
                    }
                } else {
                    SpecResolution::NotFound
                },
                Option::None => SpecResolution::NotFound,
            },
        }
    }
}

/// Route exclusivity: whatever routes and fallback a configuration
/// compiled to — a wildcard fallback included — a request for a control
/// path resolves to the sentinel's own endpoint, never to a function.
pub proof fn lemma_route_exclusivity(
    rs: Seq<RouteView>,
    fallback: Option<RouteView>,
    m: Option<HttpMethod>,
    p: Seq<char>,
)
    requires
        spec_is_control_path(p),
    ensures
        spec_resolve(rs, fallback, m, p) == SpecResolution::Control(spec_control_endpoint(m, p)),
{
}

impl RouteTable {
    /// The table's routes as mathematical values.
    pub open spec fn routes_view(&self) -> Seq<RouteView> {
        Seq::new(self.routes@.len(), |i: int| self.routes@[i]@)
    }

    /// The table's fallback as a mathematical value.
    pub open spec fn fallback_view(&self) -> Option<RouteView> {
        match self.fallback {
            Option::Some(f) => Option::Some(f@),
            Option::None => Option::None,
        }
    }

    /// Sends a request where the table says: control paths are answered
    /// by the sentinel itself, other paths go to the first matching
    /// route, and only then to the fallback.  `method` is `None` for a
    /// request method outside the filterable ones; such a request can
    /// match only an `Any` filter.
    pub fn resolve(&self, method: Option<HttpMethod>, path: &str) -> (r: Resolution)
        ensures
            match r {
                Resolution::Control(c) => spec_resolve(
                    self.routes_view(),
                    self.fallback_view(),
                    method,
                    path@,
                ) == SpecResolution::Control(c),
                Resolution::Function { function_name, internal_url } => spec_resolve(
                    self.routes_view(),
                    self.fallback_view(),
                    method,
                    path@,
                ) == (SpecResolution::Function {
                    function_name: function_name@,
                    internal_url: internal_url@,
                }),
                Resolution::NotFound => spec_resolve(
                    self.routes_view(),
                    self.fallback_view(),
                    method,
                    path@,
                ) is NotFound,
            },
    {
        if is_control_path(path) {
            return Resolution::Control(control_endpoint(method, path));
        }
        proof {
            assert(self.routes_view().skip(0) =~= self.routes_view());
        }
        let mut i: usize = 0;
        while i < self.routes.len()
            invariant
                0 <= i <= self.routes@.len(),
                !spec_is_control_path(path@),
                self.routes_view().len() == self.routes@.len(),
                forall|j: int| 0 <= j < self.routes@.len() ==> self.routes_view()[j] == #[trigger] self.routes@[j]@,
                spec_first_match(self.routes_view(), method, path@) == spec_first_match(
                    self.routes_view().skip(i as int),
                    method,
                    path@,
                ),
            decreases self.routes@.len() - i,
        {
            proof {
                assert(self.routes_view().skip(i as int)[0] == self.routes_view()[i as int]);
                assert(self.routes_view().skip(i as int).drop_first() =~= self.routes_view().skip(
                    i + 1,
                ));
            }
            let matches_method = match &self.routes[i].method {
                HttpMethod::Any => true,
                mf => match &method {
                    Some(m) => *mf == *m,
                    None => false,
                },
            };
            if matches_method && str_eq(self.routes[i].path.as_str(), path) {
                return Resolution::Function {
                    function_name: self.routes[i].function_name.clone(),
                    internal_url: self.routes[i].internal_url.clone(),
                };
            }
            i = i + 1;
        }
        proof {
            assert(self.routes_view().skip(i as int).len() == 0);
        }
        match &self.fallback {
            Some(f) => {
                let matches_method = match &f.method {
                    HttpMethod::Any => true,
                    mf => match &method {
                        Some(m) => *mf == *m,
                        None => false,
                    },
                };
                if matches_method {
                    Resolution::Function {
                        function_name: f.function_name.clone(),
                        internal_url: f.internal_url.clone(),
                    }
                } else {
                    Resolution::NotFound
                }
            },
            None => Resolution::NotFound,
        }
    }
}

/// Whether the sentinel reserves this path for itself.
pub fn is_control_path(path: &str) -> (b: bool)
    ensures
        b == spec_is_control_path(path@),
{
    proof {
        reveal_strlit("/health");
        reveal_strlit("/system");
        reveal_strlit("/system/");
    }
    if str_eq(path, "/health") || str_eq(path, "/system") {
        return true;
    }
    if path.unicode_len() >= 8 {
        let prefix = path.substring_char(0, 8);
        if str_eq(prefix, "/system/") {
            return true;
        }
    }
    false
}

/// Which control endpoint a method and path name.
pub fn control_endpoint(method: Option<HttpMethod>, path: &str) -> (c: ControlEndpoint)
    ensures
        c == spec_control_endpoint(method, path@),
{
    let is_get = match &method {
        Some(HttpMethod::Get) => true,
        _ => false,
    };
    let is_post = match &method {
        Some(HttpMethod::Post) => true,
        _ => false,
    };
    if is_get && str_eq(path, "/health") {
        ControlEndpoint::Health
    } else if is_get && str_eq(path, "/system/sessions") {
        ControlEndpoint::Sessions
    } else if is_get && str_eq(path, "/system/config") {
        ControlEndpoint::ConfigView
    } else if is_post && str_eq(path, "/system/functions/start") {
        ControlEndpoint::StartFunction
    } else {
        ControlEndpoint::Unknown
    }
}

/// The route one declared function compiles to, if its trigger is HTTP:
/// the declared path, the declared method filter or `Any`, and the
/// function's internal URL.
pub open spec fn spec_http_route(stack: Seq<char>, entry: (String, Function)) -> Option<RouteView> {
    match entry.1.trigger {
        Trigger::Http { path, method, .. } => Option::Some(
            RouteView {
                method: match method {
                    Option::Some(m) => m,
                    Option::None => HttpMethod::Any,
                },
                path: path@,
                function_name: entry.0@,
                internal_url: spec_internal_url(stack, entry.0@, spec_handler_port(entry.1)),
            },
        ),
        _ => Option::None,
    }
}

/// The exact routes a configuration compiles to, in declaration order:
/// one per HTTP trigger whose path is not the wildcard.
pub open spec fn spec_exact_routes(stack: Seq<char>, fs: Seq<(String, Function)>) -> Seq<RouteView>
    decreases fs.len(),
{
    if fs.len() == 0 {
        Seq::empty()
    } else {
        (match spec_http_route(stack, fs[0]) {
            Option::Some(r) => if r.path != "*"@ {
                seq![r]
            } else {
                Seq::empty()
            },
            Option::None => Seq::empty(),
        }) + spec_exact_routes(stack, fs.drop_first())
    }
}

/// The fallback a configuration compiles to: the route of the last
/// function that claims the wildcard path, if any.
pub open spec fn spec_fallback_route(stack: Seq<char>, fs: Seq<(String, Function)>) -> Option<
    RouteView,
>
    decreases fs.len(),
{
    if fs.len() == 0 {
        Option::None
    } else {
        match spec_http_route(stack, fs.last()) {
            Option::Some(r) => if r.path == "*"@ {
                Option::Some(r)
            } else {
                spec_fallback_route(stack, fs.drop_last())
            },
            Option::None => spec_fallback_route(stack, fs.drop_last()),
        }
    }
}

/// No two routes share a (method, path) pair.
pub open spec fn spec_routes_distinct(rs: Seq<RouteView>) -> bool {
    forall|i: int, j: int|
        0 <= i < j < rs.len() ==> !(#[trigger] rs[i].path == #[trigger] rs[j].path && rs[i].method
            == rs[j].method)
}

/// Compiles the route table from the configuration: every function with
/// an HTTP trigger becomes an exact route, a function claiming the
/// wildcard path becomes the fallback (last declaration wins), and a
/// duplicate (method, path) pair is a fatal configuration error — the
/// build succeeds exactly when there is none.
pub fn build_route_table(config: &Config) -> (r: Result<RouteTable, SentinelError>)
    ensures
        r matches Ok(t) ==> t.routes_view() == spec_exact_routes(config.name@, config.functions@)
            && t.fallback_view() == spec_fallback_route(config.name@, config.functions@),
        r is Ok <==> spec_routes_distinct(spec_exact_routes(config.name@, config.functions@)),
        r matches Err(e) ==> e is ConfigError,
{
    let ghost whole = spec_exact_routes(config.name@, config.functions@);
    proof {
        assert(config.functions@.skip(0) =~= config.functions@);
        assert(config.functions@.take(0) =~= Seq::<(String, Function)>::empty());
    }
    let mut routes: Vec<Route> = Vec::new();
    let mut fallback: Option<Route> = None;
    let mut i: usize = 0;
    while i < config.functions.len()
        invariant
            0 <= i <= config.functions@.len(),
            whole == spec_exact_routes(config.name@, config.functions@),
            routes@.len() + spec_exact_routes(
                config.name@,
                config.functions@.skip(i as int),
            ).len() == whole.len(),
            forall|k: int| 0 <= k < routes@.len() ==> #[trigger] routes@[k]@ == whole[k],
            forall|k: int|
                0 <= k < spec_exact_routes(config.name@, config.functions@.skip(i as int)).len()
                    ==> #[trigger] spec_exact_routes(config.name@, config.functions@.skip(
                    i as int,
                ))[k] == whole[routes@.len() + k],
            forall|a: int, b: int|
                #![trigger routes@[a], routes@[b]]
                0 <= a < b < routes@.len() ==> !(routes@[a]@.path == routes@[b]@.path
                    && routes@[a]@.method == routes@[b]@.method),
            match fallback {
                Option::Some(f) => spec_fallback_route(
                    config.name@,
                    config.functions@.take(i as int),
                ) == Option::Some(f@),
                Option::None => spec_fallback_route(
                    config.name@,
                    config.functions@.take(i as int),
                ) is None,
            },
        decreases config.functions@.len() - i,
    {
        proof {
            assert(config.functions@.skip(i as int)[0] == config.functions@[i as int]);
            assert(config.functions@.skip(i as int).drop_first() =~= config.functions@.skip(
                i + 1,
            ));
            assert(config.functions@.take(i as int + 1).drop_last() =~= config.functions@.take(
                i as int,
            ));
            assert(config.functions@.take(i as int + 1).last() == config.functions@[i as int]);
        }
        let entry_name: String = config.functions[i].0.clone();
        match &config.functions[i].1.trigger {
            Trigger::Http { path, method, .. } => {
                let filter: HttpMethod = match method {
                    Some(m) => *m,
                    None => HttpMethod::Any,
                };
                let port: u16 = match config.functions[i].1.handler_port {
                    Some(p) => p,
                    None => crate::config::DEFAULT_FUNCTION_HANDLER_PORT,
                };
                let url = config.internal_url_of(entry_name.as_str(), port);
                let route = Route {
                    method: filter,
                    path: path.clone(),
                    function_name: entry_name,
                    internal_url: url,
                };
                proof {
                    reveal_strlit("*");
                }
                if str_eq(path.as_str(), "*") {
                    fallback = Some(route);
                } else {
                    let ghost skip_i = spec_exact_routes(
                        config.name@,
                        config.functions@.skip(i as int),
                    );
                    let ghost skip_n = spec_exact_routes(
                        config.name@,
                        config.functions@.skip(i as int + 1),
                    );
                    proof {
                        assert(skip_i =~= seq![route@] + skip_n);
                        assert(skip_i[0] == whole[routes@.len() as int]);
                        assert(route@ == whole[routes@.len() as int]);
                    }
                    let mut j: usize = 0;
                    while j < routes.len()
                        invariant
                            0 <= j <= routes@.len(),
                            whole == spec_exact_routes(config.name@, config.functions@),
                            routes@.len() < whole.len(),
                            route@ == whole[routes@.len() as int],
                            forall|k: int| 0 <= k < routes@.len() ==> #[trigger] routes@[k]@
                                == whole[k],
                            forall|k: int|
                                0 <= k < j ==> !(#[trigger] routes@[k]@.path == route@.path
                                    && routes@[k]@.method == route@.method),
                        decreases routes@.len() - j,
                    {
                        if routes[j].method == route.method && str_eq(
                            routes[j].path.as_str(),
                            route.path.as_str(),
                        ) {
                            proof {
                                assert(routes@[j as int]@ == whole[j as int]);
                                assert(routes@[j as int]@.path == route@.path);
                                assert(routes@[j as int]@.method == route@.method);
                                assert(whole[j as int].path == whole[routes@.len() as int].path
                                    && whole[j as int].method == whole[
                                routes@.len() as int].method);
                                assert(!spec_routes_distinct(whole));
                            }
                            return Err(
                                SentinelError::ConfigError(
                                    "duplicate route: two functions declare the same method and path".to_owned(),
                                ),
                            );
                        }
                        j = j + 1;
                    }
                    let ghost old_len = routes@.len() as int;
                    let ghost pre = routes@;
                    routes.push(route);
                    proof {
                        assert forall|k: int| 0 <= k < skip_n.len() implies #[trigger] skip_n[k]
                            == whole[routes@.len() + k] by {
                            assert(skip_i[k + 1] == whole[old_len + (k + 1)]);
                            assert(skip_i[k + 1] == (seq![route@] + skip_n)[k + 1]);
                        }
                        assert forall|a: int, b: int|
                            #![trigger routes@[a], routes@[b]]
                            0 <= a < b < routes@.len() implies !(routes@[a]@.path
                            == routes@[b]@.path && routes@[a]@.method == routes@[b]@.method) by {
                            if b == routes@.len() - 1 {
                                assert(routes@[b] == route);
                                assert(routes@[a] == pre[a]);
                            } else {
                                assert(routes@[a] == pre[a] && routes@[b] == pre[b]);
                            }
                        }
                    }
                }
            },
            _ => {},
        }
        proof {
            if spec_exact_routes(config.name@, config.functions@.skip(i as int)).len()
                == spec_exact_routes(config.name@, config.functions@.skip(i as int + 1)).len() {
                let skip_i = spec_exact_routes(config.name@, config.functions@.skip(i as int));
                let skip_n = spec_exact_routes(
                    config.name@,
                    config.functions@.skip(i as int + 1),
                );
                assert(skip_i =~= skip_n);
                assert forall|k: int| 0 <= k < skip_n.len() implies #[trigger] skip_n[k]
                    == whole[routes@.len() + k] by {
                    assert(skip_i[k] == whole[routes@.len() + k]);
                }
            }
        }
        i = i + 1;
    }
    proof {
        assert(spec_exact_routes(config.name@, config.functions@.skip(i as int)).len() == 0);
        assert(config.functions@.take(i as int) =~= config.functions@);
    }
    let t = RouteTable { routes, fallback };
    proof {
        assert(t.routes_view() =~= whole);
        assert forall|a: int, b: int|
            0 <= a < b < whole.len() implies !(#[trigger] whole[a].path == #[trigger] whole[b].path
            && whole[a].method == whole[b].method) by {
            assert(t.routes@[a]@ == whole[a] && t.routes@[b]@ == whole[b]);
        }
        assert(spec_routes_distinct(whole));
    }
    Ok(t)
}

} // verus!
