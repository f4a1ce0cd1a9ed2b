//! The stack configuration as the sentinel reads it at startup: the
//! stack name, the declared functions with their triggers, and the
//! deterministic names and URLs derived from them.  Loading the file and
//! its serialization live outside the library; this module holds the
//! data model and every rule computed from it.

use vstd::prelude::*;
use vstd::string::*;

use crate::errors::SentinelError;
use crate::text::{
    parse_u16, rfind_colon, spec_digits_val, spec_parse_u16_ok, spec_port_digits,
    spec_rfind_colon, spec_trim, trim_ascii, u64_to_dec, spec_dec_digits,
};

verus! {

/// The sentinel's listening port when the configuration names none.
pub const DEFAULT_SENTINEL_PORT: u16 = 52345;

/// The port a function container serves on when it declares none.
pub const DEFAULT_FUNCTION_HANDLER_PORT: u16 = 80;

/// The telemetry collector port assumed when an endpoint names none.
pub const DEFAULT_OTEL_PORT: u16 = 4318;

/// The HTTP method filter of a route; `Any` matches every method.
#[derive(PartialEq, Eq, Structural, Clone, Copy, Debug)]
pub enum HttpMethod {
    Any,
    Get,
    Post,
    Put,
    Delete,
    Patch,
}

/// An authentication descriptor attached to an HTTP trigger; opaque to
/// the core, carried for policy layers.
#[derive(Clone, Debug)]
pub enum HttpAuth {
    Web { protected_routes: Vec<String>, policies: Vec<String> },
    Jwt { scopes: Vec<String>, policies: Vec<String> },
}

/// A named policy source; opaque to the core.
#[derive(Clone, Debug)]
pub struct Policy {
    pub source: String,
}

/// A message broker the stack can reach.
#[derive(Clone, Debug)]
pub enum Broker {
    Nats { connection: String },
}

/// What makes a function run.  Only the HTTP variant activates routing;
/// queue, stream and timer triggers are inert to this core.
#[derive(Clone, Debug)]
pub enum Trigger {
    Http { path: String, method: Option<HttpMethod>, auth: Option<HttpAuth> },
    Queue { queue: String },
    Stream { stream: String },
    Timer { schedule: String },
}

impl Trigger {
    /// The parts of an HTTP trigger, or `None` for the other variants.
    pub fn as_http(self) -> (r: Option<(String, Option<HttpMethod>, Option<HttpAuth>)>)
        ensures
            match self {
                Trigger::Http { path, method, auth } => r matches Some(p) && p.0 == path
                    && p.1 == method && p.2 == auth,
                _ => r is None,
            },
    {
        if let Trigger::Http { path, method, auth } = self {
            Some((path, method, auth))
        } else {
            None
        }
    }
}

/// Scale-to-zero options of one function.
#[derive(Clone, Debug)]
pub struct Scaling {
    /// Lease length in seconds; thirty when absent.
    pub session_duration: Option<u64>,
    /// Reserved.
    pub health_check_interval: Option<u64>,
}

impl Default for Scaling {
    fn default() -> (c: Self)
        ensures
            c.session_duration is None,
            c.health_check_interval is None,
    {
        Scaling { session_duration: None, health_check_interval: None }
    }
}

/// One declared function: an image and a trigger, with optional scaling
/// options and handler port.
#[derive(Clone, Debug)]
pub struct Function {
    pub image: String,
    pub trigger: Trigger,
    pub scaling: Option<Scaling>,
    pub handler_port: Option<u16>,
}

/// Registry metadata used by deploy tooling.
#[derive(Clone, Debug)]
pub struct ContainerRegistry {
    pub url: String,
    pub namespace: Option<String>,
}

/// Sentinel-specific settings of the stack.
#[derive(Clone, Debug)]
pub struct Sentinel {
    pub registry: Option<ContainerRegistry>,
    pub port: Option<u16>,
    pub otel_endpoint: Option<String>,
}

/// An identity provider description; opaque to the core.
#[derive(Clone, Debug)]
pub struct IdentityProvider {
    pub provider_type: String,
    pub domain: String,
    pub client_id: String,
    pub client_secret: String,
    pub audience: String,
}

/// Identity settings of the stack; opaque to the core.
#[derive(Clone, Debug)]
pub struct Identity {
    pub provider: IdentityProvider,
}

/// A queue binding: one broker, one subject.
#[derive(Clone, Debug)]
pub struct Queue {
    pub broker: String,
    pub subject: String,
}

/// A stream binding: one broker, several subjects.
#[derive(Clone, Debug)]
pub struct Stream {
    pub broker: String,
    pub stream: String,
    pub subjects: Vec<String>,
    pub consumer_name: Option<String>,
}

/// The whole stack configuration, read-only at runtime.  Keyed
/// collections are association lists ordered as declared; keys are
/// unique in a well-formed configuration.
#[derive(Clone, Debug)]
pub struct Config {
    pub name: String,
    pub version: Option<String>,
    pub description: Option<String>,
    pub sentinel: Option<Sentinel>,
    pub identity: Option<Identity>,
    pub brokers: Vec<(String, Broker)>,
    pub queues: Vec<(String, Queue)>,
    pub streams: Vec<(String, Stream)>,
    pub functions: Vec<(String, Function)>,
}

/// The port a function serves on: its declared handler port, or the
/// default.
pub open spec fn spec_handler_port(f: Function) -> int {
    match f.handler_port {
        Option::Some(hp) => hp as int,
        Option::None => DEFAULT_FUNCTION_HANDLER_PORT as int,
    }
}

/// The internal URL of a function container on the stack network.
pub open spec fn spec_internal_url(stack: Seq<char>, fname: Seq<char>, port: int) -> Seq<char> {
    "http://"@ + ("coupe-"@ + stack + "-function-"@ + fname) + ":"@ + spec_dec_digits(port)
}

/// First entry under a key in an association list of functions.
pub open spec fn spec_find_function(fs: Seq<(String, Function)>, name: Seq<char>) -> Option<
    Function,
>
    decreases fs.len(),
{
    if fs.len() == 0 {
        Option::None
    } else if fs[0].0@ == name {
        Option::Some(fs[0].1)
    } else {
        spec_find_function(fs.drop_first(), name)
    }
}

/// The names of the functions with an HTTP trigger, in declaration
/// order.
pub open spec fn spec_http_functions(fs: Seq<(String, Function)>) -> Seq<Seq<char>>
    decreases fs.len(),
{
    if fs.len() == 0 {
        Seq::empty()
    } else {
        (if fs[0].1.trigger is Http {
            seq![fs[0].0@]
        } else {
            Seq::empty()
        }) + spec_http_functions(fs.drop_first())
    }
}

impl Config {
    /// The Docker network of the stack.
    pub fn stack_network_name(&self) -> (r: String)
        ensures
            r@ == "coupe-"@ + self.name@ + "-network"@,
    {
        let mut out = String::new();
        out.append("coupe-");
        out.append(self.name.as_str());
        out.append("-network");
        out
    }

    /// The sentinel's own container name.
    pub fn sentinel_container_name(&self) -> (r: String)
        ensures
            r@ == "coupe-"@ + self.name@ + "-sentinel"@,
    {
        let mut out = String::new();
        out.append("coupe-");
        out.append(self.name.as_str());
        out.append("-sentinel");
        out
    }

    /// The container name of one function.
    pub fn function_container_name(&self, function_name: &str) -> (r: String)
        ensures
            r@ == "coupe-"@ + self.name@ + "-function-"@ + function_name@,
    {
        let mut out = String::new();
        out.append("coupe-");
        out.append(self.name.as_str());
        out.append("-function-");
        out.append(function_name);
        out
    }

    /// The sentinel's listening port.
    pub fn sentinel_port(&self) -> (r: u16)
        ensures
            r == match self.sentinel {
                Option::Some(s) => match s.port {
                    Option::Some(p) => p,
                    Option::None => DEFAULT_SENTINEL_PORT,
                },
                Option::None => DEFAULT_SENTINEL_PORT,
            },
    {
        match &self.sentinel {
            Some(s) => match s.port {
                Some(p) => p,
                None => DEFAULT_SENTINEL_PORT,
            },
            None => DEFAULT_SENTINEL_PORT,
        }
    }

    /// First declared function under this name, if any.
    pub fn get_function(&self, function_name: &str) -> (r: Option<&Function>)
        ensures
            match r {
                Option::Some(f) => spec_find_function(self.functions@, function_name@)
                    == Option::Some(*f),
                Option::None => spec_find_function(self.functions@, function_name@) is None,
            },
    {
        let needle: String = function_name.to_owned();
        proof {
            assert(self.functions@.skip(0) =~= self.functions@);
        }
        let mut i: usize = 0;
        while i < self.functions.len()
            invariant
                0 <= i <= self.functions@.len(),
                needle@ == function_name@,
                spec_find_function(self.functions@, function_name@) == spec_find_function(
                    self.functions@.skip(i as int),
                    function_name@,
                ),
            decreases self.functions@.len() - i,
        {
            if self.functions[i].0 == needle {
                proof {
                    assert(self.functions@.skip(i as int)[0] == self.functions@[i as int]);
                }
                return Some(&self.functions[i].1);
            }
            proof {
                assert(self.functions@.skip(i as int)[0] == self.functions@[i as int]);
                assert(self.functions@.skip(i as int).drop_first() =~= self.functions@.skip(
                    i + 1,
                ));
            }
            i = i + 1;
        }
        proof {
            assert(self.functions@.skip(i as int).len() == 0);
        }
        None
    }

    /// The port a function's handler serves on; the default when the
    /// function declares none.  Fails exactly on an unknown function.
    pub fn function_handler_port(&self, function_name: &str) -> (r: Result<u16, SentinelError>)
        ensures
            r matches Ok(p) ==> (spec_find_function(self.functions@, function_name@) matches
            Option::Some(f) && p == spec_handler_port(f)),
            r matches Err(e) ==> e is InvalidInput && spec_find_function(
                self.functions@,
                function_name@,
            ) is None,
    {
        match self.get_function(function_name) {
            Some(f) => match f.handler_port {
                Some(p) => Ok(p),
                None => Ok(DEFAULT_FUNCTION_HANDLER_PORT),
            },
            None => {
                let mut msg = String::new();
                msg.append("function ");
                msg.append(function_name);
                msg.append(" not found");
                Err(SentinelError::InvalidInput(msg))
            },
        }
    }

    /// The internal URL of a function on the stack network.  Fails
    /// exactly on an unknown function.
    pub fn internal_function_url(&self, function_name: &str) -> (r: Result<String, SentinelError>)
        ensures
            r matches Ok(u) ==> (spec_find_function(self.functions@, function_name@) matches
            Option::Some(f) && u@ == spec_internal_url(
                self.name@,
                function_name@,
                spec_handler_port(f),
            )),
            r matches Err(e) ==> e is InvalidInput && spec_find_function(
                self.functions@,
                function_name@,
            ) is None,
    {
        let port = match self.function_handler_port(function_name) {
            Ok(p) => p,
            Err(e) => {
                return Err(e);
            },
        };
        Ok(self.internal_url_of(function_name, port))
    }

    /// The internal URL of a function container, given its port.
    pub fn internal_url_of(&self, function_name: &str, port: u16) -> (r: String)
        ensures
            r@ == spec_internal_url(self.name@, function_name@, port as int),
    {
        let mut out = String::new();
        out.append("http://");
        out.append(self.function_container_name(function_name).as_str());
        out.append(":");
        out.append(u64_to_dec(port as u64).as_str());
        out
    }

    /// The health endpoint of a function's internal URL.  Fails exactly
    /// on an unknown function.
    pub fn internal_function_healthcheck_url(&self, function_name: &str) -> (r: Result<
        String,
        SentinelError,
    >)
        ensures
            r matches Ok(u) ==> (spec_find_function(self.functions@, function_name@) matches
            Option::Some(f) && u@ == spec_internal_url(
                self.name@,
                function_name@,
                spec_handler_port(f),
            ) + "/health"@),
            r matches Err(e) ==> e is InvalidInput && spec_find_function(
                self.functions@,
                function_name@,
            ) is None,
    {
        let mut out = match self.internal_function_url(function_name) {
            Ok(u) => u,
            Err(e) => {
                return Err(e);
            },
        };
        out.append("/health");
        Ok(out)
    }

    /// The names of the functions routed over HTTP, in declaration
    /// order.
    pub fn http_functions(&self) -> (r: Vec<String>)
        ensures
            r@.len() == spec_http_functions(self.functions@).len(),
            forall|i: int|
                0 <= i < r@.len() ==> #[trigger] r@[i]@ == spec_http_functions(
                    self.functions@,
                )[i],
    {
        let ghost whole = spec_http_functions(self.functions@);
        proof {
            assert(self.functions@.skip(0) =~= self.functions@);
        }
        let mut out: Vec<String> = Vec::new();
        let mut i: usize = 0;
        while i < self.functions.len()
            invariant
                0 <= i <= self.functions@.len(),
                whole == spec_http_functions(self.functions@),
                out@.len() + spec_http_functions(self.functions@.skip(i as int)).len()
                    == whole.len(),
                forall|j: int| 0 <= j < out@.len() ==> #[trigger] out@[j]@ == whole[j],
                forall|j: int|
                    0 <= j < spec_http_functions(self.functions@.skip(i as int)).len()
                        ==> #[trigger] spec_http_functions(self.functions@.skip(i as int))[j]
                        == whole[out@.len() + j],
            decreases self.functions@.len() - i,
        {
            proof {
                assert(self.functions@.skip(i as int)[0] == self.functions@[i as int]);
                assert(self.functions@.skip(i as int).drop_first() =~= self.functions@.skip(
                    i + 1,
                ));
                if self.functions@[i as int].1.trigger is Http {
                    assert(spec_http_functions(self.functions@.skip(i as int)) =~= seq![
                        self.functions@[i as int].0@,
                    ] + spec_http_functions(self.functions@.skip(i + 1)));
                } else {
                    assert(spec_http_functions(self.functions@.skip(i as int))
                        =~= spec_http_functions(self.functions@.skip(i + 1)));
                }
            }
            match &self.functions[i].1.trigger {
                Trigger::Http { .. } => {
                    out.push(self.functions[i].0.clone());
                },
                _ => {},
            }
            proof {
                let skip_i = spec_http_functions(self.functions@.skip(i as int));
                let skip_n = spec_http_functions(self.functions@.skip(i as int + 1));
                if self.functions@[i as int].1.trigger is Http {
                    assert(skip_i[0] == whole[out@.len() - 1]);
                    assert(out@[out@.len() - 1]@ == whole[out@.len() - 1]);
                    assert forall|j: int| 0 <= j < skip_n.len() implies #[trigger] skip_n[j]
                        == whole[out@.len() + j] by {
                        assert(skip_i[j + 1] == whole[(out@.len() - 1) + (j + 1)]);
                    }
                } else {
                    assert forall|j: int| 0 <= j < skip_n.len() implies #[trigger] skip_n[j]
                        == whole[out@.len() + j] by {
                        assert(skip_i[j] == whole[out@.len() + j]);
                    }
                }
            }
            i = i + 1;
        }
        proof {
            assert(spec_http_functions(self.functions@.skip(i as int)).len() == 0);
        }
        out
    }
}

/// Splits a telemetry endpoint into host and port: the text is trimmed
/// of ASCII whitespace, the part after the last colon must then parse as
/// a port, and an endpoint without a colon gets the default collector
/// port.
pub fn parse_otel_endpoint(endpoint: &str) -> (r: Result<(String, u16), SentinelError>)
    ensures
        ({
            let t = spec_trim(endpoint@);
            match spec_rfind_colon(t) {
                Option::None => r matches Ok(p) && p.0@ == t && p.1 == DEFAULT_OTEL_PORT,
                Option::Some(ci) => {
                    let port_s = t.subrange(ci + 1, t.len() as int);
                    if spec_parse_u16_ok(port_s) {
                        r matches Ok(p) && p.0@ == t.subrange(0, ci) && p.1 == spec_digits_val(
                            spec_port_digits(port_s),
                        )
                    } else {
                        r matches Err(e) && e is InvalidInput
                    }
                },
            }
        }),
{
    let t = trim_ascii(endpoint);
    match rfind_colon(t.as_str()) {
        None => Ok((t, DEFAULT_OTEL_PORT)),
        Some(ci) => {
            let tlen = t.as_str().unicode_len();
            let host = t.as_str().substring_char(0, ci).to_owned();
            let port_str = t.as_str().substring_char(ci + 1, tlen);
            match parse_u16(port_str) {
                Some(p) => Ok((host, p)),
                None => {
                    let mut msg = String::new();
                    msg.append("invalid port in telemetry endpoint: ");
                    msg.append(port_str);
                    Err(SentinelError::InvalidInput(msg))
                },
            }
        },
    }
}

/// First entry under a key in the queue list.
pub open spec fn spec_find_queue(qs: Seq<(String, Queue)>, name: Seq<char>) -> Option<Queue>
    decreases qs.len(),
{
    if qs.len() == 0 {
        Option::None
    } else if qs[0].0@ == name {
        Option::Some(qs[0].1)
    } else {
        spec_find_queue(qs.drop_first(), name)
    }
}

/// First entry under a key in the stream list.
pub open spec fn spec_find_stream(ss: Seq<(String, Stream)>, name: Seq<char>) -> Option<Stream>
    decreases ss.len(),
{
    if ss.len() == 0 {
        Option::None
    } else if ss[0].0@ == name {
        Option::Some(ss[0].1)
    } else {
        spec_find_stream(ss.drop_first(), name)
    }
}

/// One (subject, consumer) pair per subject, in order.
pub open spec fn spec_subject_pairs(subjects: Seq<String>, consumer: Seq<char>) -> Seq<
    (Seq<char>, Seq<char>),
>
    decreases subjects.len(),
{
    if subjects.len() == 0 {
        Seq::empty()
    } else {
        seq![(subjects[0]@, consumer)] + spec_subject_pairs(subjects.drop_first(), consumer)
    }
}

/// The (subject, consumer) pairs one function contributes: a queue
/// trigger subscribes its queue's subject, a stream trigger every
/// subject of its stream; triggers that name an unknown queue or stream
/// contribute nothing, as do HTTP and timer triggers.
pub open spec fn spec_function_subscriptions(
    name: Seq<char>,
    f: Function,
    qs: Seq<(String, Queue)>,
    ss: Seq<(String, Stream)>,
) -> Seq<(Seq<char>, Seq<char>)> {
    match f.trigger {
        Trigger::Queue { queue } => match spec_find_queue(qs, queue@) {
            Option::Some(q) => seq![(q.subject@, name)],
            Option::None => Seq::empty(),
        },
        Trigger::Stream { stream } => match spec_find_stream(ss, stream@) {
            Option::Some(st) => spec_subject_pairs(st.subjects@, name),
            Option::None => Seq::empty(),
        },
        _ => Seq::empty(),
    }
}

/// All (subject, consumer) pairs of the stack, function by function in
/// declaration order.
pub open spec fn spec_subscription_pairs(
    fs: Seq<(String, Function)>,
    qs: Seq<(String, Queue)>,
    ss: Seq<(String, Stream)>,
) -> Seq<(Seq<char>, Seq<char>)>
    decreases fs.len(),
{
    if fs.len() == 0 {
        Seq::empty()
    } else {
        spec_function_subscriptions(fs[0].0@, fs[0].1, qs, ss) + spec_subscription_pairs(
            fs.drop_first(),
            qs,
            ss,
        )
    }
}

impl Config {
    /// First declared queue under this name, if any.
    fn find_queue(&self, name: &String) -> (r: Option<&Queue>)
        ensures
            match r {
                Option::Some(q) => spec_find_queue(self.queues@, name@) == Option::Some(*q),
                Option::None => spec_find_queue(self.queues@, name@) is None,
            },
    {
        proof {
            assert(self.queues@.skip(0) =~= self.queues@);
        }
        let mut i: usize = 0;
        while i < self.queues.len()
            invariant
                0 <= i <= self.queues@.len(),
                spec_find_queue(self.queues@, name@) == spec_find_queue(
                    self.queues@.skip(i as int),
                    name@,
                ),
            decreases self.queues@.len() - i,
        {
            proof {
                assert(self.queues@.skip(i as int)[0] == self.queues@[i as int]);
                assert(self.queues@.skip(i as int).drop_first() =~= self.queues@.skip(i + 1));
            }
            if self.queues[i].0 == *name {
                return Some(&self.queues[i].1);
            }
            i = i + 1;
        }
        proof {
            assert(self.queues@.skip(i as int).len() == 0);
        }
        None
    }

    /// First declared stream under this name, if any.
    fn find_stream(&self, name: &String) -> (r: Option<&Stream>)
        ensures
            match r {
                Option::Some(st) => spec_find_stream(self.streams@, name@) == Option::Some(*st),
                Option::None => spec_find_stream(self.streams@, name@) is None,
            },
    {
        proof {
            assert(self.streams@.skip(0) =~= self.streams@);
        }
        let mut i: usize = 0;
        while i < self.streams.len()
            invariant
                0 <= i <= self.streams@.len(),
                spec_find_stream(self.streams@, name@) == spec_find_stream(
                    self.streams@.skip(i as int),
                    name@,
                ),
            decreases self.streams@.len() - i,
        {
            proof {
                assert(self.streams@.skip(i as int)[0] == self.streams@[i as int]);
                assert(self.streams@.skip(i as int).drop_first() =~= self.streams@.skip(i + 1));
            }
            if self.streams[i].0 == *name {
                return Some(&self.streams[i].1);
            }
            i = i + 1;
        }
        proof {
            assert(self.streams@.skip(i as int).len() == 0);
        }
        None
    }

    /// The (subject, consumer) pairs one declared function contributes.
    fn function_subscriptions(&self, name: &String, f: &Function) -> (r: Vec<(String, String)>)
        ensures
            r@.len() == spec_function_subscriptions(name@, *f, self.queues@, self.streams@).len(),
            forall|j: int|
                0 <= j < r@.len() ==> (#[trigger] r@[j]).0@ == spec_function_subscriptions(
                    name@,
                    *f,
                    self.queues@,
                    self.streams@,
                )[j].0 && r@[j].1@ == spec_function_subscriptions(
                    name@,
                    *f,
                    self.queues@,
                    self.streams@,
                )[j].1,
    {
        let ghost whole = spec_function_subscriptions(name@, *f, self.queues@, self.streams@);
        let mut out: Vec<(String, String)> = Vec::new();
        match &f.trigger {
            Trigger::Queue { queue } => {
                match self.find_queue(queue) {
                    Some(q) => {
                        out.push((q.subject.clone(), name.clone()));
                    },
                    None => {},
                }
            },
            Trigger::Stream { stream } => {
                match self.find_stream(stream) {
                    Some(st) => {
                        let mut j: usize = 0;
                        proof {
                            assert(st.subjects@.skip(0) =~= st.subjects@);
                        }
                        while j < st.subjects.len()
                            invariant
                                0 <= j <= st.subjects@.len(),
                                whole == spec_subject_pairs(st.subjects@, name@),
                                out@.len() + spec_subject_pairs(
                                    st.subjects@.skip(j as int),
                                    name@,
                                ).len() == whole.len(),
                                forall|k: int|
                                    0 <= k < out@.len() ==> (#[trigger] out@[k]).0@ == whole[k].0
                                        && out@[k].1@ == whole[k].1,
                                forall|k: int|
                                    0 <= k < spec_subject_pairs(
                                        st.subjects@.skip(j as int),
                                        name@,
                                    ).len() ==> #[trigger] spec_subject_pairs(
                                        st.subjects@.skip(j as int),
                                        name@,
                                    )[k] == whole[out@.len() + k],
                            decreases st.subjects@.len() - j,
                        {
                            proof {
                                assert(st.subjects@.skip(j as int)[0] == st.subjects@[j as int]);
                                assert(st.subjects@.skip(j as int).drop_first()
                                    =~= st.subjects@.skip(j + 1));
                            }
                            out.push((st.subjects[j].clone(), name.clone()));
                            proof {
                                let skip_j = spec_subject_pairs(st.subjects@.skip(j as int), name@);
                                let skip_n = spec_subject_pairs(
                                    st.subjects@.skip(j as int + 1),
                                    name@,
                                );
                                assert(skip_j[0] == whole[out@.len() - 1]);
                                assert forall|k: int| 0 <= k < skip_n.len() implies #[trigger]
                                skip_n[k] == whole[out@.len() + k] by {
                                    assert(skip_j[k + 1] == whole[(out@.len() - 1) + (k + 1)]);
                                }
                            }
                            j = j + 1;
                        }
                        proof {
                            assert(spec_subject_pairs(st.subjects@.skip(j as int), name@).len()
                                == 0);
                        }
                    },
                    None => {},
                }
            },
            _ => {},
        }
        out
    }

    /// Which consumers each message subject wakes: one (subject,
    /// function name) pair per subscription, in declaration order.
    pub fn get_subscription_config(&self) -> (r: Vec<(String, String)>)
        ensures
            r@.len() == spec_subscription_pairs(self.functions@, self.queues@, self.streams@).len(),
            forall|i: int|
                0 <= i < r@.len() ==> (#[trigger] r@[i]).0@ == spec_subscription_pairs(
                    self.functions@,
                    self.queues@,
                    self.streams@,
                )[i].0 && r@[i].1@ == spec_subscription_pairs(
                    self.functions@,
                    self.queues@,
                    self.streams@,
                )[i].1,
    {
        let ghost whole = spec_subscription_pairs(self.functions@, self.queues@, self.streams@);
        proof {
            assert(self.functions@.skip(0) =~= self.functions@);
        }
        let mut out: Vec<(String, String)> = Vec::new();
        let mut i: usize = 0;
        while i < self.functions.len()
            invariant
                0 <= i <= self.functions@.len(),
                whole == spec_subscription_pairs(self.functions@, self.queues@, self.streams@),
                out@.len() + spec_subscription_pairs(
                    self.functions@.skip(i as int),
                    self.queues@,
                    self.streams@,
                ).len() == whole.len(),
                forall|k: int|
                    0 <= k < out@.len() ==> (#[trigger] out@[k]).0@ == whole[k].0 && out@[k].1@
                        == whole[k].1,
                forall|k: int|
                    0 <= k < spec_subscription_pairs(
                        self.functions@.skip(i as int),
                        self.queues@,
                        self.streams@,
                    ).len() ==> #[trigger] spec_subscription_pairs(
                        self.functions@.skip(i as int),
                        self.queues@,
                        self.streams@,
                    )[k] == whole[out@.len() + k],
            decreases self.functions@.len() - i,
        {
            proof {
                assert(self.functions@.skip(i as int)[0] == self.functions@[i as int]);
                assert(self.functions@.skip(i as int).drop_first() =~= self.functions@.skip(
                    i + 1,
                ));
            }
            let ghost before = out@.len();
            let ghost part = spec_function_subscriptions(
                self.functions@[i as int].0@,
                self.functions@[i as int].1,
                self.queues@,
                self.streams@,
            );
            let mut chunk = self.function_subscriptions(&self.functions[i].0, &self.functions[i].1);
            out.append(&mut chunk);
            proof {
                let skip_i = spec_subscription_pairs(
                    self.functions@.skip(i as int),
                    self.queues@,
                    self.streams@,
                );
                let skip_n = spec_subscription_pairs(
                    self.functions@.skip(i as int + 1),
                    self.queues@,
                    self.streams@,
                );
                assert(skip_i == part + skip_n);
                assert forall|k: int| 0 <= k < out@.len() implies (#[trigger] out@[k]).0@
                    == whole[k].0 && out@[k].1@ == whole[k].1 by {
                    if k >= before {
                        assert(skip_i[k - before] == whole[before + (k - before)]);
                        assert(part[k - before] == skip_i[k - before]);
                        assert(out@[k].0@ == part[k - before].0 && out@[k].1@ == part[
                            k - before].1);
                    }
                }
                assert forall|k: int| 0 <= k < skip_n.len() implies #[trigger] skip_n[k]
                    == whole[out@.len() + k] by {
                    assert(skip_i[part.len() + k] == whole[before + part.len() + k]);
                    assert(skip_n[k] == skip_i[part.len() + k]);
                }
            }
            i = i + 1;
        }
        proof {
            assert(spec_subscription_pairs(
                self.functions@.skip(i as int),
                self.queues@,
                self.streams@,
            ).len() == 0);
        }
        out
    }
}

} // verus!
