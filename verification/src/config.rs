//! The configuration of the proxy and its validation.
//!
//! A configuration is checked in a fixed order, and the first fault found
//! is the one reported: the version; then each upstream's URL, in order;
//! then each upstream's name; then each server, in order, and within a
//! server its client limit, its listen addresses, the upstreams that its
//! server names refer to, and its default upstream.

use vstd::prelude::*;
use vstd::string::*;
use crate::first::{first_of, lemma_first_stays, lemma_none_found};
use crate::text::{owned, same_text};
use crate::upstream::{ProxyToUpstream, Upstream, UrlFault, parsed_url, parts_fault, upstream_of_parts};

verus! {

/// The only configuration version that is understood.
pub const SUPPORTED_VERSION: i32 = 1;

/// Chaining through an upstream HTTP proxy. An empty target switches it off.
#[derive(Debug, Default, Clone)]
pub struct ViaUpstream {
    /// The headers that are sent to the upstream proxy, in order.
    pub headers: Vec<(String, String)>,
    /// Host and port that the upstream proxy is asked to connect to.
    pub target: String,
    /// The time allowed for connecting to the upstream, in milliseconds.
    pub connect_timeout: u64,
}

/// One server entry: one or more listeners with a common routing.
#[derive(Debug, Default, Clone)]
pub struct ServerConfig {
    pub listen: Vec<String>,
    pub protocol: Option<String>,
    pub tls: Option<bool>,
    /// Server name and upstream name, in the order of the configuration.
    pub sni: Option<Vec<(String, String)>>,
    pub default: Option<String>,
    pub via: ViaUpstream,
    pub maxclients: usize,
}

/// The configuration as it was written: upstreams are still URLs.
#[derive(Debug, Default, Clone)]
pub struct BaseConfig {
    pub version: i32,
    pub log: Option<String>,
    pub servers: Vec<(String, ServerConfig)>,
    pub upstream: Vec<(String, String)>,
    pub via: ViaUpstream,
}

/// A checked configuration: the upstreams are parsed, and the reserved
/// ones stand before them.
#[derive(Debug, Clone)]
pub struct ParsedConfigV1 {
    pub version: i32,
    pub log: Option<String>,
    pub servers: Vec<(String, ServerConfig)>,
    pub upstream: Vec<(String, Upstream)>,
}

/// A configuration that passed every check.
#[derive(Debug, Clone)]
pub struct ConfigV1 {
    pub base: ParsedConfigV1,
}

/// Why a configuration is refused.
#[derive(Debug, Clone, PartialEq, Eq)]
pub enum ConfigError {
    UnsupportedVersion,
    InvalidUpstreamUrl(String),
    InvalidUpstreamScheme(String),
    DuplicateUpstreamName(String),
    DuplicateListenAddress(String),
    UpstreamNotFound(String),
    InvalidMaxClients(String),
}

/// A `ConfigError` as a plain value.
pub enum Fault {
    UnsupportedVersion,
    InvalidUpstreamUrl(Seq<char>),
    InvalidUpstreamScheme(Seq<char>),
    DuplicateUpstreamName(Seq<char>),
    DuplicateListenAddress(Seq<char>),
    UpstreamNotFound(Seq<char>),
    InvalidMaxClients(Seq<char>),
}

impl View for ConfigError {
    type V = Fault;

    open spec fn view(&self) -> Fault {
        match self {
            ConfigError::UnsupportedVersion => Fault::UnsupportedVersion,
            ConfigError::InvalidUpstreamUrl(s) => Fault::InvalidUpstreamUrl(s@),
            ConfigError::InvalidUpstreamScheme(s) => Fault::InvalidUpstreamScheme(s@),
            ConfigError::DuplicateUpstreamName(s) => Fault::DuplicateUpstreamName(s@),
            ConfigError::DuplicateListenAddress(s) => Fault::DuplicateListenAddress(s@),
            ConfigError::UpstreamNotFound(s) => Fault::UpstreamNotFound(s@),
            ConfigError::InvalidMaxClients(s) => Fault::InvalidMaxClients(s@),
        }
    }
}

/// `a` if it is a fault, else `b`.
pub open spec fn or_else(a: Option<Fault>, b: Option<Fault>) -> Option<Fault> {
    if a.is_some() {
        a
    } else {
        b
    }
}

/// Whether `name` is one of the upstreams that are always there.
pub open spec fn is_reserved(name: Seq<char>) -> bool {
    name == "ban"@ || name == "echo"@ || name == "health"@
}

/// The fault of the upstream URL `url`, if it has one.
pub open spec fn url_fault(url: Seq<char>) -> Option<Fault> {
    match parts_fault(parsed_url(url)) {
        None => None,
        Some(UrlFault::Invalid) => Some(Fault::InvalidUpstreamUrl(url)),
        Some(UrlFault::Scheme) => Some(Fault::InvalidUpstreamScheme(url)),
    }
}

/// For each upstream, the fault of its URL.
pub open spec fn url_faults(ups: Seq<(String, String)>) -> spec_fn(int) -> Option<Fault> {
    |i: int| url_fault(ups[i].1@)
}

/// Whether the name of upstream `i` is reserved or is that of an earlier
/// upstream.
pub open spec fn name_taken(ups: Seq<(String, String)>, i: int) -> bool {
    is_reserved(ups[i].0@) || exists|j: int| 0 <= j < i && (#[trigger] ups[j]).0@ == ups[i].0@
}

/// For each upstream, the fault of its name: it is reserved or taken.
pub open spec fn name_faults(ups: Seq<(String, String)>) -> spec_fn(int) -> Option<Fault> {
    |i: int|
        if name_taken(ups, i) {
            Some(Fault::DuplicateUpstreamName(ups[i].0@))
        } else {
            None
        }
}

/// Whether `name` is a reserved upstream or one of `ups`.
pub open spec fn known_upstream(ups: Seq<(String, String)>, name: Seq<char>) -> bool {
    is_reserved(name) || exists|j: int| 0 <= j < ups.len() && (#[trigger] ups[j]).0@ == name
}

/// Whether `addr` is among the first `upto` listen addresses of `sc`.
pub open spec fn listed(sc: ServerConfig, upto: int, addr: Seq<char>) -> bool {
    exists|k: int| 0 <= k < upto && k < sc.listen@.len() && (#[trigger] sc.listen@[k])@ == addr
}

/// Whether listen address `k` of server `s` stands earlier in the
/// configuration as well: in an earlier server, or earlier in the same.
pub open spec fn listed_before(servers: Seq<(String, ServerConfig)>, s: int, k: int) -> bool {
    let addr = servers[s].1.listen@[k]@;
    listed(servers[s].1, k, addr) || exists|t: int|
        0 <= t < s && listed((#[trigger] servers[t]).1, servers[t].1.listen@.len() as int, addr)
}

/// For each listen address of server `s`, the fault that it was used
/// before.
pub open spec fn listen_faults(servers: Seq<(String, ServerConfig)>, s: int) -> spec_fn(
    int,
) -> Option<Fault> {
    |k: int|
        if listed_before(servers, s, k) {
            Some(Fault::DuplicateListenAddress(servers[s].1.listen@[k]@))
        } else {
            None
        }
}

/// The server-name routes of a server; none where it has no table.
pub open spec fn sni_pairs(sc: ServerConfig) -> Seq<(String, String)> {
    match sc.sni {
        Some(m) => m@,
        None => Seq::empty(),
    }
}

/// For each server-name route of `sc`, the fault that its upstream is
/// unknown.
pub open spec fn sni_faults(ups: Seq<(String, String)>, sc: ServerConfig) -> spec_fn(
    int,
) -> Option<Fault> {
    |k: int|
        if known_upstream(ups, sni_pairs(sc)[k].1@) {
            None
        } else {
            Some(Fault::UpstreamNotFound(sni_pairs(sc)[k].1@))
        }
}

/// The fault that the default upstream of `sc` is unknown.
pub open spec fn default_fault(ups: Seq<(String, String)>, sc: ServerConfig) -> Option<Fault> {
    match sc.default {
        Some(d) => if known_upstream(ups, d@) {
            None
        } else {
            Some(Fault::UpstreamNotFound(d@))
        },
        None => None,
    }
}

/// The first fault of server `s`: a client limit of zero, a listen address
/// used before, a server name routed to an unknown upstream, an unknown
/// default upstream.
pub open spec fn server_fault(
    ups: Seq<(String, String)>,
    servers: Seq<(String, ServerConfig)>,
    s: int,
) -> Option<Fault> {
    let sc = servers[s].1;
    if sc.maxclients == 0 {
        Some(Fault::InvalidMaxClients(servers[s].0@))
    } else {
        or_else(
            first_of(listen_faults(servers, s), sc.listen@.len() as int),
            or_else(
                first_of(sni_faults(ups, sc), sni_pairs(sc).len() as int),
                default_fault(ups, sc),
            ),
        )
    }
}

/// For each server, its first fault.
pub open spec fn server_faults(
    ups: Seq<(String, String)>,
    servers: Seq<(String, ServerConfig)>,
) -> spec_fn(int) -> Option<Fault> {
    |s: int| server_fault(ups, servers, s)
}

/// The fault for which `base` is refused; `None` for a valid configuration.
pub open spec fn config_fault(base: BaseConfig) -> Option<Fault> {
    if base.version != SUPPORTED_VERSION {
        Some(Fault::UnsupportedVersion)
    } else {
        or_else(
            first_of(url_faults(base.upstream@), base.upstream@.len() as int),
            or_else(
                first_of(name_faults(base.upstream@), base.upstream@.len() as int),
                first_of(
                    server_faults(base.upstream@, base.servers@),
                    base.servers@.len() as int,
                ),
            ),
        )
    }
}

/// Whether `reg` is the registry of the upstreams `ups`: the reserved
/// upstreams `ban`, `echo` and `health`, then one proxied upstream for each
/// of `ups`, under its name and in its place.
pub open spec fn registry_of(reg: Seq<(String, Upstream)>, ups: Seq<(String, String)>) -> bool {
    &&& reg.len() == ups.len() + 3
    &&& reg[0].0@ == "ban"@ && reg[0].1 is Ban
    &&& reg[1].0@ == "echo"@ && reg[1].1 is Echo
    &&& reg[2].0@ == "health"@ && reg[2].1 is Health
    &&& forall|i: int|
        0 <= i < ups.len() ==> {
            &&& (#[trigger] reg[i + 3]).0@ == ups[i].0@
            &&& reg[i + 3].1 matches Upstream::Proxy(p) && upstream_of_parts(
                p,
                parsed_url(ups[i].1@).unwrap(),
            ) && p.addresses.wf()
        }
}

/// Whether `name` is `ban`, `echo` or `health`.
pub fn is_reserved_name(name: &str) -> (r: bool)
    ensures
        r == is_reserved(name@),
{
    same_text(name, "ban") || same_text(name, "echo") || same_text(name, "health")
}

fn name_is_taken(ups: &Vec<(String, String)>, i: usize) -> (r: bool)
    requires
        i < ups@.len(),
    ensures
        r == name_taken(ups@, i as int),
{
    if is_reserved_name(ups[i].0.as_str()) {
        return true;
    }
    let mut j: usize = 0;
    while j < i
        invariant
            j <= i < ups@.len(),
            !is_reserved(ups@[i as int].0@),
            forall|t: int| 0 <= t < j ==> (#[trigger] ups@[t]).0@ != ups@[i as int].0@,
        decreases i - j,
    {
        if same_text(ups[j].0.as_str(), ups[i].0.as_str()) {
            return true;
        }
        j = j + 1;
    }
    false
}

/// Whether `name` is a reserved upstream or one of `ups`.
pub fn is_known_upstream(ups: &Vec<(String, String)>, name: &str) -> (r: bool)
    ensures
        r == known_upstream(ups@, name@),
{
    if is_reserved_name(name) {
        return true;
    }
    let mut j: usize = 0;
    while j < ups.len()
        invariant
            j <= ups@.len(),
            !is_reserved(name@),
            forall|t: int| 0 <= t < j ==> (#[trigger] ups@[t]).0@ != name@,
        decreases ups@.len() - j,
    {
        if same_text(ups[j].0.as_str(), name) {
            return true;
        }
        j = j + 1;
    }
    false
}

fn is_listed(sc: &ServerConfig, upto: usize, addr: &str) -> (r: bool)
    ensures
        r == listed(*sc, upto as int, addr@),
{
    let mut k: usize = 0;
    while k < upto && k < sc.listen.len()
        invariant
            forall|t: int|
                0 <= t < k && t < sc.listen@.len() ==> (#[trigger] sc.listen@[t])@ != addr@,
        decreases upto - k,
    {
        if same_text(sc.listen[k].as_str(), addr) {
            return true;
        }
        k = k + 1;
    }
    false
}

fn is_listed_before(servers: &Vec<(String, ServerConfig)>, s: usize, k: usize) -> (r: bool)
    requires
        s < servers@.len(),
        k < servers@[s as int].1.listen@.len(),
    ensures
        r == listed_before(servers@, s as int, k as int),
{
    let addr: &str = servers[s].1.listen[k].as_str();
    if is_listed(&servers[s].1, k, addr) {
        return true;
    }
    let mut t: usize = 0;
    while t < s
        invariant
            t <= s < servers@.len(),
            addr@ == servers@[s as int].1.listen@[k as int]@,
            !listed(servers@[s as int].1, k as int, addr@),
            forall|u: int|
                0 <= u < t ==> !listed(
                    (#[trigger] servers@[u]).1,
                    servers@[u].1.listen@.len() as int,
                    addr@,
                ),
        decreases s - t,
    {
        if is_listed(&servers[t].1, servers[t].1.listen.len(), addr) {
            return true;
        }
        t = t + 1;
    }
    false
}

/// The first fault of server `s`, if it has one.
pub fn check_server(ups: &Vec<(String, String)>, servers: &Vec<(String, ServerConfig)>, s: usize) -> (r:
    Option<ConfigError>)
    requires
        s < servers@.len(),
    ensures
        r.is_some() == server_fault(ups@, servers@, s as int).is_some(),
        r matches Some(e) ==> Some(e@) == server_fault(ups@, servers@, s as int),
{
    let sc: &ServerConfig = &servers[s].1;
    if sc.maxclients == 0 {
        return Some(ConfigError::InvalidMaxClients(owned(servers[s].0.as_str())));
    }
    let ghost lf = listen_faults(servers@, s as int);
    let mut k: usize = 0;
    while k < sc.listen.len()
        invariant
            k <= sc.listen@.len(),
            s < servers@.len(),
            *sc == servers@[s as int].1,
            sc.maxclients != 0,
            lf == listen_faults(servers@, s as int),
            first_of(lf, k as int).is_none(),
        decreases sc.listen@.len() - k,
    {
        if is_listed_before(servers, s, k) {
            proof {
                assert(first_of(lf, k + 1) == lf(k as int));
                lemma_first_stays(lf, k + 1, sc.listen@.len() as int);
            }
            return Some(ConfigError::DuplicateListenAddress(owned(sc.listen[k].as_str())));
        }
        k = k + 1;
    }
    let ghost sf = sni_faults(ups@, *sc);
    match &sc.sni {
        Some(pairs) => {
            let mut k: usize = 0;
            while k < pairs.len()
                invariant
                    k <= pairs@.len(),
                    pairs@ == sni_pairs(*sc),
                    s < servers@.len(),
                    *sc == servers@[s as int].1,
                    sc.maxclients != 0,
                    first_of(lf, sc.listen@.len() as int).is_none(),
                    lf == listen_faults(servers@, s as int),
                    sf == sni_faults(ups@, *sc),
                    first_of(sf, k as int).is_none(),
                decreases pairs@.len() - k,
            {
                if !is_known_upstream(ups, pairs[k].1.as_str()) {
                    proof {
                        assert(first_of(sf, k + 1) == sf(k as int));
                        lemma_first_stays(sf, k + 1, pairs@.len() as int);
                    }
                    return Some(ConfigError::UpstreamNotFound(owned(pairs[k].1.as_str())));
                }
                k = k + 1;
            }
        },
        None => {},
    }
    match &sc.default {
        Some(d) => {
            if !is_known_upstream(ups, d.as_str()) {
                return Some(ConfigError::UpstreamNotFound(owned(d.as_str())));
            }
        },
        None => {},
    }
    None
}

/// The registry for the upstreams `ups`, or the fault of the first URL
/// that names no upstream.
pub fn build_registry(ups: &Vec<(String, String)>) -> (r: Result<Vec<(String, Upstream)>, ConfigError>)
    ensures
        r.is_ok() == first_of(url_faults(ups@), ups@.len() as int).is_none(),
        r matches Ok(reg) ==> registry_of(reg@, ups@),
        r matches Err(e) ==> Some(e@) == first_of(url_faults(ups@), ups@.len() as int),
{
    let mut reg: Vec<(String, Upstream)> = Vec::new();
    reg.push((owned("ban"), Upstream::Ban));
    reg.push((owned("echo"), Upstream::Echo));
    reg.push((owned("health"), Upstream::Health));
    let ghost uf = url_faults(ups@);
    let mut i: usize = 0;
    while i < ups.len()
        invariant
            i <= ups@.len(),
            uf == url_faults(ups@),
            first_of(uf, i as int).is_none(),
            registry_of(reg@, ups@.take(i as int)),
        decreases ups@.len() - i,
    {
        let url: &str = ups[i].1.as_str();
        match ProxyToUpstream::from_url(url) {
            Ok(p) => {
                let ghost before = reg@;
                reg.push((owned(ups[i].0.as_str()), Upstream::Proxy(p)));
                proof {
                    assert forall|j: int| 0 <= j < i + 1 implies {
                        &&& (#[trigger] reg@[j + 3]).0@ == ups@.take(i + 1)[j].0@
                        &&& reg@[j + 3].1 matches Upstream::Proxy(q) && upstream_of_parts(
                            q,
                            parsed_url(ups@.take(i + 1)[j].1@).unwrap(),
                        ) && q.addresses.wf()
                    } by {
                        if j < i {
                            assert(reg@[j + 3] == before[j + 3]);
                            assert(ups@.take(i as int)[j] == ups@.take(i + 1)[j]);
                        }
                    }
                }
            },
            Err(UrlFault::Invalid) => {
                proof {
                    lemma_first_stays(uf, i + 1, ups@.len() as int);
                }
                return Err(ConfigError::InvalidUpstreamUrl(owned(url)));
            },
            Err(UrlFault::Scheme) => {
                proof {
                    lemma_first_stays(uf, i + 1, ups@.len() as int);
                }
                return Err(ConfigError::InvalidUpstreamScheme(owned(url)));
            },
        }
        i = i + 1;
    }
    proof {
        assert(ups@.take(ups@.len() as int) =~= ups@);
    }
    Ok(reg)
}

/// The first upstream whose name is reserved or used before, as a fault.
pub fn check_names(ups: &Vec<(String, String)>) -> (r: Option<ConfigError>)
    ensures
        r.is_some() == first_of(name_faults(ups@), ups@.len() as int).is_some(),
        r matches Some(e) ==> Some(e@) == first_of(name_faults(ups@), ups@.len() as int),
{
    let ghost nf = name_faults(ups@);
    let mut i: usize = 0;
    while i < ups.len()
        invariant
            i <= ups@.len(),
            nf == name_faults(ups@),
            first_of(nf, i as int).is_none(),
        decreases ups@.len() - i,
    {
        if name_is_taken(ups, i) {
            proof {
                lemma_first_stays(nf, i + 1, ups@.len() as int);
            }
            return Some(ConfigError::DuplicateUpstreamName(owned(ups[i].0.as_str())));
        }
        i = i + 1;
    }
    None
}

/// The first fault among the servers, in their order.
pub fn check_servers(ups: &Vec<(String, String)>, servers: &Vec<(String, ServerConfig)>) -> (r:
    Option<ConfigError>)
    ensures
        r.is_some() == first_of(server_faults(ups@, servers@), servers@.len() as int).is_some(),
        r matches Some(e) ==> Some(e@) == first_of(
            server_faults(ups@, servers@),
            servers@.len() as int,
        ),
{
    let ghost sf = server_faults(ups@, servers@);
    let mut s: usize = 0;
    while s < servers.len()
        invariant
            s <= servers@.len(),
            sf == server_faults(ups@, servers@),
            first_of(sf, s as int).is_none(),
        decreases servers@.len() - s,
    {
        match check_server(ups, servers, s) {
            Some(e) => {
                proof {
                    lemma_first_stays(sf, s + 1, servers@.len() as int);
                }
                return Some(e);
            },
            None => {},
        }
        s = s + 1;
    }
    None
}

/// The level to log at: the one configured, `info` where none is; nothing
/// where logging is switched off with `disable`.
pub fn log_level(log: &Option<String>) -> (level: Option<String>)
    ensures
        log.is_none() ==> level.is_some() && level.unwrap()@ == "info"@,
        log matches Some(l) ==> (if l@ == "disable"@ {
            level.is_none()
        } else {
            level.is_some() && level.unwrap()@ == l@
        }),
{
    match log {
        None => Some(owned("info")),
        Some(l) => if same_text(l.as_str(), "disable") {
            None
        } else {
            Some(owned(l.as_str()))
        },
    }
}

impl ConfigV1 {
    /// Checks a configuration and parses its upstreams. Succeeds exactly
    /// on a configuration without a fault; otherwise the error is the first
    /// fault in the order of the checks.
    pub fn new(base: BaseConfig) -> (r: Result<ConfigV1, ConfigError>)
        ensures
            r.is_ok() == config_fault(base).is_none(),
            r matches Err(e) ==> Some(e@) == config_fault(base),
            r matches Ok(c) ==> {
                &&& c.base.version == base.version
                &&& c.base.log == base.log
                &&& c.base.servers == base.servers
                &&& registry_of(c.base.upstream@, base.upstream@)
            },
    {
        if base.version != SUPPORTED_VERSION {
            return Err(ConfigError::UnsupportedVersion);
        }
        let registry = match build_registry(&base.upstream) {
            Ok(reg) => reg,
            Err(e) => {
                return Err(e);
            },
        };
        match check_names(&base.upstream) {
            Some(e) => {
                return Err(e);
            },
            None => {},
        }
        match check_servers(&base.upstream, &base.servers) {
            Some(e) => {
                return Err(e);
            },
            None => {},
        }
        Ok(
            ConfigV1 {
                base: ParsedConfigV1 {
                    version: base.version,
                    log: base.log,
                    servers: base.servers,
                    upstream: registry,
                },
            },
        )
    }
}

/// The text of a fault as plain values.
pub open spec fn fault_text(f: Fault) -> Seq<char> {
    match f {
        Fault::UnsupportedVersion => "Unsupported config version"@,
        Fault::InvalidUpstreamUrl(u) => "Invalid upstream url "@ + u,
        Fault::InvalidUpstreamScheme(u) => "Invalid upstream scheme "@ + u,
        Fault::DuplicateUpstreamName(n) => "Duplicate upstream name "@ + n,
        Fault::DuplicateListenAddress(a) => "Duplicate listen address "@ + a,
        Fault::UpstreamNotFound(n) => "Upstream "@ + n + " not found"@,
        Fault::InvalidMaxClients(n) => "Invalid maxclients for server "@ + n,
    }
}

impl ConfigError {
    /// The error in words.
    pub fn message(&self) -> (msg: String)
        ensures
            msg@ == fault_text(self@),
    {
        match self {
            ConfigError::UnsupportedVersion => owned("Unsupported config version"),
            ConfigError::InvalidUpstreamUrl(u) => {
                let mut msg: String = owned("Invalid upstream url ");
                msg.append(u.as_str());
                msg
            },
            ConfigError::InvalidUpstreamScheme(u) => {
                let mut msg: String = owned("Invalid upstream scheme ");
                msg.append(u.as_str());
                msg
            },
            ConfigError::DuplicateUpstreamName(n) => {
                let mut msg: String = owned("Duplicate upstream name ");
                msg.append(n.as_str());
                msg
            },
            ConfigError::DuplicateListenAddress(a) => {
                let mut msg: String = owned("Duplicate listen address ");
                msg.append(a.as_str());
                msg
            },
            ConfigError::UpstreamNotFound(n) => {
                let mut msg: String = owned("Upstream ");
                msg.append(n.as_str());
                msg.append(" not found");
                msg
            },
            ConfigError::InvalidMaxClients(n) => {
                let mut msg: String = owned("Invalid maxclients for server ");
                msg.append(n.as_str());
                msg
            },
        }
    }
}

/// In a valid configuration no listen address stands twice: not in two
/// servers, and not twice in one.
pub proof fn lemma_valid_config_listens_once(base: BaseConfig, s: int, k: int, t: int, j: int)
    requires
        config_fault(base).is_none(),
        0 <= s < base.servers@.len(),
        0 <= k < base.servers@[s].1.listen@.len(),
        0 <= t < base.servers@.len(),
        0 <= j < base.servers@[t].1.listen@.len(),
        t < s || (t == s && j < k),
    ensures
        base.servers@[s].1.listen@[k]@ != base.servers@[t].1.listen@[j]@,
{
    let servers = base.servers@;
    let sc = servers[s].1;
    lemma_none_found(server_faults(base.upstream@, servers), servers.len() as int, s);
    lemma_none_found(listen_faults(servers, s), sc.listen@.len() as int, k);
    assert(!listed_before(servers, s, k));
    let addr = sc.listen@[k]@;
    if servers[t].1.listen@[j]@ == addr {
        if t == s {
            assert(listed(sc, k, addr));
        } else {
            assert(listed(servers[t].1, servers[t].1.listen@.len() as int, addr));
        }
    }
}

/// In a valid configuration no upstream has a reserved name, and no two
/// upstreams have the same name.
pub proof fn lemma_valid_config_names_once(base: BaseConfig, i: int, j: int)
    requires
        config_fault(base).is_none(),
        0 <= j < i < base.upstream@.len(),
    ensures
        !is_reserved(base.upstream@[i].0@),
        !is_reserved(base.upstream@[j].0@),
        base.upstream@[i].0@ != base.upstream@[j].0@,
{
    let ups = base.upstream@;
    lemma_none_found(name_faults(ups), ups.len() as int, i);
    lemma_none_found(name_faults(ups), ups.len() as int, j);
    assert(!name_taken(ups, i));
    assert(!name_taken(ups, j));
}

/// A valid configuration has the supported version, every upstream URL
/// names an upstream, and every server has at least one permit.
pub proof fn lemma_valid_config_is_sound(base: BaseConfig, i: int, s: int)
    requires
        config_fault(base).is_none(),
    ensures
        base.version == SUPPORTED_VERSION,
        0 <= i < base.upstream@.len() ==> parts_fault(parsed_url(base.upstream@[i].1@)).is_none(),
        0 <= s < base.servers@.len() ==> base.servers@[s].1.maxclients > 0,
{
    if 0 <= i < base.upstream@.len() {
        lemma_none_found(url_faults(base.upstream@), base.upstream@.len() as int, i);
    }
    if 0 <= s < base.servers@.len() {
        lemma_none_found(
            server_faults(base.upstream@, base.servers@),
            base.servers@.len() as int,
            s,
        );
    }
}

} // verus!
