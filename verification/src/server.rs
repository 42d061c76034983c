//! The listeners of a server, made from a checked configuration, and what
//! a listener does with an accepted connection.

use vstd::prelude::*;
use vstd::string::*;
use crate::config::{BaseConfig, ParsedConfigV1, ServerConfig, ViaUpstream, config_fault, known_upstream, registry_of, server_fault, server_faults, sni_faults, sni_pairs};
use crate::first::{first_of, lemma_first_exists, lemma_first_stays, lemma_none_found};
use crate::listener::AcceptLoop;
use crate::resolver::SocketAddress;
use crate::routing::{Dispatch, chosen_upstream, dispatch, dispatched, pair_views, position_of, positions, route_connection, table_view};
use crate::sni::{sni_names, PEEK_LEN};
use crate::text::{owned, same_text};
use crate::upstream::{Upstream, is_supported_protocol, supported_scheme};

verus! {

/// One listening endpoint with its routing.
#[derive(Debug, Clone)]
pub struct Proxy {
    pub name: String,
    pub listen: SocketAddress,
    pub protocol: String,
    /// Whether the client's TLS hello is looked at for routing.
    pub tls: bool,
    pub sni: Option<Vec<(String, String)>>,
    /// The name of the default upstream.
    pub default_action: String,
    pub via: ViaUpstream,
    pub maxclients: usize,
}

/// All listeners, and the registry of upstreams that they share.
#[derive(Debug, Clone)]
pub struct Server {
    pub proxies: Vec<Proxy>,
    pub upstream: Vec<(String, Upstream)>,
}

/// How a connection is served.
#[derive(Debug, Clone, Copy, PartialEq, Eq, Structural)]
pub enum Handling {
    /// Shut the write side down and close.
    Shutdown,
    /// Copy what the client sends back to it.
    Echo,
    /// Serve the health endpoint.
    Health,
    /// Relay to the upstream; `chained` says whether an upstream proxy is
    /// asked for a tunnel first.
    Relay { chained: bool },
}

/// A chaining configuration as plain values.
pub open spec fn via_view(via: ViaUpstream) -> (Seq<(Seq<char>, Seq<char>)>, Seq<char>, u64) {
    (pair_views(via.headers@), via.target@, via.connect_timeout)
}

/// The protocol of a server: `tcp` where none is given.
pub open spec fn protocol_of(sc: ServerConfig) -> Seq<char> {
    match sc.protocol {
        Some(p) => p@,
        None => "tcp"@,
    }
}

/// The default upstream of a server: `ban` where none is given.
pub open spec fn default_of(sc: ServerConfig) -> Seq<char> {
    match sc.default {
        Some(d) => d@,
        None => "ban"@,
    }
}

/// Whether `p` is the listener of the server `sc`, called `name`, at the
/// address `addr`.
pub open spec fn describes(p: Proxy, name: Seq<char>, sc: ServerConfig, addr: SocketAddress) -> bool {
    &&& p.name@ == name
    &&& p.listen == addr
    &&& p.protocol@ == protocol_of(sc)
    &&& p.tls == (sc.tls == Some(true))
    &&& table_view(p.sni) == table_view(sc.sni)
    &&& p.default_action@ == default_of(sc)
    &&& via_view(p.via) == via_view(sc.via)
    &&& p.maxclients == sc.maxclients
}

/// For each entry of `listens`, its socket address if its text is `text`.
pub open spec fn addresses(listens: Seq<(String, SocketAddress)>, text: Seq<char>) -> spec_fn(
    int,
) -> Option<SocketAddress> {
    |i: int|
        if listens[i].0@ == text {
            Some(listens[i].1)
        } else {
            None
        }
}

/// The socket address that `listens` gives for the text `text`: that of
/// its first entry for it.
pub open spec fn address_of(listens: Seq<(String, SocketAddress)>, text: Seq<char>) -> Option<
    SocketAddress,
> {
    first_of(addresses(listens, text), listens.len() as int)
}

/// The first `k` listen addresses of server `s` that have a socket
/// address, each as the pair of `s` and its index.
pub open spec fn server_slots(
    sc: ServerConfig,
    listens: Seq<(String, SocketAddress)>,
    s: int,
    k: int,
) -> Seq<(int, int)>
    decreases k,
{
    if k <= 0 {
        Seq::empty()
    } else {
        let before = server_slots(sc, listens, s, k - 1);
        if address_of(listens, sc.listen@[k - 1]@).is_some() {
            before.push((s, k - 1))
        } else {
            before
        }
    }
}

/// The listen addresses of the first `s` servers that have a socket
/// address, in the order of the configuration.
pub open spec fn slots(
    servers: Seq<(String, ServerConfig)>,
    listens: Seq<(String, SocketAddress)>,
    s: int,
) -> Seq<(int, int)>
    decreases s,
{
    if s <= 0 {
        Seq::empty()
    } else {
        slots(servers, listens, s - 1) + server_slots(
            servers[s - 1].1,
            listens,
            s - 1,
            servers[s - 1].1.listen@.len() as int,
        )
    }
}

/// Whether `proxies` holds one listener for each of `want`, in order.
pub open spec fn built_from(
    proxies: Seq<Proxy>,
    servers: Seq<(String, ServerConfig)>,
    listens: Seq<(String, SocketAddress)>,
    want: Seq<(int, int)>,
) -> bool {
    &&& proxies.len() == want.len()
    &&& forall|i: int|
        0 <= i < want.len() ==> describes(
            #[trigger] proxies[i],
            servers[want[i].0].0@,
            servers[want[i].0].1,
            address_of(listens, servers[want[i].0].1.listen@[want[i].1]@).unwrap(),
        )
}

/// A copy of a table of pairs of strings.
pub fn copy_pairs(v: &Vec<(String, String)>) -> (r: Vec<(String, String)>)
    ensures
        pair_views(r@) == pair_views(v@),
{
    let mut r: Vec<(String, String)> = Vec::new();
    let mut i: usize = 0;
    while i < v.len()
        invariant
            i <= v@.len(),
            r@.len() == i,
            forall|j: int| 0 <= j < i ==> (#[trigger] r@[j]).0@ == v@[j].0@ && r@[j].1@ == v@[j].1@,
        decreases v@.len() - i,
    {
        r.push((owned(v[i].0.as_str()), owned(v[i].1.as_str())));
        i = i + 1;
    }
    proof {
        assert(pair_views(r@) =~= pair_views(v@));
    }
    r
}

/// A copy of a chaining configuration.
pub fn copy_via(via: &ViaUpstream) -> (r: ViaUpstream)
    ensures
        via_view(r) == via_view(*via),
{
    ViaUpstream {
        headers: copy_pairs(&via.headers),
        target: owned(via.target.as_str()),
        connect_timeout: via.connect_timeout,
    }
}

/// The socket address that `listens` gives for `text`.
pub fn find_address(listens: &Vec<(String, SocketAddress)>, text: &str) -> (r: Option<SocketAddress>)
    ensures
        r == address_of(listens@, text@),
{
    let ghost f = addresses(listens@, text@);
    let mut i: usize = 0;
    while i < listens.len()
        invariant
            i <= listens@.len(),
            f == addresses(listens@, text@),
            first_of(f, i as int).is_none(),
        decreases listens@.len() - i,
    {
        if same_text(listens[i].0.as_str(), text) {
            proof {
                assert(first_of(f, i + 1) == f(i as int));
                lemma_first_stays(f, i + 1, listens@.len() as int);
            }
            return Some(listens[i].1);
        }
        proof {
            assert(first_of(f, i + 1) == f(i as int));
        }
        i = i + 1;
    }
    None
}

impl Proxy {
    /// The listener of the server `sc`, called `name`, at `addr`.
    pub fn new(name: &str, sc: &ServerConfig, addr: SocketAddress) -> (p: Proxy)
        ensures
            describes(p, name@, *sc, addr),
    {
        let protocol: String = match &sc.protocol {
            Some(p) => owned(p.as_str()),
            None => owned("tcp"),
        };
        let tls: bool = match sc.tls {
            Some(t) => t,
            None => false,
        };
        let sni: Option<Vec<(String, String)>> = match &sc.sni {
            Some(t) => Some(copy_pairs(t)),
            None => None,
        };
        let default_action: String = match &sc.default {
            Some(d) => owned(d.as_str()),
            None => owned("ban"),
        };
        Proxy {
            name: owned(name),
            listen: addr,
            protocol,
            tls,
            sni,
            default_action,
            via: copy_via(&sc.via),
            maxclients: sc.maxclients,
        }
    }

    /// Whether the listener can be started: its protocol is `tcp`, `tcp4`
    /// or `tcp6`.
    pub fn can_start(&self) -> (r: bool)
        ensures
            r == supported_scheme(self.protocol@),
    {
        is_supported_protocol(self.protocol.as_str())
    }

    /// The number of bytes to peek from a new connection before it is
    /// routed: room for a TLS hello on a listener with TLS, nothing on
    /// another.
    pub fn peek_len(&self) -> (n: usize)
        ensures
            n == (if self.tls {
                PEEK_LEN
            } else {
                0
            }),
    {
        if self.tls {
            PEEK_LEN
        } else {
            0
        }
    }

    /// The accept loop of the listener; none for a listener without
    /// permits.
    pub fn accept_loop(&self) -> (r: Option<AcceptLoop>)
        ensures
            self.maxclients == 0 <==> r.is_none(),
            r matches Some(l) ==> l.wf() && l.max_clients == self.maxclients && l.in_flight == 0,
    {
        AcceptLoop::new(self.maxclients)
    }

    /// The name of the upstream that the listener chooses for a
    /// connection that starts with the bytes `peeked`.
    pub open spec fn chosen_for(&self, peeked: Seq<u8>) -> Seq<char> {
        chosen_upstream(self.tls, table_view(self.sni), sni_names(peeked), self.default_action@)
    }

    /// The name of the upstream for a connection from which `peeked` was
    /// peeked.
    pub fn route(&self, peeked: &[u8]) -> (chosen: String)
        ensures
            chosen@ == self.chosen_for(peeked@),
    {
        route_connection(self.tls, &self.sni, peeked, self.default_action.as_str())
    }

    /// The upstream of the registry `reg` that serves a connection from
    /// which `peeked` was peeked: the upstream that the routing chooses, or
    /// the default upstream where the registry does not hold the chosen
    /// one. `None` where it holds neither: the connection is closed.
    pub fn accept(&self, reg: &Vec<(String, Upstream)>, peeked: &[u8]) -> (r: Option<Dispatch>)
        ensures
            r.is_some() == dispatched(
                reg@,
                self.chosen_for(peeked@),
                self.default_action@,
            ).is_some(),
            r matches Some(d) ==> d.at < reg@.len() && dispatched(
                reg@,
                self.chosen_for(peeked@),
                self.default_action@,
            ) == Some(d.at as int) && d.fallback == position_of(
                reg@,
                self.chosen_for(peeked@),
            ).is_none(),
    {
        let chosen: String = self.route(peeked);
        dispatch(reg, chosen.as_str(), self.default_action.as_str())
    }
}

impl Upstream {
    /// How a connection that was handed to this upstream is served on a
    /// listener whose chaining target is `via_target`. Only a proxied
    /// upstream is chained, and only where the target is not empty.
    pub fn process(&self, via_target: &str) -> (h: Handling)
        ensures
            self is Ban ==> h == Handling::Shutdown,
            self is Echo ==> h == Handling::Echo,
            self is Health ==> h == Handling::Health,
            self is Proxy ==> h == (Handling::Relay { chained: via_target@.len() > 0 }),
    {
        match self {
            Upstream::Ban => Handling::Shutdown,
            Upstream::Echo => Handling::Echo,
            Upstream::Health => Handling::Health,
            Upstream::Proxy(_) => Handling::Relay { chained: via_target.unicode_len() > 0 },
        }
    }
}

impl Server {
    /// The server for a checked configuration. `listens` gives the socket
    /// address of each listen address that is one; a listen address
    /// without an entry is passed over. There is one listener for each
    /// other listen address of each server, in the order of the
    /// configuration, and the registry is that of the configuration.
    pub fn new_from_v1_config(config: ParsedConfigV1, listens: &Vec<(String, SocketAddress)>) -> (server:
        Server)
        ensures
            server.upstream == config.upstream,
            built_from(
                server.proxies@,
                config.servers@,
                listens@,
                slots(config.servers@, listens@, config.servers@.len() as int),
            ),
    {
        let mut proxies: Vec<Proxy> = Vec::new();
        let mut s: usize = 0;
        while s < config.servers.len()
            invariant
                s <= config.servers@.len(),
                built_from(proxies@, config.servers@, listens@, slots(config.servers@, listens@, s as int)),
            decreases config.servers@.len() - s,
        {
            let name: &str = config.servers[s].0.as_str();
            let sc: &ServerConfig = &config.servers[s].1;
            let ghost done = slots(config.servers@, listens@, s as int);
            let mut k: usize = 0;
            proof {
                assert(done + server_slots(*sc, listens@, s as int, 0) =~= done);
            }
            while k < sc.listen.len()
                invariant
                    k <= sc.listen@.len(),
                    s < config.servers@.len(),
                    name@ == config.servers@[s as int].0@,
                    *sc == config.servers@[s as int].1,
                    done == slots(config.servers@, listens@, s as int),
                    built_from(
                        proxies@,
                        config.servers@,
                        listens@,
                        done + server_slots(*sc, listens@, s as int, k as int),
                    ),
                decreases sc.listen@.len() - k,
            {
                let ghost had = done + server_slots(*sc, listens@, s as int, k as int);
                let ghost before = proxies@;
                match find_address(listens, sc.listen[k].as_str()) {
                    Some(addr) => {
                        proxies.push(Proxy::new(name, sc, addr));
                        proof {
                            let now = done + server_slots(*sc, listens@, s as int, k + 1);
                            assert(now =~= had.push((s as int, k as int)));
                            assert forall|i: int| 0 <= i < now.len() implies describes(
                                #[trigger] proxies@[i],
                                config.servers@[now[i].0].0@,
                                config.servers@[now[i].0].1,
                                address_of(
                                    listens@,
                                    config.servers@[now[i].0].1.listen@[now[i].1]@,
                                ).unwrap(),
                            ) by {
                                if i < had.len() {
                                    assert(proxies@[i] == before[i]);
                                    assert(now[i] == had[i]);
                                }
                            }
                        }
                    },
                    None => {
                        proof {
                            assert(done + server_slots(*sc, listens@, s as int, k + 1) =~= had);
                        }
                    },
                }
                k = k + 1;
            }
            s = s + 1;
        }
        Server { proxies, upstream: config.upstream }
    }

    /// The listeners that can be started, by their place: those whose
    /// protocol is `tcp`, `tcp4` or `tcp6`.
    pub fn run(&self) -> (startable: Vec<bool>)
        ensures
            startable@.len() == self.proxies@.len(),
            forall|i: int|
                0 <= i < self.proxies@.len() ==> startable@[i] == supported_scheme(
                    (#[trigger] self.proxies@[i]).protocol@,
                ),
    {
        let mut startable: Vec<bool> = Vec::new();
        let mut i: usize = 0;
        while i < self.proxies.len()
            invariant
                i <= self.proxies@.len(),
                startable@.len() == i,
                forall|j: int|
                    0 <= j < i ==> startable@[j] == supported_scheme(
                        (#[trigger] self.proxies@[j]).protocol@,
                    ),
            decreases self.proxies@.len() - i,
        {
            startable.push(self.proxies[i].can_start());
            i = i + 1;
        }
        startable
    }
}

/// Every upstream that a valid configuration knows has a place in its
/// registry.
pub proof fn lemma_known_upstream_has_a_place(
    ups: Seq<(String, String)>,
    reg: Seq<(String, Upstream)>,
    name: Seq<char>,
)
    requires
        registry_of(reg, ups),
        known_upstream(ups, name),
    ensures
        position_of(reg, name).is_some(),
{
    let f = positions(reg, name);
    if name == "ban"@ {
        assert(f(0).is_some());
        lemma_first_exists(f, reg.len() as int, 0);
    } else if name == "echo"@ {
        assert(f(1).is_some());
        lemma_first_exists(f, reg.len() as int, 1);
    } else if name == "health"@ {
        assert(f(2).is_some());
        lemma_first_exists(f, reg.len() as int, 2);
    } else {
        let j = choose|j: int| 0 <= j < ups.len() && (#[trigger] ups[j]).0@ == name;
        assert(reg[j + 3].0@ == ups[j].0@);
        assert(f(j + 3).is_some());
        lemma_first_exists(f, reg.len() as int, j + 3);
    }
}

/// On the listeners of a valid configuration no connection is left
/// without an upstream: whatever name the routing chose, the registry
/// holds it or the server's default upstream. And every upstream that a
/// server name is routed to is in the registry.
pub proof fn lemma_valid_config_always_dispatches(
    base: BaseConfig,
    reg: Seq<(String, Upstream)>,
    s: int,
    selected: Seq<char>,
)
    requires
        config_fault(base).is_none(),
        registry_of(reg, base.upstream@),
        0 <= s < base.servers@.len(),
    ensures
        dispatched(reg, selected, default_of(base.servers@[s].1)).is_some(),
        forall|k: int|
            0 <= k < sni_pairs(base.servers@[s].1).len() ==> position_of(
                reg,
                (#[trigger] sni_pairs(base.servers@[s].1)[k]).1@,
            ).is_some(),
{
    let ups = base.upstream@;
    let sc = base.servers@[s].1;
    lemma_none_found(server_faults(ups, base.servers@), base.servers@.len() as int, s);
    assert(server_fault(ups, base.servers@, s).is_none());
    assert(known_upstream(ups, default_of(sc)));
    lemma_known_upstream_has_a_place(ups, reg, default_of(sc));
    assert forall|k: int| 0 <= k < sni_pairs(sc).len() implies position_of(
        reg,
        (#[trigger] sni_pairs(sc)[k]).1@,
    ).is_some() by {
        lemma_none_found(sni_faults(ups, sc), sni_pairs(sc).len() as int, k);
        lemma_known_upstream_has_a_place(ups, reg, sni_pairs(sc)[k].1@);
    }
}

} // verus!
