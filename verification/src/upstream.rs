//! The upstreams a connection can be handed to, and how a proxied upstream
//! is read from its URL.

use vstd::prelude::*;
use vstd::string::*;
use crate::resolver::{Resolution, ResolutionFailure, ResolutionMode, SocketAddress, UpstreamAddress, mode_of, admitted, POSITIVE_TTL_MS, NEGATIVE_TTL_MS};
use crate::text::{decimal, decimal_text, same_text};

verus! {

/// An upstream that connections are relayed to.
#[derive(Debug, Clone)]
pub struct ProxyToUpstream {
    /// Host and port.
    pub addr: String,
    /// `tcp`, `tcp4` or `tcp6`.
    pub protocol: String,
    /// The cache of the addresses that `addr` resolves to.
    pub addresses: UpstreamAddress,
}

/// What is done with an accepted connection.
#[derive(Debug, Clone)]
pub enum Upstream {
    /// Shut the connection down at once.
    Ban,
    /// Send back what the client sends.
    Echo,
    /// Answer HTTP requests with `200 OK` and the body `OK`.
    Health,
    /// Relay to another host.
    Proxy(ProxyToUpstream),
}

/// The parts of a URL that an upstream is made of.
#[derive(Debug, Clone)]
pub struct UrlParts {
    pub scheme: String,
    pub host: Option<String>,
    pub port: Option<u16>,
}

/// Why a URL does not name an upstream.
#[derive(Debug, Clone, Copy, PartialEq, Eq, Structural)]
pub enum UrlFault {
    /// It does not parse, or has no host, or no port.
    Invalid,
    /// Its scheme is none of `tcp`, `tcp4`, `tcp6`.
    Scheme,
}

/// What the `url` crate makes of `input`: nothing where `Url::parse`
/// rejects it, else the scheme, the host as text if there is one, and the
/// port, given or known for the scheme, if there is one.
pub uninterp spec fn parsed_url(input: Seq<char>) -> Option<(Seq<char>, Option<Seq<char>>, Option<u16>)>;

impl UrlParts {
    /// The parts as plain values.
    pub open spec fn view(&self) -> (Seq<char>, Option<Seq<char>>, Option<u16>) {
        (
            self.scheme@,
            match self.host {
                Some(h) => Some(h@),
                None => None,
            },
            self.port,
        )
    }
}

/// Parses `input` with `url::Url::parse` and reads the result's `scheme`,
/// `host_str` and `port_or_known_default`. The contract only gives the
/// outcome its name, `parsed_url`; nothing is claimed of what it holds.
#[verifier::external_body]
fn parse_url(input: &str) -> (r: Option<UrlParts>)
    ensures
        opt_parts(r) == parsed_url(input@),
{
    match url::Url::parse(input) {
        Ok(u) => Some(UrlParts {
            scheme: String::from(u.scheme()),
            host: u.host_str().map(String::from),
            port: u.port_or_known_default(),
        }),
        Err(_) => None,
    }
}

/// Whether `scheme` is one that an upstream may have.
pub open spec fn supported_scheme(scheme: Seq<char>) -> bool {
    scheme == "tcp"@ || scheme == "tcp4"@ || scheme == "tcp6"@
}

/// Why the parts `parts` of a URL name no upstream, if they do not.
pub open spec fn parts_fault(parts: Option<(Seq<char>, Option<Seq<char>>, Option<u16>)>) -> Option<
    UrlFault,
> {
    match parts {
        Some((scheme, Some(_), Some(_))) => if supported_scheme(scheme) {
            None
        } else {
            Some(UrlFault::Scheme)
        },
        _ => Some(UrlFault::Invalid),
    }
}

/// Host, a colon and the port in decimal.
pub open spec fn host_port(host: Seq<char>, port: u16) -> Seq<char> {
    host + ":"@ + decimal(port as nat)
}

/// Whether `p` is the upstream that the URL parts `parts` describe, with
/// nothing resolved yet.
pub open spec fn upstream_of_parts(
    p: ProxyToUpstream,
    parts: (Seq<char>, Option<Seq<char>>, Option<u16>),
) -> bool {
    &&& p.addr@ == host_port(parts.1.unwrap(), parts.2.unwrap())
    &&& p.protocol@ == parts.0
    &&& p.addresses.address@ == p.addr@
    &&& p.addresses.resolved_addresses@.len() == 0
    &&& p.addresses.resolved_time.is_none()
    &&& p.addresses.ttl.is_none()
}

/// Whether `scheme` is `tcp`, `tcp4` or `tcp6`.
pub fn is_supported_protocol(scheme: &str) -> (r: bool)
    ensures
        r == supported_scheme(scheme@),
{
    same_text(scheme, "tcp") || same_text(scheme, "tcp4") || same_text(scheme, "tcp6")
}

impl ProxyToUpstream {
    /// An upstream at `address` (host and port) with nothing resolved yet.
    pub fn new(address: String, protocol: String) -> (p: Self)
        ensures
            p.addr@ == address@,
            p.protocol == protocol,
            p.addresses.wf(),
            p.addresses.address@ == address@,
            p.addresses.resolved_addresses@.len() == 0,
            p.addresses.resolved_time.is_none(),
            p.addresses.ttl.is_none(),
    {
        let copy: String = address.clone();
        ProxyToUpstream { addr: copy, protocol, addresses: UpstreamAddress::new(address) }
    }

    /// The upstream that the parts of a parsed URL describe. A URL that did
    /// not parse (`None`), or has no host or no port, is invalid; a scheme
    /// other than `tcp`, `tcp4` and `tcp6` is refused.
    pub fn from_url_parts(parts: Option<UrlParts>) -> (r: Result<ProxyToUpstream, UrlFault>)
        ensures
            r matches Err(e) ==> parts_fault(opt_parts(parts)) == Some(e),
            r matches Ok(p) ==> parts_fault(opt_parts(parts)).is_none() && upstream_of_parts(
                p,
                parts.unwrap()@,
            ) && p.addresses.wf(),
    {
        match parts {
            Some(UrlParts { scheme, host: Some(host), port: Some(port) }) => {
                if !is_supported_protocol(scheme.as_str()) {
                    return Err(UrlFault::Scheme);
                }
                let mut addr: String = host;
                addr.append(":");
                addr.append(decimal_text(port).as_str());
                Ok(ProxyToUpstream::new(addr, scheme))
            },
            _ => Err(UrlFault::Invalid),
        }
    }

    /// The upstream that a URL such as `tcp://host:port` names. The URL is
    /// parsed by the `url` crate; what is made of the result is stated by
    /// `from_url_parts`.
    pub fn from_url(input: &str) -> (r: Result<ProxyToUpstream, UrlFault>)
        ensures
            r matches Err(e) ==> parts_fault(parsed_url(input@)) == Some(e),
            r matches Ok(p) ==> parts_fault(parsed_url(input@)).is_none() && upstream_of_parts(
                p,
                parsed_url(input@).unwrap(),
            ) && p.addresses.wf(),
    {
        ProxyToUpstream::from_url_parts(parse_url(input))
    }

    /// Decides at `now` whether the upstream's host has to be looked up.
    pub fn resolve_addresses(&self, now: u64) -> (r: Resolution)
        ensures
            self.addresses.cached_at(now) matches Some(a) ==> r matches Resolution::Cached(v) && v@
                == a,
            self.addresses.cached_at(now).is_none() ==> r is Lookup,
    {
        self.addresses.resolve(now)
    }

    /// Stores what the lookup of the upstream's host gave and returns the
    /// addresses of the family that the protocol asks for. An upstream
    /// whose protocol is none of `tcp`, `tcp4`, `tcp6` keeps its state and
    /// has no addresses.
    pub fn record_addresses(&mut self, now: u64, found: Option<Vec<SocketAddress>>) -> (r: Result<
        Vec<SocketAddress>,
        ResolutionFailure,
    >)
        ensures
            old(self).addresses.wf() ==> final(self).addresses.wf(),
            final(self).addr == old(self).addr,
            final(self).protocol == old(self).protocol,
            mode_of(old(self).protocol@).is_none() ==> r == Err::<Vec<SocketAddress>, _>(
                ResolutionFailure::NoAddresses,
            ) && *final(self) == *old(self),
            mode_of(old(self).protocol@) matches Some(mode) ==> {
                &&& final(self).addresses.wf()
                &&& final(self).addresses.resolved_time == Some(now)
                &&& (r.is_ok() <==> found.is_some() && admitted(found.unwrap()@, mode).len() > 0)
                &&& (r matches Ok(v) ==> v@ == admitted(found.unwrap()@, mode)
                    && final(self).addresses.resolved_addresses@ == v@
                    && final(self).addresses.ttl == Some(POSITIVE_TTL_MS))
                &&& (r.is_err() ==> final(self).addresses.resolved_addresses@.len() == 0
                    && final(self).addresses.ttl == Some(NEGATIVE_TTL_MS))
                &&& (r matches Err(e) ==> (e == ResolutionFailure::LookupFailed
                    <==> found.is_none()))
            },
    {
        match ResolutionMode::from_protocol(self.protocol.as_str()) {
            Some(mode) => self.addresses.record_lookup(mode, now, found),
            None => Err(ResolutionFailure::NoAddresses),
        }
    }
}

/// The view of optional URL parts.
pub open spec fn opt_parts(parts: Option<UrlParts>) -> Option<(
    Seq<char>,
    Option<Seq<char>>,
    Option<u16>,
)> {
    match parts {
        Some(p) => Some(p@),
        None => None,
    }
}

} // verus!
