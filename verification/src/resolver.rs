//! The cache of one upstream's resolved addresses.
//!
//! Time is a reading of a monotonic clock in milliseconds. A lookup that
//! gave addresses is kept for a minute; one that failed, or gave no address
//! of the wanted family, is remembered for three seconds. Only an entry that
//! holds addresses spares a lookup.

use vstd::prelude::*;
use crate::text::same_text;

verus! {

/// How long resolved addresses stay valid, in milliseconds.
pub const POSITIVE_TTL_MS: u64 = 60000;

/// How long a failed resolution is remembered, in milliseconds.
pub const NEGATIVE_TTL_MS: u64 = 3000;

/// A socket address as plain numbers.
#[derive(Debug, Clone, Copy, PartialEq, Eq, Structural)]
pub enum SocketAddress {
    V4 { ip: u32, port: u16 },
    V6 { ip6: u128, port: u16, flowinfo: u32, scope_id: u32 },
}

/// Which address families a resolution keeps.
#[derive(Debug, Clone, Copy, PartialEq, Eq, Structural)]
pub enum ResolutionMode {
    Ipv4AndIpv6,
    Ipv4,
    Ipv6,
}

/// Why a resolution gave no addresses.
#[derive(Debug, Clone, Copy, PartialEq, Eq, Structural)]
pub enum ResolutionFailure {
    /// The lookup itself failed.
    LookupFailed,
    /// The lookup gave no address of the wanted family.
    NoAddresses,
}

/// What `UpstreamAddress::resolve` decides.
#[derive(Debug, Clone, PartialEq, Eq)]
pub enum Resolution {
    /// The cached addresses are still good: no lookup is made.
    Cached(Vec<SocketAddress>),
    /// The host has to be looked up; the result goes to `record_lookup`.
    Lookup,
}

/// The state of one address-resolution cache entry.
#[derive(Debug, Clone)]
pub struct UpstreamAddress {
    pub address: String,
    pub resolved_addresses: Vec<SocketAddress>,
    pub resolved_time: Option<u64>,
    pub ttl: Option<u64>,
}

/// Whether `mode` keeps the address `a`.
pub open spec fn mode_admits(mode: ResolutionMode, a: SocketAddress) -> bool {
    match mode {
        ResolutionMode::Ipv4AndIpv6 => true,
        ResolutionMode::Ipv4 => a is V4,
        ResolutionMode::Ipv6 => a is V6,
    }
}

/// The addresses of `found` that `mode` keeps, in their order.
pub open spec fn admitted(found: Seq<SocketAddress>, mode: ResolutionMode) -> Seq<SocketAddress> {
    found.filter(|a: SocketAddress| mode_admits(mode, a))
}

/// The mode that a protocol tag stands for.
pub open spec fn mode_of(protocol: Seq<char>) -> Option<ResolutionMode> {
    if protocol == "tcp4"@ {
        Some(ResolutionMode::Ipv4)
    } else if protocol == "tcp6"@ {
        Some(ResolutionMode::Ipv6)
    } else if protocol == "tcp"@ {
        Some(ResolutionMode::Ipv4AndIpv6)
    } else {
        None
    }
}

impl ResolutionMode {
    /// The mode of a protocol tag: `tcp4`, `tcp6` or `tcp`. Any other tag
    /// has none.
    pub fn from_protocol(protocol: &str) -> (mode: Option<ResolutionMode>)
        ensures
            mode == mode_of(protocol@),
    {
        if same_text(protocol, "tcp4") {
            Some(ResolutionMode::Ipv4)
        } else if same_text(protocol, "tcp6") {
            Some(ResolutionMode::Ipv6)
        } else if same_text(protocol, "tcp") {
            Some(ResolutionMode::Ipv4AndIpv6)
        } else {
            None
        }
    }

    /// The name of the mode for a reader.
    pub fn describe(&self) -> (name: &'static str)
        ensures
            *self == ResolutionMode::Ipv4 ==> name@ == "IPv4Only"@,
            *self == ResolutionMode::Ipv6 ==> name@ == "IPv6Only"@,
            *self == ResolutionMode::Ipv4AndIpv6 ==> name@ == "IPv4 and IPv6"@,
    {
        match self {
            ResolutionMode::Ipv4 => "IPv4Only",
            ResolutionMode::Ipv6 => "IPv6Only",
            ResolutionMode::Ipv4AndIpv6 => "IPv4 and IPv6",
        }
    }

    /// Whether the mode keeps `a`.
    pub fn admits(&self, a: &SocketAddress) -> (r: bool)
        ensures
            r == mode_admits(*self, *a),
    {
        match self {
            ResolutionMode::Ipv4AndIpv6 => true,
            ResolutionMode::Ipv4 => match a {
                SocketAddress::V4 { .. } => true,
                SocketAddress::V6 { .. } => false,
            },
            ResolutionMode::Ipv6 => match a {
                SocketAddress::V4 { .. } => false,
                SocketAddress::V6 { .. } => true,
            },
        }
    }
}

/// The addresses of `found` that `mode` keeps, in their order.
pub fn filter_addresses(found: &Vec<SocketAddress>, mode: ResolutionMode) -> (kept: Vec<
    SocketAddress,
>)
    ensures
        kept@ == admitted(found@, mode),
{
    let mut kept: Vec<SocketAddress> = Vec::new();
    let mut i: usize = 0;
    proof {
        reveal(Seq::filter);
        assert(found@.take(0) =~= Seq::<SocketAddress>::empty());
    }
    while i < found.len()
        invariant
            i <= found@.len(),
            kept@ == admitted(found@.take(i as int), mode),
        decreases found@.len() - i,
    {
        let a: SocketAddress = found[i];
        proof {
            reveal(Seq::filter);
            assert(found@.take(i + 1).drop_last() =~= found@.take(i as int));
            assert(found@.take(i + 1).last() == a);
        }
        if mode.admits(&a) {
            kept.push(a);
        }
        i = i + 1;
    }
    proof {
        assert(found@.take(found@.len() as int) =~= found@);
    }
    kept
}

impl UpstreamAddress {
    /// The invariant of an entry: addresses are held only together with the
    /// time they were resolved at and their time to live.
    pub open spec fn wf(&self) -> bool {
        self.resolved_addresses@.len() > 0 ==> self.resolved_time.is_some() && self.ttl.is_some()
    }

    /// Whether the entry is within its time to live at `now`.
    pub open spec fn valid_at(&self, now: u64) -> bool {
        self.resolved_time.is_some() && self.ttl.is_some() && (now as int)
            - (self.resolved_time.unwrap() as int) < (self.ttl.unwrap() as int)
    }

    /// The addresses that the entry answers with at `now` without a lookup.
    pub open spec fn cached_at(&self, now: u64) -> Option<Seq<SocketAddress>> {
        if self.resolved_addresses@.len() > 0 && self.valid_at(now) {
            Some(self.resolved_addresses@)
        } else {
            None
        }
    }

    /// An entry for `address` (a host and a port) that nothing has been
    /// resolved for yet.
    pub fn new(address: String) -> (e: Self)
        ensures
            e.wf(),
            e.address == address,
            e.resolved_addresses@.len() == 0,
            e.resolved_time.is_none(),
            e.ttl.is_none(),
    {
        UpstreamAddress {
            address,
            resolved_addresses: Vec::new(),
            resolved_time: None,
            ttl: None,
        }
    }

    /// Whether the entry is within its time to live at `now`.
    pub fn is_valid(&self, now: u64) -> (r: bool)
        ensures
            r == self.valid_at(now),
    {
        match (self.resolved_time, self.ttl) {
            (Some(at), Some(ttl)) => now < at || now - at < ttl,
            _ => false,
        }
    }

    /// Whether the entry holds addresses.
    pub fn is_resolved(&self) -> (r: bool)
        ensures
            r == (self.resolved_addresses@.len() > 0),
    {
        self.resolved_addresses.len() > 0
    }

    /// The milliseconds for which the entry stays valid after `now`; zero
    /// for an entry that is not valid.
    pub fn time_remaining(&self, now: u64) -> (left: u64)
        ensures
            !self.valid_at(now) ==> left == 0,
            self.valid_at(now) && now >= self.resolved_time.unwrap() ==> left == self.ttl.unwrap()
                - (now - self.resolved_time.unwrap()),
            self.valid_at(now) && now < self.resolved_time.unwrap() ==> left == self.ttl.unwrap(),
    {
        match (self.resolved_time, self.ttl) {
            (Some(at), Some(ttl)) => if now < at {
                ttl
            } else if now - at < ttl {
                ttl - (now - at)
            } else {
                0
            },
            _ => 0,
        }
    }

    /// Decides at `now` whether the host has to be looked up: not while the
    /// entry holds addresses and is valid.
    pub fn resolve(&self, now: u64) -> (r: Resolution)
        ensures
            self.cached_at(now) matches Some(a) ==> r matches Resolution::Cached(v) && v@ == a,
            self.cached_at(now).is_none() ==> r is Lookup,
    {
        if self.is_resolved() && self.is_valid(now) {
            Resolution::Cached(self.resolved_addresses.clone())
        } else {
            Resolution::Lookup
        }
    }

    /// Stores at `now` what the lookup of the host gave: `found` holds the
    /// addresses in the order of the lookup, or nothing where the lookup
    /// failed. The addresses that `mode` keeps are stored for a minute and
    /// returned. A failed lookup, and one that leaves no address, empties
    /// the entry for three seconds and is reported.
    pub fn record_lookup(
        &mut self,
        mode: ResolutionMode,
        now: u64,
        found: Option<Vec<SocketAddress>>,
    ) -> (r: Result<Vec<SocketAddress>, ResolutionFailure>)
        ensures
            final(self).wf(),
            final(self).address == old(self).address,
            final(self).resolved_time == Some(now),
            r.is_ok() <==> found.is_some() && admitted(found.unwrap()@, mode).len() > 0,
            r matches Ok(v) ==> v@ == admitted(found.unwrap()@, mode)
                && final(self).resolved_addresses@ == v@ && final(self).ttl == Some(
                POSITIVE_TTL_MS,
            ),
            r.is_err() ==> final(self).resolved_addresses@.len() == 0 && final(self).ttl == Some(
                NEGATIVE_TTL_MS,
            ),
            r matches Err(e) ==> (e == ResolutionFailure::LookupFailed <==> found.is_none()),
    {
        self.resolved_time = Some(now);
        match found {
            None => {
                self.resolved_addresses = Vec::new();
                self.ttl = Some(NEGATIVE_TTL_MS);
                Err(ResolutionFailure::LookupFailed)
            },
            Some(list) => {
                let kept = filter_addresses(&list, mode);
                if kept.len() == 0 {
                    self.resolved_addresses = Vec::new();
                    self.ttl = Some(NEGATIVE_TTL_MS);
                    Err(ResolutionFailure::NoAddresses)
                } else {
                    self.resolved_addresses = kept.clone();
                    self.ttl = Some(POSITIVE_TTL_MS);
                    Ok(kept)
                }
            },
        }
    }
}

/// Within the time to live, a resolution is answered from the entry, with
/// the same addresses each time and without a lookup: if the entry answers
/// at `first`, it gives the same answer at every later `second` at which it
/// is still valid.
pub proof fn lemma_resolve_repeats(e: UpstreamAddress, first: u64, second: u64)
    requires
        e.cached_at(first).is_some(),
        e.valid_at(second),
    ensures
        e.cached_at(second) == e.cached_at(first),
{
}

/// After addresses were stored at `now`, every resolution before a minute
/// has passed is answered with them.
pub proof fn lemma_stored_addresses_last(e: UpstreamAddress, now: u64, later: u64)
    requires
        e.resolved_addresses@.len() > 0,
        e.resolved_time == Some(now),
        e.ttl == Some(POSITIVE_TTL_MS),
        now <= later,
        later - now < POSITIVE_TTL_MS,
    ensures
        e.cached_at(later) == Some(e.resolved_addresses@),
{
}

} // verus!
