//! The decisions of gateway discovery: which announced services are classic
//! gateways, which port they use, and which single address each gateway is
//! reached at. Gateways come out ordered by hostname, each at the lowest
//! address it announced, so the result does not depend on the order in which
//! announcements arrive.
use vstd::prelude::*;
use crate::client::{Gateway, GatewayAddress, GatewayView, Ipv4Endpoint};
use crate::error::Error;
use crate::protocol::{DEFAULT_PORT, GATEWAY_HOST_PREFIX};
use crate::text::{
    compare_text, is_prefix, lemma_asymmetric, lemma_text_less_irreflexive,
    lemma_text_less_transitive, starts_with_text, text_less, TextOrder,
};

verus! {

/// A hostname and the address it is reached at.
pub type HostEntry = (Seq<char>, Ipv4Endpoint);

/// Hostnames in strictly increasing order.
pub open spec fn strictly_sorted(s: Seq<HostEntry>) -> bool {
    forall|i: int, j: int| 0 <= i < j < s.len() ==> text_less(#[trigger] s[i].0, #[trigger] s[j].0)
}

/// `host` is listed.
pub open spec fn has_host(s: Seq<HostEntry>, host: Seq<char>) -> bool {
    exists|i: int| 0 <= i < s.len() && #[trigger] s[i].0 == host
}

/// The address listed for `host`.
pub open spec fn address_of(s: Seq<HostEntry>, host: Seq<char>) -> Ipv4Endpoint {
    s[choose|i: int| 0 <= i < s.len() && #[trigger] s[i].0 == host].1
}

/// The listing as a map from hostname to address.
pub open spec fn host_map(s: Seq<HostEntry>) -> Map<Seq<char>, Ipv4Endpoint> {
    Map::new(|host: Seq<char>| has_host(s, host), |host: Seq<char>| address_of(s, host))
}

/// The map after `address` was announced for `host`: a new host gets the
/// address; a known host keeps the lower of its address and the new one.
pub open spec fn recorded(
    m: Map<Seq<char>, Ipv4Endpoint>,
    host: Seq<char>,
    address: Ipv4Endpoint,
) -> Map<Seq<char>, Ipv4Endpoint> {
    m.insert(
        host,
        if m.contains_key(host) && !address.precedes(m[host]) {
            m[host]
        } else {
            address
        },
    )
}

/// Announcements can arrive in either order: recording two of them gives the
/// same gateways at the same addresses either way.
pub proof fn lemma_recording_commutes(
    m: Map<Seq<char>, Ipv4Endpoint>,
    h1: Seq<char>,
    a1: Ipv4Endpoint,
    h2: Seq<char>,
    a2: Ipv4Endpoint,
)
    ensures
        recorded(recorded(m, h1, a1), h2, a2) == recorded(recorded(m, h2, a2), h1, a1),
{
    assert(recorded(recorded(m, h1, a1), h2, a2) =~= recorded(recorded(m, h2, a2), h1, a1));
}

/// The address kept for a hostname is one that was announced for it, and no
/// address announced for it sorts before it.
pub proof fn lemma_recorded_is_lowest(
    m: Map<Seq<char>, Ipv4Endpoint>,
    host: Seq<char>,
    address: Ipv4Endpoint,
)
    ensures
        recorded(m, host, address).contains_key(host),
        !address.precedes(recorded(m, host, address)[host]),
        m.contains_key(host) ==> !m[host].precedes(recorded(m, host, address)[host]),
        recorded(m, host, address)[host] == address || (m.contains_key(host)
            && recorded(m, host, address)[host] == m[host]),
{
}

/// The map after each of `ips` was announced for `host` on `port`, in order.
pub open spec fn recorded_all(
    m: Map<Seq<char>, Ipv4Endpoint>,
    host: Seq<char>,
    ips: Seq<u32>,
    port: u16,
) -> Map<Seq<char>, Ipv4Endpoint>
    decreases ips.len(),
{
    if ips.len() == 0 {
        m
    } else {
        recorded(
            recorded_all(m, host, ips.drop_last(), port),
            host,
            Ipv4Endpoint { ip: ips.last(), port },
        )
    }
}

/// The port a service is reached at: the announced one, or the default CoAP
/// port when it announced none.
pub open spec fn service_port_spec(port: u16) -> u16 {
    if port == 0 {
        DEFAULT_PORT
    } else {
        port
    }
}

/// The hostname is one of a classic gateway.
pub open spec fn is_gateway_host(hostname: Seq<char>) -> bool {
    is_prefix(GATEWAY_HOST_PREFIX@, hostname)
}

/// A listing is unambiguous: each hostname is listed at one index.
proof fn lemma_unique(s: Seq<HostEntry>, i: int)
    requires
        strictly_sorted(s),
        0 <= i < s.len(),
    ensures
        has_host(s, s[i].0),
        address_of(s, s[i].0) == s[i].1,
{
    assert(s[i].0 == s[i].0);
    let j = choose|j: int| 0 <= j < s.len() && #[trigger] s[j].0 == s[i].0;
    if j < i {
        assert(text_less(s[j].0, s[i].0));
        lemma_text_less_irreflexive(s[i].0);
    } else if i < j {
        assert(text_less(s[i].0, s[j].0));
        lemma_text_less_irreflexive(s[i].0);
    }
}

/// Gateways found so far, by hostname.
pub struct DiscoveredGateways {
    entries: Vec<(String, Ipv4Endpoint)>,
}

/// The model of stored entries.
pub open spec fn entries_model(entries: Seq<(String, Ipv4Endpoint)>) -> Seq<HostEntry> {
    Seq::new(entries.len(), |i: int| (entries[i].0@, entries[i].1))
}

impl DiscoveredGateways {
    #[verifier::type_invariant]
    spec fn wf(self) -> bool {
        strictly_sorted(entries_model(self.entries@))
    }

    /// The listing, ordered by hostname.
    pub closed spec fn listing(&self) -> Seq<HostEntry> {
        entries_model(self.entries@)
    }

    /// The listing as a map.
    pub open spec fn view(&self) -> Map<Seq<char>, Ipv4Endpoint> {
        host_map(self.listing())
    }

    /// Nothing discovered yet.
    pub fn new() -> (r: DiscoveredGateways)
        ensures
            r.listing().len() == 0,
    {
        DiscoveredGateways { entries: Vec::new() }
    }

    pub fn len(&self) -> (r: usize)
        ensures
            r == self.listing().len(),
    {
        self.entries.len()
    }

    pub fn is_empty(&self) -> (r: bool)
        ensures
            r == (self.listing().len() == 0),
    {
        self.entries.len() == 0
    }
}

/// Where `hostname` is or belongs in sorted `entries`: every entry before
/// `pos` sorts before it, and the entry at `pos`, if any, is `hostname`
/// (`found`) or sorts after it.
fn position(entries: &Vec<(String, Ipv4Endpoint)>, hostname: &str) -> (r: (usize, bool))
    ensures
        r.0 <= entries@.len(),
        forall|j: int| 0 <= j < r.0 ==> text_less(#[trigger] entries_model(entries@)[j].0, hostname@),
        r.1 ==> r.0 < entries@.len() && entries_model(entries@)[r.0 as int].0 == hostname@,
        !r.1 ==> r.0 == entries@.len() || text_less(
            hostname@,
            entries_model(entries@)[r.0 as int].0,
        ),
{
    let ghost s = entries_model(entries@);
    let mut i: usize = 0;
    while i < entries.len()
        invariant
            i <= entries@.len(),
            s == entries_model(entries@),
            forall|j: int| 0 <= j < i ==> text_less(#[trigger] s[j].0, hostname@),
        decreases entries.len() - i,
    {
        match compare_text(entries[i].0.as_str(), hostname) {
            TextOrder::Less => {
                i = i + 1;
            },
            TextOrder::Equal => {
                return (i, true);
            },
            TextOrder::Greater => {
                return (i, false);
            },
        }
    }
    (i, false)
}

/// Records that `hostname` announced `address`: a new hostname is added in
/// order; a known one keeps the lower of its address and `address`.
pub fn record_gateway(discovered: &mut DiscoveredGateways, hostname: &str, address: Ipv4Endpoint)
    ensures
        final(discovered)@ == recorded(old(discovered)@, hostname@, address),
{
    proof {
        use_type_invariant(&*discovered);
    }
    let mut entries: Vec<(String, Ipv4Endpoint)> = Vec::new();
    std::mem::swap(&mut entries, &mut discovered.entries);
    let ghost old_s = entries_model(entries@);
    let ghost old_map = host_map(old_s);
    let (pos, found) = position(&entries, hostname);
    let ghost new_value = if found && !address.precedes(old_s[pos as int].1) {
        old_s[pos as int].1
    } else {
        address
    };
    if found {
        proof {
            lemma_unique(old_s, pos as int);
        }
        if address.lt(&entries[pos].1) {
            let name = entries[pos].0.clone();
            entries.set(pos, (name, address));
        }
        let ghost s = entries_model(entries@);
        assert(s =~= old_s.update(pos as int, (hostname@, new_value)));
        assert(strictly_sorted(s)) by {
            assert forall|i: int, j: int| 0 <= i < j < s.len() implies text_less(
                #[trigger] s[i].0,
                #[trigger] s[j].0,
            ) by {
                assert(s[i].0 == old_s[i].0);
                assert(s[j].0 == old_s[j].0);
            }
        }
        proof {
            lemma_map_update(old_s, s, pos as int, new_value);
        }
    } else {
        entries.insert(pos, (hostname.to_owned(), address));
        let ghost s = entries_model(entries@);
        assert(s =~= old_s.insert(pos as int, (hostname@, address)));
        assert(strictly_sorted(s)) by {
            assert forall|i: int, j: int| 0 <= i < j < s.len() implies text_less(
                #[trigger] s[i].0,
                #[trigger] s[j].0,
            ) by {
                if j < pos {
                } else if j == pos {
                } else if i < pos {
                    // old_s[i] < hostname < old_s[pos] <= old_s[j - 1]
                    if pos < j - 1 {
                        lemma_text_less_transitive(hostname@, old_s[pos as int].0, old_s[j - 1].0);
                    }
                    lemma_text_less_transitive(old_s[i].0, hostname@, old_s[j - 1].0);
                } else if i == pos {
                    if pos < j - 1 {
                        lemma_text_less_transitive(hostname@, old_s[pos as int].0, old_s[j - 1].0);
                    }
                } else {
                    assert(s[i].0 == old_s[i - 1].0);
                }
            }
        }
        proof {
            lemma_map_insert(old_s, s, pos as int, address);
        }
    }
    discovered.entries = entries;
}

proof fn lemma_map_update(old_s: Seq<HostEntry>, s: Seq<HostEntry>, pos: int, value: Ipv4Endpoint)
    requires
        strictly_sorted(old_s),
        strictly_sorted(s),
        0 <= pos < old_s.len(),
        s == old_s.update(pos, (old_s[pos].0, value)),
    ensures
        host_map(s) == host_map(old_s).insert(old_s[pos].0, value),
{
    let h = old_s[pos].0;
    assert forall|k: Seq<char>| has_host(s, k) == (has_host(old_s, k) || k == h) by {
        if has_host(s, k) {
            let i = choose|i: int| 0 <= i < s.len() && #[trigger] s[i].0 == k;
            assert(old_s[i].0 == k);
        }
        if has_host(old_s, k) {
            let i = choose|i: int| 0 <= i < old_s.len() && #[trigger] old_s[i].0 == k;
            assert(s[i].0 == k);
        }
        if k == h {
            assert(s[pos].0 == k);
        }
    }
    assert forall|k: Seq<char>| has_host(s, k) implies address_of(s, k) == (if k == h {
        value
    } else {
        address_of(old_s, k)
    }) by {
        let i = choose|i: int| 0 <= i < s.len() && #[trigger] s[i].0 == k;
        lemma_unique(s, i);
        lemma_unique(old_s, i);
    }
    assert(host_map(s) =~= host_map(old_s).insert(h, value));
}

proof fn lemma_map_insert(old_s: Seq<HostEntry>, s: Seq<HostEntry>, pos: int, value: Ipv4Endpoint)
    requires
        strictly_sorted(old_s),
        strictly_sorted(s),
        0 <= pos <= old_s.len(),
        s.len() == old_s.len() + 1,
        s[pos].1 == value,
        forall|i: int| 0 <= i < pos ==> s[i] == old_s[i],
        forall|i: int| pos < i < s.len() ==> s[i] == old_s[i - 1],
    ensures
        host_map(s) == host_map(old_s).insert(s[pos].0, value),
{
    let h = s[pos].0;
    assert forall|k: Seq<char>| has_host(s, k) == (has_host(old_s, k) || k == h) by {
        if has_host(s, k) {
            let i = choose|i: int| 0 <= i < s.len() && #[trigger] s[i].0 == k;
            if i < pos {
                assert(old_s[i].0 == k);
            } else if i > pos {
                assert(old_s[i - 1].0 == k);
            }
        }
        if has_host(old_s, k) {
            let i = choose|i: int| 0 <= i < old_s.len() && #[trigger] old_s[i].0 == k;
            if i < pos {
                assert(s[i].0 == k);
            } else {
                assert(s[i + 1].0 == k);
            }
        }
        if k == h {
            assert(s[pos].0 == k);
        }
    }
    assert forall|k: Seq<char>| has_host(s, k) implies address_of(s, k) == (if k == h {
        value
    } else {
        address_of(old_s, k)
    }) by {
        let i = choose|i: int| 0 <= i < s.len() && #[trigger] s[i].0 == k;
        lemma_unique(s, i);
        if i < pos {
            lemma_unique(old_s, i);
        } else if i > pos {
            lemma_unique(old_s, i - 1);
        }
    }
    assert(host_map(s) =~= host_map(old_s).insert(h, value));
}

/// The endpoint `ip` on `port`.
pub open spec fn endpoint(ip: u32, port: u16) -> Ipv4Endpoint {
    Ipv4Endpoint { ip, port }
}

/// Recording the addresses `ips` that `host` announced on `port`: other
/// hostnames keep what they had; when at least one address was announced,
/// `host` is discovered, at an address that is one of those announced or the
/// one it had, and that neither any announced address nor the one it had
/// sorts before. So a new hostname is reached at the lowest address it
/// announced.
pub proof fn lemma_recorded_all_lowest(
    m: Map<Seq<char>, Ipv4Endpoint>,
    host: Seq<char>,
    ips: Seq<u32>,
    port: u16,
)
    ensures
        ips.len() == 0 ==> recorded_all(m, host, ips, port) == m,
        forall|h: Seq<char>|
            h != host ==> (#[trigger] recorded_all(m, host, ips, port).contains_key(h)
                == m.contains_key(h)),
        forall|h: Seq<char>|
            h != host && m.contains_key(h) ==> #[trigger] recorded_all(m, host, ips, port)[h]
                == m[h],
        ips.len() > 0 ==> recorded_all(m, host, ips, port).contains_key(host),
        ips.len() > 0 ==> forall|i: int|
            0 <= i < ips.len() ==> !endpoint(#[trigger] ips[i], port).precedes(
                recorded_all(m, host, ips, port)[host],
            ),
        ips.len() > 0 && m.contains_key(host) ==> !m[host].precedes(
            recorded_all(m, host, ips, port)[host],
        ),
        ips.len() > 0 ==> (m.contains_key(host) && recorded_all(m, host, ips, port)[host]
            == m[host]) || exists|i: int|
            0 <= i < ips.len() && recorded_all(m, host, ips, port)[host] == endpoint(
                #[trigger] ips[i],
                port,
            ),
    decreases ips.len(),
{
    if ips.len() > 0 {
        let prev = ips.drop_last();
        let last = endpoint(ips.last(), port);
        lemma_recorded_all_lowest(m, host, prev, port);
        let r0 = recorded_all(m, host, prev, port);
        let r = recorded_all(m, host, ips, port);
        assert(r == recorded(r0, host, last));
        lemma_recorded_is_lowest(r0, host, last);
        assert forall|i: int| 0 <= i < ips.len() implies !endpoint(#[trigger] ips[i], port).precedes(
            r[host],
        ) by {
            if i < ips.len() - 1 {
                assert(prev[i] == ips[i]);
            }
        }
        if r[host] == last {
            assert(r[host] == endpoint(ips[ips.len() - 1], port));
        } else if prev.len() > 0 && !(m.contains_key(host) && r0[host] == m[host]) {
            let j = choose|j: int| 0 <= j < prev.len() && r0[host] == endpoint(#[trigger] prev[j], port);
            assert(prev[j] == ips[j]);
            assert(r[host] == endpoint(ips[j], port));
        }
    }
}

/// Whether a service announced under `hostname` is a classic gateway.
pub fn is_gateway_hostname(hostname: &str) -> (r: bool)
    ensures
        r == is_gateway_host(hostname@),
{
    starts_with_text(hostname, GATEWAY_HOST_PREFIX)
}

/// The port a service is reached at; `0` means the default CoAP/DTLS port.
pub fn service_port(port: u16) -> (r: u16)
    ensures
        r == service_port_spec(port),
{
    if port == 0 {
        DEFAULT_PORT
    } else {
        port
    }
}

/// Records one resolved service: when its hostname is a classic gateway's,
/// each of its IPv4 addresses in turn on its (effective) port; otherwise
/// nothing.
pub fn record_service(
    discovered: &mut DiscoveredGateways,
    hostname: &str,
    port: u16,
    addresses: &Vec<u32>,
)
    ensures
        final(discovered)@ == if is_gateway_host(hostname@) {
            recorded_all(old(discovered)@, hostname@, addresses@, service_port_spec(port))
        } else {
            old(discovered)@
        },
        forall|h: Seq<char>|
            h != hostname@ ==> (#[trigger] final(discovered)@.contains_key(h)
                == old(discovered)@.contains_key(h)),
        forall|h: Seq<char>|
            h != hostname@ && old(discovered)@.contains_key(h) ==> #[trigger] final(discovered)@[h]
                == old(discovered)@[h],
        is_gateway_host(hostname@) && addresses@.len() > 0 ==> {
            &&& final(discovered)@.contains_key(hostname@)
            &&& forall|i: int|
                0 <= i < addresses@.len() ==> !endpoint(
                    #[trigger] addresses@[i],
                    service_port_spec(port),
                ).precedes(final(discovered)@[hostname@])
            &&& old(discovered)@.contains_key(hostname@) ==> !old(discovered)@[hostname@].precedes(
                final(discovered)@[hostname@],
            )
            &&& (old(discovered)@.contains_key(hostname@) && final(discovered)@[hostname@]
                == old(discovered)@[hostname@]) || exists|i: int|
                0 <= i < addresses@.len() && final(discovered)@[hostname@] == endpoint(
                    #[trigger] addresses@[i],
                    service_port_spec(port),
                )
        },
        !is_gateway_host(hostname@) || addresses@.len() == 0 ==> final(discovered)@ == old(
            discovered,
        )@,
{
    proof {
        lemma_recorded_all_lowest(
            old(discovered)@,
            hostname@,
            addresses@,
            service_port_spec(port),
        );
    }
    if !is_gateway_hostname(hostname) {
        return ;
    }
    let effective = service_port(port);
    let mut i: usize = 0;
    while i < addresses.len()
        invariant
            i <= addresses@.len(),
            effective == service_port_spec(port),
            discovered@ == recorded_all(
                old(discovered)@,
                hostname@,
                addresses@.take(i as int),
                effective,
            ),
        decreases addresses.len() - i,
    {
        assert(addresses@.take(i + 1).drop_last() =~= addresses@.take(i as int));
        record_gateway(discovered, hostname, Ipv4Endpoint { ip: addresses[i], port: effective });
        i = i + 1;
    }
    assert(addresses@.take(addresses@.len() as int) =~= addresses@);
}

/// The gateways found, in hostname order, each at its recorded address; fails
/// with `NoGatewayFound` when there are none.
pub fn gateways_from_map(discovered: DiscoveredGateways) -> (r: Result<Vec<Gateway>, Error>)
    ensures
        r is Err <==> discovered.listing().len() == 0,
        r matches Err(e) ==> e is NoGatewayFound,
        strictly_sorted(discovered.listing()),
        forall|h: Seq<char>|
            #[trigger] discovered@.contains_key(h) ==> (r matches Ok(gateways) && exists|i: int|
                0 <= i < gateways@.len() && (#[trigger] gateways@[i])@ == (GatewayView {
                    address: GatewayAddress::V4(discovered@[h]),
                    hostname: Some(h),
                })),
        r matches Ok(gateways) ==> {
            &&& gateways@.len() == discovered.listing().len()
            &&& forall|i: int|
                0 <= i < gateways@.len() ==> (#[trigger] gateways@[i])@ == (GatewayView {
                    address: GatewayAddress::V4(discovered.listing()[i].1),
                    hostname: Some(discovered.listing()[i].0),
                })
        },
{
    proof {
        use_type_invariant(&discovered);
    }
    if discovered.entries.len() == 0 {
        assert forall|h: Seq<char>| !(#[trigger] discovered@.contains_key(h)) by {
            if discovered@.contains_key(h) {
                let k = choose|k: int|
                    0 <= k < discovered.listing().len() && #[trigger] discovered.listing()[k].0
                        == h;
            }
        }
        return Err(Error::NoGatewayFound);
    }
    let ghost listing = discovered.listing();
    let entries = discovered.entries;
    let mut gateways: Vec<Gateway> = Vec::new();
    let mut i: usize = 0;
    while i < entries.len()
        invariant
            listing == entries_model(entries@),
            i <= entries@.len(),
            gateways@.len() == i,
            forall|k: int|
                0 <= k < i ==> (#[trigger] gateways@[k])@ == (GatewayView {
                    address: GatewayAddress::V4(listing[k].1),
                    hostname: Some(listing[k].0),
                }),
        decreases entries.len() - i,
    {
        let name = entries[i].0.clone();
        let address = entries[i].1;
        gateways.push(Gateway::from_discovery(GatewayAddress::V4(address), name));
        i = i + 1;
    }
    proof {
        assert forall|h: Seq<char>| #[trigger] discovered@.contains_key(h) implies exists|i: int|
            0 <= i < gateways@.len() && (#[trigger] gateways@[i])@ == (GatewayView {
                address: GatewayAddress::V4(discovered@[h]),
                hostname: Some(h),
            }) by {
            let k = choose|k: int| 0 <= k < listing.len() && #[trigger] listing[k].0 == h;
            lemma_unique(listing, k);
            assert(gateways@[k]@.address == GatewayAddress::V4(listing[k].1));
        }
    }
    Ok(gateways)
}

} // verus!
