//! Gateway addresses, client settings and the parts of the client that decide
//! rather than talk to the network.
use vstd::prelude::*;
use vstd::string::*;
use crate::credentials::Credentials;
use crate::error::Error;
use crate::protocol::DEFAULT_PORT;
use crate::text::{digit_char, hex_fixed, push_hex_fixed};
use crate::time::{max_nanos, TimeSpan};

verus! {

/// Network behavior for a connected client.
#[derive(Clone, Copy, PartialEq, Eq, Structural, Debug)]
pub struct ClientOptions {
    pub request_timeout: TimeSpan,
    pub retries: usize,
}

impl Default for ClientOptions {
    /// Three seconds per request and three retries.
    fn default() -> (r: Self)
        ensures
            r.request_timeout@ == 3_000_000_000nat,
            r.retries == 3,
    {
        ClientOptions { request_timeout: TimeSpan::from_secs(3), retries: 3 }
    }
}

/// Backoff used by opt-in resilient observations.
#[derive(Clone, Copy, PartialEq, Eq, Structural, Debug)]
pub struct ReconnectOptions {
    pub initial_delay: TimeSpan,
    pub max_delay: TimeSpan,
}

impl Default for ReconnectOptions {
    /// One second at first, thirty at most.
    fn default() -> (r: Self)
        ensures
            r.initial_delay@ == 1_000_000_000nat,
            r.max_delay@ == 30_000_000_000nat,
    {
        ReconnectOptions { initial_delay: TimeSpan::from_secs(1), max_delay: TimeSpan::from_secs(30) }
    }
}

/// The shortest delay before a reconnect attempt, in nanoseconds (100 ms).
pub open spec fn min_reconnect_nanos() -> nat {
    100_000_000
}

/// The shortest delay before a reconnect attempt: 100 ms.
pub fn min_reconnect_delay() -> (r: TimeSpan)
    ensures
        r@ == min_reconnect_nanos(),
{
    TimeSpan::from_millis(100)
}

/// The larger of two lengths.
pub open spec fn max_of(a: nat, b: nat) -> nat {
    if a <= b {
        b
    } else {
        a
    }
}

/// The smaller of two lengths.
pub open spec fn min_of(a: nat, b: nat) -> nat {
    if a <= b {
        a
    } else {
        b
    }
}

/// The delay after `current` when backing off: twice as long (saturating at
/// `Duration::MAX`), but never beyond `maximum`.
pub open spec fn backoff(current: nat, maximum: nat) -> nat {
    min_of(min_of(current * 2, max_nanos()), maximum)
}

impl ReconnectOptions {
    /// The options with the initial delay raised to at least 100 ms and the
    /// maximum raised to at least the initial delay.
    pub fn normalized(self) -> (r: Self)
        ensures
            r.initial_delay@ == max_of(self.initial_delay@, min_reconnect_nanos()),
            r.max_delay@ == max_of(self.max_delay@, r.initial_delay@),
            min_reconnect_nanos() <= r.initial_delay@ <= r.max_delay@,
    {
        let initial_delay = self.initial_delay.max(min_reconnect_delay());
        ReconnectOptions { initial_delay, max_delay: self.max_delay.max(initial_delay) }
    }
}

/// The next reconnect delay after `current`: doubled, bounded by `maximum`.
pub fn next_reconnect_delay(current: TimeSpan, maximum: TimeSpan) -> (r: TimeSpan)
    ensures
        r@ == backoff(current@, maximum@),
        r@ <= maximum@,
        current@ <= maximum@ ==> current@ <= r@,
{
    current.check_bounded();
    current.saturating_mul(2).min(maximum)
}

/// An IP address: IPv4 as its 32 bits, IPv6 as its 128 bits (most significant
/// octet first).
#[derive(Clone, Copy, PartialEq, Eq, Structural, Debug)]
pub enum IpAddress {
    V4(u32),
    V6(u128),
}

/// An IPv4 socket address.
#[derive(Clone, Copy, PartialEq, Eq, Structural, Debug)]
pub struct Ipv4Endpoint {
    pub ip: u32,
    pub port: u16,
}

/// An IPv6 socket address.
#[derive(Clone, Copy, PartialEq, Eq, Structural, Debug)]
pub struct Ipv6Endpoint {
    pub ip: u128,
    pub port: u16,
    pub flowinfo: u32,
    pub scope_id: u32,
}

/// A socket address of a gateway.
#[derive(Clone, Copy, PartialEq, Eq, Structural, Debug)]
pub enum GatewayAddress {
    V4(Ipv4Endpoint),
    V6(Ipv6Endpoint),
}

/// The 32 bits of the IPv4 address `a.b.c.d`.
pub open spec fn ipv4_bits(octets: [u8; 4]) -> nat {
    (octets[0] as nat) * 16777216 + (octets[1] as nat) * 65536 + (octets[2] as nat) * 256 + octets[3] as nat
}

impl Ipv4Endpoint {
    /// The endpoint `a.b.c.d:port`.
    pub fn from_octets(octets: [u8; 4], port: u16) -> (r: Ipv4Endpoint)
        ensures
            r.ip == ipv4_bits(octets),
            r.port == port,
    {
        let ip = (octets[0] as u32) * 16777216 + (octets[1] as u32) * 65536 + (octets[2] as u32) * 256
            + octets[3] as u32;
        Ipv4Endpoint { ip, port }
    }

    /// Ordering of IPv4 socket addresses: by address, then port.
    pub open spec fn precedes(self, other: Ipv4Endpoint) -> bool {
        self.ip < other.ip || (self.ip == other.ip && self.port < other.port)
    }

    /// Whether `self` sorts before `other`.
    pub fn lt(&self, other: &Ipv4Endpoint) -> (r: bool)
        ensures
            r == self.precedes(*other),
    {
        self.ip < other.ip || (self.ip == other.ip && self.port < other.port)
    }
}

/// Model of a gateway.
pub struct GatewayView {
    pub address: GatewayAddress,
    pub hostname: Option<Seq<char>>,
}

/// Addressable classic TRADFRI gateway.
#[derive(PartialEq, Eq, Debug)]
pub struct Gateway {
    address: GatewayAddress,
    hostname: Option<String>,
}

impl View for Gateway {
    type V = GatewayView;

    closed spec fn view(&self) -> GatewayView {
        GatewayView {
            address: self.address,
            hostname: match self.hostname {
                Some(h) => Some(h@),
                None => None,
            },
        }
    }
}

impl Clone for Gateway {
    fn clone(&self) -> (r: Self)
        ensures
            r == *self,
    {
        let hostname = match &self.hostname {
            Some(h) => Some(h.clone()),
            None => None,
        };
        Gateway { address: self.address, hostname }
    }
}

impl Gateway {
    /// The gateway at `address` on the default CoAP/DTLS port.
    pub fn new(address: IpAddress) -> (r: Self)
        ensures
            r@.hostname is None,
            r@.address == match address {
                IpAddress::V4(ip) => GatewayAddress::V4(Ipv4Endpoint { ip, port: DEFAULT_PORT }),
                IpAddress::V6(ip) => GatewayAddress::V6(
                    Ipv6Endpoint { ip, port: DEFAULT_PORT, flowinfo: 0, scope_id: 0 },
                ),
            },
    {
        let address = match address {
            IpAddress::V4(ip) => GatewayAddress::V4(Ipv4Endpoint { ip, port: DEFAULT_PORT }),
            IpAddress::V6(ip) => GatewayAddress::V6(
                Ipv6Endpoint { ip, port: DEFAULT_PORT, flowinfo: 0, scope_id: 0 },
            ),
        };
        Gateway { address, hostname: None }
    }

    /// The gateway at exactly `address`.
    pub fn from_socket_addr(address: GatewayAddress) -> (r: Self)
        ensures
            r@ == (GatewayView { address, hostname: None }),
    {
        Gateway { address, hostname: None }
    }

    /// A gateway found by discovery under `hostname`.
    pub fn from_discovery(address: GatewayAddress, hostname: String) -> (r: Self)
        ensures
            r@ == (GatewayView { address, hostname: Some(hostname@) }),
    {
        Gateway { address, hostname: Some(hostname) }
    }

    pub fn address(&self) -> (r: GatewayAddress)
        ensures
            r == self@.address,
    {
        self.address
    }

    pub fn hostname(&self) -> (r: Option<&str>)
        ensures
            r is Some <==> self@.hostname is Some,
            r matches Some(h) ==> self@.hostname == Some(h@),
    {
        match &self.hostname {
            Some(h) => Some(h.as_str()),
            None => None,
        }
    }

    /// A client for this gateway with the default options.
    pub fn connect(&self, credentials: Credentials) -> (r: Client)
        ensures
            r.gateway_spec()@ == self@,
            r.credentials_spec() == credentials,
            r.options_spec().request_timeout@ == 3_000_000_000nat,
            r.options_spec().retries == 3,
    {
        Client { gateway: self.clone(), credentials, options: ClientOptions::default() }
    }

    /// A client for this gateway with the given options.
    pub fn connect_with_options(&self, credentials: Credentials, options: ClientOptions) -> (r:
        Client)
        ensures
            r.gateway_spec()@ == self@,
            r.credentials_spec() == credentials,
            r.options_spec() == options,
    {
        Client { gateway: self.clone(), credentials, options }
    }
}

/// Authenticated client for a classic gateway.
pub struct Client {
    gateway: Gateway,
    credentials: Credentials,
    options: ClientOptions,
}

impl Clone for Client {
    fn clone(&self) -> (r: Self)
        ensures
            r == *self,
    {
        Client {
            gateway: self.gateway.clone(),
            credentials: self.credentials.clone(),
            options: self.options,
        }
    }
}

impl Client {
    pub closed spec fn gateway_spec(&self) -> Gateway {
        self.gateway
    }

    pub closed spec fn credentials_spec(&self) -> Credentials {
        self.credentials
    }

    pub closed spec fn options_spec(&self) -> ClientOptions {
        self.options
    }

    pub fn gateway(&self) -> (r: &Gateway)
        ensures
            *r == self.gateway_spec(),
    {
        &self.gateway
    }

    pub fn credentials(&self) -> (r: &Credentials)
        ensures
            *r == self.credentials_spec(),
    {
        &self.credentials
    }

    pub fn options(&self) -> (r: ClientOptions)
        ensures
            r == self.options_spec(),
    {
        self.options
    }
}

/// A failed member of a best-effort bulk read.
#[derive(Debug)]
pub struct ResourceFailure {
    pub id: u32,
    pub error: Error,
}

/// Results from a best-effort bulk read.
#[derive(Debug)]
pub struct BulkRead<T> {
    pub items: Vec<T>,
    pub failures: Vec<ResourceFailure>,
}

impl<T> BulkRead<T> {
    /// An empty result with room for `capacity` items.
    pub fn with_capacity(capacity: usize) -> (r: Self)
        ensures
            r.items@.len() == 0,
            r.failures@.len() == 0,
    {
        BulkRead { items: Vec::with_capacity(capacity), failures: Vec::new() }
    }

    /// Every member was read.
    pub fn is_complete(&self) -> (r: bool)
        ensures
            r == (self.failures@.len() == 0),
    {
        self.failures.len() == 0
    }
}

/// Files the outcome of reading member `id`: a success among the items, a
/// failure among the failures, each after those already there.
pub fn record_resource_result<T>(read: &mut BulkRead<T>, id: u32, result: Result<T, Error>)
    ensures
        match result {
            Ok(item) => {
                &&& final(read).items@ == old(read).items@.push(item)
                &&& final(read).failures@ == old(read).failures@
            },
            Err(error) => {
                &&& final(read).items@ == old(read).items@
                &&& final(read).failures@ == old(read).failures@.push(
                    ResourceFailure { id, error },
                )
            },
        },
{
    match result {
        Ok(item) => read.items.push(item),
        Err(error) => read.failures.push(ResourceFailure { id, error }),
    }
}

/// The identity `glimta-` followed by `a` and `b` as 16 hexadecimal digits each.
pub open spec fn identity_text(a: u64, b: u64) -> Seq<char> {
    "glimta-"@ + hex_fixed(a as nat, 16) + hex_fixed(b as nat, 16)
}

/// The client identity made from two numbers, as
/// `format!("glimta-{a:016x}{b:016x}")`.
pub fn identity_from(a: u64, b: u64) -> (r: String)
    ensures
        r@ == identity_text(a, b),
{
    let mut s = "glimta-".to_owned();
    push_hex_fixed(&mut s, a, 16);
    push_hex_fixed(&mut s, b, 16);
    assert(s@ =~= identity_text(a, b));
    s
}

/// `16` to the power `w`.
pub open spec fn pow16(w: nat) -> nat
    decreases w,
{
    if w == 0 {
        1
    } else {
        16 * pow16((w - 1) as nat)
    }
}

proof fn lemma_hex_fixed_len(n: nat, w: nat)
    ensures
        hex_fixed(n, w).len() == w,
    decreases w,
{
    if w > 0 {
        lemma_hex_fixed_len(n / 16, (w - 1) as nat);
    }
}

proof fn lemma_hex_fixed_injective(n: nat, m: nat, w: nat)
    requires
        n < pow16(w),
        m < pow16(w),
        hex_fixed(n, w) == hex_fixed(m, w),
    ensures
        n == m,
    decreases w,
{
    if w > 0 {
        let p = pow16((w - 1) as nat);
        lemma_hex_fixed_len(n / 16, (w - 1) as nat);
        lemma_hex_fixed_len(m / 16, (w - 1) as nat);
        let hn = hex_fixed(n / 16, (w - 1) as nat);
        let hm = hex_fixed(m / 16, (w - 1) as nat);
        assert(hex_fixed(n, w) == hn.push(digit_char(n % 16)));
        assert(hex_fixed(m, w) == hm.push(digit_char(m % 16)));
        assert(hn =~= hex_fixed(n, w).drop_last());
        assert(hm =~= hex_fixed(m, w).drop_last());
        assert(digit_char(n % 16) == hex_fixed(n, w).last());
        assert(digit_char(m % 16) == hex_fixed(m, w).last());
        assert(n % 16 == m % 16);
        assert(n / 16 < p) by (nonlinear_arith)
            requires
                n < 16 * p,
        ;
        assert(m / 16 < p) by (nonlinear_arith)
            requires
                m < 16 * p,
        ;
        lemma_hex_fixed_injective(n / 16, m / 16, (w - 1) as nat);
        assert(n == 16 * (n / 16) + n % 16) by (nonlinear_arith);
        assert(m == 16 * (m / 16) + m % 16) by (nonlinear_arith);
    }
}

/// Identities made from different numbers are different: the identity
/// determines both numbers it was made from. So two identities drawn from
/// different random numbers never collide.
pub proof fn lemma_identity_text_injective(a: u64, b: u64, c: u64, d: u64)
    ensures
        identity_text(a, b) == identity_text(c, d) <==> a == c && b == d,
{
    if identity_text(a, b) == identity_text(c, d) {
        reveal_strlit("glimta-");
        lemma_hex_fixed_len(a as nat, 16);
        lemma_hex_fixed_len(b as nat, 16);
        lemma_hex_fixed_len(c as nat, 16);
        lemma_hex_fixed_len(d as nat, 16);
        let t = identity_text(a, b);
        assert(t.subrange(7, 23) =~= hex_fixed(a as nat, 16));
        assert(t.subrange(23, 39) =~= hex_fixed(b as nat, 16));
        assert(identity_text(c, d).subrange(7, 23) =~= hex_fixed(c as nat, 16));
        assert(identity_text(c, d).subrange(23, 39) =~= hex_fixed(d as nat, 16));
        reveal_with_fuel(pow16, 17);
        assert(pow16(16) == 18446744073709551616);
        lemma_hex_fixed_injective(a as nat, c as nat, 16);
        lemma_hex_fixed_injective(b as nat, d as nat, 16);
    }
}

/// A random number from the thread-local generator.
/// Wraps `rand::random::<u64>`; the contract states nothing of the result,
/// which is random.
#[verifier::external_body]
fn random_u64() -> u64 {
    rand::random::<u64>()
}

/// A fresh random client identity.
pub fn random_identity() -> (r: String)
    ensures
        exists|a: u64, b: u64| r@ == identity_text(a, b),
{
    let a = random_u64();
    let b = random_u64();
    identity_from(a, b)
}

/// The fixed DTLS identity under which new credentials are provisioned.
pub const BOOTSTRAP_IDENTITY: &'static str = "Client_identity";

/// The credentials that open a provisioning session: the fixed bootstrap
/// identity with the printed security code as key. Fails on an empty code.
pub fn bootstrap_credentials(security_code: &str) -> (r: Result<Credentials, Error>)
    ensures
        r is Ok <==> security_code@.len() > 0,
        r matches Ok(c) ==> c.identity_text() == BOOTSTRAP_IDENTITY@ && c.key_text()
            == security_code@,
        r matches Err(e) ==> e matches Error::EmptyCredential(field) && field@ == "pre-shared key"@,
{
    proof {
        reveal_strlit("Client_identity");
    }
    Credentials::new(BOOTSTRAP_IDENTITY, security_code)
}

} // verus!
