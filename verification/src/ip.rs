//! Resolution of the real client address behind reverse proxies.
//!
//! The peer address of the connection is believed only when it is not one of
//! the trusted proxies. When it is, the `X-Forwarded-For` chain is scanned
//! from the right and the first address outside the trusted networks is the
//! client; when the whole chain is trusted, its leftmost address is taken.

use vstd::prelude::*;
use vstd::arithmetic::power2::pow2;
use crate::text::{chars_of, split_chars, trim_chars, string_of, concat_str, split_on, trim_spec,
    nonempty_pieces, prefix_before, suffix_from, take_until};

verus! {

/// An IP address: IPv4 as a 32-bit and IPv6 as a 128-bit number.
#[derive(Clone, Copy, Debug, PartialEq, Eq, Hash, Structural)]
pub enum IpAddress {
    V4(u32),
    V6(u128),
}

/// An IP network: an address and a prefix length.
#[derive(Clone, Copy, Debug, PartialEq, Eq, Structural)]
pub struct Cidr {
    pub addr: IpAddress,
    pub prefix: u8,
}

impl Cidr {
    /// The prefix length fits the address family.
    pub open spec fn wf(self) -> bool {
        match self.addr {
            IpAddress::V4(_) => self.prefix <= 32,
            IpAddress::V6(_) => self.prefix <= 128,
        }
    }
}

/// Whether network `n` holds address `ip`: same family, and the first
/// `n.prefix` bits of both agree (a zero-length prefix holds every address
/// of its family).
pub open spec fn spec_cidr_contains(n: Cidr, ip: IpAddress) -> bool {
    match (n.addr, ip) {
        (IpAddress::V4(a), IpAddress::V4(b)) => n.prefix == 0 || a as nat / pow2(
            (32 - n.prefix) as nat,
        ) == b as nat / pow2((32 - n.prefix) as nat),
        (IpAddress::V6(a), IpAddress::V6(b)) => n.prefix == 0 || a as nat / pow2(
            (128 - n.prefix) as nat,
        ) == b as nat / pow2((128 - n.prefix) as nat),
        _ => false,
    }
}

/// Whether `n` holds `ip`.
pub fn cidr_contains(n: &Cidr, ip: IpAddress) -> (r: bool)
    requires
        n.wf(),
    ensures
        r == spec_cidr_contains(*n, ip),
{
    match (n.addr, ip) {
        (IpAddress::V4(a), IpAddress::V4(b)) => {
            if n.prefix == 0 {
                true
            } else {
                let shift: u32 = 32 - n.prefix as u32;
                proof {
                    vstd::bits::lemma_u32_shr_is_div(a, shift);
                    vstd::bits::lemma_u32_shr_is_div(b, shift);
                }
                (a >> shift) == (b >> shift)
            }
        },
        (IpAddress::V6(a), IpAddress::V6(b)) => {
            if n.prefix == 0 {
                true
            } else {
                let shift: u128 = 128 - n.prefix as u128;
                proof {
                    vstd::bits::lemma_u128_shr_is_div(a, shift);
                    vstd::bits::lemma_u128_shr_is_div(b, shift);
                }
                (a >> shift) == (b >> shift)
            }
        },
        _ => false,
    }
}

/// Whether some network of `nets` holds `ip`.
pub open spec fn spec_in_any(ip: IpAddress, nets: Seq<Cidr>) -> bool {
    exists|i: int| 0 <= i < nets.len() && spec_cidr_contains(#[trigger] nets[i], ip)
}

/// Every network of `nets` is well formed.
pub open spec fn all_wf(nets: Seq<Cidr>) -> bool {
    forall|i: int| 0 <= i < nets.len() ==> (#[trigger] nets[i]).wf()
}

/// Whether some network of `cidrs` holds `ip`.
pub fn ip_in(ip: IpAddress, cidrs: &[Cidr]) -> (r: bool)
    requires
        all_wf(cidrs@),
    ensures
        r == spec_in_any(ip, cidrs@),
{
    let mut i: usize = 0;
    while i < cidrs.len()
        invariant
            i <= cidrs.len(),
            all_wf(cidrs@),
            forall|j: int| 0 <= j < i ==> !spec_cidr_contains(#[trigger] cidrs@[j], ip),
        decreases cidrs.len() - i,
    {
        if cidr_contains(&cidrs[i], ip) {
            return true;
        }
        i = i + 1;
    }
    false
}

// ---------- trusted networks ----------

/// What `ipnet` reads from the text of a network (`address/prefix`).
pub uninterp spec fn spec_parse_ipnet(s: Seq<char>) -> Option<Cidr>;

/// Calls `<ipnet::IpNet as FromStr>::from_str`: the network written as
/// `address/prefix`, or `None` when `s` is not such a text. A network that
/// comes out has a prefix that fits its family (ipnet reads at most 32 for
/// IPv4 and 128 for IPv6).
#[verifier::external_body]
fn parse_ipnet(s: &str) -> (r: Option<Cidr>)
    ensures
        r == spec_parse_ipnet(s@),
        r matches Some(n) ==> n.wf(),
{
    match s.parse::<ipnet::IpNet>() {
        Ok(ipnet::IpNet::V4(n)) => Some(Cidr { addr: IpAddress::V4(u32::from(n.addr())), prefix: n.prefix_len() }),
        Ok(ipnet::IpNet::V6(n)) => Some(Cidr { addr: IpAddress::V6(u128::from(n.addr())), prefix: n.prefix_len() }),
        Err(_) => None,
    }
}

/// The full prefix that makes a bare address into the network of that one
/// host: `/128` for a text with a `:` (IPv6), `/32` otherwise.
pub open spec fn host_suffix(s: Seq<char>) -> Seq<char> {
    if s.contains(':') {
        seq!['/', '1', '2', '8']
    } else {
        seq!['/', '3', '2']
    }
}

/// One trusted-proxy entry: a network, or a bare address standing for the
/// network of that single host.
pub open spec fn spec_trusted_entry(s: Seq<char>) -> Option<Cidr> {
    match spec_parse_ipnet(s) {
        Some(n) => Some(n),
        None => spec_parse_ipnet(s + host_suffix(s)),
    }
}

/// The entries of `raw` that read as networks, in order; the others are
/// dropped.
pub open spec fn spec_trusted_cidrs(raw: Seq<Seq<char>>) -> Seq<Cidr>
    decreases raw.len(),
{
    if raw.len() == 0 {
        Seq::empty()
    } else {
        let prev = spec_trusted_cidrs(raw.drop_last());
        match spec_trusted_entry(raw.last()) {
            Some(n) => prev.push(n),
            None => prev,
        }
    }
}

fn has_colon(s: &str) -> (r: bool)
    ensures
        r == s@.contains(':'),
{
    let v = chars_of(s);
    let mut i: usize = 0;
    while i < v.len()
        invariant
            i <= v.len(),
            v@ == s@,
            forall|j: int| 0 <= j < i ==> v@[j] != ':',
        decreases v.len() - i,
    {
        if v[i] == ':' {
            return true;
        }
        i = i + 1;
    }
    false
}

/// One trusted-proxy entry read as a network.
pub fn parse_trusted_entry(s: &str) -> (r: Option<Cidr>)
    ensures
        r == spec_trusted_entry(s@),
        r matches Some(n) ==> n.wf(),
{
    match parse_ipnet(s) {
        Some(n) => Some(n),
        None => {
            let colon = has_colon(s);
            let suffix = if colon {
                "/128"
            } else {
                "/32"
            };
            proof {
                reveal_strlit("/128");
                reveal_strlit("/32");
                assert(suffix@ =~= host_suffix(s@));
            }
            let full = concat_str(s, suffix);
            parse_ipnet(full.as_str())
        },
    }
}

/// The configured trusted proxies read as networks; entries that read as
/// neither a network nor an address are dropped.
pub fn parse_trusted_cidrs(raw: &[String]) -> (r: Vec<Cidr>)
    ensures
        r@ == spec_trusted_cidrs(raw@.map_values(|s: String| s@)),
        all_wf(r@),
{
    let ghost rs = raw@.map_values(|s: String| s@);
    let mut out: Vec<Cidr> = Vec::new();
    let mut i: usize = 0;
    proof {
        assert(rs.take(0) =~= Seq::<Seq<char>>::empty());
    }
    while i < raw.len()
        invariant
            i <= raw.len(),
            rs == raw@.map_values(|s: String| s@),
            out@ == spec_trusted_cidrs(rs.take(i as int)),
            all_wf(out@),
        decreases raw.len() - i,
    {
        proof {
            assert(rs.take(i + 1).drop_last() =~= rs.take(i as int));
            assert(rs.take(i + 1).last() == raw@[i as int]@);
        }
        match parse_trusted_entry(raw[i].as_str()) {
            Some(n) => {
                out.push(n);
            },
            None => {},
        }
        i = i + 1;
    }
    proof {
        assert(rs.take(raw.len() as int) =~= rs);
    }
    out
}

// ---------- X-Forwarded-For ----------

/// The entries of an `X-Forwarded-For` header: the comma-separated pieces,
/// trimmed, empty ones dropped.
pub open spec fn spec_forwarded_entries(h: Seq<char>) -> Seq<Seq<char>> {
    nonempty_pieces(split_on(h, ',').map_values(|p: Seq<char>| trim_spec(p)))
}

/// The entries of an `X-Forwarded-For` header, each still to be read as an
/// address (with or without a port).
pub fn forwarded_entries(header: &str) -> (r: Vec<String>)
    ensures
        r@.map_values(|s: String| s@) == spec_forwarded_entries(header@),
{
    let v = chars_of(header);
    let parts = split_chars(&v, ',');
    let ghost ps = parts@.map_values(|p: Vec<char>| p@);
    let ghost ts = ps.map_values(|p: Seq<char>| trim_spec(p));
    let mut out: Vec<String> = Vec::new();
    let mut i: usize = 0;
    proof {
        assert(ts.take(0) =~= Seq::<Seq<char>>::empty());
    }
    while i < parts.len()
        invariant
            i <= parts.len(),
            ps == parts@.map_values(|p: Vec<char>| p@),
            ts == ps.map_values(|p: Seq<char>| trim_spec(p)),
            out@.map_values(|s: String| s@) == nonempty_pieces(ts.take(i as int)),
        decreases parts.len() - i,
    {
        let t = trim_chars(&parts[i]);
        proof {
            assert(ts.take(i + 1).drop_last() =~= ts.take(i as int));
            assert(ts.take(i + 1).last() == t@);
        }
        if t.len() > 0 {
            let ghost before = out@.map_values(|s: String| s@);
            let s = string_of(&t);
            out.push(s);
            proof {
                assert(out@.map_values(|s: String| s@) =~= before.push(t@));
            }
        }
        i = i + 1;
    }
    proof {
        assert(ts.take(parts.len() as int) =~= ts);
        assert(split_on(header@, ',') == ps);
    }
    out
}

// ---------- choosing the client ----------

/// The rightmost address of `chain` that no trusted network holds.
pub open spec fn spec_rightmost_untrusted(chain: Seq<IpAddress>, nets: Seq<Cidr>) -> Option<
    IpAddress,
>
    decreases chain.len(),
{
    if chain.len() == 0 {
        None
    } else if !spec_in_any(chain.last(), nets) {
        Some(chain.last())
    } else {
        spec_rightmost_untrusted(chain.drop_last(), nets)
    }
}

/// The client named by a forwarded chain: its rightmost untrusted address,
/// or its leftmost address when every address is trusted.
pub open spec fn spec_pick_client(chain: Seq<IpAddress>, nets: Seq<Cidr>) -> Option<IpAddress> {
    match spec_rightmost_untrusted(chain, nets) {
        Some(ip) => Some(ip),
        None => if chain.len() > 0 {
            Some(chain[0])
        } else {
            None
        },
    }
}

/// The client named by a forwarded chain behind a trusted proxy.
pub fn pick_client_from_chain(chain: &[IpAddress], trusted: &[Cidr]) -> (r: Option<IpAddress>)
    requires
        all_wf(trusted@),
    ensures
        r == spec_pick_client(chain@, trusted@),
{
    let mut k: usize = chain.len();
    proof {
        assert(chain@.take(k as int) =~= chain@);
    }
    while k > 0
        invariant
            k <= chain.len(),
            all_wf(trusted@),
            spec_rightmost_untrusted(chain@, trusted@) == spec_rightmost_untrusted(
                chain@.take(k as int),
                trusted@,
            ),
        decreases k,
    {
        let ip = chain[k - 1];
        proof {
            assert(chain@.take(k as int).last() == ip);
            assert(chain@.take(k as int).drop_last() =~= chain@.take(k - 1));
        }
        if !ip_in(ip, trusted) {
            return Some(ip);
        }
        k = k - 1;
    }
    if chain.len() > 0 {
        Some(chain[0])
    } else {
        None
    }
}

/// The real client address: the peer itself unless a trusted network holds
/// it; behind a trusted peer, the client that a non-empty forwarded chain
/// names, else the peer.
pub open spec fn spec_resolve_client_ip(
    peer: Option<IpAddress>,
    forwarded: Option<Seq<IpAddress>>,
    nets: Seq<Cidr>,
) -> Option<IpAddress> {
    match peer {
        None => None,
        Some(p) => if !spec_in_any(p, nets) {
            Some(p)
        } else {
            match forwarded {
                Some(chain) => if chain.len() > 0 {
                    spec_pick_client(chain, nets)
                } else {
                    Some(p)
                },
                None => Some(p),
            }
        },
    }
}

// ---------- reading `X-Forwarded-For` ----------

/// An address written alone, read with the network grammar as the network
/// of that one host.
pub open spec fn spec_parse_addr(s: Seq<char>) -> Option<IpAddress> {
    match spec_parse_ipnet(s + host_suffix(s)) {
        Some(n) => Some(n.addr),
        None => None,
    }
}

/// An address written alone.
fn parse_addr(s: &str) -> (r: Option<IpAddress>)
    ensures
        r == spec_parse_addr(s@),
{
    let colon = has_colon(s);
    let suffix = if colon {
        "/128"
    } else {
        "/32"
    };
    proof {
        reveal_strlit("/128");
        reveal_strlit("/32");
        assert(suffix@ =~= host_suffix(s@));
    }
    let full = concat_str(s, suffix);
    match parse_ipnet(full.as_str()) {
        Some(n) => Some(n.addr),
        None => None,
    }
}

pub open spec fn is_digit(c: char) -> bool {
    '0' <= c && c <= '9'
}

/// The decimal value of a digit string.
pub open spec fn digits_value(s: Seq<char>) -> int
    decreases s.len(),
{
    if s.len() == 0 {
        0
    } else {
        digits_value(s.drop_last()) * 10 + (s.last() as int - 48)
    }
}

/// A port: one or more decimal digits with a value up to 65535.
pub open spec fn spec_port_ok(p: Seq<char>) -> bool {
    p.len() > 0 && (forall|i: int| 0 <= i < p.len() ==> is_digit(#[trigger] p[i]))
        && digits_value(p) <= 65535
}

fn port_ok(p: &Vec<char>) -> (r: bool)
    ensures
        r == spec_port_ok(p@),
{
    if p.len() == 0 {
        return false;
    }
    let mut acc: u32 = 0;
    let mut i: usize = 0;
    proof {
        assert(p@.take(0) =~= Seq::<char>::empty());
    }
    while i < p.len()
        invariant
            i <= p.len(),
            forall|j: int| 0 <= j < i ==> is_digit(#[trigger] p@[j]),
            acc == if digits_value(p@.take(i as int)) > 65535 {
                65536
            } else {
                digits_value(p@.take(i as int))
            },
        decreases p.len() - i,
    {
        let c = p[i];
        if !('0' <= c && c <= '9') {
            proof {
                assert(!is_digit(p@[i as int]));
            }
            return false;
        }
        proof {
            assert(p@.take(i + 1).drop_last() =~= p@.take(i as int));
            assert(p@.take(i + 1).last() == c);
        }
        let d: u32 = (c as u32) - 48;
        if acc <= 65535 {
            acc = acc * 10 + d;
            if acc > 65535 {
                acc = 65536;
            }
        }
        i = i + 1;
    }
    proof {
        assert(p@.take(p.len() as int) =~= p@);
    }
    acc <= 65535
}

/// An address with a port: `a.b.c.d:port` or `[v6]:port`.
pub open spec fn spec_parse_socket(e: Seq<char>) -> Option<IpAddress> {
    if e.len() > 0 && e[0] == '[' {
        let inner = prefix_before(e.skip(1), ']');
        let after = e.skip(1 + inner.len() as int);
        if after.len() >= 2 && after[0] == ']' && after[1] == ':' && spec_port_ok(after.skip(2)) {
            match spec_parse_addr(inner) {
                Some(IpAddress::V6(x)) => Some(IpAddress::V6(x)),
                _ => None,
            }
        } else {
            None
        }
    } else {
        let host = prefix_before(e, ':');
        let rest = e.skip(host.len() as int);
        if rest.len() >= 1 && spec_port_ok(rest.skip(1)) {
            match spec_parse_addr(host) {
                Some(IpAddress::V4(x)) => Some(IpAddress::V4(x)),
                _ => None,
            }
        } else {
            None
        }
    }
}

proof fn lemma_prefix_before_len(s: Seq<char>, c: char)
    ensures
        prefix_before(s, c).len() <= s.len(),
    decreases s.len(),
{
    if s.len() > 0 && s[0] != c {
        lemma_prefix_before_len(s.skip(1), c);
    }
}

fn parse_socket(e: &Vec<char>) -> (r: Option<IpAddress>)
    ensures
        r == spec_parse_socket(e@),
{
    if e.len() > 0 && e[0] == '[' {
        let tail = suffix_from(e, 1);
        let (inner, _) = take_until(&tail, ']');
        proof {
            lemma_prefix_before_len(tail@, ']');
            assert(e@.skip(1 + inner.len()) =~= tail@.skip(inner.len() as int));
        }
        let after = suffix_from(&tail, inner.len());
        if after.len() >= 2 && after[0] == ']' && after[1] == ':' {
            let port = suffix_from(&after, 2);
            if port_ok(&port) {
                let inner_s = string_of(&inner);
                return match parse_addr(inner_s.as_str()) {
                    Some(IpAddress::V6(x)) => Some(IpAddress::V6(x)),
                    _ => None,
                };
            }
        }
        None
    } else {
        let (host, _) = take_until(e, ':');
        proof {
            lemma_prefix_before_len(e@, ':');
        }
        let rest = suffix_from(e, host.len());
        if rest.len() >= 1 {
            let port = suffix_from(&rest, 1);
            if port_ok(&port) {
                let host_s = string_of(&host);
                return match parse_addr(host_s.as_str()) {
                    Some(IpAddress::V4(x)) => Some(IpAddress::V4(x)),
                    _ => None,
                };
            }
        }
        None
    }
}

/// One `X-Forwarded-For` entry read as an address, with or without a port.
pub open spec fn spec_forwarded_entry(e: Seq<char>) -> Option<IpAddress> {
    match spec_parse_socket(e) {
        Some(a) => Some(a),
        None => spec_parse_addr(e),
    }
}

/// The addresses of entries, in order; entries that read as no address are
/// dropped.
pub open spec fn spec_entry_addrs(es: Seq<Seq<char>>) -> Seq<IpAddress>
    decreases es.len(),
{
    if es.len() == 0 {
        Seq::empty()
    } else {
        let prev = spec_entry_addrs(es.drop_last());
        match spec_forwarded_entry(es.last()) {
            Some(a) => prev.push(a),
            None => prev,
        }
    }
}

/// The address chain of an `X-Forwarded-For` header.
pub open spec fn spec_forwarded_chain(header: Seq<char>) -> Seq<IpAddress> {
    spec_entry_addrs(spec_forwarded_entries(header))
}

/// The addresses an `X-Forwarded-For` header lists, left to right: its
/// comma-separated, trimmed, non-empty entries read as addresses with or
/// without a port; entries that are no address are dropped.
pub fn parse_forwarded_for(header: &str) -> (r: Vec<IpAddress>)
    ensures
        r@ == spec_forwarded_chain(header@),
{
    let entries = forwarded_entries(header);
    let ghost es = entries@.map_values(|s: String| s@);
    let mut out: Vec<IpAddress> = Vec::new();
    let mut i: usize = 0;
    proof {
        assert(es.take(0) =~= Seq::<Seq<char>>::empty());
    }
    while i < entries.len()
        invariant
            i <= entries.len(),
            es == entries@.map_values(|s: String| s@),
            es == spec_forwarded_entries(header@),
            out@ == spec_entry_addrs(es.take(i as int)),
        decreases entries.len() - i,
    {
        proof {
            assert(es.take(i + 1).drop_last() =~= es.take(i as int));
            assert(es.take(i + 1).last() == entries@[i as int]@);
        }
        let e = chars_of(entries[i].as_str());
        match parse_socket(&e) {
            Some(a) => out.push(a),
            None => match parse_addr(entries[i].as_str()) {
                Some(a) => out.push(a),
                None => {},
            },
        }
        i = i + 1;
    }
    proof {
        assert(es.take(entries.len() as int) =~= es);
    }
    out
}

/// The forwarded chain of an optional header.
pub open spec fn header_chain(h: Option<Seq<char>>) -> Option<Seq<IpAddress>> {
    match h {
        Some(t) => Some(spec_forwarded_chain(t)),
        None => None,
    }
}

/// The real client address for a request, from the connection's peer
/// address and its `X-Forwarded-For` header, if any.
pub fn resolve_client_ip(
    peer_addr: Option<IpAddress>,
    forwarded_for: Option<&str>,
    trusted: &[Cidr],
) -> (r: Option<IpAddress>)
    requires
        all_wf(trusted@),
    ensures
        r == spec_resolve_client_ip(peer_addr, header_chain(crate::i18n::opt_view(forwarded_for)), trusted@),
{
    let peer = match peer_addr {
        Some(p) => p,
        None => {
            return None;
        },
    };
    if !ip_in(peer, trusted) {
        return Some(peer);
    }
    match forwarded_for {
        Some(h) => {
            let chain = parse_forwarded_for(h);
            if chain.len() > 0 {
                let picked = pick_client_from_chain(chain.as_slice(), trusted);
                match picked {
                    Some(ip) => Some(ip),
                    None => Some(peer),
                }
            } else {
                Some(peer)
            }
        },
        None => Some(peer),
    }
}

proof fn lemma_rightmost_untrusted_member(chain: Seq<IpAddress>, nets: Seq<Cidr>)
    ensures
        spec_rightmost_untrusted(chain, nets) matches Some(ip) ==> chain.contains(ip)
            && !spec_in_any(ip, nets),
        spec_rightmost_untrusted(chain, nets) is None ==> forall|i: int|
            0 <= i < chain.len() ==> spec_in_any(#[trigger] chain[i], nets),
    decreases chain.len(),
{
    if chain.len() > 0 {
        lemma_rightmost_untrusted_member(chain.drop_last(), nets);
        if spec_in_any(chain.last(), nets) {
            if let Some(ip) = spec_rightmost_untrusted(chain.drop_last(), nets) {
                let j = choose|j: int| 0 <= j < chain.drop_last().len() && chain.drop_last()[j] == ip;
                assert(chain[j] == ip);
            } else {
                assert forall|i: int| 0 <= i < chain.len() implies spec_in_any(
                    #[trigger] chain[i],
                    nets,
                ) by {
                    if i < chain.len() - 1 {
                        assert(chain.drop_last()[i] == chain[i]);
                    }
                }
            }
        } else {
            assert(chain[chain.len() - 1] == chain.last());
        }
    }
}

/// A peer that no trusted network holds is the client, whatever the
/// forwarded header says.
pub proof fn law_untrusted_peer_is_client(
    peer: IpAddress,
    forwarded: Option<Seq<IpAddress>>,
    nets: Seq<Cidr>,
)
    requires
        !spec_in_any(peer, nets),
    ensures
        spec_resolve_client_ip(Some(peer), forwarded, nets) == Some(peer),
{
}

/// Without a peer address there is no client address; with one there is
/// always a client address, and it is the peer or one of the forwarded
/// addresses.
pub proof fn law_client_is_peer_or_forwarded(
    peer: Option<IpAddress>,
    forwarded: Option<Seq<IpAddress>>,
    nets: Seq<Cidr>,
)
    ensures
        peer is None ==> spec_resolve_client_ip(peer, forwarded, nets) is None,
        peer matches Some(p) ==> spec_resolve_client_ip(peer, forwarded, nets) matches Some(c)
            && (c == p || (forwarded matches Some(chain) && chain.contains(c))),
{
    if let (Some(p), Some(chain)) = (peer, forwarded) {
        lemma_rightmost_untrusted_member(chain, nets);
        if chain.len() > 0 {
            assert(chain[0] == chain[0]);
            assert(chain.contains(chain[0]));
        }
    }
}

/// Behind a trusted proxy, the client taken from the forwarded chain is an
/// address that no trusted network holds, unless every address of the chain
/// is trusted, in which case it is the chain's leftmost address.
pub proof fn law_forwarded_client_is_untrusted_or_leftmost(chain: Seq<IpAddress>, nets: Seq<Cidr>)
    requires
        chain.len() > 0,
    ensures
        spec_pick_client(chain, nets) matches Some(c) && (!spec_in_any(c, nets) || (c == chain[0]
            && forall|i: int| 0 <= i < chain.len() ==> spec_in_any(#[trigger] chain[i], nets))),
{
    lemma_rightmost_untrusted_member(chain, nets);
}

/// The client address that the address-resolving layer attached to a
/// request (`None` when no peer address was known).
#[derive(Clone, Copy, Debug)]
pub struct ClientIp(pub Option<IpAddress>);

/// The rate-limit key of a request: its resolved client address.
#[derive(Clone, Copy, Debug)]
pub struct ClientIpKeyExtractor;

impl ClientIpKeyExtractor {
    /// The key for a request with the given resolved client address; a
    /// request without one (the resolving layer not installed) falls back to
    /// the shared key `0.0.0.0`.
    pub fn extract(client: Option<ClientIp>) -> (r: IpAddress)
        ensures
            r == match client {
                Some(ClientIp(Some(ip))) => ip,
                _ => IpAddress::V4(0),
            },
    {
        match client {
            Some(ClientIp(Some(ip))) => ip,
            _ => IpAddress::V4(0),
        }
    }
}

} // verus!
