//! Peers and where they come from. A peer is an IPv4 address, with or without
//! a port; a provider hands out the peers that are known at the moment.

pub mod k8s;
pub mod laws;
pub mod static_peer_provider;

use vstd::prelude::*;
use vstd::string::StringSliceAdditionalSpecFns;

verus! {

/// An IPv4 address, by its four octets.
#[derive(Clone, Copy, Debug, PartialEq, Eq, Structural)]
pub struct Ipv4 {
    pub a: u8,
    pub b: u8,
    pub c: u8,
    pub d: u8,
}

/// Another instance of this system.
#[derive(Clone, Copy, Debug, PartialEq, Eq, Structural)]
pub enum Peer {
    /// A bare address: the port to dial is left to the connection.
    Address(Ipv4),
    /// An address with the port to dial.
    Endpoint(Ipv4, u16),
}

/// The text was neither an IPv4 address nor an IPv4 address with a port.
#[derive(Clone, Copy, Debug, PartialEq, Eq, Structural)]
pub struct AddrParseError {}

/// Why a provider could not be made ready.
#[derive(Debug)]
pub struct InitError {
    pub reason: String,
}

/// A source of peers.
pub trait PeerProvider {
    /// The peers known at the moment, in the order in which `get` hands them
    /// out.
    spec fn known(&self) -> Seq<Peer>;

    /// Called once before the first `get`.
    fn init(&self) -> Result<(), InitError>;

    /// The peers known at the moment; none where nothing was learned yet.
    fn get(&self) -> (peers: Vec<Peer>)
        ensures
            peers@ == self.known(),
    ;
}

/// Whether a byte is a decimal digit.
pub open spec fn is_digit(b: u8) -> bool {
    48 <= b <= 57
}

/// The number of decimal digits that stand in a row from place `i` on.
pub open spec fn digits_run(s: Seq<u8>, i: int) -> nat
    decreases s.len() - i,
{
    if 0 <= i < s.len() && is_digit(s[i]) {
        1 + digits_run(s, i + 1)
    } else {
        0
    }
}

/// The number that a row of decimal digits spells.
pub open spec fn number(digits: Seq<u8>) -> nat
    decreases digits.len(),
{
    if digits.len() == 0 {
        0
    } else {
        number(digits.drop_last()) * 10 + (digits.last() - 48) as nat
    }
}

/// The octet that stands at place `i`, with the place behind it: one to three
/// digits, no leading zero before another digit, at most 255.
pub open spec fn octet_at(s: Seq<u8>, i: int) -> Option<(u8, int)> {
    let n = digits_run(s, i);
    let v = number(s.subrange(i, i + n));
    if 1 <= n <= 3 && (n > 1 ==> s[i] != 48) && v <= 255 {
        Some((v as u8, i + n))
    } else {
        None
    }
}

/// Whether the byte at place `i` is `b`.
pub open spec fn byte_at(s: Seq<u8>, i: int, b: u8) -> bool {
    0 <= i < s.len() && s[i] == b
}

/// The address that starts the text, with the place behind it: four octets
/// with a dot between each two.
pub open spec fn ipv4_at(s: Seq<u8>) -> Option<(Ipv4, int)> {
    match octet_at(s, 0) {
        Some((a, i)) if byte_at(s, i, 46) => match octet_at(s, i + 1) {
            Some((b, j)) if byte_at(s, j, 46) => match octet_at(s, j + 1) {
                Some((c, k)) if byte_at(s, k, 46) => match octet_at(s, k + 1) {
                    Some((d, end)) => Some((Ipv4 { a, b, c, d }, end)),
                    None => None,
                },
                _ => None,
            },
            _ => None,
        },
        _ => None,
    }
}

/// The port that fills the text from place `i` to its end: one or more digits,
/// at most 65535.
pub open spec fn port_at(s: Seq<u8>, i: int) -> Option<u16> {
    let n = digits_run(s, i);
    let v = number(s.subrange(i, i + n));
    if n >= 1 && i + n == s.len() && v <= 65535 {
        Some(v as u16)
    } else {
        None
    }
}

/// The peer that a text spells: `A.B.C.D`, or `A.B.C.D:P`, and nothing else.
pub open spec fn peer_of(s: Seq<u8>) -> Option<Peer> {
    match ipv4_at(s) {
        Some((ip, end)) => if end == s.len() {
            Some(Peer::Address(ip))
        } else if byte_at(s, end, 58) {
            match port_at(s, end + 1) {
                Some(port) => Some(Peer::Endpoint(ip, port)),
                None => None,
            }
        } else {
            None
        },
        None => None,
    }
}

/// The address that a text spells: `A.B.C.D`, and nothing else.
pub open spec fn address_of(s: Seq<u8>) -> Option<Ipv4> {
    match ipv4_at(s) {
        Some((ip, end)) => if end == s.len() {
            Some(ip)
        } else {
            None
        },
        None => None,
    }
}

proof fn lemma_number_push(digits: Seq<u8>, d: u8)
    ensures
        number(digits.push(d)) == number(digits) * 10 + (d - 48) as nat,
{
    assert(digits.push(d).drop_last() =~= digits);
}

/// Reads the row of digits that starts at `start`: where it ends, and the
/// number it spells unless that exceeds `limit`.
fn read_number(s: &[u8], start: usize, limit: u32) -> (r: (usize, Option<u32>))
    requires
        start <= s.len(),
        limit <= 65535,
    ensures
        r.0 == start + digits_run(s@, start as int),
        r.0 <= s.len(),
        match r.1 {
            Some(v) => v == number(s@.subrange(start as int, r.0 as int)) && v <= limit,
            None => number(s@.subrange(start as int, r.0 as int)) > limit,
        },
{
    let mut i = start;
    let mut v: u32 = 0;
    let mut over = false;
    assert(s@.subrange(start as int, start as int) =~= Seq::<u8>::empty());
    while i < s.len() && s[i] >= 48 && s[i] <= 57
        invariant
            start <= i <= s.len(),
            limit <= 65535,
            digits_run(s@, start as int) == (i - start) + digits_run(s@, i as int),
            !over ==> v == number(s@.subrange(start as int, i as int)) && v <= limit,
            over ==> number(s@.subrange(start as int, i as int)) > limit,
        decreases s.len() - i,
    {
        proof {
            lemma_number_push(s@.subrange(start as int, i as int), s@[i as int]);
            assert(s@.subrange(start as int, i as int + 1) =~= s@.subrange(
                start as int,
                i as int,
            ).push(s@[i as int]));
        }
        if !over {
            let next = v * 10 + (s[i] - 48) as u32;
            if next > limit {
                over = true;
            } else {
                v = next;
            }
        }
        i += 1;
    }
    if over {
        (i, None)
    } else {
        (i, Some(v))
    }
}

/// Reads the octet that stands at `start`.
fn read_octet(s: &[u8], start: usize) -> (r: Option<(u8, usize)>)
    requires
        start <= s.len(),
    ensures
        match r {
            Some((v, end)) => octet_at(s@, start as int) == Some((v, end as int)) && end <= s.len(),
            None => octet_at(s@, start as int) is None,
        },
{
    let (end, value) = read_number(s, start, 255);
    let n = end - start;
    if n < 1 || n > 3 {
        return None;
    }
    if n > 1 && s[start] == 48 {
        return None;
    }
    match value {
        Some(v) => Some((v as u8, end)),
        None => None,
    }
}

/// Reads the address that starts the text.
fn read_ipv4(s: &[u8]) -> (r: Option<(Ipv4, usize)>)
    ensures
        match r {
            Some((ip, end)) => ipv4_at(s@) == Some((ip, end as int)) && end <= s.len(),
            None => ipv4_at(s@) is None,
        },
{
    let (a, i) = match read_octet(s, 0) {
        Some(r) => r,
        None => return None,
    };
    if i >= s.len() || s[i] != 46 {
        return None;
    }
    let (b, j) = match read_octet(s, i + 1) {
        Some(r) => r,
        None => return None,
    };
    if j >= s.len() || s[j] != 46 {
        return None;
    }
    let (c, k) = match read_octet(s, j + 1) {
        Some(r) => r,
        None => return None,
    };
    if k >= s.len() || s[k] != 46 {
        return None;
    }
    let (d, end) = match read_octet(s, k + 1) {
        Some(r) => r,
        None => return None,
    };
    Some((Ipv4 { a, b, c, d }, end))
}

/// Reads a peer from the bytes of a text.
pub fn parse_peer(s: &[u8]) -> (r: Option<Peer>)
    ensures
        r == peer_of(s@),
{
    let (ip, end) = match read_ipv4(s) {
        Some(r) => r,
        None => return None,
    };
    if end == s.len() {
        return Some(Peer::Address(ip));
    }
    if s[end] != 58 {
        return None;
    }
    let (stop, value) = read_number(s, end + 1, 65535);
    if stop == end + 1 || stop != s.len() {
        return None;
    }
    match value {
        Some(port) => Some(Peer::Endpoint(ip, port as u16)),
        None => None,
    }
}

/// Reads a bare address from the bytes of a text.
pub fn parse_address(s: &[u8]) -> (r: Option<Ipv4>)
    ensures
        r == address_of(s@),
{
    match read_ipv4(s) {
        Some((ip, end)) => if end == s.len() {
            Some(ip)
        } else {
            None
        },
        None => None,
    }
}

impl Peer {
    /// Reads a peer from `A.B.C.D:P` or `A.B.C.D`.
    pub fn from_str(s: &str) -> (r: Result<Peer, AddrParseError>)
        ensures
            match r {
                Ok(peer) => peer_of(s.spec_bytes()) == Some(peer),
                Err(_) => peer_of(s.spec_bytes()) is None,
            },
    {
        match parse_peer(s.as_bytes()) {
            Some(peer) => Ok(peer),
            None => Err(AddrParseError {  }),
        }
    }

    /// The address of the peer.
    pub open spec fn address(self) -> Ipv4 {
        match self {
            Peer::Address(ip) => ip,
            Peer::Endpoint(ip, _) => ip,
        }
    }

    /// The port of the peer, where it names one.
    pub open spec fn named_port(self) -> Option<u16> {
        match self {
            Peer::Address(_) => None,
            Peer::Endpoint(_, port) => Some(port),
        }
    }

    /// The address of the peer.
    pub fn ip(&self) -> (r: &Ipv4)
        ensures
            *r == self.address(),
    {
        match self {
            Peer::Address(ip) => ip,
            Peer::Endpoint(ip, _) => ip,
        }
    }

    /// The port of the peer; `None` for a bare address.
    pub fn port(&self) -> (r: Option<u16>)
        ensures
            r == self.named_port(),
    {
        match self {
            Peer::Address(_) => None,
            Peer::Endpoint(_, port) => Some(*port),
        }
    }
}

} // verus!
