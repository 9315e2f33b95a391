//! Laws of the peer grammar: what is written in the usual form is read back.

use crate::connection::peer_provider::{
    address_of, byte_at, digits_run, ipv4_at, is_digit, number, octet_at, peer_of, port_at, Ipv4,
    Peer,
};
use vstd::prelude::*;

verus! {

/// The decimal digits of a number, as bytes: no leading zero, "0" for zero.
pub open spec fn digits(n: nat) -> Seq<u8>
    decreases n,
{
    if n < 10 {
        seq![(48 + n) as u8]
    } else {
        digits(n / 10).push((48 + n % 10) as u8)
    }
}

/// An address in dotted decimal, as bytes.
pub open spec fn ipv4_bytes(ip: Ipv4) -> Seq<u8> {
    digits(ip.a as nat) + seq![46u8] + digits(ip.b as nat) + seq![46u8] + digits(ip.c as nat)
        + seq![46u8] + digits(ip.d as nat)
}

/// A peer as it is written: its address, and its port behind a colon where it
/// names one.
pub open spec fn peer_bytes(peer: Peer) -> Seq<u8> {
    match peer {
        Peer::Address(ip) => ipv4_bytes(ip),
        Peer::Endpoint(ip, port) => ipv4_bytes(ip) + seq![58u8] + digits(port as nat),
    }
}

/// The digits of a number spell that number, without a leading zero.
pub proof fn lemma_digits(n: nat)
    ensures
        digits(n).len() >= 1,
        forall|i: int| 0 <= i < digits(n).len() ==> is_digit(#[trigger] digits(n)[i]),
        digits(n).len() > 1 ==> digits(n)[0] != 48,
        number(digits(n)) == n,
        n <= 255 ==> digits(n).len() <= 3,
    decreases n,
{
    if n < 10 {
        assert(digits(n).drop_last() =~= Seq::<u8>::empty());
        assert(number(digits(n).drop_last()) == 0);
    } else {
        lemma_digits(n / 10);
        let front = digits(n / 10);
        assert(digits(n).drop_last() =~= front);
        assert(digits(n)[0] == front[0]);
        if n <= 255 {
            lemma_digits((n / 10) / 10);
            if n / 10 >= 10 {
                assert((n / 10) / 10 < 10);
            }
        }
    }
}

/// A row of digits that ends where the text ends, or before a byte that is no
/// digit, is read as a whole.
proof fn lemma_run(s: Seq<u8>, i: int, n: int)
    requires
        0 <= i,
        0 <= n,
        i + n <= s.len(),
        forall|j: int| i <= j < i + n ==> is_digit(#[trigger] s[j]),
        i + n == s.len() || !is_digit(s[i + n]),
    ensures
        digits_run(s, i) == n,
    decreases n,
{
    if n > 0 {
        lemma_run(s, i + 1, n - 1);
    }
}

/// An octet written in decimal at place `i`, with no digit behind it, is read
/// as that octet.
proof fn lemma_octet(s: Seq<u8>, i: int, v: u8)
    requires
        0 <= i,
        i + digits(v as nat).len() <= s.len(),
        s.subrange(i, i + digits(v as nat).len()) == digits(v as nat),
        i + digits(v as nat).len() == s.len() || !is_digit(s[i + digits(v as nat).len()]),
    ensures
        octet_at(s, i) == Some((v, i + digits(v as nat).len())),
{
    let d = digits(v as nat);
    lemma_digits(v as nat);
    assert forall|j: int| i <= j < i + d.len() implies is_digit(#[trigger] s[j]) by {
        assert(s[j] == s.subrange(i, i + d.len())[j - i]);
    }
    lemma_run(s, i, d.len() as int);
    assert(s[i] == s.subrange(i, i + d.len())[0]);
}

/// An address in dotted decimal, with no digit behind it, is read as that
/// address.
proof fn lemma_ipv4(s: Seq<u8>, ip: Ipv4)
    requires
        ipv4_bytes(ip).len() <= s.len(),
        s.subrange(0, ipv4_bytes(ip).len() as int) == ipv4_bytes(ip),
        ipv4_bytes(ip).len() == s.len() || !is_digit(s[ipv4_bytes(ip).len() as int]),
    ensures
        ipv4_at(s) == Some((ip, ipv4_bytes(ip).len() as int)),
{
    let a = digits(ip.a as nat);
    let b = digits(ip.b as nat);
    let c = digits(ip.c as nat);
    let d = digits(ip.d as nat);
    let text = ipv4_bytes(ip);
    let i = a.len() as int;
    let j = i + 1 + b.len();
    let k = j + 1 + c.len();
    let end = k + 1 + d.len();
    assert(text.len() == end);
    assert forall|x: int| 0 <= x < end implies s[x] == #[trigger] text[x] by {
        assert(s[x] == s.subrange(0, end)[x]);
    }
    let p1 = a + seq![46u8];
    let p2 = p1 + b;
    let p3 = p2 + seq![46u8];
    let p4 = p3 + c;
    let p5 = p4 + seq![46u8];
    assert(text == p5 + d);
    assert(s.subrange(0, i) =~= a);
    assert(s[i] == 46) by {
        assert(text[i] == p1[i]);
    }
    assert(s.subrange(i + 1, j) =~= b) by {
        assert forall|x: int| i + 1 <= x < j implies s[x] == b[x - (i + 1)] by {
            assert(text[x] == p2[x]);
        }
    }
    assert(s[j] == 46) by {
        assert(text[j] == p3[j]);
    }
    assert(s.subrange(j + 1, k) =~= c) by {
        assert forall|x: int| j + 1 <= x < k implies s[x] == c[x - (j + 1)] by {
            assert(text[x] == p4[x]);
        }
    }
    assert(s[k] == 46) by {
        assert(text[k] == p5[k]);
    }
    assert(s.subrange(k + 1, end) =~= d) by {
        assert forall|x: int| k + 1 <= x < end implies s[x] == d[x - (k + 1)] by {
            assert(text[x] == d[x - p5.len()]);
        }
    }
    lemma_octet(s, 0, ip.a);
    lemma_octet(s, i + 1, ip.b);
    lemma_octet(s, j + 1, ip.c);
    lemma_octet(s, k + 1, ip.d);
    assert(byte_at(s, i, 46));
    assert(byte_at(s, j, 46));
    assert(byte_at(s, k, 46));
}

/// An address written in dotted decimal is read back as itself.
pub proof fn lemma_address_reads_back(ip: Ipv4)
    ensures
        address_of(ipv4_bytes(ip)) == Some(ip),
{
    let s = ipv4_bytes(ip);
    assert(s.subrange(0, s.len() as int) =~= s);
    lemma_ipv4(s, ip);
}

/// A peer written as `A.B.C.D` or `A.B.C.D:P` is read back as itself.
pub proof fn lemma_peer_reads_back(peer: Peer)
    ensures
        peer_of(peer_bytes(peer)) == Some(peer),
{
    let s = peer_bytes(peer);
    match peer {
        Peer::Address(ip) => {
            assert(s.subrange(0, s.len() as int) =~= s);
            lemma_ipv4(s, ip);
        },
        Peer::Endpoint(ip, port) => {
            let head = ipv4_bytes(ip);
            let tail = digits(port as nat);
            let at = head.len() as int;
            lemma_digits(port as nat);
            assert(s.subrange(0, at) =~= head);
            assert(s[at] == 58);
            lemma_ipv4(s, ip);
            assert(s.subrange(at + 1, s.len() as int) =~= tail);
            assert forall|j: int| at + 1 <= j < at + 1 + tail.len() implies is_digit(
                #[trigger] s[j],
            ) by {
                assert(s[j] == tail[j - at - 1]);
            }
            lemma_run(s, at + 1, tail.len() as int);
            assert(byte_at(s, at, 58));
            assert(port_at(s, at + 1) == Some(port));
        },
    }
}

} // verus!
