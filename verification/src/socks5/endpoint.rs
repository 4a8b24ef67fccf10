//! The address model: what a SOCKS address names once it is resolved.
//!
//! Name resolution itself is the work of the session's driver; this module
//! decides which of the resolver's candidates is used.

use crate::socks5::types::{AddressView, SocksAddress};
use crate::socks5::wire::be_u32_bytes;
use vstd::prelude::*;

verus! {

/// A socket address that a connection can be opened to or accepted from.
#[derive(Clone, Copy, Debug, PartialEq, Eq)]
pub enum SocketEndpoint {
    /// The four octets of an IPv4 address, first octet first, and the port.
    V4([u8; 4], u16),
    /// The eight groups of an IPv6 address, first group first, and the port.
    V6([u16; 8], u16),
}

/// The first IPv4 endpoint among the candidates, if there is one.
pub open spec fn first_ipv4(candidates: Seq<SocketEndpoint>) -> Option<SocketEndpoint>
    decreases candidates.len(),
{
    if candidates.len() == 0 {
        None
    } else if candidates[0] is V4 {
        Some(candidates[0])
    } else {
        first_ipv4(candidates.drop_first())
    }
}

/// The endpoint that an address names, given what the resolver found for it.
/// An IPv4 address names its four octets, most significant first. A domain
/// names the first IPv4 candidate. An IPv6 address names its groups if there
/// are eight of them.
pub open spec fn socket_addr_of(address: AddressView, candidates: Seq<SocketEndpoint>) -> Option<
    SocketEndpoint,
> {
    match address {
        AddressView::Ipv4(val, port) => Some(
            SocketEndpoint::V4(
                [
                    be_u32_bytes(val)[0],
                    be_u32_bytes(val)[1],
                    be_u32_bytes(val)[2],
                    be_u32_bytes(val)[3],
                ],
                port,
            ),
        ),
        AddressView::Domain(_, _) => first_ipv4(candidates),
        AddressView::Ipv6(groups, port) => if groups.len() == 8 {
            Some(
                SocketEndpoint::V6(
                    [
                        groups[0],
                        groups[1],
                        groups[2],
                        groups[3],
                        groups[4],
                        groups[5],
                        groups[6],
                        groups[7],
                    ],
                    port,
                ),
            )
        } else {
            None
        },
    }
}

/// The first IPv4 candidate is an IPv4 endpoint, stands among the
/// candidates, and has no IPv4 candidate before it; there is none exactly
/// when no candidate is an IPv4 endpoint.
pub proof fn lemma_first_ipv4(candidates: Seq<SocketEndpoint>)
    ensures
        first_ipv4(candidates) matches Some(found) ==> found is V4 && exists|k: int|
            0 <= k < candidates.len() && candidates[k] == found && forall|j: int|
                0 <= j < k ==> !(#[trigger] candidates[j] is V4),
        first_ipv4(candidates) is None <==> forall|j: int|
            0 <= j < candidates.len() ==> !(#[trigger] candidates[j] is V4),
    decreases candidates.len(),
{
    if candidates.len() == 0 {
    } else if candidates[0] is V4 {
        assert(forall|j: int| 0 <= j < 0 ==> !(#[trigger] candidates[j] is V4));
    } else {
        let tail = candidates.drop_first();
        lemma_first_ipv4(tail);
        assert(forall|j: int| 0 <= j < tail.len() ==> tail[j] == candidates[j + 1]);
        if let Some(found) = first_ipv4(tail) {
            let k = choose|k: int|
                0 <= k < tail.len() && tail[k] == found && forall|j: int|
                    0 <= j < k ==> !(#[trigger] tail[j] is V4);
            assert forall|j: int| 0 <= j < k + 1 implies !(#[trigger] candidates[j] is V4) by {
                if j > 0 {
                    assert(!(tail[j - 1] is V4));
                }
            }
            assert(candidates[k + 1] == found);
        } else {
            assert forall|j: int| 0 <= j < candidates.len() implies !(
            #[trigger] candidates[j] is V4) by {
                if j > 0 {
                    assert(!(tail[j - 1] is V4));
                }
            }
        }
    }
}

impl SocksAddress {
    /// Picks, among the endpoints that resolution yielded, the first IPv4
    /// one.
    pub fn lookup_ipv4(addrs: &[SocketEndpoint]) -> (found: Option<SocketEndpoint>)
        ensures
            found == first_ipv4(addrs@),
    {
        let mut i: usize = 0;
        assert(addrs@.skip(0) == addrs@);
        while i < addrs.len()
            invariant
                i <= addrs@.len(),
                first_ipv4(addrs@) == first_ipv4(addrs@.skip(i as int)),
            decreases addrs@.len() - i,
        {
            let addr = addrs[i];
            proof {
                let here = addrs@.skip(i as int);
                assert(here[0] == addr);
                assert(here.drop_first() == addrs@.skip(i + 1));
            }
            if let SocketEndpoint::V4(_, _) = addr {
                return Some(addr);
            }
            i += 1;
        }
        None
    }

    /// The endpoint to connect to for this address, given the endpoints that
    /// resolution yielded (used for a domain name only).
    pub fn to_socket_addr(&self, addrs: &[SocketEndpoint]) -> (endpoint: Option<SocketEndpoint>)
        ensures
            endpoint == socket_addr_of(self@, addrs@),
    {
        match self {
            SocksAddress::Ipv4(val, port) => {
                let val: u32 = *val;
                let octets: [u8; 4] = [
                    (val / 0x100_0000) as u8,
                    (val / 0x1_0000 % 256) as u8,
                    (val / 0x100 % 256) as u8,
                    (val % 256) as u8,
                ];
                Some(SocketEndpoint::V4(octets, *port))
            },
            SocksAddress::Domain(_, _) => SocksAddress::lookup_ipv4(addrs),
            SocksAddress::Ipv6(val, port) => {
                if val.len() == 8 {
                    let groups: [u16; 8] = [
                        val[0],
                        val[1],
                        val[2],
                        val[3],
                        val[4],
                        val[5],
                        val[6],
                        val[7],
                    ];
                    Some(SocketEndpoint::V6(groups, *port))
                } else {
                    None
                }
            },
        }
    }
}

} // verus!
