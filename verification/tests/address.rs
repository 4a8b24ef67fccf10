use socks5_proxy::socks5::endpoint::SocketEndpoint;
use socks5_proxy::socks5::types::SocksAddress;

#[test]
fn ipv4_address_names_its_four_octets() {
    let address = SocksAddress::Ipv4(0x5DB8_D822, 80);
    assert_eq!(address.to_socket_addr(&[]), Some(SocketEndpoint::V4([93, 184, 216, 34], 80)));
    let address = SocksAddress::Ipv4(0xFFFF_FF00, 65535);
    assert_eq!(
        address.to_socket_addr(&[SocketEndpoint::V4([1, 1, 1, 1], 1)]),
        Some(SocketEndpoint::V4([255, 255, 255, 0], 65535))
    );
    assert_eq!(
        SocksAddress::Ipv4(0, 0).to_socket_addr(&[]),
        Some(SocketEndpoint::V4([0, 0, 0, 0], 0))
    );
}

#[test]
fn ipv6_address_names_its_eight_groups() {
    let address = SocksAddress::Ipv6(vec![0x2001, 0xdb8, 0, 0, 0, 0, 0, 1], 443);
    assert_eq!(
        address.to_socket_addr(&[]),
        Some(SocketEndpoint::V6([0x2001, 0xdb8, 0, 0, 0, 0, 0, 1], 443))
    );
}

#[test]
fn ipv6_address_with_fewer_groups_names_nothing() {
    assert_eq!(SocksAddress::Ipv6(vec![1, 2, 3, 4, 5, 6, 7], 443).to_socket_addr(&[]), None);
    assert_eq!(SocksAddress::Ipv6(vec![], 443).to_socket_addr(&[]), None);
    assert_eq!(
        SocksAddress::Ipv6(vec![1, 2, 3, 4, 5, 6, 7, 8, 9], 443).to_socket_addr(&[]),
        None
    );
}

#[test]
fn domain_names_the_first_ipv4_candidate() {
    let address = SocksAddress::Domain(String::from("example.com"), 80);
    let candidates = [
        SocketEndpoint::V6([0x2606, 0x2800, 0x220, 1, 0x248, 0x1893, 0x25c8, 0x1946], 80),
        SocketEndpoint::V4([93, 184, 216, 34], 80),
        SocketEndpoint::V4([10, 0, 0, 1], 80),
    ];
    assert_eq!(
        address.to_socket_addr(&candidates),
        Some(SocketEndpoint::V4([93, 184, 216, 34], 80))
    );
}

#[test]
fn domain_without_ipv4_candidate_names_nothing() {
    let address = SocksAddress::Domain(String::from("v6only.example"), 80);
    assert_eq!(address.to_socket_addr(&[]), None);
    assert_eq!(
        address.to_socket_addr(&[SocketEndpoint::V6([0, 0, 0, 0, 0, 0, 0, 1], 80)]),
        None
    );
}

#[test]
fn lookup_picks_the_first_ipv4() {
    assert_eq!(SocksAddress::lookup_ipv4(&[]), None);
    assert_eq!(
        SocksAddress::lookup_ipv4(&[
            SocketEndpoint::V4([1, 2, 3, 4], 5),
            SocketEndpoint::V4([6, 7, 8, 9], 10)
        ]),
        Some(SocketEndpoint::V4([1, 2, 3, 4], 5))
    );
    assert_eq!(
        SocksAddress::lookup_ipv4(&[
            SocketEndpoint::V6([0; 8], 1),
            SocketEndpoint::V6([1; 8], 2),
            SocketEndpoint::V4([6, 7, 8, 9], 10)
        ]),
        Some(SocketEndpoint::V4([6, 7, 8, 9], 10))
    );
}
