use netlab::socks5::{
    Handshake, HandshakeAction, HandshakePhase, build_reply, build_udp_datagram, command_action, parse_address, parse_greeting,
    parse_request_header, parse_udp_datagram, select_auth_method, target_text, AddressError,
    CommandAction, RelayAction, Socks5Config, Socks5Error, TargetAddress, UdpRelayState,
};
use netlab::wire::{IpAddress, SocketAddress};

fn v4(a: u8, b: u8, c: u8, d: u8, port: u16) -> SocketAddress {
    SocketAddress { ip: IpAddress::V4(u32::from_be_bytes([a, b, c, d])), port }
}

#[test]
fn greeting_and_methods() {
    assert_eq!(parse_greeting(&[5, 2]), Ok(2));
    assert_eq!(parse_greeting(&[4, 1]), Err(Socks5Error::UnsupportedVersion));
    assert_eq!(select_auth_method(&[2, 0]), 0);
    assert_eq!(select_auth_method(&[1, 2]), 0xFF);
    assert_eq!(select_auth_method(&[]), 0xFF);
}

#[test]
fn request_header_and_commands() {
    assert_eq!(parse_request_header(&[5, 1, 0, 1]), Ok((1, 1)));
    assert_eq!(parse_request_header(&[4, 1, 0, 1]), Err(Socks5Error::InvalidRequestVersion));
    assert_eq!(command_action(1, false), CommandAction::Connect);
    assert_eq!(command_action(3, true), CommandAction::UdpAssociate);
    assert_eq!(command_action(3, false), CommandAction::Reject(Socks5Error::UdpAssociateDisabled));
    assert_eq!(command_action(2, true), CommandAction::Reject(Socks5Error::UnsupportedCommand));
    assert_eq!(Socks5Error::UdpAssociateDisabled.message(), "udp associate not enabled");
}

#[test]
fn addresses_are_read() {
    match parse_address(1, &[10, 0, 0, 1, 0x1F, 0x90, 99], 0) {
        Ok((TargetAddress::Ip(a), n)) => {
            assert_eq!(a, v4(10, 0, 0, 1, 8080));
            assert_eq!(n, 6);
        }
        other => panic!("unexpected {:?}", other),
    }
    match parse_address(3, &[7, 3, b'a', b'b', b'c', 0, 80], 1) {
        Ok((TargetAddress::Domain(host, port), n)) => {
            assert_eq!(host, b"abc".to_vec());
            assert_eq!(port, 80);
            assert_eq!(n, 6);
        }
        other => panic!("unexpected {:?}", other),
    }
    assert!(matches!(parse_address(1, &[1, 2, 3], 0), Err(AddressError::Ipv4TooShort)));
    assert!(matches!(parse_address(3, &[5, b'a'], 0), Err(AddressError::DomainTooShort)));
    assert!(matches!(parse_address(4, &[0; 17], 0), Err(AddressError::Ipv6TooShort)));
    assert!(matches!(parse_address(9, &[0; 20], 0), Err(AddressError::UnsupportedType)));
}

#[test]
fn reply_encoding() {
    assert_eq!(build_reply(0, v4(127, 0, 0, 1, 1080)), vec![5, 0, 0, 1, 127, 0, 0, 1, 0x04, 0x38]);
    let v6 = SocketAddress { ip: IpAddress::V6(1), port: 53 };
    let r = build_reply(7, v6);
    assert_eq!(r.len(), 4 + 16 + 2);
    assert_eq!(&r[..4], &[5, 7, 0, 4]);
    assert_eq!(r[19], 1);
    assert_eq!(&r[20..], &[0, 53]);
}

#[test]
fn udp_datagram_roundtrip() {
    let source = v4(8, 8, 8, 8, 53);
    let packet = build_udp_datagram(source, b"hello");
    assert_eq!(&packet[..4], &[0, 0, 0, 1]);
    match parse_udp_datagram(&packet) {
        Ok((TargetAddress::Ip(a), offset)) => {
            assert_eq!(a, source);
            assert_eq!(&packet[offset..], b"hello");
        }
        other => panic!("unexpected {:?}", other),
    }
}

#[test]
fn udp_datagram_errors() {
    assert!(matches!(parse_udp_datagram(&[0, 0, 0]), Err(Socks5Error::UdpPacketTooShort)));
    assert!(matches!(parse_udp_datagram(&[1, 0, 0, 1]), Err(Socks5Error::InvalidUdpHeader)));
    assert!(matches!(parse_udp_datagram(&[0, 0, 1, 1]), Err(Socks5Error::UdpFragmentationUnsupported)));
    assert!(matches!(parse_udp_datagram(&[0, 0, 0, 1, 1, 2]), Err(Socks5Error::UdpIpv4TooShort)));
    assert!(matches!(parse_udp_datagram(&[0, 0, 0, 3, 9, 1]), Err(Socks5Error::UdpDomainTooShort)));
    assert!(matches!(parse_udp_datagram(&[0, 0, 0, 4, 1]), Err(Socks5Error::UdpIpv6TooShort)));
    assert!(matches!(parse_udp_datagram(&[0, 0, 0, 2, 1]), Err(Socks5Error::UdpUnsupportedAddressType)));
}

#[test]
fn target_names() {
    assert_eq!(target_text(&TargetAddress::Ip(v4(192, 168, 1, 20, 443)), ""), "192.168.1.20:443");
    assert_eq!(target_text(&TargetAddress::Domain(b"example.com".to_vec(), 80), ""), "example.com:80");
    let v6 = SocketAddress { ip: IpAddress::V6(1), port: 8080 };
    assert_eq!(target_text(&TargetAddress::Ip(v6), "::1"), "[::1]:8080");
}

#[test]
fn relay_returns_answers_to_the_client() {
    let mut relay = UdpRelayState::new();
    let client = v4(10, 0, 0, 2, 5000);
    let target = v4(1, 1, 1, 1, 53);
    relay.register_client(client.ip);
    let request = build_udp_datagram(target, b"query");
    match relay.relay_datagram(client, &request) {
        RelayAction::Forward { target: TargetAddress::Ip(t), data_offset } => {
            assert_eq!(t, target);
            assert_eq!(&request[data_offset..], b"query");
        }
        other => panic!("unexpected {:?}", other),
    }
    relay.record_target_mapping(client, target);
    assert_eq!(relay.client_for_target(target), Some(client));
    match relay.relay_datagram(target, b"answer") {
        RelayAction::Return { client: c, packet } => {
            assert_eq!(c, client);
            assert_eq!(packet, build_udp_datagram(target, b"answer"));
        }
        other => panic!("unexpected {:?}", other),
    }
    let stranger = v4(9, 9, 9, 9, 9);
    assert!(matches!(relay.relay_datagram(stranger, b"noise"), RelayAction::Drop));
    assert!(matches!(relay.relay_datagram(client, &[0, 0]), RelayAction::Drop));
}

#[test]
fn socks5_config_addresses() {
    let config = Socks5Config {
        listen_host: "::".to_string(),
        listen_port: 1080,
        report_interval_ms: 20,
        client_idle_ttl_ms: 0,
        enable_udp: true,
    };
    assert_eq!(config.listen_addr(), "[::]:1080");
    assert_eq!(config.report_period_ms(), 100);
}

#[test]
fn handshake_reads_a_connect_request() {
    let (mut hs, first) = Handshake::new();
    assert!(matches!(first, HandshakeAction::Read(2)));
    assert!(matches!(hs.receive(&[5, 2]), HandshakeAction::Read(2)));
    match hs.receive(&[2, 0]) {
        HandshakeAction::WriteThenRead(w, 4) => assert_eq!(w, vec![5, 0]),
        other => panic!("unexpected {:?}", other),
    }
    assert!(matches!(hs.receive(&[5, 1, 0, 3]), HandshakeAction::Read(1)));
    assert!(matches!(hs.receive(&[3]), HandshakeAction::Read(5)));
    match hs.receive(&[b'a', b'b', b'c', 0x01, 0xBB]) {
        HandshakeAction::Request { cmd, target: TargetAddress::Domain(host, port) } => {
            assert_eq!(cmd, 1);
            assert_eq!(host, b"abc".to_vec());
            assert_eq!(port, 443);
        }
        other => panic!("unexpected {:?}", other),
    }
    assert_eq!(hs.phase, HandshakePhase::Finished);
}

#[test]
fn handshake_refusals() {
    let (mut hs, _) = Handshake::new();
    assert!(matches!(hs.receive(&[4, 1]), HandshakeAction::Fail(Socks5Error::UnsupportedVersion)));
    let (mut hs, _) = Handshake::new();
    hs.receive(&[5, 1]);
    match hs.receive(&[2]) {
        HandshakeAction::WriteThenFail(w, Socks5Error::NoSupportedAuthMethod) => assert_eq!(w, vec![5, 0xFF]),
        other => panic!("unexpected {:?}", other),
    }
    let (mut hs, _) = Handshake::new();
    hs.receive(&[5, 1]);
    hs.receive(&[0]);
    assert!(matches!(hs.receive(&[5, 1, 0, 9]), HandshakeAction::Fail(Socks5Error::UnsupportedAddressType)));
    let (mut hs, _) = Handshake::new();
    hs.receive(&[5, 1]);
    hs.receive(&[0]);
    assert!(matches!(hs.receive(&[4, 1, 0, 1]), HandshakeAction::Fail(Socks5Error::InvalidRequestVersion)));
    let (mut hs, _) = Handshake::new();
    hs.receive(&[5, 1]);
    hs.receive(&[0]);
    assert!(matches!(hs.receive(&[5, 3, 0, 1]), HandshakeAction::Read(6)));
    match hs.receive(&[127, 0, 0, 1, 0, 53]) {
        HandshakeAction::Request { cmd: 3, target: TargetAddress::Ip(a) } => assert_eq!(a, v4(127, 0, 0, 1, 53)),
        other => panic!("unexpected {:?}", other),
    }
}
