//! LAN addresses, connect targets and socket rules.

use play_on_air::net::{
    advertise_host_for_peer, advertise_host_ip, cast_connect_hosts, connect_sources,
    count_ss_socket_lines, default_route_iface, default_route_ipv4, iface_preference,
    is_advertiseable_v4, is_blacklisted_iface, is_ss_socket_line, kick_report, parse_ipv4,
    preferred_local_ipv4s, preferred_local_ipv4s_for_peer, probe_sources, relay_step,
    reported_failure, resolve_dest_ipv4, resolve_host_ipv4, retry_without_header_flag,
    same_class_c, source_used, ss_filter, usable_outbound, uses_keepalive, HostAddr, Iface, Ipv4,
    KickReport, RelayRead, RelayStep, SsRun,
};

fn ip(a: u8, b: u8, c: u8, d: u8) -> Ipv4 {
    Ipv4 { a, b, c, d }
}

fn iface(name: &str, address: Ipv4) -> Iface {
    Iface {
        name: name.to_owned(),
        loopback: false,
        v4: Some((address, ip(255, 255, 255, 0))),
    }
}

const ROUTES: &str = "Iface\tDestination\tGateway\nwlan0\t0001A8C0\t00000000\neth0\t00000000\t0101A8C0\n";

#[test]
fn advertise_host_ip_returns_non_empty() {
    let found = advertise_host_ip(&[], None, None);
    assert!(!found.is_empty(), "advertise_host_ip must return a non-empty string");
    let parsed = parse_ipv4(&found).expect("IPv4 dotted-quad");
    assert_ne!(parsed, ip(0, 0, 0, 0));
}

#[test]
fn advertise_host_ip_order() {
    let list = [iface("eth0", ip(192, 168, 1, 4))];
    let out = Some(HostAddr::V4(ip(10, 0, 0, 9)));
    assert_eq!(advertise_host_ip(&list, None, out), "192.168.1.4");
    assert_eq!(advertise_host_ip(&[], None, out), "10.0.0.9");
    assert_eq!(advertise_host_ip(&[], None, Some(HostAddr::V6)), "127.0.0.1");
    assert_eq!(advertise_host_ip(&[], None, Some(HostAddr::V4(ip(127, 0, 0, 1)))), "127.0.0.1");
}

#[test]
fn loopback_and_unspecified_not_advertiseable() {
    assert!(!is_advertiseable_v4(ip(127, 0, 0, 1)));
    assert!(!is_advertiseable_v4(ip(0, 0, 0, 0)));
    assert!(is_advertiseable_v4(ip(192, 168, 1, 10)));
    assert!(!is_advertiseable_v4(ip(224, 0, 0, 251)));
    assert!(!is_advertiseable_v4(ip(239, 255, 255, 255)));
    assert!(!is_advertiseable_v4(ip(255, 255, 255, 255)));
    assert!(is_advertiseable_v4(ip(240, 0, 0, 1)));
}

#[test]
fn advertise_host_for_peer_loopback_falls_back() {
    let found = advertise_host_for_peer("127.0.0.1", &[], &[], None, None, None);
    let _parsed = parse_ipv4(&found).expect("IPv4");
    assert_eq!(found, "127.0.0.1");
}

#[test]
fn advertise_host_for_peer_order() {
    let list = [iface("en0", ip(10, 0, 0, 2)), iface("en7", ip(192, 168, 1, 168))];
    let toward = Some(HostAddr::V4(ip(172, 16, 0, 3)));
    let far = |host: &str| advertise_host_for_peer(host, &[], &list, None, toward, None);
    assert_eq!(far("192.168.1.171"), "192.168.1.168");
    assert_eq!(far("10.0.0.99."), "10.0.0.2");
    assert_eq!(far("  "), "10.0.0.2");
    assert_eq!(far("name.local"), "10.0.0.2");
    assert_eq!(
        advertise_host_for_peer("192.168.1.171", &[], &[], None, toward, None),
        "172.16.0.3"
    );
    assert_eq!(
        advertise_host_for_peer("name.local", &[], &[], None, toward, None),
        "127.0.0.1"
    );
}

#[test]
fn peer_on_home_lan_prefers_en0_when_present() {
    let list = [iface("en7", ip(192, 168, 1, 168)), iface("en0", ip(192, 168, 1, 254))];
    let found = advertise_host_for_peer("192.168.1.171", &[], &list, None, None, None);
    let locals = preferred_local_ipv4s(&list, None);
    if locals.contains(&ip(192, 168, 1, 254)) {
        assert_eq!(found, "192.168.1.254");
    }
    assert_eq!(locals, vec![ip(192, 168, 1, 254), ip(192, 168, 1, 168)]);
}

#[test]
fn cast_connect_hosts_dedupes_and_includes_hostname() {
    let hosts = cast_connect_hosts("192.168.1.10", Some("speaker.local."), &[], &[]);
    assert!(hosts.iter().any(|h| h == "192.168.1.10"));
    assert!(hosts.iter().any(|h| h == "speaker.local"));
    assert_eq!(hosts, vec!["192.168.1.10", "speaker.local"]);
}

#[test]
fn cast_connect_hosts_order() {
    let looked = [HostAddr::V6, HostAddr::V4(ip(10, 0, 0, 4))];
    assert_eq!(
        cast_connect_hosts(" a.local. ", Some("b.local"), &looked, &[HostAddr::V6]),
        vec!["10.0.0.4", "a.local", "b.local"]
    );
    assert_eq!(cast_connect_hosts("", Some("."), &[], &[]), Vec::<String>::new());
}

#[test]
fn iface_preference_ranks_en0_best() {
    assert!(iface_preference("en0") < iface_preference("en7"));
    assert!(iface_preference("bridge100") < 0);
    assert!(iface_preference("docker0") < 0);
    assert!(iface_preference("vethabc") < 0);
    assert!(iface_preference("br-1234") < 0);
    assert!(iface_preference("hassio") < 0);
    assert_eq!(iface_preference("eth0"), iface_preference("en0"));
    assert!(is_blacklisted_iface("tailscale0"));
    assert!(is_blacklisted_iface("wg0"));
}

#[test]
fn iface_preference_values() {
    for (name, value) in [("end0", 0), ("en5", 10), ("eth1", 10), ("en9", 50), ("wlan0", 5), ("wlp2s0", 5), ("utun3", -1), ("awdl0", -1), ("usb0", 40), ("tap1", -1), ("tun0", -1)] {
        assert_eq!(iface_preference(name), value, "{name}");
    }
}

#[test]
fn preferred_for_peer_prefers_same_subnet_candidate() {
    let list = [
        iface("en0", ip(10, 0, 0, 2)),
        iface("usb0", ip(192, 168, 1, 3)),
        iface("docker0", ip(192, 168, 1, 4)),
        iface("eth0", ip(169, 254, 1, 1)),
    ];
    let locals = preferred_local_ipv4s_for_peer(&list, None, Some(ip(192, 168, 1, 50)));
    assert_eq!(locals, vec![ip(192, 168, 1, 3), ip(10, 0, 0, 2)]);
}

#[test]
fn preferred_local_ipv4s_does_not_panic() {
    assert!(preferred_local_ipv4s(&[], None).is_empty());
}

#[test]
fn ranking_uses_route_then_address_and_lists_once() {
    let mut lo = iface("lo", ip(10, 9, 9, 9));
    lo.loopback = true;
    let v6 = Iface { name: "en0".to_owned(), loopback: false, v4: None };
    let list = [
        iface("en1", ip(10, 0, 0, 9)),
        iface("en2", ip(10, 0, 0, 8)),
        iface("en3", ip(10, 0, 0, 7)),
        iface("usb0", ip(10, 0, 0, 8)),
        lo,
        v6,
    ];
    assert_eq!(
        preferred_local_ipv4s(&list, Some(ip(10, 0, 0, 9))),
        vec![ip(10, 0, 0, 9), ip(10, 0, 0, 7), ip(10, 0, 0, 8)]
    );
}

#[test]
fn netmask_decides_the_network() {
    let wide = Iface {
        name: "usb0".to_owned(),
        loopback: false,
        v4: Some((ip(10, 1, 2, 3), ip(255, 255, 0, 0))),
    };
    let list = [iface("en0", ip(192, 168, 1, 1)), wide];
    let locals = preferred_local_ipv4s_for_peer(&list, None, Some(ip(10, 1, 99, 9)));
    assert_eq!(locals[0], ip(10, 1, 2, 3));
    assert!(same_class_c(ip(1, 2, 3, 4), ip(1, 2, 3, 9)));
    assert!(!same_class_c(ip(1, 2, 3, 4), ip(1, 2, 4, 4)));
}

#[test]
fn default_route_from_kernel_table() {
    assert_eq!(default_route_iface(ROUTES).as_deref(), Some("eth0"));
    assert_eq!(default_route_iface("Iface\tDestination\n"), None);
    assert_eq!(default_route_iface("h\nonly\neth0 00000000\n"), None);
    assert_eq!(default_route_iface(""), None);
    let list = [
        iface("wlan0", ip(10, 0, 0, 1)),
        iface("eth0", ip(127, 0, 0, 2)),
        iface("eth0", ip(192, 168, 1, 7)),
    ];
    assert_eq!(default_route_ipv4(&list, ROUTES), Some(ip(192, 168, 1, 7)));
    assert_eq!(default_route_ipv4(&list[..2], ROUTES), None);
    assert_eq!(default_route_ipv4(&list, ""), None);
}

#[test]
fn addresses_parse_strictly_and_render() {
    assert_eq!(parse_ipv4("192.168.1.10"), Some(ip(192, 168, 1, 10)));
    assert_eq!(parse_ipv4("0.0.0.0"), Some(ip(0, 0, 0, 0)));
    for bad in ["", "1.2.3", "1.2.3.4.5", "1.2.3.256", "01.2.3.4", "1.2.3.+4", "a.b.c.d", " 1.2.3.4"] {
        assert_eq!(parse_ipv4(bad), None, "{bad}");
    }
    assert_eq!(ip(255, 9, 0, 100).render(), "255.9.0.100");
    for n in 0..=255_u8 {
        let x = ip(n, 255 - n, n / 3, 7);
        assert_eq!(parse_ipv4(&x.render()), Some(x));
        assert_eq!(x.render(), format!("{}.{}.{}.7", n, 255 - n, n / 3));
    }
}

#[test]
fn hosts_resolve_to_ipv4() {
    let looked = [HostAddr::V6, HostAddr::V4(ip(10, 0, 0, 4))];
    assert_eq!(resolve_host_ipv4(" 10.1.1.1. ", &looked).as_deref(), Some("10.1.1.1"));
    assert_eq!(resolve_host_ipv4("x.local", &looked).as_deref(), Some("10.0.0.4"));
    assert_eq!(resolve_host_ipv4("x.local", &[HostAddr::V6]), None);
    assert_eq!(resolve_host_ipv4(" . ", &looked), None);
    assert_eq!(resolve_dest_ipv4("x.local", &looked), Ok(ip(10, 0, 0, 4)));
    assert_eq!(
        resolve_dest_ipv4("x.local", &[]),
        Err("no IPv4 address for Cast host x.local".to_owned())
    );
}

#[test]
fn connecting_tries_every_source() {
    let list = [iface("en0", ip(192, 168, 1, 2)), iface("en1", ip(192, 168, 1, 3))];
    let dest = ip(192, 168, 1, 50);
    let wanted = vec![Some(ip(192, 168, 1, 2)), Some(ip(192, 168, 1, 3)), None];
    assert_eq!(connect_sources(dest, &list, None), wanted);
    assert_eq!(probe_sources(dest, &list, None), wanted);
    assert_eq!(
        connect_sources(ip(127, 0, 0, 1), &list, None),
        vec![Some(ip(127, 0, 0, 1)), None]
    );
    assert_eq!(reported_failure(dest, 3), 1);
    assert_eq!(reported_failure(dest, 1), 0);
    assert_eq!(reported_failure(ip(127, 0, 0, 1), 2), 1);
    assert!(uses_keepalive(dest));
    assert!(!uses_keepalive(ip(127, 0, 0, 1)));
    let local = Some(HostAddr::V4(ip(10, 0, 0, 1)));
    assert_eq!(source_used(dest, Some(ip(1, 2, 3, 4)), local), ip(1, 2, 3, 4));
    assert_eq!(source_used(dest, None, local), ip(10, 0, 0, 1));
    assert_eq!(source_used(dest, None, Some(HostAddr::V6)), ip(0, 0, 0, 0));
    assert_eq!(source_used(ip(127, 0, 0, 1), None, local), ip(127, 0, 0, 1));
    assert_eq!(usable_outbound(local), Some(ip(10, 0, 0, 1)));
}

#[test]
fn relay_survives_idle_timeouts() {
    let mut total = 0;
    assert_eq!(relay_step(RelayRead::Bytes(9), 8192, &mut total), RelayStep::Forward(9));
    assert_eq!(relay_step(RelayRead::Idle, 8192, &mut total), RelayStep::Retry);
    assert_eq!(relay_step(RelayRead::Interrupted, 8192, &mut total), RelayStep::Retry);
    assert_eq!(relay_step(RelayRead::Bytes(8193), 8192, &mut total), RelayStep::Overrun);
    assert_eq!(relay_step(RelayRead::Failed, 8192, &mut total), RelayStep::Fail);
    assert_eq!(relay_step(RelayRead::Bytes(0), 8192, &mut total), RelayStep::Done(9));
    let mut near_full = u64::MAX - 1;
    relay_step(RelayRead::Bytes(5), 8192, &mut near_full);
    assert_eq!(near_full, u64::MAX);
}

#[test]
fn is_ss_socket_line_filters_headers_and_blanks() {
    assert!(!is_ss_socket_line(""));
    assert!(!is_ss_socket_line("   "));
    assert!(!is_ss_socket_line(
        "Netid  State      Recv-Q Send-Q Local Address:Port Peer Address:Port"
    ));
    assert!(!is_ss_socket_line("State Recv-Q Send-Q"));
    assert!(is_ss_socket_line(
        "tcp   ESTAB      0      0 192.168.1.10:7000 192.168.1.20:54321"
    ));
    assert!(is_ss_socket_line("u_str ESTAB 0 0 * 12345 * 0"));
}

#[test]
fn count_ss_socket_lines_ignores_header_only_output() {
    let header_only = "Netid  State      Recv-Q Send-Q Local Address:Port Peer Address:Port\n";
    assert_eq!(count_ss_socket_lines(header_only), 0);
    assert_eq!(count_ss_socket_lines(""), 0);
    let with_sock = "\
Netid  State      Recv-Q Send-Q Local Address:Port Peer Address:Port
tcp   ESTAB      0      0 0.0.0.0:7000 192.168.1.5:40000
tcp   ESTAB      0      0 0.0.0.0:7000 192.168.1.5:40001
";
    assert_eq!(count_ss_socket_lines(with_sock), 2);
    assert_eq!(count_ss_socket_lines("tcp   ESTAB 0 0 0.0.0.0:7000 192.168.1.5:40000\n"), 1);
}

#[test]
fn kicks_are_reported() {
    assert_eq!(ss_filter(5100), "sport = :5100");
    assert!(retry_without_header_flag(&SsRun::Failed));
    assert!(!retry_without_header_flag(&SsRun::Missing));
    assert!(!retry_without_header_flag(&SsRun::Succeeded(String::new())));
    assert_eq!(kick_report(&SsRun::Missing), KickReport::Unavailable);
    assert_eq!(kick_report(&SsRun::Failed), KickReport::Failed);
    assert_eq!(
        kick_report(&SsRun::Succeeded("State Recv-Q\n".to_owned())),
        KickReport::NothingClosed
    );
    assert_eq!(
        kick_report(&SsRun::Succeeded("tcp ESTAB 0 0 a b\n".to_owned())),
        KickReport::Closed(1)
    );
}
