//! Discovery: browse and resolve results.

use play_on_air::clock::{from_secs, Instant};
use play_on_air::discover::avahi::{
    normalize_avahi_txt, parse_avahi_line, split_avahi_fields, AvahiEvent,
};
use play_on_air::discover::dns_sd::{
    ipv4_slash24_key, is_ipv4_literal, parse_browse_line, parse_lookup_output,
    parse_lookup_output_with_preferred, BrowseKind, ResolveInfo,
};
use play_on_air::discover::txt::{escape_txt_value, parse_txt_blob, split_txt_parts, unescape_dns_sd};
use play_on_air::discover::{
    browse_step, device_from_mdns_resolved, device_from_resolve, discovery_backend_label,
    instance_from_mdns_fullname, leave_by_instance, note_sighting, push_lookup_line,
    resolve_cast_host, resolve_instance_dns_sd, restart_delay, BrowseStep, MdnsEvent, MdnsService,
    Platform, Sighting,
};
use play_on_air::error::Error;
use play_on_air::net::{HostAddr, Ipv4};
use play_on_air::registry::{DeviceRegistry, PendingLeaveMark};

const NOW: Instant = 1_000_000_000_000;

fn service(fullname: &str) -> MdnsService {
    MdnsService {
        fullname: fullname.to_owned(),
        hostname: "uuid.local.".to_owned(),
        port: 0,
        id: None,
        friendly_name: None,
        address: None,
    }
}

#[test]
fn parse_browse_add_line() {
    let line = "21:42:26.808  Add        3  15 local.               _googlecast._tcp.    Nest-Audio-56cb7fe7e13f325625325c4a304c57fa";
    let ev = parse_browse_line(line).expect("parse");
    assert_eq!(ev.kind, BrowseKind::Add);
    assert_eq!(ev.instance, "Nest-Audio-56cb7fe7e13f325625325c4a304c57fa");
}

#[test]
fn parse_browse_rmv_line() {
    let line = "21:42:26.808  Rmv        2  15 local.               _googlecast._tcp.    Nest-Audio-56cb7fe7e13f325625325c4a304c57fa";
    let ev = parse_browse_line(line).expect("parse");
    assert_eq!(ev.kind, BrowseKind::Remove);
}

#[test]
fn parse_browse_ignores_header() {
    assert!(parse_browse_line("Browsing for _googlecast._tcp.local.").is_none());
    assert!(parse_browse_line("Timestamp     A/R    Flags  if Domain").is_none());
}

#[test]
fn parse_browse_remove_word_and_rejects() {
    let ev = parse_browse_line("x Remove 1 2 local. _googlecast._tcp. Gym").expect("parse");
    assert_eq!(ev.kind, BrowseKind::Remove);
    assert_eq!(ev.instance, "Gym");
    assert!(parse_browse_line("x Add 1 2 local. _googlecast._tcp.   ").is_none());
    assert!(parse_browse_line("x Add 1 2 local. _other._tcp. Gym").is_none());
    assert!(parse_browse_line("DATE: ---Sun---").is_none());
    assert!(parse_browse_line("").is_none());
}

#[test]
fn parse_lookup_and_txt() {
    let out = r"
Lookup Nest-Audio-x._googlecast._tcp.local.
21:42:29.847  Nest-Audio-x._googlecast._tcp.local. can be reached at 56cb7fe7-e13f-3256-2532-5c4a304c57fa.local.:8009 (interface 15) Flags: 1
 id=56cb7fe7e13f325625325c4a304c57fa cd=ABC ve=05 md=Nest\ Audio fn=Gym\ speaker ca=199172 st=0
";
    let info = parse_lookup_output(out).expect("lookup");
    assert_eq!(info.hostname, "56cb7fe7-e13f-3256-2532-5c4a304c57fa.local");
    assert_eq!(info.port, 8009);
    assert!(info.address.is_none());
    let d = device_from_resolve("Nest-Audio-x", &info, &[], NOW);
    assert_eq!(d.id, "56cb7fe7e13f325625325c4a304c57fa");
    assert_eq!(d.name, "Gym speaker");
    assert_eq!(d.port, 8009);
    assert_eq!(d.instance, "Nest-Audio-x");
    assert_eq!(d.host, "56cb7fe7-e13f-3256-2532-5c4a304c57fa.local");
}

#[test]
fn parse_lookup_prefers_preferred_ipv4_not_last_line() {
    let out = r"
Lookup multi-homed._googlecast._tcp.local.
10:00:00.001  multi-homed._googlecast._tcp.local. can be reached at 10.0.0.5:8009 (interface 4) Flags: 1
10:00:00.002  multi-homed._googlecast._tcp.local. can be reached at 192.168.1.50:8009 (interface 15) Flags: 1
10:00:00.003  multi-homed._googlecast._tcp.local. can be reached at 172.16.0.9:8009 (interface 8) Flags: 1
 id=aabbcc fn=Kitchen
";
    let first = parse_lookup_output(out).expect("lookup");
    assert_eq!(first.hostname, "10.0.0.5");
    assert_eq!(first.address.as_deref(), Some("10.0.0.5"));

    let preferred = vec!["192.168.1.50".to_owned()];
    let chosen = parse_lookup_output_with_preferred(out, &preferred).expect("lookup");
    assert_eq!(chosen.hostname, "192.168.1.50");
    assert_eq!(chosen.port, 8009);
    assert_eq!(chosen.address.as_deref(), Some("192.168.1.50"));
}

#[test]
fn parse_lookup_prefers_same_slash24_as_local_ip() {
    let out = r"
Lookup multi-homed._googlecast._tcp.local.
10:00:00.001  multi-homed._googlecast._tcp.local. can be reached at 10.0.0.5:8009 (interface 4) Flags: 1
10:00:00.002  multi-homed._googlecast._tcp.local. can be reached at 192.168.1.50:8009 (interface 15) Flags: 1
 id=aabbcc fn=Kitchen
";
    let preferred = vec!["192.168.1.10".to_owned()];
    let chosen = parse_lookup_output_with_preferred(out, &preferred).expect("lookup");
    assert_eq!(chosen.hostname, "192.168.1.50");
    assert_eq!(chosen.address.as_deref(), Some("192.168.1.50"));
    assert_eq!(chosen.port, 8009);
}

#[test]
fn lookup_edge_cases() {
    assert!(parse_lookup_output("nothing here\n id=x").is_none());
    let odd = parse_lookup_output("a can be reached at host.local.:notaport\n").expect("lookup");
    assert_eq!(odd.port, 8009);
    assert_eq!(odd.hostname, "host.local");
    assert_eq!(odd.txt, "");
    assert!(parse_lookup_output("a can be reached at nohost\n").is_none());
}

#[test]
fn ipv4_literals() {
    assert!(is_ipv4_literal("10.0.0.5"));
    assert!(!is_ipv4_literal("10.0.0"));
    assert!(!is_ipv4_literal("10.0.0.5.6"));
    assert!(!is_ipv4_literal("256.0.0.5"));
    assert!(!is_ipv4_literal("a.b.c.d"));
    assert_eq!(ipv4_slash24_key("192.168.1.50"), Some((192, 168, 1)));
    assert_eq!(ipv4_slash24_key("host"), None);
}

#[test]
fn unescape_spaces_in_txt() {
    let m = parse_txt_blob(r"fn=Gym\ speaker id=abc");
    assert_eq!(m.get("fn").map(String::as_str), Some("Gym speaker"));
    assert_eq!(m.get("id").map(String::as_str), Some("abc"));
}

#[test]
fn txt_escapes_round_trip() {
    for s in ["", "plain", "two words", r"back\slash", r"\ both \\ "] {
        assert_eq!(unescape_dns_sd(&escape_txt_value(s)), s);
    }
    assert_eq!(escape_txt_value(r"a b\c"), r"a\ b\\c");
    assert_eq!(unescape_dns_sd("end\\"), "end");
    assert_eq!(split_txt_parts(r"  a=1   b=x\ y "), vec!["a=1", r"b=x\ y"]);
    let m = parse_txt_blob("k=1 k=2 novalue e=");
    assert_eq!(m.get("k").map(String::as_str), Some("2"));
    assert_eq!(m.get("e").map(String::as_str), Some(""));
    assert!(m.get("novalue").is_none());
}

#[test]
fn resolve_cast_host_trims_dot() {
    let host = resolve_cast_host("definitely-not-a-real-host.invalid.", &[]);
    assert_eq!(host, "definitely-not-a-real-host.invalid");
}

#[test]
fn resolve_cast_host_prefers_addresses() {
    let v4 = HostAddr::V4(Ipv4 { a: 10, b: 0, c: 0, d: 7 });
    assert_eq!(resolve_cast_host("uuid.local.", &[HostAddr::V6, v4]), "10.0.0.7");
    assert_eq!(resolve_cast_host("192.168.1.9", &[v4]), "192.168.1.9");
    assert_eq!(resolve_cast_host("...", &[HostAddr::V6]), "127.0.0.1");
}

#[test]
fn parse_avahi_resolved_line() {
    let line = r#"=;eth0;IPv4;Living Room;_googlecast._tcp;local;Chromecast-xxx.local;192.168.1.50;8009;"id=abc" "fn=Living Room" "md=Chromecast""#;
    let event = parse_avahi_line(line).expect("parse");
    match event {
        AvahiEvent::Resolved { instance, info } => {
            assert_eq!(instance, "Living Room");
            assert_eq!(info.hostname, "Chromecast-xxx.local");
            assert_eq!(info.port, 8009);
            assert_eq!(info.address.as_deref(), Some("192.168.1.50"));
            let d = device_from_resolve(&instance, &info, &[], NOW);
            assert_eq!(d.id, "abc");
            assert_eq!(d.name, "Living Room");
            assert_eq!(d.host, "192.168.1.50");
            assert_eq!(d.port, 8009);
        }
        AvahiEvent::Removed { .. } => panic!("expected resolved"),
    }
}

#[test]
fn parse_avahi_remove_line() {
    let line = "-;eth0;IPv4;Living Room;_googlecast._tcp;local";
    let event = parse_avahi_line(line).expect("parse");
    match event {
        AvahiEvent::Removed { instance } => assert_eq!(instance, "Living Room"),
        AvahiEvent::Resolved { .. } => panic!("expected removed"),
    }
}

#[test]
fn parse_avahi_ignores_add_and_ipv6() {
    assert!(parse_avahi_line("+;eth0;IPv4;Living Room;_googlecast._tcp;local").is_none());
    let ipv6 = r#"=;eth0;IPv6;Living Room;_googlecast._tcp;local;Chromecast-xxx.local;fe80::1;8009;"id=abc""#;
    assert!(parse_avahi_line(ipv6).is_none());
}

#[test]
fn parse_avahi_defaults_and_rejects() {
    match parse_avahi_line("=;e;IPv4;N;;local;h.local.;;0").expect("parse") {
        AvahiEvent::Resolved { instance, info } => {
            assert_eq!(instance, "N");
            assert_eq!(info.hostname, "h.local");
            assert_eq!(info.port, 8009);
            assert!(info.address.is_none());
            assert_eq!(info.txt, "");
        }
        AvahiEvent::Removed { .. } => panic!("expected resolved"),
    }
    assert!(parse_avahi_line("=;e;IPv4;N;_other._tcp;local;h;a;1").is_none());
    assert!(parse_avahi_line("=;e;IPv4;;_googlecast._tcp;local;h;a;1").is_none());
    assert!(parse_avahi_line("=;e;IPv4;N;_googlecast._tcp").is_none());
    assert!(parse_avahi_line("# comment").is_none());
    assert!(parse_avahi_line("-;e;IPv4").is_none());
}

#[test]
fn normalize_avahi_txt_quoted_pairs() {
    let raw = r#""id=abc" "fn=Living Room" "md=Chromecast""#;
    let norm = normalize_avahi_txt(raw);
    let m = parse_txt_blob(&norm);
    assert_eq!(m.get("id").map(String::as_str), Some("abc"));
    assert_eq!(m.get("fn").map(String::as_str), Some("Living Room"));
    assert_eq!(m.get("md").map(String::as_str), Some("Chromecast"));
}

#[test]
fn split_avahi_fields_unescapes() {
    let fields = split_avahi_fields(r"a;b\;c;d");
    assert_eq!(fields, vec!["a", "b;c", "d"]);
}

#[test]
fn device_from_resolve_prefers_address() {
    let info = ResolveInfo {
        hostname: "cast.local".to_owned(),
        port: 8009,
        txt: "id=xyz fn=Kitchen".to_owned(),
        address: Some("10.0.0.9".to_owned()),
    };
    let d = device_from_resolve("Kitchen-Speaker", &info, &[], NOW);
    assert_eq!(d.host, "10.0.0.9");
    assert_eq!(d.id, "xyz");
    assert_eq!(d.name, "Kitchen");
}

#[test]
fn device_from_resolve_falls_back() {
    let info = ResolveInfo {
        hostname: "cast.local.".to_owned(),
        port: 0,
        txt: "id= fn=".to_owned(),
        address: Some("  ".to_owned()),
    };
    let d = device_from_resolve("Kitchen-Speaker", &info, &[], NOW);
    assert_eq!(d.id, "Kitchen-Speaker");
    assert_eq!(d.name, "Kitchen Speaker");
    assert_eq!(d.host, "cast.local");
    assert_eq!(d.hostname, "cast.local");
    assert_eq!(d.port, 8009);
    assert_eq!(d.last_seen, NOW);
    assert!(d.pending_leave_deadline.is_none());
}

#[test]
fn mdns_names_and_devices() {
    assert_eq!(instance_from_mdns_fullname("Gym-Mini._googlecast._tcp.local."), "Gym-Mini");
    assert_eq!(instance_from_mdns_fullname("._googlecast._tcp.local."), "._googlecast._tcp.local.");
    assert_eq!(instance_from_mdns_fullname("plain"), "plain");

    let bare = device_from_mdns_resolved(&service("Gym-Mini._googlecast._tcp.local."), &[], NOW);
    assert_eq!(bare.id, "Gym-Mini");
    assert_eq!(bare.name, "Gym Mini");
    assert_eq!(bare.host, "uuid.local");
    assert_eq!(bare.port, 8009);

    let mut full = service("Gym-Mini._googlecast._tcp.local.");
    full.id = Some("abc".to_owned());
    full.friendly_name = Some("Gym".to_owned());
    full.address = Some(Ipv4 { a: 192, b: 168, c: 1, d: 5 });
    full.port = 8123;
    let d = device_from_mdns_resolved(&full, &[], NOW);
    assert_eq!(d.id, "abc");
    assert_eq!(d.name, "Gym");
    assert_eq!(d.host, "192.168.1.5");
    assert_eq!(d.hostname, "uuid.local");
    assert_eq!(d.port, 8123);
    assert_eq!(d.instance, "Gym-Mini");
}

#[test]
fn browse_session_records_and_ignores_removals() {
    let mut reg = DeviceRegistry::new();
    let name = "Gym._googlecast._tcp.local.";
    match browse_step(&mut reg, &MdnsEvent::Resolved(service(name)), &[], NOW) {
        BrowseStep::Recorded(d, s) => {
            assert_eq!(d.id, "Gym");
            assert_eq!(s, Sighting::Appeared);
        }
        other => panic!("unexpected {other:?}"),
    }
    assert!(matches!(browse_step(&mut reg, &MdnsEvent::Removed, &[], NOW), BrowseStep::Continue));
    assert!(!reg.is_pending_leave("Gym"));
    match browse_step(&mut reg, &MdnsEvent::Resolved(service(name)), &[], NOW + 1) {
        BrowseStep::Recorded(_, s) => assert_eq!(s, Sighting::SeenAgain),
        other => panic!("unexpected {other:?}"),
    }
    assert!(matches!(browse_step(&mut reg, &MdnsEvent::Other, &[], NOW), BrowseStep::Continue));
    assert!(matches!(browse_step(&mut reg, &MdnsEvent::SearchStopped, &[], NOW), BrowseStep::Stop));
    let failed = |m: &str| MdnsEvent::Failed(m.to_owned());
    assert!(matches!(browse_step(&mut reg, &failed("timed out waiting"), &[], NOW), BrowseStep::Continue));
    assert!(matches!(browse_step(&mut reg, &failed("channel disconnected"), &[], NOW), BrowseStep::Stop));
    assert!(matches!(browse_step(&mut reg, &failed("Disconnected"), &[], NOW), BrowseStep::Stop));
}

#[test]
fn leave_then_sighting_cancels() {
    let mut reg = DeviceRegistry::new();
    let d = device_from_mdns_resolved(&service("Gym._googlecast._tcp.local."), &[], NOW);
    assert_eq!(note_sighting(&mut reg, d.clone(), NOW), Sighting::Appeared);
    let (id, mark) = leave_by_instance(&mut reg, "Gym", NOW).expect("known");
    assert_eq!(id, "Gym");
    assert_eq!(mark, PendingLeaveMark::NewlyMarked);
    assert!(leave_by_instance(&mut reg, "Gy", NOW).is_none());
    assert!(reg.is_pending_leave("Gym"));
    assert_eq!(note_sighting(&mut reg, d, NOW + from_secs(5)), Sighting::LeaveCancelled);
    assert!(!reg.is_pending_leave("Gym"));
    assert_eq!(reg.drain_pending_leave_cancellations(), vec!["Gym"]);
}

#[test]
fn lookup_lines_until_complete() {
    let mut buf = String::new();
    assert!(!push_lookup_line(&mut buf, "Lookup x"));
    assert!(!push_lookup_line(&mut buf, "x can be reached at h.local.:8009"));
    assert!(push_lookup_line(&mut buf, " id=a"));
    assert_eq!(buf, "Lookup x\nx can be reached at h.local.:8009\n id=a\n");
    let d = resolve_instance_dns_sd("Inst", &buf, "10.0.0.1".to_owned(), &[], NOW).expect("device");
    assert_eq!(d.id, "a");
    assert_eq!(d.host, "h.local");
    match resolve_instance_dns_sd("Inst", "", "10.0.0.1".to_owned(), &[], NOW) {
        Err(Error::Discovery(m)) => assert_eq!(m, "empty dns-sd -L for Inst"),
        other => panic!("unexpected {other:?}"),
    }
    match resolve_instance_dns_sd("Inst", "junk\n", "10.0.0.1".to_owned(), &[], NOW) {
        Err(Error::Discovery(m)) => assert_eq!(m, "could not parse dns-sd -L for Inst"),
        other => panic!("unexpected {other:?}"),
    }
}

#[test]
fn backends_and_restarts() {
    assert_eq!(discovery_backend_label(Platform::MacOs), "dns-sd");
    assert_eq!(discovery_backend_label(Platform::Linux), "mdns-sd");
    assert_eq!(discovery_backend_label(Platform::Other), "unsupported");
    assert_eq!(restart_delay(false, true), None);
    assert_eq!(restart_delay(false, false), Some(from_secs(1)));
    assert_eq!(restart_delay(true, true), Some(from_secs(2)));
}
