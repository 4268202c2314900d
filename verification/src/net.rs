//! LAN addresses: which local address to use towards a Cast device, and which hosts
//! to try when connecting to one.
//!
//! Resolving names, listing interfaces and opening sockets is left to the caller;
//! the rules work on what came back.

use vstd::prelude::*;
use crate::clock::Duration;
use crate::discover::dns_sd;
use crate::discover::dns_sd::begins_with;
use crate::error::joined;
use crate::text;
use crate::text::{
    chars_of, parse_uint, push_all, push_str, same, split_char, split_whitespace, str_eq,
    string_of, to_ascii_lowercase, to_decimal, trim, trim_dots,
};

verus! {

/// An IPv4 address.
#[derive(Debug, Clone, Copy, PartialEq, Eq, Structural)]
pub struct Ipv4 {
    /// First octet.
    pub a: u8,
    /// Second octet.
    pub b: u8,
    /// Third octet.
    pub c: u8,
    /// Fourth octet.
    pub d: u8,
}

/// An address that a name resolved to.
#[derive(Debug, Clone, Copy, PartialEq, Eq, Structural)]
pub enum HostAddr {
    /// IPv4.
    V4(Ipv4),
    /// IPv6, which Cast control does not use here.
    V6,
}

/// A local network interface address.
#[derive(Debug)]
pub struct Iface {
    /// Interface name.
    pub name: String,
    /// Loopback interface.
    pub loopback: bool,
    /// IPv4 address and netmask; `None` for an IPv6 address.
    pub v4: Option<(Ipv4, Ipv4)>,
}

impl Ipv4 {
    /// The address as one number, most significant octet first.
    pub open spec fn number(self) -> int {
        self.a * 0x100_0000 + self.b * 0x1_0000 + self.c * 0x100 + self.d
    }

    /// The address in dotted decimal.
    pub open spec fn dotted(self) -> Seq<char> {
        text::decimal(self.a as nat) + "."@ + text::decimal(self.b as nat) + "."@ + text::decimal(
            self.c as nat,
        ) + "."@ + text::decimal(self.d as nat)
    }

    /// The address in dotted decimal.
    pub fn render(self) -> (r: String)
        ensures
            r@ == self.dotted(),
    {
        let a = to_decimal(self.a as u64);
        let b = to_decimal(self.b as u64);
        let c = to_decimal(self.c as u64);
        let d = to_decimal(self.d as u64);
        let mut out: Vec<char> = Vec::new();
        push_all(&mut out, a.as_slice());
        push_str(&mut out, ".");
        push_all(&mut out, b.as_slice());
        push_str(&mut out, ".");
        push_all(&mut out, c.as_slice());
        push_str(&mut out, ".");
        push_all(&mut out, d.as_slice());
        proof {
            assert(Seq::<char>::empty() + a@ =~= a@);
        }
        string_of(out.as_slice())
    }

    fn to_number(self) -> (n: u32)
        ensures
            n == self.number(),
    {
        (self.a as u32) * 0x100_0000 + (self.b as u32) * 0x1_0000 + (self.c as u32) * 0x100
            + self.d as u32
    }
}

/// A decimal octet as address parsers take it: no leading zero but in zero itself.
pub open spec fn is_strict_octet(s: Seq<char>) -> bool {
    dns_sd::is_octet(s) && (s.len() == 1 || s[0] != '0')
}

/// The address that `s` writes in dotted decimal.
pub open spec fn address(s: Seq<char>) -> Option<Ipv4> {
    let p = text::pieces(s, '.');
    if p.len() == 4 && is_strict_octet(p[0]) && is_strict_octet(p[1]) && is_strict_octet(p[2])
        && is_strict_octet(p[3]) {
        Some(
            Ipv4 {
                a: text::digits_value(p[0]) as u8,
                b: text::digits_value(p[1]) as u8,
                c: text::digits_value(p[2]) as u8,
                d: text::digits_value(p[3]) as u8,
            },
        )
    } else {
        None
    }
}

fn strict_octet(s: &[char]) -> (r: Option<u8>)
    ensures
        match r {
            Some(v) => is_strict_octet(s@) && v == text::digits_value(s@),
            None => !is_strict_octet(s@),
        },
{
    if s.len() == 0 || s.len() > 3 || s[0] == '+' || (s.len() > 1 && s[0] == '0') {
        proof {
            if s@.len() > 0 && s@[0] == '+' {
                assert(!text::is_digit(s@[0]));
            }
        }
        return None;
    }
    proof {
        assert(text::without_plus(s@) == s@);
    }
    match parse_uint(s, 255) {
        Some(v) => Some(v as u8),
        None => None,
    }
}

/// Read an address in dotted decimal.
pub fn parse_ipv4(s: &str) -> (r: Option<Ipv4>)
    ensures
        r == address(s@),
{
    let chars = chars_of(s);
    let parts = split_char(chars.as_slice(), '.');
    let ghost p = text::pieces(s@, '.');
    proof {
        assert(p.len() == parts@.len());
        assert forall|i: int| 0 <= i < parts@.len() implies p[i] == (#[trigger] parts@[i])@ by {
            assert(text::char_views(parts@)[i] == parts@[i]@);
        }
    }
    if parts.len() != 4 {
        return None;
    }
    proof {
        assert(p[0] == parts@[0]@ && p[1] == parts@[1]@ && p[2] == parts@[2]@ && p[3]
            == parts@[3]@);
    }
    match (
        strict_octet(parts[0].as_slice()),
        strict_octet(parts[1].as_slice()),
        strict_octet(parts[2].as_slice()),
        strict_octet(parts[3].as_slice()),
    ) {
        (Some(a), Some(b), Some(c), Some(d)) => Some(Ipv4 { a, b, c, d }),
        _ => None,
    }
}

/// Decimal digits write the number that they were made from, without leading zeros.
proof fn lemma_decimal(n: nat)
    requires
        n < 1000,
    ensures
        text::digits_value(text::decimal(n)) == n,
        text::all_digits(text::decimal(n)),
        1 <= text::decimal(n).len() <= 3,
        n < 10 ==> text::decimal(n).len() == 1,
        n >= 10 ==> text::decimal(n)[0] != '0',
    decreases n,
{
    reveal_with_fuel(text::decimal, 4);
    reveal_with_fuel(text::digits_value, 4);
    let s = text::decimal(n);
    if n < 10 {
        assert(s.drop_last() =~= Seq::<char>::empty());
    } else {
        let t = text::decimal(n / 10);
        lemma_decimal(n / 10);
        assert(s.drop_last() =~= t);
        assert(s.last() == ('0' as int + n % 10) as char);
        assert forall|i: int| 0 <= i < s.len() implies text::is_digit(#[trigger] s[i]) by {
            if i < t.len() {
                assert(s[i] == t[i]);
            }
        }
        assert(s[0] == t[0]);
        if n < 100 {
            assert(t =~= seq![('0' as int + n / 10) as char]);
        }
    }
}

/// A piece without the separator extends the last piece.
proof fn lemma_pieces_tail(s: Seq<char>, t: Seq<char>, c: char)
    requires
        !t.contains(c),
    ensures
        text::pieces(s.push(c) + t, c) == text::pieces(s, c).push(t),
    decreases t.len(),
{
    let whole = s.push(c) + t;
    if t.len() == 0 {
        assert(whole =~= s.push(c));
        assert(whole.drop_last() =~= s);
        assert(t =~= Seq::<char>::empty());
    } else {
        let u = t.drop_last();
        assert(t.contains(t.last()));
        assert(!u.contains(c)) by {
            if u.contains(c) {
                let k = choose|k: int| 0 <= k < u.len() && u[k] == c;
                assert(t[k] == c);
            }
        }
        lemma_pieces_tail(s, u, c);
        assert(whole.drop_last() =~= s.push(c) + u);
        assert(u.push(t.last()) =~= t);
        let head = text::pieces(s, c).push(u);
        assert(head.drop_last() =~= text::pieces(s, c));
    }
}

/// A text without the separator is one piece.
proof fn lemma_one_piece(t: Seq<char>, c: char)
    requires
        !t.contains(c),
    ensures
        text::pieces(t, c) == seq![t],
    decreases t.len(),
{
    if t.len() > 0 {
        let u = t.drop_last();
        assert(t.contains(t.last()));
        assert(!u.contains(c)) by {
            if u.contains(c) {
                let k = choose|k: int| 0 <= k < u.len() && u[k] == c;
                assert(t[k] == c);
            }
        }
        lemma_one_piece(u, c);
        assert(u.push(t.last()) =~= t);
        assert(seq![u].drop_last().push(t) =~= seq![t]);
    } else {
        assert(t =~= Seq::<char>::empty());
    }
}

/// A number has no dot in it.
proof fn lemma_no_dot(n: nat)
    requires
        n < 1000,
    ensures
        !text::decimal(n).contains('.'),
{
    lemma_decimal(n);
    let s = text::decimal(n);
    if s.contains('.') {
        let k = choose|k: int| 0 <= k < s.len() && s[k] == '.';
        assert(text::is_digit(s[k]));
    }
}

/// Parsing gives back the address that was rendered.
pub proof fn law_parse_inverts_render(ip: Ipv4)
    ensures
        address(ip.dotted()) == Some(ip),
{
    let a = text::decimal(ip.a as nat);
    let b = text::decimal(ip.b as nat);
    let c = text::decimal(ip.c as nat);
    let d = text::decimal(ip.d as nat);
    lemma_no_dot(ip.a as nat);
    lemma_no_dot(ip.b as nat);
    lemma_no_dot(ip.c as nat);
    lemma_no_dot(ip.d as nat);
    lemma_decimal(ip.a as nat);
    lemma_decimal(ip.b as nat);
    lemma_decimal(ip.c as nat);
    lemma_decimal(ip.d as nat);
    reveal_strlit(".");
    let ab = a.push('.') + b;
    let abc = ab.push('.') + c;
    let abcd = abc.push('.') + d;
    assert(ip.dotted() =~= abcd);
    lemma_one_piece(a, '.');
    lemma_pieces_tail(a, b, '.');
    lemma_pieces_tail(ab, c, '.');
    lemma_pieces_tail(abc, d, '.');
    assert(text::pieces(abcd, '.') =~= seq![a, b, c, d]);
}

// ── Names ───────────────────────────────────────────────────────────────────

/// A host name without surrounding whitespace and trailing dots.
pub open spec fn bare_host(s: Seq<char>) -> Seq<char> {
    text::without_dots(text::trimmed(s))
}

/// The first IPv4 address among what a name resolved to.
pub open spec fn first_v4(addrs: Seq<HostAddr>) -> Option<Ipv4>
    decreases addrs.len(),
{
    if addrs.len() == 0 {
        None
    } else {
        match addrs[0] {
            HostAddr::V4(ip) => Some(ip),
            HostAddr::V6 => first_v4(addrs.drop_first()),
        }
    }
}

/// The IPv4 address of a host, in dotted decimal: its own name when that is an
/// address, else the first one that it resolves to.
pub open spec fn host_ipv4(hostname: Seq<char>, looked_up: Seq<HostAddr>) -> Option<Seq<char>> {
    let host = bare_host(hostname);
    if host.len() == 0 {
        None
    } else {
        match address(host) {
            Some(ip) => Some(ip.dotted()),
            None => match first_v4(looked_up) {
                Some(ip) => Some(ip.dotted()),
                None => None,
            },
        }
    }
}

fn first_ipv4(addrs: &[HostAddr]) -> (r: Option<Ipv4>)
    ensures
        r == first_v4(addrs@),
{
    let mut i: usize = 0;
    proof {
        assert(addrs@.skip(0) =~= addrs@);
    }
    while i < addrs.len()
        invariant
            i <= addrs.len(),
            first_v4(addrs@) == first_v4(addrs@.skip(i as int)),
        decreases addrs.len() - i,
    {
        proof {
            assert(addrs@.skip(i as int)[0] == addrs@[i as int]);
            assert(addrs@.skip(i as int).drop_first() =~= addrs@.skip(i as int + 1));
        }
        match addrs[i] {
            HostAddr::V4(ip) => {
                return Some(ip);
            },
            HostAddr::V6 => {},
        }
        i += 1;
    }
    None
}

/// Resolve `hostname` (often `uuid.local`) to an IPv4 string, if possible.
///
/// `looked_up` is what the system resolver gave for the name.
pub fn resolve_host_ipv4(hostname: &str, looked_up: &[HostAddr]) -> (r: Option<String>)
    ensures
        text::opt_view(r) == host_ipv4(hostname@, looked_up@),
{
    let c = chars_of(hostname);
    let host = string_of(trim_dots(trim(c.as_slice())));
    if host.as_str().is_empty() {
        return None;
    }
    match parse_ipv4(host.as_str()) {
        Some(ip) => Some(ip.render()),
        None => match first_ipv4(looked_up) {
            Some(ip) => Some(ip.render()),
            None => None,
        },
    }
}

/// `list` with `s` at its end, unless `s` is empty or already there.
pub open spec fn with_host(list: Seq<Seq<char>>, s: Seq<char>) -> Seq<Seq<char>> {
    if s.len() == 0 || list.contains(s) {
        list
    } else {
        list.push(s)
    }
}

/// `list` with an address at its end, if there is one.
pub open spec fn with_address(list: Seq<Seq<char>>, ip: Option<Seq<char>>) -> Seq<Seq<char>> {
    match ip {
        Some(s) => with_host(list, s),
        None => list,
    }
}

/// Connect targets in order: the host's address, the host, the hostname's address,
/// the hostname; without blanks and repetitions.
pub open spec fn connect_hosts(
    host: Seq<char>,
    hostname: Option<Seq<char>>,
    host_addrs: Seq<HostAddr>,
    hostname_addrs: Seq<HostAddr>,
) -> Seq<Seq<char>> {
    let first = with_host(
        with_address(Seq::empty(), host_ipv4(host, host_addrs)),
        bare_host(host),
    );
    match hostname {
        Some(name) => with_host(
            with_address(first, host_ipv4(bare_host(name), hostname_addrs)),
            bare_host(name),
        ),
        None => first,
    }
}

fn push_host(list: &mut Vec<String>, s: String)
    ensures
        text::views(final(list)@) == with_host(text::views(old(list)@), s@),
{
    let ghost before = text::views(list@);
    if s.as_str().is_empty() {
        return;
    }
    let mut i: usize = 0;
    while i < list.len()
        invariant
            i <= list.len(),
            list@ == old(list)@,
            before == text::views(list@),
            forall|j: int| 0 <= j < i ==> #[trigger] before[j] != s@,
        decreases list.len() - i,
    {
        proof {
            assert(before[i as int] == list@[i as int]@);
        }
        if str_eq(list[i].as_str(), s.as_str()) {
            proof {
                assert(before.contains(s@));
            }
            return;
        }
        i += 1;
    }
    proof {
        assert(!before.contains(s@));
    }
    let ghost added = s@;
    list.push(s);
    proof {
        assert(text::views(list@) =~= before.push(added));
    }
}

/// Ordered Cast connect targets for a device: prefer IPv4 literals, then hostname.
///
/// `host_addrs` and `hostname_addrs` are what the system resolver gave for the two
/// names.
pub fn cast_connect_hosts(
    host: &str,
    hostname: Option<&str>,
    host_addrs: &[HostAddr],
    hostname_addrs: &[HostAddr],
) -> (out: Vec<String>)
    ensures
        text::views(out@) == connect_hosts(
            host@,
            match hostname {
                Some(n) => Some(n@),
                None => None,
            },
            host_addrs@,
            hostname_addrs@,
        ),
{
    let mut out: Vec<String> = Vec::new();
    proof {
        assert(text::views(out@) =~= Seq::<Seq<char>>::empty());
    }
    match resolve_host_ipv4(host, host_addrs) {
        Some(ip) => push_host(&mut out, ip),
        None => {},
    }
    let c = chars_of(host);
    push_host(&mut out, string_of(trim_dots(trim(c.as_slice()))));
    match hostname {
        Some(raw) => {
            let n = chars_of(raw);
            let name = string_of(trim_dots(trim(n.as_slice())));
            match resolve_host_ipv4(name.as_str(), hostname_addrs) {
                Some(ip) => push_host(&mut out, ip),
                None => {},
            }
            push_host(&mut out, name);
        },
        None => {},
    }
    out
}

/// Connect targets never repeat and are never blank.
pub proof fn law_connect_hosts_are_distinct(
    host: Seq<char>,
    hostname: Option<Seq<char>>,
    host_addrs: Seq<HostAddr>,
    hostname_addrs: Seq<HostAddr>,
)
    ensures
        connect_hosts(host, hostname, host_addrs, hostname_addrs).no_duplicates(),
        forall|i: int|
            0 <= i < connect_hosts(host, hostname, host_addrs, hostname_addrs).len() ==> (
            #[trigger] connect_hosts(host, hostname, host_addrs, hostname_addrs)[i]).len() > 0,
{
    let none = Seq::<Seq<char>>::empty();
    let one = with_address(none, host_ipv4(host, host_addrs));
    let two = with_host(one, bare_host(host));
    if let Some(ip) = host_ipv4(host, host_addrs) {
        lemma_with_host(none, ip);
    }
    lemma_with_host(one, bare_host(host));
    if let Some(name) = hostname {
        let three = with_address(two, host_ipv4(bare_host(name), hostname_addrs));
        if let Some(ip) = host_ipv4(bare_host(name), hostname_addrs) {
            lemma_with_host(two, ip);
        }
        lemma_with_host(three, bare_host(name));
    }
}

/// Adding a host keeps a list free of blanks and repetitions.
proof fn lemma_with_host(list: Seq<Seq<char>>, s: Seq<char>)
    requires
        list.no_duplicates(),
        forall|i: int| 0 <= i < list.len() ==> (#[trigger] list[i]).len() > 0,
    ensures
        with_host(list, s).no_duplicates(),
        forall|i: int| 0 <= i < with_host(list, s).len() ==> (#[trigger] with_host(list, s)[i]).len()
            > 0,
{
    let out = with_host(list, s);
    if s.len() > 0 && !list.contains(s) {
        assert forall|i: int, j: int| 0 <= i < out.len() && 0 <= j < out.len() && i != j implies out[i]
            != out[j] by {
            if i < list.len() && j < list.len() {
                assert(list[i] != list[j]);
            } else if i < list.len() {
                assert(list.contains(list[i]));
            } else {
                assert(list.contains(list[j]));
            }
        }
    }
}

// ── Interfaces ──────────────────────────────────────────────────────────────

/// Interface names that are never a Cast source: containers and tunnels.
pub open spec fn blacklisted(name: Seq<char>) -> bool {
    ||| name == "docker0"@
    ||| name == "hassio"@
    ||| "veth"@.is_prefix_of(name)
    ||| "br-"@.is_prefix_of(name)
    ||| "tun"@.is_prefix_of(name)
    ||| "tap"@.is_prefix_of(name)
    ||| "wg"@.is_prefix_of(name)
    ||| "tailscale"@.is_prefix_of(name)
}

/// Preference of an interface by name: lower is better, negative is never used.
pub open spec fn preference(name: Seq<char>) -> int {
    if blacklisted(name) {
        -1
    } else if name == "en0"@ || name == "eth0"@ || name == "end0"@ {
        0
    } else if "en"@.is_prefix_of(name) || "eth"@.is_prefix_of(name) || "end"@.is_prefix_of(name) {
        if name == "en7"@ || name == "en8"@ || name == "en9"@ {
            50
        } else {
            10
        }
    } else if "wlan"@.is_prefix_of(name) || "wlp"@.is_prefix_of(name) {
        5
    } else if "bridge"@.is_prefix_of(name) || "vmenet"@.is_prefix_of(name) || "utun"@.is_prefix_of(
        name,
    ) || "awdl"@.is_prefix_of(name) {
        -1
    } else {
        40
    }
}

/// Docker / HAOS / tunnel interface names that must never be Cast source/advertise.
pub fn is_blacklisted_iface(name: &str) -> (r: bool)
    ensures
        r == blacklisted(name@),
{
    let c = chars_of(name);
    let s = c.as_slice();
    str_eq(name, "docker0") || str_eq(name, "hassio") || begins_with(s, "veth") || begins_with(
        s,
        "br-",
    ) || begins_with(s, "tun") || begins_with(s, "tap") || begins_with(s, "wg") || begins_with(
        s,
        "tailscale",
    )
}

/// Lower is better. Negative = skip (virtual / container / tunnel).
pub fn iface_preference(name: &str) -> (r: i32)
    ensures
        r == preference(name@),
{
    if is_blacklisted_iface(name) {
        return -1;
    }
    if str_eq(name, "en0") || str_eq(name, "eth0") || str_eq(name, "end0") {
        return 0;
    }
    let c = chars_of(name);
    let s = c.as_slice();
    if begins_with(s, "en") || begins_with(s, "eth") || begins_with(s, "end") {
        if str_eq(name, "en7") || str_eq(name, "en8") || str_eq(name, "en9") {
            return 50;
        }
        return 10;
    }
    if begins_with(s, "wlan") || begins_with(s, "wlp") {
        return 5;
    }
    if begins_with(s, "bridge") || begins_with(s, "vmenet") || begins_with(s, "utun")
        || begins_with(s, "awdl") {
        return -1;
    }
    40
}

/// An address that other hosts on the LAN can use: neither unspecified, loopback,
/// multicast nor broadcast.
pub open spec fn advertiseable(ip: Ipv4) -> bool {
    &&& !(ip.a == 0 && ip.b == 0 && ip.c == 0 && ip.d == 0)
    &&& ip.a != 127
    &&& !(224 <= ip.a <= 239)
    &&& !(ip.a == 255 && ip.b == 255 && ip.c == 255 && ip.d == 255)
}

/// True when `ip` is a reasonable LAN-facing address for Cast pull.
pub fn is_advertiseable_v4(ip: Ipv4) -> (r: bool)
    ensures
        r == advertiseable(ip),
{
    !(ip.a == 0 && ip.b == 0 && ip.c == 0 && ip.d == 0) && ip.a != 127 && !(224 <= ip.a && ip.a
        <= 239) && !(ip.a == 255 && ip.b == 255 && ip.c == 255 && ip.d == 255)
}

/// Two addresses share their first three octets.
pub open spec fn class_c_mates(x: Ipv4, y: Ipv4) -> bool {
    x.a == y.a && x.b == y.b && x.c == y.c
}

/// Whether two addresses share their first three octets.
pub fn same_class_c(x: Ipv4, y: Ipv4) -> (r: bool)
    ensures
        r == class_c_mates(x, y),
{
    x.a == y.a && x.b == y.b && x.c == y.c
}

/// Two addresses lie in the same network under a mask.
pub open spec fn same_network(x: Ipv4, y: Ipv4, mask: Ipv4) -> bool {
    &&& x.a & mask.a == y.a & mask.a
    &&& x.b & mask.b == y.b & mask.b
    &&& x.c & mask.c == y.c & mask.c
    &&& x.d & mask.d == y.d & mask.d
}

/// The rank of an interface address towards a peer, if it is a candidate at all:
/// its name's preference, 100 better on the peer's network, 20 better on the default
/// route. Loopback, link-local and virtual interfaces are no candidates.
pub open spec fn rank(iface: Iface, default_route: Option<Ipv4>, peer: Option<Ipv4>) -> Option<
    (int, Ipv4),
> {
    match iface.v4 {
        None => None,
        Some((ip, mask)) => {
            let base = preference(iface.name@);
            if iface.loopback || !advertiseable(ip) || (ip.a == 169 && ip.b == 254) || base < 0 {
                None
            } else {
                let near = match peer {
                    Some(p) => same_network(ip, p, mask) || class_c_mates(ip, p),
                    None => false,
                };
                Some(
                    (
                        base - (if near {
                            100int
                        } else {
                            0
                        }) - (if default_route == Some(ip) {
                            20int
                        } else {
                            0
                        }),
                        ip,
                    ),
                )
            }
        },
    }
}

/// The sort key of a ranked address: rank first, then the address itself.
pub open spec fn key(r: (int, Ipv4)) -> int {
    r.0 * 0x1_0000_0000 + r.1.number()
}

/// Some interface gives `ip` the key `k`.
pub open spec fn has_key(
    ifaces: Seq<Iface>,
    default_route: Option<Ipv4>,
    peer: Option<Ipv4>,
    ip: Ipv4,
    k: int,
) -> bool {
    exists|i: int|
        0 <= i < ifaces.len() && (#[trigger] rank(ifaces[i], default_route, peer) matches Some(r)
            && r.1 == ip && key(r) == k)
}

/// `k` is the best key that any interface gives `ip`.
pub open spec fn is_best_key(
    ifaces: Seq<Iface>,
    default_route: Option<Ipv4>,
    peer: Option<Ipv4>,
    ip: Ipv4,
    k: int,
) -> bool {
    &&& has_key(ifaces, default_route, peer, ip, k)
    &&& forall|other: int| has_key(ifaces, default_route, peer, ip, other) ==> k <= other
}

/// `out` lists exactly the candidate addresses, each once, best key first.
pub open spec fn is_ranking(
    ifaces: Seq<Iface>,
    default_route: Option<Ipv4>,
    peer: Option<Ipv4>,
    out: Seq<Ipv4>,
) -> bool {
    &&& out.no_duplicates()
    &&& forall|ip: Ipv4|
        #[trigger] out.contains(ip) <==> exists|k: int| has_key(ifaces, default_route, peer, ip, k)
    &&& forall|i: int, j: int, ki: int, kj: int|
        0 <= i < j < out.len() && #[trigger] is_best_key(ifaces, default_route, peer, out[i], ki)
            && #[trigger] is_best_key(ifaces, default_route, peer, out[j], kj) ==> ki < kj
}

/// `ip` has the key `k`, and no candidate has a lesser one.
pub open spec fn is_least_key(
    ifaces: Seq<Iface>,
    default_route: Option<Ipv4>,
    peer: Option<Ipv4>,
    ip: Ipv4,
    k: int,
) -> bool {
    &&& has_key(ifaces, default_route, peer, ip, k)
    &&& forall|other: Ipv4, j: int| #[trigger]
        has_key(ifaces, default_route, peer, other, j) ==> k <= j
}

/// `r` is the candidate with the least key, `None` where there is no candidate.
pub open spec fn is_first_choice(
    ifaces: Seq<Iface>,
    default_route: Option<Ipv4>,
    peer: Option<Ipv4>,
    r: Option<Ipv4>,
) -> bool {
    &&& r is Some ==> exists|k: int| is_least_key(ifaces, default_route, peer, r->0, k)
    &&& r is None ==> forall|other: Ipv4, k: int| !#[trigger]
        has_key(ifaces, default_route, peer, other, k)
}

/// The first element of a list.
pub open spec fn first_of(list: Seq<Ipv4>) -> Option<Ipv4> {
    if list.len() > 0 {
        Some(list[0])
    } else {
        None
    }
}

/// An address is determined by its number.
proof fn lemma_number_is_injective(x: Ipv4, y: Ipv4)
    requires
        x.number() == y.number(),
    ensures
        x == y,
{
    let p = x.a * 0x1_0000 + x.b * 0x100 + x.c;
    let q = y.a * 0x1_0000 + y.b * 0x100 + y.c;
    assert(p * 0x100 + x.d == q * 0x100 + y.d);
    assert(p == q && x.d == y.d);
    let u = x.a * 0x100 + x.b;
    let v = y.a * 0x100 + y.b;
    assert(u * 0x100 + x.c == v * 0x100 + y.c);
    assert(u == v && x.c == y.c);
}

/// A candidate with the least key is the first choice.
proof fn lemma_least_is_first_choice(
    ifaces: Seq<Iface>,
    default_route: Option<Ipv4>,
    peer: Option<Ipv4>,
    ip: Ipv4,
    k: int,
)
    requires
        is_least_key(ifaces, default_route, peer, ip, k),
    ensures
        is_first_choice(ifaces, default_route, peer, Some(ip)),
{
    let r = Some(ip);
    assert(is_least_key(ifaces, default_route, peer, r->0, k));
    assert(r is None ==> forall|other: Ipv4, k: int| !#[trigger]
        has_key(ifaces, default_route, peer, other, k));
}

/// A key fixes the address that it was made from.
proof fn lemma_key_is_injective(x: (int, Ipv4), y: (int, Ipv4))
    requires
        key(x) == key(y),
    ensures
        x == y,
{
    assert(0 <= x.1.number() < 0x1_0000_0000);
    assert(0 <= y.1.number() < 0x1_0000_0000);
    assert(x.0 == y.0);
    lemma_number_is_injective(x.1, y.1);
}

/// The ranked address of an interface.
fn rank_of(iface: &Iface, default_route: Option<Ipv4>, peer: Option<Ipv4>) -> (r: Option<
    (i64, Ipv4),
>)
    ensures
        match r {
            Some(e) => rank(*iface, default_route, peer) matches Some(x) && e.1 == x.1 && e.0
                == key(x),
            None => rank(*iface, default_route, peer) is None,
        },
{
    if iface.loopback {
        return None;
    }
    let (ip, mask) = match iface.v4 {
        Some(pair) => pair,
        None => {
            return None;
        },
    };
    if !is_advertiseable_v4(ip) || (ip.a == 169 && ip.b == 254) {
        return None;
    }
    let score: i32 = iface_preference(iface.name.as_str());
    if score < 0 {
        return None;
    }
    let mut place: i64 = score as i64;
    if let Some(p) = peer {
        if (ip.a & mask.a == p.a & mask.a && ip.b & mask.b == p.b & mask.b && ip.c & mask.c == p.c
            & mask.c && ip.d & mask.d == p.d & mask.d) || same_class_c(ip, p) {
            place = place - 100;
        }
    }
    if let Some(d) = default_route {
        if d.a == ip.a && d.b == ip.b && d.c == ip.c && d.d == ip.d {
            place = place - 20;
        }
    }
    Some((place * 0x1_0000_0000 + ip.to_number() as i64, ip))
}

/// Position of the entry with the least key.
fn least(rest: &Vec<(i64, Ipv4)>) -> (m: usize)
    requires
        rest@.len() > 0,
    ensures
        m < rest@.len(),
        forall|j: int| 0 <= j < rest@.len() ==> rest@[m as int].0 <= (#[trigger] rest@[j]).0,
{
    let mut m: usize = 0;
    let mut i: usize = 1;
    while i < rest.len()
        invariant
            1 <= i <= rest.len(),
            m < rest.len(),
            forall|j: int| 0 <= j < i ==> rest@[m as int].0 <= (#[trigger] rest@[j]).0,
        decreases rest.len() - i,
    {
        if rest[i].0 < rest[m].0 {
            m = i;
        }
        i += 1;
    }
    m
}

/// The entries for other addresses than `ip`.
fn without(rest: &Vec<(i64, Ipv4)>, ip: Ipv4) -> (out: Vec<(i64, Ipv4)>)
    ensures
        forall|e: (i64, Ipv4)| #[trigger]
            out@.contains(e) <==> rest@.contains(e) && e.1 != ip,
        out@.len() <= rest@.len(),
        (exists|j: int| 0 <= j < rest@.len() && (#[trigger] rest@[j]).1 == ip) ==> out@.len()
            < rest@.len(),
{
    let mut out: Vec<(i64, Ipv4)> = Vec::new();
    let mut i: usize = 0;
    while i < rest.len()
        invariant
            i <= rest.len(),
            out@.len() <= i,
            forall|j: int| 0 <= j < out@.len() ==> rest@.contains(#[trigger] out@[j]) && out@[j].1 != ip,
            forall|j: int|
                0 <= j < i && (#[trigger] rest@[j]).1 != ip ==> out@.contains(rest@[j]),
            (exists|j: int| 0 <= j < i && (#[trigger] rest@[j]).1 == ip) ==> out@.len() < i,
        decreases rest.len() - i,
    {
        let e = rest[i];
        let ghost before = out@;
        let same_ip: bool = e.1.a == ip.a && e.1.b == ip.b && e.1.c == ip.c && e.1.d == ip.d;
        if !same_ip {
            out.push(e);
            proof {
                assert(out@[before.len() as int] == e);
                assert(rest@[i as int] == e);
                assert forall|j: int| 0 <= j < i + 1 && (#[trigger] rest@[j]).1 != ip implies out@.contains(
                    rest@[j],
                ) by {
                    if j < i {
                        assert(before.contains(rest@[j]));
                        let k = choose|k: int| 0 <= k < before.len() && before[k] == rest@[j];
                        assert(out@[k] == rest@[j]);
                    }
                }
            }
        }
        i += 1;
    }
    proof {
        assert forall|e: (i64, Ipv4)| #[trigger] out@.contains(e) <==> rest@.contains(e) && e.1
            != ip by {
            if out@.contains(e) {
                let k = choose|k: int| 0 <= k < out@.len() && out@[k] == e;
                assert(rest@.contains(out@[k]));
            }
            if rest@.contains(e) && e.1 != ip {
                let k = choose|k: int| 0 <= k < rest@.len() && rest@[k] == e;
                assert(out@.contains(rest@[k]));
            }
        }
    }
    out
}

/// `entries` holds exactly the ranked addresses of the interfaces.
pub open spec fn are_keys(
    ifaces: Seq<Iface>,
    default_route: Option<Ipv4>,
    peer: Option<Ipv4>,
    entries: Seq<(i64, Ipv4)>,
) -> bool {
    forall|e: (i64, Ipv4)| #[trigger]
        entries.contains(e) <==> has_key(ifaces, default_route, peer, e.1, e.0 as int)
}

/// The ranked addresses of the interfaces.
fn ranked(ifaces: &[Iface], default_route: Option<Ipv4>, peer: Option<Ipv4>) -> (out: Vec<
    (i64, Ipv4),
>)
    ensures
        are_keys(ifaces@, default_route, peer, out@),
        forall|ip: Ipv4, k: int|
            has_key(ifaces@, default_route, peer, ip, k) ==> i64::MIN <= k <= i64::MAX,
{
    let mut out: Vec<(i64, Ipv4)> = Vec::new();
    let mut i: usize = 0;
    while i < ifaces.len()
        invariant
            i <= ifaces.len(),
            forall|j: int|
                0 <= j < out@.len() ==> has_key(
                    ifaces@,
                    default_route,
                    peer,
                    (#[trigger] out@[j]).1,
                    out@[j].0 as int,
                ),
            forall|j: int|
                0 <= j < i ==> (#[trigger] rank(ifaces@[j], default_route, peer) matches Some(r)
                    ==> i64::MIN <= key(r) <= i64::MAX && out@.contains((key(r) as i64, r.1))),
        decreases ifaces.len() - i,
    {
        let ghost before = out@;
        match rank_of(&ifaces[i], default_route, peer) {
            Some(e) => {
                out.push(e);
                proof {
                    assert(rank(ifaces@[i as int], default_route, peer) is Some);
                    assert(has_key(ifaces@, default_route, peer, e.1, e.0 as int));
                    assert(out@[before.len() as int] == e);
                    assert forall|j: int| 0 <= j < i + 1 implies (#[trigger] rank(
                        ifaces@[j],
                        default_route,
                        peer,
                    ) matches Some(r) ==> i64::MIN <= key(r) <= i64::MAX && out@.contains(
                        (key(r) as i64, r.1),
                    )) by {
                        if j < i {
                            if let Some(r) = rank(ifaces@[j], default_route, peer) {
                                let x = (key(r) as i64, r.1);
                                assert(before.contains(x));
                                let k = choose|k: int| 0 <= k < before.len() && before[k] == x;
                                assert(out@[k] == x);
                            }
                        }
                    }
                }
            },
            None => {},
        }
        i += 1;
    }
    proof {
        assert forall|e: (i64, Ipv4)| #[trigger] out@.contains(e) <==> has_key(
            ifaces@,
            default_route,
            peer,
            e.1,
            e.0 as int,
        ) by {
            if out@.contains(e) {
                let k = choose|k: int| 0 <= k < out@.len() && out@[k] == e;
                assert(has_key(ifaces@, default_route, peer, out@[k].1, out@[k].0 as int));
            }
            if has_key(ifaces@, default_route, peer, e.1, e.0 as int) {
                let j = choose|j: int|
                    0 <= j < ifaces@.len() && (#[trigger] rank(ifaces@[j], default_route, peer)
                        matches Some(r) && r.1 == e.1 && key(r) == e.0);
                assert(rank(ifaces@[j], default_route, peer) is Some);
            }
        }
        assert forall|ip: Ipv4, k: int| has_key(ifaces@, default_route, peer, ip, k) implies i64::MIN
            <= k <= i64::MAX by {
            let j = choose|j: int|
                0 <= j < ifaces@.len() && (#[trigger] rank(ifaces@[j], default_route, peer) matches Some(
                    r,
                ) && r.1 == ip && key(r) == k);
            assert(rank(ifaces@[j], default_route, peer) is Some);
        }
    }
    out
}

/// Two interfaces that give different addresses give different keys.
proof fn lemma_keys_differ(
    ifaces: Seq<Iface>,
    default_route: Option<Ipv4>,
    peer: Option<Ipv4>,
    x: Ipv4,
    y: Ipv4,
    k: int,
)
    requires
        has_key(ifaces, default_route, peer, x, k),
        has_key(ifaces, default_route, peer, y, k),
    ensures
        x == y,
{
    let i = choose|i: int|
        0 <= i < ifaces.len() && (#[trigger] rank(ifaces[i], default_route, peer) matches Some(r)
            && r.1 == x && key(r) == k);
    let j = choose|j: int|
        0 <= j < ifaces.len() && (#[trigger] rank(ifaces[j], default_route, peer) matches Some(r)
            && r.1 == y && key(r) == k);
    lemma_key_is_injective(
        rank(ifaces[i], default_route, peer)->0,
        rank(ifaces[j], default_route, peer)->0,
    );
}

/// Rank local IPv4 addresses for reaching an optional `peer`.
///
/// The peer's own network wins, then the default route, then the interface name;
/// loopback, link-local and virtual interfaces are left out.
pub fn preferred_local_ipv4s_for_peer(
    ifaces: &[Iface],
    default_route: Option<Ipv4>,
    peer: Option<Ipv4>,
) -> (out: Vec<Ipv4>)
    ensures
        is_ranking(ifaces@, default_route, peer, out@),
        is_first_choice(ifaces@, default_route, peer, first_of(out@)),
{
    let mut rest = ranked(ifaces, default_route, peer);
    let ghost all = rest@;
    let mut out: Vec<Ipv4> = Vec::new();
    let ghost mut bests: Seq<int> = Seq::empty();
    while rest.len() > 0
        invariant
            are_keys(ifaces@, default_route, peer, all),
            bests.len() == out@.len(),
            out@.no_duplicates(),
            forall|e: (i64, Ipv4)| #[trigger]
                rest@.contains(e) <==> all.contains(e) && !out@.contains(e.1),
            forall|i: int|
                0 <= i < out@.len() ==> is_best_key(
                    ifaces@,
                    default_route,
                    peer,
                    #[trigger] out@[i],
                    bests[i],
                ),
            forall|i: int, j: int| 0 <= i < j < bests.len() ==> bests[i] < bests[j],
            forall|i: int, j: int|
                0 <= i < bests.len() && 0 <= j < rest@.len() ==> bests[i] < (#[trigger] rest@[j]).0
                    && #[trigger] bests[i] == bests[i],
            forall|ip: Ipv4, k: int|
                has_key(ifaces@, default_route, peer, ip, k) ==> i64::MIN <= k <= i64::MAX,
        decreases rest@.len(),
    {
        let m: usize = least(&rest);
        let e = rest[m];
        let ghost old_rest = rest@;
        let ghost old_out = out@;
        let ghost old_bests = bests;
        proof {
            assert(old_rest.contains(e));
            assert(all.contains(e) && !old_out.contains(e.1));
            assert(is_best_key(ifaces@, default_route, peer, e.1, e.0 as int)) by {
                assert(has_key(ifaces@, default_route, peer, e.1, e.0 as int));
                assert forall|other: int| has_key(
                    ifaces@,
                    default_route,
                    peer,
                    e.1,
                    other,
                ) implies e.0 <= other by {
                    let x = (other as i64, e.1);
                    assert(all.contains(x));
                    assert(old_rest.contains(x));
                    let k = choose|k: int| 0 <= k < old_rest.len() && old_rest[k] == x;
                    assert(old_rest[k].0 == other);
                }
            }
        }
        let next = without(&rest, e.1);
        out.push(e.1);
        proof {
            bests = old_bests.push(e.0 as int);
            assert(old_rest[m as int].1 == e.1);
            assert forall|x: (i64, Ipv4)| #[trigger] next@.contains(x) <==> all.contains(x)
                && !out@.contains(x.1) by {
                assert(old_rest.contains(x) <==> all.contains(x) && !old_out.contains(x.1));
                assert(out@.contains(x.1) <==> old_out.contains(x.1) || x.1 == e.1) by {
                    if old_out.contains(x.1) {
                        let k = choose|k: int| 0 <= k < old_out.len() && old_out[k] == x.1;
                        assert(out@[k] == x.1);
                    }
                    if x.1 == e.1 {
                        assert(out@[old_out.len() as int] == e.1);
                    }
                    if out@.contains(x.1) {
                        let k = choose|k: int| 0 <= k < out@.len() && out@[k] == x.1;
                        if k < old_out.len() {
                            assert(old_out[k] == x.1);
                        }
                    }
                }
            }
            assert(out@.no_duplicates()) by {
                assert forall|i: int, j: int| 0 <= i < out@.len() && 0 <= j < out@.len() && i
                    != j implies out@[i] != out@[j] by {
                    if i < old_out.len() && j < old_out.len() {
                        assert(old_out[i] != old_out[j]);
                    } else if i < old_out.len() {
                        assert(old_out.contains(old_out[i]));
                    } else {
                        assert(old_out.contains(old_out[j]));
                    }
                }
            }
            assert forall|i: int| 0 <= i < out@.len() implies is_best_key(
                ifaces@,
                default_route,
                peer,
                #[trigger] out@[i],
                bests[i],
            ) by {
                if i < old_out.len() {
                    assert(out@[i] == old_out[i]);
                }
            }
            assert forall|i: int, j: int| 0 <= i < j < bests.len() implies bests[i] < bests[j] by {
                if j == old_bests.len() {
                    assert(old_bests[i] < old_rest[m as int].0 && old_bests[i] == old_bests[i]);
                } else {
                    assert(old_bests[i] < old_bests[j]);
                }
            }
            assert forall|i: int, j: int| 0 <= i < bests.len() && 0 <= j < next@.len() implies bests[i]
                < (#[trigger] next@[j]).0 && #[trigger] bests[i] == bests[i] by {
                let x = next@[j];
                assert(next@.contains(x));
                assert(old_rest.contains(x) && x.1 != e.1);
                let k = choose|k: int| 0 <= k < old_rest.len() && old_rest[k] == x;
                if i < old_bests.len() {
                    assert(old_bests[i] < old_rest[k].0 && old_bests[i] == old_bests[i]);
                } else {
                    assert(e.0 <= old_rest[k].0);
                    if e.0 == x.0 {
                        assert(all.contains(x));
                        assert(has_key(ifaces@, default_route, peer, x.1, x.0 as int));
                        lemma_keys_differ(
                            ifaces@,
                            default_route,
                            peer,
                            x.1,
                            e.1,
                            e.0 as int,
                        );
                    }
                }
            }
        }
        rest = next;
    }
    proof {
        assert forall|ip: Ipv4| #[trigger] out@.contains(ip) <==> exists|k: int|
            has_key(ifaces@, default_route, peer, ip, k) by {
            if out@.contains(ip) {
                let i = choose|i: int| 0 <= i < out@.len() && out@[i] == ip;
                assert(is_best_key(ifaces@, default_route, peer, out@[i], bests[i]));
            }
            if exists|k: int| has_key(ifaces@, default_route, peer, ip, k) {
                let k = choose|k: int| has_key(ifaces@, default_route, peer, ip, k);
                let x = (k as i64, ip);
                assert(all.contains(x));
                assert(!rest@.contains(x));
            }
        }
        assert forall|i: int, j: int, ki: int, kj: int|
            0 <= i < j < out@.len() && #[trigger] is_best_key(
                ifaces@,
                default_route,
                peer,
                out@[i],
                ki,
            ) && #[trigger] is_best_key(ifaces@, default_route, peer, out@[j], kj) implies ki
            < kj by {
            assert(is_best_key(ifaces@, default_route, peer, out@[i], bests[i]));
            assert(is_best_key(ifaces@, default_route, peer, out@[j], bests[j]));
            assert(ki == bests[i]);
            assert(kj == bests[j]);
        }
        if out@.len() > 0 {
            assert(is_best_key(ifaces@, default_route, peer, out@[0], bests[0]));
            assert forall|other: Ipv4, k: int| #[trigger] has_key(
                ifaces@,
                default_route,
                peer,
                other,
                k,
            ) implies bests[0] <= k by {
                assert(out@.contains(other));
                let i = choose|i: int| 0 <= i < out@.len() && out@[i] == other;
                assert(is_best_key(ifaces@, default_route, peer, out@[i], bests[i]));
            }
            lemma_least_is_first_choice(ifaces@, default_route, peer, out@[0], bests[0]);
        } else {
            assert forall|other: Ipv4, k: int| !#[trigger] has_key(
                ifaces@,
                default_route,
                peer,
                other,
                k,
            ) by {
                assert(!out@.contains(other));
            }
        }
    }
    out
}

/// An address on the peer's network, by its mask or by its first three numbers, goes
/// before one that is not, whatever the interfaces are called and wherever the default
/// route leads.
pub proof fn law_peer_network_comes_first(
    near: Iface,
    far: Iface,
    default_route: Option<Ipv4>,
    peer: Ipv4,
)
    requires
        near.v4 matches Some((ip, mask)) && (same_network(ip, peer, mask) || class_c_mates(
            ip,
            peer,
        )),
        far.v4 matches Some((ip, mask)) && !same_network(ip, peer, mask) && !class_c_mates(ip, peer),
        rank(near, default_route, Some(peer)) is Some,
        rank(far, default_route, Some(peer)) is Some,
    ensures
        key(rank(near, default_route, Some(peer))->0) < key(
            rank(far, default_route, Some(peer))->0,
        ),
{
    let n = rank(near, default_route, Some(peer))->0;
    let f = rank(far, default_route, Some(peer))->0;
    assert(0 <= preference(near.name@) <= 50);
    assert(n.0 <= -50);
    assert(f.0 >= -20);
    assert(0 <= n.1.number() < 0x1_0000_0000);
    assert(0 <= f.1.number() < 0x1_0000_0000);
}

/// The first choice is determined by the interfaces.
pub proof fn law_first_choice_is_unique(
    ifaces: Seq<Iface>,
    default_route: Option<Ipv4>,
    peer: Option<Ipv4>,
    x: Option<Ipv4>,
    y: Option<Ipv4>,
)
    requires
        is_first_choice(ifaces, default_route, peer, x),
        is_first_choice(ifaces, default_route, peer, y),
    ensures
        x == y,
{
    if x is Some && y is Some {
        let i = choose|i: int| is_least_key(ifaces, default_route, peer, x->0, i);
        let j = choose|j: int| is_least_key(ifaces, default_route, peer, y->0, j);
        assert(i == j);
        lemma_keys_differ(ifaces, default_route, peer, x->0, y->0, i);
    }
}

/// Local advertiseable IPv4 addresses, preferred interface first.
pub fn preferred_local_ipv4s(ifaces: &[Iface], default_route: Option<Ipv4>) -> (out: Vec<Ipv4>)
    ensures
        is_ranking(ifaces@, default_route, None, out@),
        is_first_choice(ifaces@, default_route, None, first_of(out@)),
{
    preferred_local_ipv4s_for_peer(ifaces, default_route, None)
}

// ── Default route ───────────────────────────────────────────────────────────

/// The interface of the first default route in the rows of the kernel's route
/// table. A row with fewer than two columns ends the table.
pub open spec fn route_iface(rows: Seq<Seq<char>>) -> Option<Seq<char>>
    decreases rows.len(),
{
    if rows.len() == 0 {
        None
    } else {
        let cols = text::words(rows[0]);
        if cols.len() < 2 {
            None
        } else if cols[1] == "00000000"@ {
            Some(cols[0])
        } else {
            route_iface(rows.drop_first())
        }
    }
}

/// The interface of the default route, read from the text of `/proc/net/route`.
pub fn default_route_iface(table: &str) -> (r: Option<String>)
    ensures
        text::opt_view(r) == route_iface(text::pieces(table@, '\n').drop_first()),
{
    let chars = chars_of(table);
    let rows = split_char(chars.as_slice(), '\n');
    let ghost all = text::pieces(table@, '\n');
    let dest = chars_of("00000000");
    let mut i: usize = 1;
    proof {
        text::lemma_pieces_nonempty(table@, '\n');
        assert(all.drop_first() =~= all.skip(1));
        assert(all.len() == rows@.len());
    }
    while i < rows.len()
        invariant
            1 <= i <= rows.len(),
            all == text::char_views(rows@),
            all == text::pieces(table@, '\n'),
            dest@ == "00000000"@,
            route_iface(all.drop_first()) == route_iface(all.skip(i as int)),
        decreases rows.len() - i,
    {
        proof {
            assert(all[i as int] == rows@[i as int]@);
            assert(all.skip(i as int)[0] == rows@[i as int]@);
            assert(all.skip(i as int).drop_first() =~= all.skip(i as int + 1));
        }
        let cols = split_whitespace(rows[i].as_slice());
        let ghost w = text::words(rows@[i as int]@);
        proof {
            assert(w.len() == cols@.len());
            assert forall|k: int| 0 <= k < cols@.len() implies w[k] == (#[trigger] cols@[k])@ by {
                assert(text::char_views(cols@)[k] == cols@[k]@);
            }
        }
        if cols.len() < 2 {
            return None;
        }
        proof {
            assert(w[0] == cols@[0]@ && w[1] == cols@[1]@);
        }
        if same(cols[1].as_slice(), dest.as_slice()) {
            return Some(string_of(cols[0].as_slice()));
        }
        i += 1;
    }
    None
}

/// The first advertiseable IPv4 address of the interface called `name`.
pub open spec fn address_of(ifaces: Seq<Iface>, name: Seq<char>) -> Option<Ipv4>
    decreases ifaces.len(),
{
    if ifaces.len() == 0 {
        None
    } else {
        match ifaces[0].v4 {
            Some((ip, mask)) if ifaces[0].name@ == name && advertiseable(ip) => Some(ip),
            _ => address_of(ifaces.drop_first(), name),
        }
    }
}

/// IPv4 of the default-route interface, from the text of `/proc/net/route`.
pub fn default_route_ipv4(ifaces: &[Iface], table: &str) -> (r: Option<Ipv4>)
    ensures
        r == match route_iface(text::pieces(table@, '\n').drop_first()) {
            Some(name) => address_of(ifaces@, name),
            None => None,
        },
{
    let name = match default_route_iface(table) {
        Some(name) => name,
        None => {
            return None;
        },
    };
    let mut i: usize = 0;
    proof {
        assert(ifaces@.skip(0) =~= ifaces@);
    }
    while i < ifaces.len()
        invariant
            i <= ifaces.len(),
            route_iface(text::pieces(table@, '\n').drop_first()) == Some(name@),
            address_of(ifaces@, name@) == address_of(ifaces@.skip(i as int), name@),
        decreases ifaces.len() - i,
    {
        proof {
            assert(ifaces@.skip(i as int)[0] == ifaces@[i as int]);
            assert(ifaces@.skip(i as int).drop_first() =~= ifaces@.skip(i as int + 1));
        }
        if str_eq(ifaces[i].name.as_str(), name.as_str()) {
            match ifaces[i].v4 {
                Some((ip, _)) => {
                    if is_advertiseable_v4(ip) {
                        return Some(ip);
                    }
                },
                None => {},
            }
        }
        i += 1;
    }
    None
}

// ── Advertised host ─────────────────────────────────────────────────────────

/// The address that the kernel chose for a route, when others can use it.
pub open spec fn usable(outbound: Option<HostAddr>) -> Option<Ipv4> {
    match outbound {
        Some(HostAddr::V4(ip)) if advertiseable(ip) => Some(ip),
        _ => None,
    }
}

/// The address that the kernel chose for a route, when others can use it.
pub fn usable_outbound(outbound: Option<HostAddr>) -> (r: Option<Ipv4>)
    ensures
        r == usable(outbound),
{
    match outbound {
        Some(HostAddr::V4(ip)) => if is_advertiseable_v4(ip) {
            Some(ip)
        } else {
            None
        },
        _ => None,
    }
}

/// The host to advertise: the first choice, else the outbound address, else loopback.
pub open spec fn advertised(choice: Option<Ipv4>, outbound: Option<HostAddr>) -> Seq<char> {
    match choice {
        Some(ip) => ip.dotted(),
        None => match usable(outbound) {
            Some(ip) => ip.dotted(),
            None => (Ipv4 { a: 127, b: 0, c: 0, d: 1 }).dotted(),
        },
    }
}

/// Best-effort non-loopback IPv4 for media URLs Chromecasts can pull.
///
/// `outbound` is the local address of a socket that the kernel routed towards the
/// internet.
pub fn advertise_host_ip(
    ifaces: &[Iface],
    default_route: Option<Ipv4>,
    outbound: Option<HostAddr>,
) -> (r: String)
    ensures
        exists|choice: Option<Ipv4>| #[trigger]
            is_first_choice(ifaces@, default_route, None, choice) && r@ == advertised(
                choice,
                outbound,
            ),
{
    let locals = preferred_local_ipv4s(ifaces, default_route);
    let ghost choice = first_of(locals@);
    if locals.len() > 0 {
        return locals[0].render();
    }
    match usable_outbound(outbound) {
        Some(ip) => ip.render(),
        None => (Ipv4 { a: 127, b: 0, c: 0, d: 1 }).render(),
    }
}

/// What a Cast peer's name resolved to, as an address.
pub open spec fn peer_address(peer_host: Seq<char>, looked_up: Seq<HostAddr>) -> Option<Ipv4> {
    match host_ipv4(bare_host(peer_host), looked_up) {
        Some(s) => address(s),
        None => None,
    }
}

/// The host to advertise to a peer: the first choice towards it, else the address
/// that the kernel routes to it; for a peer without address, the general choice.
pub open spec fn advertised_to(
    peer: Option<Ipv4>,
    near: Option<Ipv4>,
    any: Option<Ipv4>,
    toward_peer: Option<HostAddr>,
    outbound: Option<HostAddr>,
) -> Seq<char> {
    if peer is Some && near is Some {
        near->0.dotted()
    } else if peer is Some && usable(toward_peer) is Some {
        usable(toward_peer)->0.dotted()
    } else {
        advertised(any, outbound)
    }
}

/// Pick a local IPv4 that can reach `peer_host` (Cast device).
///
/// Multi-homed hosts often have two addresses on the same /24; advertising or
/// routing via the wrong one yields silent playback. `looked_up` is what the peer's
/// name resolved to, `toward_peer` the local address of a socket that the kernel
/// routed towards the peer, `outbound` one routed towards the internet.
pub fn advertise_host_for_peer(
    peer_host: &str,
    looked_up: &[HostAddr],
    ifaces: &[Iface],
    default_route: Option<Ipv4>,
    toward_peer: Option<HostAddr>,
    outbound: Option<HostAddr>,
) -> (r: String)
    ensures
        exists|near: Option<Ipv4>, any: Option<Ipv4>| #[trigger]
            is_first_choice(ifaces@, default_route, peer_address(peer_host@, looked_up@), near)
                && #[trigger] is_first_choice(ifaces@, default_route, None, any) && r@
                == advertised_to(
                peer_address(peer_host@, looked_up@),
                near,
                any,
                toward_peer,
                outbound,
            ),
{
    let any = preferred_local_ipv4s(ifaces, default_route);
    let ghost any_choice = first_of(any@);
    let c = chars_of(peer_host);
    let host = string_of(trim_dots(trim(c.as_slice())));
    let resolved = resolve_host_ipv4(host.as_str(), looked_up);
    let peer = match resolved {
        Some(s) => parse_ipv4(s.as_str()),
        None => None,
    };
    let near = preferred_local_ipv4s_for_peer(ifaces, default_route, peer);
    let ghost near_choice = first_of(near@);
    proof {
        assert(peer == peer_address(peer_host@, looked_up@));
        assert(is_first_choice(ifaces@, default_route, peer, near_choice));
        assert(is_first_choice(ifaces@, default_route, None, any_choice));
    }
    if peer.is_some() {
        if near.len() > 0 {
            return near[0].render();
        }
        match usable_outbound(toward_peer) {
            Some(ip) => {
                return ip.render();
            },
            None => {},
        }
    }
    let r = advertise_host_ip(ifaces, default_route, outbound);
    proof {
        let choice = choose|choice: Option<Ipv4>| #[trigger]
            is_first_choice(ifaces@, default_route, None, choice) && r@ == advertised(
                choice,
                outbound,
            );
        assert(is_first_choice(ifaces@, default_route, None, choice));
    }
    r
}

// ── Dialling ────────────────────────────────────────────────────────────────

/// Per-candidate timeout for source-bound Cast TCP connect.
pub const CAST_CONNECT_TIMEOUT: Duration = 2_000_000_000;

/// How long the localhost relay waits for the Cast client to dial in.
pub const CAST_RELAY_ACCEPT_TIMEOUT: Duration = 5_000_000_000;

/// Short TCP SYN used only to warm ARP / routes during wake.
pub const CAST_WAKE_TCP_TIMEOUT: Duration = 250_000_000;

/// Read/write timeout on relay sockets so the Cast client cannot block forever.
pub const CAST_RELAY_IO_TIMEOUT: Duration = 12_000_000_000;

/// TCP keepalive idle before first probe on the device-facing Cast socket.
pub const CAST_TCP_KEEPALIVE_TIME: Duration = 30_000_000_000;

/// TCP keepalive probe interval.
pub const CAST_TCP_KEEPALIVE_INTERVAL: Duration = 10_000_000_000;

/// The address to dial for a Cast host, or why there is none.
///
/// `looked_up` is what the host's name resolved to.
pub fn resolve_dest_ipv4(host: &str, looked_up: &[HostAddr]) -> (r: Result<Ipv4, String>)
    ensures
        match r {
            Ok(ip) => host_ipv4(host@, looked_up@) == Some(ip.dotted()),
            Err(m) => host_ipv4(host@, looked_up@) is None && m@ == "no IPv4 address for Cast host "@
                + host@,
        },
{
    let c = chars_of(host);
    let bare = string_of(trim_dots(trim(c.as_slice())));
    if !bare.as_str().is_empty() {
        match parse_ipv4(bare.as_str()) {
            Some(ip) => {
                return Ok(ip);
            },
            None => {},
        }
        match first_ipv4(looked_up) {
            Some(ip) => {
                return Ok(ip);
            },
            None => {},
        }
    }
    Err(joined("no IPv4 address for Cast host ", host))
}

/// Each local address as a source to bind, and at last no bound source.
pub open spec fn sources_of(locals: Seq<Ipv4>) -> Seq<Option<Ipv4>> {
    locals.map_values(|ip: Ipv4| Some(ip)).push(None)
}

fn sources(locals: &Vec<Ipv4>) -> (out: Vec<Option<Ipv4>>)
    ensures
        out@ == sources_of(locals@),
{
    let mut out: Vec<Option<Ipv4>> = Vec::new();
    let mut i: usize = 0;
    while i < locals.len()
        invariant
            i <= locals.len(),
            out@.len() == i,
            forall|j: int| 0 <= j < i ==> #[trigger] out@[j] == Some(locals@[j]),
        decreases locals.len() - i,
    {
        out.push(Some(locals[i]));
        i += 1;
    }
    out.push(None);
    proof {
        assert(out@ =~= sources_of(locals@));
    }
    out
}

/// Sources of the probes that warm ARP and routes towards a Cast device, and of the
/// probes that log which interface still works: every preferred local address, then
/// the kernel's own choice.
pub fn probe_sources(dest: Ipv4, ifaces: &[Iface], default_route: Option<Ipv4>) -> (out: Vec<
    Option<Ipv4>,
>)
    ensures
        exists|locals: Seq<Ipv4>| #[trigger]
            is_ranking(ifaces@, default_route, Some(dest), locals) && out@ == sources_of(locals),
{
    let locals = preferred_local_ipv4s_for_peer(ifaces, default_route, Some(dest));
    sources(&locals)
}

/// Sources to try, in order, when connecting to a Cast device: every preferred local
/// address, then the kernel's own choice. A loopback destination never gets a LAN
/// source.
pub fn connect_sources(dest: Ipv4, ifaces: &[Iface], default_route: Option<Ipv4>) -> (out: Vec<
    Option<Ipv4>,
>)
    ensures
        dest.a == 127 ==> out@ == sources_of(seq![Ipv4 { a: 127, b: 0, c: 0, d: 1 }]),
        dest.a != 127 ==> exists|locals: Seq<Ipv4>| #[trigger]
            is_ranking(ifaces@, default_route, Some(dest), locals) && out@ == sources_of(locals),
        out@.len() > 0,
{
    if dest.a == 127 {
        let mut locals: Vec<Ipv4> = Vec::new();
        locals.push(Ipv4 { a: 127, b: 0, c: 0, d: 1 });
        proof {
            assert(locals@ =~= seq![Ipv4 { a: 127, b: 0, c: 0, d: 1 }]);
        }
        return sources(&locals);
    }
    probe_sources(dest, ifaces, default_route)
}

/// Which failure to report when every one of `attempts` sources failed: the last
/// bound one, unless there was none or the destination is loopback.
pub fn reported_failure(dest: Ipv4, attempts: usize) -> (r: usize)
    requires
        attempts > 0,
    ensures
        r == if dest.a == 127 || attempts == 1 {
            attempts - 1
        } else {
            attempts - 2
        },
        r == told_failure(dest, attempts),
{
    if dest.a == 127 || attempts == 1 {
        attempts - 1
    } else {
        attempts - 2
    }
}

/// The local address that a connection to `dest` was made from: the bound source;
/// unbound, loopback towards loopback and else what the socket says.
pub fn source_used(dest: Ipv4, bound: Option<Ipv4>, socket_local: Option<HostAddr>) -> (r: Ipv4)
    ensures
        r == match bound {
            Some(ip) => ip,
            None => if dest.a == 127 {
                Ipv4 { a: 127, b: 0, c: 0, d: 1 }
            } else {
                match socket_local {
                    Some(HostAddr::V4(ip)) => ip,
                    _ => Ipv4 { a: 0, b: 0, c: 0, d: 0 },
                }
            },
        },
        r == source_of(dest, bound, socket_local),
{
    match bound {
        Some(ip) => ip,
        None => if dest.a == 127 {
            Ipv4 { a: 127, b: 0, c: 0, d: 1 }
        } else {
            match socket_local {
                Some(HostAddr::V4(ip)) => ip,
                _ => Ipv4 { a: 0, b: 0, c: 0, d: 0 },
            }
        },
    }
}

/// Whether a connection to `dest` gets TCP keepalive: all but loopback.
pub fn uses_keepalive(dest: Ipv4) -> (r: bool)
    ensures
        r == (dest.a != 127),
{
    dest.a != 127
}

// ── Relay ───────────────────────────────────────────────────────────────────

/// What a read on one side of the relay gave.
#[derive(Debug, Clone, Copy, PartialEq, Eq, Structural)]
pub enum RelayRead {
    /// That many bytes; zero at the end of the stream.
    Bytes(usize),
    /// The read timed out or would block.
    Idle,
    /// The read was interrupted by a signal.
    Interrupted,
    /// Any other failure.
    Failed,
}

/// What the relay does next.
#[derive(Debug, Clone, Copy, PartialEq, Eq, Structural)]
pub enum RelayStep {
    /// The direction is over; that many bytes were forwarded.
    Done(u64),
    /// Forward that many bytes of the buffer, and read again.
    Forward(usize),
    /// Read again.
    Retry,
    /// Give up: the reader claims more bytes than the buffer holds.
    Overrun,
    /// Give up with the reader's failure.
    Fail,
}

/// One step of a relay direction. An idle timeout is no reason to tear it down.
///
/// `total` counts the forwarded bytes, saturating.
pub fn relay_step(read: RelayRead, buffer_len: usize, total: &mut u64) -> (step: RelayStep)
    ensures
        step == match read {
            RelayRead::Bytes(n) => if n == 0 {
                RelayStep::Done(*old(total))
            } else if n > buffer_len {
                RelayStep::Overrun
            } else {
                RelayStep::Forward(n)
            },
            RelayRead::Idle | RelayRead::Interrupted => RelayStep::Retry,
            RelayRead::Failed => RelayStep::Fail,
        },
        *final(total) == match step {
            RelayStep::Forward(n) => if *old(total) + n > u64::MAX {
                u64::MAX as int
            } else {
                *old(total) + n
            },
            _ => *old(total) as int,
        },
        (step, *final(total)) == relayed(read, buffer_len, *old(total)),
{
    match read {
        RelayRead::Bytes(n) => if n == 0 {
            RelayStep::Done(*total)
        } else if n > buffer_len {
            RelayStep::Overrun
        } else {
            *total = total.saturating_add(n as u64);
            RelayStep::Forward(n)
        },
        RelayRead::Idle => RelayStep::Retry,
        RelayRead::Interrupted => RelayStep::Retry,
        RelayRead::Failed => RelayStep::Fail,
    }
}

// ── Kicking RTSP sockets ────────────────────────────────────────────────────

/// A line of `ss` output that stands for a socket: neither blank nor a column header.
pub open spec fn is_socket_row(line: Seq<char>) -> bool {
    let w = text::words(line);
    w.len() > 0 && text::lower(w[0]) != "netid"@ && text::lower(w[0]) != "state"@
}

/// How many of the lines stand for a socket.
pub open spec fn socket_rows(lines: Seq<Seq<char>>) -> nat
    decreases lines.len(),
{
    if lines.len() == 0 {
        0
    } else {
        socket_rows(lines.drop_last()) + if is_socket_row(lines.last()) {
            1nat
        } else {
            0
        }
    }
}

fn is_socket_chars(line: &[char]) -> (r: bool)
    ensures
        r == is_socket_row(line@),
{
    let w = split_whitespace(line);
    let ghost words = text::words(line@);
    proof {
        assert(words.len() == w@.len());
    }
    if w.len() == 0 {
        return false;
    }
    proof {
        assert(words[0] == text::char_views(w@)[0]);
    }
    let first = to_ascii_lowercase(w[0].as_slice());
    let netid = chars_of("netid");
    let state = chars_of("state");
    !same(first.as_slice(), netid.as_slice()) && !same(first.as_slice(), state.as_slice())
}

/// True when a line from `ss` stdout is a real socket row (not blank / column header).
pub fn is_ss_socket_line(line: &str) -> (r: bool)
    ensures
        r == is_socket_row(line@),
{
    let c = chars_of(line);
    is_socket_chars(c.as_slice())
}

/// Count closed-socket rows in `ss -K` stdout (excludes blanks and headers).
pub fn count_ss_socket_lines(stdout: &str) -> (n: usize)
    ensures
        n == socket_rows(text::pieces(stdout@, '\n')),
{
    let c = chars_of(stdout);
    let lines = split_char(c.as_slice(), '\n');
    let ghost all = text::char_views(lines@);
    let mut n: usize = 0;
    let mut i: usize = 0;
    while i < lines.len()
        invariant
            i <= lines.len(),
            n <= i,
            all == text::char_views(lines@),
            n == socket_rows(all.take(i as int)),
        decreases lines.len() - i,
    {
        proof {
            assert(all.take(i as int + 1).drop_last() =~= all.take(i as int));
            assert(all.take(i as int + 1).last() == lines@[i as int]@);
        }
        if is_socket_chars(lines[i].as_slice()) {
            n += 1;
        }
        i += 1;
    }
    proof {
        assert(all.take(i as int) =~= all);
    }
    n
}

/// The socket filter that `ss` gets: the local port.
pub fn ss_filter(local_port: u16) -> (r: String)
    ensures
        r@ == "sport = :"@ + text::decimal(local_port as nat),
{
    let mut out = chars_of("sport = :");
    let n = to_decimal(local_port as u64);
    push_all(&mut out, n.as_slice());
    string_of(out.as_slice())
}

/// How a run of `ss -K` ended.
#[derive(Debug)]
pub enum SsRun {
    /// The program could not be started.
    Missing,
    /// It reported failure.
    Failed,
    /// It reported success with this output.
    Succeeded(String),
}

/// What came of kicking the sockets.
#[derive(Debug, Clone, Copy, PartialEq, Eq, Structural)]
pub enum KickReport {
    /// `ss` is not installed.
    Unavailable,
    /// `ss` failed.
    Failed,
    /// `ss` succeeded but closed no socket.
    NothingClosed,
    /// `ss` closed that many sockets.
    Closed(usize),
}

/// Whether to run `ss` again without its no-header flag, which older versions reject.
pub fn retry_without_header_flag(first: &SsRun) -> (r: bool)
    ensures
        r == (first is Failed),
{
    match first {
        SsRun::Failed => true,
        _ => false,
    }
}

/// What the run of `ss` that counts came to.
pub fn kick_report(run: &SsRun) -> (r: KickReport)
    ensures
        match *run {
            SsRun::Missing => r == KickReport::Unavailable,
            SsRun::Failed => r == KickReport::Failed,
            SsRun::Succeeded(stdout) => {
                let rows = socket_rows(text::pieces(stdout@, '\n'));
                if rows == 0 {
                    r == KickReport::NothingClosed
                } else {
                    r matches KickReport::Closed(n) && n == rows
                }
            },
        },
{
    match run {
        SsRun::Missing => KickReport::Unavailable,
        SsRun::Failed => KickReport::Failed,
        SsRun::Succeeded(stdout) => {
            let n: usize = count_ss_socket_lines(stdout.as_str());
            if n == 0 {
                KickReport::NothingClosed
            } else {
                KickReport::Closed(n)
            }
        },
    }
}

// ── What the choice of addresses promises ───────────────────────────────────

/// Which interfaces are candidates and how they rank: by their name's preference, 100
/// better for an address that the mask or the first three numbers put on the peer's
/// network, 20 better for the address on the default route, with or without a peer.
pub proof fn law_rank_adds_up(
    iface: Iface,
    ip: Ipv4,
    mask: Ipv4,
    default_route: Option<Ipv4>,
    peer: Option<Ipv4>,
)
    requires
        iface.v4 == Some((ip, mask)),
    ensures
        rank(iface, default_route, peer) is Some <==> !iface.loopback && advertiseable(ip) && !(ip.a
            == 169 && ip.b == 254) && preference(iface.name@) >= 0,
        rank(iface, default_route, peer) matches Some(r) ==> {
            let near = peer matches Some(p) && ((ip.a & mask.a == p.a & mask.a && ip.b & mask.b
                == p.b & mask.b && ip.c & mask.c == p.c & mask.c && ip.d & mask.d == p.d & mask.d)
                || (ip.a == p.a && ip.b == p.b && ip.c == p.c));
            let routed = default_route == Some(ip);
            &&& r.1 == ip
            &&& near && routed ==> r.0 == preference(iface.name@) - 120
            &&& near && !routed ==> r.0 == preference(iface.name@) - 100
            &&& !near && routed ==> r.0 == preference(iface.name@) - 20
            &&& !near && !routed ==> r.0 == preference(iface.name@)
        },
{
}

/// An interface without an IPv4 address is no candidate.
pub proof fn law_only_ipv4_is_a_candidate(
    iface: Iface,
    default_route: Option<Ipv4>,
    peer: Option<Ipv4>,
)
    requires
        iface.v4 is None,
    ensures
        rank(iface, default_route, peer) is None,
{
}

/// Of two addresses that are both on the peer's network, or both off it, or ranked
/// without a peer, the one on the default route comes first whenever its name's
/// preference is less than 20 worse.
pub proof fn law_default_route_decides_among_equals(
    routed: Iface,
    other: Iface,
    at: Ipv4,
    at_mask: Ipv4,
    away: Ipv4,
    away_mask: Ipv4,
    peer: Option<Ipv4>,
)
    requires
        routed.v4 == Some((at, at_mask)),
        other.v4 == Some((away, away_mask)),
        at != away,
        rank(routed, Some(at), peer) is Some,
        rank(other, Some(at), peer) is Some,
        peer matches Some(p) ==> (same_network(at, p, at_mask) || class_c_mates(at, p)) == (
        same_network(away, p, away_mask) || class_c_mates(away, p)),
        preference(routed.name@) < preference(other.name@) + 20,
    ensures
        key(rank(routed, Some(at), peer)->0) < key(rank(other, Some(at), peer)->0),
{
    assert(0 <= at.number() < 0x1_0000_0000);
    assert(0 <= away.number() < 0x1_0000_0000);
}

/// Without default route and peer, the better name comes first; among equal ranks the
/// lesser address does.
pub proof fn law_better_rank_comes_first(x: (int, Ipv4), y: (int, Ipv4))
    ensures
        key(x) < key(y) <==> x.0 < y.0 || (x.0 == y.0 && x.1.number() < y.1.number()),
        key(x) == key(y) <==> x == y,
{
    assert(0 <= x.1.number() < 0x1_0000_0000);
    assert(0 <= y.1.number() < 0x1_0000_0000);
    if key(x) == key(y) {
        lemma_number_is_injective(x.1, y.1);
    }
}

/// Addresses compare number by number, the first one first.
pub proof fn law_addresses_compare_number_by_number(x: Ipv4, y: Ipv4)
    ensures
        x.number() < y.number() <==> x.a < y.a || (x.a == y.a && (x.b < y.b || (x.b == y.b && (x.c
            < y.c || (x.c == y.c && x.d < y.d))))),
{
}

/// The first choice is a candidate, and no candidate ranks before it; there is none
/// exactly when there is no candidate.
pub proof fn law_first_choice_ranks_first(
    ifaces: Seq<Iface>,
    default_route: Option<Ipv4>,
    peer: Option<Ipv4>,
    choice: Option<Ipv4>,
    i: int,
    it: (int, Ipv4),
)
    requires
        is_first_choice(ifaces, default_route, peer, choice),
        0 <= i < ifaces.len(),
        rank(ifaces[i], default_route, peer) == Some(it),
    ensures
        choice is Some,
        exists|j: int|
            {
                &&& 0 <= j < ifaces.len()
                &&& rank(#[trigger] ifaces[j], default_route, peer) matches Some(best) && best.1
                    == choice->0 && (best.0 < it.0 || (best.0 == it.0 && best.1.number()
                    <= it.1.number()))
            },
{
    assert(has_key(ifaces, default_route, peer, it.1, key(it)));
    let k = choose|k: int| is_least_key(ifaces, default_route, peer, choice->0, k);
    let j = choose|j: int|
        0 <= j < ifaces.len() && (#[trigger] rank(ifaces[j], default_route, peer) matches Some(r)
            && r.1 == choice->0 && key(r) == k);
    let best = rank(ifaces[j], default_route, peer)->0;
    assert(k <= key(it));
    law_better_rank_comes_first(it, best);
    assert(ifaces[j] == ifaces[j]);
}

/// Without a candidate there is no first choice.
pub proof fn law_no_candidate_no_choice(
    ifaces: Seq<Iface>,
    default_route: Option<Ipv4>,
    peer: Option<Ipv4>,
    choice: Option<Ipv4>,
)
    requires
        is_first_choice(ifaces, default_route, peer, choice),
        forall|i: int| 0 <= i < ifaces.len() ==> rank(#[trigger] ifaces[i], default_route, peer) is None,
    ensures
        choice is None,
{
    if choice is Some {
        let k = choose|k: int| is_least_key(ifaces, default_route, peer, choice->0, k);
        let j = choose|j: int|
            0 <= j < ifaces.len() && (#[trigger] rank(ifaces[j], default_route, peer) matches Some(r)
                && r.1 == choice->0 && key(r) == k);
        assert(rank(ifaces[j], default_route, peer) is None);
    }
}

/// A ranking lists every candidate's address, each once, nothing else, and those that
/// rank better first.
pub proof fn law_ranking_lists_candidates_best_first(
    ifaces: Seq<Iface>,
    default_route: Option<Ipv4>,
    peer: Option<Ipv4>,
    out: Seq<Ipv4>,
    i: int,
    j: int,
    x: (int, Ipv4),
    y: (int, Ipv4),
)
    requires
        is_ranking(ifaces, default_route, peer, out),
        0 <= i < ifaces.len() && 0 <= j < ifaces.len(),
        rank(ifaces[i], default_route, peer) == Some(x),
        rank(ifaces[j], default_route, peer) == Some(y),
    ensures
        out.no_duplicates(),
        out.contains(x.1),
        ifaces.len() == 2 && i != j && x.1 != y.1 && x.0 < y.0 ==> out == seq![x.1, y.1],
{
    assert(has_key(ifaces, default_route, peer, x.1, key(x)));
    assert(has_key(ifaces, default_route, peer, y.1, key(y)));
    if ifaces.len() == 2 && i != j && x.1 != y.1 && x.0 < y.0 {
        assert(out.contains(y.1));
        law_better_rank_comes_first(x, y);
        assert forall|k: int| has_key(ifaces, default_route, peer, x.1, k) implies k == key(x) by {
        }
        assert forall|k: int| has_key(ifaces, default_route, peer, y.1, k) implies k == key(y) by {
        }
        assert(is_best_key(ifaces, default_route, peer, x.1, key(x)));
        assert(is_best_key(ifaces, default_route, peer, y.1, key(y)));
        assert(out.contains(x.1));
        let p = choose|p: int| 0 <= p < out.len() && out[p] == x.1;
        let q = choose|q: int| 0 <= q < out.len() && out[q] == y.1;
        if q < p {
            assert(is_best_key(ifaces, default_route, peer, out[q], key(y)));
            assert(is_best_key(ifaces, default_route, peer, out[p], key(x)));
        }
        assert forall|m: int| 0 <= m < out.len() implies (#[trigger] out[m] == x.1 || out[m]
            == y.1) by {
            assert(out.contains(out[m]));
            let k = choose|k: int| has_key(ifaces, default_route, peer, out[m], k);
            assert(has_key(ifaces, default_route, peer, out[m], k));
            assert(out[m] == x.1 || out[m] == y.1);
        }
        assert(out.len() == 2) by {
            if out.len() > 2 {
                assert(out[0] != out[1] && out[1] != out[2] && out[0] != out[2]);
            }
        }
        assert(p == 0 && q == 1);
        assert(out =~= seq![x.1, y.1]);
    }
}

/// What an interface's name says. Containers, bridges and tunnels are never used; the
/// first wired interface is best, then wireless, then other wired ones, then the rest, and
/// last the adapters that a Mac numbers 7 to 9.
pub proof fn law_names_rank_interfaces(name: Seq<char>)
    ensures
        name == "docker0"@ || name == "hassio"@ ==> preference(name) < 0 && blacklisted(name),
        "veth"@.is_prefix_of(name) || "br-"@.is_prefix_of(name) || "tun"@.is_prefix_of(name)
            || "tap"@.is_prefix_of(name) || "wg"@.is_prefix_of(name) || "tailscale"@.is_prefix_of(
            name,
        ) ==> preference(name) < 0 && blacklisted(name),
        "bridge"@.is_prefix_of(name) || "vmenet"@.is_prefix_of(name) || "utun"@.is_prefix_of(name)
            || "awdl"@.is_prefix_of(name) ==> preference(name) < 0 && !blacklisted(name),
        name == "en0"@ || name == "eth0"@ || name == "end0"@ ==> preference(name) == 0,
        "wlan"@.is_prefix_of(name) || "wlp"@.is_prefix_of(name) ==> preference(name) == 5,
        name == "en7"@ || name == "en8"@ || name == "en9"@ ==> preference(name) == 50,
        ("en"@.is_prefix_of(name) || "eth"@.is_prefix_of(name)) && name != "en0"@ && name != "eth0"@
            && name != "end0"@ && name != "en7"@ && name != "en8"@ && name != "en9"@ ==> preference(
            name,
        ) == 10,
        name.len() > 0 && name[0] != 'e' && name[0] != 'w' && name[0] != 'b' && name[0] != 'v'
            && name[0] != 't' && name[0] != 'u' && name[0] != 'a' && name[0] != 'd' && name[0] != 'h'
            ==> preference(name) == 40,
        blacklisted(name) ==> preference(name) < 0,
{
    reveal_strlit("docker0");
    assert("docker0"@.len() == 7 && "docker0"@[0] == 'd' && "docker0"@[1] == 'o' && "docker0"@[2] == 'c' && "docker0"@[3] == 'k');
    reveal_strlit("hassio");
    assert("hassio"@.len() == 6 && "hassio"@[0] == 'h' && "hassio"@[1] == 'a' && "hassio"@[2] == 's' && "hassio"@[3] == 's');
    reveal_strlit("veth");
    assert("veth"@.len() == 4 && "veth"@[0] == 'v' && "veth"@[1] == 'e' && "veth"@[2] == 't' && "veth"@[3] == 'h');
    reveal_strlit("br-");
    assert("br-"@.len() == 3 && "br-"@[0] == 'b' && "br-"@[1] == 'r' && "br-"@[2] == '-');
    reveal_strlit("tun");
    assert("tun"@.len() == 3 && "tun"@[0] == 't' && "tun"@[1] == 'u' && "tun"@[2] == 'n');
    reveal_strlit("tap");
    assert("tap"@.len() == 3 && "tap"@[0] == 't' && "tap"@[1] == 'a' && "tap"@[2] == 'p');
    reveal_strlit("wg");
    assert("wg"@.len() == 2 && "wg"@[0] == 'w' && "wg"@[1] == 'g');
    reveal_strlit("tailscale");
    assert("tailscale"@.len() == 9 && "tailscale"@[0] == 't' && "tailscale"@[1] == 'a' && "tailscale"@[2] == 'i' && "tailscale"@[3] == 'l');
    reveal_strlit("en0");
    assert("en0"@.len() == 3 && "en0"@[0] == 'e' && "en0"@[1] == 'n' && "en0"@[2] == '0');
    reveal_strlit("eth0");
    assert("eth0"@.len() == 4 && "eth0"@[0] == 'e' && "eth0"@[1] == 't' && "eth0"@[2] == 'h' && "eth0"@[3] == '0');
    reveal_strlit("end0");
    assert("end0"@.len() == 4 && "end0"@[0] == 'e' && "end0"@[1] == 'n' && "end0"@[2] == 'd' && "end0"@[3] == '0');
    reveal_strlit("en");
    assert("en"@.len() == 2 && "en"@[0] == 'e' && "en"@[1] == 'n');
    reveal_strlit("eth");
    assert("eth"@.len() == 3 && "eth"@[0] == 'e' && "eth"@[1] == 't' && "eth"@[2] == 'h');
    reveal_strlit("end");
    assert("end"@.len() == 3 && "end"@[0] == 'e' && "end"@[1] == 'n' && "end"@[2] == 'd');
    reveal_strlit("en7");
    assert("en7"@.len() == 3 && "en7"@[0] == 'e' && "en7"@[1] == 'n' && "en7"@[2] == '7');
    reveal_strlit("en8");
    assert("en8"@.len() == 3 && "en8"@[0] == 'e' && "en8"@[1] == 'n' && "en8"@[2] == '8');
    reveal_strlit("en9");
    assert("en9"@.len() == 3 && "en9"@[0] == 'e' && "en9"@[1] == 'n' && "en9"@[2] == '9');
    reveal_strlit("wlan");
    assert("wlan"@.len() == 4 && "wlan"@[0] == 'w' && "wlan"@[1] == 'l' && "wlan"@[2] == 'a' && "wlan"@[3] == 'n');
    reveal_strlit("wlp");
    assert("wlp"@.len() == 3 && "wlp"@[0] == 'w' && "wlp"@[1] == 'l' && "wlp"@[2] == 'p');
    reveal_strlit("bridge");
    assert("bridge"@.len() == 6 && "bridge"@[0] == 'b' && "bridge"@[1] == 'r' && "bridge"@[2] == 'i' && "bridge"@[3] == 'd');
    reveal_strlit("vmenet");
    assert("vmenet"@.len() == 6 && "vmenet"@[0] == 'v' && "vmenet"@[1] == 'm' && "vmenet"@[2] == 'e' && "vmenet"@[3] == 'n');
    reveal_strlit("utun");
    assert("utun"@.len() == 4 && "utun"@[0] == 'u' && "utun"@[1] == 't' && "utun"@[2] == 'u' && "utun"@[3] == 'n');
    reveal_strlit("awdl");
    assert("awdl"@.len() == 4 && "awdl"@[0] == 'a' && "awdl"@[1] == 'w' && "awdl"@[2] == 'd' && "awdl"@[3] == 'l');
    lemma_prefix(name, "veth"@);
    lemma_prefix(name, "br-"@);
    lemma_prefix(name, "tun"@);
    lemma_prefix(name, "tap"@);
    lemma_prefix(name, "wg"@);
    lemma_prefix(name, "tailscale"@);
    lemma_prefix(name, "en"@);
    lemma_prefix(name, "eth"@);
    lemma_prefix(name, "end"@);
    lemma_prefix(name, "wlan"@);
    lemma_prefix(name, "wlp"@);
    lemma_prefix(name, "bridge"@);
    lemma_prefix(name, "vmenet"@);
    lemma_prefix(name, "utun"@);
    lemma_prefix(name, "awdl"@);
}

/// A text begins with another exactly when it agrees with it in every place.
proof fn lemma_prefix(name: Seq<char>, p: Seq<char>)
    ensures
        p.is_prefix_of(name) <==> p.len() <= name.len() && forall|i: int|
            0 <= i < p.len() ==> #[trigger] p[i] == name[i],
{
    if p.is_prefix_of(name) {
        assert forall|i: int| 0 <= i < p.len() implies #[trigger] p[i] == name[i] by {
            assert(name.subrange(0, p.len() as int)[i] == name[i]);
        }
    }
    if p.len() <= name.len() && forall|i: int| 0 <= i < p.len() ==> #[trigger] p[i] == name[i] {
        assert(p =~= name.subrange(0, p.len() as int));
    }
}

/// Only unspecified, loopback, multicast and broadcast addresses are kept back.
pub proof fn law_lan_addresses_are_advertised(ip: Ipv4)
    ensures
        advertiseable(ip) <==> ip.number() != 0 && ip.number() != 0xffff_ffff && !(0x7f00_0000
            <= ip.number() <= 0x7fff_ffff) && !(0xe000_0000 <= ip.number() <= 0xefff_ffff),
{
}

/// Two addresses share their first three numbers exactly when they differ by less than a
/// last one.
pub proof fn law_mates_share_three_numbers(x: Ipv4, y: Ipv4)
    ensures
        class_c_mates(x, y) <==> x.number() / 256 == y.number() / 256,
{
    let p = x.a * 0x1_0000 + x.b * 0x100 + x.c;
    let q = y.a * 0x1_0000 + y.b * 0x100 + y.c;
    assert(x.number() == p * 256 + x.d);
    assert(y.number() == q * 256 + y.d);
    assert(x.number() / 256 == p);
    assert(y.number() / 256 == q);
    let u = x.a * 0x100 + x.b;
    let v = y.a * 0x100 + y.b;
    if p == q {
        assert(u * 0x100 + x.c == v * 0x100 + y.c);
        assert(u == v && x.c == y.c);
    }
}

/// A mask says how much of two addresses must agree: all of it, the first three numbers,
/// the first two, the first, or nothing.
pub proof fn law_mask_says_what_must_agree(x: Ipv4, y: Ipv4)
    ensures
        same_network(x, y, Ipv4 { a: 255, b: 255, c: 255, d: 255 }) <==> x == y,
        same_network(x, y, Ipv4 { a: 255, b: 255, c: 255, d: 0 }) <==> x.a == y.a && x.b == y.b && x.c
            == y.c,
        same_network(x, y, Ipv4 { a: 255, b: 255, c: 0, d: 0 }) <==> x.a == y.a && x.b == y.b,
        same_network(x, y, Ipv4 { a: 255, b: 0, c: 0, d: 0 }) <==> x.a == y.a,
        same_network(x, y, Ipv4 { a: 0, b: 0, c: 0, d: 0 }),
{
    let (xa, xb, xc, xd) = (x.a, x.b, x.c, x.d);
    let (ya, yb, yc, yd) = (y.a, y.b, y.c, y.d);
    assert(xa & 255 == xa && xb & 255 == xb && xc & 255 == xc && xd & 255 == xd) by (bit_vector);
    assert(ya & 255 == ya && yb & 255 == yb && yc & 255 == yc && yd & 255 == yd) by (bit_vector);
    assert(xa & 0 == 0 && xb & 0 == 0 && xc & 0 == 0 && xd & 0 == 0) by (bit_vector);
    assert(ya & 0 == 0 && yb & 0 == 0 && yc & 0 == 0 && yd & 0 == 0) by (bit_vector);
}

/// The first IPv4 address that a name resolved to counts, whatever stands before and
/// behind it.
pub proof fn law_first_ipv4_counts(before: Seq<HostAddr>, ip: Ipv4, behind: Seq<HostAddr>)
    requires
        forall|i: int| 0 <= i < before.len() ==> #[trigger] before[i] == HostAddr::V6,
    ensures
        first_v4(before + seq![HostAddr::V4(ip)] + behind) == Some(ip),
        first_v4(before) is None,
    decreases before.len(),
{
    let all = before + seq![HostAddr::V4(ip)] + behind;
    if before.len() > 0 {
        let rest = before.drop_first();
        assert(before[0] == HostAddr::V6);
        assert forall|i: int| 0 <= i < rest.len() implies #[trigger] rest[i] == HostAddr::V6 by {
            assert(rest[i] == before[i + 1]);
        }
        law_first_ipv4_counts(rest, ip, behind);
        assert(all[0] == before[0]);
        assert(all.drop_first() =~= rest + seq![HostAddr::V4(ip)] + behind);
    } else {
        assert(all[0] == HostAddr::V4(ip));
    }
}

/// A host that is written as an address is that address, whatever the resolver says; any
/// other is the first IPv4 address of its name; a blank one is none.
pub proof fn law_host_address(hostname: Seq<char>, ip: Ipv4, looked_up: Seq<HostAddr>)
    ensures
        host_ipv4(ip.dotted(), looked_up) == Some(ip.dotted()),
        peer_address(ip.dotted(), looked_up) == Some(ip),
        bare_host(hostname).len() > 0 && address(bare_host(hostname)) is None && first_v4(looked_up)
            == Some(ip) ==> host_ipv4(hostname, looked_up) == Some(ip.dotted()),
        bare_host(hostname).len() > 0 && address(bare_host(hostname)) is None && first_v4(looked_up)
            is None ==> host_ipv4(hostname, looked_up) is None,
        bare_host(hostname).len() == 0 ==> host_ipv4(hostname, looked_up) is None,
        bare_host(hostname) == hostname && hostname.len() > 0 && address(hostname) is None
            ==> peer_address(hostname, looked_up) == first_v4(looked_up),
{
    law_parse_inverts_render(ip);
    lemma_dotted_is_bare(ip);
    if let Some(found) = first_v4(looked_up) {
        law_parse_inverts_render(found);
    }
}

/// An address in dotted decimal has nothing to strip.
proof fn lemma_dotted_is_bare(ip: Ipv4)
    ensures
        bare_host(ip.dotted()) == ip.dotted(),
        ip.dotted().len() > 0,
{
    let s = ip.dotted();
    text::law_number_is_read_back(ip.a as nat, 255);
    text::law_number_is_read_back(ip.d as nat, 255);
    let a = text::decimal(ip.a as nat);
    let d = text::decimal(ip.d as nat);
    assert(text::is_digit(a[0]));
    assert(text::is_digit(d[d.len() - 1]));
    assert(s[0] == a[0]);
    assert(s.last() == d.last());
    assert(!text::is_white(s[0]) && !text::is_white(s.last()));
}

/// Only a text that writes an address in full, without leading zeros, is that address.
pub proof fn law_only_dotted_decimal_is_an_address(s: Seq<char>)
    ensures
        address(s) matches Some(ip) ==> s == ip.dotted(),
{
    if let Some(ip) = address(s) {
        let p = text::pieces(s, '.');
        text::law_pieces_rejoin(s, '.');
        text::law_plain_digits_are_decimal(p[0]);
        text::law_plain_digits_are_decimal(p[1]);
        text::law_plain_digits_are_decimal(p[2]);
        text::law_plain_digits_are_decimal(p[3]);
        reveal_strlit(".");
        let three = p.drop_last();
        let two = three.drop_last();
        let one = two.drop_last();
        assert(one[0] == p[0] && two.last() == p[1] && three.last() == p[2] && p.last() == p[3]);
        reveal_with_fuel(text::rejoined, 5);
        assert(text::rejoined(p, '.') =~= ip.dotted());
    }
}

/// A bare host has neither whitespace in front nor a dot behind.
pub proof fn law_bare_host_is_stripped(s: Seq<char>)
    ensures
        bare_host(s).len() > 0 ==> bare_host(s).last() != '.' && !text::is_white(bare_host(s)[0]),
{
    let t = text::trimmed(s);
    text::law_trimming_cuts_only_whitespace(s);
    text::law_only_trailing_dots_go(t);
    if bare_host(s).len() > 0 {
        assert(bare_host(s)[0] == t[0]);
    }
}

/// A host that is bare already stays as it is, and loses a dot that is put behind it.
pub proof fn law_bare_host_keeps_its_name(s: Seq<char>)
    requires
        s.len() > 0,
        !text::is_white(s[0]) && !text::is_white(s.last()) && s.last() != '.',
    ensures
        bare_host(s) == s,
        bare_host(s.push('.')) == s,
{
    let dotted = s.push('.');
    assert(dotted[0] == s[0]);
    assert(dotted.last() == '.');
    assert(text::trim_start(s) == s);
    assert(text::trim_end(s) == s);
    assert(text::without_dots(s) == s);
    assert(text::trim_start(dotted) == dotted);
    assert(text::trim_end(dotted) == dotted);
    assert(dotted.drop_last() =~= s);
    assert(text::without_dots(dotted) == text::without_dots(s));
}

/// Connect targets in full: the host's address, the host, the hostname's address and the
/// hostname, where all four are there and differ; without a hostname the first two.
pub proof fn law_connect_hosts_come_in_order(
    host: Seq<char>,
    name: Seq<char>,
    host_addrs: Seq<HostAddr>,
    name_addrs: Seq<HostAddr>,
    at: Seq<char>,
    name_at: Seq<char>,
)
    requires
        host_ipv4(host, host_addrs) == Some(at),
        host_ipv4(bare_host(name), name_addrs) == Some(name_at),
        at.len() > 0 && name_at.len() > 0 && bare_host(host).len() > 0 && bare_host(name).len() > 0,
        at != bare_host(host),
    ensures
        connect_hosts(host, None, host_addrs, name_addrs) == seq![at, bare_host(host)],
        name_at != at && name_at != bare_host(host) && bare_host(name) != at && bare_host(name)
            != bare_host(host) && bare_host(name) != name_at ==> connect_hosts(
            host,
            Some(name),
            host_addrs,
            name_addrs,
        ) == seq![at, bare_host(host), name_at, bare_host(name)],
{
    let one = seq![at];
    let two = seq![at, bare_host(host)];
    let three = seq![at, bare_host(host), name_at];
    assert(Seq::<Seq<char>>::empty().push(at) =~= one);
    assert(one[0] == at);
    assert(!one.contains(bare_host(host)));
    assert(one.push(bare_host(host)) =~= two);
    if name_at != at && name_at != bare_host(host) && bare_host(name) != at && bare_host(name)
        != bare_host(host) && bare_host(name) != name_at {
        assert(!two.contains(name_at));
        assert(two.push(name_at) =~= three);
        assert(!three.contains(bare_host(name)));
        assert(three.push(bare_host(name)) =~= seq![at, bare_host(host), name_at, bare_host(name)]);
    }
}

/// A host without an address is still a target by its name.
pub proof fn law_unresolved_host_is_still_a_target(
    host: Seq<char>,
    host_addrs: Seq<HostAddr>,
    name_addrs: Seq<HostAddr>,
)
    requires
        host_ipv4(host, host_addrs) is None,
    ensures
        bare_host(host).len() > 0 ==> connect_hosts(host, None, host_addrs, name_addrs) == seq![
            bare_host(host),
        ],
        bare_host(host).len() == 0 ==> connect_hosts(host, None, host_addrs, name_addrs)
            == Seq::<Seq<char>>::empty(),
{
    assert(Seq::<Seq<char>>::empty().push(bare_host(host)) =~= seq![bare_host(host)]);
}

/// The default route is that of the first row whose destination is all zeros; other rows
/// before it are passed over, whatever they hold.
pub proof fn law_first_default_route_counts(
    before: Seq<Seq<char>>,
    row: Seq<char>,
    behind: Seq<Seq<char>>,
)
    requires
        forall|i: int|
            0 <= i < before.len() ==> text::words(#[trigger] before[i]).len() >= 2 && text::words(
                before[i],
            )[1] != "00000000"@,
        text::words(row).len() >= 2,
        text::words(row)[1] == "00000000"@,
    ensures
        route_iface(before + seq![row] + behind) == Some(text::words(row)[0]),
        route_iface(before) is None,
    decreases before.len(),
{
    let all = before + seq![row] + behind;
    if before.len() > 0 {
        let rest = before.drop_first();
        assert(text::words(before[0]).len() >= 2);
        assert forall|i: int| 0 <= i < rest.len() implies text::words(#[trigger] rest[i]).len() >= 2
            && text::words(rest[i])[1] != "00000000"@ by {
            assert(rest[i] == before[i + 1]);
        }
        law_first_default_route_counts(rest, row, behind);
        assert(all[0] == before[0]);
        assert(all.drop_first() =~= rest + seq![row] + behind);
    } else {
        assert(all[0] == row);
    }
}

/// The address of an interface is its first one that others can use; interfaces of other
/// names do not count.
pub proof fn law_interface_has_its_first_usable_address(
    before: Seq<Iface>,
    it: Iface,
    ip: Ipv4,
    mask: Ipv4,
    behind: Seq<Iface>,
    name: Seq<char>,
)
    requires
        forall|i: int|
            0 <= i < before.len() ==> {
                let b = #[trigger] before[i];
                b.name@ != name || b.v4 is None || (b.v4 matches Some((x, m)) && !advertiseable(x))
            },
        it.name@ == name,
        it.v4 == Some((ip, mask)),
        advertiseable(ip),
    ensures
        address_of(before + seq![it] + behind, name) == Some(ip),
        address_of(before, name) is None,
    decreases before.len(),
{
    let all = before + seq![it] + behind;
    if before.len() > 0 {
        let rest = before.drop_first();
        let b = before[0];
        assert(b.name@ != name || b.v4 is None || (b.v4 matches Some((x, m)) && !advertiseable(x)));
        assert forall|i: int| 0 <= i < rest.len() implies {
            let b = #[trigger] rest[i];
            b.name@ != name || b.v4 is None || (b.v4 matches Some((x, m)) && !advertiseable(x))
        } by {
            assert(rest[i] == before[i + 1]);
        }
        law_interface_has_its_first_usable_address(rest, it, ip, mask, behind, name);
        assert(all[0] == before[0]);
        assert(all.drop_first() =~= rest + seq![it] + behind);
    } else {
        assert(all[0] == it);
    }
}

/// What is advertised: the best candidate towards the peer, else the address that the
/// kernel routes to it; for a peer without address the best candidate at all, else the
/// kernel's outbound address, else loopback. Addresses that others cannot use never count.
pub proof fn law_advertised_host(
    peer: Option<Ipv4>,
    near: Option<Ipv4>,
    any: Option<Ipv4>,
    toward_peer: Option<HostAddr>,
    outbound: Option<HostAddr>,
    ip: Ipv4,
)
    ensures
        peer is Some && near == Some(ip) ==> advertised_to(peer, near, any, toward_peer, outbound)
            == ip.dotted(),
        peer is Some && near is None && toward_peer == Some(HostAddr::V4(ip)) && advertiseable(ip)
            ==> advertised_to(peer, near, any, toward_peer, outbound) == ip.dotted(),
        peer is None && any == Some(ip) ==> advertised_to(peer, near, any, toward_peer, outbound)
            == ip.dotted(),
        any == Some(ip) ==> advertised(any, outbound) == ip.dotted(),
        any is None && outbound == Some(HostAddr::V4(ip)) && advertiseable(ip) ==> advertised(
            any,
            outbound,
        ) == ip.dotted(),
        any is None && (outbound is None || outbound == Some(HostAddr::V6) || (outbound == Some(
            HostAddr::V4(ip),
        ) && !advertiseable(ip))) ==> advertised(any, outbound) == (Ipv4 {
            a: 127,
            b: 0,
            c: 0,
            d: 1,
        }).dotted(),
        peer is Some && near is None && (toward_peer is None || toward_peer == Some(HostAddr::V6) || (
        toward_peer == Some(HostAddr::V4(ip)) && !advertiseable(ip))) ==> advertised_to(
            peer,
            near,
            any,
            toward_peer,
            outbound,
        ) == advertised(any, outbound),
{
}

/// Every local address is tried as a source, in its order, and at last none.
pub proof fn law_every_source_is_tried_and_none_last(locals: Seq<Ipv4>, i: int)
    ensures
        sources_of(locals).len() == locals.len() + 1,
        0 <= i < locals.len() ==> sources_of(locals)[i] == Some(locals[i]),
        sources_of(locals).last() is None,
{
}

/// Each line counts by itself: one for a socket, none for a blank line or a column header
/// in any case.
pub proof fn law_socket_lines_are_counted(lines: Seq<Seq<char>>, line: Seq<char>)
    ensures
        ({
            let w = text::words(line);
            let header = w.len() > 0 && (text::lower(w[0]) == "netid"@ || text::lower(w[0])
                == "state"@);
            &&& w.len() == 0 || header ==> socket_rows(lines.push(line)) == socket_rows(lines)
            &&& w.len() > 0 && !header ==> socket_rows(lines.push(line)) == socket_rows(lines) + 1
            &&& socket_rows(Seq::empty()) == 0
        }),
{
    assert(lines.push(line).drop_last() =~= lines);
}

/// The address that a connection comes from.
pub open spec fn source_of(
    dest: Ipv4,
    bound: Option<Ipv4>,
    socket_local: Option<HostAddr>,
) -> Ipv4 {
    match bound {
        Some(ip) => ip,
        None => if dest.a == 127 {
            Ipv4 { a: 127, b: 0, c: 0, d: 1 }
        } else {
            match socket_local {
                Some(HostAddr::V4(ip)) => ip,
                _ => Ipv4 { a: 0, b: 0, c: 0, d: 0 },
            }
        },
    }
}

/// A connection comes from the address that it was bound to. One that was not comes from
/// loopback to reach loopback, else from what its socket says, or from nowhere known.
pub proof fn law_bound_address_is_the_source(
    dest: Ipv4,
    ip: Ipv4,
    bound: Option<Ipv4>,
    socket_local: Option<HostAddr>,
)
    ensures
        source_of(dest, Some(ip), socket_local) == ip,
        dest.a == 127 ==> source_of(dest, None, socket_local).dotted() == (Ipv4 {
            a: 127,
            b: 0,
            c: 0,
            d: 1,
        }).dotted(),
        dest.a != 127 ==> source_of(dest, None, Some(HostAddr::V4(ip))) == ip,
        dest.a != 127 && !(socket_local matches Some(HostAddr::V4(_))) ==> source_of(
            dest,
            None,
            socket_local,
        ).number() == 0,
{
}

/// The step after a read of a relay direction, and the bytes forwarded then.
pub open spec fn relayed(read: RelayRead, buffer_len: usize, total: u64) -> (RelayStep, u64) {
    match read {
        RelayRead::Bytes(n) => if n == 0 {
            (RelayStep::Done(total), total)
        } else if n > buffer_len {
            (RelayStep::Overrun, total)
        } else {
            (
                RelayStep::Forward(n),
                if total + n > u64::MAX {
                    u64::MAX
                } else {
                    (total + n) as u64
                },
            )
        },
        RelayRead::Idle | RelayRead::Interrupted => (RelayStep::Retry, total),
        RelayRead::Failed => (RelayStep::Fail, total),
    }
}

/// What was read is forwarded whole and counted, as far as the count goes; the end of the
/// stream ends the direction with the count. A read that claims more than the buffer
/// holds, or fails, ends it; one that timed out or was interrupted is tried again.
pub proof fn law_relay_forwards_what_it_reads(n: usize, buffer_len: usize, total: u64)
    ensures
        0 < n <= buffer_len ==> relayed(RelayRead::Bytes(n), buffer_len, total).0
            == RelayStep::Forward(n),
        0 < n <= buffer_len && total + n <= u64::MAX ==> relayed(
            RelayRead::Bytes(n),
            buffer_len,
            total,
        ).1 == total + n,
        0 < n <= buffer_len && total + n > u64::MAX ==> relayed(
            RelayRead::Bytes(n),
            buffer_len,
            total,
        ).1 == u64::MAX,
        relayed(RelayRead::Bytes(0), buffer_len, total) == (RelayStep::Done(total), total),
        n > buffer_len ==> relayed(RelayRead::Bytes(n), buffer_len, total) == (
            RelayStep::Overrun,
            total,
        ),
        relayed(RelayRead::Idle, buffer_len, total) == (RelayStep::Retry, total),
        relayed(RelayRead::Interrupted, buffer_len, total) == (RelayStep::Retry, total),
        relayed(RelayRead::Failed, buffer_len, total) == (RelayStep::Fail, total),
{
}

/// Which of the failed attempts to connect is told.
pub open spec fn told_failure(dest: Ipv4, attempts: usize) -> int {
    if dest.a == 127 || attempts == 1 {
        attempts - 1
    } else {
        attempts - 2
    }
}

/// The failure that is told is that of the last attempt from a chosen address: the
/// attempt from no address comes last and is told only where it is the only one, or where
/// the device is on this host.
pub proof fn law_last_chosen_attempt_is_told(dest: Ipv4, attempts: usize)
    requires
        attempts > 0,
    ensures
        0 <= told_failure(dest, attempts) < attempts,
        dest.a != 127 && attempts > 1 ==> told_failure(dest, attempts) + 2 == attempts,
        dest.a == 127 || attempts == 1 ==> told_failure(dest, attempts) + 1 == attempts,
{
}

/// What the kernel chose for a route counts exactly when it is an IPv4 address that others
/// can use.
pub proof fn law_only_usable_routes_count(outbound: Option<HostAddr>, ip: Ipv4)
    ensures
        usable(outbound) == Some(ip) <==> outbound == Some(HostAddr::V4(ip)) && advertiseable(ip),
        usable(None) is None,
{
}

/// A row with fewer than two columns ends the routing table: what stands behind it does
/// not count.
pub proof fn law_short_row_ends_the_table(
    before: Seq<Seq<char>>,
    row: Seq<char>,
    behind: Seq<Seq<char>>,
)
    requires
        forall|i: int|
            0 <= i < before.len() ==> text::words(#[trigger] before[i]).len() >= 2 && text::words(
                before[i],
            )[1] != "00000000"@,
        text::words(row).len() < 2,
    ensures
        route_iface(before + seq![row] + behind) is None,
    decreases before.len(),
{
    let all = before + seq![row] + behind;
    if before.len() > 0 {
        let rest = before.drop_first();
        assert(text::words(before[0]).len() >= 2);
        assert forall|i: int| 0 <= i < rest.len() implies text::words(#[trigger] rest[i]).len() >= 2
            && text::words(rest[i])[1] != "00000000"@ by {
            assert(rest[i] == before[i + 1]);
        }
        law_short_row_ends_the_table(rest, row, behind);
        assert(all[0] == before[0]);
        assert(all.drop_first() =~= rest + seq![row] + behind);
    } else {
        assert(all[0] == row);
    }
}

} // verus!
