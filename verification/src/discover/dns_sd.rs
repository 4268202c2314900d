//! Output of the `dns-sd` command: browse lines (`-B`) and lookups (`-L`).

use vstd::prelude::*;
use vstd::slice::slice_subrange;
use crate::text;
use crate::text::{
    chars_of, clone_opt, contains, find, parse_uint, push_all, rfind_char, same, split_char,
    split_whitespace, starts_with, str_eq, string_of, trim, trim_dots,
};

verus! {

/// DNS-SD service type for Google Cast (no domain suffix).
pub const GOOGLECAST_REGTYPE: &'static str = "_googlecast._tcp";

/// Cast port that is used when none, or an unreadable one, is reported.
pub const DEFAULT_CAST_PORT: u16 = 8009;

/// Browse line event kind.
#[derive(Debug, Clone, Copy, PartialEq, Eq, Structural)]
pub enum BrowseKind {
    /// Instance added.
    Add,
    /// Instance removed.
    Remove,
}

/// Parsed browse line.
#[derive(Debug)]
pub struct BrowseEvent {
    /// Add or remove.
    pub kind: BrowseKind,
    /// Service instance name (e.g. `Nest-Audio-…`).
    pub instance: String,
}

/// What follows the first `token` in `line`.
pub open spec fn rest_after(line: Seq<char>, token: Seq<char>) -> Option<Seq<char>> {
    match text::first_at(line, token) {
        Some(i) => Some(line.skip(i + token.len())),
        None => None,
    }
}

/// The kind of a browse line and what follows its Add / Rmv / Remove column.
pub open spec fn browse_kind(line: Seq<char>) -> Option<(BrowseKind, Seq<char>)> {
    match rest_after(line, " Add "@) {
        Some(rest) => Some((BrowseKind::Add, rest)),
        None => match rest_after(line, " Rmv "@) {
            Some(rest) => Some((BrowseKind::Remove, rest)),
            None => match rest_after(line, " Remove "@) {
                Some(rest) => Some((BrowseKind::Remove, rest)),
                None => None,
            },
        },
    }
}

/// A line of the browse header, or an empty one.
pub open spec fn is_browse_header(line: Seq<char>) -> bool {
    ||| line.len() == 0
    ||| "Browsing"@.is_prefix_of(line)
    ||| "DATE:"@.is_prefix_of(line)
    ||| "Timestamp"@.is_prefix_of(line)
}

/// The kind and the instance name that a browse line reports: the instance is what
/// follows the service type, without surrounding whitespace.
pub open spec fn browse_event(line: Seq<char>) -> Option<(BrowseKind, Seq<char>)> {
    let t = text::trimmed(line);
    if is_browse_header(t) {
        None
    } else {
        match browse_kind(t) {
            None => None,
            Some((kind, rest)) => match rest_after(rest, "_googlecast._tcp."@) {
                None => None,
                Some(after) => if text::trimmed(after).len() == 0 {
                    None
                } else {
                    Some((kind, text::trimmed(after)))
                },
            },
        }
    }
}

/// What follows the first `token` in `line`.
pub fn find_token_after<'a>(line: &'a [char], token: &str) -> (r: Option<&'a [char]>)
    ensures
        match r {
            Some(rest) => rest_after(line@, token@) == Some(rest@),
            None => rest_after(line@, token@) is None,
        },
{
    let t = chars_of(token);
    match find(line, t.as_slice()) {
        Some(i) => {
            let n: usize = line.len();
            let rest = slice_subrange(line, i + t.len(), n);
            proof {
                assert(rest@ =~= line@.skip(i as int + token@.len()));
            }
            Some(rest)
        },
        None => None,
    }
}

/// Whether `s` begins with `prefix`.
pub fn begins_with(s: &[char], prefix: &str) -> (r: bool)
    ensures
        r == prefix@.is_prefix_of(s@),
{
    let p = chars_of(prefix);
    starts_with(s, p.as_slice())
}

/// Parse one browse line into an add/remove event.
///
/// Example:
/// `21:42:26.808  Add        3  15 local.               _googlecast._tcp.    Nest-Audio-deadbeef`
pub fn parse_browse_line(line: &str) -> (r: Option<BrowseEvent>)
    ensures
        match r {
            Some(e) => browse_event(line@) == Some((e.kind, e.instance@)),
            None => browse_event(line@) is None,
        },
{
    let c = chars_of(line);
    let t = trim(c.as_slice());
    if t.len() == 0 || begins_with(t, "Browsing") || begins_with(t, "DATE:") || begins_with(
        t,
        "Timestamp",
    ) {
        return None;
    }
    let (kind, rest) = match find_token_after(t, " Add ") {
        Some(rest) => (BrowseKind::Add, rest),
        None => match find_token_after(t, " Rmv ") {
            Some(rest) => (BrowseKind::Remove, rest),
            None => match find_token_after(t, " Remove ") {
                Some(rest) => (BrowseKind::Remove, rest),
                None => {
                    return None;
                },
            },
        },
    };
    match find_token_after(rest, "_googlecast._tcp.") {
        Some(after) => {
            let instance = trim(after);
            if instance.len() == 0 {
                return None;
            }
            Some(BrowseEvent { kind, instance: string_of(instance) })
        },
        None => None,
    }
}

// ── Lookups ─────────────────────────────────────────────────────────────────

/// Resolved fields of a service.
#[derive(Debug)]
pub struct ResolveInfo {
    /// Hostname (may end with `.local.`).
    pub hostname: String,
    /// Port (usually 8009).
    pub port: u16,
    /// TXT data as `key=value` separated by whitespace, with `\` escapes.
    pub txt: String,
    /// Pre-resolved address, used as Cast host when set.
    pub address: Option<String>,
}

/// One "can be reached at" line.
#[derive(Debug)]
pub struct LookupReachable {
    /// Host of the line, without trailing dots.
    pub hostname: String,
    /// Port of the line.
    pub port: u16,
    /// The host again, when it is an IPv4 address.
    pub address: Option<String>,
    /// Interface ordinal, when present (`(interface N)`).
    pub interface: Option<u32>,
}

/// Host, port, address and interface of a reach line.
pub type ReachView = (Seq<char>, u16, Option<Seq<char>>, Option<nat>);

impl LookupReachable {
    /// The line's host, port, address and interface.
    pub open spec fn fields(&self) -> ReachView {
        (
            self.hostname@,
            self.port,
            text::opt_view(self.address),
            match self.interface {
                Some(n) => Some(n as nat),
                None => None,
            },
        )
    }
}

impl Clone for LookupReachable {
    fn clone(&self) -> (r: LookupReachable)
        ensures
            r == *self,
    {
        LookupReachable {
            hostname: self.hostname.clone(),
            port: self.port,
            address: clone_opt(&self.address),
            interface: self.interface,
        }
    }
}

/// One decimal octet of an IPv4 address: one to three digits, at most 255.
pub open spec fn is_octet(s: Seq<char>) -> bool {
    1 <= s.len() <= 3 && text::all_digits(s) && text::digits_value(s) <= 255
}

/// A dotted quad.
pub open spec fn ipv4_literal(s: Seq<char>) -> bool {
    let p = text::pieces(s, '.');
    p.len() == 4 && forall|i: int| 0 <= i < 4 ==> is_octet(#[trigger] p[i])
}

/// The first three octets of a dotted quad.
pub open spec fn slash24(s: Seq<char>) -> Option<(u8, u8, u8)> {
    let p = text::pieces(s, '.');
    if ipv4_literal(s) {
        Some(
            (
                text::digits_value(p[0]) as u8,
                text::digits_value(p[1]) as u8,
                text::digits_value(p[2]) as u8,
            ),
        )
    } else {
        None
    }
}

/// A digit is no plus sign, so an octet is the number that it writes.
proof fn lemma_octet_is_uint(s: Seq<char>)
    ensures
        is_octet(s) <==> 1 <= s.len() <= 3 && s[0] != '+' && text::uint(s, 255) is Some,
        is_octet(s) ==> text::uint(s, 255) == Some(text::digits_value(s)),
{
    if is_octet(s) {
        assert(text::is_digit(s[0]));
        assert(text::without_plus(s) == s);
    }
    if 1 <= s.len() <= 3 && s[0] != '+' {
        assert(text::without_plus(s) == s);
    }
}

/// The value of one octet.
fn octet(s: &[char]) -> (r: Option<u8>)
    ensures
        match r {
            Some(v) => is_octet(s@) && v == text::digits_value(s@),
            None => !is_octet(s@),
        },
{
    proof {
        lemma_octet_is_uint(s@);
    }
    if s.len() == 0 || s.len() > 3 || s[0] == '+' {
        return None;
    }
    match parse_uint(s, 255) {
        Some(v) => Some(v as u8),
        None => None,
    }
}

/// The four octets of a dotted quad.
pub fn ipv4_octets(s: &str) -> (r: Option<[u8; 4]>)
    ensures
        match r {
            Some(o) => ipv4_literal(s@) && forall|i: int|
                0 <= i < 4 ==> #[trigger] o@[i] == text::digits_value(text::pieces(s@, '.')[i]),
            None => !ipv4_literal(s@),
        },
{
    let c = chars_of(s);
    let parts = split_char(c.as_slice(), '.');
    let ghost p = text::pieces(s@, '.');
    proof {
        assert(p.len() == parts@.len());
        assert forall|i: int| 0 <= i < parts@.len() implies p[i] == (#[trigger] parts@[i])@ by {
            assert(text::char_views(parts@)[i] == parts@[i]@);
        }
    }
    if parts.len() != 4 {
        return None;
    }
    match (
        octet(parts[0].as_slice()),
        octet(parts[1].as_slice()),
        octet(parts[2].as_slice()),
        octet(parts[3].as_slice()),
    ) {
        (Some(a), Some(b), Some(x), Some(d)) => {
            proof {
                assert(p[0] == parts@[0]@ && p[1] == parts@[1]@ && p[2] == parts@[2]@ && p[3]
                    == parts@[3]@);
            }
            Some([a, b, x, d])
        },
        _ => {
            proof {
                assert(p[0] == parts@[0]@ && p[1] == parts@[1]@ && p[2] == parts@[2]@ && p[3]
                    == parts@[3]@);
                assert(!is_octet(p[0]) || !is_octet(p[1]) || !is_octet(p[2]) || !is_octet(p[3]));
            }
            None
        },
    }
}

/// Whether `s` is a dotted quad.
pub fn is_ipv4_literal(s: &str) -> (r: bool)
    ensures
        r == ipv4_literal(s@),
{
    ipv4_octets(s).is_some()
}

/// First three IPv4 octets, or `None` if not a dotted quad.
pub fn ipv4_slash24_key(s: &str) -> (r: Option<(u8, u8, u8)>)
    ensures
        r == slash24(s@),
{
    match ipv4_octets(s) {
        Some(o) => {
            proof {
                assert(o@[0] == text::digits_value(text::pieces(s@, '.')[0]));
                assert(o@[1] == text::digits_value(text::pieces(s@, '.')[1]));
                assert(o@[2] == text::digits_value(text::pieces(s@, '.')[2]));
            }
            Some((o[0], o[1], o[2]))
        },
        None => None,
    }
}

/// The marker before host and port.
pub open spec fn reach_marker() -> Seq<char> {
    "can be reached at "@
}

/// The leading digits of `s`.
pub open spec fn leading_digits(s: Seq<char>) -> Seq<char>
    decreases s.len(),
{
    if s.len() > 0 && text::is_digit(s[0]) {
        seq![s[0]] + leading_digits(s.drop_first())
    } else {
        Seq::empty()
    }
}

/// The interface ordinal that a line names.
pub open spec fn interface_of(line: Seq<char>) -> Option<nat> {
    match rest_after(line, "(interface "@) {
        Some(rest) => text::uint(leading_digits(rest), u32::MAX as nat),
        None => None,
    }
}

/// What stands before and after the last `:`.
pub open spec fn host_port(s: Seq<char>) -> Option<(Seq<char>, Seq<char>)>
    decreases s.len(),
{
    if s.len() == 0 {
        None
    } else if s.last() == ':' {
        Some((s.drop_last(), Seq::empty()))
    } else {
        match host_port(s.drop_last()) {
            Some((h, p)) => Some((h, p.push(s.last()))),
            None => None,
        }
    }
}

/// [`host_port`] splits at the last colon.
proof fn lemma_host_port(s: Seq<char>, i: int)
    requires
        0 <= i < s.len(),
        s[i] == ':',
        forall|j: int| i < j < s.len() ==> s[j] != ':',
    ensures
        host_port(s) == Some((s.take(i), s.skip(i + 1))),
    decreases s.len(),
{
    let n = s.len() - 1;
    if i == n {
        assert(s.drop_last() =~= s.take(i));
        assert(s.skip(i + 1) =~= Seq::<char>::empty());
    } else {
        let t = s.drop_last();
        lemma_host_port(t, i);
        assert(t.take(i) =~= s.take(i));
        assert(t.skip(i + 1).push(s.last()) =~= s.skip(i + 1));
    }
}

/// [`host_port`] finds nothing without a colon.
proof fn lemma_host_port_none(s: Seq<char>)
    requires
        !s.contains(':'),
    ensures
        host_port(s) is None,
    decreases s.len(),
{
    if s.len() > 0 {
        assert(s.contains(s.last()));
        let t = s.drop_last();
        assert(!t.contains(':')) by {
            if t.contains(':') {
                let k = choose|k: int| 0 <= k < t.len() && t[k] == ':';
                assert(s[k] == ':');
            }
        }
        lemma_host_port_none(t);
    }
}

/// What a line that holds the marker reports: the first word behind the marker is
/// HOST:PORT; an unreadable port counts as the default.
pub open spec fn reach_of(line: Seq<char>) -> Option<ReachView> {
    match rest_after(line, reach_marker()) {
        None => None,
        Some(rest) => {
            let w = text::words(rest);
            if w.len() == 0 {
                None
            } else {
                match host_port(w[0]) {
                    None => None,
                    Some((h, p)) => {
                        let host = text::without_dots(h);
                        Some(
                            (
                                host,
                                match text::uint(p, u16::MAX as nat) {
                                    Some(n) => n as u16,
                                    None => DEFAULT_CAST_PORT,
                                },
                                if ipv4_literal(host) {
                                    Some(host)
                                } else {
                                    None
                                },
                                interface_of(line),
                            ),
                        )
                    },
                }
            }
        },
    }
}

/// The number that the leading digits of `s` write.
fn leading_number(s: &[char]) -> (r: Option<u32>)
    ensures
        match r {
            Some(v) => text::uint(leading_digits(s@), u32::MAX as nat) == Some(v as nat),
            None => text::uint(leading_digits(s@), u32::MAX as nat) is None,
        },
{
    let mut i: usize = 0;
    proof {
        assert(s@.skip(0) =~= s@);
        assert(s@.take(0) + leading_digits(s@) =~= leading_digits(s@));
    }
    while i < s.len() && '0' <= s[i] && s[i] <= '9'
        invariant
            i <= s.len(),
            leading_digits(s@) == s@.take(i as int) + leading_digits(s@.skip(i as int)),
        decreases s.len() - i,
    {
        proof {
            let rest = s@.skip(i as int);
            assert(rest.drop_first() =~= s@.skip(i as int + 1));
            assert(s@.take(i as int) + leading_digits(rest) =~= s@.take(i as int + 1)
                + leading_digits(rest.drop_first()));
        }
        i += 1;
    }
    let digits = slice_subrange(s, 0, i);
    proof {
        assert(leading_digits(s@) =~= s@.take(i as int));
        assert(digits@ =~= s@.take(i as int));
    }
    parse_uint(digits, u32::MAX)
}

/// Read a "can be reached at" line.
pub fn parse_reachable_line(line: &[char]) -> (r: Option<LookupReachable>)
    ensures
        match r {
            Some(e) => reach_of(line@) == Some(e.fields()),
            None => reach_of(line@) is None,
        },
{
    let rest = match find_token_after(line, "can be reached at ") {
        Some(rest) => rest,
        None => {
            return None;
        },
    };
    let ws = split_whitespace(rest);
    proof {
        assert(text::words(rest@).len() == ws@.len());
    }
    if ws.len() == 0 {
        return None;
    }
    let w = ws[0].as_slice();
    proof {
        assert(text::words(rest@)[0] == text::char_views(ws@)[0]);
    }
    match rfind_char(w, ':') {
        None => {
            proof {
                lemma_host_port_none(w@);
            }
            None
        },
        Some(i) => {
            let n: usize = w.len();
            let h = slice_subrange(w, 0, i);
            let p = slice_subrange(w, i + 1, n);
            proof {
                assert forall|j: int| i < j < w@.len() implies w@[j] != ':' by {
                    assert(w@.skip(i as int + 1)[j - (i + 1)] == w@[j]);
                    assert(w@.skip(i as int + 1).contains(w@[j]));
                }
                lemma_host_port(w@, i as int);
                assert(h@ =~= w@.take(i as int));
                assert(p@ =~= w@.skip(i as int + 1));
            }
            let host = string_of(trim_dots(h));
            let port: u16 = match parse_uint(p, u16::MAX as u32) {
                Some(v) => v as u16,
                None => DEFAULT_CAST_PORT,
            };
            let interface = match find_token_after(line, "(interface ") {
                Some(after) => leading_number(after),
                None => None,
            };
            let address = if is_ipv4_literal(host.as_str()) {
                Some(host.clone())
            } else {
                None
            };
            Some(LookupReachable { hostname: host, port, address, interface })
        },
    }
}

/// The views of reach lines.
pub open spec fn reach_views(v: Seq<LookupReachable>) -> Seq<ReachView> {
    Seq::new(v.len(), |i: int| v[i].fields())
}

/// A reach line names exactly this address or host.
pub open spec fn is_exact(r: ReachView, pref: Seq<char>) -> bool {
    r.2 == Some(pref) || r.0 == pref
}

/// A reach line lies in the same /24 network as this address.
pub open spec fn is_near(r: ReachView, pref: Seq<char>) -> bool {
    let host = match r.2 {
        Some(a) => a,
        None => r.0,
    };
    slash24(pref) is Some && slash24(host) == slash24(pref)
}

/// The first line that suits a preference.
pub open spec fn first_suiting(
    lines: Seq<ReachView>,
    pref: Seq<char>,
    suits: spec_fn(ReachView, Seq<char>) -> bool,
) -> Option<ReachView>
    decreases lines.len(),
{
    if lines.len() == 0 {
        None
    } else if suits(lines[0], pref) {
        Some(lines[0])
    } else {
        first_suiting(lines.drop_first(), pref, suits)
    }
}

/// The first line that suits the earliest preference that any line suits.
pub open spec fn best_suiting(
    lines: Seq<ReachView>,
    prefs: Seq<Seq<char>>,
    suits: spec_fn(ReachView, Seq<char>) -> bool,
) -> Option<ReachView>
    decreases prefs.len(),
{
    if prefs.len() == 0 {
        None
    } else {
        match first_suiting(lines, prefs[0], suits) {
            Some(r) => Some(r),
            None => best_suiting(lines, prefs.drop_first(), suits),
        }
    }
}

/// The best reach line: an exact match of a preferred address, else one in the same
/// /24 network as a preferred address, else the first.
pub open spec fn best_reach(lines: Seq<ReachView>, prefs: Seq<Seq<char>>) -> Option<ReachView> {
    if lines.len() == 0 {
        None
    } else {
        match best_suiting(lines, prefs, |r: ReachView, p: Seq<char>| is_exact(r, p)) {
            Some(r) => Some(r),
            None => match best_suiting(lines, prefs, |r: ReachView, p: Seq<char>| is_near(r, p)) {
                Some(r) => Some(r),
                None => Some(lines[0]),
            },
        }
    }
}

fn suits_exactly(r: &LookupReachable, pref: &str) -> (b: bool)
    ensures
        b == is_exact(r.fields(), pref@),
{
    let by_address: bool = match &r.address {
        Some(a) => str_eq(a.as_str(), pref),
        None => false,
    };
    by_address || str_eq(r.hostname.as_str(), pref)
}

fn suits_network(r: &LookupReachable, pref: &str) -> (b: bool)
    ensures
        b == is_near(r.fields(), pref@),
{
    let wanted = match ipv4_slash24_key(pref) {
        Some(k) => k,
        None => {
            return false;
        },
    };
    let host: &str = match &r.address {
        Some(a) => a.as_str(),
        None => r.hostname.as_str(),
    };
    match ipv4_slash24_key(host) {
        Some(k) => k.0 == wanted.0 && k.1 == wanted.1 && k.2 == wanted.2,
        None => false,
    }
}

/// The first line that suits a preference, by exact match or by network.
fn first_for(lines: &[LookupReachable], pref: &str, exact: bool) -> (r: Option<LookupReachable>)
    ensures
        ({
            let suits = if exact {
                |r: ReachView, p: Seq<char>| is_exact(r, p)
            } else {
                |r: ReachView, p: Seq<char>| is_near(r, p)
            };
            match r {
                Some(e) => first_suiting(reach_views(lines@), pref@, suits) == Some(e.fields()),
                None => first_suiting(reach_views(lines@), pref@, suits) is None,
            }
        }),
{
    let ghost suits = if exact {
        |r: ReachView, p: Seq<char>| is_exact(r, p)
    } else {
        |r: ReachView, p: Seq<char>| is_near(r, p)
    };
    let ghost v = reach_views(lines@);
    let mut i: usize = 0;
    proof {
        assert(v.skip(0) =~= v);
    }
    while i < lines.len()
        invariant
            i <= lines.len(),
            v == reach_views(lines@),
            suits == (if exact {
                |r: ReachView, p: Seq<char>| is_exact(r, p)
            } else {
                |r: ReachView, p: Seq<char>| is_near(r, p)
            }),
            first_suiting(v, pref@, suits) == first_suiting(v.skip(i as int), pref@, suits),
        decreases lines.len() - i,
    {
        proof {
            assert(v.skip(i as int)[0] == lines@[i as int].fields());
            assert(v.skip(i as int).drop_first() =~= v.skip(i as int + 1));
        }
        let hit: bool = if exact {
            suits_exactly(&lines[i], pref)
        } else {
            suits_network(&lines[i], pref)
        };
        if hit {
            return Some(lines[i].clone());
        }
        i += 1;
    }
    None
}

/// The first line that suits the earliest preference, by exact match or by network.
fn best_for(lines: &[LookupReachable], prefs: &[String], exact: bool) -> (r: Option<
    LookupReachable,
>)
    ensures
        ({
            let suits = if exact {
                |r: ReachView, p: Seq<char>| is_exact(r, p)
            } else {
                |r: ReachView, p: Seq<char>| is_near(r, p)
            };
            match r {
                Some(e) => best_suiting(reach_views(lines@), text::views(prefs@), suits) == Some(
                    e.fields(),
                ),
                None => best_suiting(reach_views(lines@), text::views(prefs@), suits) is None,
            }
        }),
{
    let ghost suits = if exact {
        |r: ReachView, p: Seq<char>| is_exact(r, p)
    } else {
        |r: ReachView, p: Seq<char>| is_near(r, p)
    };
    let ghost v = reach_views(lines@);
    let ghost pv = text::views(prefs@);
    let mut i: usize = 0;
    proof {
        assert(pv.skip(0) =~= pv);
    }
    while i < prefs.len()
        invariant
            i <= prefs.len(),
            v == reach_views(lines@),
            pv == text::views(prefs@),
            suits == (if exact {
                |r: ReachView, p: Seq<char>| is_exact(r, p)
            } else {
                |r: ReachView, p: Seq<char>| is_near(r, p)
            }),
            best_suiting(v, pv, suits) == best_suiting(v, pv.skip(i as int), suits),
        decreases prefs.len() - i,
    {
        proof {
            assert(pv.skip(i as int)[0] == prefs@[i as int]@);
            assert(pv.skip(i as int).drop_first() =~= pv.skip(i as int + 1));
        }
        match first_for(lines, prefs[i].as_str(), exact) {
            Some(e) => {
                return Some(e);
            },
            None => {},
        }
        i += 1;
    }
    None
}

/// Pick the best reach line.
///
/// Preference order: exact match of a preferred address to the reach host or address;
/// same IPv4 /24 as a preferred address; first reach line.
pub fn choose_reachable(reachables: &[LookupReachable], preferred_ipv4: &[String]) -> (r: Option<
    LookupReachable,
>)
    ensures
        match r {
            Some(e) => best_reach(reach_views(reachables@), text::views(preferred_ipv4@)) == Some(
                e.fields(),
            ),
            None => reachables@.len() == 0,
        },
{
    if reachables.len() == 0 {
        return None;
    }
    match best_for(reachables, preferred_ipv4, true) {
        Some(e) => Some(e),
        None => match best_for(reachables, preferred_ipv4, false) {
            Some(e) => Some(e),
            None => {
                proof {
                    assert(reach_views(reachables@)[0] == reachables@[0].fields());
                }
                Some(reachables[0].clone())
            },
        },
    }
}

/// A line with TXT data.
pub open spec fn is_txt_line(line: Seq<char>) -> bool {
    text::has_sub(line, "id="@) || text::has_sub(line, "fn="@)
}

/// The reach lines among trimmed lines.
pub open spec fn reaches(lines: Seq<Seq<char>>) -> Seq<ReachView>
    decreases lines.len(),
{
    if lines.len() == 0 {
        Seq::empty()
    } else {
        let head = reaches(lines.drop_last());
        match reach_of(text::trimmed(lines.last())) {
            Some(r) => head.push(r),
            None => head,
        }
    }
}

/// The trimmed TXT lines, joined by single spaces.
pub open spec fn txt_of(lines: Seq<Seq<char>>) -> Seq<char>
    decreases lines.len(),
{
    if lines.len() == 0 {
        Seq::empty()
    } else {
        let head = txt_of(lines.drop_last());
        let t = text::trimmed(lines.last());
        if !is_txt_line(t) {
            head
        } else if head.len() == 0 {
            t
        } else {
            head.push(' ') + t
        }
    }
}

/// Parse lookup output for host, port, and TXT data.
///
/// Of several reach lines the first is taken.
pub fn parse_lookup_output(output: &str) -> (r: Option<ResolveInfo>)
    ensures
        lookup_result(output@, Seq::empty(), r),
{
    let none: Vec<String> = Vec::new();
    let r = parse_lookup_output_with_preferred(output, none.as_slice());
    proof {
        assert(text::views(none@) =~= Seq::<Seq<char>>::empty());
    }
    r
}

/// `r` is what a lookup reports: the best reach line and the TXT data, or nothing
/// when there is no reach line.
pub open spec fn lookup_result(
    output: Seq<char>,
    prefs: Seq<Seq<char>>,
    r: Option<ResolveInfo>,
) -> bool {
    let lines = text::pieces(output, '\n');
    match best_reach(reaches(lines), prefs) {
        Some(best) => r matches Some(info) && info.hostname@ == best.0 && info.port == best.1
            && info.txt@ == txt_of(lines) && text::opt_view(info.address) == best.2,
        None => r is None,
    }
}

/// Like [`parse_lookup_output`], but with preferred IPv4 addresses.
///
/// When multiple reach lines exist (multi-homed hosts), a line whose host equals or
/// shares a /24 with a preferred address is taken, else the first.
pub fn parse_lookup_output_with_preferred(output: &str, preferred_ipv4: &[String]) -> (r: Option<
    ResolveInfo,
>)
    ensures
        lookup_result(output@, text::views(preferred_ipv4@), r),
{
    let c = chars_of(output);
    let lines = split_char(c.as_slice(), '\n');
    let ghost lv = text::char_views(lines@);
    let mut reachables: Vec<LookupReachable> = Vec::new();
    let mut txt: Vec<char> = Vec::new();
    let mut i: usize = 0;
    proof {
        assert(lv.take(0) =~= Seq::<Seq<char>>::empty());
        assert(reach_views(reachables@) =~= reaches(lv.take(0)));
    }
    let id_key = chars_of("id=");
    let fn_key = chars_of("fn=");
    while i < lines.len()
        invariant
            i <= lines.len(),
            lv == text::char_views(lines@),
            id_key@ == "id="@,
            fn_key@ == "fn="@,
            reach_views(reachables@) == reaches(lv.take(i as int)),
            txt@ == txt_of(lv.take(i as int)),
        decreases lines.len() - i,
    {
        proof {
            assert(lv.take(i as int + 1).drop_last() =~= lv.take(i as int));
            assert(lv.take(i as int + 1).last() == lines@[i as int]@);
        }
        let t = trim(lines[i].as_slice());
        let ghost before = reach_views(reachables@);
        match parse_reachable_line(t) {
            Some(entry) => {
                let ghost f = entry.fields();
                reachables.push(entry);
                proof {
                    assert(reach_views(reachables@) =~= before.push(f));
                }
            },
            None => {},
        }
        if contains(t, id_key.as_slice()) || contains(t, fn_key.as_slice()) {
            if txt.len() > 0 {
                txt.push(' ');
            }
            let ghost head = txt@;
            push_all(&mut txt, t);
            proof {
                if head.len() == 0 {
                    assert(txt@ =~= t@);
                }
            }
        }
        i += 1;
    }
    proof {
        assert(lv.take(lv.len() as int) =~= lv);
    }
    match choose_reachable(reachables.as_slice(), preferred_ipv4) {
        Some(chosen) => Some(
            ResolveInfo {
                hostname: chosen.hostname,
                port: chosen.port,
                txt: string_of(txt.as_slice()),
                address: chosen.address,
            },
        ),
        None => None,
    }
}

/// A multi-homed service resolves to the line on a preferred address whenever there
/// is one, whatever the order of the lines.
pub proof fn law_exact_match_is_preferred(lines: Seq<ReachView>, prefs: Seq<Seq<char>>)
    requires
        lines.len() > 0,
        best_suiting(lines, prefs, |r: ReachView, p: Seq<char>| is_exact(r, p)) is Some,
    ensures
        best_reach(lines, prefs) == best_suiting(
            lines,
            prefs,
            |r: ReachView, p: Seq<char>| is_exact(r, p),
        ),
{
}

/// Without preferences the first line wins, never the last.
pub proof fn law_first_line_wins_without_preference(lines: Seq<ReachView>)
    requires
        lines.len() > 0,
    ensures
        best_reach(lines, Seq::empty()) == Some(lines[0]),
{
}

// ── What the lines say ──────────────────────────────────────────────────────

/// A reach line reports the host and the port that it states: the first word behind the
/// marker is the host, a colon and the port; only a port that is no number up to 65535
/// counts as 8009.
pub proof fn law_stated_port_is_reported(
    line: Seq<char>,
    head: Seq<char>,
    host: Seq<char>,
    port: Seq<char>,
    tail: Seq<char>,
)
    requires
        line == head + "can be reached at "@ + (host.push(':') + port) + tail,
        text::first_at(line, "can be reached at "@) == Some(head.len() as int),
        forall|i: int| 0 <= i < host.len() ==> !text::is_white(#[trigger] host[i]),
        forall|i: int|
            0 <= i < port.len() ==> !text::is_white(#[trigger] port[i]) && port[i] != ':',
        tail.len() > 0 ==> text::is_white(tail[0]),
    ensures
        reach_of(line) matches Some(r) && {
            &&& r.0 == text::without_dots(host)
            &&& text::uint(port, 65_535) matches Some(n) ==> r.1 == n
            &&& text::uint(port, 65_535) is None ==> r.1 == 8009
            &&& r.2 == if ipv4_literal(text::without_dots(host)) {
                Some(text::without_dots(host))
            } else {
                None
            }
            &&& r.3 == interface_of(line)
        },
{
    let marker = "can be reached at "@;
    let word = host.push(':') + port;
    let rest = line.skip(head.len() as int + marker.len());
    assert(rest =~= word + tail);
    assert(word[host.len() as int] == ':');
    assert forall|i: int| 0 <= i < word.len() implies !text::is_white(#[trigger] word[i]) by {
        if i < host.len() {
            assert(word[i] == host[i]);
        } else if i > host.len() {
            assert(word[i] == port[i - host.len() - 1]);
        }
    }
    if tail.len() == 0 {
        assert(rest =~= word);
        text::law_words_are_runs_between_whitespace(word, tail, ' ');
    } else {
        let behind = tail.drop_first();
        assert(rest =~= word.push(tail[0]) + behind);
        text::law_words_are_runs_between_whitespace(word, behind, tail[0]);
    }
    assert(text::words(rest)[0] == word);
    assert forall|j: int| host.len() < j < word.len() implies word[j] != ':' by {
        assert(word[j] == port[j - host.len() - 1]);
    }
    lemma_host_port(word, host.len() as int);
    assert(word.take(host.len() as int) =~= host);
    assert(word.skip(host.len() as int + 1) =~= port);
}

/// In particular a port in decimal is reported as it is, whatever its number.
pub proof fn law_every_port_is_reported(
    line: Seq<char>,
    head: Seq<char>,
    host: Seq<char>,
    n: u16,
    tail: Seq<char>,
)
    requires
        line == head + "can be reached at "@ + (host.push(':') + text::decimal(n as nat)) + tail,
        text::first_at(line, "can be reached at "@) == Some(head.len() as int),
        forall|i: int| 0 <= i < host.len() ==> !text::is_white(#[trigger] host[i]),
        tail.len() > 0 ==> text::is_white(tail[0]),
    ensures
        reach_of(line) matches Some(r) && r.1 == n,
{
    let port = text::decimal(n as nat);
    text::law_number_is_read_back(n as nat, 65_535);
    assert forall|i: int| 0 <= i < port.len() implies !text::is_white(#[trigger] port[i]) && port[i]
        != ':' by {
        assert(text::is_digit(port[i]));
    }
    law_stated_port_is_reported(line, head, host, port, tail);
}

/// A line without the marker, without a word behind it, or without a colon in that word
/// reports nothing.
pub proof fn law_other_lines_reach_nothing(line: Seq<char>)
    ensures
        !text::has_sub(line, "can be reached at "@) ==> reach_of(line) is None,
        reach_of(line) is Some ==> text::has_sub(line, "can be reached at "@),
{
}

/// The interface is the number behind its marker.
pub proof fn law_interface_number_is_read(line: Seq<char>, head: Seq<char>, n: u32, tail: Seq<char>)
    requires
        line == head + "(interface "@ + text::decimal(n as nat) + tail,
        text::first_at(line, "(interface "@) == Some(head.len() as int),
        tail.len() > 0 ==> !text::is_digit(tail[0]),
    ensures
        interface_of(line) == Some(n as nat),
{
    let marker = "(interface "@;
    let digits = text::decimal(n as nat);
    text::law_number_is_read_back(n as nat, u32::MAX as nat);
    assert(line.skip(head.len() as int + marker.len()) =~= digits + tail);
    lemma_leading_digits(digits, tail);
}

proof fn lemma_leading_digits(digits: Seq<char>, tail: Seq<char>)
    requires
        text::all_digits(digits),
        tail.len() > 0 ==> !text::is_digit(tail[0]),
    ensures
        leading_digits(digits + tail) == digits,
    decreases digits.len(),
{
    let s = digits + tail;
    if digits.len() > 0 {
        let rest = digits.drop_first();
        assert(text::is_digit(digits[0]));
        assert forall|i: int| 0 <= i < rest.len() implies text::is_digit(#[trigger] rest[i]) by {
            assert(rest[i] == digits[i + 1]);
        }
        lemma_leading_digits(rest, tail);
        assert(s[0] == digits[0]);
        assert(s.drop_first() =~= rest + tail);
        assert(seq![digits[0]] + rest =~= digits);
    } else {
        assert(s =~= tail);
        assert(leading_digits(s) =~= digits);
    }
}

/// A browse line reports an addition when it says Add, else a removal when it says Rmv or
/// Remove, and else nothing; header lines report nothing.
pub proof fn law_browse_lines_say_what_happened(line: Seq<char>)
    ensures
        ({
            let t = text::trimmed(line);
            let header = t.len() == 0 || "Browsing"@.is_prefix_of(t) || "DATE:"@.is_prefix_of(t)
                || "Timestamp"@.is_prefix_of(t);
            let add = text::has_sub(t, " Add "@);
            let gone = text::has_sub(t, " Rmv "@) || text::has_sub(t, " Remove "@);
            &&& header || !(add || gone) ==> browse_event(line) is None
            &&& browse_event(line) matches Some(e) ==> (e.0 == BrowseKind::Add <==> add)
                && (e.0 == BrowseKind::Remove <==> !add && gone)
        }),
{
}

/// The instance is what stands behind the service type, without surrounding whitespace.
pub proof fn law_browse_lines_name_the_instance(
    line: Seq<char>,
    head: Seq<char>,
    token: Seq<char>,
    mid: Seq<char>,
    name: Seq<char>,
)
    requires
        ({
            let t = text::trimmed(line);
            let rest = mid + "_googlecast._tcp."@ + name;
            &&& t == head + token + rest
            &&& t.len() > 0 && !"Browsing"@.is_prefix_of(t) && !"DATE:"@.is_prefix_of(t)
                && !"Timestamp"@.is_prefix_of(t)
            &&& text::first_at(t, token) == Some(head.len() as int)
            &&& text::first_at(rest, "_googlecast._tcp."@) == Some(mid.len() as int)
            &&& token == " Add "@ || (token == " Rmv "@ && !text::has_sub(t, " Add "@)) || (token
                == " Remove "@ && !text::has_sub(t, " Add "@) && !text::has_sub(t, " Rmv "@))
        }),
    ensures
        text::trimmed(name).len() > 0 ==> (browse_event(line) matches Some(e) && e.1
            == text::trimmed(name)),
        text::trimmed(name).len() == 0 ==> browse_event(line) is None,
{
    let t = text::trimmed(line);
    let rest = mid + "_googlecast._tcp."@ + name;
    assert(t.skip(head.len() as int + token.len()) =~= rest);
    assert(rest.skip(mid.len() as int + "_googlecast._tcp."@.len()) =~= name);
    reveal_strlit(" Add ");
    reveal_strlit(" Rmv ");
    reveal_strlit(" Remove ");
}

/// A dotted address is a literal, and its network is its first three numbers.
pub proof fn law_dotted_address_is_a_literal(ip: crate::net::Ipv4)
    ensures
        ipv4_literal(ip.dotted()),
        slash24(ip.dotted()) == Some((ip.a, ip.b, ip.c)),
{
    crate::net::law_parse_inverts_render(ip);
    let p = text::pieces(ip.dotted(), '.');
    assert(is_octet(p[0]) && is_octet(p[1]) && is_octet(p[2]) && is_octet(p[3]));
}

/// A literal is four numbers up to 255, of one to three digits each, between dots.
pub proof fn law_literal_is_four_octets(s: Seq<char>, i: int)
    ensures
        ipv4_literal(s) && 0 <= i < 4 ==> text::pieces(s, '.').len() == 4 && 1 <= text::pieces(
            s,
            '.',
        )[i].len() <= 3 && text::all_digits(text::pieces(s, '.')[i]) && text::digits_value(
            text::pieces(s, '.')[i],
        ) <= 255,
        slash24(s) is Some <==> ipv4_literal(s),
        is_octet(text::decimal(256)) == false,
{
    text::law_number_is_read_back(256, 256);
    if ipv4_literal(s) && 0 <= i < 4 {
        assert(is_octet(text::pieces(s, '.')[i]));
    }
}

/// Of several reach lines the first that names the earliest preferred address named by any
/// is taken.
pub proof fn law_preferred_address_is_taken(
    lines: Seq<ReachView>,
    prefs: Seq<Seq<char>>,
    k: int,
    i: int,
)
    requires
        0 <= i < lines.len() && 0 <= k < prefs.len(),
        lines[i].0 == prefs[k] || lines[i].2 == Some(prefs[k]),
        forall|j: int| 0 <= j < i ==> (#[trigger] lines[j]).0 != prefs[k] && lines[j].2 != Some(prefs[k]),
        forall|m: int, j: int|
            0 <= m < k && 0 <= j < lines.len() ==> (#[trigger] lines[j]).0 != #[trigger] prefs[m]
                && lines[j].2 != Some(prefs[m]),
    ensures
        best_reach(lines, prefs) == Some(lines[i]),
{
    let suits = |r: ReachView, p: Seq<char>| is_exact(r, p);
    lemma_best_suiting(lines, prefs, suits, k, i);
}

/// Where no line names a preferred address, the first in the same /24 network as the
/// earliest preferred address that has one is taken; else the first line.
pub proof fn law_preferred_network_is_taken(
    lines: Seq<ReachView>,
    prefs: Seq<Seq<char>>,
    k: int,
    i: int,
)
    requires
        lines.len() > 0,
        forall|m: int, j: int|
            0 <= m < prefs.len() && 0 <= j < lines.len() ==> (#[trigger] lines[j]).0
                != #[trigger] prefs[m] && lines[j].2 != Some(prefs[m]),
    ensures
        (0 <= i < lines.len() && 0 <= k < prefs.len() && near_by(lines[i], prefs[k]) && (forall|j: int|
            0 <= j < i ==> !near_by(#[trigger] lines[j], prefs[k])) && (forall|m: int, j: int|
            0 <= m < k && 0 <= j < lines.len() ==> !near_by(#[trigger] lines[j], #[trigger] prefs[m])))
            ==> best_reach(lines, prefs) == Some(lines[i]),
        (forall|m: int, j: int|
            0 <= m < prefs.len() && 0 <= j < lines.len() ==> !near_by(
                #[trigger] lines[j],
                #[trigger] prefs[m],
            )) ==> best_reach(lines, prefs) == Some(lines[0]),
{
    let exact = |r: ReachView, p: Seq<char>| is_exact(r, p);
    let near = |r: ReachView, p: Seq<char>| is_near(r, p);
    lemma_none_suiting(lines, prefs, exact);
    if 0 <= i < lines.len() && 0 <= k < prefs.len() && near_by(lines[i], prefs[k]) && (forall|j: int|
        0 <= j < i ==> !near_by(#[trigger] lines[j], prefs[k])) && (forall|m: int, j: int|
        0 <= m < k && 0 <= j < lines.len() ==> !near_by(#[trigger] lines[j], #[trigger] prefs[m])) {
        lemma_best_suiting(lines, prefs, near, k, i);
    }
    if forall|m: int, j: int|
        0 <= m < prefs.len() && 0 <= j < lines.len() ==> !near_by(
            #[trigger] lines[j],
            #[trigger] prefs[m],
        ) {
        lemma_none_suiting(lines, prefs, near);
    }
}

/// The address of a line, or its host without one, shares the first three numbers of an
/// address.
pub open spec fn near_by(r: ReachView, pref: Seq<char>) -> bool {
    let host = if r.2 is Some {
        r.2->0
    } else {
        r.0
    };
    slash24(pref) is Some && slash24(host) is Some && slash24(host)->0 == slash24(pref)->0
}

proof fn lemma_best_suiting(
    lines: Seq<ReachView>,
    prefs: Seq<Seq<char>>,
    suits: spec_fn(ReachView, Seq<char>) -> bool,
    k: int,
    i: int,
)
    requires
        0 <= i < lines.len() && 0 <= k < prefs.len(),
        suits(lines[i], prefs[k]),
        forall|j: int| 0 <= j < i ==> !suits(#[trigger] lines[j], prefs[k]),
        forall|m: int, j: int|
            0 <= m < k && 0 <= j < lines.len() ==> !suits(#[trigger] lines[j], #[trigger] prefs[m]),
    ensures
        best_suiting(lines, prefs, suits) == Some(lines[i]),
    decreases k,
{
    if k == 0 {
        lemma_first_suiting(lines, prefs[0], suits, i);
    } else {
        assert forall|j: int| 0 <= j < lines.len() implies !suits(#[trigger] lines[j], prefs[0]) by {
            assert(prefs[0] == prefs[0]);
        }
        lemma_no_suiting(lines, prefs[0], suits);
        let rest = prefs.drop_first();
        assert(rest[k - 1] == prefs[k]);
        assert forall|m: int, j: int| 0 <= m < k - 1 && 0 <= j < lines.len() implies !suits(
            #[trigger] lines[j],
            #[trigger] rest[m],
        ) by {
            assert(rest[m] == prefs[m + 1]);
        }
        lemma_best_suiting(lines, rest, suits, k - 1, i);
    }
}

proof fn lemma_none_suiting(
    lines: Seq<ReachView>,
    prefs: Seq<Seq<char>>,
    suits: spec_fn(ReachView, Seq<char>) -> bool,
)
    requires
        forall|m: int, j: int|
            0 <= m < prefs.len() && 0 <= j < lines.len() ==> !suits(
                #[trigger] lines[j],
                #[trigger] prefs[m],
            ),
    ensures
        best_suiting(lines, prefs, suits) is None,
    decreases prefs.len(),
{
    if prefs.len() > 0 {
        assert forall|j: int| 0 <= j < lines.len() implies !suits(#[trigger] lines[j], prefs[0]) by {
            assert(prefs[0] == prefs[0]);
        }
        lemma_no_suiting(lines, prefs[0], suits);
        let rest = prefs.drop_first();
        assert forall|m: int, j: int| 0 <= m < rest.len() && 0 <= j < lines.len() implies !suits(
            #[trigger] lines[j],
            #[trigger] rest[m],
        ) by {
            assert(rest[m] == prefs[m + 1]);
        }
        lemma_none_suiting(lines, rest, suits);
    }
}

proof fn lemma_first_suiting(
    lines: Seq<ReachView>,
    pref: Seq<char>,
    suits: spec_fn(ReachView, Seq<char>) -> bool,
    i: int,
)
    requires
        0 <= i < lines.len(),
        suits(lines[i], pref),
        forall|j: int| 0 <= j < i ==> !suits(#[trigger] lines[j], pref),
    ensures
        first_suiting(lines, pref, suits) == Some(lines[i]),
    decreases i,
{
    if i > 0 {
        let rest = lines.drop_first();
        assert(!suits(lines[0], pref));
        assert(rest[i - 1] == lines[i]);
        assert forall|j: int| 0 <= j < i - 1 implies !suits(#[trigger] rest[j], pref) by {
            assert(rest[j] == lines[j + 1]);
        }
        lemma_first_suiting(rest, pref, suits, i - 1);
    }
}

proof fn lemma_no_suiting(
    lines: Seq<ReachView>,
    pref: Seq<char>,
    suits: spec_fn(ReachView, Seq<char>) -> bool,
)
    requires
        forall|j: int| 0 <= j < lines.len() ==> !suits(#[trigger] lines[j], pref),
    ensures
        first_suiting(lines, pref, suits) is None,
    decreases lines.len(),
{
    if lines.len() > 0 {
        let rest = lines.drop_first();
        assert(!suits(lines[0], pref));
        assert forall|j: int| 0 <= j < rest.len() implies !suits(#[trigger] rest[j], pref) by {
            assert(rest[j] == lines[j + 1]);
        }
        lemma_no_suiting(rest, pref, suits);
    }
}

/// Every line counts by itself: a reach line is added behind those before it, a line with
/// an id or a name is added to the TXT data behind a space.
pub proof fn law_lookup_lines_are_collected(lines: Seq<Seq<char>>, line: Seq<char>)
    ensures
        ({
            let t = text::trimmed(line);
            let more = lines.push(line);
            let txt = text::has_sub(t, "id="@) || text::has_sub(t, "fn="@);
            &&& reach_of(t) is None ==> reaches(more) == reaches(lines)
            &&& reach_of(t) matches Some(r) ==> reaches(more) == reaches(lines).push(r)
            &&& !txt ==> txt_of(more) == txt_of(lines)
            &&& txt && txt_of(lines).len() == 0 ==> txt_of(more) == t
            &&& txt && txt_of(lines).len() > 0 ==> txt_of(more) == txt_of(lines) + seq![' '] + t
            &&& reaches(Seq::empty()) == Seq::<ReachView>::empty()
            &&& txt_of(Seq::empty()) == Seq::<char>::empty()
        }),
{
    assert(lines.push(line).drop_last() =~= lines);
    let t = text::trimmed(line);
    assert(txt_of(lines).push(' ') + t =~= txt_of(lines) + seq![' '] + t);
}

/// A lookup reports host, port and address of its best line and all the TXT data, and
/// nothing exactly when it has no reach line.
pub proof fn law_lookup_reports_its_best_line(
    output: Seq<char>,
    prefs: Seq<Seq<char>>,
    r: Option<ResolveInfo>,
)
    requires
        lookup_result(output, prefs, r),
    ensures
        r is None <==> reaches(text::pieces(output, '\n')).len() == 0,
        r matches Some(info) ==> {
            let best = best_reach(reaches(text::pieces(output, '\n')), prefs);
            &&& best matches Some(b) && info.hostname@ == b.0 && info.port == b.1
            &&& best matches Some(b) && match info.address {
                Some(a) => b.2 == Some(a@),
                None => b.2 is None,
            }
            &&& info.txt@ == txt_of(text::pieces(output, '\n'))
        },
{
}

} // verus!
