//! Chromecast discovery: what browse and resolve results mean.
//!
//! On macOS the results come from the `dns-sd` tool, on Linux from an in-process
//! mDNS browser; `avahi-browse` lines are understood too. The caller runs the
//! tools; the rules here turn their output into devices and registry updates.

pub mod avahi;
pub mod dns_sd;
pub mod txt;

use vstd::prelude::*;
use crate::clock::{Duration, Instant};
use crate::discover::dns_sd::{
    parse_lookup_output_with_preferred, ResolveInfo, DEFAULT_CAST_PORT,
};
use crate::discover::txt::parse_txt_blob;
use crate::error::{joined, Error};
use crate::net;
use crate::net::{resolve_host_ipv4, HostAddr, Ipv4};
use crate::registry::{Device, DeviceRegistry, PendingLeaveMark, DEFAULT_PENDING_LEAVE};
use crate::registry;
use crate::text;
use crate::text::{
    chars_of, contains, find, replace_char, string_of, trim, trim_dots,
};

verus! {

/// mDNS service type including domain.
pub const GOOGLECAST_MDNS_TYPE: &'static str = "_googlecast._tcp.local.";

/// Poll cadence while waiting for mDNS events so shutdown stays responsive.
pub const MDNS_RECV_POLL: Duration = 250_000_000;

/// Max wall-clock for one `dns-sd -L` resolve before the child is killed.
pub const LOOKUP_TIMEOUT: Duration = 3_000_000_000;

/// Watchdog poll cadence for lookup deadline / shutdown checks.
pub const LOOKUP_WATCH_POLL: Duration = 100_000_000;

/// Operating systems that differ in their discovery backend.
#[derive(Debug, Clone, Copy, PartialEq, Eq, Structural)]
pub enum Platform {
    /// macOS.
    MacOs,
    /// Linux.
    Linux,
    /// Anything else.
    Other,
}

/// The name of the discovery backend.
pub fn discovery_backend_label(os: Platform) -> (r: &'static str)
    ensures
        r@ == match os {
            Platform::MacOs => "dns-sd"@,
            Platform::Linux => "mdns-sd"@,
            Platform::Other => "unsupported"@,
        },
{
    match os {
        Platform::MacOs => "dns-sd",
        Platform::Linux => "mdns-sd",
        Platform::Other => "unsupported",
    }
}

/// How long to wait before browsing again after a session ended; `None` to stop.
pub fn restart_delay(failed: bool, shutdown: bool) -> (r: Option<Duration>)
    ensures
        r == if failed {
            Some(2_000_000_000u128)
        } else if shutdown {
            None
        } else {
            Some(1_000_000_000u128)
        },
        r == delay_before_next(failed, shutdown),
{
    if failed {
        Some(2_000_000_000u128)
    } else if shutdown {
        None
    } else {
        Some(1_000_000_000u128)
    }
}

// ── Devices ─────────────────────────────────────────────────────────────────

/// The Cast host for a hostname: its IPv4 address if there is one, else the name
/// without trailing dots, else loopback.
pub open spec fn cast_host(hostname: Seq<char>, looked_up: Seq<HostAddr>) -> Seq<char> {
    match net::host_ipv4(hostname, looked_up) {
        Some(ip) => ip,
        None => if text::without_dots(hostname).len() == 0 {
            "127.0.0.1"@
        } else {
            text::without_dots(hostname)
        },
    }
}

/// Prefer a resolved IPv4 address; fall back to hostname for Cast control.
///
/// `looked_up` is what the system resolver gave for the name.
pub fn resolve_cast_host(hostname: &str, looked_up: &[HostAddr]) -> (r: String)
    ensures
        r@ == cast_host(hostname@, looked_up@),
{
    match resolve_host_ipv4(hostname, looked_up) {
        Some(ip) => ip,
        None => {
            let c = chars_of(hostname);
            let host = trim_dots(c.as_slice());
            if host.len() == 0 {
                string_of(chars_of("127.0.0.1").as_slice())
            } else {
                string_of(host)
            }
        },
    }
}

/// A port, the usual Cast port in place of zero.
pub open spec fn cast_port(port: u16) -> u16 {
    if port == 0 {
        DEFAULT_CAST_PORT
    } else {
        port
    }
}

/// `value` unless it is absent or empty.
pub open spec fn or_else(value: Option<Seq<char>>, other: Seq<char>) -> Seq<char> {
    match value {
        Some(v) if v.len() > 0 => v,
        _ => other,
    }
}

fn value_or(value: Option<&String>, other: &str) -> (r: String)
    ensures
        r@ == or_else(
            match value {
                Some(v) => Some(v@),
                None => None,
            },
            other@,
        ),
{
    match value {
        Some(v) => if v.as_str().is_empty() {
            string_of(chars_of(other).as_slice())
        } else {
            v.clone()
        },
        None => string_of(chars_of(other).as_slice()),
    }
}

/// The value of a key in a TXT record.
pub open spec fn txt_value(m: Map<Seq<char>, Seq<char>>, key: Seq<char>) -> Option<Seq<char>> {
    if m.dom().contains(key) {
        Some(m[key])
    } else {
        None
    }
}

/// `d` is a device just seen, with these fields.
pub open spec fn is_fresh_device(
    d: Device,
    id: Seq<char>,
    name: Seq<char>,
    host: Seq<char>,
    hostname: Seq<char>,
    port: u16,
    instance: Seq<char>,
    now: Instant,
) -> bool {
    &&& d.id@ == id
    &&& d.name@ == name
    &&& d.host@ == host
    &&& d.hostname@ == hostname
    &&& d.port == port
    &&& d.instance@ == instance
    &&& d.last_seen == now
    &&& d.pending_leave_deadline is None
    &&& d.pending_leave_since is None
}

/// The Cast host of resolve info: its address when there is one, else its hostname's.
pub open spec fn info_host(info: ResolveInfo, looked_up: Seq<HostAddr>) -> Seq<char> {
    match info.address {
        Some(a) if text::trimmed(a@).len() > 0 => text::trimmed(a@),
        _ => cast_host(text::without_dots(info.hostname@), looked_up),
    }
}

/// `d` is the device that an instance name and its resolve info describe.
pub open spec fn is_resolved_device(
    d: Device,
    instance: Seq<char>,
    info: ResolveInfo,
    looked_up: Seq<HostAddr>,
    now: Instant,
) -> bool {
    is_fresh_device(
        d,
        or_else(txt_value(txt::blob_map(info.txt@), "id"@), instance),
        or_else(
            txt_value(txt::blob_map(info.txt@), "fn"@),
            text::replaced(instance, '-', ' '),
        ),
        info_host(info, looked_up),
        text::without_dots(info.hostname@),
        cast_port(info.port),
        instance,
        now,
    )
}

/// Build a [`Device`] from instance name + resolve info.
///
/// `looked_up` is what the info's hostname resolved to; it only matters when the
/// info has no address.
pub fn device_from_resolve(
    instance: &str,
    info: &ResolveInfo,
    looked_up: &[HostAddr],
    now: Instant,
) -> (d: Device)
    ensures
        is_resolved_device(d, instance@, *info, looked_up@, now),
{
    let record = parse_txt_blob(info.txt.as_str());
    let inst = chars_of(instance);
    let spaced = string_of(replace_char(inst.as_slice(), '-', ' ').as_slice());
    let id = value_or(record.get("id"), instance);
    let name = value_or(record.get("fn"), spaced.as_str());
    let hn = chars_of(info.hostname.as_str());
    let hostname = string_of(trim_dots(hn.as_slice()));
    let host = match &info.address {
        Some(a) => {
            let ac = chars_of(a.as_str());
            let t = trim(ac.as_slice());
            if t.len() > 0 {
                string_of(t)
            } else {
                resolve_cast_host(hostname.as_str(), looked_up)
            }
        },
        None => resolve_cast_host(hostname.as_str(), looked_up),
    };
    let port: u16 = if info.port == 0 {
        DEFAULT_CAST_PORT
    } else {
        info.port
    };
    Device::new(id, name, host, hostname, port, string_of(inst.as_slice()), now)
}

/// The instance label of a full mDNS name: what stands before the service type,
/// unless that is blank.
pub open spec fn mdns_instance(fullname: Seq<char>) -> Seq<char> {
    let head = match text::first_at(fullname, "._googlecast._tcp"@) {
        Some(i) => fullname.take(i),
        None => fullname,
    };
    if text::trimmed(head).len() == 0 {
        fullname
    } else {
        text::trimmed(head)
    }
}

/// Instance label from a full mDNS name (`Name._googlecast._tcp.local.`).
pub fn instance_from_mdns_fullname(fullname: &str) -> (r: String)
    ensures
        r@ == mdns_instance(fullname@),
{
    let c = chars_of(fullname);
    let marker = chars_of("._googlecast._tcp");
    let n: usize = match find(c.as_slice(), marker.as_slice()) {
        Some(i) => i,
        None => c.len(),
    };
    let head = vstd::slice::slice_subrange(c.as_slice(), 0, n);
    proof {
        assert(head@ =~= fullname@.take(n as int));
        assert(fullname@.take(fullname@.len() as int) =~= fullname@);
    }
    let label = trim(head);
    if label.len() == 0 {
        string_of(c.as_slice())
    } else {
        string_of(label)
    }
}

/// A resolved mDNS service, as far as discovery reads it.
#[derive(Debug)]
pub struct MdnsService {
    /// Full name (`Name._googlecast._tcp.local.`).
    pub fullname: String,
    /// Hostname, often with a trailing dot.
    pub hostname: String,
    /// Port.
    pub port: u16,
    /// Value of the TXT key `id`.
    pub id: Option<String>,
    /// Value of the TXT key `fn`.
    pub friendly_name: Option<String>,
    /// One of its IPv4 addresses.
    pub address: Option<Ipv4>,
}

/// `d` is the device that a resolved mDNS service describes.
pub open spec fn is_mdns_device(
    d: Device,
    service: MdnsService,
    looked_up: Seq<HostAddr>,
    now: Instant,
) -> bool {
    let instance = mdns_instance(service.fullname@);
    let hostname = text::without_dots(service.hostname@);
    is_fresh_device(
        d,
        or_else(text::opt_view(service.id), instance),
        or_else(text::opt_view(service.friendly_name), text::replaced(instance, '-', ' ')),
        match service.address {
            Some(ip) => ip.dotted(),
            None => cast_host(hostname, looked_up),
        },
        hostname,
        cast_port(service.port),
        instance,
        now,
    )
}

/// Map a resolved mDNS service into a Cast [`Device`].
///
/// `looked_up` is what the service's hostname resolved to; it only matters when the
/// service has no IPv4 address.
pub fn device_from_mdns_resolved(
    service: &MdnsService,
    looked_up: &[HostAddr],
    now: Instant,
) -> (d: Device)
    ensures
        is_mdns_device(d, *service, looked_up@, now),
{
    let instance = instance_from_mdns_fullname(service.fullname.as_str());
    let inst = chars_of(instance.as_str());
    let spaced = string_of(replace_char(inst.as_slice(), '-', ' ').as_slice());
    let id = value_or(service.id.as_ref(), instance.as_str());
    let name = value_or(service.friendly_name.as_ref(), spaced.as_str());
    let hn = chars_of(service.hostname.as_str());
    let hostname = string_of(trim_dots(hn.as_slice()));
    let host = match service.address {
        Some(ip) => ip.render(),
        None => resolve_cast_host(hostname.as_str(), looked_up),
    };
    let port: u16 = if service.port == 0 {
        DEFAULT_CAST_PORT
    } else {
        service.port
    };
    Device::new(id, name, host, hostname, port, instance, now)
}

// ── Registry updates ────────────────────────────────────────────────────────

/// What a sighting meant for the registry.
#[derive(Debug, Clone, Copy, PartialEq, Eq, Structural)]
pub enum Sighting {
    /// The device was not known.
    Appeared,
    /// The device was about to leave and stays.
    LeaveCancelled,
    /// The device was known and present.
    SeenAgain,
}

/// What seeing a device means for a registry.
pub open spec fn sighting(reg: Map<Seq<char>, Device>, id: Seq<char>) -> Sighting {
    if !reg.dom().contains(id) {
        Sighting::Appeared
    } else if reg[id].pending_leave_deadline is Some {
        Sighting::LeaveCancelled
    } else {
        Sighting::SeenAgain
    }
}

/// Record a resolved device in the registry.
pub fn note_sighting(registry: &mut DeviceRegistry, device: Device, now: Instant) -> (r: Sighting)
    requires
        old(registry).wf(),
    ensures
        final(registry).wf(),
        r == sighting(old(registry).devices(), device.id@),
        final(registry).devices() == old(registry).devices().insert(device.id@, device.seen(now)),
        final(registry).cancelled() == (if r == Sighting::LeaveCancelled {
            old(registry).cancelled().push(device.id)
        } else {
            old(registry).cancelled()
        }),
{
    let was_pending: bool = registry.is_pending_leave(device.id.as_str());
    let is_new: bool = registry.appear(device, now);
    if was_pending {
        Sighting::LeaveCancelled
    } else if is_new {
        Sighting::Appeared
    } else {
        Sighting::SeenAgain
    }
}

/// Mark a device pending leave when mDNS reports a remove (debounced).
///
/// Exact match only: by stored TXT `id` or by the instance string recorded at appear.
pub fn leave_by_instance(registry: &mut DeviceRegistry, instance: &str, now: Instant) -> (r: Option<
    (String, PendingLeaveMark),
>)
    requires
        old(registry).wf(),
        now + DEFAULT_PENDING_LEAVE <= u128::MAX,
    ensures
        final(registry).wf(),
        final(registry).cancelled() == old(registry).cancelled(),
        match r {
            Some((id, mark)) => exists|i: int|
                {
                    let d = #[trigger] old(registry).listed()[i];
                    &&& registry::is_leave_match(old(registry).listed(), instance@, i)
                    &&& id@ == d.id@
                    &&& d.pending_leave_deadline is Some ==> mark
                        == PendingLeaveMark::AlreadyPending && *final(registry) == *old(registry)
                    &&& d.pending_leave_deadline is None ==> mark == PendingLeaveMark::NewlyMarked
                        && final(registry).devices() == old(registry).devices().insert(
                        d.id@,
                        d.leaving(now, DEFAULT_PENDING_LEAVE),
                    )
                },
            None => registry::no_leave_match(old(registry).listed(), instance@) && *final(registry)
                == *old(registry),
        },
{
    registry.mark_pending_leave_by_instance(instance, now, DEFAULT_PENDING_LEAVE)
}

/// What an mDNS browser reports.
#[derive(Debug)]
pub enum MdnsEvent {
    /// A service was resolved.
    Resolved(MdnsService),
    /// A service was reported gone.
    Removed,
    /// The search ended.
    SearchStopped,
    /// Anything else that a browser reports.
    Other,
    /// Waiting for a report failed, with this text.
    Failed(String),
}

/// What to do after a browser's report.
#[derive(Debug)]
pub enum BrowseStep {
    /// Wait for the next report.
    Continue,
    /// A device was recorded; wait for the next report.
    Recorded(Device, Sighting),
    /// End the session.
    Stop,
}

/// A failure text that says that the browser is gone, not that nothing came yet.
pub open spec fn is_disconnect(message: Seq<char>) -> bool {
    text::has_sub(message, "disconnect"@) || text::has_sub(message, "Disconnect"@)
}

/// One report of the in-process mDNS browser.
///
/// Removals are ignored: the browser reports them spuriously during re-queries, and
/// a device that is really gone ages out of the registry instead. `looked_up` is
/// what the hostname of a resolved service without address resolved to.
pub fn browse_step(
    registry: &mut DeviceRegistry,
    event: &MdnsEvent,
    looked_up: &[HostAddr],
    now: Instant,
) -> (step: BrowseStep)
    requires
        old(registry).wf(),
    ensures
        final(registry).wf(),
        match *event {
            MdnsEvent::Resolved(service) => {
                &&& step matches BrowseStep::Recorded(d, s)
                &&& is_mdns_device(d, service, looked_up@, now)
                &&& s == sighting(old(registry).devices(), d.id@)
                &&& final(registry).devices() == old(registry).devices().insert(d.id@, d)
                &&& final(registry).cancelled() == (if s == Sighting::LeaveCancelled {
                    old(registry).cancelled().push(d.id)
                } else {
                    old(registry).cancelled()
                })
            },
            MdnsEvent::Removed | MdnsEvent::Other => step is Continue && *final(registry) == *old(
                registry,
            ),
            MdnsEvent::SearchStopped => step is Stop && *final(registry) == *old(registry),
            MdnsEvent::Failed(m) => *final(registry) == *old(registry) && if is_disconnect(m@) {
                step is Stop
            } else {
                step is Continue
            },
        },
        step is Stop <==> ends_session(*event),
        step is Recorded <==> *event is Resolved,
{
    match event {
        MdnsEvent::Resolved(service) => {
            let device = device_from_mdns_resolved(service, looked_up, now);
            let kept = device.clone();
            let s = note_sighting(registry, device, now);
            proof {
                assert(device.seen(now) == device);
            }
            BrowseStep::Recorded(kept, s)
        },
        MdnsEvent::Removed => BrowseStep::Continue,
        MdnsEvent::SearchStopped => BrowseStep::Stop,
        MdnsEvent::Other => BrowseStep::Continue,
        MdnsEvent::Failed(m) => {
            let c = chars_of(m.as_str());
            let lower = chars_of("disconnect");
            let upper = chars_of("Disconnect");
            if contains(c.as_slice(), lower.as_slice()) || contains(
                c.as_slice(),
                upper.as_slice(),
            ) {
                BrowseStep::Stop
            } else {
                BrowseStep::Continue
            }
        },
    }
}

// ── Lookups ─────────────────────────────────────────────────────────────────

/// Lookup output that says where the service is and holds TXT data.
pub open spec fn is_complete_lookup(s: Seq<char>) -> bool {
    text::has_sub(s, "can be reached at "@) && (text::has_sub(s, "id="@) || text::has_sub(
        s,
        "fn="@,
    ))
}

/// Add a line of `dns-sd -L` output to what came before; whether that is enough.
pub fn push_lookup_line(buf: &mut String, line: &str) -> (complete: bool)
    ensures
        final(buf)@ == old(buf)@ + line@ + "\n"@,
        complete == is_complete_lookup(final(buf)@),
{
    let mut all = chars_of(buf.as_str());
    text::push_str(&mut all, line);
    text::push_str(&mut all, "\n");
    let reach = chars_of("can be reached at ");
    let id = chars_of("id=");
    let friendly = chars_of("fn=");
    let complete: bool = contains(all.as_slice(), reach.as_slice()) && (contains(
        all.as_slice(),
        id.as_slice(),
    ) || contains(all.as_slice(), friendly.as_slice()));
    *buf = string_of(all.as_slice());
    complete
}

/// The device that `dns-sd -L` output describes.
///
/// `preferred` is this host's own LAN address, which decides between several reach
/// lines.
pub fn resolve_instance_dns_sd(
    instance: &str,
    output: &str,
    preferred: String,
    looked_up: &[HostAddr],
    now: Instant,
) -> (r: Result<Device, Error>)
    ensures
        match r {
            Ok(d) => output@.len() > 0 && exists|info: ResolveInfo| #[trigger]
                dns_sd::lookup_result(output@, seq![preferred@], Some(info))
                    && is_resolved_device(d, instance@, info, looked_up@, now),
            Err(e) => if output@.len() == 0 {
                e matches Error::Discovery(m) && m@ == "empty dns-sd -L for "@ + instance@
            } else {
                dns_sd::lookup_result(output@, seq![preferred@], None) && (e matches Error::Discovery(
                    m,
                ) && m@ == "could not parse dns-sd -L for "@ + instance@)
            },
        },
{
    if output.is_empty() {
        return Err(Error::Discovery(joined("empty dns-sd -L for ", instance)));
    }
    let mut list: Vec<String> = Vec::new();
    let ghost wanted = preferred@;
    list.push(preferred);
    proof {
        assert(text::views(list@) =~= seq![wanted]);
    }
    match parse_lookup_output_with_preferred(output, list.as_slice()) {
        Some(info) => Ok(device_from_resolve(instance, &info, looked_up, now)),
        None => Err(Error::Discovery(joined("could not parse dns-sd -L for ", instance))),
    }
}

// ── Laws ────────────────────────────────────────────────────────────────────

/// A device that is described by an IPv4 address of its own is reached there,
/// whatever its hostname resolves to.
pub proof fn law_own_address_is_preferred(
    d: Device,
    instance: Seq<char>,
    info: ResolveInfo,
    looked_up: Seq<HostAddr>,
    now: Instant,
)
    requires
        is_resolved_device(d, instance, info, looked_up, now),
        info.address matches Some(a) && text::trimmed(a@).len() > 0,
    ensures
        d.host@ == text::trimmed(info.address->0@),
{
}

/// A device always has a Cast host.
pub proof fn law_cast_host_is_never_blank(hostname: Seq<char>, looked_up: Seq<HostAddr>)
    ensures
        cast_host(hostname, looked_up).len() > 0,
{
    reveal_strlit("127.0.0.1");
    reveal_strlit(".");
}

/// A device keeps every port that it states; only when it states none is the usual Cast
/// port, 8009, taken for it.
pub proof fn law_stated_port_is_kept(
    d: Device,
    e: Device,
    instance: Seq<char>,
    info: ResolveInfo,
    service: MdnsService,
    looked_up: Seq<HostAddr>,
    now: Instant,
)
    requires
        is_resolved_device(d, instance, info, looked_up, now),
        is_mdns_device(e, service, looked_up, now),
    ensures
        info.port > 0 ==> d.port == info.port,
        info.port == 0 ==> d.port == 8009,
        service.port > 0 ==> e.port == service.port,
        service.port == 0 ==> e.port == 8009,
{
}

/// A looked-up device has the id and the name that its TXT data gives. Where the data
/// gives none, or an empty one, the instance stands for the id, and the instance with
/// its hyphens made spaces for the name.
pub proof fn law_txt_names_the_device(
    d: Device,
    instance: Seq<char>,
    info: ResolveInfo,
    looked_up: Seq<HostAddr>,
    now: Instant,
)
    requires
        is_resolved_device(d, instance, info, looked_up, now),
    ensures
        ({
            let record = txt::blob_map(info.txt@);
            &&& record.dom().contains("id"@) && record["id"@].len() > 0 ==> d.id@ == record["id"@]
            &&& !record.dom().contains("id"@) || record["id"@].len() == 0 ==> d.id@ == instance
            &&& record.dom().contains("fn"@) && record["fn"@].len() > 0 ==> d.name@
                == record["fn"@]
            &&& !record.dom().contains("fn"@) || record["fn"@].len() == 0 ==> {
                &&& d.name@.len() == instance.len()
                &&& forall|i: int|
                    0 <= i < instance.len() ==> #[trigger] d.name@[i] == (if instance[i] == '-' {
                        ' '
                    } else {
                        instance[i]
                    })
            }
        }),
        d.instance@ == instance,
        d.last_seen == now,
        d.pending_leave_deadline is None && d.pending_leave_since is None,
{
}

/// A browsed device has the id and the name that it announces; where it announces none,
/// or an empty one, its instance stands for them as for a looked-up device.
pub proof fn law_service_names_the_device(
    d: Device,
    service: MdnsService,
    looked_up: Seq<HostAddr>,
    now: Instant,
)
    requires
        is_mdns_device(d, service, looked_up, now),
    ensures
        d.instance@ == mdns_instance(service.fullname@),
        service.id is Some && service.id->0@.len() > 0 ==> d.id@ == service.id->0@,
        service.id is None || service.id->0@.len() == 0 ==> d.id@ == d.instance@,
        service.friendly_name is Some && service.friendly_name->0@.len() > 0 ==> d.name@
            == service.friendly_name->0@,
        service.friendly_name is None || service.friendly_name->0@.len() == 0 ==> {
            &&& d.name@.len() == d.instance@.len()
            &&& forall|i: int|
                0 <= i < d.instance@.len() ==> #[trigger] d.name@[i] == (if d.instance@[i] == '-' {
                    ' '
                } else {
                    d.instance@[i]
                })
        },
        d.last_seen == now,
        d.pending_leave_deadline is None && d.pending_leave_since is None,
{
}

/// A device is reached at its own address, else at the IPv4 address that its hostname
/// stands for, else by the hostname itself, else at this very host. Its hostname is
/// remembered without trailing dots.
pub proof fn law_device_is_reached_at_its_best_address(
    d: Device,
    e: Device,
    instance: Seq<char>,
    info: ResolveInfo,
    service: MdnsService,
    looked_up: Seq<HostAddr>,
    now: Instant,
)
    requires
        is_resolved_device(d, instance, info, looked_up, now),
        is_mdns_device(e, service, looked_up, now),
    ensures
        d.hostname@ == text::without_dots(info.hostname@),
        e.hostname@ == text::without_dots(service.hostname@),
        info.address is Some && text::trimmed(info.address->0@).len() > 0 ==> d.host@ == text::trimmed(
            info.address->0@,
        ),
        info.address is None || text::trimmed(info.address->0@).len() == 0 ==> match net::host_ipv4(
            d.hostname@,
            looked_up,
        ) {
            Some(ip) => d.host@ == ip,
            None => if d.hostname@.len() > 0 {
                d.host@ == d.hostname@
            } else {
                d.host@ == "127.0.0.1"@
            },
        },
        service.address matches Some(ip) ==> e.host@ == ip.dotted(),
        service.address is None ==> match net::host_ipv4(e.hostname@, looked_up) {
            Some(ip) => e.host@ == ip,
            None => if e.hostname@.len() > 0 {
                e.host@ == e.hostname@
            } else {
                e.host@ == "127.0.0.1"@
            },
        },
{
    text::law_only_trailing_dots_go(info.hostname@);
    text::law_only_trailing_dots_go(service.hostname@);
}

/// The instance of a full name is what stands before the first service type, without
/// whitespace around it. A name without the type, or with nothing before it, is its own
/// instance, in the first case without whitespace around it.
pub proof fn law_instance_stands_before_the_type(
    label: Seq<char>,
    behind: Seq<char>,
    bare: Seq<char>,
)
    requires
        forall|i: int|
            0 <= i < label.len() ==> !#[trigger] text::occurs_at(
                label + "._googlecast._tcp"@ + behind,
                "._googlecast._tcp"@,
                i,
            ),
        !text::has_sub(bare, "._googlecast._tcp"@),
    ensures
        text::trimmed(label).len() > 0 ==> mdns_instance(label + "._googlecast._tcp"@ + behind)
            == text::trimmed(label),
        text::trimmed(label).len() == 0 ==> mdns_instance(label + "._googlecast._tcp"@ + behind)
            == label + "._googlecast._tcp"@ + behind,
        text::trimmed(bare).len() > 0 ==> mdns_instance(bare) == text::trimmed(bare),
        text::trimmed(bare).len() == 0 ==> mdns_instance(bare) == bare,
{
    let pat = "._googlecast._tcp"@;
    let full = label + pat + behind;
    let n = label.len() as int;
    assert(full.subrange(n, n + pat.len()) =~= pat);
    assert(text::occurs_at(full, pat, n));
    text::lemma_first_at(full, pat, n);
    assert(full.take(n) =~= label);
}

/// A sighting tells whether the device was known, and whether it was about to leave.
pub proof fn law_sighting_tells_what_was_known(reg: Map<Seq<char>, Device>, id: Seq<char>)
    ensures
        sighting(reg, id) == Sighting::Appeared <==> !reg.dom().contains(id),
        sighting(reg, id) == Sighting::LeaveCancelled <==> reg.dom().contains(id)
            && reg[id].pending_leave_deadline is Some,
        sighting(reg, id) == Sighting::SeenAgain <==> reg.dom().contains(id)
            && reg[id].pending_leave_deadline is None,
{
}

/// A failure ends the session exactly when its text says `disconnect`, with a small or a
/// capital first letter, in any place.
pub proof fn law_disconnect_is_told_by_its_text(
    before: Seq<char>,
    behind: Seq<char>,
    other: Seq<char>,
)
    ensures
        is_disconnect(before + "disconnect"@ + behind),
        is_disconnect(before + "Disconnect"@ + behind),
        (forall|i: int| !#[trigger] text::occurs_at(other, "disconnect"@, i)) && (forall|i: int|
            !#[trigger] text::occurs_at(other, "Disconnect"@, i)) ==> !is_disconnect(other),
{
    let small = before + "disconnect"@ + behind;
    let large = before + "Disconnect"@ + behind;
    text::law_occurrence_splits_the_text(small, "disconnect"@, before, behind);
    text::law_occurrence_splits_the_text(large, "Disconnect"@, before, behind);
}

/// Lookup output is enough once it says where the service is reached and holds an id or
/// a name, in whatever order, and not before.
pub proof fn law_lookup_is_enough_with_reach_and_txt(
    before: Seq<char>,
    between: Seq<char>,
    behind: Seq<char>,
    other: Seq<char>,
)
    ensures
        is_complete_lookup(before + "can be reached at "@ + between + "id="@ + behind),
        is_complete_lookup(before + "can be reached at "@ + between + "fn="@ + behind),
        is_complete_lookup(before + "id="@ + between + "can be reached at "@ + behind),
        is_complete_lookup(before + "fn="@ + between + "can be reached at "@ + behind),
        !text::has_sub(other, "can be reached at "@) ==> !is_complete_lookup(other),
        !text::has_sub(other, "id="@) && !text::has_sub(other, "fn="@) ==> !is_complete_lookup(other),
{
    let reach = "can be reached at "@;
    lemma_both_occur(before, reach, between, "id="@, behind);
    lemma_both_occur(before, reach, between, "fn="@, behind);
    lemma_both_occur(before, "id="@, between, reach, behind);
    lemma_both_occur(before, "fn="@, between, reach, behind);
}

/// Both parts of a text stand in it.
proof fn lemma_both_occur(
    before: Seq<char>,
    first: Seq<char>,
    between: Seq<char>,
    second: Seq<char>,
    behind: Seq<char>,
)
    ensures
        text::has_sub(before + first + between + second + behind, first),
        text::has_sub(before + first + between + second + behind, second),
{
    let s = before + first + between + second + behind;
    assert(s =~= before + first + (between + second + behind));
    text::law_occurrence_splits_the_text(s, first, before, between + second + behind);
    text::law_occurrence_splits_the_text(s, second, before + first + between, behind);
}

/// How long to wait before browsing again after a session ended; `None` to stop.
pub open spec fn delay_before_next(failed: bool, shutdown: bool) -> Option<Duration> {
    if failed {
        Some(2_000_000_000u128)
    } else if shutdown {
        None
    } else {
        Some(1_000_000_000u128)
    }
}

/// Browsing stops only when a session ended well and a shutdown was asked for; after a
/// failure it waits twice as long as after a good end.
pub proof fn law_browsing_goes_on(failed: bool, shutdown: bool)
    ensures
        delay_before_next(failed, shutdown) is None <==> !failed && shutdown,
        failed ==> delay_before_next(failed, shutdown) == Some(2_000_000_000u128),
        !failed && !shutdown ==> delay_before_next(failed, shutdown) == Some(1_000_000_000u128),
{
}

/// A report after which a session ends.
pub open spec fn ends_session(event: MdnsEvent) -> bool {
    match event {
        MdnsEvent::SearchStopped => true,
        MdnsEvent::Failed(m) => is_disconnect(m@),
        _ => false,
    }
}

/// A session ends when the search does or the browser is gone. A service that was found,
/// one that is reported gone, and a wait that came to nothing do not end it.
pub proof fn law_session_ends_with_its_browser(
    service: MdnsService,
    message: String,
    before: Seq<char>,
    behind: Seq<char>,
)
    ensures
        ends_session(MdnsEvent::SearchStopped),
        !ends_session(MdnsEvent::Resolved(service)),
        !ends_session(MdnsEvent::Removed),
        !ends_session(MdnsEvent::Other),
        message@ == before + "disconnect"@ + behind ==> ends_session(MdnsEvent::Failed(message)),
        message@ == before + "Disconnect"@ + behind ==> ends_session(MdnsEvent::Failed(message)),
        !text::has_sub(message@, "disconnect"@) && !text::has_sub(message@, "Disconnect"@)
            ==> !ends_session(MdnsEvent::Failed(message)),
{
    law_disconnect_is_told_by_its_text(before, behind, message@);
}

} // verus!
