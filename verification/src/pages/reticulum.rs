//! The page of the mesh network.

use vstd::prelude::*;

use crate::digits;
use crate::digits::{dec, dec_usize};
use crate::pages::network;
use crate::pages::network::text_or;
use crate::text;
use crate::text::{cat2, cat6, is_empty, join};

verus! {

/// A number with at least two digits.
pub open spec fn two_digits(n: nat) -> Seq<char> {
    if n < 10 {
        "0"@ + digits::decimal(n)
    } else {
        digits::decimal(n)
    }
}

/// The time of day of a moment in seconds since the epoch.
pub open spec fn clock_text(ts: nat) -> Seq<char> {
    let seconds = ts % 86_400;
    two_digits(seconds / 3_600) + ":"@ + two_digits((seconds % 3_600) / 60) + ":"@ + two_digits(seconds % 60)
        + " UTC"@
}

/// A number with at least two digits.
fn write_two_digits(n: u64) -> (r: String)
    ensures
        r@ == two_digits(n as nat),
{
    if n < 10 {
        cat2("0", dec(n).as_str())
    } else {
        dec(n)
    }
}

/// The time of day of a moment in seconds since the epoch.
pub fn format_timestamp(ts: u64) -> (r: String)
    ensures
        r@ == clock_text(ts as nat),
{
    let seconds: u64 = ts % 86_400;
    let hours = write_two_digits(seconds / 3_600);
    let minutes = write_two_digits((seconds % 3_600) / 60);
    let secs = write_two_digits(seconds % 60);
    cat6(hours.as_str(), ":", minutes.as_str(), ":", secs.as_str(), " UTC")
}

// ── Rows ─────────────────────────────────────────────────────────────────────

/// A link of the mesh.
#[derive(Clone, Debug)]
pub struct LinkInfo {
    pub id: String,
    pub destination: String,
    pub status: String,
    pub rtt_ms: Option<u64>,
    pub packets: u64,
    pub bytes: u64,
    pub last_event: String,
}

/// What happened on the mesh.
#[derive(Clone, Debug)]
pub struct EventInfo {
    /// In seconds since the epoch.
    pub ts: u64,
    pub direction: String,
    pub kind: String,
    pub link_id: String,
    pub destination: String,
    pub details: String,
}

/// A peer of the tunnel.
#[derive(Clone, Debug)]
pub struct VpnPeer {
    pub destination: String,
    pub link_state: String,
    pub announced_routes: Vec<String>,
    /// In seconds since the epoch.
    pub last_seen_ts: u64,
}

/// A network behind a peer.
#[derive(Clone, Debug)]
pub struct VpnRoute {
    pub network: String,
    pub owner: String,
    pub status: String,
    pub installed: bool,
}

/// The cells of a table that lists links, from left to right.
pub open spec fn link_cells(link: LinkInfo) -> Seq<Seq<char>> {
    seq![
        link.id@,
        link.destination@,
        link.status@,
        match link.rtt_ms {
            Some(ms) => digits::decimal(ms as nat) + " ms"@,
            None => "—"@,
        },
        digits::decimal(link.packets as nat),
        digits::decimal(link.bytes as nat) + " B"@,
        link.last_event@,
    ]
}

/// The cells of a table that lists links, from left to right.
pub fn link_row(link: &LinkInfo) -> (r: Vec<String>)
    ensures
        text::views(r@) == link_cells(*link),
{
    let rtt = match link.rtt_ms {
        Some(ms) => cat2(dec(ms).as_str(), " ms"),
        None => "—".to_owned(),
    };
    let cells = vec![
        link.id.clone(),
        link.destination.clone(),
        link.status.clone(),
        rtt,
        dec(link.packets),
        cat2(dec(link.bytes).as_str(), " B"),
        link.last_event.clone(),
    ];
    proof {
        assert(text::views(cells@) =~= link_cells(*link));
    }
    cells
}

/// The cells of the table that lists events, from left to right.
pub open spec fn event_cells(event: EventInfo) -> Seq<Seq<char>> {
    seq![
        clock_text(event.ts as nat),
        event.direction@,
        event.kind@,
        if event.link_id@.len() == 0 {
            "—"@
        } else {
            event.link_id@
        },
        event.destination@,
        event.details@,
    ]
}

/// The cells of the table that lists events, from left to right.
pub fn event_row(event: &EventInfo) -> (r: Vec<String>)
    ensures
        text::views(r@) == event_cells(*event),
{
    let link = if is_empty(event.link_id.as_str()) {
        "—".to_owned()
    } else {
        event.link_id.clone()
    };
    let cells = vec![
        format_timestamp(event.ts),
        event.direction.clone(),
        event.kind.clone(),
        link,
        event.destination.clone(),
        event.details.clone(),
    ];
    proof {
        assert(text::views(cells@) =~= event_cells(*event));
    }
    cells
}

/// The cells of the table that lists the peers of the tunnel, from left to right.
pub open spec fn peer_cells(peer: VpnPeer) -> Seq<Seq<char>> {
    seq![
        peer.destination@,
        peer.link_state@,
        if peer.announced_routes@.len() == 0 {
            "—"@
        } else {
            text::joined(text::views(peer.announced_routes@), ", "@)
        },
        clock_text(peer.last_seen_ts as nat),
    ]
}

/// The cells of the table that lists the peers of the tunnel, from left to right.
pub fn peer_row(peer: &VpnPeer) -> (r: Vec<String>)
    ensures
        text::views(r@) == peer_cells(*peer),
{
    let routes = if peer.announced_routes.len() == 0 {
        "—".to_owned()
    } else {
        join(peer.announced_routes.as_slice(), ", ")
    };
    let cells = vec![
        peer.destination.clone(),
        peer.link_state.clone(),
        routes,
        format_timestamp(peer.last_seen_ts),
    ];
    proof {
        assert(text::views(cells@) =~= peer_cells(*peer));
    }
    cells
}

/// The cells of the table that lists the networks behind peers, from left to right.
pub open spec fn route_cells(route: VpnRoute) -> Seq<Seq<char>> {
    seq![
        route.network@,
        route.owner@,
        route.status@,
        if route.installed {
            "yes"@
        } else {
            "no"@
        },
    ]
}

/// The cells of the table that lists the networks behind peers, from left to right.
pub fn route_row(route: &VpnRoute) -> (r: Vec<String>)
    ensures
        text::views(r@) == route_cells(*route),
{
    let installed = if route.installed {
        "yes".to_owned()
    } else {
        "no".to_owned()
    };
    let cells = vec![route.network.clone(), route.owner.clone(), route.status.clone(), installed];
    proof {
        assert(text::views(cells@) =~= route_cells(*route));
    }
    cells
}

// ── Summary ──────────────────────────────────────────────────────────────────

/// The settings and states that the page sums up.
#[derive(Clone, Debug)]
pub struct MeshSummary {
    pub incoming_count: usize,
    pub outgoing_count: usize,
    pub events_count: usize,
    pub peers_text: String,
    pub interface_text: String,
}

/// Sums up the page.
pub fn summarize(
    incoming: &[LinkInfo],
    outgoing: &[LinkInfo],
    events: &[EventInfo],
    configured_peers: &[String],
    interface_name: &Option<String>,
) -> (r: MeshSummary)
    ensures
        r.incoming_count == incoming@.len(),
        r.outgoing_count == outgoing@.len(),
        r.events_count == events@.len(),
        r.peers_text@ == digits::decimal(configured_peers@.len()) + " configured peers"@,
        r.interface_text@ == network::or_else(text::view_opt(*interface_name), "—"@),
{
    MeshSummary {
        incoming_count: incoming.len(),
        outgoing_count: outgoing.len(),
        events_count: events.len(),
        peers_text: cat2(dec_usize(configured_peers.len()).as_str(), " configured peers"),
        interface_text: text_or(interface_name, "—"),
    }
}

/// The time of day repeats after a day.
pub proof fn law_clock_repeats_daily(ts: nat)
    ensures
        clock_text(ts + 86_400) == clock_text(ts),
{
    assert((ts + 86_400) % 86_400 == ts % 86_400);
}

/// A number below a hundred, written with two digits.
proof fn lemma_two_digits(n: nat)
    requires
        n < 100,
    ensures
        two_digits(n).len() == 2,
        digits::is_digit(two_digits(n)[0]) && digits::is_digit(two_digits(n)[1]),
        10 * (two_digits(n)[0] as int - '0' as int) + (two_digits(n)[1] as int - '0' as int) == n,
{
    reveal_strlit("0");
    reveal_with_fuel(digits::decimal, 3);
}

/// The time of day stands in hours, minutes and seconds of two digits each, and these make up the seconds
/// since midnight.
pub proof fn law_clock_counts_from_midnight(ts: u64, r: String)
    requires
        call_ensures(format_timestamp, (ts,), r),
    ensures
        r@.len() == 12,
        r@[2] == ':' && r@[5] == ':',
        r@.skip(8) == " UTC"@,
        ({
            let hours = 10 * (r@[0] as int - '0' as int) + (r@[1] as int - '0' as int);
            let minutes = 10 * (r@[3] as int - '0' as int) + (r@[4] as int - '0' as int);
            let seconds = 10 * (r@[6] as int - '0' as int) + (r@[7] as int - '0' as int);
            &&& 0 <= hours < 24 && 0 <= minutes < 60 && 0 <= seconds < 60
            &&& (ts - 3_600 * hours - 60 * minutes - seconds) % 86_400 == 0
        }),
{
    let s = ts as nat % 86_400;
    let (h, m, t) = (s / 3_600, (s % 3_600) / 60, s % 60);
    lemma_two_digits(h);
    lemma_two_digits(m);
    lemma_two_digits(t);
    reveal_strlit(":");
    reveal_strlit(" UTC");
    assert(r@.skip(8) =~= " UTC"@);
    assert(s == 3_600 * h + 60 * m + t);
    assert((ts - s) % 86_400 == 0);
}

/// A link is listed by its identifier, its destination, its state, its round trip in milliseconds, its
/// packets, its bytes and what happened last, in this order.
pub proof fn law_link_row(link: &LinkInfo, r: Vec<String>, rtt: u64, ms: String, packets: String, bytes: String)
    requires
        call_ensures(link_row, (link,), r),
        call_ensures(dec, (rtt,), ms),
        call_ensures(dec, (link.packets,), packets),
        call_ensures(dec, (link.bytes,), bytes),
    ensures
        r@.len() == 7,
        r@[0]@ == link.id@ && r@[1]@ == link.destination@ && r@[2]@ == link.status@,
        link.rtt_ms is None ==> r@[3]@ == "—"@,
        link.rtt_ms == Some(rtt) ==> r@[3]@ == ms@ + " ms"@,
        r@[4]@ == packets@ && r@[5]@ == bytes@ + " B"@,
        r@[6]@ == link.last_event@,
{
    let v = text::views(r@);
    assert(v.len() == 7);
    assert(r@[0]@ == v[0] && r@[1]@ == v[1] && r@[2]@ == v[2] && r@[3]@ == v[3] && r@[4]@ == v[4] && r@[5]@ == v[5]
        && r@[6]@ == v[6]);
}

/// An event is listed by its time of day, its direction, its kind, its link where it has one, its
/// destination and its details, in this order.
pub proof fn law_event_row(event: &EventInfo, r: Vec<String>, time: String)
    requires
        call_ensures(event_row, (event,), r),
        call_ensures(format_timestamp, (event.ts,), time),
    ensures
        r@.len() == 6,
        r@[0]@ == time@ && r@[1]@ == event.direction@ && r@[2]@ == event.kind@,
        event.link_id@.len() > 0 ==> r@[3]@ == event.link_id@,
        event.link_id@.len() == 0 ==> r@[3]@ == "—"@,
        r@[4]@ == event.destination@ && r@[5]@ == event.details@,
{
    let v = text::views(r@);
    assert(v.len() == 6);
    assert(r@[0]@ == v[0] && r@[1]@ == v[1] && r@[2]@ == v[2] && r@[3]@ == v[3] && r@[4]@ == v[4] && r@[5]@ == v[5]);
}

/// A peer is listed by its destination, the state of its link, its networks and when it was last seen, and
/// a network by its address, its owner, its state and whether it is in force.
pub proof fn law_tunnel_rows(peer: &VpnPeer, p: Vec<String>, time: String, route: &VpnRoute, r: Vec<String>)
    requires
        call_ensures(peer_row, (peer,), p),
        call_ensures(format_timestamp, (peer.last_seen_ts,), time),
        call_ensures(route_row, (route,), r),
    ensures
        p@.len() == 4,
        p@[0]@ == peer.destination@ && p@[1]@ == peer.link_state@ && p@[3]@ == time@,
        peer.announced_routes@.len() == 0 ==> p@[2]@ == "—"@,
        peer.announced_routes@.len() == 1 ==> p@[2]@ == peer.announced_routes@[0]@,
        peer.announced_routes@.len() == 2 ==> p@[2]@ == peer.announced_routes@[0]@ + ", "@ + peer.announced_routes@[1]@,
        peer.announced_routes@.len() > 0 ==> p@[2]@ == text::joined(text::views(peer.announced_routes@), ", "@),
        r@.len() == 4,
        r@[0]@ == route.network@ && r@[1]@ == route.owner@ && r@[2]@ == route.status@,
        route.installed ==> r@[3]@ == "yes"@,
        !route.installed ==> r@[3]@ == "no"@,
{
    let v = text::views(p@);
    assert(v.len() == 4);
    assert(p@[0]@ == v[0] && p@[1]@ == v[1] && p@[2]@ == v[2] && p@[3]@ == v[3]);
    let w = text::views(r@);
    assert(w.len() == 4);
    assert(r@[0]@ == w[0] && r@[1]@ == w[1] && r@[2]@ == w[2] && r@[3]@ == w[3]);
    reveal_with_fuel(text::joined, 3);
}

/// The page counts incoming links, outgoing links, events and peers, each for itself.
pub proof fn law_summary_counts(
    incoming: &[LinkInfo],
    outgoing: &[LinkInfo],
    events: &[EventInfo],
    peers: &[String],
    interface: &Option<String>,
    r: MeshSummary,
    count: usize,
    number: String,
)
    requires
        call_ensures(summarize, (incoming, outgoing, events, peers, interface), r),
        count == peers@.len(),
        call_ensures(dec_usize, (count,), number),
    ensures
        r.incoming_count == incoming@.len(),
        r.outgoing_count == outgoing@.len(),
        r.events_count == events@.len(),
        r.peers_text@ == number@ + " configured peers"@,
        *interface is Some ==> r.interface_text@ == interface->0@,
        *interface is None ==> r.interface_text@ == "—"@,
{
}

} // verus!
