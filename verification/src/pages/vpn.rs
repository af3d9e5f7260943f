//! The page of the tunnel.

use vstd::prelude::*;

use crate::digits;
use crate::digits::dec_usize;
use crate::pages::network;
use crate::pages::network::text_or;
use crate::pages::reticulum;
use crate::pages::reticulum::{format_timestamp, VpnPeer, VpnRoute};
use crate::text;
use crate::text::{
    cat2, find_text, from_chars, from_range, is_empty, join, same, take_bytes, to_ascii_lower, to_chars, trim,
    utf8_len, white,
};

verus! {

// ── Paired nodes ─────────────────────────────────────────────────────────────

/// A node that was paired, with the address of its end of the tunnel where that can be
/// derived from its identity.
#[derive(Clone, Debug)]
pub struct PairedEntry {
    pub identity_hash: String,
    pub codename: String,
    pub vpn_hash: Option<String>,
}

/// A paired node, as the choice of a router needs it.
#[derive(Clone, Debug)]
pub struct PairedPeerDto {
    pub identity_hash: String,
    pub codename: String,
    /// The operator's own label, when there is one.
    pub tag: String,
    pub online: bool,
    /// The networks that this peer offers at the moment.
    pub routes: Vec<String>,
}

/// What a paired node is called.
pub open spec fn display_text(peer: PairedPeerDto) -> Seq<char> {
    if peer.tag@.len() > 0 {
        peer.tag@
    } else if peer.codename@.len() > 0 {
        peer.codename@
    } else if peer.identity_hash@.len() < 8 {
        peer.identity_hash@
    } else {
        peer.identity_hash@.take(8)
    }
}

impl PairedPeerDto {
    /// What the node is called: its label, else its name, else the start of its
    /// identity.
    pub fn display_name(&self) -> (r: String)
        ensures
            r@ == display_text(*self),
    {
        if !is_empty(self.tag.as_str()) {
            return self.tag.clone();
        }
        if !is_empty(self.codename.as_str()) {
            return self.codename.clone();
        }
        let chars = to_chars(self.identity_hash.as_str());
        let n: usize = chars.len();
        let shown: usize = if n < 8 {
            n
        } else {
            8
        };
        let out = from_range(chars.as_slice(), 0, shown);
        proof {
            assert(out@ =~= self.identity_hash@.take(shown as int));
            assert(self.identity_hash@.take(self.identity_hash@.len() as int) =~= self.identity_hash@);
        }
        out
    }
}

/// The first label given to a node, or an empty one.
pub open spec fn tag_for(tags: Seq<(String, String)>, identity_hash: Seq<char>) -> Seq<char>
    decreases tags.len(),
{
    if tags.len() == 0 {
        Seq::empty()
    } else if tags[0].0@ == identity_hash {
        tags[0].1@
    } else {
        tag_for(tags.drop_first(), identity_hash)
    }
}

/// Whether the first peer at an address has an active link.
pub open spec fn is_online(peers: Seq<VpnPeer>, vpn_hash: Seq<char>) -> bool
    decreases peers.len(),
{
    if peers.len() == 0 {
        false
    } else if peers[0].destination@ == vpn_hash {
        peers[0].link_state@ == "active"@
    } else {
        is_online(peers.drop_first(), vpn_hash)
    }
}

/// The networks of an owner, in the order in which they are listed.
pub open spec fn networks_of(routes: Seq<VpnRoute>, owner: Seq<char>) -> Seq<Seq<char>>
    decreases routes.len(),
{
    if routes.len() == 0 {
        Seq::empty()
    } else if routes.last().owner@ == owner {
        networks_of(routes.drop_last(), owner).push(routes.last().network@)
    } else {
        networks_of(routes.drop_last(), owner)
    }
}

/// The address that a paired node is looked up by.
pub open spec fn lookup_hash(node: PairedEntry) -> Seq<char> {
    network::or_else(text::view_opt(node.vpn_hash), Seq::empty())
}

/// Whether a peer describes a paired node.
pub open spec fn describes(
    peer: PairedPeerDto,
    node: PairedEntry,
    tags: Seq<(String, String)>,
    peers: Seq<VpnPeer>,
    routes: Seq<VpnRoute>,
) -> bool {
    &&& peer.identity_hash@ == node.identity_hash@
    &&& peer.codename@ == node.codename@
    &&& peer.tag@ == tag_for(tags, node.identity_hash@)
    &&& peer.online == is_online(peers, lookup_hash(node))
    &&& text::views(peer.routes@) == networks_of(routes, lookup_hash(node))
}

/// The first label given to a node, or an empty one.
fn find_tag(tags: &[(String, String)], identity_hash: &str) -> (r: String)
    ensures
        r@ == tag_for(tags@, identity_hash@),
{
    let n: usize = tags.len();
    let mut i: usize = 0;
    proof {
        assert(tags@.skip(0) =~= tags@);
    }
    while i < n
        invariant
            n == tags@.len(),
            i <= n,
            tag_for(tags@, identity_hash@) == tag_for(tags@.skip(i as int), identity_hash@),
        decreases n - i,
    {
        proof {
            assert(tags@.skip(i as int).drop_first() =~= tags@.skip(i + 1));
        }
        if same(tags[i].0.as_str(), identity_hash) {
            return tags[i].1.clone();
        }
        i += 1;
    }
    let out = String::new();
    proof {
        assert(out@ =~= Seq::<char>::empty());
    }
    out
}

/// Whether the first peer at an address has an active link.
fn find_online(peers: &[VpnPeer], vpn_hash: &str) -> (r: bool)
    ensures
        r == is_online(peers@, vpn_hash@),
{
    let n: usize = peers.len();
    let mut i: usize = 0;
    proof {
        assert(peers@.skip(0) =~= peers@);
    }
    while i < n
        invariant
            n == peers@.len(),
            i <= n,
            is_online(peers@, vpn_hash@) == is_online(peers@.skip(i as int), vpn_hash@),
        decreases n - i,
    {
        proof {
            assert(peers@.skip(i as int).drop_first() =~= peers@.skip(i + 1));
        }
        if same(peers[i].destination.as_str(), vpn_hash) {
            return same(peers[i].link_state.as_str(), "active");
        }
        i += 1;
    }
    false
}

/// The networks of an owner, in the order in which they are listed.
fn find_networks(routes: &[VpnRoute], owner: &str) -> (r: Vec<String>)
    ensures
        text::views(r@) == networks_of(routes@, owner@),
{
    let n: usize = routes.len();
    let mut out: Vec<String> = Vec::new();
    let mut i: usize = 0;
    proof {
        assert(text::views(out@) =~= networks_of(routes@.take(0), owner@));
    }
    while i < n
        invariant
            n == routes@.len(),
            i <= n,
            text::views(out@) == networks_of(routes@.take(i as int), owner@),
        decreases n - i,
    {
        let ghost before = text::views(out@);
        proof {
            assert(routes@.take(i + 1).drop_last() =~= routes@.take(i as int));
            assert(routes@.take(i + 1).last() == routes@[i as int]);
        }
        if same(routes[i].owner.as_str(), owner) {
            out.push(routes[i].network.clone());
            proof {
                assert(text::views(out@) =~= before.push(routes@[i as int].network@));
            }
        }
        i += 1;
    }
    proof {
        assert(routes@.take(n as int) =~= routes@);
    }
    out
}

/// The paired nodes, each with its label and with what the tunnel shows of it.
pub fn join_paired(nodes: &[PairedEntry], tags: &[(String, String)], peers: &[VpnPeer], routes: &[VpnRoute]) -> (r: Vec<
    PairedPeerDto,
>)
    ensures
        r@.len() == nodes@.len(),
        forall|i: int|
            0 <= i < r@.len() ==> describes(#[trigger] r@[i], nodes@[i], tags@, peers@, routes@),
{
    let n: usize = nodes.len();
    let mut out: Vec<PairedPeerDto> = Vec::new();
    let mut i: usize = 0;
    while i < n
        invariant
            n == nodes@.len(),
            i <= n,
            out@.len() == i,
            forall|j: int| 0 <= j < i ==> describes(#[trigger] out@[j], nodes@[j], tags@, peers@, routes@),
        decreases n - i,
    {
        let node = &nodes[i];
        let vpn_hash = match &node.vpn_hash {
            Some(h) => h.clone(),
            None => String::new(),
        };
        proof {
            assert(vpn_hash@ =~= lookup_hash(*node));
        }
        out.push(
            PairedPeerDto {
                tag: find_tag(tags, node.identity_hash.as_str()),
                online: find_online(peers, vpn_hash.as_str()),
                routes: find_networks(routes, vpn_hash.as_str()),
                identity_hash: node.identity_hash.clone(),
                codename: node.codename.clone(),
            },
        );
        i += 1;
    }
    out
}

// ── Snapshot ─────────────────────────────────────────────────────────────────

/// What this node forwards for others.
#[derive(Clone, Debug)]
pub struct VpnGatewayDto {
    pub enabled: bool,
    pub active: bool,
    pub routes: Vec<String>,
    pub egress_interface: Option<String>,
    pub detail: Option<String>,
}

/// The node that this one routes through.
#[derive(Clone, Debug)]
pub struct VpnUplinkDto {
    pub enabled: bool,
    pub active: bool,
    pub peer: Option<String>,
    pub routes: Vec<String>,
    pub default_route: bool,
    pub detail: Option<String>,
}

/// What the page is drawn from.
#[derive(Clone, Debug)]
pub struct VpnPageSnapshot {
    pub local_hash: String,
    pub codename: String,
    pub wlan0_ip: Option<String>,
    pub usb0_ip: Option<String>,
    pub paired: Vec<PairedPeerDto>,
    pub gateway: VpnGatewayDto,
    pub uplink: VpnUplinkDto,
    pub peers: Vec<VpnPeer>,
    pub remote_routes: Vec<VpnRoute>,
}

/// Gathers what the page is drawn from. Only paired nodes can join the tunnel, so the
/// choice of a router is the list of paired nodes.
pub fn load_vpn_snapshot(
    local_hash: String,
    codename: String,
    addresses: (Option<String>, Option<String>),
    nodes: &[PairedEntry],
    tags: &[(String, String)],
    peers: Vec<VpnPeer>,
    remote_routes: Vec<VpnRoute>,
    sharing: (VpnGatewayDto, VpnUplinkDto),
) -> (r: VpnPageSnapshot)
    ensures
        r.local_hash == local_hash,
        r.codename == codename,
        (r.wlan0_ip, r.usb0_ip) == addresses,
        (r.gateway, r.uplink) == sharing,
        r.peers == peers,
        r.remote_routes == remote_routes,
        r.paired@.len() == nodes@.len(),
        forall|i: int|
            0 <= i < r.paired@.len() ==> describes(
                #[trigger] r.paired@[i],
                nodes@[i],
                tags@,
                peers@,
                remote_routes@,
            ),
{
    let paired = join_paired(nodes, tags, peers.as_slice(), remote_routes.as_slice());
    VpnPageSnapshot {
        local_hash,
        codename,
        wlan0_ip: addresses.0,
        usb0_ip: addresses.1,
        paired,
        gateway: sharing.0,
        uplink: sharing.1,
        peers,
        remote_routes,
    }
}

// ── Texts ────────────────────────────────────────────────────────────────────

/// A text without its blanks.
pub open spec fn compact(s: Seq<char>) -> Seq<char> {
    s.filter(|c: char| !text::is_white(c))
}

/// Whether an address can be cut after sixteen bytes: no character straddles them.
pub open spec fn cuttable(hash: Seq<char>) -> bool {
    text::byte_len(compact(hash)) <= 16 || text::byte_prefix(compact(hash), 16) is Some
}

/// An address without blanks, cut after sixteen bytes.
pub open spec fn short_hash(hash: Seq<char>) -> Seq<char> {
    if text::byte_len(compact(hash)) > 16 {
        text::byte_prefix(compact(hash), 16)->Some_0 + "…"@
    } else {
        compact(hash)
    }
}

/// A text without its blanks.
fn without_blanks(s: &str) -> (r: String)
    ensures
        r@ == compact(s@),
{
    let chars = to_chars(s);
    let n: usize = chars.len();
    let mut kept: Vec<char> = Vec::new();
    let mut i: usize = 0;
    proof {
        reveal(Seq::filter);
        assert(kept@ =~= compact(s@.take(0)));
    }
    while i < n
        invariant
            n == chars@.len(),
            i <= n,
            chars@ == s@,
            kept@ == compact(s@.take(i as int)),
        decreases n - i,
    {
        proof {
            reveal(Seq::filter);
            assert(s@.take(i + 1).drop_last() =~= s@.take(i as int));
            assert(s@.take(i + 1).last() == chars@[i as int]);
        }
        if !white(chars[i]) {
            kept.push(chars[i]);
        }
        i += 1;
    }
    proof {
        assert(s@.take(n as int) =~= s@);
    }
    from_chars(kept.as_slice())
}

/// An address without blanks, cut after sixteen bytes.
pub fn truncate_hash(hash: &str) -> (r: String)
    requires
        cuttable(hash@),
    ensures
        r@ == short_hash(hash@),
{
    let kept = without_blanks(hash);
    if utf8_len(kept.as_str()) > 16 {
        match take_bytes(kept.as_str(), 16) {
            Some(start) => cat2(start.as_str(), "…"),
            None => kept,
        }
    } else {
        kept
    }
}

/// When something was last seen: never, or the time of day.
pub fn format_relative_time(ts: u64) -> (r: String)
    ensures
        r@ == if ts == 0 {
            "never"@
        } else {
            reticulum::clock_text(ts as nat)
        },
{
    if ts == 0 {
        return "never".to_owned();
    }
    format_timestamp(ts)
}

/// A state of the tunnel as it is compared: without blanks around it, in lower case.
pub open spec fn plain_status(status: Seq<char>) -> Seq<char> {
    text::ascii_lowered(text::trimmed(status))
}

/// The class of the dot that shows a state.
pub open spec fn dot_class(status: Seq<char>) -> Seq<char> {
    if plain_status(status) == "running"@ {
        "status-dot status-dot--ok"@
    } else if plain_status(status) == "error"@ {
        "status-dot status-dot--err"@
    } else if plain_status(status) == "mock"@ {
        "status-dot status-dot--idle"@
    } else {
        "status-dot status-dot--warn"@
    }
}

/// The class of the dot that shows a state.
pub fn status_dot_class(status: &str) -> (r: &'static str)
    ensures
        r@ == dot_class(status@),
{
    let plain = to_ascii_lower(trim(status).as_str());
    if same(plain.as_str(), "running") {
        "status-dot status-dot--ok"
    } else if same(plain.as_str(), "error") {
        "status-dot status-dot--err"
    } else if same(plain.as_str(), "mock") {
        "status-dot status-dot--idle"
    } else {
        "status-dot status-dot--warn"
    }
}

/// The class of the banner in a state.
pub open spec fn banner_class(status: Seq<char>) -> Seq<char> {
    if plain_status(status) == "running"@ {
        "vpn-banner vpn-banner--ok"@
    } else if plain_status(status) == "error"@ {
        "vpn-banner vpn-banner--err"@
    } else {
        "vpn-banner vpn-banner--idle"@
    }
}

/// The class of the banner in a state.
pub fn banner_modifier(status: &str) -> (r: &'static str)
    ensures
        r@ == banner_class(status@),
{
    let plain = to_ascii_lower(trim(status).as_str());
    if same(plain.as_str(), "running") {
        "vpn-banner vpn-banner--ok"
    } else if same(plain.as_str(), "error") {
        "vpn-banner vpn-banner--err"
    } else {
        "vpn-banner vpn-banner--idle"
    }
}

/// What peers see of a route, and the network behind it where the two differ.
pub open spec fn route_parts(route: Seq<char>) -> (Seq<char>, Option<Seq<char>>) {
    match text::first_place(route, " -> "@, 0) {
        Some(i) => (text::trimmed(route.take(i)), Some(text::trimmed(route.skip(i + 4)))),
        None => (text::trimmed(route), None),
    }
}

/// What peers see of a route, and the network behind it where the two differ.
pub fn parse_route_display(route: &str) -> (r: (String, Option<String>))
    ensures
        (r.0@, text::view_opt(r.1)) == route_parts(route@),
{
    let chars = to_chars(route);
    let arrow = to_chars(" -> ");
    let n: usize = chars.len();
    proof {
        reveal_strlit(" -> ");
    }
    match find_text(chars.as_slice(), arrow.as_slice(), 0) {
        Some(i) => {
            let alias = from_range(chars.as_slice(), 0, i);
            let local = from_range(chars.as_slice(), i + 4, n);
            proof {
                assert(alias@ =~= route@.take(i as int));
                assert(local@ =~= route@.skip(i + 4));
            }
            (trim(alias.as_str()), Some(trim(local.as_str())))
        },
        None => (trim(route), None),
    }
}

/// The routes to start editing from.
pub open spec fn editable_routes(routes: Seq<Seq<char>>) -> Seq<Seq<char>> {
    if routes.len() == 0 {
        seq!["192.168.10.0/24"@]
    } else {
        routes
    }
}

/// The routes to start editing from: those that are advertised, or an example.
pub fn default_advertised_route_strings(routes: Vec<String>) -> (r: Vec<String>)
    ensures
        text::views(r@) == editable_routes(text::views(routes@)),
{
    if routes.len() == 0 {
        let example = vec!["192.168.10.0/24".to_owned()];
        proof {
            assert(text::views(example@) =~= seq!["192.168.10.0/24"@]);
        }
        example
    } else {
        routes
    }
}

/// The text in the editor of the advertised routes: one to a line.
pub fn route_editor_text(routes: Vec<String>) -> (r: String)
    ensures
        r@ == text::joined(editable_routes(text::views(routes@)), "\n"@),
{
    let routes = default_advertised_route_strings(routes);
    join(routes.as_slice(), "\n")
}

// ── Cards ────────────────────────────────────────────────────────────────────

/// What the banner of the page shows.
#[derive(Clone, Debug)]
pub struct VpnBanner {
    pub banner_class: String,
    pub dot_class: String,
    pub status: String,
    pub tunnel_ip: String,
    pub peers_text: String,
    /// What went wrong last, where something did.
    pub error: Option<String>,
}

/// The banner of the page.
pub fn vpn_banner(status: &str, tunnel_ip: &Option<String>, peer_count: usize, last_error: &Option<String>) -> (r:
    VpnBanner)
    ensures
        r.banner_class@ == banner_class(status@),
        r.dot_class@ == dot_class(status@),
        r.status@ == status@,
        r.tunnel_ip@ == network::or_else(text::view_opt(*tunnel_ip), "—"@),
        r.peers_text@ == digits::decimal(peer_count as nat),
        text::view_opt(r.error) == text::view_opt(*last_error),
{
    VpnBanner {
        banner_class: banner_modifier(status).to_owned(),
        dot_class: status_dot_class(status).to_owned(),
        status: status.to_owned(),
        tunnel_ip: text_or(tunnel_ip, "—"),
        peers_text: dec_usize(peer_count),
        error: match last_error {
            Some(e) => Some(e.clone()),
            None => None,
        },
    }
}

/// The words that follow the number of nodes on the tunnel.
pub fn peer_count_words(count: usize) -> (r: &'static str)
    ensures
        r@ == if count == 1 {
            " node on the tunnel"@
        } else {
            " nodes on the tunnel"@
        },
{
    if count == 1 {
        " node on the tunnel"
    } else {
        " nodes on the tunnel"
    }
}

/// What the card of this device shows.
#[derive(Clone, Debug)]
pub struct DeviceCard {
    pub interface: String,
    pub tunnel_ip: String,
    pub wlan0: String,
    pub usb0: String,
    pub backend_badge: String,
    /// What peers see of each offered network, and the network itself where the two
    /// differ.
    pub routes: Vec<(String, Option<String>)>,
}

/// The card of this device.
pub fn device_card(
    local_routes: &[String],
    interface_name: &Option<String>,
    backend: &str,
    tunnel_ip: &Option<String>,
    wlan0_ip: &Option<String>,
    usb0_ip: &Option<String>,
) -> (r: DeviceCard)
    ensures
        r.interface@ == network::or_else(text::view_opt(*interface_name), "—"@),
        r.tunnel_ip@ == network::or_else(text::view_opt(*tunnel_ip), "—"@),
        r.wlan0@ == network::or_else(text::view_opt(*wlan0_ip), "not connected"@),
        r.usb0@ == network::or_else(text::view_opt(*usb0_ip), "not connected"@),
        r.backend_badge@ == "badge "@ + if backend@ == "linux"@ {
            "reticulum-badge-kind-data"@
        } else {
            "reticulum-badge-soft"@
        },
        r.routes@.len() == local_routes@.len(),
        forall|i: int|
            0 <= i < r.routes@.len() ==> ((#[trigger] r.routes@[i]).0@, text::view_opt(r.routes@[i].1)) == route_parts(
                local_routes@[i]@,
            ),
{
    let n: usize = local_routes.len();
    let mut routes: Vec<(String, Option<String>)> = Vec::new();
    let mut i: usize = 0;
    while i < n
        invariant
            n == local_routes@.len(),
            i <= n,
            routes@.len() == i,
            forall|j: int|
                0 <= j < i ==> ((#[trigger] routes@[j]).0@, text::view_opt(routes@[j].1)) == route_parts(
                    local_routes@[j]@,
                ),
        decreases n - i,
    {
        routes.push(parse_route_display(local_routes[i].as_str()));
        i += 1;
    }
    DeviceCard {
        interface: text_or(interface_name, "—"),
        tunnel_ip: text_or(tunnel_ip, "—"),
        wlan0: text_or(wlan0_ip, "not connected"),
        usb0: text_or(usb0_ip, "not connected"),
        backend_badge: cat2(
            "badge ",
            if same(backend, "linux") {
                "reticulum-badge-kind-data"
            } else {
                "reticulum-badge-soft"
            },
        ),
        routes,
    }
}

/// A node without an address on the tunnel is shown offline and without networks, unless
/// a peer or a route carries an empty address.
pub proof fn law_underived_node_is_offline(node: PairedEntry, peers: Seq<VpnPeer>, routes: Seq<VpnRoute>)
    requires
        node.vpn_hash is None,
        forall|i: int| 0 <= i < peers.len() ==> (#[trigger] peers[i]).destination@.len() > 0,
        forall|i: int| 0 <= i < routes.len() ==> (#[trigger] routes[i]).owner@.len() > 0,
    ensures
        !is_online(peers, lookup_hash(node)),
        networks_of(routes, lookup_hash(node)).len() == 0,
    decreases peers.len(), routes.len(),
{
    if peers.len() > 0 {
        assert(peers[0].destination@.len() > 0);
        assert forall|i: int| 0 <= i < peers.drop_first().len() implies (
        #[trigger] peers.drop_first()[i]).destination@.len() > 0 by {
            assert(peers[i + 1].destination@.len() > 0);
        }
        law_underived_node_is_offline(node, peers.drop_first(), routes);
    } else if routes.len() > 0 {
        assert(routes[routes.len() - 1].owner@.len() > 0);
        assert forall|i: int| 0 <= i < routes.drop_last().len() implies (
        #[trigger] routes.drop_last()[i]).owner@.len() > 0 by {
            assert(routes[i].owner@.len() > 0);
        }
        law_underived_node_is_offline(node, peers, routes.drop_last());
    }
}

// ── What the page says ───────────────────────────────────────────────────────

/// A node is called by its label; without one by its name; without either by at most the first eight
/// characters of its identity.
pub proof fn law_display_name(peer: &PairedPeerDto, r: String, i: int)
    requires
        call_ensures(PairedPeerDto::display_name, (peer,), r),
    ensures
        peer.tag@.len() > 0 ==> r@ == peer.tag@,
        peer.tag@.len() == 0 && peer.codename@.len() > 0 ==> r@ == peer.codename@,
        peer.tag@.len() == 0 && peer.codename@.len() == 0 ==> {
            &&& r@.len() <= 8
            &&& r@.len() == 8 || r@ == peer.identity_hash@
            &&& 0 <= i < r@.len() ==> r@[i] == peer.identity_hash@[i]
        },
{
}

/// The first label of a node, by where it stands.
proof fn lemma_tag(tags: Seq<(String, String)>, id: Seq<char>, k: int)
    ensures
        (forall|j: int| 0 <= j < tags.len() ==> (#[trigger] tags[j]).0@ != id) ==> tag_for(tags, id).len() == 0,
        0 <= k < tags.len() && tags[k].0@ == id && (forall|j: int| 0 <= j < k ==> (#[trigger] tags[j]).0@ != id)
            ==> tag_for(tags, id) == tags[k].1@,
    decreases tags.len(),
{
    if tags.len() > 0 && tags[0].0@ != id {
        let rest = tags.drop_first();
        lemma_tag(rest, id, k - 1);
        if forall|j: int| 0 <= j < tags.len() ==> (#[trigger] tags[j]).0@ != id {
            assert forall|j: int| 0 <= j < rest.len() implies (#[trigger] rest[j]).0@ != id by {
                assert(tags[j + 1].0@ != id);
            }
        }
        if 0 < k < tags.len() && (forall|j: int| 0 <= j < k ==> (#[trigger] tags[j]).0@ != id) {
            assert forall|j: int| 0 <= j < k - 1 implies (#[trigger] rest[j]).0@ != id by {
                assert(tags[j + 1].0@ != id);
            }
        }
    }
}

/// The first peer at an address, by where it stands.
proof fn lemma_online(peers: Seq<VpnPeer>, hash: Seq<char>, k: int)
    ensures
        (forall|j: int| 0 <= j < peers.len() ==> (#[trigger] peers[j]).destination@ != hash) ==> !is_online(peers, hash),
        0 <= k < peers.len() && peers[k].destination@ == hash && (forall|j: int|
            0 <= j < k ==> (#[trigger] peers[j]).destination@ != hash) ==> is_online(peers, hash) == (
        peers[k].link_state@ == "active"@),
    decreases peers.len(),
{
    if peers.len() > 0 && peers[0].destination@ != hash {
        let rest = peers.drop_first();
        lemma_online(rest, hash, k - 1);
        if forall|j: int| 0 <= j < peers.len() ==> (#[trigger] peers[j]).destination@ != hash {
            assert forall|j: int| 0 <= j < rest.len() implies (#[trigger] rest[j]).destination@ != hash by {
                assert(peers[j + 1].destination@ != hash);
            }
        }
        if 0 < k < peers.len() && (forall|j: int| 0 <= j < k ==> (#[trigger] peers[j]).destination@ != hash) {
            assert forall|j: int| 0 <= j < k - 1 implies (#[trigger] rest[j]).destination@ != hash by {
                assert(peers[j + 1].destination@ != hash);
            }
        }
    }
}

/// The networks of an owner, by what they are and what they are not.
proof fn lemma_networks(routes: Seq<VpnRoute>, owner: Seq<char>)
    ensures
        networks_of(routes, owner) == routes.filter(|r: VpnRoute| r.owner@ == owner).map_values(|r: VpnRoute| r.network@),
    decreases routes.len(),
{
    reveal(Seq::filter);
    let own = routes.filter(|r: VpnRoute| r.owner@ == owner);
    if routes.len() > 0 {
        lemma_networks(routes.drop_last(), owner);
        let before = routes.drop_last().filter(|r: VpnRoute| r.owner@ == owner);
        if routes.last().owner@ == owner {
            assert(own == before.push(routes.last()));
            assert(own.map_values(|r: VpnRoute| r.network@) =~= before.map_values(|r: VpnRoute| r.network@).push(
                routes.last().network@,
            ));
        }
    }
    assert(networks_of(routes, owner) =~= own.map_values(|r: VpnRoute| r.network@));
}

/// Every paired node is listed once, in its place: with its identity and its name, with the first label
/// that was given to it, as online exactly where the first peer at its address has an active link, and with
/// the networks whose owner has its address, in their order.
pub proof fn law_paired_nodes_are_joined(
    nodes: &[PairedEntry],
    tags: &[(String, String)],
    peers: &[VpnPeer],
    routes: &[VpnRoute],
    r: Vec<PairedPeerDto>,
    i: int,
    k: int,
)
    requires
        call_ensures(join_paired, (nodes, tags, peers, routes), r),
        0 <= i < nodes@.len(),
    ensures
        r@.len() == nodes@.len(),
        r@[i].identity_hash@ == nodes@[i].identity_hash@,
        r@[i].codename@ == nodes@[i].codename@,
        (forall|j: int| 0 <= j < tags@.len() ==> (#[trigger] tags@[j]).0@ != nodes@[i].identity_hash@) ==> r@[i].tag@.len()
            == 0,
        0 <= k < tags@.len() && tags@[k].0@ == nodes@[i].identity_hash@ && (forall|j: int|
            0 <= j < k ==> (#[trigger] tags@[j]).0@ != nodes@[i].identity_hash@) ==> r@[i].tag@ == tags@[k].1@,
        nodes@[i].vpn_hash matches Some(hash) ==> {
            &&& (forall|j: int| 0 <= j < peers@.len() ==> (#[trigger] peers@[j]).destination@ != hash@) ==> !r@[i].online
            &&& 0 <= k < peers@.len() && peers@[k].destination@ == hash@ && (forall|j: int|
                0 <= j < k ==> (#[trigger] peers@[j]).destination@ != hash@) ==> r@[i].online == (peers@[k].link_state@
                == "active"@)
            &&& text::views(r@[i].routes@) == routes@.filter(|r: VpnRoute| r.owner@ == hash@).map_values(
                |r: VpnRoute| r.network@,
            )
        },
{
    assert(describes(r@[i], nodes@[i], tags@, peers@, routes@));
    lemma_tag(tags@, nodes@[i].identity_hash@, k);
    lemma_online(peers@, lookup_hash(nodes@[i]), k);
    if let Some(hash) = nodes@[i].vpn_hash {
        assert(lookup_hash(nodes@[i]) == hash@);
        lemma_networks(routes@, hash@);
        assert((|r: VpnRoute| r.owner@ == hash@) =~= (|r: VpnRoute| r.owner@ == lookup_hash(nodes@[i])));
    }
}

/// The page is drawn from what it was given, and from the paired nodes as they are joined with it.
pub proof fn law_snapshot_keeps_what_it_was_given(
    local_hash: String,
    codename: String,
    addresses: (Option<String>, Option<String>),
    nodes: &[PairedEntry],
    tags: &[(String, String)],
    peers: Vec<VpnPeer>,
    routes: Vec<VpnRoute>,
    sharing: (VpnGatewayDto, VpnUplinkDto),
    r: VpnPageSnapshot,
    peer_slice: &[VpnPeer],
    route_slice: &[VpnRoute],
    joined: Vec<PairedPeerDto>,
    i: int,
)
    requires
        call_ensures(load_vpn_snapshot, (local_hash, codename, addresses, nodes, tags, peers, routes, sharing), r),
        peer_slice@ == peers@,
        route_slice@ == routes@,
        call_ensures(join_paired, (nodes, tags, peer_slice, route_slice), joined),
        0 <= i < nodes@.len(),
    ensures
        r.local_hash == local_hash && r.codename == codename,
        r.wlan0_ip == addresses.0 && r.usb0_ip == addresses.1,
        r.gateway == sharing.0 && r.uplink == sharing.1,
        r.peers == peers && r.remote_routes == routes,
        r.paired@.len() == nodes@.len(),
        r.paired@[i].identity_hash@ == joined@[i].identity_hash@,
        r.paired@[i].codename@ == joined@[i].codename@,
        r.paired@[i].tag@ == joined@[i].tag@,
        r.paired@[i].online == joined@[i].online,
        text::views(r.paired@[i].routes@) == text::views(joined@[i].routes@),
{
    assert(describes(r.paired@[i], nodes@[i], tags@, peers@, routes@));
    assert(describes(joined@[i], nodes@[i], tags@, peers@, routes@));
}

/// An address is shown without its white space: all of it up to sixteen bytes, or the characters that take
/// up the first sixteen and a mark.
pub proof fn law_hash_is_cut(hash: &str, r: String, k: int)
    requires
        cuttable(hash@),
        call_ensures(truncate_hash, (hash,), r),
    ensures
        ({
            let kept = hash@.filter(|c: char| !text::is_white(c));
            &&& text::byte_len(kept) <= 16 ==> r@ == kept
            &&& text::byte_len(kept) > 16 && 0 <= k <= kept.len() && text::byte_len(kept.take(k)) == 16 ==> r@
                == kept.take(k) + "…"@
        }),
{
    text::lemma_byte_prefix(compact(hash@), 16, k);
}

/// What was never seen says so, and anything else the time of day.
pub proof fn law_last_seen(ts: u64, r: String, time: String)
    requires
        call_ensures(format_relative_time, (ts,), r),
        call_ensures(format_timestamp, (ts,), time),
    ensures
        ts == 0 ==> r@ == "never"@,
        ts != 0 ==> r@ == time@,
{
}

/// The banner shows its state by its colours, in any case and with white space around it: green where the
/// tunnel runs, red where it failed; what else it shows is what it was given.
pub proof fn law_banner_shows_the_tunnel(
    status: &str,
    ip: &Option<String>,
    count: usize,
    error: &Option<String>,
    r: VpnBanner,
    number: String,
)
    requires
        call_ensures(vpn_banner, (status, ip, count, error), r),
        call_ensures(dec_usize, (count,), number),
    ensures
        ({
            let word = text::ascii_lowered(text::trimmed(status@));
            &&& word == "running"@ ==> r.banner_class@ == "vpn-banner vpn-banner--ok"@ && r.dot_class@
                == "status-dot status-dot--ok"@
            &&& word == "error"@ ==> r.banner_class@ == "vpn-banner vpn-banner--err"@ && r.dot_class@
                == "status-dot status-dot--err"@
            &&& word == "mock"@ ==> r.banner_class@ == "vpn-banner vpn-banner--idle"@ && r.dot_class@
                == "status-dot status-dot--idle"@
            &&& word != "running"@ && word != "error"@ && word != "mock"@ ==> r.banner_class@
                == "vpn-banner vpn-banner--idle"@ && r.dot_class@ == "status-dot status-dot--warn"@
        }),
        r.status@ == status@,
        *ip is Some ==> r.tunnel_ip@ == ip->0@,
        *ip is None ==> r.tunnel_ip@ == "—"@,
        r.peers_text@ == number@,
        *error is Some ==> r.error is Some && r.error->0@ == error->0@,
        *error is None ==> r.error is None,
{
    reveal_strlit("running");
    reveal_strlit("mock");
    reveal_strlit("error");
    assert("running"@.len() == 7 && "mock"@.len() == 4 && "error"@.len() == 5);
}

/// A route without an arrow is shown as it is, without white space around it; in one with arrows, what
/// stands before the first is what peers see, and what stands behind it the network itself.
pub proof fn law_route_is_shown(route: &str, r: (String, Option<String>), i: int)
    requires
        call_ensures(parse_route_display, (route,), r),
    ensures
        (forall|j: int| 0 <= j && j + 4 <= route@.len() ==> #[trigger] route@.subrange(j, j + 4) != " -> "@) ==> r.0@
            == text::trimmed(route@) && r.1 is None,
        0 <= i && i + 4 <= route@.len() && route@.subrange(i, i + 4) == " -> "@ && (forall|j: int|
            0 <= j < i ==> #[trigger] route@.subrange(j, j + 4) != " -> "@) ==> r.0@ == text::trimmed(route@.take(i))
            && r.1 is Some && r.1->0@ == text::trimmed(route@.skip(i + 4)),
{
    reveal_strlit(" -> ");
    let arrow = " -> "@;
    assert(arrow.len() == 4);
    text::lemma_first_place(route@, arrow, 0);
    if let Some(p) = text::first_place(route@, arrow, 0) {
        assert(text::occurs_at(route@, arrow, p));
        assert(route@.subrange(p, p + 4) == arrow);
        if 0 <= i && i + 4 <= route@.len() && route@.subrange(i, i + 4) == arrow && (forall|j: int|
            0 <= j < i ==> #[trigger] route@.subrange(j, j + 4) != arrow) {
            assert(text::occurs_at(route@, arrow, i));
            assert(p == i);
        }
    } else {
        if 0 <= i && i + 4 <= route@.len() && route@.subrange(i, i + 4) == arrow {
            assert(text::occurs_at(route@, arrow, i));
        }
    }
}

/// Editing starts from the routes that are advertised, one to a line, or from an example where there are
/// none.
pub proof fn law_editor_starts_from_the_routes(routes: Vec<String>, r: Vec<String>, shown: String)
    requires
        call_ensures(default_advertised_route_strings, (routes,), r),
        call_ensures(route_editor_text, (routes,), shown),
    ensures
        routes@.len() > 0 ==> text::views(r@) == text::views(routes@),
        routes@.len() == 0 ==> r@.len() == 1 && r@[0]@ == "192.168.10.0/24"@,
        shown@ == text::joined(text::views(r@), "\n"@),
{
    if routes@.len() == 0 {
        assert(text::views(r@).len() == 1);
        assert(text::views(r@)[0] == r@[0]@);
    }
}

/// The card of this device shows each offered network as any route is shown, and every address that is
/// there.
pub proof fn law_device_card(
    routes: &[String],
    interface: &Option<String>,
    backend: &str,
    ip: &Option<String>,
    wlan0: &Option<String>,
    usb0: &Option<String>,
    r: DeviceCard,
    i: int,
    route: &str,
    shown: (String, Option<String>),
)
    requires
        call_ensures(device_card, (routes, interface, backend, ip, wlan0, usb0), r),
        0 <= i < routes@.len(),
        route@ == routes@[i]@,
        call_ensures(parse_route_display, (route,), shown),
    ensures
        r.routes@.len() == routes@.len(),
        r.routes@[i].0@ == shown.0@,
        r.routes@[i].1 is Some <==> shown.1 is Some,
        shown.1 is Some ==> r.routes@[i].1->0@ == shown.1->0@,
        *interface is Some ==> r.interface@ == interface->0@,
        *ip is Some ==> r.tunnel_ip@ == ip->0@,
        *wlan0 is Some ==> r.wlan0@ == wlan0->0@,
        *usb0 is Some ==> r.usb0@ == usb0->0@,
        *interface is None ==> r.interface@ == "—"@,
        *ip is None ==> r.tunnel_ip@ == "—"@,
        *wlan0 is None ==> r.wlan0@ == "not connected"@,
        *usb0 is None ==> r.usb0@ == "not connected"@,
        backend@ == "linux"@ ==> r.backend_badge@ == "badge "@ + "reticulum-badge-kind-data"@,
        backend@ != "linux"@ ==> r.backend_badge@ == "badge "@ + "reticulum-badge-soft"@,
{
    assert((r.routes@[i].0@, text::view_opt(r.routes@[i].1)) == route_parts(routes@[i]@));
}

/// One node is one, and any other number of nodes is many.
pub proof fn law_nodes_are_counted_in_words(count: usize, r: &'static str)
    requires
        call_ensures(peer_count_words, (count,), r),
    ensures
        count == 1 ==> r@ == " node on the tunnel"@,
        count != 1 ==> r@ == " nodes on the tunnel"@,
{
}

} // verus!
