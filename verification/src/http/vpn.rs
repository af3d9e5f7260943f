//! Requests about the tunnel: where to route, what to forward, who may join.

use vstd::prelude::*;

use crate::digits;
use crate::digits::is_hex;
use crate::mesh;
use crate::mesh::{AddressHash, HashError};
use crate::order;
use crate::order::{sort, sort_dedup};
use crate::reply::{reply, reply_with, Reply, BAD_REQUEST, FORBIDDEN, INTERNAL_SERVER_ERROR};
use crate::route;
use crate::route::{parse_cidr, Ipv4Net};
use crate::text;
use crate::text::{cat2, cat3, is_empty, list_contains, same, starts_with, trim, utf8_len};

verus! {

/// The node this device routes through, and what that currently reaches.
#[derive(Clone, Debug)]
pub struct VpnUplinkResponse {
    pub enabled: bool,
    pub active: bool,
    pub peer: Option<String>,
    pub peer_codename: Option<String>,
    pub routes: Vec<String>,
    /// Whether general traffic goes over the radio.
    pub default_route: bool,
    pub detail: Option<String>,
}

#[derive(Clone, Debug)]
pub struct PutVpnUplinkRequest {
    pub enabled: bool,
    /// The address of the node to route through.
    pub peer: Option<String>,
}

/// What this node forwards for its peers, and out of which interface.
#[derive(Clone, Debug)]
pub struct VpnGatewayResponse {
    pub enabled: bool,
    pub active: bool,
    pub egress_interface: Option<String>,
    pub routes: Vec<String>,
    pub detail: Option<String>,
    /// The interfaces that can be picked.
    pub available_interfaces: Vec<String>,
}

#[derive(Clone, Debug)]
pub struct PutVpnGatewayRequest {
    pub enabled: bool,
    /// Left out or blank for the interface of the default route.
    pub egress_interface: Option<String>,
    /// The destinations that peers may reach through this node.
    pub routes: Vec<String>,
}

#[derive(Clone, Debug)]
pub struct PutVpnRoutesRequest {
    pub routes: Vec<String>,
}

#[derive(Clone, Debug)]
pub struct PutVpnAccessRequest {
    pub allow_all_peers: bool,
    pub peers: Vec<String>,
}

#[derive(Clone, Debug)]
pub struct SystemActionResponse {
    pub status: String,
}

#[derive(Clone, Debug)]
pub struct VpnAccessResponse {
    pub status: String,
    pub allow_all_peers: bool,
    pub peers: Vec<String>,
}

/// The settings of the uplink.
#[derive(Clone, Debug)]
pub struct VpnUplinkConfig {
    pub enabled: bool,
    pub peer: Option<String>,
}

/// The settings of gateway mode.
#[derive(Clone, Debug)]
pub struct VpnGatewayConfig {
    pub enabled: bool,
    pub egress_interface: Option<String>,
    pub routes: Vec<Ipv4Net>,
}

/// A node that was paired with this one.
#[derive(Clone, Debug)]
pub struct PairedNode {
    pub identity_hash: String,
    pub codename: String,
}

// ── Who may change settings ──────────────────────────────────────────────────

/// The answer to a change that was asked for over the tunnel.
pub open spec fn mesh_refusal() -> (u16, Seq<char>) {
    (FORBIDDEN, "not permitted from the mesh; use the device's own interface"@)
}

/// Refuses a change that was asked for over the tunnel: what this node advertises,
/// who may join and where it routes are decided at the device.
pub fn deny_mesh(from_mesh: bool) -> (r: Result<(), Reply>)
    ensures
        match r {
            Ok(()) => !from_mesh,
            Err(e) => from_mesh && e@ == mesh_refusal(),
        },
{
    if from_mesh {
        return Err(reply(FORBIDDEN, "not permitted from the mesh; use the device's own interface"));
    }
    Ok(())
}

/// The answer when settings could not be written.
pub fn save_failed(what: &str, err: &str) -> (r: Reply)
    ensures
        r@ == (INTERNAL_SERVER_ERROR, what@ + err@),
{
    reply_with(INTERNAL_SERVER_ERROR, cat2(what, err))
}

// ── Uplink ───────────────────────────────────────────────────────────────────

/// The first node with an address; nothing where there is none.
pub open spec fn node_with(paired: Seq<PairedNode>, hash: Seq<char>) -> Option<PairedNode>
    decreases paired.len(),
{
    if paired.len() == 0 {
        None
    } else if paired[0].identity_hash@ == hash {
        Some(paired[0])
    } else {
        node_with(paired.skip(1), hash)
    }
}

/// The name of a paired node; nothing where it is not paired or has none.
pub open spec fn codename_of(paired: Seq<PairedNode>, hash: Seq<char>) -> Option<Seq<char>> {
    match node_with(paired, hash) {
        Some(node) => if node.codename@.len() > 0 {
            Some(node.codename@)
        } else {
            None
        },
        None => None,
    }
}

/// The first node with an address.
pub fn find_node<'a>(paired: &'a [PairedNode], identity_hash: &str) -> (r: Option<&'a PairedNode>)
    ensures
        match r {
            Some(node) => node_with(paired@, identity_hash@) == Some(*node),
            None => node_with(paired@, identity_hash@) is None,
        },
{
    let mut i: usize = 0;
    proof {
        assert(paired@.skip(0) =~= paired@);
    }
    while i < paired.len()
        invariant
            i <= paired@.len(),
            node_with(paired@, identity_hash@) == node_with(paired@.skip(i as int), identity_hash@),
        decreases paired@.len() - i,
    {
        proof {
            assert(paired@.skip(i as int).skip(1) =~= paired@.skip(i + 1));
        }
        if same(paired[i].identity_hash.as_str(), identity_hash) {
            return Some(&paired[i]);
        }
        i += 1;
    }
    None
}

/// The name of a paired node.
pub fn codename_for(paired: &[PairedNode], identity_hash: &str) -> (r: Option<String>)
    ensures
        text::view_opt(r) == codename_of(paired@, identity_hash@),
{
    match find_node(paired, identity_hash) {
        Some(node) => {
            if is_empty(node.codename.as_str()) {
                None
            } else {
                Some(node.codename.clone())
            }
        },
        None => None,
    }
}

/// The node that a request selects, given how its text is put in lower case: nothing
/// where it is left out or blank.
pub open spec fn selection(peer: Option<Seq<char>>) -> Option<Seq<char>> {
    match peer {
        Some(s) => if text::lowercase_of(text::trimmed(s)).len() > 0 {
            Some(text::lowercase_of(text::trimmed(s)))
        } else {
            None
        },
        None => None,
    }
}

/// The node that a request selects: its address without blanks around it and in
/// lower case.
pub fn selected_peer(request: &PutVpnUplinkRequest) -> (r: Option<String>)
    ensures
        text::view_opt(r) == selection(text::view_opt(request.peer)),
{
    match &request.peer {
        Some(hash) => {
            let lower = text::to_lowercase(trim(hash.as_str()).as_str());
            if is_empty(lower.as_str()) {
                None
            } else {
                Some(lower)
            }
        },
        None => None,
    }
}

/// Whether a text is the address of a node: 32 hexadecimal digits.
pub open spec fn is_node_hash(s: Seq<char>) -> bool {
    text::byte_len(s) == 32 && digits::all_hex(s)
}

/// Why an uplink is refused, if so. Routing through a node means trusting it with
/// everything, so it has to be a node that was paired, named or not, with its keys on file.
pub open spec fn uplink_refusal(
    from_mesh: bool,
    enabled: bool,
    selected: Option<Seq<char>>,
    paired: Seq<PairedNode>,
    tunnel_hash: Option<Seq<char>>,
) -> Option<(u16, Seq<char>)> {
    if from_mesh {
        Some(mesh_refusal())
    } else if !enabled {
        None
    } else if selected is None {
        Some((BAD_REQUEST, "choose a node to route through"@))
    } else if !is_node_hash(selected->0) {
        Some((BAD_REQUEST, "invalid node hash"@))
    } else if node_with(paired, selected->0) is None {
        Some((BAD_REQUEST, "that node is not paired; pair it first on the Remote page"@))
    } else if tunnel_hash is None {
        Some((BAD_REQUEST, "that node's keys are not on file; re-pair it on the Remote page"@))
    } else {
        None
    }
}

/// What is kept of an uplink, and what is put into force: the node as it was
/// selected, and its address in the tunnel.
#[derive(Clone, Debug)]
pub struct UplinkPlan {
    pub saved: VpnUplinkConfig,
    pub applied: VpnUplinkConfig,
}

/// Decides about an uplink, given the node that was selected, the nodes that were
/// paired and the selected node's address in the tunnel.
pub fn plan_uplink(
    from_mesh: bool,
    enabled: bool,
    selected: Option<String>,
    paired: &[PairedNode],
    tunnel_hash: Option<String>,
) -> (r: Result<UplinkPlan, Reply>)
    ensures
        match r {
            Ok(plan) => {
                &&& uplink_refusal(
                    from_mesh,
                    enabled,
                    text::view_opt(selected),
                    paired@,
                    text::view_opt(tunnel_hash),
                ) is None
                &&& plan.saved == (VpnUplinkConfig { enabled, peer: selected })
                &&& plan.applied == (VpnUplinkConfig { enabled, peer: tunnel_hash })
            },
            Err(e) => uplink_refusal(
                from_mesh,
                enabled,
                text::view_opt(selected),
                paired@,
                text::view_opt(tunnel_hash),
            ) == Some(e@),
        },
{
    match deny_mesh(from_mesh) {
        Ok(()) => {},
        Err(e) => {
            return Err(e);
        },
    }
    if enabled {
        match &selected {
            None => {
                return Err(reply(BAD_REQUEST, "choose a node to route through"));
            },
            Some(hash) => {
                if utf8_len(hash.as_str()) != 32 || !is_hex(hash.as_str()) {
                    return Err(reply(BAD_REQUEST, "invalid node hash"));
                }
                if find_node(paired, hash.as_str()).is_none() {
                    return Err(reply(BAD_REQUEST, "that node is not paired; pair it first on the Remote page"));
                }
            },
        }
        if tunnel_hash.is_none() {
            return Err(reply(BAD_REQUEST, "that node's keys are not on file; re-pair it on the Remote page"));
        }
    }
    Ok(
        UplinkPlan {
            saved: VpnUplinkConfig { enabled, peer: selected },
            applied: VpnUplinkConfig { enabled, peer: tunnel_hash },
        },
    )
}

/// Decides about an uplink that was asked for.
pub fn put_vpn_uplink(
    from_mesh: bool,
    request: &PutVpnUplinkRequest,
    paired: &[PairedNode],
    tunnel_hash: Option<String>,
) -> (r: Result<UplinkPlan, Reply>)
    ensures
        match r {
            Ok(plan) => {
                &&& uplink_refusal(
                    from_mesh,
                    request.enabled,
                    selection(text::view_opt(request.peer)),
                    paired@,
                    text::view_opt(tunnel_hash),
                ) is None
                &&& plan.saved.enabled == request.enabled
                &&& text::view_opt(plan.saved.peer) == selection(text::view_opt(request.peer))
                &&& plan.applied == (VpnUplinkConfig { enabled: request.enabled, peer: tunnel_hash })
            },
            Err(e) => uplink_refusal(
                from_mesh,
                request.enabled,
                selection(text::view_opt(request.peer)),
                paired@,
                text::view_opt(tunnel_hash),
            ) == Some(e@),
        },
{
    plan_uplink(from_mesh, request.enabled, selected_peer(request), paired, tunnel_hash)
}

/// Nothing is ever routed through a node that was not paired.
pub proof fn law_uplink_is_paired(
    from_mesh: bool,
    selected: Option<Seq<char>>,
    paired: Seq<PairedNode>,
    tunnel_hash: Option<Seq<char>>,
)
    requires
        uplink_refusal(from_mesh, true, selected, paired, tunnel_hash) is None,
    ensures
        !from_mesh,
        selected is Some,
        exists|i: int| 0 <= i < paired.len() && (#[trigger] paired[i]).identity_hash@ == selected->0,
{
    lemma_node_with(paired, selected->0);
}

proof fn lemma_node_with(paired: Seq<PairedNode>, hash: Seq<char>)
    requires
        node_with(paired, hash) is Some,
    ensures
        exists|i: int| 0 <= i < paired.len() && (#[trigger] paired[i]).identity_hash@ == hash,
    decreases paired.len(),
{
    if paired[0].identity_hash@ != hash {
        lemma_node_with(paired.skip(1), hash);
        let i = choose|i: int|
            0 <= i < paired.skip(1).len() && (#[trigger] paired.skip(1)[i]).identity_hash@ == hash;
        assert(paired[i + 1].identity_hash@ == hash);
    }
}

/// A paired node is never refused as not paired, whatever its name: with its keys on file
/// it can be routed through.
pub proof fn law_paired_node_can_be_uplink(paired: Seq<PairedNode>, i: int, tunnel_hash: Seq<char>)
    requires
        0 <= i < paired.len(),
        is_node_hash(paired[i].identity_hash@),
    ensures
        uplink_refusal(false, true, Some(paired[i].identity_hash@), paired, Some(tunnel_hash)) is None,
{
    lemma_node_is_found(paired, i);
}

proof fn lemma_node_is_found(paired: Seq<PairedNode>, i: int)
    requires
        0 <= i < paired.len(),
    ensures
        node_with(paired, paired[i].identity_hash@) is Some,
    decreases paired.len(),
{
    if paired[0].identity_hash@ != paired[i].identity_hash@ {
        assert(paired.skip(1)[i - 1] == paired[i]);
        lemma_node_is_found(paired.skip(1), i - 1);
    }
}

/// What the tunnel says of its uplink.
#[derive(Clone, Debug)]
pub struct LiveUplink {
    pub enabled: bool,
    pub active: bool,
    pub routes: Vec<String>,
    pub default_route: bool,
    pub detail: Option<String>,
}

/// The uplink as it is shown: what the tunnel says of it, with the node as it was selected
/// and its name.
pub fn get_vpn_uplink(live: LiveUplink, peer: Option<String>, paired: &[PairedNode]) -> (r: VpnUplinkResponse)
    ensures
        r.enabled == live.enabled,
        r.active == live.active,
        r.routes == live.routes,
        r.default_route == live.default_route,
        r.detail == live.detail,
        r.peer == peer,
        text::view_opt(r.peer_codename) == match peer {
            Some(hash) => codename_of(paired@, hash@),
            None => None,
        },
{
    let peer_codename = match &peer {
        Some(hash) => codename_for(paired, hash.as_str()),
        None => None,
    };
    VpnUplinkResponse {
        enabled: live.enabled,
        active: live.active,
        peer,
        peer_codename,
        routes: live.routes,
        default_route: live.default_route,
        detail: live.detail,
    }
}

/// What a change of the uplink is answered with.
pub fn uplink_status(enabled: bool) -> (r: SystemActionResponse)
    ensures
        r.status@ == if enabled {
            "Router selected"@
        } else {
            "Router cleared"@
        },
{
    SystemActionResponse {
        status: if enabled {
            "Router selected".to_owned()
        } else {
            "Router cleared".to_owned()
        },
    }
}

// ── Routes ───────────────────────────────────────────────────────────────────

/// The complaint about a route.
pub open spec fn route_complaint(route: Seq<char>, err: Seq<char>) -> (u16, Seq<char>) {
    (BAD_REQUEST, "invalid route '"@ + route + "': "@ + err)
}

/// The networks of a list.
pub open spec fn net_views(v: Seq<Ipv4Net>) -> Seq<(Seq<u8>, u8)> {
    v.map_values(|n: Ipv4Net| n@)
}

/// The networks that texts were read as, or the complaint about the first text
/// that is none.
pub open spec fn routes_of(
    texts: Seq<Seq<char>>,
    parsed: Seq<Result<(Seq<u8>, u8), Seq<char>>>,
) -> Result<Seq<(Seq<u8>, u8)>, (u16, Seq<char>)>
    decreases texts.len(),
{
    if texts.len() == 0 || parsed.len() == 0 {
        Ok(Seq::empty())
    } else {
        match routes_of(texts.drop_last(), parsed.drop_last()) {
            Err(e) => Err(e),
            Ok(before) => match parsed.last() {
                Ok(n) => Ok(before.push(n)),
                Err(e) => Err(route_complaint(texts.last(), e)),
            },
        }
    }
}

/// What texts are read as, over what is read.
pub open spec fn parsed_views(parsed: Seq<Result<Ipv4Net, String>>) -> Seq<Result<(Seq<u8>, u8), Seq<char>>> {
    parsed.map_values(|p: Result<Ipv4Net, String>| route::view_net(p))
}

/// What the texts of routes are read as.
pub open spec fn read_each(texts: Seq<Seq<char>>) -> Seq<Result<(Seq<u8>, u8), Seq<char>>> {
    texts.map_values(|s: Seq<char>| route::cidr_of(text::trimmed(s)))
}

/// A complaint about an early text is the complaint about all of them.
proof fn lemma_routes_err(texts: Seq<Seq<char>>, parsed: Seq<Result<(Seq<u8>, u8), Seq<char>>>, i: int)
    requires
        texts.len() == parsed.len(),
        0 <= i <= texts.len(),
        routes_of(texts.take(i), parsed.take(i)) is Err,
    ensures
        routes_of(texts, parsed) == routes_of(texts.take(i), parsed.take(i)),
    decreases texts.len(),
{
    if i < texts.len() {
        assert(texts.drop_last().take(i) =~= texts.take(i));
        assert(parsed.drop_last().take(i) =~= parsed.take(i));
        lemma_routes_err(texts.drop_last(), parsed.drop_last(), i);
    } else {
        assert(texts.take(i) =~= texts);
        assert(parsed.take(i) =~= parsed);
    }
}

/// A result with the networks of its list, or the contents of its reply.
pub open spec fn view_routes(r: Result<Vec<Ipv4Net>, Reply>) -> Result<Seq<(Seq<u8>, u8)>, (u16, Seq<char>)> {
    match r {
        Ok(v) => Ok(net_views(v@)),
        Err(e) => Err(e@),
    }
}

/// Puts together the networks that texts were read as.
pub fn collect_routes(texts: &[String], parsed: &[Result<Ipv4Net, String>]) -> (r: Result<Vec<Ipv4Net>, Reply>)
    requires
        texts@.len() == parsed@.len(),
    ensures
        view_routes(r) == routes_of(text::views(texts@), parsed_views(parsed@)),
{
    let ghost tv = text::views(texts@);
    let ghost pv = parsed_views(parsed@);
    let mut out: Vec<Ipv4Net> = Vec::new();
    let mut i: usize = 0;
    proof {
        assert(net_views(out@) =~= Seq::<(Seq<u8>, u8)>::empty());
        assert(routes_of(tv.take(0), pv.take(0)) == Ok::<Seq<(Seq<u8>, u8)>, (u16, Seq<char>)>(net_views(out@)));
    }
    while i < texts.len()
        invariant
            tv == text::views(texts@),
            pv == parsed_views(parsed@),
            texts@.len() == parsed@.len(),
            i <= texts@.len(),
            routes_of(tv.take(i as int), pv.take(i as int)) == Ok::<Seq<(Seq<u8>, u8)>, (u16, Seq<char>)>(
                net_views(out@),
            ),
        decreases texts@.len() - i,
    {
        let ghost before = net_views(out@);
        proof {
            assert(tv.take(i + 1).drop_last() =~= tv.take(i as int));
            assert(pv.take(i + 1).drop_last() =~= pv.take(i as int));
            assert(tv.take(i + 1).last() == texts@[i as int]@);
            assert(pv.take(i + 1).last() == route::view_net(parsed@[i as int]));
        }
        match &parsed[i] {
            Ok(net) => {
                out.push(*net);
                proof {
                    assert(net_views(out@) =~= before.push(net@));
                }
            },
            Err(e) => {
                let detail = text::cat4("invalid route '", texts[i].as_str(), "': ", e.as_str());
                proof {
                    lemma_routes_err(tv, pv, i + 1);
                }
                return Err(reply_with(BAD_REQUEST, detail));
            },
        }
        i += 1;
    }
    proof {
        assert(tv.take(i as int) =~= tv);
        assert(pv.take(i as int) =~= pv);
    }
    Ok(out)
}

/// Reads the texts of routes, each without blanks around it.
fn parse_each(texts: &[String]) -> (r: Vec<Result<Ipv4Net, String>>)
    ensures
        r@.len() == texts@.len(),
        parsed_views(r@) == read_each(text::views(texts@)),
{
    let ghost tv = text::views(texts@);
    let mut out: Vec<Result<Ipv4Net, String>> = Vec::new();
    let mut i: usize = 0;
    while i < texts.len()
        invariant
            tv == text::views(texts@),
            i <= texts@.len(),
            out@.len() == i,
            forall|k: int| 0 <= k < i ==> route::view_net(#[trigger] out@[k]) == route::cidr_of(text::trimmed(tv[k])),
        decreases texts@.len() - i,
    {
        out.push(parse_cidr(trim(texts[i].as_str()).as_str()));
        i += 1;
    }
    proof {
        assert(parsed_views(out@) =~= read_each(tv));
    }
    out
}

/// Reads the texts of routes; the complaint is about the first that is none.
pub fn read_routes(texts: &[String]) -> (r: Result<Vec<Ipv4Net>, Reply>)
    ensures
        view_routes(r) == routes_of(text::views(texts@), read_each(text::views(texts@))),
{
    let parsed = parse_each(texts);
    collect_routes(texts, &parsed)
}

/// Decides about the routes to advertise.
pub fn put_vpn_routes(from_mesh: bool, request: &PutVpnRoutesRequest) -> (r: Result<Vec<Ipv4Net>, Reply>)
    ensures
        if from_mesh {
            r is Err && r->Err_0@ == mesh_refusal()
        } else {
            view_routes(r) == routes_of(text::views(request.routes@), read_each(text::views(request.routes@)))
        },
{
    match deny_mesh(from_mesh) {
        Ok(()) => read_routes(&request.routes),
        Err(e) => Err(e),
    }
}

/// What a change of the advertised routes is answered with.
pub fn routes_status() -> (r: SystemActionResponse)
    ensures
        r.status@ == "VPN advertised routes updated"@,
{
    SystemActionResponse { status: "VPN advertised routes updated".to_owned() }
}

// ── Gateway mode ─────────────────────────────────────────────────────────────

/// Whether traffic can be forwarded out of an interface: it is not the loopback
/// one and not a tunnel.
pub open spec fn can_forward(name: Seq<char>) -> bool {
    name != "lo"@ && !text::begins_with(name, "kaonic"@) && !text::begins_with(name, "tun"@)
}

/// A network interface of the device.
#[derive(Clone, Debug)]
pub struct NetInterface {
    pub name: String,
    /// Whether it is up.
    pub up: bool,
}

/// The names of the interfaces of a list that are up and that traffic can be forwarded
/// out of.
pub open spec fn forwardable(interfaces: Seq<NetInterface>) -> Seq<Seq<char>> {
    interfaces.filter(|n: NetInterface| n.up && can_forward(n.name@)).map_values(|n: NetInterface| n.name@)
}

/// The interfaces that are up and that traffic can be forwarded out of, in order.
pub fn forwardable_interfaces(interfaces: &[NetInterface]) -> (r: Vec<String>)
    ensures
        order::in_order(text::views(r@)),
        text::views(r@).to_multiset() == forwardable(interfaces@).to_multiset(),
{
    let ghost pred = |n: NetInterface| n.up && can_forward(n.name@);
    let mut out: Vec<String> = Vec::new();
    let mut i: usize = 0;
    proof {
        reveal(Seq::filter);
        assert(text::views(out@) =~= forwardable(interfaces@.take(0)));
    }
    while i < interfaces.len()
        invariant
            pred == (|n: NetInterface| n.up && can_forward(n.name@)),
            i <= interfaces@.len(),
            text::views(out@) == forwardable(interfaces@.take(i as int)),
        decreases interfaces@.len() - i,
    {
        let ghost before = text::views(out@);
        let ghost kept = interfaces@.take(i as int).filter(pred);
        proof {
            reveal(Seq::filter);
            assert(interfaces@.take(i + 1).drop_last() =~= interfaces@.take(i as int));
            assert(interfaces@.take(i + 1).last() == interfaces@[i as int]);
        }
        let name = interfaces[i].name.as_str();
        if interfaces[i].up && !same(name, "lo") && !starts_with(name, "kaonic") && !starts_with(name, "tun") {
            out.push(interfaces[i].name.clone());
            proof {
                assert(text::views(out@) =~= before.push(interfaces@[i as int].name@));
                assert(kept.push(interfaces@[i as int]).map_values(|n: NetInterface| n.name@) =~= before.push(
                    interfaces@[i as int].name@,
                ));
            }
        }
        i += 1;
    }
    proof {
        assert(interfaces@.take(i as int) =~= interfaces@);
    }
    sort(out)
}

/// The interface that a request names: nothing where it is left out or blank.
pub open spec fn egress_of(name: Option<Seq<char>>) -> Option<Seq<char>> {
    match name {
        Some(s) => if text::trimmed(s).len() > 0 {
            Some(text::trimmed(s))
        } else {
            None
        },
        None => None,
    }
}

/// Why gateway mode is refused, if so, given what its routes were read as and the
/// interfaces that there are.
pub open spec fn gateway_refusal(
    from_mesh: bool,
    request: PutVpnGatewayRequest,
    routes: Result<Seq<(Seq<u8>, u8)>, (u16, Seq<char>)>,
    interfaces: Seq<NetInterface>,
) -> Option<(u16, Seq<char>)> {
    let egress = egress_of(text::view_opt(request.egress_interface));
    if from_mesh {
        Some(mesh_refusal())
    } else if routes is Err {
        Some(routes->Err_0)
    } else if request.enabled && routes->Ok_0.len() == 0 {
        Some((BAD_REQUEST, "list at least one destination to forward (0.0.0.0/0 shares the full uplink)"@))
    } else if egress is Some && !forwardable(interfaces).contains(egress->0) {
        Some((BAD_REQUEST, "'"@ + egress->0 + "' is not an interface this node can forward out of"@))
    } else {
        None
    }
}

/// A list in another order holds the same texts.
proof fn lemma_same_texts(a: Seq<Seq<char>>, b: Seq<Seq<char>>, s: Seq<char>)
    requires
        a.to_multiset() == b.to_multiset(),
    ensures
        a.contains(s) == b.contains(s),
{
    broadcast use vstd::seq_lib::group_to_multiset_ensures;

    assert(a.contains(s) <==> a.to_multiset().count(s) > 0);
    assert(b.contains(s) <==> b.to_multiset().count(s) > 0);
}

/// Decides about gateway mode, given what its routes were read as and the
/// interfaces that there are.
pub fn plan_gateway(
    from_mesh: bool,
    request: &PutVpnGatewayRequest,
    routes: Result<Vec<Ipv4Net>, Reply>,
    interfaces: &[NetInterface],
) -> (r: Result<VpnGatewayConfig, Reply>)
    ensures
        match r {
            Ok(c) => {
                &&& gateway_refusal(from_mesh, *request, view_routes(routes), interfaces@) is None
                &&& c.enabled == request.enabled
                &&& text::view_opt(c.egress_interface) == egress_of(text::view_opt(request.egress_interface))
                &&& routes == Ok::<Vec<Ipv4Net>, Reply>(c.routes)
            },
            Err(e) => gateway_refusal(from_mesh, *request, view_routes(routes), interfaces@) == Some(e@),
        },
{
    match deny_mesh(from_mesh) {
        Ok(()) => {},
        Err(e) => {
            return Err(e);
        },
    }
    let routes = match routes {
        Ok(routes) => routes,
        Err(e) => {
            return Err(e);
        },
    };
    if request.enabled && routes.len() == 0 {
        return Err(
            reply(BAD_REQUEST, "list at least one destination to forward (0.0.0.0/0 shares the full uplink)"),
        );
    }
    let egress = match &request.egress_interface {
        Some(name) => {
            let name = trim(name.as_str());
            if is_empty(name.as_str()) {
                None
            } else {
                Some(name)
            }
        },
        None => None,
    };
    if let Some(name) = &egress {
        let known = forwardable_interfaces(interfaces);
        proof {
            lemma_same_texts(text::views(known@), forwardable(interfaces@), name@);
        }
        if !list_contains(&known, name.as_str()) {
            return Err(
                reply_with(
                    BAD_REQUEST,
                    cat3("'", name.as_str(), "' is not an interface this node can forward out of"),
                ),
            );
        }
    }
    Ok(VpnGatewayConfig { enabled: request.enabled, egress_interface: egress, routes })
}

/// Decides about gateway mode that was asked for.
pub fn put_vpn_gateway(from_mesh: bool, request: &PutVpnGatewayRequest, interfaces: &[NetInterface]) -> (r: Result<
    VpnGatewayConfig,
    Reply,
>)
    ensures
        ({
            let routes = routes_of(text::views(request.routes@), read_each(text::views(request.routes@)));
            match r {
                Ok(c) => {
                    &&& gateway_refusal(from_mesh, *request, routes, interfaces@) is None
                    &&& c.enabled == request.enabled
                    &&& text::view_opt(c.egress_interface) == egress_of(text::view_opt(request.egress_interface))
                    &&& routes == Ok::<Seq<(Seq<u8>, u8)>, (u16, Seq<char>)>(net_views(c.routes@))
                },
                Err(e) => gateway_refusal(from_mesh, *request, routes, interfaces@) == Some(e@),
            }
        }),
{
    let routes = read_routes(&request.routes);
    plan_gateway(from_mesh, request, routes, interfaces)
}

/// Gateway mode never forwards out of an interface that is down, the loopback interface
/// or a tunnel.
pub proof fn law_gateway_egress_is_forwardable(
    from_mesh: bool,
    request: PutVpnGatewayRequest,
    routes: Result<Seq<(Seq<u8>, u8)>, (u16, Seq<char>)>,
    interfaces: Seq<NetInterface>,
)
    requires
        gateway_refusal(from_mesh, request, routes, interfaces) is None,
        egress_of(text::view_opt(request.egress_interface)) is Some,
    ensures
        can_forward(egress_of(text::view_opt(request.egress_interface))->0),
        exists|i: int|
            0 <= i < interfaces.len() && (#[trigger] interfaces[i]).up && interfaces[i].name@ == egress_of(
                text::view_opt(request.egress_interface),
            )->0,
{
    let egress = egress_of(text::view_opt(request.egress_interface))->0;
    let pred = |n: NetInterface| n.up && can_forward(n.name@);
    let kept = interfaces.filter(pred);
    interfaces.filter_lemma(pred);
    let i = choose|i: int| 0 <= i < forwardable(interfaces).len() && forwardable(interfaces)[i] == egress;
    assert(pred(kept[i]));
    assert(kept.contains(kept[i]));
    interfaces.lemma_filter_contains_rev(pred, kept[i]);
    let j = choose|j: int| 0 <= j < interfaces.len() && interfaces[j] == kept[i];
    assert(interfaces[j].up);
}

/// What the tunnel says of gateway mode.
#[derive(Clone, Debug)]
pub struct LiveGateway {
    pub enabled: bool,
    pub active: bool,
    pub egress_interface: Option<String>,
    pub routes: Vec<String>,
    pub detail: Option<String>,
}

/// Gateway mode as it is shown: what the tunnel says of it, with the interfaces that can
/// be picked.
pub fn get_vpn_gateway(live: LiveGateway, interfaces: &[NetInterface]) -> (r: VpnGatewayResponse)
    ensures
        r.enabled == live.enabled,
        r.active == live.active,
        r.egress_interface == live.egress_interface,
        r.routes == live.routes,
        r.detail == live.detail,
        order::in_order(text::views(r.available_interfaces@)),
        text::views(r.available_interfaces@).to_multiset() == forwardable(interfaces@).to_multiset(),
{
    VpnGatewayResponse {
        enabled: live.enabled,
        active: live.active,
        egress_interface: live.egress_interface,
        routes: live.routes,
        detail: live.detail,
        available_interfaces: forwardable_interfaces(interfaces),
    }
}

/// What a change of gateway mode is answered with.
pub fn gateway_status(enabled: bool) -> (r: SystemActionResponse)
    ensures
        r.status@ == if enabled {
            "VPN gateway mode enabled"@
        } else {
            "VPN gateway mode disabled"@
        },
{
    SystemActionResponse {
        status: if enabled {
            "VPN gateway mode enabled".to_owned()
        } else {
            "VPN gateway mode disabled".to_owned()
        },
    }
}

// ── Access ───────────────────────────────────────────────────────────────────

/// A peer of the list in its normal form, or the complaint about it.
pub open spec fn peer_of(peer: Seq<char>) -> Result<Seq<char>, (u16, Seq<char>)> {
    let raw = text::trimmed(peer);
    if raw.len() == 0 {
        Err((BAD_REQUEST, "peer hash is required"@))
    } else if text::byte_len(raw) < 32 {
        Err((BAD_REQUEST, "invalid peer hash '"@ + raw + "': IncorrectHash"@))
    } else {
        Ok(digits::hex_of(mesh::hash_bytes(raw)))
    }
}

/// Whether every peer up to the first that is complained about can be read: it is
/// too short for an address, or starts with the digits of one.
pub open spec fn peers_readable(peers: Seq<Seq<char>>) -> bool
    decreases peers.len(),
{
    peers.len() == 0 || {
        &&& mesh::hash_readable(text::trimmed(peers[0]))
        &&& peer_of(peers[0]) is Err || peers_readable(peers.skip(1))
    }
}

/// Whether every peer up to the first that is complained about can be read.
pub fn are_peers_readable(peers: &[String]) -> (r: bool)
    ensures
        r == peers_readable(text::views(peers@)),
{
    let ghost pv = text::views(peers@);
    let mut i: usize = 0;
    proof {
        assert(pv.skip(0) =~= pv);
    }
    while i < peers.len()
        invariant
            pv == text::views(peers@),
            i <= peers@.len(),
            peers_readable(pv) == peers_readable(pv.skip(i as int)),
        decreases peers@.len() - i,
    {
        let ghost rest = pv.skip(i as int);
        proof {
            assert(rest[0] == peers@[i as int]@);
            assert(rest.skip(1) =~= pv.skip(i + 1));
        }
        let raw = trim(peers[i].as_str());
        if !mesh::is_hash_readable(raw.as_str()) {
            return false;
        }
        if is_empty(raw.as_str()) || AddressHash::new_from_hex_string(raw.as_str()).is_err() {
            return true;
        }
        i += 1;
    }
    true
}

/// The complaint about the first peer of a list that is no address.
pub open spec fn peers_complaint(peers: Seq<Seq<char>>) -> Option<(u16, Seq<char>)>
    decreases peers.len(),
{
    if peers.len() == 0 {
        None
    } else {
        match peer_of(peers[0]) {
            Err(e) => Some(e),
            Ok(_) => peers_complaint(peers.skip(1)),
        }
    }
}

/// Whether a text is the normal form of one of the peers.
pub open spec fn is_normal_peer(peers: Seq<Seq<char>>, s: Seq<char>) -> bool {
    exists|i: int| 0 <= i < peers.len() && peer_of(#[trigger] peers[i]) == Ok::<Seq<char>, (u16, Seq<char>)>(s)
}

/// Puts the peers of a list into their normal form, in order and without doubles.
/// The complaint is about the first that is no address.
pub fn normalize_vpn_peer_hashes(peers: &[String]) -> (r: Result<Vec<String>, Reply>)
    requires
        peers_readable(text::views(peers@)),
    ensures
        match r {
            Ok(list) => {
                &&& peers_complaint(text::views(peers@)) is None
                &&& order::ascending(text::views(list@))
                &&& forall|s: Seq<char>| #[trigger]
                    text::views(list@).contains(s) <==> is_normal_peer(text::views(peers@), s)
            },
            Err(e) => peers_complaint(text::views(peers@)) == Some(e@),
        },
{
    let ghost pv = text::views(peers@);
    let mut out: Vec<String> = Vec::new();
    let mut i: usize = 0;
    proof {
        assert(pv.skip(0) =~= pv);
    }
    while i < peers.len()
        invariant
            pv == text::views(peers@),
            i <= peers@.len(),
            out@.len() == i,
            peers_readable(pv.skip(i as int)),
            peers_complaint(pv) == peers_complaint(pv.skip(i as int)),
            forall|k: int|
                0 <= k < i ==> peer_of(#[trigger] pv[k]) == Ok::<Seq<char>, (u16, Seq<char>)>(out@[k]@),
        decreases peers@.len() - i,
    {
        let ghost rest = pv.skip(i as int);
        proof {
            assert(rest[0] == peers@[i as int]@);
            assert(rest.skip(1) =~= pv.skip(i + 1));
            assert(pv[i as int] == peers@[i as int]@);
        }
        let raw = trim(peers[i].as_str());
        if is_empty(raw.as_str()) {
            return Err(reply(BAD_REQUEST, "peer hash is required"));
        }
        match AddressHash::new_from_hex_string(raw.as_str()) {
            Ok(hash) => {
                out.push(hash.to_hex_string());
            },
            Err(HashError::IncorrectHash) => {
                return Err(reply_with(BAD_REQUEST, cat3("invalid peer hash '", raw.as_str(), "': IncorrectHash")));
            },
        }
        i += 1;
    }
    let sorted = sort_dedup(&out);
    proof {
        let ov = text::views(out@);
        assert forall|s: Seq<char>| #[trigger] text::views(sorted@).contains(s) <==> is_normal_peer(pv, s) by {
            if ov.contains(s) {
                let k = choose|k: int| 0 <= k < ov.len() && ov[k] == s;
                assert(peer_of(pv[k]) == Ok::<Seq<char>, (u16, Seq<char>)>(out@[k]@));
            }
            if is_normal_peer(pv, s) {
                let k = choose|k: int|
                    0 <= k < pv.len() && peer_of(#[trigger] pv[k]) == Ok::<Seq<char>, (u16, Seq<char>)>(s);
                assert(ov[k] == s);
            }
        }
    }
    Ok(sorted)
}

/// Whether a text is an address in its normal form: 32 hexadecimal digits in lower case.
pub open spec fn is_normal_form(s: Seq<char>) -> bool {
    s.len() == 32 && digits::all_hex(s) && text::ascii_lowered(s) == s
}

/// A list in its normal form stays as it is: it is accepted, and it is the list in order
/// and without doubles of the normal forms of its own peers.
pub proof fn law_normal_peers_are_stable(list: Seq<Seq<char>>)
    requires
        order::ascending(list),
        forall|i: int| 0 <= i < list.len() ==> is_normal_form(#[trigger] list[i]),
    ensures
        peers_readable(list),
        peers_complaint(list) is None,
        forall|s: Seq<char>| #[trigger] is_normal_peer(list, s) <==> list.contains(s),
{
    assert forall|i: int| 0 <= i < list.len() implies peer_of(#[trigger] list[i]) == Ok::<Seq<char>, (u16, Seq<char>)>(
        list[i],
    ) && mesh::hash_readable(text::trimmed(list[i])) by {
        lemma_normal_form(list[i]);
    }
    lemma_no_complaint(list);
    assert forall|s: Seq<char>| #[trigger] is_normal_peer(list, s) <==> list.contains(s) by {
        if list.contains(s) {
            let i = choose|i: int| 0 <= i < list.len() && list[i] == s;
            assert(peer_of(list[i]) == Ok::<Seq<char>, (u16, Seq<char>)>(s));
        }
    }
}

proof fn lemma_normal_form(s: Seq<char>)
    requires
        is_normal_form(s),
    ensures
        peer_of(s) == Ok::<Seq<char>, (u16, Seq<char>)>(s),
        mesh::hash_readable(text::trimmed(s)),
{
    assert(digits::hex_value(s[0]) is Some);
    assert(digits::hex_value(s[31]) is Some);
    text::lemma_trim_plain(s);
    mesh::law_hash_text_normalises(s);
}

proof fn lemma_no_complaint(list: Seq<Seq<char>>)
    requires
        forall|i: int|
            0 <= i < list.len() ==> peer_of(#[trigger] list[i]) is Ok && mesh::hash_readable(text::trimmed(list[i])),
    ensures
        peers_readable(list),
        peers_complaint(list) is None,
    decreases list.len(),
{
    if list.len() > 0 {
        let rest = list.skip(1);
        assert forall|i: int| 0 <= i < rest.len() implies peer_of(#[trigger] rest[i]) is Ok && mesh::hash_readable(
            text::trimmed(rest[i]),
        ) by {
            assert(peer_of(list[i + 1]) is Ok);
        }
        lemma_no_complaint(rest);
        assert(peer_of(list[0]) is Ok);
    }
}

/// Decides who may join.
pub fn put_vpn_access(from_mesh: bool, request: &PutVpnAccessRequest) -> (r: Result<Vec<String>, Reply>)
    requires
        !from_mesh ==> peers_readable(text::views(request.peers@)),
    ensures
        match r {
            Ok(list) => {
                &&& !from_mesh
                &&& peers_complaint(text::views(request.peers@)) is None
                &&& order::ascending(text::views(list@))
                &&& forall|s: Seq<char>| #[trigger]
                    text::views(list@).contains(s) <==> is_normal_peer(text::views(request.peers@), s)
            },
            Err(e) => if from_mesh {
                e@ == mesh_refusal()
            } else {
                peers_complaint(text::views(request.peers@)) == Some(e@)
            },
        },
{
    match deny_mesh(from_mesh) {
        Ok(()) => normalize_vpn_peer_hashes(&request.peers),
        Err(e) => Err(e),
    }
}

/// The answer when a new access policy is kept but cannot be put into force.
pub fn policy_failed(err: &str) -> (r: Reply)
    ensures
        r@ == (BAD_REQUEST, "failed to apply VPN peer policy: "@ + err@),
{
    reply_with(BAD_REQUEST, cat2("failed to apply VPN peer policy: ", err))
}

/// What a change of access is answered with.
pub fn access_status(allow_all_peers: bool, peers: Vec<String>) -> (r: VpnAccessResponse)
    ensures
        r.status@ == if allow_all_peers {
            "VPN access updated (allow all peers)"@
        } else {
            "VPN access updated (allowlist only)"@
        },
        r.allow_all_peers == allow_all_peers,
        r.peers == peers,
{
    VpnAccessResponse {
        status: if allow_all_peers {
            "VPN access updated (allow all peers)".to_owned()
        } else {
            "VPN access updated (allowlist only)".to_owned()
        },
        allow_all_peers,
        peers,
    }
}

// ── What the tunnel reaches ──────────────────────────────────────────────────

/// A route that another node announced.
#[derive(Clone, Debug)]
pub struct RemoteRoute {
    pub network: String,
    pub installed: bool,
}

#[derive(Clone, Debug)]
pub struct VpnRoutesResponse {
    pub tunnel_ip: Option<String>,
    /// The routes that are announced to peers.
    pub exported_routes: Vec<String>,
    /// The networks of remote peers that are reached through the tunnel now.
    pub remote_installed: Vec<String>,
}

/// The networks of the routes that are in force.
pub open spec fn installed_networks(routes: Seq<RemoteRoute>) -> Seq<Seq<char>>
    decreases routes.len(),
{
    if routes.len() == 0 {
        Seq::empty()
    } else {
        let before = installed_networks(routes.drop_last());
        if routes.last().installed {
            before.push(routes.last().network@)
        } else {
            before
        }
    }
}

/// What the tunnel reaches.
pub fn get_vpn_routes(tunnel_ip: Option<String>, local_routes: Vec<String>, remote_routes: &[RemoteRoute]) -> (r:
    VpnRoutesResponse)
    ensures
        r.tunnel_ip == tunnel_ip,
        r.exported_routes == local_routes,
        text::views(r.remote_installed@) == installed_networks(remote_routes@),
{
    let mut out: Vec<String> = Vec::new();
    let mut i: usize = 0;
    proof {
        assert(text::views(out@) =~= installed_networks(remote_routes@.take(0)));
    }
    while i < remote_routes.len()
        invariant
            i <= remote_routes@.len(),
            text::views(out@) == installed_networks(remote_routes@.take(i as int)),
        decreases remote_routes@.len() - i,
    {
        let ghost before = text::views(out@);
        proof {
            assert(remote_routes@.take(i + 1).drop_last() =~= remote_routes@.take(i as int));
            assert(remote_routes@.take(i + 1).last() == remote_routes@[i as int]);
        }
        if remote_routes[i].installed {
            out.push(remote_routes[i].network.clone());
            proof {
                assert(text::views(out@) =~= before.push(remote_routes@[i as int].network@));
            }
        }
        i += 1;
    }
    proof {
        assert(remote_routes@.take(i as int) =~= remote_routes@);
    }
    VpnRoutesResponse { tunnel_ip, exported_routes: local_routes, remote_installed: out }
}

// ── What the tunnel's settings come to ───────────────────────────────────────

/// Nothing about the tunnel is changed over the tunnel: where it routes, what it forwards, what it
/// advertises and who may join are refused to whoever asks from the mesh, before anything else is
/// looked at.
pub proof fn law_the_mesh_changes_nothing(
    uplink: &PutVpnUplinkRequest,
    paired: &[PairedNode],
    hash: Option<String>,
    r1: Result<UplinkPlan, Reply>,
    routes: &PutVpnRoutesRequest,
    r2: Result<Vec<Ipv4Net>, Reply>,
    gateway: &PutVpnGatewayRequest,
    interfaces: &[NetInterface],
    r3: Result<VpnGatewayConfig, Reply>,
    access: &PutVpnAccessRequest,
    r4: Result<Vec<String>, Reply>,
)
    requires
        call_ensures(put_vpn_uplink, (true, uplink, paired, hash), r1),
        call_ensures(put_vpn_routes, (true, routes), r2),
        call_ensures(put_vpn_gateway, (true, gateway, interfaces), r3),
        call_ensures(put_vpn_access, (true, access), r4),
    ensures
        r1 is Err && r1->Err_0@.0 == 403,
        r2 is Err && r2->Err_0@.0 == 403,
        r3 is Err && r3->Err_0@.0 == 403,
        r4 is Err && r4->Err_0@.0 == 403,
{
}

/// Of several nodes with an address the first is found, and one is found wherever there is one.
pub proof fn law_first_node_is_found<'a>(paired: &'a [PairedNode], hash: &str, r: Option<&'a PairedNode>, i: int)
    requires
        call_ensures(find_node, (paired, hash), r),
    ensures
        0 <= i < paired@.len() && paired@[i].identity_hash@ == hash@ ==> r is Some,
        ({
            &&& 0 <= i < paired@.len()
            &&& paired@[i].identity_hash@ == hash@
            &&& forall|j: int| 0 <= j < i ==> (#[trigger] paired@[j]).identity_hash@ != hash@
        }) ==> *r->0 == paired@[i],
        r matches Some(n) ==> n.identity_hash@ == hash@ && paired@.contains(*n),
{
    lemma_first_node(paired@, hash@, i);
}

proof fn lemma_first_node(paired: Seq<PairedNode>, hash: Seq<char>, i: int)
    ensures
        0 <= i < paired.len() && paired[i].identity_hash@ == hash ==> node_with(paired, hash) is Some,
        0 <= i < paired.len() && paired[i].identity_hash@ == hash && (forall|j: int|
            0 <= j < i ==> (#[trigger] paired[j]).identity_hash@ != hash) ==> node_with(paired, hash) == Some(paired[i]),
        node_with(paired, hash) matches Some(n) ==> n.identity_hash@ == hash && paired.contains(n),
    decreases paired.len(),
{
    if paired.len() > 0 {
        if paired[0].identity_hash@ != hash {
            let rest = paired.skip(1);
            lemma_first_node(rest, hash, i - 1);
            if 0 < i < paired.len() {
                assert(rest[i - 1] == paired[i]);
            }
            if 0 < i < paired.len() && (forall|j: int| 0 <= j < i ==> (#[trigger] paired[j]).identity_hash@ != hash) {
                assert forall|j: int| 0 <= j < i - 1 implies (#[trigger] rest[j]).identity_hash@ != hash by {
                    assert(paired[j + 1].identity_hash@ != hash);
                }
            }
            if let Some(n) = node_with(rest, hash) {
                let k = choose|k: int| 0 <= k < rest.len() && rest[k] == n;
                assert(paired[k + 1] == n);
            }
        } else {
            assert(paired.contains(paired[0]));
        }
    }
}

/// An uplink is granted at the device exactly where it is switched off, or the node that was selected has
/// a 32-digit hexadecimal address, was paired, and has its keys on file. The node is kept as it was
/// selected, and routed through by its address in the tunnel.
pub proof fn law_uplinks_are_granted_to_paired_nodes(
    enabled: bool,
    selected: Option<String>,
    paired: &[PairedNode],
    tunnel_hash: Option<String>,
    r: Result<UplinkPlan, Reply>,
)
    requires
        call_ensures(plan_uplink, (false, enabled, selected, paired, tunnel_hash), r),
    ensures
        r is Ok <==> !enabled || {
            &&& selected is Some
            &&& selected->0@.len() == 32 && digits::all_hex(selected->0@)
            &&& exists|i: int| 0 <= i < paired@.len() && (#[trigger] paired@[i]).identity_hash@ == selected->0@
            &&& tunnel_hash is Some
        },
        r matches Ok(plan) ==> {
            &&& plan.saved.enabled == enabled && plan.saved.peer == selected
            &&& plan.applied.enabled == enabled && plan.applied.peer == tunnel_hash
        },
        r matches Err(e) ==> e@.0 == 400,
{
    if let Some(s) = selected {
        if digits::all_hex(s@) {
            assert forall|i: int| 0 <= i < s@.len() implies (#[trigger] s@[i] as u32) < 128 by {
                assert(digits::hex_value(s@[i]) is Some);
            }
            text::lemma_ascii_byte_len(s@);
        }
        if exists|i: int| 0 <= i < paired@.len() && (#[trigger] paired@[i]).identity_hash@ == s@ {
            let i = choose|i: int| 0 <= i < paired@.len() && (#[trigger] paired@[i]).identity_hash@ == s@;
            lemma_node_is_found(paired@, i);
        }
        if node_with(paired@, s@) is Some {
            lemma_node_with(paired@, s@);
        }
    }
}

/// A request selects the node whose address it holds, without white space around it and in lower case,
/// and what it asks for is decided as for that node; a blank selects none.
pub proof fn law_selection_is_in_lower_case(request: &PutVpnUplinkRequest, r: Option<String>)
    requires
        call_ensures(selected_peer, (request,), r),
    ensures
        request.peer is None ==> r is None,
        request.peer matches Some(p) ==> text::lowercase_of(text::trimmed(p@)) == text::ascii_lowered(text::trimmed(p@)) ==> {
            &&& r is None <==> text::trimmed(p@).len() == 0
            &&& r is Some ==> r->0@ == text::ascii_lowered(text::trimmed(p@))
        },
{
    if let Some(p) = request.peer {
        assert(text::ascii_lowered(text::trimmed(p@)).len() == text::trimmed(p@).len());
    }
}

/// The uplink is shown as the tunnel has it, with the node and the node's name, where it has one.
pub proof fn law_uplink_is_shown_as_it_is(live: LiveUplink, peer: Option<String>, paired: &[PairedNode], r: VpnUplinkResponse, i: int)
    requires
        call_ensures(get_vpn_uplink, (live, peer, paired), r),
    ensures
        r.enabled == live.enabled && r.active == live.active && r.default_route == live.default_route,
        r.routes == live.routes && r.detail == live.detail && r.peer == peer,
        peer is None ==> r.peer_codename is None,
        ({
            &&& peer is Some && 0 <= i < paired@.len()
            &&& paired@[i].identity_hash@ == peer->0@
            &&& forall|j: int| 0 <= j < i ==> (#[trigger] paired@[j]).identity_hash@ != peer->0@
        }) ==> text::view_opt(r.peer_codename) == if paired@[i].codename@.len() > 0 {
            Some(paired@[i].codename@)
        } else {
            None
        },
        ({
            &&& peer is Some
            &&& forall|j: int| 0 <= j < paired@.len() ==> (#[trigger] paired@[j]).identity_hash@ != peer->0@
        }) ==> r.peer_codename is None,
{
    if let Some(p) = peer {
        lemma_first_node(paired@, p@, i);
        if forall|j: int| 0 <= j < paired@.len() ==> (#[trigger] paired@[j]).identity_hash@ != p@ {
            if node_with(paired@, p@) is Some {
                lemma_node_with(paired@, p@);
            }
        }
    }
}

/// Routes are taken over one for one, in their order, where all of them could be read; otherwise the
/// first that could not is complained about, by its own text and error.
pub proof fn law_routes_are_read_one_for_one(texts: &[String], parsed: &[Result<Ipv4Net, String>], r: Result<Vec<Ipv4Net>, Reply>, i: int)
    requires
        texts@.len() == parsed@.len(),
        call_ensures(collect_routes, (texts, parsed), r),
    ensures
        r is Ok <==> forall|k: int| 0 <= k < parsed@.len() ==> (#[trigger] parsed@[k]) is Ok,
        r matches Ok(nets) ==> nets@.len() == parsed@.len() && (0 <= i < nets@.len() ==> nets@[i]@ == parsed@[i]->Ok_0@),
        ({
            &&& 0 <= i < parsed@.len()
            &&& parsed@[i] is Err
            &&& forall|k: int| 0 <= k < i ==> (#[trigger] parsed@[k]) is Ok
        }) ==> r is Err && r->Err_0@ == (
            400u16,
            "invalid route '"@ + texts@[i]@ + "': "@ + parsed@[i]->Err_0@,
        ),
{
    let tv = text::views(texts@);
    let pv = parsed_views(parsed@);
    lemma_routes_of(tv, pv, i);
    assert forall|k: int| 0 <= k < parsed@.len() implies (#[trigger] parsed@[k] is Ok <==> pv[k] is Ok) by {}
    assert((forall|k: int| 0 <= k < pv.len() ==> (#[trigger] pv[k]) is Ok) <==> (forall|k: int|
        0 <= k < parsed@.len() ==> (#[trigger] parsed@[k]) is Ok)) by {
        if forall|k: int| 0 <= k < pv.len() ==> (#[trigger] pv[k]) is Ok {
            assert forall|k: int| 0 <= k < parsed@.len() implies (#[trigger] parsed@[k]) is Ok by {
                assert(pv[k] is Ok);
            }
        }
    }
    if let Ok(nets) = r {
        let nv = net_views(nets@);
        assert(nv.len() == nets@.len());
        if 0 <= i < nets@.len() {
            assert(nv[i] == nets@[i]@);
            assert(parsed@[i] is Ok);
        }
    }
    if 0 <= i < parsed@.len() && parsed@[i] is Err && (forall|k: int| 0 <= k < i ==> (#[trigger] parsed@[k]) is Ok) {
        assert forall|k: int| 0 <= k < i implies (#[trigger] pv[k]) is Ok by {
            assert(parsed@[k] is Ok);
        }
        assert(tv[i] == texts@[i]@);
    }
}

/// What reading routes gives, place by place.
proof fn lemma_routes_of(texts: Seq<Seq<char>>, parsed: Seq<Result<(Seq<u8>, u8), Seq<char>>>, i: int)
    requires
        texts.len() == parsed.len(),
    ensures
        routes_of(texts, parsed) is Ok <==> forall|k: int| 0 <= k < parsed.len() ==> (#[trigger] parsed[k]) is Ok,
        routes_of(texts, parsed) matches Ok(nets) ==> nets.len() == parsed.len() && (0 <= i < nets.len() ==> nets[i]
            == parsed[i]->Ok_0),
        0 <= i < parsed.len() && parsed[i] is Err && (forall|k: int| 0 <= k < i ==> (#[trigger] parsed[k]) is Ok)
            ==> routes_of(texts, parsed) == Err::<Seq<(Seq<u8>, u8)>, (u16, Seq<char>)>(
            route_complaint(texts[i], parsed[i]->Err_0),
        ),
    decreases texts.len(),
{
    if texts.len() > 0 {
        let pf = parsed.drop_last();
        let tf = texts.drop_last();
        lemma_routes_of(tf, pf, i);
        assert forall|k: int| 0 <= k < pf.len() implies pf[k] == #[trigger] parsed[k] by {}
        if forall|k: int| 0 <= k < pf.len() ==> (#[trigger] pf[k]) is Ok {
            assert forall|k: int| 0 <= k < parsed.len() - 1 implies (#[trigger] parsed[k]) is Ok by {
                assert(pf[k] is Ok);
            }
        }
        if 0 <= i < parsed.len() && (forall|k: int| 0 <= k < i ==> (#[trigger] parsed[k]) is Ok) {
            assert forall|k: int| 0 <= k < i && k < pf.len() implies (#[trigger] pf[k]) is Ok by {
                assert(parsed[k] is Ok);
            }
        }
        assert(parsed[parsed.len() - 1] == parsed.last());
    }
}

/// The routes of a request are its texts, each read without white space around it.
pub proof fn law_requested_routes_are_its_texts(request: &PutVpnRoutesRequest, r: Result<Vec<Ipv4Net>, Reply>, i: int)
    requires
        call_ensures(put_vpn_routes, (false, request), r),
        0 <= i < request.routes@.len(),
    ensures
        r matches Ok(nets) ==> {
            &&& nets@.len() == request.routes@.len()
            &&& route::cidr_of(text::trimmed(request.routes@[i]@)) == Ok::<(Seq<u8>, u8), Seq<char>>(nets@[i]@)
        },
        r is Err ==> exists|k: int|
            0 <= k < request.routes@.len() && route::cidr_of(text::trimmed((#[trigger] request.routes@[k])@)) is Err,
{
    let tv = text::views(request.routes@);
    let pv = read_each(tv);
    lemma_routes_of(tv, pv, i);
    if let Ok(nets) = r {
        let nv = net_views(nets@);
        assert(nv.len() == nets@.len());
        assert(nv[i] == nets@[i]@);
        assert(pv[i] is Ok);
    } else {
        let k = choose|k: int| 0 <= k < pv.len() && !((#[trigger] pv[k]) is Ok);
        assert(tv[k] == request.routes@[k]@);
    }
}

/// Traffic can be forwarded out of exactly the interfaces that are up, are not the loopback interface and
/// are no tunnel; they are offered in order, each as often as it is there.
pub proof fn law_interfaces_to_forward_out_of(interfaces: &[NetInterface], r: Vec<String>, name: Seq<char>)
    requires
        call_ensures(forwardable_interfaces, (interfaces,), r),
    ensures
        text::views(r@).contains(name) <==> {
            &&& exists|i: int| 0 <= i < interfaces@.len() && (#[trigger] interfaces@[i]).up && interfaces@[i].name@ == name
            &&& name != "lo"@
            &&& !text::begins_with(name, "kaonic"@)
            &&& !text::begins_with(name, "tun"@)
        },
        order::in_order(text::views(r@)),
{
    let pred = |n: NetInterface| n.up && can_forward(n.name@);
    let kept = interfaces@.filter(pred);
    let names = forwardable(interfaces@);
    lemma_same_texts(text::views(r@), names, name);
    interfaces@.filter_lemma(pred);
    if names.contains(name) {
        let i = choose|i: int| 0 <= i < names.len() && names[i] == name;
        assert(pred(kept[i]));
        assert(kept.contains(kept[i]));
        interfaces@.lemma_filter_contains_rev(pred, kept[i]);
        let j = choose|j: int| 0 <= j < interfaces@.len() && interfaces@[j] == kept[i];
        assert(interfaces@[j].up && interfaces@[j].name@ == name);
    }
    if (exists|i: int| 0 <= i < interfaces@.len() && (#[trigger] interfaces@[i]).up && interfaces@[i].name@ == name)
        && can_forward(name) {
        let i = choose|i: int| 0 <= i < interfaces@.len() && (#[trigger] interfaces@[i]).up && interfaces@[i].name@ == name;
        assert(pred(interfaces@[i]));
        assert(kept.contains(interfaces@[i]));
        let j = choose|j: int| 0 <= j < kept.len() && kept[j] == interfaces@[i];
        assert(names[j] == name);
    }
}

/// Gateway mode is granted at the device exactly where its routes could be read, there is at least one of
/// them unless it is switched off, and the interface, where one is named, is one to forward out of. What
/// was asked for is what is kept.
pub proof fn law_gateway_mode_needs_routes_and_a_way_out(
    request: &PutVpnGatewayRequest,
    routes: Result<Vec<Ipv4Net>, Reply>,
    interfaces: &[NetInterface],
    r: Result<VpnGatewayConfig, Reply>,
    known: Vec<String>,
)
    requires
        call_ensures(plan_gateway, (false, request, routes, interfaces), r),
        call_ensures(forwardable_interfaces, (interfaces,), known),
    ensures
        ({
            let named = request.egress_interface is Some && text::trimmed(request.egress_interface->0@).len() > 0;
            let name = text::trimmed(request.egress_interface->0@);
            &&& r is Ok <==> {
                &&& routes is Ok
                &&& request.enabled ==> routes->Ok_0@.len() > 0
                &&& named ==> text::views(known@).contains(name)
            }
            &&& r matches Ok(c) ==> {
                &&& c.enabled == request.enabled
                &&& routes == Ok::<Vec<Ipv4Net>, Reply>(c.routes)
                &&& !named ==> c.egress_interface is None
                &&& named ==> c.egress_interface is Some && c.egress_interface->0@ == name
            }
            &&& routes is Err ==> r is Err && r->Err_0@ == routes->Err_0@
            &&& routes is Ok && r is Err ==> r->Err_0@.0 == 400
        }),
{
    let name = text::trimmed(request.egress_interface->0@);
    lemma_same_texts(text::views(known@), forwardable(interfaces@), name);
    if routes is Ok {
        assert(net_views(routes->Ok_0@).len() == routes->Ok_0@.len());
    }
}

/// Gateway mode is shown as the tunnel has it, with the interfaces that can be picked.
pub proof fn law_gateway_is_shown_as_it_is(live: LiveGateway, interfaces: &[NetInterface], r: VpnGatewayResponse, known: Vec<String>, s: Seq<char>)
    requires
        call_ensures(get_vpn_gateway, (live, interfaces), r),
        call_ensures(forwardable_interfaces, (interfaces,), known),
    ensures
        r.enabled == live.enabled && r.active == live.active,
        r.egress_interface == live.egress_interface && r.routes == live.routes && r.detail == live.detail,
        text::views(r.available_interfaces@).contains(s) <==> text::views(known@).contains(s),
{
    lemma_same_texts(text::views(r.available_interfaces@), forwardable(interfaces@), s);
    lemma_same_texts(text::views(known@), forwardable(interfaces@), s);
}

/// A peer that is written as 32 hexadecimal digits, with or without white space around them, is kept in
/// lower case; a blank or a text too short for an address is refused.
pub proof fn law_peer_has_one_form(peer: Seq<char>)
    ensures
        ({
            let raw = text::trimmed(peer);
            &&& raw.len() == 32 && digits::all_hex(raw) ==> peer_of(peer) == Ok::<Seq<char>, (u16, Seq<char>)>(
                text::ascii_lowered(raw),
            )
            &&& raw.len() == 0 ==> peer_of(peer) is Err
            &&& text::byte_len(raw) < 32 ==> peer_of(peer) is Err && peer_of(peer)->Err_0.0 == 400
            &&& peer_of(peer) matches Ok(p) ==> p.len() == 32
        }),
{
    let raw = text::trimmed(peer);
    if raw.len() == 32 && digits::all_hex(raw) {
        mesh::law_hash_text_normalises(raw);
    }
    if raw.len() == 0 {
        text::lemma_ascii_byte_len(raw);
    }
}

/// Who may join is exactly who was listed, each once and in order; the list is refused exactly where one
/// on it is no address, with what is said of the first such.
pub proof fn law_who_may_join_is_who_was_listed(request: &PutVpnAccessRequest, r: Result<Vec<String>, Reply>, i: int, j: int)
    requires
        peers_readable(text::views(request.peers@)),
        call_ensures(put_vpn_access, (false, request), r),
    ensures
        r is Ok <==> forall|k: int| 0 <= k < request.peers@.len() ==> peer_of((#[trigger] request.peers@[k])@) is Ok,
        r is Ok && 0 <= i < request.peers@.len() ==> text::views(r->Ok_0@).contains(peer_of(request.peers@[i]@)->Ok_0),
        r is Ok && 0 <= j < r->Ok_0@.len() ==> exists|k: int|
            0 <= k < request.peers@.len() && peer_of((#[trigger] request.peers@[k])@) == Ok::<Seq<char>, (u16, Seq<char>)>(
                r->Ok_0@[j]@,
            ),
        r is Ok && 0 <= i < j < r->Ok_0@.len() ==> order::text_lt(r->Ok_0@[i]@, r->Ok_0@[j]@),
        ({
            &&& 0 <= i < request.peers@.len()
            &&& peer_of(request.peers@[i]@) is Err
            &&& forall|k: int| 0 <= k < i ==> peer_of((#[trigger] request.peers@[k])@) is Ok
        }) ==> r is Err && r->Err_0@ == peer_of(request.peers@[i]@)->Err_0,
{
    let pv = text::views(request.peers@);
    lemma_peers_complaint(pv, i);
    assert forall|k: int| 0 <= k < pv.len() implies pv[k] == (#[trigger] request.peers@[k])@ by {}
    if peers_complaint(pv) is None {
        assert forall|k: int| 0 <= k < request.peers@.len() implies peer_of((#[trigger] request.peers@[k])@) is Ok by {
            assert(peer_of(pv[k]) is Ok);
        }
    }
    if forall|k: int| 0 <= k < request.peers@.len() ==> peer_of((#[trigger] request.peers@[k])@) is Ok {
        assert forall|k: int| 0 <= k < pv.len() implies peer_of(#[trigger] pv[k]) is Ok by {
            assert(peer_of(request.peers@[k]@) is Ok);
        }
    }
    if 0 <= i < pv.len() && (forall|k: int| 0 <= k < i ==> peer_of((#[trigger] request.peers@[k])@) is Ok) {
        assert forall|k: int| 0 <= k < i implies peer_of(#[trigger] pv[k]) is Ok by {
            assert(peer_of(request.peers@[k]@) is Ok);
        }
    }
    if let Ok(list) = r {
        let lv = text::views(list@);
        if 0 <= i < pv.len() {
            assert(peer_of(pv[i]) is Ok);
            assert(is_normal_peer(pv, peer_of(pv[i])->Ok_0));
        }
        if 0 <= j < list@.len() {
            assert(lv[j] == list@[j]@);
            assert(lv.contains(lv[j]));
            assert(is_normal_peer(pv, lv[j]));
            let k = choose|k: int| 0 <= k < pv.len() && peer_of(#[trigger] pv[k]) == Ok::<Seq<char>, (u16, Seq<char>)>(lv[j]);
            assert(pv[k] == request.peers@[k]@);
        }
        if 0 <= i < j < list@.len() {
            assert(lv[i] == list@[i]@);
            assert(order::text_lt(lv[i], lv[j]));
        }
    }
}

/// The complaint about a list is that about its first peer that is no address.
proof fn lemma_peers_complaint(peers: Seq<Seq<char>>, i: int)
    ensures
        peers_complaint(peers) is None <==> forall|k: int| 0 <= k < peers.len() ==> peer_of(#[trigger] peers[k]) is Ok,
        0 <= i < peers.len() && peer_of(peers[i]) is Err && (forall|k: int| 0 <= k < i ==> peer_of(#[trigger] peers[k]) is Ok)
            ==> peers_complaint(peers) == Some(peer_of(peers[i])->Err_0),
    decreases peers.len(),
{
    if peers.len() > 0 && peer_of(peers[0]) is Ok {
        let rest = peers.skip(1);
        lemma_peers_complaint(rest, i - 1);
        assert forall|k: int| 0 <= k < rest.len() implies rest[k] == #[trigger] peers[k + 1] by {}
        if forall|k: int| 0 <= k < rest.len() ==> peer_of(#[trigger] rest[k]) is Ok {
            assert forall|k: int| 0 <= k < peers.len() implies peer_of(#[trigger] peers[k]) is Ok by {
                if k > 0 {
                    assert(peer_of(rest[k - 1]) is Ok);
                }
            }
        }
        if forall|k: int| 0 <= k < peers.len() ==> peer_of(#[trigger] peers[k]) is Ok {
            assert forall|k: int| 0 <= k < rest.len() implies peer_of(#[trigger] rest[k]) is Ok by {
                assert(peer_of(peers[k + 1]) is Ok);
            }
        }
        if 0 < i < peers.len() && (forall|k: int| 0 <= k < i ==> peer_of(#[trigger] peers[k]) is Ok) {
            assert forall|k: int| 0 <= k < i - 1 implies peer_of(#[trigger] rest[k]) is Ok by {
                assert(peer_of(peers[k + 1]) is Ok);
            }
            assert(rest[i - 1] == peers[i]);
        }
    }
}

/// What is answered says whether everybody may join or only who is listed, and lists them.
pub proof fn law_access_is_answered_as_set(all: bool, peers: Vec<String>, r: VpnAccessResponse)
    requires
        call_ensures(access_status, (all, peers), r),
    ensures
        r.allow_all_peers == all && r.peers == peers,
        all ==> r.status@ == "VPN access updated (allow all peers)"@,
        !all ==> r.status@ == "VPN access updated (allowlist only)"@,
{
}

/// The tunnel reaches the networks whose routes are in force, in their order, and announces its own.
pub proof fn law_reached_networks_are_those_in_force(ip: Option<String>, local: Vec<String>, remote: &[RemoteRoute], r: VpnRoutesResponse)
    requires
        call_ensures(get_vpn_routes, (ip, local, remote), r),
    ensures
        r.tunnel_ip == ip && r.exported_routes == local,
        text::views(r.remote_installed@) == remote@.filter(|x: RemoteRoute| x.installed).map_values(
            |x: RemoteRoute| x.network@,
        ),
{
    lemma_installed(remote@);
}

proof fn lemma_installed(routes: Seq<RemoteRoute>)
    ensures
        installed_networks(routes) == routes.filter(|x: RemoteRoute| x.installed).map_values(|x: RemoteRoute| x.network@),
    decreases routes.len(),
{
    reveal(Seq::filter);
    let keep = |x: RemoteRoute| x.installed;
    let name = |x: RemoteRoute| x.network@;
    if routes.len() == 0 {
        assert(routes.filter(keep).map_values(name) =~= Seq::empty());
    } else {
        let before = routes.drop_last();
        lemma_installed(before);
        assert(before.filter(keep).push(routes.last()).map_values(name) =~= before.filter(keep).map_values(name).push(
            name(routes.last()),
        ));
    }
}

/// Whoever asks from the mesh is refused, and nobody else is.
pub proof fn law_mesh_is_denied(from_mesh: bool, r: Result<(), Reply>)
    requires
        call_ensures(deny_mesh, (from_mesh,), r),
    ensures
        r is Err <==> from_mesh,
        r matches Err(e) ==> e@ == (403u16, "not permitted from the mesh; use the device's own interface"@),
{
}

/// A paired node is called by the name of the first entry with its address, where that has one.
pub proof fn law_node_is_called_by_its_name(paired: &[PairedNode], hash: &str, r: Option<String>, i: int)
    requires
        call_ensures(codename_for, (paired, hash), r),
    ensures
        (forall|j: int| 0 <= j < paired@.len() ==> (#[trigger] paired@[j]).identity_hash@ != hash@) ==> r is None,
        0 <= i < paired@.len() && paired@[i].identity_hash@ == hash@ && (forall|j: int|
            0 <= j < i ==> (#[trigger] paired@[j]).identity_hash@ != hash@) ==> {
            &&& r is Some <==> paired@[i].codename@.len() > 0
            &&& r is Some ==> r->0@ == paired@[i].codename@
        },
{
    lemma_first_node(paired@, hash@, i);
}

/// What was set is what is said of it.
pub proof fn law_changes_are_confirmed(on: bool, uplink: SystemActionResponse, gateway: SystemActionResponse)
    requires
        call_ensures(uplink_status, (on,), uplink),
        call_ensures(gateway_status, (on,), gateway),
    ensures
        on ==> uplink.status@ == "Router selected"@ && gateway.status@ == "VPN gateway mode enabled"@,
        !on ==> uplink.status@ == "Router cleared"@ && gateway.status@ == "VPN gateway mode disabled"@,
{
}

/// Gateway mode is decided by its routes as they are read, one for one: the same is granted, with the same
/// way out, and the same refused.
pub proof fn law_gateway_mode_is_decided_by_its_routes(
    from_mesh: bool,
    request: &PutVpnGatewayRequest,
    interfaces: &[NetInterface],
    texts: &[String],
    routes: Result<Vec<Ipv4Net>, Reply>,
    planned: Result<VpnGatewayConfig, Reply>,
    r: Result<VpnGatewayConfig, Reply>,
)
    requires
        texts@ == request.routes@,
        call_ensures(read_routes, (texts,), routes),
        call_ensures(plan_gateway, (from_mesh, request, routes, interfaces), planned),
        call_ensures(put_vpn_gateway, (from_mesh, request, interfaces), r),
    ensures
        r is Ok <==> planned is Ok,
        r is Err ==> r->Err_0@ == planned->Err_0@,
        r is Ok ==> {
            &&& r->Ok_0.enabled == planned->Ok_0.enabled
            &&& text::view_opt(r->Ok_0.egress_interface) == text::view_opt(planned->Ok_0.egress_interface)
            &&& net_views(r->Ok_0.routes@) == net_views(planned->Ok_0.routes@)
        },
{
}

} // verus!
