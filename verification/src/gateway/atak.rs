//! The bridge between ATAK's multicast traffic and the mesh.

use vstd::prelude::*;

use crate::counter;
use crate::digits;
use crate::digits::dec;
use crate::mesh::{AddressHash, DestinationDesc, LinkEvent};
use crate::net::{IpAddress, SocketAddress};
use crate::text;
use crate::text::cat2;

verus! {

/// The ports that ATAK uses, each with its multicast group.
pub const ATAK_PORTS: [(u16, [u8; 4]); 2] = [(6969, [239, 2, 3, 1]), (17012, [224, 10, 10, 1])];

/// How often a bridge announces itself, in seconds.
pub const REANNOUNCE_SECS: u64 = 10;

/// The multicast group of a port; that of the first port where the port is not one
/// of ATAK's.
pub open spec fn group_of(port: u16) -> Seq<u8> {
    if port == 17012 {
        seq![224u8, 10, 10, 1]
    } else {
        seq![239u8, 2, 3, 1]
    }
}

/// The multicast group of a port.
pub fn mcast_group_for_port(port: u16) -> (group: [u8; 4])
    ensures
        group@ == group_of(port),
{
    let mut i: usize = 0;
    while i < 2
        invariant
            i <= 2,
            i >= 1 ==> port != 6969,
            i >= 2 ==> port != 17012,
        decreases 2 - i,
    {
        if ATAK_PORTS[i].0 == port {
            let group = ATAK_PORTS[i].1;
            proof {
                assert(group@ =~= group_of(port));
            }
            return group;
        }
        i += 1;
    }
    [239, 2, 3, 1]
}

/// What a bridge has carried so far.
#[derive(Clone, Debug)]
pub struct BridgeMetrics {
    pub port: u16,
    pub dest_hash: Option<String>,
    pub rx_packets: u64,
    pub tx_packets: u64,
}

impl BridgeMetrics {
    /// A bridge that has carried nothing.
    pub fn new(port: u16) -> (m: BridgeMetrics)
        ensures
            m == (BridgeMetrics { port, dest_hash: None, rx_packets: 0, tx_packets: 0 }),
    {
        BridgeMetrics { port, dest_hash: None, rx_packets: 0, tx_packets: 0 }
    }

    /// Takes note of the bridge's address on the mesh. Only the first one counts.
    pub fn set_dest_hash(&mut self, hash: String)
        ensures
            *final(self) == (BridgeMetrics {
                dest_hash: if old(self).dest_hash is Some {
                    old(self).dest_hash
                } else {
                    Some(hash)
                },
                ..*old(self)
            }),
    {
        if self.dest_hash.is_none() {
            self.dest_hash = Some(hash);
        }
    }
}

/// The name under which a bridge is registered on the mesh.
pub fn destination_name(port: u16) -> (r: String)
    ensures
        r@ == "atak."@ + digits::decimal(port as nat),
{
    cat2("atak.", dec(port as u64).as_str())
}

/// The two bytes by which bridges for the same port know each other: the port, the
/// high byte first.
pub open spec fn tag_of(port: u16) -> Seq<u8> {
    seq![(port / 256) as u8, (port % 256) as u8]
}

/// The two bytes by which bridges for the same port know each other.
pub fn port_tag(port: u16) -> (r: [u8; 2])
    ensures
        r@ == tag_of(port),
{
    let r: [u8; 2] = [(port / 256) as u8, (port % 256) as u8];
    proof {
        assert(r@ =~= tag_of(port));
    }
    r
}

/// Bridges for different ports have different tags.
pub proof fn law_tags_tell_ports_apart(a: u16, b: u16)
    requires
        tag_of(a) == tag_of(b),
    ensures
        a == b,
{
    assert(tag_of(a)[0] == tag_of(b)[0]);
    assert(tag_of(a)[1] == tag_of(b)[1]);
}

/// Whether an address is on the node's own network, 192.168.10.0/24.
pub open spec fn is_local_net(ip: IpAddress) -> bool {
    ip matches IpAddress::V4(o) && o[0] == 192 && o[1] == 168 && o[2] == 10
}

/// The address to join the multicast group on: the first one on the node's own
/// network, or the unspecified address where there is none.
pub open spec fn join_address(addresses: Seq<IpAddress>) -> Seq<u8>
    decreases addresses.len(),
{
    if addresses.len() == 0 {
        seq![0u8, 0, 0, 0]
    } else if is_local_net(addresses[0]) {
        addresses[0]->V4_0@
    } else {
        join_address(addresses.skip(1))
    }
}

/// The address to join the multicast group on.
pub fn local_address(addresses: &[IpAddress]) -> (r: [u8; 4])
    ensures
        r@ == join_address(addresses@),
{
    let mut i: usize = 0;
    proof {
        assert(addresses@.skip(0) =~= addresses@);
    }
    while i < addresses.len()
        invariant
            i <= addresses@.len(),
            join_address(addresses@) == join_address(addresses@.skip(i as int)),
        decreases addresses@.len() - i,
    {
        proof {
            assert(addresses@.skip(i as int).skip(1) =~= addresses@.skip(i + 1));
        }
        match addresses[i] {
            IpAddress::V4(o) => {
                if o[0] == 192 && o[1] == 168 && o[2] == 10 {
                    return o;
                }
            },
            IpAddress::V6(_) => {},
        }
        i += 1;
    }
    let r: [u8; 4] = [0, 0, 0, 0];
    proof {
        assert(r@ =~= seq![0u8, 0, 0, 0]);
    }
    r
}

/// The addresses to send multicast from: every IPv4 address but loopback ones.
pub open spec fn send_addresses(addresses: Seq<IpAddress>) -> Seq<Seq<u8>>
    decreases addresses.len(),
{
    if addresses.len() == 0 {
        Seq::empty()
    } else {
        let before = send_addresses(addresses.drop_last());
        match addresses.last() {
            IpAddress::V4(o) => if o[0] != 127 {
                before.push(o@)
            } else {
                before
            },
            IpAddress::V6(_) => before,
        }
    }
}

/// The octets of a list of addresses.
pub open spec fn octets_of(v: Seq<[u8; 4]>) -> Seq<Seq<u8>> {
    v.map_values(|o: [u8; 4]| o@)
}

/// The addresses to send multicast from.
pub fn transmit_addresses(addresses: &[IpAddress]) -> (r: Vec<[u8; 4]>)
    ensures
        octets_of(r@) == send_addresses(addresses@),
{
    let mut out: Vec<[u8; 4]> = Vec::new();
    let mut i: usize = 0;
    proof {
        assert(octets_of(out@) =~= send_addresses(addresses@.take(0)));
    }
    while i < addresses.len()
        invariant
            i <= addresses@.len(),
            octets_of(out@) == send_addresses(addresses@.take(i as int)),
        decreases addresses@.len() - i,
    {
        let ghost before = octets_of(out@);
        proof {
            assert(addresses@.take(i + 1).drop_last() =~= addresses@.take(i as int));
            assert(addresses@.take(i + 1).last() == addresses@[i as int]);
        }
        match addresses[i] {
            IpAddress::V4(o) => {
                if o[0] != 127 {
                    out.push(o);
                    proof {
                        assert(octets_of(out@) =~= before.push(o@));
                    }
                }
            },
            IpAddress::V6(_) => {},
        }
        i += 1;
    }
    proof {
        assert(addresses@.take(i as int) =~= addresses@);
    }
    out
}

/// Where multicast traffic is sent to.
pub fn mcast_target(port: u16) -> (r: SocketAddress)
    ensures
        r.port == port,
        r.ip matches IpAddress::V4(o) && o@ == group_of(port),
{
    SocketAddress { ip: IpAddress::V4(mcast_group_for_port(port)), port }
}

// ── The running bridge ───────────────────────────────────────────────────────

/// Something that happened to a running bridge.
#[derive(Clone, Debug)]
pub enum AtakEvent {
    /// A datagram came from the local network.
    Datagram(Vec<u8>),
    /// Something happened on a link to another bridge.
    Link(LinkEvent),
    /// A node announced itself; `linked` says whether there is a link to it.
    Announce { app_data: Vec<u8>, peer: DestinationDesc, linked: bool },
    /// It is time to announce the bridge again.
    Tick,
}

/// What a running bridge is to do.
#[derive(Clone, Debug)]
pub enum AtakAction {
    /// Send this to every bridge that has linked to this one.
    SendToInLinks(Vec<u8>),
    /// Send this to the multicast group, from every address.
    Multicast(Vec<u8>),
    /// Open a link to this bridge.
    OpenLink(DestinationDesc),
    /// Announce this bridge with its tag.
    Announce,
    Nothing,
}

/// A running bridge.
#[derive(Clone, Debug)]
pub struct AtakBridge {
    pub dest_hash: AddressHash,
    pub metrics: BridgeMetrics,
}

/// Whether an announcement calls for a link: it is from another bridge for the
/// same port that there is no link to yet.
pub open spec fn calls_for_link(bridge: AtakBridge, app_data: Seq<u8>, peer: DestinationDesc, linked: bool) -> bool {
    &&& app_data == tag_of(bridge.metrics.port)
    &&& peer.address_hash@ != bridge.dest_hash@
    &&& !linked
}

impl AtakBridge {
    /// A bridge for a port, registered on the mesh under an address.
    pub fn new(port: u16, dest_hash: AddressHash) -> (b: AtakBridge)
        ensures
            b.dest_hash == dest_hash,
            b.metrics.port == port,
            b.metrics.rx_packets == 0,
            b.metrics.tx_packets == 0,
            text::view_opt(b.metrics.dest_hash) == Some(digits::hex_of(dest_hash@)),
    {
        let mut metrics = BridgeMetrics::new(port);
        metrics.set_dest_hash(dest_hash.to_hex_string());
        AtakBridge { dest_hash, metrics }
    }

    /// Reacts to an event. Datagrams go to the bridges that have linked to this
    /// one, payloads from links go to the multicast group, and both are counted.
    pub fn step(&mut self, event: AtakEvent) -> (r: AtakAction)
        ensures
            final(self).dest_hash == old(self).dest_hash,
            match event {
                AtakEvent::Datagram(data) => {
                    &&& r == AtakAction::SendToInLinks(data)
                    &&& final(self).metrics == (BridgeMetrics {
                        rx_packets: counter::raised(old(self).metrics.rx_packets, 1),
                        ..old(self).metrics
                    })
                },
                AtakEvent::Link(LinkEvent::Data(payload)) => {
                    &&& r == AtakAction::Multicast(payload)
                    &&& final(self).metrics == (BridgeMetrics {
                        tx_packets: counter::raised(old(self).metrics.tx_packets, 1),
                        ..old(self).metrics
                    })
                },
                AtakEvent::Link(_) => r == AtakAction::Nothing && final(self).metrics == old(self).metrics,
                AtakEvent::Announce { app_data, peer, linked } => {
                    &&& r == if calls_for_link(*old(self), app_data@, peer, linked) {
                        AtakAction::OpenLink(peer)
                    } else {
                        AtakAction::Nothing
                    }
                    &&& final(self).metrics == old(self).metrics
                },
                AtakEvent::Tick => r == AtakAction::Announce && final(self).metrics == old(self).metrics,
            },
    {
        match event {
            AtakEvent::Datagram(data) => {
                self.metrics.rx_packets = self.metrics.rx_packets.wrapping_add(1);
                AtakAction::SendToInLinks(data)
            },
            AtakEvent::Link(LinkEvent::Data(payload)) => {
                self.metrics.tx_packets = self.metrics.tx_packets.wrapping_add(1);
                AtakAction::Multicast(payload)
            },
            AtakEvent::Link(_) => AtakAction::Nothing,
            AtakEvent::Announce { app_data, peer, linked } => {
                let tag = port_tag(self.metrics.port);
                if app_data.len() != 2 || app_data[0] != tag[0] || app_data[1] != tag[1] {
                    return AtakAction::Nothing;
                }
                proof {
                    assert(app_data@ =~= tag_of(self.metrics.port));
                }
                if peer.address_hash.same_as(&self.dest_hash) || linked {
                    return AtakAction::Nothing;
                }
                AtakAction::OpenLink(peer)
            },
            AtakEvent::Tick => AtakAction::Announce,
        }
    }
}

// ── What the bridge is for ───────────────────────────────────────────────────

/// A link is opened exactly where another node announces itself with the two bytes of the
/// bridge's port, the high one first, and there is no link to it yet. Whatever is announced,
/// the bridge itself stays as it is.
pub proof fn law_link_opened_exactly_for_unlinked_peers_of_the_port(
    bridge: &mut AtakBridge,
    app_data: Vec<u8>,
    peer: DestinationDesc,
    linked: bool,
    action: AtakAction,
)
    requires
        call_ensures(AtakBridge::step, (bridge, AtakEvent::Announce { app_data, peer, linked }), action),
    ensures
        action == AtakAction::OpenLink(peer) <==> {
            &&& app_data@.len() == 2
            &&& app_data@[0] * 256 + app_data@[1] == old(bridge).metrics.port
            &&& peer.address_hash@ != old(bridge).dest_hash@
            &&& !linked
        },
        action != AtakAction::OpenLink(peer) ==> action == AtakAction::Nothing,
        *final(bridge) == *old(bridge),
{
    let port = old(bridge).metrics.port;
    if app_data@.len() == 2 && app_data@[0] * 256 + app_data@[1] == port {
        assert(app_data@ =~= tag_of(port));
    }
}

/// Two bridges made for one port under different addresses link to each other: each opens a
/// link when it hears the tag that the other announces.
pub proof fn law_bridges_of_a_port_meet(
    port: u16,
    own: AddressHash,
    bridge: &mut AtakBridge,
    tag: [u8; 2],
    app_data: Vec<u8>,
    peer: DestinationDesc,
    action: AtakAction,
)
    requires
        call_ensures(AtakBridge::new, (port, own), *old(bridge)),
        call_ensures(port_tag, (port,), tag),
        app_data@ == tag@,
        peer.address_hash@ != own@,
        call_ensures(AtakBridge::step, (bridge, AtakEvent::Announce { app_data, peer, linked: false }), action),
    ensures
        action == AtakAction::OpenLink(peer),
{
}

/// A bridge for one port never links to a bridge for another.
pub proof fn law_bridges_of_other_ports_stay_apart(
    bridge: &mut AtakBridge,
    port: u16,
    tag: [u8; 2],
    app_data: Vec<u8>,
    peer: DestinationDesc,
    linked: bool,
    action: AtakAction,
)
    requires
        port != old(bridge).metrics.port,
        call_ensures(port_tag, (port,), tag),
        app_data@ == tag@,
        call_ensures(AtakBridge::step, (bridge, AtakEvent::Announce { app_data, peer, linked }), action),
    ensures
        action == AtakAction::Nothing,
{
    if tag_of(port) == tag_of(old(bridge).metrics.port) {
        law_tags_tell_ports_apart(port, old(bridge).metrics.port);
    }
}

/// What comes from the local network goes to the mesh as it is, and nowhere else; what comes
/// over a link goes to the local network as it is. Each is counted once, modulo the width of
/// the counters, and nothing else of the bridge changes.
pub proof fn law_traffic_crosses_unchanged(bridge: &mut AtakBridge, data: Vec<u8>, from_mesh: bool, action: AtakAction)
    requires
        call_ensures(
            AtakBridge::step,
            (
                bridge,
                if from_mesh {
                    AtakEvent::Link(LinkEvent::Data(data))
                } else {
                    AtakEvent::Datagram(data)
                },
            ),
            action,
        ),
    ensures
        from_mesh ==> action == AtakAction::Multicast(data),
        !from_mesh ==> action == AtakAction::SendToInLinks(data),
        (final(bridge).metrics.rx_packets - old(bridge).metrics.rx_packets - if from_mesh {
            0int
        } else {
            1int
        }) % 0x1_0000_0000_0000_0000 == 0,
        (final(bridge).metrics.tx_packets - old(bridge).metrics.tx_packets - if from_mesh {
            1int
        } else {
            0int
        }) % 0x1_0000_0000_0000_0000 == 0,
        final(bridge).dest_hash == old(bridge).dest_hash,
        final(bridge).metrics.port == old(bridge).metrics.port,
        final(bridge).metrics.dest_hash == old(bridge).metrics.dest_hash,
{
}

/// Every tick announces the bridge, and no other event does.
pub proof fn law_only_ticks_announce(bridge: &mut AtakBridge, event: AtakEvent, action: AtakAction)
    requires
        call_ensures(AtakBridge::step, (bridge, event), action),
    ensures
        action == AtakAction::Announce <==> event == AtakEvent::Tick,
        event is Tick || event is Announce ==> *final(bridge) == *old(bridge),
        event matches AtakEvent::Link(e) ==> !(e is Data) ==> action == AtakAction::Nothing && *final(bridge)
            == *old(bridge),
{
}

/// Traffic of each of ATAK's ports goes to the group listed for it, on the same port; that of
/// any other port goes to the group of the first. Every group is a multicast address.
pub proof fn law_traffic_goes_to_the_group_of_its_port(port: u16, target: SocketAddress)
    requires
        call_ensures(mcast_target, (port,), target),
    ensures
        target.port == port,
        target.ip is V4,
        224 <= target.ip->V4_0@[0] <= 239,
        forall|i: int|
            0 <= i < 2 && (#[trigger] ATAK_PORTS@[i]).0 == port ==> target.ip->V4_0@ == ATAK_PORTS@[i].1@,
        (forall|i: int| 0 <= i < 2 ==> (#[trigger] ATAK_PORTS@[i]).0 != port) ==> target.ip->V4_0@ == ATAK_PORTS@[0].1@,
        ATAK_PORTS@[0].0 == 6969 && ATAK_PORTS@[0].1@ == seq![239u8, 2, 3, 1],
        ATAK_PORTS@[1].0 == 17012 && ATAK_PORTS@[1].1@ == seq![224u8, 10, 10, 1],
{
    assert(ATAK_PORTS@[0].1@ =~= seq![239u8, 2, 3, 1]);
    assert(ATAK_PORTS@[1].1@ =~= seq![224u8, 10, 10, 1]);
}

/// The group is joined on the first address in 192.168.10.0/24, and on the unspecified address
/// exactly where no address is in it.
pub proof fn law_group_is_joined_on_the_own_network(addresses: &[IpAddress], joined: [u8; 4], i: int)
    requires
        call_ensures(local_address, (addresses,), joined),
    ensures
        ({
            &&& 0 <= i < addresses@.len()
            &&& is_local_net(addresses@[i])
            &&& forall|j: int| 0 <= j < i ==> !is_local_net(#[trigger] addresses@[j])
        }) ==> addresses@[i] is V4 && joined@ == addresses@[i]->V4_0@,
        (forall|j: int| 0 <= j < addresses@.len() ==> !is_local_net(#[trigger] addresses@[j])) ==> joined@ == seq![
            0u8,
            0,
            0,
            0,
        ],
{
    lemma_join_address(addresses@, i);
}

/// The first address on the node's own network is the one to join on.
proof fn lemma_join_address(addresses: Seq<IpAddress>, i: int)
    ensures
        0 <= i < addresses.len() && is_local_net(addresses[i]) && (forall|j: int|
            0 <= j < i ==> !is_local_net(#[trigger] addresses[j])) ==> join_address(addresses) == addresses[i]->V4_0@,
        (forall|j: int| 0 <= j < addresses.len() ==> !is_local_net(#[trigger] addresses[j])) ==> join_address(addresses)
            == seq![0u8, 0, 0, 0],
    decreases addresses.len(),
{
    if addresses.len() > 0 && !is_local_net(addresses[0]) {
        let rest = addresses.skip(1);
        lemma_join_address(rest, i - 1);
        assert forall|j: int| 0 <= j < rest.len() implies rest[j] == #[trigger] addresses[j + 1] by {}
        if 0 <= i < addresses.len() && is_local_net(addresses[i]) && (forall|j: int|
            0 <= j < i ==> !is_local_net(#[trigger] addresses[j])) {
            assert(i > 0);
            assert forall|j: int| 0 <= j < i - 1 implies !is_local_net(#[trigger] rest[j]) by {
                assert(!is_local_net(addresses[j + 1]));
            }
        }
        if forall|j: int| 0 <= j < addresses.len() ==> !is_local_net(#[trigger] addresses[j]) {
            assert forall|j: int| 0 <= j < rest.len() implies !is_local_net(#[trigger] rest[j]) by {
                assert(!is_local_net(addresses[j + 1]));
            }
        }
    }
}

/// An address is on the node's own network exactly where it lies between 192.168.10.0 and
/// 192.168.10.255.
pub proof fn law_own_network(o: [u8; 4])
    ensures
        is_local_net(IpAddress::V4(o)) <==> 0xC0A8_0A00 <= o@[0] * 0x100_0000 + o@[1] * 0x1_0000 + o@[2] * 0x100 + o@[3]
            <= 0xC0A8_0AFF,
{
}

/// Multicast is sent from the IPv4 addresses outside 127.0.0.0/8, all of them, in their order.
pub proof fn law_multicast_leaves_from_every_address(addresses: &[IpAddress], sent: Vec<[u8; 4]>)
    requires
        call_ensures(transmit_addresses, (addresses,), sent),
    ensures
        octets_of(sent@) == addresses@.filter(
            |a: IpAddress| a is V4 && a->V4_0@[0] != 127,
        ).map_values(|a: IpAddress| a->V4_0@),
{
    lemma_send_addresses(addresses@);
}

/// The addresses to send from are the IPv4 addresses outside the loopback network.
proof fn lemma_send_addresses(addresses: Seq<IpAddress>)
    ensures
        send_addresses(addresses) == addresses.filter(
            |a: IpAddress| a is V4 && a->V4_0@[0] != 127,
        ).map_values(|a: IpAddress| a->V4_0@),
    decreases addresses.len(),
{
    reveal(Seq::filter);
    let keep = |a: IpAddress| a is V4 && a->V4_0@[0] != 127;
    let octets = |a: IpAddress| a->V4_0@;
    if addresses.len() == 0 {
        assert(addresses.filter(keep).map_values(octets) =~= Seq::empty());
    } else {
        let before = addresses.drop_last();
        lemma_send_addresses(before);
        assert(before.filter(keep).push(addresses.last()).map_values(octets) =~= before.filter(keep).map_values(
            octets,
        ).push(octets(addresses.last())));
    }
}

/// Bridges for different ports are registered under different names.
pub proof fn law_names_tell_ports_apart(a: u16, b: u16, name_a: String, name_b: String)
    requires
        call_ensures(destination_name, (a,), name_a),
        call_ensures(destination_name, (b,), name_b),
        name_a@ == name_b@,
    ensures
        a == b,
{
    digits::lemma_decimal_reads_back(a as nat);
    digits::lemma_decimal_reads_back(b as nat);
    let n = "atak."@.len() as int;
    assert(name_a@.skip(n) =~= digits::decimal(a as nat));
    assert(name_b@.skip(n) =~= digits::decimal(b as nat));
}

/// The address under which a bridge is reached is set once and stays.
pub proof fn law_address_is_set_once(m: &mut BridgeMetrics, hash: String)
    requires
        call_ensures(BridgeMetrics::set_dest_hash, (m, hash), ()),
    ensures
        old(m).dest_hash is None ==> final(m).dest_hash == Some(hash),
        old(m).dest_hash is Some ==> final(m).dest_hash == old(m).dest_hash,
        final(m).port == old(m).port && final(m).rx_packets == old(m).rx_packets && final(m).tx_packets == old(
            m,
        ).tx_packets,
{
}

/// The second port has a group of its own, and every other port that of the first.
pub proof fn law_groups_of_the_ports(port: u16, group: [u8; 4])
    requires
        call_ensures(mcast_group_for_port, (port,), group),
    ensures
        port == 17012 ==> group@[0] == 224 && group@[1] == 10 && group@[2] == 10 && group@[3] == 1,
        port != 17012 ==> group@[0] == 239 && group@[1] == 2 && group@[2] == 3 && group@[3] == 1,
{
}

/// A bridge announces itself every ten seconds.
pub proof fn law_announcements_are_ten_seconds_apart()
    ensures
        REANNOUNCE_SECS == 10,
{
}

} // verus!
