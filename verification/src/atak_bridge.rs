//! The broadcast bridge: every datagram from the local network goes out over the
//! mesh, and what the mesh delivers to the bridge is broadcast locally.

use vstd::prelude::*;

use crate::digits;
use crate::digits::hex_digit;
use crate::mesh::AddressHash;
use crate::net::{IpAddress, SocketAddress};

verus! {

/// How often the bridge announces itself, in seconds.
pub const REANNOUNCE_SECS: u64 = 10;

/// Something that happened to the bridge.
#[derive(Clone, Debug)]
pub enum BridgeEvent {
    /// A datagram came from the local network.
    Datagram(Vec<u8>),
    /// The mesh delivered data to a destination.
    Received { destination: AddressHash, data: Vec<u8> },
    /// It is time to announce the bridge again.
    Tick,
}

/// What the bridge is to do.
#[derive(Clone, Debug)]
pub enum BridgeAction {
    /// Send this over every link that was opened to the bridge.
    SendToInLinks(Vec<u8>),
    /// Broadcast this on the local network.
    Broadcast(Vec<u8>),
    Announce,
    Nothing,
}

/// Reacts to an event: what was delivered to other destinations is passed over.
pub fn bridge_step(dest_hash: &AddressHash, event: BridgeEvent) -> (r: BridgeAction)
    ensures
        r == match event {
            BridgeEvent::Datagram(data) => BridgeAction::SendToInLinks(data),
            BridgeEvent::Received { destination, data } => if destination@ == dest_hash@ {
                BridgeAction::Broadcast(data)
            } else {
                BridgeAction::Nothing
            },
            BridgeEvent::Tick => BridgeAction::Announce,
        },
{
    match event {
        BridgeEvent::Datagram(data) => BridgeAction::SendToInLinks(data),
        BridgeEvent::Received { destination, data } => {
            if destination.same_as(dest_hash) {
                BridgeAction::Broadcast(data)
            } else {
                BridgeAction::Nothing
            }
        },
        BridgeEvent::Tick => BridgeAction::Announce,
    }
}

/// Where the bridge listens: every interface.
pub fn listen_address(udp_port: u16) -> (r: SocketAddress)
    ensures
        r.port == udp_port,
        r.ip matches IpAddress::V4(o) && o@ == seq![0u8, 0, 0, 0],
{
    SocketAddress { ip: IpAddress::V4([0, 0, 0, 0]), port: udp_port }
}

/// Where the bridge broadcasts to.
pub fn broadcast_address(udp_port: u16) -> (r: SocketAddress)
    ensures
        r.port == udp_port,
        r.ip matches IpAddress::V4(o) && o@ == seq![255u8, 255, 255, 255],
{
    SocketAddress { ip: IpAddress::V4([255, 255, 255, 255]), port: udp_port }
}

/// Bytes in hexadecimal with spaces between them.
pub open spec fn spaced_hex(data: Seq<u8>) -> Seq<char>
    decreases data.len(),
{
    if data.len() == 0 {
        Seq::empty()
    } else {
        let b = data.last() as int;
        let pair = seq![digits::hex_char(b / 16), digits::hex_char(b % 16)];
        if data.len() == 1 {
            pair
        } else {
            spaced_hex(data.drop_last()) + seq![' '] + pair
        }
    }
}

/// The first bytes of data in hexadecimal, with a mark where there are more.
pub open spec fn preview(data: Seq<u8>, n: nat) -> Seq<char> {
    if data.len() > n {
        spaced_hex(data.take(n as int)) + " …"@
    } else {
        spaced_hex(data)
    }
}

/// Writes bytes in hexadecimal with spaces between them.
pub fn write_spaced_hex(data: &[u8], n: usize) -> (r: String)
    requires
        n <= data@.len(),
    ensures
        r@ == spaced_hex(data@.take(n as int)),
{
    let mut out = String::new();
    let mut i: usize = 0;
    while i < n
        invariant
            i <= n <= data@.len(),
            out@ == spaced_hex(data@.take(i as int)),
        decreases n - i,
    {
        let ghost before = out@;
        proof {
            assert(data@.take(i + 1).drop_last() =~= data@.take(i as int));
            assert(data@.take(i + 1).last() == data@[i as int]);
        }
        if i > 0 {
            out.push(' ');
        }
        out.push(hex_digit(data[i] / 16));
        out.push(hex_digit(data[i] % 16));
        proof {
            let b = data@[i as int] as int;
            let pair = seq![digits::hex_char(b / 16), digits::hex_char(b % 16)];
            if i == 0 {
                assert(out@ =~= pair);
            } else {
                assert(out@ =~= before + seq![' '] + pair);
            }
        }
        i += 1;
    }
    out
}

/// The first 16 bytes of data in hexadecimal, with a mark where there are more.
pub fn hex_preview(data: &[u8]) -> (r: String)
    ensures
        r@ == preview(data@, 16),
{
    let n: usize = if data.len() < 16 {
        data.len()
    } else {
        16
    };
    let mut out = write_spaced_hex(data, n);
    if data.len() > 16 {
        out.append(" …");
    } else {
        proof {
            assert(data@.take(n as int) =~= data@);
        }
    }
    out
}

/// What comes from the local network goes out over the links as it is; what the mesh delivers to the
/// bridge, and to nobody else, is broadcast as it is; every tick announces the bridge.
pub proof fn law_bridge_passes_on(dest: &AddressHash, event: BridgeEvent, r: BridgeAction)
    requires
        call_ensures(bridge_step, (dest, event), r),
    ensures
        event matches BridgeEvent::Datagram(data) ==> r == BridgeAction::SendToInLinks(data),
        event matches BridgeEvent::Received { destination, data } ==> (destination@ == dest@ ==> r
            == BridgeAction::Broadcast(data)) && (destination@ != dest@ ==> r == BridgeAction::Nothing),
        r == BridgeAction::Announce <==> event == BridgeEvent::Tick,
{
}

/// The bridge listens everywhere and broadcasts to everyone, on the same port.
pub proof fn law_bridge_addresses(port: u16, listen: SocketAddress, broadcast: SocketAddress, i: int)
    requires
        call_ensures(listen_address, (port,), listen),
        call_ensures(broadcast_address, (port,), broadcast),
        0 <= i < 4,
    ensures
        listen.port == port && broadcast.port == port,
        listen.ip is V4 && listen.ip->V4_0@[i] == 0,
        broadcast.ip is V4 && broadcast.ip->V4_0@[i] == 255,
{
}

/// Bytes are written as two hexadecimal digits each, the high one first, with a space between
/// neighbours.
pub proof fn law_spaced_hex(data: Seq<u8>, i: int)
    requires
        0 <= i < data.len(),
    ensures
        spaced_hex(data).len() == 3 * data.len() - 1,
        digits::hex_value(spaced_hex(data)[3 * i]) is Some && digits::hex_value(spaced_hex(data)[3 * i + 1]) is Some,
        16 * digits::hex_value(spaced_hex(data)[3 * i])->0 + digits::hex_value(spaced_hex(data)[3 * i + 1])->0 == data[i],
        i < data.len() - 1 ==> spaced_hex(data)[3 * i + 2] == ' ',
    decreases data.len(),
{
    if data.len() > 1 {
        let front = data.drop_last();
        if i < front.len() {
            law_spaced_hex(front, i);
        } else {
            law_spaced_hex(front, 0);
        }
    }
}

/// A preview shows the first sixteen bytes, and marks that there are more where there are.
pub proof fn law_preview_shows_sixteen(data: &[u8], r: String)
    requires
        call_ensures(hex_preview, (data,), r),
    ensures
        data@.len() <= 16 ==> r@ == spaced_hex(data@),
        data@.len() > 16 ==> r@ == spaced_hex(data@.take(16)) + " …"@,
{
}

/// The bridge announces itself every ten seconds.
pub proof fn law_announcements_are_ten_seconds_apart()
    ensures
        REANNOUNCE_SECS == 10,
{
}

} // verus!
