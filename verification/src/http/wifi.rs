//! Requests about wireless networks.

use vstd::prelude::*;

use crate::http::vpn::SystemActionResponse;
use crate::reply::{reply, reply_with, Reply, BAD_REQUEST, INTERNAL_SERVER_ERROR, NOT_FOUND};
use crate::text;
use crate::text::{cat2, is_empty, same, trim};

verus! {

#[derive(Clone, Debug)]
pub struct WifiModeForm {
    pub mode: String,
}

#[derive(Clone, Debug)]
pub struct WifiAntennaForm {
    pub antenna: String,
}

#[derive(Clone, Debug)]
pub struct WifiConnectForm {
    pub ssid: String,
    pub psk: String,
}

#[derive(Clone, Debug)]
pub struct WifiNetworkRequest {
    pub ssid: String,
    pub psk: String,
}

/// A network whose password is kept.
#[derive(Clone, Debug)]
pub struct SavedWifiNetwork {
    pub ssid: String,
    pub psk: String,
    pub priority: i64,
    pub created_at: u64,
    pub last_used: u64,
}

/// A kept network as it is shown: without its password.
#[derive(Clone, Debug)]
pub struct ShownWifiNetwork {
    pub ssid: String,
    pub priority: i64,
    pub created_at: u64,
    pub last_used: u64,
}

/// Whether a network is shown as it is kept.
pub open spec fn shows_network(shown: ShownWifiNetwork, kept: SavedWifiNetwork) -> bool {
    &&& shown.ssid@ == kept.ssid@
    &&& shown.priority == kept.priority
    &&& shown.created_at == kept.created_at
    &&& shown.last_used == kept.last_used
}

/// The kept networks as they are shown, in the same order.
pub fn get_wifi_networks(list: &[SavedWifiNetwork]) -> (r: Vec<ShownWifiNetwork>)
    ensures
        r@.len() == list@.len(),
        forall|i: int| 0 <= i < list@.len() ==> shows_network(#[trigger] r@[i], list@[i]),
{
    let mut out: Vec<ShownWifiNetwork> = Vec::new();
    let mut i: usize = 0;
    while i < list.len()
        invariant
            i <= list@.len(),
            out@.len() == i,
            forall|k: int| 0 <= k < i ==> shows_network(#[trigger] out@[k], list@[k]),
        decreases list@.len() - i,
    {
        let kept = &list[i];
        out.push(
            ShownWifiNetwork {
                ssid: kept.ssid.clone(),
                priority: kept.priority,
                created_at: kept.created_at,
                last_used: kept.last_used,
            },
        );
        i += 1;
    }
    out
}

/// The first network with a name.
pub open spec fn network_named(list: Seq<SavedWifiNetwork>, ssid: Seq<char>) -> Option<SavedWifiNetwork>
    decreases list.len(),
{
    if list.len() == 0 {
        None
    } else if list[0].ssid@ == ssid {
        Some(list[0])
    } else {
        network_named(list.skip(1), ssid)
    }
}

/// The first network with a name.
pub fn find_network<'a>(list: &'a [SavedWifiNetwork], ssid: &str) -> (r: Option<&'a SavedWifiNetwork>)
    ensures
        match r {
            Some(n) => network_named(list@, ssid@) == Some(*n),
            None => network_named(list@, ssid@) is None,
        },
{
    let mut i: usize = 0;
    proof {
        assert(list@.skip(0) =~= list@);
    }
    while i < list.len()
        invariant
            i <= list@.len(),
            network_named(list@, ssid@) == network_named(list@.skip(i as int), ssid@),
        decreases list@.len() - i,
    {
        proof {
            assert(list@.skip(i as int).skip(1) =~= list@.skip(i + 1));
        }
        if same(list[i].ssid.as_str(), ssid) {
            return Some(&list[i]);
        }
        i += 1;
    }
    None
}

/// The name of a network to connect to: the text without blanks around it.
pub fn checked_ssid(ssid: &str) -> (r: Result<String, Reply>)
    ensures
        match r {
            Ok(s) => s@ == text::trimmed(ssid@) && s@.len() > 0,
            Err(e) => text::trimmed(ssid@).len() == 0 && e@ == (BAD_REQUEST, "ssid is required"@),
        },
{
    let ssid = trim(ssid);
    if is_empty(ssid.as_str()) {
        return Err(reply(BAD_REQUEST, "ssid is required"));
    }
    Ok(ssid)
}

/// A network that was just connected to, as it is kept: its rank and age stay what
/// they were.
pub open spec fn remembered(list: Seq<SavedWifiNetwork>, n: SavedWifiNetwork, ssid: Seq<char>, psk: Seq<char>, now: u64) -> bool {
    &&& n.ssid@ == ssid
    &&& n.psk@ == psk
    &&& n.last_used == now
    &&& match network_named(list, ssid) {
        Some(old) => n.priority == old.priority && n.created_at == old.created_at,
        None => n.priority == 0 && n.created_at == now,
    }
}

/// A network that was just connected to, as it is to be kept.
pub fn remember_network(list: &[SavedWifiNetwork], ssid: String, psk: String, now: u64) -> (n: SavedWifiNetwork)
    ensures
        remembered(list@, n, ssid@, psk@, now),
{
    let (priority, created_at): (i64, u64) = match find_network(list, ssid.as_str()) {
        Some(old) => (old.priority, old.created_at),
        None => (0, now),
    };
    SavedWifiNetwork { ssid, psk, priority, created_at, last_used: now }
}

/// Why a network is not kept, if so: it has no name, or no password and none is kept.
pub open spec fn keep_refusal(list: Seq<SavedWifiNetwork>, request: WifiNetworkRequest) -> Option<(u16, Seq<char>)> {
    let ssid = text::trimmed(request.ssid@);
    if ssid.len() == 0 {
        Some((BAD_REQUEST, "ssid is required"@))
    } else if request.psk@.len() == 0 && network_named(list, ssid) is None {
        Some((BAD_REQUEST, "psk is required"@))
    } else {
        None
    }
}

/// Whether a network is kept as a request asks: with the password that is kept
/// already where the request has none, and otherwise unchanged.
pub open spec fn kept(list: Seq<SavedWifiNetwork>, n: SavedWifiNetwork, request: WifiNetworkRequest, now: u64) -> bool {
    let ssid = text::trimmed(request.ssid@);
    &&& n.ssid@ == ssid
    &&& match network_named(list, ssid) {
        Some(old) => {
            &&& n.psk@ == if request.psk@.len() == 0 {
                old.psk@
            } else {
                request.psk@
            }
            &&& n.priority == old.priority
            &&& n.created_at == old.created_at
            &&& n.last_used == old.last_used
        },
        None => n.psk@ == request.psk@ && n.priority == 0 && n.created_at == now && n.last_used == 0,
    }
}

/// The network that a request asks to keep. The kept password is never shown, so a
/// request without one keeps it.
pub fn post_wifi_network(list: &[SavedWifiNetwork], request: &WifiNetworkRequest, now: u64) -> (r: Result<
    SavedWifiNetwork,
    Reply,
>)
    ensures
        match r {
            Ok(n) => keep_refusal(list@, *request) is None && kept(list@, n, *request, now),
            Err(e) => keep_refusal(list@, *request) == Some(e@),
        },
{
    let ssid = match checked_ssid(request.ssid.as_str()) {
        Ok(s) => s,
        Err(e) => {
            return Err(e);
        },
    };
    match find_network(list, ssid.as_str()) {
        Some(old) => {
            let psk = if is_empty(request.psk.as_str()) {
                old.psk.clone()
            } else {
                request.psk.clone()
            };
            let (priority, created_at, last_used): (i64, u64, u64) = (old.priority, old.created_at, old.last_used);
            Ok(SavedWifiNetwork { ssid, psk, priority, created_at, last_used })
        },
        None => {
            if is_empty(request.psk.as_str()) {
                return Err(reply(BAD_REQUEST, "psk is required"));
            }
            Ok(
                SavedWifiNetwork {
                    ssid,
                    psk: request.psk.clone(),
                    priority: 0,
                    created_at: now,
                    last_used: 0,
                },
            )
        },
    }
}

/// A request without a password never loses the password that is kept.
pub proof fn law_blank_psk_keeps_password(list: Seq<SavedWifiNetwork>, n: SavedWifiNetwork, request: WifiNetworkRequest, now: u64)
    requires
        request.psk@.len() == 0,
        keep_refusal(list, request) is None,
        kept(list, n, request, now),
    ensures
        network_named(list, text::trimmed(request.ssid@)) is Some,
        n.psk@ == network_named(list, text::trimmed(request.ssid@))->0.psk@,
{
}

/// What keeping a network is answered with.
pub fn network_saved(ssid: &str) -> (r: SystemActionResponse)
    ensures
        r.status@ == "Saved "@ + ssid@,
{
    SystemActionResponse { status: cat2("Saved ", ssid) }
}

/// What forgetting a network is answered with.
pub fn network_removed(ssid: &str) -> (r: SystemActionResponse)
    ensures
        r.status@ == "Removed "@ + ssid@,
{
    SystemActionResponse { status: cat2("Removed ", ssid) }
}

/// The password of a network that is kept; a network that is not kept cannot be
/// connected to by its name.
pub fn saved_psk(list: &[SavedWifiNetwork], ssid: &str) -> (r: Result<String, Reply>)
    ensures
        match r {
            Ok(psk) => network_named(list@, ssid@) is Some && psk@ == network_named(list@, ssid@)->0.psk@,
            Err(e) => network_named(list@, ssid@) is None && e@ == (NOT_FOUND, "unknown network"@),
        },
{
    match find_network(list, ssid) {
        Some(n) => Ok(n.psk.clone()),
        None => Err(reply(NOT_FOUND, "unknown network")),
    }
}

/// What connecting to a network that is kept is answered with.
pub fn network_connecting(ssid: &str) -> (r: SystemActionResponse)
    ensures
        r.status@ == "Connecting to "@ + ssid@,
{
    SystemActionResponse { status: cat2("Connecting to ", ssid) }
}

/// What went wrong with the network.
#[derive(Clone, Copy, Debug, PartialEq, Eq, Structural)]
pub enum NetworkErrorKind {
    InvalidMode,
    InvalidAntenna,
    InvalidSsid,
    InvalidPsk,
    MissingStaConfig,
    StatePoisoned,
    TaskJoin,
    ModeFileWrite,
    CommandIo,
    CommandFailed,
}

impl NetworkErrorKind {
    /// Whether the caller is at fault.
    pub open spec fn is_callers_fault(self) -> bool {
        self is InvalidMode || self is InvalidAntenna || self is InvalidSsid || self is InvalidPsk || self is MissingStaConfig
    }
}

/// The answer to an error of the network.
pub fn map_network_error(kind: NetworkErrorKind, words: String) -> (r: Reply)
    ensures
        r@ == (
            if kind.is_callers_fault() {
                BAD_REQUEST
            } else {
                INTERNAL_SERVER_ERROR
            },
            words@,
        ),
{
    let status: u16 = match kind {
        NetworkErrorKind::InvalidMode => BAD_REQUEST,
        NetworkErrorKind::InvalidAntenna => BAD_REQUEST,
        NetworkErrorKind::InvalidSsid => BAD_REQUEST,
        NetworkErrorKind::InvalidPsk => BAD_REQUEST,
        NetworkErrorKind::MissingStaConfig => BAD_REQUEST,
        _ => INTERNAL_SERVER_ERROR,
    };
    reply_with(status, words)
}

// ── What is kept of networks ─────────────────────────────────────────────────

/// Networks are shown one for one with their own name, rank and times.
pub proof fn law_networks_are_shown_as_kept(list: &[SavedWifiNetwork], r: Vec<ShownWifiNetwork>, i: int)
    requires
        call_ensures(get_wifi_networks, (list,), r),
        0 <= i < list@.len(),
    ensures
        r@.len() == list@.len(),
        r@[i].ssid@ == list@[i].ssid@,
        r@[i].priority == list@[i].priority,
        r@[i].created_at == list@[i].created_at && r@[i].last_used == list@[i].last_used,
{
    assert(shows_network(r@[i], list@[i]));
}

/// Of several networks with a name, the first is found; one is found wherever there is one.
pub proof fn law_first_network_of_a_name_is_found<'a>(list: &'a [SavedWifiNetwork], ssid: &str, r: Option<&'a SavedWifiNetwork>, i: int)
    requires
        call_ensures(find_network, (list, ssid), r),
    ensures
        0 <= i < list@.len() && list@[i].ssid@ == ssid@ ==> r is Some,
        ({
            &&& 0 <= i < list@.len()
            &&& list@[i].ssid@ == ssid@
            &&& forall|j: int| 0 <= j < i ==> (#[trigger] list@[j]).ssid@ != ssid@
        }) ==> *r->0 == list@[i],
        r matches Some(n) ==> n.ssid@ == ssid@ && list@.contains(*n),
{
    lemma_network_named(list@, ssid@, i);
}

/// The network found for a name is the first that has it.
pub proof fn lemma_network_named(list: Seq<SavedWifiNetwork>, ssid: Seq<char>, i: int)
    ensures
        0 <= i < list.len() && list[i].ssid@ == ssid ==> network_named(list, ssid) is Some,
        0 <= i < list.len() && list[i].ssid@ == ssid && (forall|j: int| 0 <= j < i ==> (#[trigger] list[j]).ssid@ != ssid)
            ==> network_named(list, ssid) == Some(list[i]),
        network_named(list, ssid) matches Some(n) ==> n.ssid@ == ssid && list.contains(n),
    decreases list.len(),
{
    if list.len() > 0 {
        if list[0].ssid@ != ssid {
            let rest = list.skip(1);
            lemma_network_named(rest, ssid, i - 1);
            if 0 < i < list.len() {
                assert(rest[i - 1] == list[i]);
            }
            if 0 < i < list.len() && (forall|j: int| 0 <= j < i ==> (#[trigger] list[j]).ssid@ != ssid) {
                assert forall|j: int| 0 <= j < i - 1 implies (#[trigger] rest[j]).ssid@ != ssid by {
                    assert(list[j + 1].ssid@ != ssid);
                }
            }
            if let Some(n) = network_named(rest, ssid) {
                let k = choose|k: int| 0 <= k < rest.len() && rest[k] == n;
                assert(list[k + 1] == n);
            }
        } else {
            assert(list.contains(list[0]));
        }
    }
}

/// A network that is connected to is kept with the password that worked and the time of the
/// connection; its rank and age stay those of the network that was kept under the name, if one was.
pub proof fn law_connecting_keeps_rank_and_age<'a>(
    list: &'a [SavedWifiNetwork],
    ssid: String,
    psk: String,
    now: u64,
    n: SavedWifiNetwork,
    name: &str,
    old: Option<&'a SavedWifiNetwork>,
)
    requires
        call_ensures(remember_network, (list, ssid, psk, now), n),
        name@ == ssid@,
        call_ensures(find_network, (list, name), old),
    ensures
        n.ssid@ == ssid@ && n.psk@ == psk@ && n.last_used == now,
        old matches Some(o) ==> n.priority == o.priority && n.created_at == o.created_at,
        old is None ==> n.priority == 0 && n.created_at == now,
{
}

/// A network is kept exactly where it has a name and either a password or one that is kept already. A
/// new password replaces the old, no password leaves it, and nothing else of a kept network changes.
pub proof fn law_networks_are_kept_with_a_password<'a>(
    list: &'a [SavedWifiNetwork],
    request: &WifiNetworkRequest,
    now: u64,
    r: Result<SavedWifiNetwork, Reply>,
    name: &str,
    old: Option<&'a SavedWifiNetwork>,
)
    requires
        call_ensures(post_wifi_network, (list, request, now), r),
        name@ == text::trimmed(request.ssid@),
        call_ensures(find_network, (list, name), old),
    ensures
        r is Ok <==> name@.len() > 0 && (request.psk@.len() > 0 || old is Some),
        r matches Err(e) ==> e@.0 == 400,
        r matches Ok(n) ==> {
            &&& n.ssid@ == name@
            &&& request.psk@.len() > 0 ==> n.psk@ == request.psk@
            &&& request.psk@.len() == 0 ==> n.psk@ == old->0.psk@
            &&& old matches Some(o) ==> n.priority == o.priority && n.created_at == o.created_at && n.last_used == o.last_used
            &&& old is None ==> n.priority == 0 && n.created_at == now && n.last_used == 0
        },
{
}

/// A kept network is connected to with its own password, and no other network with any.
pub proof fn law_kept_networks_have_their_own_password<'a>(
    list: &'a [SavedWifiNetwork],
    ssid: &str,
    r: Result<String, Reply>,
    old: Option<&'a SavedWifiNetwork>,
)
    requires
        call_ensures(saved_psk, (list, ssid), r),
        call_ensures(find_network, (list, ssid), old),
    ensures
        r is Ok <==> old is Some,
        r matches Ok(psk) ==> psk@ == old->0.psk@,
        r matches Err(e) ==> e@.0 == 404,
{
}

/// A name is taken without white space around it, and refused exactly where nothing is left.
pub proof fn law_names_are_not_blank(ssid: &str, r: Result<String, Reply>)
    requires
        call_ensures(checked_ssid, (ssid,), r),
    ensures
        r is Ok <==> text::trimmed(ssid@).len() > 0,
        r matches Ok(s) ==> s@ == text::trimmed(ssid@),
        r matches Err(e) ==> e@.0 == 400,
{
}

/// What the caller asked for wrongly is their error, and everything else is the device's.
pub proof fn law_errors_are_laid_at_the_right_door(kind: NetworkErrorKind, words: String, r: Reply)
    requires
        call_ensures(map_network_error, (kind, words), r),
    ensures
        r@.1 == words@,
        r@.0 == 400 <==> kind == NetworkErrorKind::InvalidMode || kind == NetworkErrorKind::InvalidAntenna || kind
            == NetworkErrorKind::InvalidSsid || kind == NetworkErrorKind::InvalidPsk || kind == NetworkErrorKind::MissingStaConfig,
        r@.0 == 400 || r@.0 == 500,
{
}

/// What was done with a network is said of that network.
pub proof fn law_networks_are_answered_for(ssid: &str, saved: SystemActionResponse, removed: SystemActionResponse, connecting: SystemActionResponse)
    requires
        call_ensures(network_saved, (ssid,), saved),
        call_ensures(network_removed, (ssid,), removed),
        call_ensures(network_connecting, (ssid,), connecting),
    ensures
        saved.status@ == "Saved "@ + ssid@,
        removed.status@ == "Removed "@ + ssid@,
        connecting.status@ == "Connecting to "@ + ssid@,
{
}

} // verus!
