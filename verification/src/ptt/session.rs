//! The state of the push-to-talk plugin: who may transmit, which peers are known,
//! and what to do with voice that arrives.

use vstd::prelude::*;

use crate::counter;
use crate::digits;
use crate::mesh;
use crate::mesh::{AddressHash, DestinationDesc, LinkEvent, LinkStatus};
use crate::ptt::audio;
use crate::ptt::audio::frame_samples;
use crate::ptt::codec;
use crate::ptt::codec::{RxCodec, TxCodec};
use crate::ptt::config::PluginConfig;
use crate::ptt::packet;
use crate::ptt::packet::{decode_browser_pcm, decode_packet, encode_packet};
use crate::ptt::stats;
use crate::ptt::stats::Stats;
use crate::reply::{reply, reply_with, Reply, BAD_REQUEST, CONFLICT, OK};
use crate::table::Table;
use crate::text;
use crate::text::{cat3, same};

verus! {

/// The number of captured frames that may wait to be sent.
pub const PLAYBACK_BUFFER_FRAMES: usize = 64;

/// The number of received frames that may wait to be played.
pub const RECEIVE_PLAYBACK_BUFFER_FRAMES: usize = 128;

/// What a push-to-talk node announces: `KAP1`.
pub const AUDIO_PTT_ANNOUNCE_MAGIC: [u8; 4] = [0x4B, 0x41, 0x50, 0x31];

/// Where the voice that is being sent comes from.
#[derive(Clone, Copy, Debug, PartialEq, Eq, Structural)]
pub enum ActiveTx {
    /// The node's own microphone.
    Alsa,
    /// The browser session with this number.
    Browser(u64),
}

/// A node that has announced push-to-talk.
#[derive(Clone, Debug)]
pub struct PeerState {
    pub desc: DestinationDesc,
    pub status: String,
    pub last_seen_ts: u64,
}

impl View for PeerState {
    type V = (DestinationDesc, Seq<char>, u64);

    open spec fn view(&self) -> (DestinationDesc, Seq<char>, u64) {
        (self.desc, self.status@, self.last_seen_ts)
    }
}

/// The state of the plugin.
pub struct PttState {
    pub config: PluginConfig,
    pub local_destination: String,
    pub peers: Table<PeerState>,
    pub active: Option<ActiveTx>,
    pub stats: Stats,
}

/// The text by which a peer is kept: its address hash in hexadecimal.
pub open spec fn peer_key(hash: AddressHash) -> Seq<char> {
    digits::hex_of(hash@)
}

/// What is known of the peers, by their keys.
pub open spec fn peer_map(peers: Map<Seq<char>, PeerState>) -> Map<Seq<char>, (DestinationDesc, Seq<char>, u64)> {
    peers.map_values(|p: PeerState| p@)
}

/// Whether every peer stands under its own address.
pub open spec fn keyed_by_address(known: Map<Seq<char>, (DestinationDesc, Seq<char>, u64)>) -> bool {
    forall|key: Seq<char>| #[trigger] known.contains_key(key) ==> key == peer_key(known[key].0.address_hash)
}

impl PttState {
    /// Every peer is kept once, under its own address.
    pub open spec fn wf(&self) -> bool {
        self.peers.wf() && keyed_by_address(self.known())
    }

    /// Whoever transmits is marked as transmitting, so that nothing is played meanwhile.
    pub open spec fn is_marked(&self) -> bool {
        self.active is Some ==> self.stats.transmitting
    }

    /// What is known of the peers.
    pub open spec fn known(&self) -> Map<Seq<char>, (DestinationDesc, Seq<char>, u64)> {
        peer_map(self.peers@)
    }

    /// The same state but for what is known of the peers.
    pub open spec fn same_but_peers(&self, other: &PttState) -> bool {
        &&& self.config == other.config
        &&& self.local_destination == other.local_destination
        &&& self.active == other.active
        &&& self.stats == other.stats
    }

    /// A plugin that has just started.
    pub fn new(config: PluginConfig, local_destination: String) -> (s: PttState)
        ensures
            s.wf(),
            s.config == config,
            s.local_destination == local_destination,
            s.known() == Map::<Seq<char>, (DestinationDesc, Seq<char>, u64)>::empty(),
            s.active is None,
            s.stats == stats::no_stats(),
            s.is_marked(),
    {
        let s = PttState {
            config,
            local_destination,
            peers: Table::new(),
            active: None,
            stats: Stats::default(),
        };
        proof {
            assert(s.known() =~= Map::<Seq<char>, (DestinationDesc, Seq<char>, u64)>::empty());
        }
        s
    }
}

// ── Links and peers ──────────────────────────────────────────────────────────

/// Whether a link in this state can be used as it is.
pub open spec fn is_reusable(existing_status: Option<LinkStatus>) -> bool {
    existing_status is Some && existing_status->0 != LinkStatus::Closed
}

/// Whether an existing link can be used as it is.
pub fn should_reuse_existing_out_link(existing_status: Option<LinkStatus>) -> (r: bool)
    ensures
        r == is_reusable(existing_status),
{
    match existing_status {
        Some(LinkStatus::Pending) => true,
        Some(LinkStatus::Handshake) => true,
        Some(LinkStatus::Active) => true,
        Some(LinkStatus::Stale) => true,
        Some(LinkStatus::Closed) => false,
        None => false,
    }
}

/// The complaint about a peer that is not known.
pub open spec fn unknown_peer(hash: AddressHash) -> Seq<char> {
    "selected peer /"@ + peer_key(hash) + "/ has not announced audio-ptt yet"@
}

/// What is known of the peers after making sure of a link to one of them.
pub open spec fn after_ensure(
    known: Map<Seq<char>, (DestinationDesc, Seq<char>, u64)>,
    hash: AddressHash,
    existing: Option<LinkStatus>,
) -> Map<Seq<char>, (DestinationDesc, Seq<char>, u64)> {
    let key = peer_key(hash);
    if known.contains_key(key) && !is_reusable(existing) {
        known.insert(key, (known[key].0, "pending"@, known[key].2))
    } else {
        known
    }
}

impl PttState {
    /// Gives a known peer a new status and time.
    fn set_peer(&mut self, key: String, desc: DestinationDesc, status: String, last_seen_ts: u64)
        requires
            old(self).wf(),
            key@ == peer_key(desc.address_hash),
        ensures
            final(self).wf(),
            final(self).same_but_peers(old(self)),
            final(self).known() == old(self).known().insert(key@, (desc, status@, last_seen_ts)),
    {
        let ghost before = self.peers@;
        let peer = PeerState { desc, status, last_seen_ts };
        let _ = self.peers.insert(key, peer);
        proof {
            assert(self.known() =~= peer_map(before).insert(key@, peer@));
        }
    }

    /// Makes sure of a link to a peer, given the state of the link there is. A peer
    /// that is not known is refused. Where the link there is cannot be used, the
    /// peer becomes `pending` and a link to the returned destination is due.
    pub fn ensure_out_link(&mut self, hash: &AddressHash, existing: Option<LinkStatus>) -> (r: Result<
        Option<DestinationDesc>,
        String,
    >)
        requires
            old(self).wf(),
        ensures
            final(self).wf(),
            final(self).same_but_peers(old(self)),
            final(self).known() == after_ensure(old(self).known(), *hash, existing),
            r is Err <==> !old(self).known().contains_key(peer_key(*hash)),
            r matches Err(e) ==> e@ == unknown_peer(*hash),
            r matches Ok(open) ==> open == if is_reusable(existing) {
                None
            } else {
                Some(old(self).known()[peer_key(*hash)].0)
            },
    {
        let key = hash.to_hex_string();
        match self.peers.get(key.as_str()) {
            None => Err(cat3("selected peer /", key.as_str(), "/ has not announced audio-ptt yet")),
            Some(peer) => {
                if should_reuse_existing_out_link(existing) {
                    return Ok(None);
                }
                let desc = peer.desc;
                let seen: u64 = peer.last_seen_ts;
                assert(self.known().contains_key(key@));
                self.set_peer(key, desc, "pending".to_owned(), seen);
                Ok(Some(desc))
            },
        }
    }

    /// Takes note of an announcement, and makes sure of a link to its sender. The
    /// node's own announcement is passed over. A sender that is linked already
    /// stays `active`; any other becomes `discovered`.
    pub fn register_announced_peer(&mut self, desc: DestinationDesc, existing: Option<LinkStatus>, now: u64) -> (r: Result<
        Option<DestinationDesc>,
        String,
    >)
        requires
            old(self).wf(),
        ensures
            final(self).wf(),
            final(self).same_but_peers(old(self)),
            r is Ok,
            final(self).known() == announced(old(self).known(), old(self).local_destination@, desc, existing, now),
            r->Ok_0 == if peer_key(desc.address_hash) == old(self).local_destination@ || is_reusable(existing) {
                None
            } else {
                Some(desc)
            },
    {
        let key = desc.address_hash.to_hex_string();
        if same(key.as_str(), self.local_destination.as_str()) {
            return Ok(None);
        }
        let linked = match self.peers.get(key.as_str()) {
            Some(peer) => same(peer.status.as_str(), "active"),
            None => false,
        };
        let status = if linked {
            "active".to_owned()
        } else {
            "discovered".to_owned()
        };
        self.set_peer(key, desc, status, now);
        self.ensure_out_link(&desc.address_hash, existing)
    }

    /// Gives a peer a new status; a peer that is not known is passed over.
    pub fn update_peer_status(&mut self, hash: &AddressHash, status: &str, now: u64)
        requires
            old(self).wf(),
        ensures
            final(self).wf(),
            final(self).same_but_peers(old(self)),
            final(self).known() == with_status(old(self).known(), *hash, status@, now),
    {
        let key = hash.to_hex_string();
        if let Some(peer) = self.peers.get(key.as_str()) {
            let desc = peer.desc;
            assert(self.known().contains_key(key@));
            self.set_peer(key, desc, status.to_owned(), now);
        }
    }
}

/// What is known of the peers after an announcement.
pub open spec fn announced(
    known: Map<Seq<char>, (DestinationDesc, Seq<char>, u64)>,
    local: Seq<char>,
    desc: DestinationDesc,
    existing: Option<LinkStatus>,
    now: u64,
) -> Map<Seq<char>, (DestinationDesc, Seq<char>, u64)> {
    let key = peer_key(desc.address_hash);
    if key == local {
        known
    } else {
        let status = if known.contains_key(key) && known[key].1 == "active"@ {
            "active"@
        } else {
            "discovered"@
        };
        after_ensure(known.insert(key, (desc, status, now)), desc.address_hash, existing)
    }
}

/// What is known of the peers after one of them got a new status.
pub open spec fn with_status(
    known: Map<Seq<char>, (DestinationDesc, Seq<char>, u64)>,
    hash: AddressHash,
    status: Seq<char>,
    now: u64,
) -> Map<Seq<char>, (DestinationDesc, Seq<char>, u64)> {
    let key = peer_key(hash);
    if known.contains_key(key) {
        known.insert(key, (known[key].0, status, now))
    } else {
        known
    }
}

/// After an announcement its sender is known, and only the sender's entry changes.
pub proof fn law_announced_peer_is_known(
    known: Map<Seq<char>, (DestinationDesc, Seq<char>, u64)>,
    local: Seq<char>,
    desc: DestinationDesc,
    existing: Option<LinkStatus>,
    now: u64,
)
    requires
        peer_key(desc.address_hash) != local,
    ensures
        announced(known, local, desc, existing, now).contains_key(peer_key(desc.address_hash)),
        announced(known, local, desc, existing, now)[peer_key(desc.address_hash)].0 == desc,
        announced(known, local, desc, existing, now)[peer_key(desc.address_hash)].2 == now,
        forall|key: Seq<char>|
            key != peer_key(desc.address_hash) ==> {
                &&& #[trigger] announced(known, local, desc, existing, now).contains_key(key) == known.contains_key(key)
                &&& known.contains_key(key) ==> announced(known, local, desc, existing, now)[key] == known[key]
            },
{
}

/// Whether an announcement is one of a push-to-talk node.
pub fn is_ptt_announce(app_data: &[u8]) -> (r: bool)
    ensures
        r == (app_data@ == AUDIO_PTT_ANNOUNCE_MAGIC@),
{
    if app_data.len() != 4 {
        return false;
    }
    let r = app_data[0] == AUDIO_PTT_ANNOUNCE_MAGIC[0] && app_data[1] == AUDIO_PTT_ANNOUNCE_MAGIC[1] && app_data[2]
        == AUDIO_PTT_ANNOUNCE_MAGIC[2] && app_data[3] == AUDIO_PTT_ANNOUNCE_MAGIC[3];
    proof {
        if r {
            assert(app_data@ =~= AUDIO_PTT_ANNOUNCE_MAGIC@);
        }
    }
    r
}

/// The peer that is selected in the settings, if its address can be read.
pub open spec fn selected_hash(cfg: PluginConfig) -> Option<Seq<u8>> {
    match cfg.selected_peer {
        Some(s) => if text::byte_len(s@) < 32 {
            None
        } else {
            Some(mesh::hash_bytes(s@))
        },
        None => None,
    }
}

/// Whether the selected peer can be read as an address hash.
pub open spec fn selection_readable(cfg: PluginConfig) -> bool {
    cfg.selected_peer matches Some(s) ==> mesh::hash_readable(s@)
}

/// The address of the peer that is selected in the settings.
pub fn parse_selected_peer(cfg: &PluginConfig) -> (r: Option<AddressHash>)
    requires
        selection_readable(*cfg),
    ensures
        match r {
            Some(hash) => selected_hash(*cfg) == Some(hash@),
            None => selected_hash(*cfg) is None,
        },
{
    match &cfg.selected_peer {
        Some(value) => match AddressHash::new_from_hex_string(value.as_str()) {
            Ok(hash) => Some(hash),
            Err(_) => None,
        },
        None => None,
    }
}

// ── Transmitting ─────────────────────────────────────────────────────────────

/// What came of a request to transmit.
#[derive(Clone, Debug)]
pub struct StartOutcome {
    /// The refusal, if the request was refused.
    pub refusal: Option<Reply>,
    /// The destination to open a link to, if one is due.
    pub open: Option<DestinationDesc>,
    /// The source that transmits now, if the request was granted.
    pub source: Option<ActiveTx>,
}

impl PttState {
    /// Asks for the node's microphone to be sent to a peer, given the state of the
    /// link to it. Refused without a peer, with a peer that is not known, and
    /// while any other source transmits.
    pub fn start_alsa(&mut self, peer: Option<AddressHash>, existing: Option<LinkStatus>) -> (r: StartOutcome)
        requires
            old(self).wf(),
        ensures
            final(self).wf(),
            old(self).is_marked() ==> final(self).is_marked(),
            final(self).config == old(self).config,
            final(self).local_destination == old(self).local_destination,
            match peer {
                None => {
                    &&& *final(self) == *old(self)
                    &&& r.open is None && r.source is None
                    &&& r.refusal is Some && r.refusal->0@ == (BAD_REQUEST, "selected_peer must be configured before transmit"@)
                },
                Some(hash) => {
                    &&& final(self).known() == after_ensure(old(self).known(), hash, existing)
                    &&& if !old(self).known().contains_key(peer_key(hash)) {
                        &&& final(self).active == old(self).active
                        &&& final(self).stats == old(self).stats
                        &&& r.open is None && r.source is None
                        &&& r.refusal is Some && r.refusal->0@ == (CONFLICT, unknown_peer(hash))
                    } else {
                        &&& r.open == if is_reusable(existing) {
                            None
                        } else {
                            Some(old(self).known()[peer_key(hash)].0)
                        }
                        &&& if old(self).active is Some {
                            &&& final(self).active == old(self).active
                            &&& final(self).stats == old(self).stats
                            &&& r.source is None
                            &&& r.refusal is Some && r.refusal->0@ == (
                                CONFLICT,
                                "another transmit source is already active"@,
                            )
                        } else {
                            &&& final(self).active == Some(ActiveTx::Alsa)
                            &&& final(self).stats == (Stats { transmitting: true, ..old(self).stats })
                            &&& r.source == Some(ActiveTx::Alsa)
                            &&& r.refusal is None
                        }
                    }
                },
            },
    {
        let hash = match peer {
            Some(hash) => hash,
            None => {
                return StartOutcome {
                    refusal: Some(reply(BAD_REQUEST, "selected_peer must be configured before transmit")),
                    open: None,
                    source: None,
                };
            },
        };
        let open = match self.ensure_out_link(&hash, existing) {
            Ok(open) => open,
            Err(e) => {
                return StartOutcome { refusal: Some(reply_with(CONFLICT, e)), open: None, source: None };
            },
        };
        if self.active.is_some() {
            return StartOutcome {
                refusal: Some(reply(CONFLICT, "another transmit source is already active")),
                open,
                source: None,
            };
        }
        self.stats.transmitting = true;
        self.active = Some(ActiveTx::Alsa);
        StartOutcome { refusal: None, open, source: Some(ActiveTx::Alsa) }
    }

    /// Asks for a browser's microphone to be sent to a peer, given the state of the
    /// link to it. Refused without a peer, with a peer that is not known, and
    /// while the node's own microphone is sent; an earlier browser session is
    /// replaced. A number is used up for the session even where it is refused
    /// because of the node's own microphone.
    pub fn start_browser(&mut self, peer: Option<AddressHash>, existing: Option<LinkStatus>) -> (r: StartOutcome)
        requires
            old(self).wf(),
            old(self).stats.browser_session_seq < u64::MAX,
        ensures
            final(self).wf(),
            old(self).is_marked() ==> final(self).is_marked(),
            final(self).config == old(self).config,
            final(self).local_destination == old(self).local_destination,
            match peer {
                None => {
                    &&& *final(self) == *old(self)
                    &&& r.open is None && r.source is None
                    &&& r.refusal is Some && r.refusal->0@ == (
                        BAD_REQUEST,
                        "selected_peer must be configured before browser transmit"@,
                    )
                },
                Some(hash) => {
                    let id = (old(self).stats.browser_session_seq + 1) as u64;
                    &&& final(self).known() == after_ensure(old(self).known(), hash, existing)
                    &&& if !old(self).known().contains_key(peer_key(hash)) {
                        &&& final(self).active == old(self).active
                        &&& final(self).stats == old(self).stats
                        &&& r.open is None && r.source is None
                        &&& r.refusal is Some && r.refusal->0@ == (CONFLICT, unknown_peer(hash))
                    } else {
                        &&& r.open == if is_reusable(existing) {
                            None
                        } else {
                            Some(old(self).known()[peer_key(hash)].0)
                        }
                        &&& if old(self).active == Some(ActiveTx::Alsa) {
                            &&& final(self).active == old(self).active
                            &&& final(self).stats == (Stats { browser_session_seq: id, ..old(self).stats })
                            &&& r.source is None
                            &&& r.refusal is Some && r.refusal->0@ == (
                                CONFLICT,
                                "another transmit source is already active"@,
                            )
                        } else {
                            &&& final(self).active == Some(ActiveTx::Browser(id))
                            &&& final(self).stats == (Stats { browser_session_seq: id, transmitting: true, ..old(self).stats })
                            &&& r.source == Some(ActiveTx::Browser(id))
                            &&& r.refusal is None
                        }
                    }
                },
            },
    {
        let hash = match peer {
            Some(hash) => hash,
            None => {
                return StartOutcome {
                    refusal: Some(reply(BAD_REQUEST, "selected_peer must be configured before browser transmit")),
                    open: None,
                    source: None,
                };
            },
        };
        let open = match self.ensure_out_link(&hash, existing) {
            Ok(open) => open,
            Err(e) => {
                return StartOutcome { refusal: Some(reply_with(CONFLICT, e)), open: None, source: None };
            },
        };
        let id: u64 = self.stats.next_browser_session_id();
        match self.active {
            Some(ActiveTx::Alsa) => {
                return StartOutcome {
                    refusal: Some(reply(CONFLICT, "another transmit source is already active")),
                    open,
                    source: None,
                };
            },
            _ => {},
        }
        self.active = Some(ActiveTx::Browser(id));
        self.stats.transmitting = true;
        StartOutcome { refusal: None, open, source: Some(ActiveTx::Browser(id)) }
    }

    /// Asks for the node's microphone to be cut off. A browser session is left
    /// alone, with a refusal. Says whether a capture was running; it is to be
    /// stopped, and `alsa_stopped` reports its end.
    pub fn stop_alsa(&mut self) -> (r: Result<bool, String>)
        ensures
            old(self).is_marked() ==> final(self).is_marked(),
            final(self).same_but_active(old(self)),
            match old(self).active {
                Some(ActiveTx::Alsa) => r == Ok::<bool, String>(true) && final(self).active is None,
                None => r == Ok::<bool, String>(false) && final(self).active is None,
                Some(ActiveTx::Browser(_)) => {
                    &&& final(self).active == old(self).active
                    &&& r is Err
                    &&& r->Err_0@
                        == "browser PTT session is active; release the browser microphone button to stop transmit"@
                },
            },
    {
        match self.active {
            Some(ActiveTx::Alsa) => {
                self.active = None;
                Ok(true)
            },
            Some(ActiveTx::Browser(_)) => Err(
                "browser PTT session is active; release the browser microphone button to stop transmit".to_owned(),
            ),
            None => Ok(false),
        }
    }

    /// The same state but for the source that transmits.
    pub open spec fn same_but_active(&self, other: &PttState) -> bool {
        &&& self.config == other.config
        &&& self.local_destination == other.local_destination
        &&& self.peers == other.peers
        &&& self.stats == other.stats
    }

    /// The same state but for the source that transmits and the mark that one does.
    pub open spec fn same_but_transmission(&self, other: &PttState) -> bool {
        &&& self.config == other.config
        &&& self.local_destination == other.local_destination
        &&& self.peers == other.peers
        &&& self.stats == (Stats { transmitting: self.stats.transmitting, ..other.stats })
    }

    /// The capture that `stop_alsa` asked to stop has ended.
    pub fn alsa_stopped(&mut self) -> (detail: String)
        ensures
            final(self).same_but_transmission(old(self)),
            final(self).active == old(self).active,
            !final(self).stats.transmitting,
            detail@ == "PTT transmit stopped"@,
    {
        self.stats.transmitting = false;
        "PTT transmit stopped".to_owned()
    }

    /// Ends every transmission. Says whether a capture is to be stopped.
    pub fn shutdown_tx_session(&mut self) -> (r: bool)
        ensures
            old(self).is_marked() ==> final(self).is_marked(),
            final(self).same_but_transmission(old(self)),
            final(self).active is None,
            !final(self).stats.transmitting,
            r == (old(self).active == Some(ActiveTx::Alsa)),
    {
        let r = match self.active {
            Some(ActiveTx::Alsa) => true,
            _ => false,
        };
        self.active = None;
        self.stats.transmitting = false;
        r
    }

    /// A browser session has ended. One that was replaced meanwhile ends nothing.
    pub fn finish_browser_tx_session(&mut self, browser_session_id: u64)
        ensures
            old(self).is_marked() ==> final(self).is_marked(),
            final(self).same_but_transmission(old(self)),
            if old(self).active == Some(ActiveTx::Browser(browser_session_id)) {
                final(self).active is None && !final(self).stats.transmitting
            } else {
                final(self).active == old(self).active && final(self).stats == old(self).stats
            },
    {
        match self.active {
            Some(ActiveTx::Browser(id)) => {
                if id == browser_session_id {
                    self.active = None;
                    self.stats.transmitting = false;
                }
            },
            _ => {},
        }
    }

    /// The name of the source that transmits.
    pub open spec fn source_name(&self) -> Option<Seq<char>> {
        match self.active {
            Some(ActiveTx::Alsa) => Some("alsa"@),
            Some(ActiveTx::Browser(_)) => Some("browser"@),
            None => None,
        }
    }

    /// The name of the source that transmits.
    pub fn active_source(&self) -> (r: Option<String>)
        ensures
            text::view_opt(r) == self.source_name(),
    {
        match self.active {
            Some(ActiveTx::Alsa) => Some("alsa".to_owned()),
            Some(ActiveTx::Browser(_)) => Some("browser".to_owned()),
            None => None,
        }
    }
}

/// What a stop of the node's microphone is answered with when none was running.
pub fn no_alsa_session() -> (detail: String)
    ensures
        detail@ == "No ALSA transmit session was active"@,
{
    "No ALSA transmit session was active".to_owned()
}

/// What a start of the node's microphone is answered with.
pub fn ptt_started(peer: &AddressHash) -> (r: Reply)
    ensures
        r@ == (OK, "PTT transmit started to "@ + peer_key(*peer)),
{
    reply_with(OK, text::cat2("PTT transmit started to ", peer.to_hex_string().as_str()))
}

// ── Sending voice ────────────────────────────────────────────────────────────

/// The complaint about a peer without a link.
pub open spec fn no_link(peer: AddressHash) -> Seq<char> {
    "selected peer "@ + peer_key(peer) + " does not have an active Reticulum link"@
}

/// Makes the packet for a voice frame. A frame of the wrong size is refused and
/// uses no sequence number.
pub fn prepare_packet(st: &mut Stats, tx: &mut TxCodec, frame: &[i16]) -> (r: Result<Vec<u8>, String>)
    requires
        old(tx).wf(),
    ensures
        final(tx).wf(),
        final(tx).samples() == old(tx).samples(),
        final(tx).encoded_len() == old(tx).encoded_len(),
        r is Ok <==> frame@.len() == old(tx).samples(),
        r matches Ok(p) ==> {
            &&& codec::codec2_encodes(old(tx).codec(), frame@, final(tx).codec(), final(tx).last_encoded())
            &&& p@ == packet::packet_bytes((old(st).seq % 0x1_0000_0000) as u32, final(tx).last_encoded())
            &&& *final(st) == (Stats { seq: counter::raised(old(st).seq, 1), ..*old(st) })
        },
        r matches Err(e) ==> {
            &&& e@ == codec::pcm_size_complaint(old(tx).samples(), frame@.len())
            &&& *final(st) == *old(st)
            &&& *final(tx) == *old(tx)
        },
{
    match tx.encode(frame) {
        Ok(encoded) => {
            let seq: u32 = st.next_packet_seq();
            Ok(encode_packet(seq, &encoded))
        },
        Err(e) => Err(e),
    }
}

/// Takes note of a packet that went out over `links` links. Without any link it
/// was not sent.
pub fn packet_sent(st: &mut Stats, peer: &AddressHash, links: usize, packet_len: usize) -> (r: Result<(), String>)
    ensures
        r is Ok <==> links > 0,
        r matches Err(e) ==> e@ == no_link(*peer) && *final(st) == *old(st),
        r is Ok ==> *final(st) == (Stats {
            tx_packets: counter::raised(old(st).tx_packets, 1),
            tx_bytes: counter::raised(old(st).tx_bytes, packet_len as u64),
            ..*old(st)
        }),
{
    if links == 0 {
        return Err(
            cat3("selected peer ", peer.to_hex_string().as_str(), " does not have an active Reticulum link"),
        );
    }
    st.tx_packets = st.tx_packets.wrapping_add(1);
    st.tx_bytes = st.tx_bytes.wrapping_add(packet_len as u64);
    Ok(())
}

/// A message on a browser's socket.
#[derive(Clone, Debug)]
pub enum BrowserMessage {
    Binary(Vec<u8>),
    Close,
    Ping,
    Pong,
    Text,
}

/// What to do with a message from a browser.
#[derive(Clone, Debug)]
pub enum BrowserStep {
    Send(Vec<i16>),
    Ignore,
    End,
    Fail(String),
}

/// Reads a message from a browser: sound is sent, a close ends the session, and
/// anything else is passed over.
pub fn browser_step(message: &BrowserMessage, expected_samples: usize) -> (r: BrowserStep)
    requires
        expected_samples * 2 <= usize::MAX,
    ensures
        match *message {
            BrowserMessage::Binary(payload) => if payload@.len() == expected_samples * 2 {
                r matches BrowserStep::Send(frame) && frame@ == packet::pcm_samples(payload@)
            } else {
                r matches BrowserStep::Fail(e) && e@ == packet::browser_frame_complaint(
                    expected_samples as nat,
                    payload@.len(),
                )
            },
            BrowserMessage::Close => r is End,
            _ => r is Ignore,
        },
{
    match message {
        BrowserMessage::Binary(payload) => match decode_browser_pcm(payload.as_slice(), expected_samples) {
            Ok(frame) => BrowserStep::Send(frame),
            Err(e) => BrowserStep::Fail(e),
        },
        BrowserMessage::Close => BrowserStep::End,
        _ => BrowserStep::Ignore,
    }
}

// ── Receiving voice ──────────────────────────────────────────────────────────

/// What became of a frame that was handed to the player.
#[derive(Clone, Copy, Debug, PartialEq, Eq, Structural)]
pub enum PlaybackOutcome {
    /// It waits to be played.
    Queued,
    /// The player is gone.
    Closed,
    /// The player's queue stayed full.
    TimedOut,
}

/// Who opened a link.
#[derive(Clone, Copy, Debug, PartialEq, Eq, Structural)]
pub enum LinkSide {
    /// This node.
    Out,
    /// The other node.
    In,
}

/// Whom a packet is said to come from: the peer at the far end of a link that this
/// node opened; the sender over any other link is not known.
pub fn remote_name(link: LinkSide, hash: &AddressHash) -> (r: String)
    ensures
        r@ == match link {
            LinkSide::Out => peer_key(*hash),
            LinkSide::In => "incoming-link"@,
        },
{
    match link {
        LinkSide::Out => hash.to_hex_string(),
        LinkSide::In => "incoming-link".to_owned(),
    }
}

/// How long a received frame may wait for room in the player's queue, in
/// milliseconds: six frames, but no less than 120.
pub open spec fn wait_ms(frame_ms: u32) -> u64 {
    if frame_ms * 6 > 120 {
        (frame_ms * 6) as u64
    } else {
        120
    }
}

/// How long a received frame may wait for room in the player's queue, in milliseconds.
pub fn playback_wait_ms(cfg: &PluginConfig) -> (r: u64)
    ensures
        r == wait_ms(cfg.frame_ms),
{
    let six: u64 = (cfg.frame_ms as u64) * 6;
    if six > 120 {
        six
    } else {
        120
    }
}

/// What is said of a frame that found no room.
pub open spec fn full_words(frame_ms: u32) -> Seq<char> {
    "playback buffer stayed full for "@ + digits::decimal(wait_ms(frame_ms) as nat) + " ms, dropping received frame"@
}

impl PttState {
    /// Takes in a voice packet. While this node transmits it is dropped and
    /// counted. Otherwise its samples come out, or a complaint where it is no
    /// voice packet or its size does not fit the settings.
    pub fn receive_audio(&mut self, payload: &[u8]) -> (r: Result<Option<Vec<i16>>, String>)
        requires
            !old(self).stats.transmitting && packet::packet_payload(payload@) is Some ==> old(
                self,
            ).config.sample_rate_hz * old(self).config.frame_ms <= usize::MAX,
        ensures
            final(self).config == old(self).config,
            final(self).local_destination == old(self).local_destination,
            final(self).peers == old(self).peers,
            final(self).active == old(self).active,
            final(self).stats == if old(self).stats.transmitting {
                Stats {
                    dropped_rx_while_talking: counter::raised(old(self).stats.dropped_rx_while_talking, 1),
                    ..old(self).stats
                }
            } else {
                old(self).stats
            },
            if old(self).stats.transmitting {
                r == Ok::<Option<Vec<i16>>, String>(None)
            } else {
                match packet::packet_payload(payload@) {
                    None => r is Err && r->Err_0@ == "invalid audio packet header"@,
                    Some(body) => {
                        let len = audio::samples_in_frame(old(self).config);
                        if body.len() == 8 && len == 160 {
                            &&& r is Ok && r->Ok_0 is Some
                            &&& r->Ok_0->0@.len() == len
                            &&& codec::is_voice_of(body, r->Ok_0->0@)
                        } else {
                            r is Err && r->Err_0@ == codec::decode_complaint(160, 8, body.len(), len)
                        }
                    },
                }
            },
    {
        if self.stats.transmitting {
            self.stats.dropped_rx_while_talking = self.stats.dropped_rx_while_talking.wrapping_add(1);
            return Ok(None);
        }
        let body = match decode_packet(payload) {
            Some(body) => body,
            None => {
                return Err("invalid audio packet header".to_owned());
            },
        };
        let frame_len: usize = frame_samples(&self.config);
        let mut rx = match RxCodec::new(&self.config) {
            Ok(rx) => rx,
            Err(e) => {
                return Err(e);
            },
        };
        match rx.decode(body, frame_len) {
            Ok(pcm) => Ok(Some(pcm)),
            Err(e) => Err(e),
        }
    }

    /// Takes note of what became of a received frame. One that waits to be played
    /// is counted with its sender; one that found no room is counted as dropped.
    pub fn audio_delivered(&mut self, payload_len: usize, remote: String, outcome: PlaybackOutcome, now: u64) -> (r: Result<
        (),
        String,
    >)
        ensures
            final(self).config == old(self).config,
            final(self).local_destination == old(self).local_destination,
            final(self).peers == old(self).peers,
            final(self).active == old(self).active,
            match outcome {
                PlaybackOutcome::Queued => {
                    &&& r is Ok
                    &&& final(self).stats == (Stats {
                        last_remote: Some(remote),
                        rx_packets: counter::raised(old(self).stats.rx_packets, 1),
                        rx_bytes: counter::raised(old(self).stats.rx_bytes, payload_len as u64),
                        ..old(self).stats
                    })
                },
                PlaybackOutcome::Closed => {
                    &&& r is Err
                    &&& r->Err_0@ == "playback loop is unavailable"@
                    &&& final(self).stats == old(self).stats
                },
                PlaybackOutcome::TimedOut => {
                    &&& r is Ok
                    &&& text::view_opt(final(self).stats.last_playback_error) == Some(full_words(old(self).config.frame_ms))
                    &&& final(self).stats == (Stats {
                        playback_drops: counter::raised(old(self).stats.playback_drops, 1),
                        last_playback_error: final(self).stats.last_playback_error,
                        last_playback_error_ts: now,
                        ..old(self).stats
                    })
                },
            },
    {
        match outcome {
            PlaybackOutcome::Queued => {
                self.stats.last_remote = Some(remote);
                self.stats.rx_packets = self.stats.rx_packets.wrapping_add(1);
                self.stats.rx_bytes = self.stats.rx_bytes.wrapping_add(payload_len as u64);
                Ok(())
            },
            PlaybackOutcome::Closed => Err("playback loop is unavailable".to_owned()),
            PlaybackOutcome::TimedOut => {
                self.stats.playback_drops = self.stats.playback_drops.wrapping_add(1);
                let words = cat3(
                    "playback buffer stayed full for ",
                    digits::dec(playback_wait_ms(&self.config)).as_str(),
                    " ms, dropping received frame",
                );
                self.stats.record_playback_error(words, now);
                Ok(())
            },
        }
    }

    /// Takes note that voice could not be received over a link.
    pub fn receive_failed(&mut self, link: LinkSide, err: &str, now: u64)
        ensures
            final(self).config == old(self).config,
            final(self).local_destination == old(self).local_destination,
            final(self).peers == old(self).peers,
            final(self).active == old(self).active,
            text::view_opt(final(self).stats.last_playback_error) == Some(
                match link {
                    LinkSide::Out => "receive audio over out-link: "@,
                    LinkSide::In => "receive audio over in-link: "@,
                } + err@,
            ),
            final(self).stats == (Stats {
                last_playback_error: final(self).stats.last_playback_error,
                last_playback_error_ts: now,
                ..old(self).stats
            }),
    {
        let words = match link {
            LinkSide::Out => text::cat2("receive audio over out-link: ", err),
            LinkSide::In => text::cat2("receive audio over in-link: ", err),
        };
        self.stats.record_playback_error(words, now);
    }

    /// Takes note that the player came to an end because of an error.
    pub fn playback_failed(&mut self, err: &str, now: u64)
        ensures
            final(self).config == old(self).config,
            final(self).local_destination == old(self).local_destination,
            final(self).peers == old(self).peers,
            final(self).active == old(self).active,
            text::view_opt(final(self).stats.last_playback_error) == Some("playback loop: "@ + err@),
            final(self).stats == (Stats {
                last_playback_error: final(self).stats.last_playback_error,
                last_playback_error_ts: now,
                ..old(self).stats
            }),
    {
        self.stats.record_playback_error(text::cat2("playback loop: ", err), now);
    }

    /// Reacts to an event on a link to a peer: the peer's status follows the link,
    /// and a payload is handed back to be received.
    pub fn out_link_event(&mut self, hash: &AddressHash, event: LinkEvent, now: u64) -> (r: Option<Vec<u8>>)
        requires
            old(self).wf(),
        ensures
            final(self).wf(),
            final(self).same_but_peers(old(self)),
            match event {
                LinkEvent::Activated => r is None && final(self).known() == with_status(
                    old(self).known(),
                    *hash,
                    "active"@,
                    now,
                ),
                LinkEvent::Closed => r is None && final(self).known() == with_status(
                    old(self).known(),
                    *hash,
                    "closed"@,
                    now,
                ),
                LinkEvent::Proof => r is None && final(self).known() == with_status(
                    old(self).known(),
                    *hash,
                    "handshake"@,
                    now,
                ),
                LinkEvent::Data(payload) => r == Some(payload) && final(self).known() == old(self).known(),
            },
    {
        match event {
            LinkEvent::Activated => {
                self.update_peer_status(hash, "active", now);
                None
            },
            LinkEvent::Closed => {
                self.update_peer_status(hash, "closed", now);
                None
            },
            LinkEvent::Proof => {
                self.update_peer_status(hash, "handshake", now);
                None
            },
            LinkEvent::Data(payload) => Some(payload),
        }
    }

    /// Reacts to an event on a link that a peer opened: the payload where it was
    /// sent to this node.
    pub fn in_link_event(&self, hash: &AddressHash, event: LinkEvent) -> (r: Option<Vec<u8>>)
        ensures
            r == match event {
                LinkEvent::Data(payload) => if peer_key(*hash) == self.local_destination@ {
                    Some(payload)
                } else {
                    None
                },
                _ => None,
            },
    {
        if !same(hash.to_hex_string().as_str(), self.local_destination.as_str()) {
            return None;
        }
        match event {
            LinkEvent::Data(payload) => Some(payload),
            _ => None,
        }
    }
}

// ── What the plugin is for ───────────────────────────────────────────────────

/// Only a link that was closed, or none at all, has to be opened anew.
pub proof fn law_links_are_reused_unless_closed(existing: Option<LinkStatus>, r: bool)
    requires
        call_ensures(should_reuse_existing_out_link, (existing,), r),
    ensures
        !r <==> existing is None || existing == Some(LinkStatus::Closed),
{
}

/// Push-to-talk nodes announce themselves with the letters `KAP1` and nothing else.
pub proof fn law_announcements_are_told_by_four_letters(app_data: &[u8], r: bool)
    requires
        call_ensures(is_ptt_announce, (app_data,), r),
    ensures
        r <==> app_data@.len() == 4 && app_data@[0] == 'K' as u8 && app_data@[1] == 'A' as u8 && app_data@[2] == 'P' as u8
            && app_data@[3] == '1' as u8,
{
    let magic = AUDIO_PTT_ANNOUNCE_MAGIC@;
    assert(magic.len() == 4 && magic[0] == 0x4B && magic[1] == 0x41 && magic[2] == 0x50 && magic[3] == 0x31);
    if app_data@.len() == 4 && app_data@[0] == 'K' as u8 && app_data@[1] == 'A' as u8 && app_data@[2] == 'P' as u8
        && app_data@[3] == '1' as u8 {
        assert(app_data@ =~= magic);
    }
}

/// A link to a peer is due exactly where the peer is known and no link to it can be used; the peer
/// then waits for it, and everything else stays as it was.
pub proof fn law_link_is_due_to_known_peers_without_one(
    state: &mut PttState,
    hash: &AddressHash,
    existing: Option<LinkStatus>,
    r: Result<Option<DestinationDesc>, String>,
    other: Seq<char>,
)
    requires
        old(state).wf(),
        call_ensures(PttState::ensure_out_link, (state, hash, existing), r),
    ensures
        ({
            let key = digits::hex_of(hash@);
            let known = old(state).known();
            &&& r is Ok <==> known.contains_key(key)
            &&& r is Ok && (existing is None || existing == Some(LinkStatus::Closed)) ==> {
                &&& r->Ok_0 == Some(known[key].0)
                &&& r->Ok_0->0.address_hash@ == hash@
                &&& final(state).known()[key] == (known[key].0, "pending"@, known[key].2)
            }
            &&& r is Err || !(existing is None || existing == Some(LinkStatus::Closed)) ==> final(state).known() == known
            &&& r is Ok && !(existing is None || existing == Some(LinkStatus::Closed)) ==> r->Ok_0 is None
            &&& final(state).known().contains_key(other) == known.contains_key(other)
            &&& other != key ==> final(state).known()[other] == known[other]
        }),
        final(state).active == old(state).active && final(state).stats == old(state).stats,
{
    let key = digits::hex_of(hash@);
    if old(state).known().contains_key(key) {
        let found = old(state).known()[key].0;
        assert(key == peer_key(found.address_hash));
        mesh::law_hash_text_reads_back(hash@);
        mesh::law_hash_text_reads_back(found.address_hash@);
    }
}

/// A node that announces itself is known from then on, with what it announced and the time; a link to
/// it is due unless there is one that can be used. The node's own announcement changes nothing. A node
/// whose link is up stays active, any other is as it was found, and waits where a link is due.
pub proof fn law_announcing_makes_known(
    state: &mut PttState,
    desc: DestinationDesc,
    existing: Option<LinkStatus>,
    now: u64,
    r: Result<Option<DestinationDesc>, String>,
    other: Seq<char>,
)
    requires
        old(state).wf(),
        call_ensures(PttState::register_announced_peer, (state, desc, existing, now), r),
    ensures
        ({
            let key = digits::hex_of(desc.address_hash@);
            let before = old(state).known();
            let after = final(state).known();
            let usable = existing is Some && existing != Some(LinkStatus::Closed);
            &&& r is Ok
            &&& key == old(state).local_destination@ ==> r->Ok_0 is None && after == before
            &&& key != old(state).local_destination@ ==> {
                &&& after.contains_key(key)
                &&& after[key].0 == desc && after[key].2 == now
                &&& r->Ok_0 == if usable {
                    None
                } else {
                    Some(desc)
                }
                &&& !usable ==> after[key].1 == "pending"@
                &&& usable && before.contains_key(key) && before[key].1 == "active"@ ==> after[key].1 == "active"@
                &&& usable && !(before.contains_key(key) && before[key].1 == "active"@) ==> after[key].1 == "discovered"@
            }
            &&& other != key ==> after.contains_key(other) == before.contains_key(other) && after[other] == before[other]
        }),
        final(state).active == old(state).active && final(state).stats == old(state).stats,
{
}

/// The node's microphone is let on the air exactly where a known peer is selected and nobody
/// transmits; then it transmits, and is marked so.
pub proof fn law_microphone_needs_a_peer_and_silence(
    state: &mut PttState,
    peer: Option<AddressHash>,
    existing: Option<LinkStatus>,
    r: StartOutcome,
)
    requires
        old(state).wf(),
        call_ensures(PttState::start_alsa, (state, peer, existing), r),
    ensures
        r.refusal is None <==> peer is Some && old(state).known().contains_key(digits::hex_of(peer->0@)) && old(
            state,
        ).active is None,
        r.refusal is None ==> final(state).active == Some(ActiveTx::Alsa) && final(state).stats.transmitting && r.source
            == Some(ActiveTx::Alsa),
        r.refusal is Some ==> final(state).active == old(state).active && final(state).stats == old(state).stats
            && r.source is None,
        peer is None ==> r.refusal->0@.0 == 400,
        peer is Some && r.refusal is Some ==> r.refusal->0@.0 == 409,
        r.open is Some ==> peer is Some && r.open->0 == old(state).known()[digits::hex_of(peer->0@)].0,
        r.open is Some <==> peer is Some && old(state).known().contains_key(digits::hex_of(peer->0@)) && (existing is None
            || existing == Some(LinkStatus::Closed)),
{
}

/// A browser is let on the air exactly where a known peer is selected and the node's microphone is not
/// on; it then takes over from any earlier browser, under a number that no session had before.
pub proof fn law_browsers_take_over_from_browsers_only(
    state: &mut PttState,
    peer: Option<AddressHash>,
    existing: Option<LinkStatus>,
    r: StartOutcome,
)
    requires
        old(state).wf(),
        old(state).stats.browser_session_seq < u64::MAX,
        call_ensures(PttState::start_browser, (state, peer, existing), r),
    ensures
        r.refusal is None <==> peer is Some && old(state).known().contains_key(digits::hex_of(peer->0@)) && old(
            state,
        ).active != Some(ActiveTx::Alsa),
        r.refusal is None ==> {
            let id = old(state).stats.browser_session_seq + 1;
            &&& r.source == Some(ActiveTx::Browser(id as u64))
            &&& final(state).active == r.source
            &&& final(state).stats.transmitting
            &&& final(state).stats.browser_session_seq == id
        },
        r.refusal is Some ==> final(state).active == old(state).active && final(state).stats.transmitting == old(
            state,
        ).stats.transmitting && r.source is None,
        peer is None ==> r.refusal->0@.0 == 400,
        peer is Some && r.refusal is Some ==> r.refusal->0@.0 == 409,
        r.open is Some ==> peer is Some && r.open->0 == old(state).known()[digits::hex_of(peer->0@)].0,
{
}

/// The node's microphone can be turned off where it is on, and nothing else is turned off that way: a
/// browser that transmits keeps transmitting.
pub proof fn law_stop_ends_the_microphone_only(state: &mut PttState, r: Result<bool, String>)
    requires
        call_ensures(PttState::stop_alsa, (state,), r),
    ensures
        r == Ok::<bool, String>(true) <==> old(state).active == Some(ActiveTx::Alsa),
        r is Err <==> old(state).active is Some && old(state).active->0 is Browser,
        r is Ok ==> final(state).active is None,
        r is Err ==> final(state).active == old(state).active,
        final(state).stats == old(state).stats,
{
}

/// A transmission lasts until its own end: the end of a browser session ends the transmission of that
/// session and no other, and a shutdown ends any. What has ended is no longer marked.
pub proof fn law_transmissions_end_on_their_own(state: &mut PttState, id: u64, off: &mut PttState, capture: bool, stopped: &mut PttState, detail: String)
    requires
        call_ensures(PttState::finish_browser_tx_session, (state, id), ()),
        call_ensures(PttState::shutdown_tx_session, (off,), capture),
        call_ensures(PttState::alsa_stopped, (stopped,), detail),
    ensures
        old(state).active == Some(ActiveTx::Browser(id)) ==> final(state).active is None && !final(state).stats.transmitting,
        old(state).active != Some(ActiveTx::Browser(id)) ==> final(state).active == old(state).active && final(state).stats
            == old(state).stats,
        final(off).active is None && !final(off).stats.transmitting,
        capture <==> old(off).active == Some(ActiveTx::Alsa),
        !final(stopped).stats.transmitting && final(stopped).active == old(stopped).active,
        final(state).peers == old(state).peers && final(off).peers == old(off).peers && final(stopped).peers == old(
            stopped,
        ).peers,
{
}

/// While the node's microphone is on the air no browser gets on it, and after it was stopped a browser
/// does.
pub proof fn law_one_source_at_a_time(
    s0: &mut PttState,
    peer: Option<AddressHash>,
    existing: Option<LinkStatus>,
    started: StartOutcome,
    s1: &mut PttState,
    refused: StartOutcome,
    s2: &mut PttState,
    stopped: Result<bool, String>,
    s3: &mut PttState,
    granted: StartOutcome,
)
    requires
        old(s0).wf(),
        old(s0).stats.browser_session_seq < u64::MAX - 1,
        call_ensures(PttState::start_alsa, (s0, peer, existing), started),
        started.refusal is None,
        *old(s1) == *final(s0),
        call_ensures(PttState::start_browser, (s1, peer, existing), refused),
        *old(s2) == *final(s1),
        call_ensures(PttState::stop_alsa, (s2,), stopped),
        *old(s3) == *final(s2),
        call_ensures(PttState::start_browser, (s3, peer, existing), granted),
    ensures
        refused.refusal is Some && refused.source is None && final(s1).active == Some(ActiveTx::Alsa),
        stopped == Ok::<bool, String>(true),
        granted.refusal is None && granted.source is Some && granted.source->0 is Browser,
{
}

/// Nothing is played while the node transmits: a packet that comes then is counted and gone. Otherwise
/// eight bytes of voice in a packet become a frame, and a packet that is none is refused.
pub proof fn law_nothing_is_heard_while_talking(state: &mut PttState, payload: &[u8], r: Result<Option<Vec<i16>>, String>)
    requires
        old(state).config.sample_rate_hz == 8_000 && old(state).config.frame_ms == 20,
        call_ensures(PttState::receive_audio, (state, payload), r),
    ensures
        old(state).stats.transmitting ==> r == Ok::<Option<Vec<i16>>, String>(None) && (
        final(state).stats.dropped_rx_while_talking - old(state).stats.dropped_rx_while_talking - 1)
            % 0x1_0000_0000_0000_0000 == 0,
        !old(state).stats.transmitting ==> {
            &&& final(state).stats == old(state).stats
            &&& r is Ok <==> payload@.len() == 16 && payload@[0] == 'K' as u8 && payload@[1] == 'P' as u8 && payload@[2]
                == 'T' as u8 && payload@[3] == '2' as u8
            &&& r is Ok ==> r->Ok_0 is Some && r->Ok_0->0@.len() == 160 && codec::is_voice_of(payload@.skip(8), r->Ok_0->0@)
        },
        final(state).active == old(state).active && final(state).peers == old(state).peers,
        final(state).stats.rx_packets == old(state).stats.rx_packets,
{
    let start = payload@.take(4);
    let magic = packet::PACKET_MAGIC@;
    assert(magic.len() == 4 && magic[0] == 0x4B && magic[1] == 0x50 && magic[2] == 0x54 && magic[3] == 0x32);
    if payload@.len() >= 8 {
        assert(start[0] == payload@[0] && start[1] == payload@[1] && start[2] == payload@[2] && start[3] == payload@[3]);
        if payload@[0] == 'K' as u8 && payload@[1] == 'P' as u8 && payload@[2] == 'T' as u8 && payload@[3] == '2' as u8 {
            assert(start =~= packet::PACKET_MAGIC@);
        }
    }
}

/// What a node sends is a packet with the bytes of the encoder's next frame and the next number; the
/// packet after it has the number that follows.
pub proof fn law_packets_carry_encoded_frames(
    st: &mut Stats,
    tx: &mut TxCodec,
    frame: &[i16],
    r: Result<Vec<u8>, String>,
    wire: &[u8],
    payload: Option<&[u8]>,
)
    requires
        old(tx).wf(),
        call_ensures(prepare_packet, (st, tx, frame), r),
        r is Ok,
        wire@ == r->Ok_0@,
        call_ensures(decode_packet, (wire,), payload),
    ensures
        frame@.len() == old(tx).samples(),
        payload is Some,
        codec::codec2_encodes(old(tx).codec(), frame@, final(tx).codec(), payload->0@),
        ((wire@[4] * 256 + wire@[5]) * 256 + wire@[6]) * 256 + wire@[7] == old(st).seq % 0x1_0000_0000,
        (final(st).seq - old(st).seq - 1) % 0x1_0000_0000_0000_0000 == 0,
        final(st).tx_packets == old(st).tx_packets,
{
    let seq = (old(st).seq % 0x1_0000_0000) as u32;
    packet::law_packet_round_trip(seq, final(tx).last_encoded());
    let b = packet::be_bytes(seq);
    assert(wire@[4] == b[0] && wire@[5] == b[1] && wire@[6] == b[2] && wire@[7] == b[3]);
}

/// A packet counts as sent, with its bytes, exactly where it went out over some link; then once,
/// however many links there are.
pub proof fn law_sent_packets_are_counted(st: &mut Stats, peer: &AddressHash, links: usize, packet_len: usize, r: Result<(), String>)
    requires
        call_ensures(packet_sent, (st, peer, links, packet_len), r),
    ensures
        r is Ok <==> links != 0,
        (final(st).tx_packets - old(st).tx_packets - if links != 0 {
            1int
        } else {
            0int
        }) % 0x1_0000_0000_0000_0000 == 0,
        (final(st).tx_bytes - old(st).tx_bytes - if links != 0 {
            packet_len as int
        } else {
            0int
        }) % 0x1_0000_0000_0000_0000 == 0,
        final(st).rx_packets == old(st).rx_packets && final(st).rx_bytes == old(st).rx_bytes,
{
}

/// Of a browser's messages, frames of the right size are sent sample for sample, frames of another size
/// end the session with a complaint, a close ends it without, and anything else is passed over.
pub proof fn law_browser_frames_are_sent(message: &BrowserMessage, expected: usize, r: BrowserStep, i: int)
    requires
        expected * 2 <= usize::MAX,
        call_ensures(browser_step, (message, expected), r),
    ensures
        r is Send <==> *message is Binary && message->Binary_0@.len() == 2 * expected,
        r is Fail <==> *message is Binary && message->Binary_0@.len() != 2 * expected,
        r is End <==> *message is Close,
        r matches BrowserStep::Send(frame) ==> frame@.len() == expected && (0 <= i < expected ==> (message->Binary_0@[2 * i]
            + 256 * message->Binary_0@[2 * i + 1] - frame@[i]) % 0x1_0000 == 0),
{
}

/// A frame that waits to be played counts as received, with its bytes and its sender; one that found no
/// room counts as dropped and not as received; where the player is gone nothing is counted.
pub proof fn law_received_frames_are_counted(
    state: &mut PttState,
    len: usize,
    remote: String,
    outcome: PlaybackOutcome,
    now: u64,
    r: Result<(), String>,
)
    requires
        call_ensures(PttState::audio_delivered, (state, len, remote, outcome, now), r),
    ensures
        ({
            let before = old(state).stats;
            let after = final(state).stats;
            let queued = if outcome == PlaybackOutcome::Queued {
                1int
            } else {
                0int
            };
            let dropped = if outcome == PlaybackOutcome::TimedOut {
                1int
            } else {
                0int
            };
            &&& (after.rx_packets - before.rx_packets - queued) % 0x1_0000_0000_0000_0000 == 0
            &&& (after.rx_bytes - before.rx_bytes - queued * len) % 0x1_0000_0000_0000_0000 == 0
            &&& (after.playback_drops - before.playback_drops - dropped) % 0x1_0000_0000_0000_0000 == 0
            &&& outcome == PlaybackOutcome::Queued ==> after.last_remote == Some(remote) && after.last_playback_error
                == before.last_playback_error
            &&& outcome == PlaybackOutcome::TimedOut ==> after.last_remote == before.last_remote && after.last_playback_error_ts
                == now && after.last_playback_error is Some
            &&& outcome == PlaybackOutcome::Closed ==> after == before
            &&& r is Err <==> outcome == PlaybackOutcome::Closed
            &&& after.tx_packets == before.tx_packets && after.transmitting == before.transmitting
        }),
{
}

/// A frame waits for the time of six frames, and never less than 120 milliseconds.
pub proof fn law_frames_wait_for_six(cfg: &PluginConfig, r: u64)
    requires
        call_ensures(playback_wait_ms, (cfg,), r),
    ensures
        r >= 6 * cfg.frame_ms,
        r >= 120,
        r == 6 * cfg.frame_ms || r == 120,
{
}

/// What comes over a link is handed on as it is, and a known peer is shown as its link was last seen:
/// up, closed or shaking hands. No other peer changes, and an unknown one stays unknown.
pub proof fn law_peers_are_shown_as_their_links(
    state: &mut PttState,
    hash: &AddressHash,
    event: LinkEvent,
    now: u64,
    r: Option<Vec<u8>>,
    other: Seq<char>,
)
    requires
        old(state).wf(),
        call_ensures(PttState::out_link_event, (state, hash, event, now), r),
    ensures
        ({
            let key = digits::hex_of(hash@);
            let before = old(state).known();
            let after = final(state).known();
            &&& r is Some <==> event is Data
            &&& event matches LinkEvent::Data(payload) ==> r == Some(payload) && after == before
            &&& before.contains_key(key) && event == LinkEvent::Activated ==> after[key] == (before[key].0, "active"@, now)
            &&& before.contains_key(key) && event == LinkEvent::Closed ==> after[key] == (before[key].0, "closed"@, now)
            &&& before.contains_key(key) && event == LinkEvent::Proof ==> after[key] == (before[key].0, "handshake"@, now)
            &&& after.contains_key(other) == before.contains_key(other)
            &&& other != key ==> after[other] == before[other]
        }),
{
}

/// Over links that others opened, a node hears exactly what was sent to its own address.
pub proof fn law_only_own_traffic_is_heard(state: &PttState, hash: &AddressHash, event: LinkEvent, r: Option<Vec<u8>>)
    requires
        call_ensures(PttState::in_link_event, (state, hash, event), r),
    ensures
        r is Some <==> event is Data && digits::hex_of(hash@) == state.local_destination@,
        r is Some ==> r->0 == event->Data_0,
{
}

/// The sender is named where the node opened the link itself, and only there.
pub proof fn law_senders_are_named_on_own_links(link: LinkSide, hash: &AddressHash, r: String)
    requires
        call_ensures(remote_name, (link, hash), r),
    ensures
        link == LinkSide::Out ==> r@ == digits::hex_of(hash@),
        link == LinkSide::In ==> r@ == "incoming-link"@,
{
}

/// A new state of a known peer is remembered with its time; nobody becomes known by it, and nobody else
/// changes.
pub proof fn law_peers_change_their_own_state(state: &mut PttState, hash: &AddressHash, status: &str, now: u64, other: Seq<char>)
    requires
        old(state).wf(),
        call_ensures(PttState::update_peer_status, (state, hash, status, now), ()),
    ensures
        ({
            let key = digits::hex_of(hash@);
            let before = old(state).known();
            let after = final(state).known();
            &&& after.contains_key(other) <==> before.contains_key(other)
            &&& before.contains_key(key) ==> after[key].0 == before[key].0 && after[key].1 == status@ && after[key].2 == now
            &&& other != key && before.contains_key(other) ==> after[other] == before[other]
        }),
        final(state).config == old(state).config && final(state).active == old(state).active && final(state).stats == old(
            state,
        ).stats,
{
}

/// The selected peer is read from its digits, two to a byte; without a selection there is none.
pub proof fn law_selected_peer_is_read(cfg: &PluginConfig, r: Option<AddressHash>, i: int)
    requires
        selection_readable(*cfg),
        call_ensures(parse_selected_peer, (cfg,), r),
        0 <= i < 16,
    ensures
        cfg.selected_peer is None ==> r is None,
        cfg.selected_peer matches Some(s) ==> {
            &&& r is None <==> text::byte_len(s@) < 32
            &&& s@.len() == 32 && digits::all_hex(s@) ==> r is Some && r->0@[i] == 16 * digits::hex_value(s@[2 * i])->0
                + digits::hex_value(s@[2 * i + 1])->0
        },
{
    if let Some(s) = cfg.selected_peer {
        if s@.len() == 32 && digits::all_hex(s@) {
            mesh::law_hash_text_normalises(s@);
            assert(digits::hex_value(s@[2 * i]) is Some && digits::hex_value(s@[2 * i + 1]) is Some);
        }
    }
}

/// Who transmits is called by its kind.
pub proof fn law_source_is_named(state: &PttState, r: Option<String>)
    requires
        call_ensures(PttState::active_source, (state,), r),
    ensures
        r is None <==> state.active is None,
        state.active == Some(ActiveTx::Alsa) ==> r is Some && r->0@ == "alsa"@,
        state.active is Some && state.active->0 is Browser ==> r is Some && r->0@ == "browser"@,
{
}

/// What goes wrong with received voice is remembered with its place and its time, and changes nothing else.
pub proof fn law_playback_errors_are_remembered(
    state: &mut PttState,
    link: LinkSide,
    err: &str,
    now: u64,
    player: &mut PttState,
)
    requires
        call_ensures(PttState::receive_failed, (state, link, err, now), ()),
        call_ensures(PttState::playback_failed, (player, err, now), ()),
    ensures
        final(state).stats.last_playback_error is Some && final(player).stats.last_playback_error is Some,
        link is Out ==> final(state).stats.last_playback_error->0@ == "receive audio over out-link: "@ + err@,
        link is In ==> final(state).stats.last_playback_error->0@ == "receive audio over in-link: "@ + err@,
        final(player).stats.last_playback_error->0@ == "playback loop: "@ + err@,
        final(state).stats.last_playback_error_ts == now && final(player).stats.last_playback_error_ts == now,
        final(state).stats.transmitting == old(state).stats.transmitting && final(state).stats.rx_packets == old(
            state,
        ).stats.rx_packets,
        final(state).active == old(state).active && final(state).peers == old(state).peers && final(player).active == old(
            player,
        ).active && final(player).peers == old(player).peers,
{
}

/// Sixty-four frames wait to be played, and twice as many to be taken in.
pub proof fn law_buffers_of_the_player()
    ensures
        PLAYBACK_BUFFER_FRAMES == 64,
        RECEIVE_PLAYBACK_BUFFER_FRAMES == 2 * PLAYBACK_BUFFER_FRAMES,
{
}

/// Starting and ending a transmission leaves the settings and the address of the node alone.
pub proof fn law_transmissions_change_no_settings(
    state: &mut PttState,
    id: u64,
    off: &mut PttState,
    capture: bool,
    ended: &mut PttState,
    detail: String,
    stopped: &mut PttState,
    r: Result<bool, String>,
)
    requires
        call_ensures(PttState::finish_browser_tx_session, (state, id), ()),
        call_ensures(PttState::shutdown_tx_session, (off,), capture),
        call_ensures(PttState::alsa_stopped, (ended,), detail),
        call_ensures(PttState::stop_alsa, (stopped,), r),
    ensures
        final(state).config == old(state).config && final(state).local_destination == old(state).local_destination,
        final(off).config == old(off).config && final(off).local_destination == old(off).local_destination,
        final(ended).config == old(ended).config && final(ended).local_destination == old(ended).local_destination,
        final(stopped).config == old(stopped).config && final(stopped).local_destination == old(stopped).local_destination,
        final(ended).stats.tx_packets == old(ended).stats.tx_packets && final(ended).stats.seq == old(ended).stats.seq,
{
}

} // verus!
