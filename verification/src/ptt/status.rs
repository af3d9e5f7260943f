//! What the plugin shows of itself, and how its settings are changed.

use vstd::prelude::*;

use crate::mesh::DestinationDesc;
use crate::order;
use crate::order::sort_dedup;
use crate::ptt::config;
use crate::ptt::config::{normalize_selected_peer, PluginConfig};
use crate::ptt::session::{PeerState, PttState};
use crate::ptt::stats::Stats;
use crate::reply::{reply, reply_with, Reply, BAD_REQUEST, INTERNAL_SERVER_ERROR, OK};
use crate::text;
use crate::text::{cat3, is_empty, same, trim};

verus! {

/// A peer as it is shown.
#[derive(Debug, Clone)]
pub struct PeerSnapshot {
    pub hash: String,
    pub status: String,
    pub last_seen_ts: u64,
}

impl View for PeerSnapshot {
    type V = (Seq<char>, Seq<char>, u64);

    open spec fn view(&self) -> (Seq<char>, Seq<char>, u64) {
        (self.hash@, self.status@, self.last_seen_ts)
    }
}

/// The plugin as it is shown.
#[derive(Debug, Clone)]
pub struct StatusSnapshot {
    pub config: PluginConfig,
    pub local_destination: String,
    pub peers: Vec<PeerSnapshot>,
    pub transmitting: bool,
    pub active_source: Option<String>,
    pub tx_packets: u64,
    pub rx_packets: u64,
    pub tx_bytes: u64,
    pub rx_bytes: u64,
    pub dropped_rx_while_talking: u64,
    pub playback_drops: u64,
    pub played_frames: u64,
    pub last_played_ts: u64,
    pub last_played_samples: u64,
    pub last_playback_error_ts: u64,
    pub last_remote: Option<String>,
    pub last_playback_error: Option<String>,
}

/// The order in which peers are shown: the selected one first, then by address.
pub open spec fn shown_before(selected: Option<Seq<char>>, a: Seq<char>, b: Seq<char>) -> bool {
    if (selected == Some(a)) != (selected == Some(b)) {
        selected == Some(a)
    } else {
        order::text_lt(a, b)
    }
}

/// Whether a list shows what is known of the peers: every peer once, as it is
/// known, in the order in which peers are shown.
pub open spec fn shows_peers(
    list: Seq<PeerSnapshot>,
    known: Map<Seq<char>, (DestinationDesc, Seq<char>, u64)>,
    selected: Option<Seq<char>>,
) -> bool {
    &&& forall|i: int, j: int|
        0 <= i < j < list.len() ==> shown_before(selected, (#[trigger] list[i]).hash@, (#[trigger] list[j]).hash@)
    &&& forall|i: int|
        0 <= i < list.len() ==> {
            &&& known.contains_key((#[trigger] list[i]).hash@)
            &&& list[i].status@ == known[list[i].hash@].1
            &&& list[i].last_seen_ts == known[list[i].hash@].2
        }
    &&& forall|key: Seq<char>| #[trigger]
        known.contains_key(key) ==> exists|i: int| 0 <= i < list.len() && (#[trigger] list[i]).hash@ == key
}

/// A peer as it is shown.
fn snapshot_of(key: &str, peer: &PeerState) -> (r: PeerSnapshot)
    ensures
        r@ == (key@, peer@.1, peer@.2),
{
    PeerSnapshot { hash: key.to_owned(), status: peer.status.clone(), last_seen_ts: peer.last_seen_ts }
}

/// The peers in the order in which they are shown.
pub fn list_peers(state: &PttState) -> (list: Vec<PeerSnapshot>)
    requires
        state.wf(),
    ensures
        shows_peers(list@, state.known(), text::view_opt(state.config.selected_peer)),
{
    let ghost known = state.known();
    let ghost selected = text::view_opt(state.config.selected_peer);
    let n: usize = state.peers.len();
    let mut keys: Vec<String> = Vec::new();
    let mut i: usize = 0;
    while i < n
        invariant
            n == state.peers.keys().len(),
            i <= n,
            text::views(keys@) =~= state.peers.keys().take(i as int),
        decreases n - i,
    {
        let ghost before = text::views(keys@);
        keys.push(state.peers.key_at(i).clone());
        proof {
            let name = state.peers.keys()[i as int];
            assert(text::views(keys@) =~= before.push(name));
            assert(state.peers.keys().take(i + 1) =~= state.peers.keys().take(i as int).push(name));
        }
        i += 1;
    }
    let sorted = sort_dedup(&keys);
    let ghost sv = text::views(sorted@);
    proof {
        state.peers.lemma_keys();
        assert(text::views(keys@) =~= state.peers.keys());
        assert(forall|key: Seq<char>| sv.contains(key) <==> state.peers@.contains_key(key));
    }
    let mut list: Vec<PeerSnapshot> = Vec::new();
    if let Some(chosen) = &state.config.selected_peer {
        if let Some(peer) = state.peers.get(chosen.as_str()) {
            list.push(snapshot_of(chosen.as_str(), peer));
        }
    }
    let ghost head = list@;
    let mut k: usize = 0;
    while k < sorted.len()
        invariant
            state.wf(),
            known == state.known(),
            selected == text::view_opt(state.config.selected_peer),
            sv == text::views(sorted@),
            order::ascending(sv),
            forall|key: Seq<char>| sv.contains(key) <==> state.peers@.contains_key(key),
            head.len() <= 1,
            head.len() == 1 <==> selected is Some && known.contains_key(selected->0),
            head.len() == 1 ==> head[0]@ == (selected->0, known[selected->0].1, known[selected->0].2),
            k <= sorted@.len(),
            head.len() <= list@.len(),
            forall|i: int| 0 <= i < head.len() ==> #[trigger] list@[i] == head[i],
            forall|i: int|
                head.len() <= i < list@.len() ==> {
                    &&& selected != Some((#[trigger] list@[i]).hash@)
                    &&& known.contains_key(list@[i].hash@)
                    &&& list@[i].status@ == known[list@[i].hash@].1
                    &&& list@[i].last_seen_ts == known[list@[i].hash@].2
                },
            forall|i: int, j: int|
                head.len() <= i < list@.len() && k <= j < sv.len() ==> order::text_lt(
                    (#[trigger] list@[i]).hash@,
                    #[trigger] sv[j],
                ),
            forall|i: int, j: int|
                head.len() <= i < j < list@.len() ==> order::text_lt(
                    (#[trigger] list@[i]).hash@,
                    (#[trigger] list@[j]).hash@,
                ),
            forall|j: int|
                0 <= j < k && selected != Some(#[trigger] sv[j]) ==> exists|i: int|
                    head.len() <= i < list@.len() && (#[trigger] list@[i]).hash@ == sv[j],
        decreases sorted@.len() - k,
    {
        let key = sorted[k].as_str();
        proof {
            assert(sv[k as int] == key@);
            assert(sv.contains(key@));
        }
        let chosen = match &state.config.selected_peer {
            Some(s) => same(s.as_str(), key),
            None => false,
        };
        let ghost before = list@;
        if !chosen {
            if let Some(peer) = state.peers.get(key) {
                list.push(snapshot_of(key, peer));
            }
            proof {
                assert(list@.len() == before.len() + 1);
                assert forall|j: int| 0 <= j < k + 1 && selected != Some(#[trigger] sv[j]) implies exists|i: int|
                    head.len() <= i < list@.len() && (#[trigger] list@[i]).hash@ == sv[j] by {
                    if j < k {
                        let i = choose|i: int| head.len() <= i < before.len() && (#[trigger] before[i]).hash@ == sv[j];
                        assert(list@[i].hash@ == sv[j]);
                    } else {
                        assert(list@[before.len() as int].hash@ == sv[j]);
                    }
                }
            }
        }
        k += 1;
    }
    proof {
        assert forall|key: Seq<char>| #[trigger] known.contains_key(key) implies exists|i: int|
            0 <= i < list@.len() && (#[trigger] list@[i]).hash@ == key by {
            assert(sv.contains(key));
            let j = choose|j: int| 0 <= j < sv.len() && sv[j] == key;
            if selected == Some(sv[j]) {
                assert(list@[0] == head[0]);
                assert(list@[0].hash@ == key);
            } else {
                let i = choose|i: int| head.len() <= i < list@.len() && (#[trigger] list@[i]).hash@ == sv[j];
                assert(list@[i].hash@ == key);
            }
        }
        assert forall|i: int, j: int| 0 <= i < j < list@.len() implies shown_before(
            selected,
            (#[trigger] list@[i]).hash@,
            (#[trigger] list@[j]).hash@,
        ) by {
            if i < head.len() {
                assert(list@[i] == head[i]);
            }
        }
    }
    list
}

/// A copy of an optional text.
fn copy_text(o: &Option<String>) -> (r: Option<String>)
    ensures
        r == *o,
{
    match o {
        Some(s) => Some(s.clone()),
        None => None,
    }
}

/// Whether a snapshot shows the counters as they are.
pub open spec fn shows_stats(s: StatusSnapshot, st: Stats) -> bool {
    &&& s.transmitting == st.transmitting
    &&& s.tx_packets == st.tx_packets
    &&& s.rx_packets == st.rx_packets
    &&& s.tx_bytes == st.tx_bytes
    &&& s.rx_bytes == st.rx_bytes
    &&& s.dropped_rx_while_talking == st.dropped_rx_while_talking
    &&& s.playback_drops == st.playback_drops
    &&& s.played_frames == st.played_frames
    &&& s.last_played_ts == st.last_played_ts
    &&& s.last_played_samples == st.last_played_samples
    &&& s.last_playback_error_ts == st.last_playback_error_ts
    &&& s.last_remote == st.last_remote
    &&& s.last_playback_error == st.last_playback_error
}

/// The plugin as it is shown.
pub fn build_status(state: &PttState) -> (s: StatusSnapshot)
    requires
        state.wf(),
    ensures
        s.config == state.config,
        s.local_destination == state.local_destination,
        shows_peers(s.peers@, state.known(), text::view_opt(state.config.selected_peer)),
        text::view_opt(s.active_source) == state.source_name(),
        shows_stats(s, state.stats),
{
    StatusSnapshot {
        config: state.config.copy(),
        local_destination: state.local_destination.clone(),
        peers: list_peers(state),
        transmitting: state.stats.transmitting,
        active_source: state.active_source(),
        tx_packets: state.stats.tx_packets,
        rx_packets: state.stats.rx_packets,
        tx_bytes: state.stats.tx_bytes,
        rx_bytes: state.stats.rx_bytes,
        dropped_rx_while_talking: state.stats.dropped_rx_while_talking,
        playback_drops: state.stats.playback_drops,
        played_frames: state.stats.played_frames,
        last_played_ts: state.stats.last_played_ts,
        last_played_samples: state.stats.last_played_samples,
        last_playback_error_ts: state.stats.last_playback_error_ts,
        last_remote: copy_text(&state.stats.last_remote),
        last_playback_error: copy_text(&state.stats.last_playback_error),
    }
}

// ── Changing the settings ────────────────────────────────────────────────────

/// The settings that a user may change.
#[derive(Debug, Clone)]
pub struct ConfigUpdate {
    pub selected_peer: Option<String>,
    pub capture_device: String,
    pub playback_device: String,
}

/// Whether settings are the old ones with the user's changes.
pub open spec fn is_updated(old: PluginConfig, new: PluginConfig, peer: Option<Seq<char>>, update: ConfigUpdate) -> bool {
    &&& text::view_opt(new.selected_peer) == peer
    &&& new.capture_device@ == text::trimmed(update.capture_device@)
    &&& new.playback_device@ == text::trimmed(update.playback_device@)
    &&& new == (PluginConfig {
        selected_peer: new.selected_peer,
        capture_device: new.capture_device,
        playback_device: new.playback_device,
        ..old
    })
}

/// The settings after a change, or why the change is refused: a peer that is no
/// address, a device without a name, or settings that are not valid.
pub fn plan_config_update(cfg: &PluginConfig, update: &ConfigUpdate) -> (r: Result<PluginConfig, Reply>)
    requires
        config::peer_readable(text::view_opt(update.selected_peer)),
    ensures
        match config::normal_peer(text::view_opt(update.selected_peer)) {
            Err(e) => r is Err && r->Err_0@ == (BAD_REQUEST, e),
            Ok(peer) => if text::trimmed(update.capture_device@).len() == 0 || text::trimmed(
                update.playback_device@,
            ).len() == 0 {
                r is Err && r->Err_0@ == (BAD_REQUEST, "capture_device and playback_device must not be empty"@)
            } else {
                exists|new: PluginConfig|
                    {
                        &&& #[trigger] is_updated(*cfg, new, peer, *update)
                        &&& match r {
                            Ok(c) => c == new && config::config_complaint(new) is None,
                            Err(e) => config::config_complaint(new) is Some && e@ == (
                                INTERNAL_SERVER_ERROR,
                                config::config_complaint(new)->0,
                            ),
                        }
                    }
            },
        },
{
    let peer = match normalize_selected_peer(copy_text(&update.selected_peer)) {
        Ok(peer) => peer,
        Err(e) => {
            return Err(reply_with(BAD_REQUEST, e));
        },
    };
    let mut new = cfg.copy();
    let ghost chosen = text::view_opt(peer);
    new.selected_peer = peer;
    new.capture_device = trim(update.capture_device.as_str());
    new.playback_device = trim(update.playback_device.as_str());
    if is_empty(new.capture_device.as_str()) || is_empty(new.playback_device.as_str()) {
        return Err(reply(BAD_REQUEST, "capture_device and playback_device must not be empty"));
    }
    proof {
        assert(is_updated(*cfg, new, chosen, *update));
        if chosen is Some {
            config::law_normal_peer_is_stable(text::view_opt(update.selected_peer), chosen->0);
        }
    }
    match new.validate() {
        Ok(()) => Ok(new),
        Err(e) => Err(reply_with(INTERNAL_SERVER_ERROR, e)),
    }
}

/// What a change of the settings is answered with.
pub open spec fn saved_words(peer: Option<Seq<char>>) -> Seq<char> {
    match peer {
        Some(p) => "Config saved. selected_peer="@ + p
            + "; capture_device applies on the next transmit start and playback_device applies on restart."@,
        None =>
            "Config saved. No peer selected; capture_device applies on the next transmit start and playback_device applies on restart."@,
    }
}

/// Puts new settings into force once they were written; where writing failed the
/// old ones stay.
pub fn commit_config(state: &mut PttState, new: PluginConfig, written: Result<(), String>) -> (r: Reply)
    ensures
        final(state).local_destination == old(state).local_destination,
        final(state).peers == old(state).peers,
        final(state).active == old(state).active,
        final(state).stats == old(state).stats,
        match written {
            Ok(()) => final(state).config == new && r@ == (OK, saved_words(text::view_opt(new.selected_peer))),
            Err(e) => final(state).config == old(state).config && r@ == (INTERNAL_SERVER_ERROR, e@),
        },
{
    match written {
        Err(e) => reply_with(INTERNAL_SERVER_ERROR, e),
        Ok(()) => {
            let detail = match &new.selected_peer {
                Some(peer) => cat3(
                    "Config saved. selected_peer=",
                    peer.as_str(),
                    "; capture_device applies on the next transmit start and playback_device applies on restart.",
                ),
                None =>
                    "Config saved. No peer selected; capture_device applies on the next transmit start and playback_device applies on restart.".to_owned(),
            };
            state.config = new;
            reply_with(OK, detail)
        },
    }
}

// ── What is shown and changed ────────────────────────────────────────────────

/// The status shows every counter, time and name under its own heading.
pub proof fn law_status_shows_the_counters(state: &PttState, s: StatusSnapshot)
    requires
        state.wf(),
        call_ensures(build_status, (state,), s),
    ensures
        s.transmitting == state.stats.transmitting,
        s.tx_packets == state.stats.tx_packets && s.tx_bytes == state.stats.tx_bytes,
        s.rx_packets == state.stats.rx_packets && s.rx_bytes == state.stats.rx_bytes,
        s.dropped_rx_while_talking == state.stats.dropped_rx_while_talking,
        s.playback_drops == state.stats.playback_drops,
        s.played_frames == state.stats.played_frames,
        s.last_played_ts == state.stats.last_played_ts && s.last_played_samples == state.stats.last_played_samples,
        s.last_playback_error_ts == state.stats.last_playback_error_ts,
        s.last_playback_error == state.stats.last_playback_error,
        s.last_remote == state.stats.last_remote,
        s.config == state.config && s.local_destination == state.local_destination,
        state.active is None <==> s.active_source is None,
        state.active == Some(crate::ptt::session::ActiveTx::Alsa) ==> text::view_opt(s.active_source) == Some("alsa"@),
        state.active matches Some(a) ==> a is Browser ==> text::view_opt(s.active_source) == Some("browser"@),
{
}

/// Every known peer is listed once, as it is known, and nobody else; the selected peer stands first,
/// and the others follow in the order of their addresses.
pub proof fn law_selected_peer_stands_first(state: &PttState, list: Vec<PeerSnapshot>, key: Seq<char>, i: int, j: int)
    requires
        state.wf(),
        call_ensures(list_peers, (state,), list),
    ensures
        state.known().contains_key(key) ==> exists|k: int|
            0 <= k < list@.len() && (#[trigger] list@[k])@ == (key, state.known()[key].1, state.known()[key].2),
        0 <= i < list@.len() ==> state.known().contains_key(list@[i].hash@),
        0 <= i < list@.len() && state.config.selected_peer is Some && list@[i].hash@ == state.config.selected_peer->0@ ==> i == 0,
        0 <= i < j < list@.len() ==> list@[i].hash@ != list@[j].hash@,
        0 <= i < j < list@.len() && text::view_opt(state.config.selected_peer) != Some(list@[i].hash@) ==> order::text_lt(
            list@[i].hash@,
            list@[j].hash@,
        ),
{
    let selected = text::view_opt(state.config.selected_peer);
    if state.known().contains_key(key) {
        let k = choose|k: int| 0 <= k < list@.len() && (#[trigger] list@[k]).hash@ == key;
        assert(list@[k]@ == (key, state.known()[key].1, state.known()[key].2));
    }
    if 0 < i < list@.len() {
        assert(shown_before(selected, list@[0].hash@, list@[i].hash@));
        order::lemma_lt_irreflexive(list@[i].hash@);
    }
    if 0 <= i < j < list@.len() {
        assert(shown_before(selected, list@[i].hash@, list@[j].hash@));
        order::lemma_lt_irreflexive(list@[i].hash@);
    }
}

/// A change touches the selected peer and the two devices and nothing else: the devices are taken
/// without white space around them, and the peer in its normal form. With valid settings a change is
/// refused exactly where the peer is no address or a device has no name.
pub proof fn law_change_touches_peer_and_devices(cfg: &PluginConfig, update: &ConfigUpdate, r: Result<PluginConfig, Reply>)
    requires
        config::peer_readable(text::view_opt(update.selected_peer)),
        config::config_complaint(*cfg) is None,
        call_ensures(plan_config_update, (cfg, update), r),
    ensures
        r is Ok <==> {
            &&& config::normal_peer(text::view_opt(update.selected_peer)) is Ok
            &&& text::trimmed(update.capture_device@).len() > 0
            &&& text::trimmed(update.playback_device@).len() > 0
        },
        r matches Ok(c) ==> {
            &&& c.capture_device@ == text::trimmed(update.capture_device@)
            &&& c.playback_device@ == text::trimmed(update.playback_device@)
            &&& Ok::<Option<Seq<char>>, Seq<char>>(text::view_opt(c.selected_peer)) == config::normal_peer(
                text::view_opt(update.selected_peer),
            )
            &&& c.http_bind == cfg.http_bind && c.kaonic_ctrl_server == cfg.kaonic_ctrl_server
            &&& c.rns_module == cfg.rns_module && c.identity_seed == cfg.identity_seed
            &&& c.frame_ms == cfg.frame_ms && c.sample_rate_hz == cfg.sample_rate_hz
            &&& c.packet_frames == cfg.packet_frames && c.audio_output == cfg.audio_output
            &&& config::config_complaint(c) is None
        },
        r matches Err(e) ==> e@.0 == 400,
{
    let normal = config::normal_peer(text::view_opt(update.selected_peer));
    if let Ok(peer) = normal {
        if peer is Some {
            config::law_normal_peer_is_stable(text::view_opt(update.selected_peer), peer->0);
        }
        if text::trimmed(update.capture_device@).len() > 0 && text::trimmed(update.playback_device@).len() > 0 {
            let new = choose|new: PluginConfig|
                {
                    &&& #[trigger] is_updated(*cfg, new, peer, *update)
                    &&& match r {
                        Ok(c) => c == new && config::config_complaint(new) is None,
                        Err(e) => config::config_complaint(new) is Some && e@ == (
                            INTERNAL_SERVER_ERROR,
                            config::config_complaint(new)->0,
                        ),
                    }
                };
            assert(is_updated(*cfg, new, peer, *update));
            assert(config::complaint_but_peer(new) is None);
        }
    }
}

/// New settings are in force exactly where they were written, and the old ones otherwise; nothing else
/// of the plugin changes.
pub proof fn law_settings_are_in_force_once_written(state: &mut PttState, new: PluginConfig, written: Result<(), String>, r: Reply)
    requires
        call_ensures(commit_config, (state, new, written), r),
    ensures
        written is Ok ==> final(state).config == new && r@.0 == 200,
        written matches Err(e) ==> final(state).config == old(state).config && r@ == (500u16, e@),
        final(state).peers == old(state).peers && final(state).active == old(state).active && final(state).stats == old(
            state,
        ).stats && final(state).local_destination == old(state).local_destination,
{
}

} // verus!
