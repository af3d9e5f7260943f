//! The settings of the push-to-talk plugin.

use vstd::prelude::*;

use crate::digits;
use crate::digits::{hex, is_hex};
use crate::mesh;
use crate::mesh::{AddressHash, HashError};
use crate::net::{IpAddress, SocketAddress};
use crate::text;
use crate::text::{cat3, same, trim, utf8_len};

verus! {

pub const DEFAULT_RNS_MODULE: usize = 0;

pub const DEFAULT_PACKET_FRAMES: u32 = 4;

pub const CODEC2_SAMPLE_RATE_HZ: u32 = 8_000;

pub const CODEC2_FRAME_MS: u32 = 20;

/// The settings of the push-to-talk plugin.
#[derive(Clone, Debug)]
pub struct PluginConfig {
    pub http_bind: SocketAddress,
    pub kaonic_ctrl_server: SocketAddress,
    pub rns_module: usize,
    pub identity_seed: String,
    pub selected_peer: Option<String>,
    pub capture_device: String,
    pub playback_device: String,
    pub frame_ms: u32,
    pub sample_rate_hz: u32,
    pub packet_frames: u32,
    pub audio_output: String,
}

/// `OsRng::fill_bytes` on 32 bytes: fresh bytes from the operating system's
/// source of randomness. Nothing holds of their values.
#[verifier::external_body]
fn os_random_bytes() -> (bytes: [u8; 32]) {
    let mut bytes = [0u8; 32];
    rand::RngCore::fill_bytes(&mut rand::rngs::OsRng, &mut bytes);
    bytes
}

/// Whether a text can seed an identity: 64 hexadecimal digits.
pub open spec fn is_seed(s: Seq<char>) -> bool {
    text::byte_len(s) == 64 && digits::all_hex(s)
}

/// The seed that 32 random bytes make.
pub fn seed_text(bytes: &[u8]) -> (r: String)
    requires
        bytes@.len() == 32,
    ensures
        r@ == digits::hex_of(bytes@),
        is_seed(r@),
{
    proof {
        let s = digits::hex_of(bytes@);
        assert forall|i: int| 0 <= i < s.len() implies digits::hex_value(#[trigger] s[i]) is Some && (s[i] as u32) < 128 by {}
        text::lemma_ascii_byte_len(s);
    }
    hex(bytes)
}

/// A fresh seed for an identity.
pub fn generate_identity_seed() -> (r: String)
    ensures
        is_seed(r@),
{
    let bytes = os_random_bytes();
    seed_text(bytes.as_slice())
}

/// The address of the radio controller: 192.168.10.1, port 9090.
pub fn default_ctrl_server() -> (r: SocketAddress)
    ensures
        r.port == 9090,
        r.ip matches IpAddress::V4(o) && o@ == seq![192u8, 168, 10, 1],
{
    SocketAddress { ip: IpAddress::V4([192, 168, 10, 1]), port: 9090 }
}

/// The address the plugin's pages are served on: every interface, port 8780.
pub fn default_http_bind() -> (r: SocketAddress)
    ensures
        r.port == 8780,
        r.ip matches IpAddress::V4(o) && o@ == seq![0u8, 0, 0, 0],
{
    SocketAddress { ip: IpAddress::V4([0, 0, 0, 0]), port: 8780 }
}

/// The radio module that carries the mesh where nothing is said.
pub fn default_rns_module() -> (r: usize)
    ensures
        r == 0,
{
    DEFAULT_RNS_MODULE
}

/// The frames put into one packet where nothing is said.
pub fn default_packet_frames() -> (r: u32)
    ensures
        r == 4,
{
    DEFAULT_PACKET_FRAMES
}

/// What plays received voice where nothing is said.
pub fn default_audio_output() -> (r: String)
    ensures
        r@ == "alsa"@,
{
    "alsa".to_owned()
}

/// Whether the settings are the defaults, whatever the seed.
pub open spec fn is_default_config(c: PluginConfig) -> bool {
    &&& c.http_bind.port == 8780
    &&& c.http_bind.ip matches IpAddress::V4(o) && o@ == seq![0u8, 0, 0, 0]
    &&& c.kaonic_ctrl_server.port == 9090
    &&& c.kaonic_ctrl_server.ip matches IpAddress::V4(o) && o@ == seq![192u8, 168, 10, 1]
    &&& c.rns_module == 0
    &&& c.selected_peer is None
    &&& c.capture_device@ == "default"@
    &&& c.playback_device@ == "default"@
    &&& c.frame_ms == 20
    &&& c.sample_rate_hz == 8_000
    &&& c.packet_frames == 4
    &&& c.audio_output@ == "alsa"@
}

impl Default for PluginConfig {
    fn default() -> (c: PluginConfig)
        ensures
            is_default_config(c),
            is_seed(c.identity_seed@),
    {
        PluginConfig {
            http_bind: default_http_bind(),
            kaonic_ctrl_server: default_ctrl_server(),
            rns_module: default_rns_module(),
            identity_seed: generate_identity_seed(),
            selected_peer: None,
            capture_device: "default".to_owned(),
            playback_device: "default".to_owned(),
            frame_ms: CODEC2_FRAME_MS,
            sample_rate_hz: CODEC2_SAMPLE_RATE_HZ,
            packet_frames: DEFAULT_PACKET_FRAMES,
            audio_output: default_audio_output(),
        }
    }
}

/// Whether the choice of a peer can be read: it is blank, too short for an address
/// hash, or starts with the digits of one.
pub open spec fn peer_readable(value: Option<Seq<char>>) -> bool {
    match value {
        Some(s) => mesh::hash_readable(text::trimmed(s)),
        None => true,
    }
}

/// The complaint about a choice of peer that is no address hash.
pub open spec fn peer_complaint(raw: Seq<char>) -> Seq<char> {
    "invalid selected_peer '"@ + raw + "': IncorrectHash"@
}

/// The choice of a peer in its normal form: 32 lower-case hexadecimal digits, or
/// nothing where it is left blank; the complaint where it is too short.
pub open spec fn normal_peer(value: Option<Seq<char>>) -> Result<Option<Seq<char>>, Seq<char>> {
    match value {
        None => Ok(None),
        Some(s) => {
            let raw = text::trimmed(s);
            if raw.len() == 0 {
                Ok(None)
            } else if text::byte_len(raw) < 32 {
                Err(peer_complaint(raw))
            } else {
                Ok(Some(digits::hex_of(mesh::hash_bytes(raw))))
            }
        },
    }
}

/// Puts the choice of a peer into its normal form.
pub fn normalize_selected_peer(value: Option<String>) -> (r: Result<Option<String>, String>)
    requires
        peer_readable(text::view_opt(value)),
    ensures
        match r {
            Ok(peer) => normal_peer(text::view_opt(value)) == Ok::<Option<Seq<char>>, Seq<char>>(text::view_opt(peer)),
            Err(e) => normal_peer(text::view_opt(value)) == Err::<Option<Seq<char>>, Seq<char>>(e@),
        },
{
    match value {
        None => Ok(None),
        Some(value) => {
            let raw = trim(value.as_str());
            if text::is_empty(raw.as_str()) {
                return Ok(None);
            }
            match AddressHash::new_from_hex_string(raw.as_str()) {
                Ok(hash) => Ok(Some(hash.to_hex_string())),
                Err(HashError::IncorrectHash) => Err(cat3("invalid selected_peer '", raw.as_str(), "': IncorrectHash")),
            }
        },
    }
}

/// A choice of peer in its normal form stays as it is.
pub proof fn law_normal_peer_is_stable(value: Option<Seq<char>>, peer: Seq<char>)
    requires
        peer_readable(value),
        normal_peer(value) == Ok::<Option<Seq<char>>, Seq<char>>(Some(peer)),
    ensures
        peer_readable(Some(peer)),
        normal_peer(Some(peer)) == Ok::<Option<Seq<char>>, Seq<char>>(Some(peer)),
{
    let bytes = mesh::hash_bytes(text::trimmed(value->0));
    mesh::law_hash_text_reads_back(bytes);
    assert(peer == digits::hex_of(bytes));
    assert(!text::is_white(peer[0]));
    assert(!text::is_white(peer[31]));
    assert(text::trimmed(peer) == peer);
}

/// What is wrong with settings apart from the choice of a peer, if anything: the first
/// complaint in order.
pub open spec fn complaint_but_peer(c: PluginConfig) -> Option<Seq<char>> {
    if c.rns_module > 1 {
        Some("rns_module must be 0 or 1"@)
    } else if c.frame_ms != 20 {
        Some("only 20ms audio framing is currently supported (Codec2 native frame)"@)
    } else if c.sample_rate_hz != 8_000 {
        Some("only 8kHz audio is currently supported (Codec2 native rate)"@)
    } else if !(1 <= c.packet_frames <= 8) {
        Some("packet_frames must be between 1 and 8"@)
    } else if c.audio_output@ != "alsa"@ && c.audio_output@ != "browser"@ {
        Some("audio_output must be 'alsa' or 'browser'"@)
    } else if !is_seed(c.identity_seed@) {
        Some("identity_seed must be a 64-character hex string"@)
    } else {
        None
    }
}

/// What is wrong with settings, if anything: the choice of a peer is looked at last.
pub open spec fn config_complaint(c: PluginConfig) -> Option<Seq<char>> {
    match complaint_but_peer(c) {
        Some(e) => Some(e),
        None => match normal_peer(text::view_opt(c.selected_peer)) {
            Err(e) => Some(e),
            Ok(_) => None,
        },
    }
}

impl PluginConfig {
    /// The same settings again.
    pub fn copy(&self) -> (r: PluginConfig)
        ensures
            r == *self,
    {
        PluginConfig {
            http_bind: self.http_bind,
            kaonic_ctrl_server: self.kaonic_ctrl_server,
            rns_module: self.rns_module,
            identity_seed: self.identity_seed.clone(),
            selected_peer: match &self.selected_peer {
                Some(s) => Some(s.clone()),
                None => None,
            },
            capture_device: self.capture_device.clone(),
            playback_device: self.playback_device.clone(),
            frame_ms: self.frame_ms,
            sample_rate_hz: self.sample_rate_hz,
            packet_frames: self.packet_frames,
            audio_output: self.audio_output.clone(),
        }
    }

    /// Checks the settings; says what the first thing wrong with them is.
    pub fn validate(&self) -> (r: Result<(), String>)
        requires
            complaint_but_peer(*self) is None ==> peer_readable(text::view_opt(self.selected_peer)),
        ensures
            match r {
                Ok(()) => config_complaint(*self) is None,
                Err(e) => config_complaint(*self) == Some(e@),
            },
    {
        if self.rns_module > 1 {
            return Err("rns_module must be 0 or 1".to_owned());
        }
        if self.frame_ms != CODEC2_FRAME_MS {
            return Err("only 20ms audio framing is currently supported (Codec2 native frame)".to_owned());
        }
        if self.sample_rate_hz != CODEC2_SAMPLE_RATE_HZ {
            return Err("only 8kHz audio is currently supported (Codec2 native rate)".to_owned());
        }
        if self.packet_frames < 1 || self.packet_frames > 8 {
            return Err("packet_frames must be between 1 and 8".to_owned());
        }
        if !same(self.audio_output.as_str(), "alsa") && !same(self.audio_output.as_str(), "browser") {
            return Err("audio_output must be 'alsa' or 'browser'".to_owned());
        }
        if utf8_len(self.identity_seed.as_str()) != 64 || !is_hex(self.identity_seed.as_str()) {
            return Err("identity_seed must be a 64-character hex string".to_owned());
        }
        if let Some(selected_peer) = &self.selected_peer {
            match normalize_selected_peer(Some(selected_peer.clone())) {
                Ok(_) => {},
                Err(e) => {
                    return Err(e);
                },
            }
        }
        Ok(())
    }
}

/// The default settings are valid.
pub proof fn law_default_config_is_valid(c: PluginConfig)
    requires
        is_default_config(c),
        is_seed(c.identity_seed@),
    ensures
        config_complaint(c) is None,
{
}

/// Settings as they are after being read: a missing seed is made up, and a sample
/// rate or frame length that is no longer supported is replaced.
pub open spec fn is_migrated(before: PluginConfig, after: PluginConfig, fresh: Seq<char>) -> bool {
    &&& after.identity_seed@ == if before.identity_seed@.len() == 0 {
        fresh
    } else {
        before.identity_seed@
    }
    &&& after.sample_rate_hz == 8_000
    &&& after.frame_ms == 20
    &&& after.http_bind == before.http_bind
    &&& after.kaonic_ctrl_server == before.kaonic_ctrl_server
    &&& after.rns_module == before.rns_module
    &&& after.selected_peer == before.selected_peer
    &&& after.capture_device == before.capture_device
    &&& after.playback_device == before.playback_device
    &&& after.packet_frames == before.packet_frames
    &&& after.audio_output == before.audio_output
}

/// Whether reading the settings changes them.
pub open spec fn needs_migration(c: PluginConfig) -> bool {
    c.identity_seed@.len() == 0 || c.sample_rate_hz != 8_000 || c.frame_ms != 20
}

/// Brings settings that were read up to date, with a fresh seed at hand. Says
/// whether anything changed.
pub fn migrate_config(cfg: PluginConfig, fresh_seed: String) -> (r: (PluginConfig, bool))
    ensures
        is_migrated(cfg, r.0, fresh_seed@),
        r.1 == needs_migration(cfg),
{
    let mut cfg = cfg;
    let mut dirty = false;
    if text::is_empty(cfg.identity_seed.as_str()) {
        cfg.identity_seed = fresh_seed;
        dirty = true;
    }
    if cfg.sample_rate_hz != CODEC2_SAMPLE_RATE_HZ {
        cfg.sample_rate_hz = CODEC2_SAMPLE_RATE_HZ;
        dirty = true;
    }
    if cfg.frame_ms != CODEC2_FRAME_MS {
        cfg.frame_ms = CODEC2_FRAME_MS;
        dirty = true;
    }
    (cfg, dirty)
}

/// Whether settings are in order once they are brought up to date, apart from the
/// choice of a peer.
pub open spec fn is_sound_but_peer(c: PluginConfig) -> bool {
    &&& c.rns_module <= 1
    &&& 1 <= c.packet_frames <= 8
    &&& c.audio_output@ == "alsa"@ || c.audio_output@ == "browser"@
    &&& c.identity_seed@.len() == 0 || is_seed(c.identity_seed@)
}

/// Brings settings that were read up to date and checks them. Says whether they
/// have to be saved again.
pub fn load_config(cfg: PluginConfig) -> (r: Result<(PluginConfig, bool), String>)
    requires
        is_sound_but_peer(cfg) ==> peer_readable(text::view_opt(cfg.selected_peer)),
    ensures
        match r {
            Ok((after, dirty)) => exists|fresh: Seq<char>|
                {
                    &&& #[trigger] is_seed(fresh)
                    &&& is_migrated(cfg, after, fresh)
                    &&& config_complaint(after) is None
                    &&& dirty == needs_migration(cfg)
                },
            Err(e) => exists|fresh: Seq<char>, after: PluginConfig|
                {
                    &&& is_seed(fresh)
                    &&& #[trigger] is_migrated(cfg, after, fresh)
                    &&& config_complaint(after) == Some(e@)
                },
        },
{
    let fresh = generate_identity_seed();
    let ghost seed = fresh@;
    let (after, dirty) = migrate_config(cfg, fresh);
    proof {
        assert(is_seed(seed));
        assert(is_migrated(cfg, after, seed));
    }
    match after.validate() {
        Ok(()) => Ok((after, dirty)),
        Err(e) => Err(e),
    }
}

/// Bringing settings up to date twice is the same as doing it once.
pub proof fn law_migration_is_stable(before: PluginConfig, after: PluginConfig, fresh: Seq<char>)
    requires
        is_migrated(before, after, fresh),
        fresh.len() > 0,
    ensures
        !needs_migration(after),
{
}

// ── What the settings mean ───────────────────────────────────────────────────

/// A peer that is written as 32 hexadecimal digits, with or without white space around them, is taken
/// over in lower case; a blank is no peer, and a text too short for an address is refused.
pub proof fn law_peers_are_normalised(value: Option<String>, r: Result<Option<String>, String>)
    requires
        peer_readable(text::view_opt(value)),
        call_ensures(normalize_selected_peer, (value,), r),
    ensures
        value is None ==> r == Ok::<Option<String>, String>(None),
        value matches Some(s) ==> {
            let raw = text::trimmed(s@);
            &&& raw.len() == 0 ==> r == Ok::<Option<String>, String>(None)
            &&& raw.len() == 32 && digits::all_hex(raw) ==> r is Ok && text::view_opt(r->Ok_0) == Some(
                text::ascii_lowered(raw),
            )
            &&& raw.len() > 0 && text::byte_len(raw) < 32 ==> r is Err
        },
        r is Ok && r->Ok_0 is Some ==> r->Ok_0->0@.len() == 32,
{
    if let Some(s) = value {
        let raw = text::trimmed(s@);
        if raw.len() == 32 && digits::all_hex(raw) {
            mesh::law_hash_text_normalises(raw);
        }
    }
}

/// Settings are valid exactly where the module is one of the two, frames last 20 milliseconds at 8 kHz,
/// one to eight of them go into a packet, voice goes to ALSA or a browser, the seed has 64 hexadecimal
/// digits, and the selected peer, if any, is an address.
pub proof fn law_valid_settings(cfg: &PluginConfig, r: Result<(), String>)
    requires
        complaint_but_peer(*cfg) is None ==> peer_readable(text::view_opt(cfg.selected_peer)),
        call_ensures(PluginConfig::validate, (cfg,), r),
    ensures
        r is Ok <==> {
            &&& cfg.rns_module == 0 || cfg.rns_module == 1
            &&& cfg.frame_ms == 20 && cfg.sample_rate_hz == 8000
            &&& 1 <= cfg.packet_frames <= 8
            &&& cfg.audio_output@ == "alsa"@ || cfg.audio_output@ == "browser"@
            &&& cfg.identity_seed@.len() == 64 && digits::all_hex(cfg.identity_seed@)
            &&& cfg.selected_peer matches Some(p) ==> text::trimmed(p@).len() == 0 || text::byte_len(text::trimmed(p@)) >= 32
        },
{
    let seed = cfg.identity_seed@;
    if digits::all_hex(seed) {
        assert forall|i: int| 0 <= i < seed.len() implies (#[trigger] seed[i] as u32) < 128 by {
            assert(digits::hex_value(seed[i]) is Some);
        }
        text::lemma_ascii_byte_len(seed);
    }
}

/// Settings that were read are valid after being brought up to date where all but the rate, the frame
/// length and a missing seed was in order; they are saved again exactly where one of these changed, and
/// nothing else changes.
pub proof fn law_old_settings_are_brought_up_to_date(cfg: PluginConfig, r: Result<(PluginConfig, bool), String>)
    requires
        is_sound_but_peer(cfg) ==> peer_readable(text::view_opt(cfg.selected_peer)),
        call_ensures(load_config, (cfg,), r),
    ensures
        r matches Ok((after, dirty)) ==> {
            &&& after.frame_ms == 20 && after.sample_rate_hz == 8000
            &&& cfg.identity_seed@.len() > 0 ==> after.identity_seed@ == cfg.identity_seed@
            &&& after.identity_seed@.len() == 64 && digits::all_hex(after.identity_seed@)
            &&& after.http_bind == cfg.http_bind && after.kaonic_ctrl_server == cfg.kaonic_ctrl_server
            &&& after.rns_module == cfg.rns_module && after.selected_peer == cfg.selected_peer
            &&& after.capture_device == cfg.capture_device && after.playback_device == cfg.playback_device
            &&& after.packet_frames == cfg.packet_frames && after.audio_output == cfg.audio_output
            &&& dirty <==> cfg.frame_ms != 20 || cfg.sample_rate_hz != 8000 || cfg.identity_seed@.len() == 0
        },
        cfg.rns_module <= 1 && 1 <= cfg.packet_frames <= 8 && (cfg.audio_output@ == "alsa"@ || cfg.audio_output@ == "browser"@)
            && cfg.identity_seed@.len() == 0 && cfg.selected_peer is None ==> r is Ok,
        cfg.rns_module > 1 || cfg.packet_frames == 0 || cfg.packet_frames > 8 ==> r is Err,
{
    match r {
        Ok((after, dirty)) => {
            let fresh = choose|fresh: Seq<char>|
                {
                    &&& #[trigger] is_seed(fresh)
                    &&& is_migrated(cfg, after, fresh)
                    &&& config_complaint(after) is None
                    &&& dirty == needs_migration(cfg)
                };
            assert(is_seed(fresh) && is_migrated(cfg, after, fresh));
            let seed = after.identity_seed@;
            assert(is_seed(seed));
            assert forall|i: int| 0 <= i < seed.len() implies (#[trigger] seed[i] as u32) < 128 by {
                assert(digits::hex_value(seed[i]) is Some);
            }
            text::lemma_ascii_byte_len(seed);
        },
        Err(e) => {
            let (fresh, after) = choose|fresh: Seq<char>, after: PluginConfig|
                {
                    &&& is_seed(fresh)
                    &&& #[trigger] is_migrated(cfg, after, fresh)
                    &&& config_complaint(after) == Some(e@)
                };
            assert(is_migrated(cfg, after, fresh));
        },
    }
}

/// Different random bytes make different seeds, and every seed is one that settings can have.
pub proof fn law_seeds_differ(a: &[u8], b: &[u8], seed_a: String, seed_b: String, i: int)
    requires
        a@.len() == 32 && b@.len() == 32,
        call_ensures(seed_text, (a,), seed_a),
        call_ensures(seed_text, (b,), seed_b),
        seed_a@ == seed_b@,
        0 <= i < 32,
    ensures
        a@[i] == b@[i],
        seed_a@.len() == 64 && digits::all_hex(seed_a@),
{
    assert(digits::hex_of(a@)[2 * i] == digits::hex_of(b@)[2 * i]);
    assert(digits::hex_of(a@)[2 * i + 1] == digits::hex_of(b@)[2 * i + 1]);
}

/// A plugin starts with its own seed and without a peer, on every interface at port 8780, with the
/// controller at its usual address, the default devices, ALSA, and four Codec2 frames to a packet.
pub proof fn law_settings_to_start_with(c: PluginConfig)
    requires
        call_ensures(PluginConfig::default, (), c),
    ensures
        c.identity_seed@.len() == 64 && digits::all_hex(c.identity_seed@),
        c.selected_peer is None,
        c.http_bind.port == 8780 && c.http_bind.ip is V4 && c.http_bind.ip->V4_0@ == seq![0u8, 0, 0, 0],
        c.kaonic_ctrl_server.port == 9090 && c.kaonic_ctrl_server.ip is V4 && c.kaonic_ctrl_server.ip->V4_0@ == seq![
            192u8,
            168,
            10,
            1,
        ],
        c.rns_module == 0,
        c.capture_device@ == "default"@ && c.playback_device@ == "default"@ && c.audio_output@ == "alsa"@,
        c.sample_rate_hz == 8_000 && c.frame_ms == 20 && c.packet_frames == 4,
{
    let seed = c.identity_seed@;
    assert forall|i: int| 0 <= i < seed.len() implies (#[trigger] seed[i] as u32) < 128 by {
        assert(digits::hex_value(seed[i]) is Some);
    }
    text::lemma_ascii_byte_len(seed);
}

/// Bringing settings up to date gives them the rate, the frame length and, where they have none, the fresh
/// seed, keeps everything else, and says whether anything changed.
pub proof fn law_migration_changes_what_is_out_of_date(cfg: PluginConfig, fresh: String, r: (PluginConfig, bool))
    requires
        call_ensures(migrate_config, (cfg, fresh), r),
    ensures
        r.0.sample_rate_hz == 8_000 && r.0.frame_ms == 20,
        cfg.identity_seed@.len() == 0 ==> r.0.identity_seed@ == fresh@,
        cfg.identity_seed@.len() > 0 ==> r.0.identity_seed@ == cfg.identity_seed@,
        r.0.http_bind == cfg.http_bind && r.0.kaonic_ctrl_server == cfg.kaonic_ctrl_server && r.0.rns_module
            == cfg.rns_module && r.0.selected_peer == cfg.selected_peer,
        r.0.capture_device == cfg.capture_device && r.0.playback_device == cfg.playback_device && r.0.packet_frames
            == cfg.packet_frames && r.0.audio_output == cfg.audio_output,
        !r.1 <==> cfg.identity_seed@.len() > 0 && cfg.sample_rate_hz == 8_000 && cfg.frame_ms == 20,
{
}

} // verus!
