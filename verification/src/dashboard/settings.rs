//! The settings page: what it shows, and what is read from its form.

use vstd::prelude::*;

use crate::digits;
use crate::digits::parse_unsigned;
use crate::gateway::radio::{
    BandwidthFilter, Modulation, OfdmBandwidthOption, OfdmMcs, OfdmModulation, QpskChipFrequency, QpskModulation,
    QpskRateMode, RadioConfig,
};
use crate::net::SocketAddress;
use crate::route;
use crate::route::{parse_cidr, write_net, Ipv4Net};
use crate::text;
use crate::text::{cat2, is_empty, join, lines, same, to_chars, trim};

verus! {

/// What the page was asked to report.
#[derive(Clone, Debug)]
pub struct Flash {
    pub saved: Option<String>,
    pub error: Option<String>,
}

/// The fields of the form, as they were typed.
#[derive(Clone, Debug)]
pub struct SettingsForm {
    pub network: String,
    pub announce_freq_secs: String,
    pub peers: String,
    pub radio_listen: String,
    pub radio_server: String,
    pub radio_module: String,
    pub radio_freq_mhz: String,
    pub radio_channel_spacing_khz: String,
    pub radio_channel: String,
    pub radio_bandwidth_filter: String,
    /// `off`, `ofdm` or `qpsk`.
    pub modulation_type: String,
    pub ofdm_mcs: String,
    pub ofdm_opt: String,
    pub ofdm_pdt: String,
    pub ofdm_tx_power: String,
    pub qpsk_fchip: String,
    pub qpsk_mode: String,
    pub qpsk_tx_power: String,
}

/// How the radio controller is reached and what the radio is set to.
#[derive(Clone, Copy, Debug)]
pub struct KaonicCtrlConfig {
    pub listen_addr: SocketAddress,
    pub server_addr: SocketAddress,
    pub module: usize,
    pub radio_config: Option<RadioConfig>,
    pub modulation: Option<Modulation>,
}

/// The settings of the gateway.
#[derive(Clone, Debug)]
pub struct GatewayConfig {
    pub network: Ipv4Net,
    pub peers: Vec<String>,
    pub announce_freq_secs: u32,
    pub kaonic_ctrl_config: Option<KaonicCtrlConfig>,
}

/// The seconds between two announcements where nothing is said.
pub fn default_announce_freq_secs() -> (r: u32)
    ensures
        r == 1,
{
    1
}

/// The settings before anyone has set them: 10.20.0.0/16 without peers or radio.
pub fn default_config() -> (c: GatewayConfig)
    ensures
        c.network@ == (seq![10u8, 20, 0, 0], 16u8),
        c.peers@.len() == 0,
        c.announce_freq_secs == 1,
        c.kaonic_ctrl_config is None,
{
    let network = Ipv4Net { address: [10, 20, 0, 0], length: 16 };
    proof {
        assert(network.address@ =~= seq![10u8, 20, 0, 0]);
    }
    GatewayConfig { network, peers: Vec::new(), announce_freq_secs: default_announce_freq_secs(), kaonic_ctrl_config: None }
}

// ── Reading numbers ──────────────────────────────────────────────────────────

/// The number in a field, or a default where there is none that fits.
pub open spec fn number_or(field: Seq<char>, max: nat, default: nat) -> nat {
    match digits::unsigned_value(text::trimmed(field), max) {
        Some(n) => n,
        None => default,
    }
}

/// The number in a field, or a default where there is none that fits.
pub fn read_number(field: &str, max: u64, default: u64) -> (r: u64)
    requires
        default <= max,
    ensures
        r == number_or(field@, max as nat, default as nat),
        r <= max,
{
    match parse_unsigned(trim(field).as_str(), max) {
        Some(n) => n,
        None => default,
    }
}

// ── Modulations by number ────────────────────────────────────────────────────

/// The modulation and coding scheme with a number.
pub open spec fn mcs_of(n: nat) -> OfdmMcs {
    if n == 0 {
        OfdmMcs::BpskC1_2_4x
    } else if n == 1 {
        OfdmMcs::BpskC1_2_2x
    } else if n == 2 {
        OfdmMcs::QpskC1_2_2x
    } else if n == 3 {
        OfdmMcs::QpskC1_2
    } else if n == 4 {
        OfdmMcs::QpskC3_4
    } else if n == 5 {
        OfdmMcs::QamC1_2
    } else {
        OfdmMcs::QamC3_4
    }
}

/// The number of a modulation and coding scheme.
pub open spec fn mcs_number(m: OfdmMcs) -> u8 {
    match m {
        OfdmMcs::BpskC1_2_4x => 0,
        OfdmMcs::BpskC1_2_2x => 1,
        OfdmMcs::QpskC1_2_2x => 2,
        OfdmMcs::QpskC1_2 => 3,
        OfdmMcs::QpskC3_4 => 4,
        OfdmMcs::QamC1_2 => 5,
        OfdmMcs::QamC3_4 => 6,
    }
}

/// The bandwidth with a number.
pub open spec fn opt_of(n: nat) -> OfdmBandwidthOption {
    if n == 1 {
        OfdmBandwidthOption::Option2
    } else if n == 2 {
        OfdmBandwidthOption::Option3
    } else if n == 3 {
        OfdmBandwidthOption::Option4
    } else {
        OfdmBandwidthOption::Option1
    }
}

/// The number of a bandwidth.
pub open spec fn opt_number(o: OfdmBandwidthOption) -> u8 {
    match o {
        OfdmBandwidthOption::Option1 => 0,
        OfdmBandwidthOption::Option2 => 1,
        OfdmBandwidthOption::Option3 => 2,
        OfdmBandwidthOption::Option4 => 3,
    }
}

/// The chip rate with a number.
pub open spec fn fchip_of(n: nat) -> QpskChipFrequency {
    if n == 1 {
        QpskChipFrequency::Fchip200
    } else if n == 2 {
        QpskChipFrequency::Fchip1000
    } else if n == 3 {
        QpskChipFrequency::Fchip2000
    } else {
        QpskChipFrequency::Fchip100
    }
}

/// The number of a chip rate.
pub open spec fn fchip_number(f: QpskChipFrequency) -> u8 {
    match f {
        QpskChipFrequency::Fchip100 => 0,
        QpskChipFrequency::Fchip200 => 1,
        QpskChipFrequency::Fchip1000 => 2,
        QpskChipFrequency::Fchip2000 => 3,
    }
}

/// The rate mode with a number.
pub open spec fn mode_of(n: nat) -> QpskRateMode {
    if n == 1 {
        QpskRateMode::RateMode1
    } else if n == 2 {
        QpskRateMode::RateMode2
    } else if n == 3 {
        QpskRateMode::RateMode3
    } else if n == 4 {
        QpskRateMode::RateMode4
    } else {
        QpskRateMode::RateMode0
    }
}

/// The number of a rate mode.
pub open spec fn mode_number(m: QpskRateMode) -> u8 {
    match m {
        QpskRateMode::RateMode0 => 0,
        QpskRateMode::RateMode1 => 1,
        QpskRateMode::RateMode2 => 2,
        QpskRateMode::RateMode3 => 3,
        QpskRateMode::RateMode4 => 4,
    }
}

/// Every choice that the page offers is read back as the choice that was made.
pub proof fn law_choices_read_back(mcs: OfdmMcs, opt: OfdmBandwidthOption, fchip: QpskChipFrequency, mode: QpskRateMode)
    ensures
        mcs_of(mcs_number(mcs) as nat) == mcs,
        opt_of(opt_number(opt) as nat) == opt,
        fchip_of(fchip_number(fchip) as nat) == fchip,
        mode_of(mode_number(mode) as nat) == mode,
{
}

/// The modulation and coding scheme with a number.
fn read_mcs(n: u64) -> (r: OfdmMcs)
    ensures
        r == mcs_of(n as nat),
{
    match n {
        0 => OfdmMcs::BpskC1_2_4x,
        1 => OfdmMcs::BpskC1_2_2x,
        2 => OfdmMcs::QpskC1_2_2x,
        3 => OfdmMcs::QpskC1_2,
        4 => OfdmMcs::QpskC3_4,
        5 => OfdmMcs::QamC1_2,
        _ => OfdmMcs::QamC3_4,
    }
}

/// The bandwidth with a number.
fn read_opt(n: u64) -> (r: OfdmBandwidthOption)
    ensures
        r == opt_of(n as nat),
{
    match n {
        1 => OfdmBandwidthOption::Option2,
        2 => OfdmBandwidthOption::Option3,
        3 => OfdmBandwidthOption::Option4,
        _ => OfdmBandwidthOption::Option1,
    }
}

/// The chip rate with a number.
fn read_fchip(n: u64) -> (r: QpskChipFrequency)
    ensures
        r == fchip_of(n as nat),
{
    match n {
        1 => QpskChipFrequency::Fchip200,
        2 => QpskChipFrequency::Fchip1000,
        3 => QpskChipFrequency::Fchip2000,
        _ => QpskChipFrequency::Fchip100,
    }
}

/// The rate mode with a number.
fn read_mode(n: u64) -> (r: QpskRateMode)
    ensures
        r == mode_of(n as nat),
{
    match n {
        1 => QpskRateMode::RateMode1,
        2 => QpskRateMode::RateMode2,
        3 => QpskRateMode::RateMode3,
        4 => QpskRateMode::RateMode4,
        _ => QpskRateMode::RateMode0,
    }
}

// ── Reading the form ─────────────────────────────────────────────────────────

/// The peers on the lines of a field: the trimmed lines that are not blank.
pub open spec fn peers_on(rows: Seq<Seq<char>>) -> Seq<Seq<char>>
    decreases rows.len(),
{
    if rows.len() == 0 {
        Seq::empty()
    } else {
        let before = peers_on(rows.drop_last());
        let name = text::trimmed(rows.last());
        if name.len() > 0 {
            before.push(name)
        } else {
            before
        }
    }
}

/// Reads the peers, one on each line.
pub fn read_peers(field: &str) -> (r: Vec<String>)
    ensures
        text::views(r@) == peers_on(text::lines_of(field@)),
{
    let rows = lines(field);
    let ghost rv = text::views(rows@);
    let mut out: Vec<String> = Vec::new();
    let mut i: usize = 0;
    proof {
        assert(text::views(out@) =~= peers_on(rv.take(0)));
    }
    while i < rows.len()
        invariant
            rv == text::views(rows@),
            i <= rows@.len(),
            text::views(out@) == peers_on(rv.take(i as int)),
        decreases rows@.len() - i,
    {
        let ghost before = text::views(out@);
        proof {
            assert(rv.take(i + 1).drop_last() =~= rv.take(i as int));
            assert(rv.take(i + 1).last() == rows@[i as int]@);
        }
        let name = trim(rows[i].as_str());
        if !is_empty(name.as_str()) {
            out.push(name);
            proof {
                assert(text::views(out@) =~= before.push(text::trimmed(rows@[i as int]@)));
            }
        }
        i += 1;
    }
    proof {
        assert(rv.take(i as int) =~= rv);
    }
    out
}

/// Whether the form asks for the radio: both its addresses are filled in.
pub open spec fn wants_radio(form: SettingsForm) -> bool {
    text::trimmed(form.radio_listen@).len() > 0 && text::trimmed(form.radio_server@).len() > 0
}

/// A number of hertz as the radio counts it: in 64 bits, starting over from zero.
pub open spec fn hertz(n: nat) -> u64 {
    (n % 0x1_0000_0000_0000_0000) as u64
}

/// The frequencies in the form; none where the carrier is left out or zero.
pub open spec fn radio_of(form: SettingsForm) -> Option<RadioConfig> {
    let mhz = number_or(form.radio_freq_mhz@, u64::MAX as nat, 0);
    if mhz > 0 {
        Some(
            RadioConfig {
                freq: hertz(mhz * 1_000_000),
                channel_spacing: hertz(number_or(form.radio_channel_spacing_khz@, u64::MAX as nat, 0) * 1_000),
                channel: number_or(form.radio_channel@, u16::MAX as nat, 0) as u16,
                bandwidth_filter: if text::trimmed(form.radio_bandwidth_filter@) == "wide"@ {
                    BandwidthFilter::Wide
                } else {
                    BandwidthFilter::Narrow
                },
            },
        )
    } else {
        None
    }
}

/// The modulation in the form; off unless it is one of the others.
pub open spec fn modulation_of(form: SettingsForm) -> Modulation {
    if text::trimmed(form.modulation_type@) == "ofdm"@ {
        Modulation::Ofdm(
            OfdmModulation {
                mcs: mcs_of(number_or(form.ofdm_mcs@, 255, 0)),
                opt: opt_of(number_or(form.ofdm_opt@, 255, 0)),
                pdt: number_or(form.ofdm_pdt@, 255, 3) as u8,
                tx_power: number_or(form.ofdm_tx_power@, 255, 10) as u8,
            },
        )
    } else if text::trimmed(form.modulation_type@) == "qpsk"@ {
        Modulation::Qpsk(
            QpskModulation {
                fchip: fchip_of(number_or(form.qpsk_fchip@, 255, 0)),
                mode: mode_of(number_or(form.qpsk_mode@, 255, 0)),
                tx_power: number_or(form.qpsk_tx_power@, 255, 10) as u8,
            },
        )
    } else {
        Modulation::Off
    }
}

/// Reads the frequencies.
fn read_radio(form: &SettingsForm) -> (r: Option<RadioConfig>)
    ensures
        r == radio_of(*form),
{
    let mhz: u64 = read_number(form.radio_freq_mhz.as_str(), u64::MAX, 0);
    let khz: u64 = read_number(form.radio_channel_spacing_khz.as_str(), u64::MAX, 0);
    let channel: u64 = read_number(form.radio_channel.as_str(), u16::MAX as u64, 0);
    let wide = same(trim(form.radio_bandwidth_filter.as_str()).as_str(), "wide");
    if mhz > 0 {
        Some(
            RadioConfig {
                freq: mhz.wrapping_mul(1_000_000),
                channel_spacing: khz.wrapping_mul(1_000),
                channel: channel as u16,
                bandwidth_filter: if wide {
                    BandwidthFilter::Wide
                } else {
                    BandwidthFilter::Narrow
                },
            },
        )
    } else {
        None
    }
}

/// Reads the modulation.
fn read_modulation(form: &SettingsForm) -> (r: Modulation)
    ensures
        r == modulation_of(*form),
{
    let kind = trim(form.modulation_type.as_str());
    if same(kind.as_str(), "ofdm") {
        let mcs = read_mcs(read_number(form.ofdm_mcs.as_str(), 255, 0));
        let opt = read_opt(read_number(form.ofdm_opt.as_str(), 255, 0));
        let pdt: u8 = read_number(form.ofdm_pdt.as_str(), 255, 3) as u8;
        let tx_power: u8 = read_number(form.ofdm_tx_power.as_str(), 255, 10) as u8;
        Modulation::Ofdm(OfdmModulation { mcs, opt, pdt, tx_power })
    } else if same(kind.as_str(), "qpsk") {
        let fchip = read_fchip(read_number(form.qpsk_fchip.as_str(), 255, 0));
        let mode = read_mode(read_number(form.qpsk_mode.as_str(), 255, 0));
        let tx_power: u8 = read_number(form.qpsk_tx_power.as_str(), 255, 10) as u8;
        Modulation::Qpsk(QpskModulation { fchip, mode, tx_power })
    } else {
        Modulation::Off
    }
}

/// A character as it stands in the query of a redirect.
pub open spec fn encoded_char(c: char) -> Seq<char> {
    if c == ' ' {
        "+"@
    } else if c == '"' {
        "%22"@
    } else if c == '&' {
        "%26"@
    } else if c == ':' {
        "%3A"@
    } else {
        seq![c]
    }
}

/// A text as it stands in the query of a redirect.
pub open spec fn encoded(s: Seq<char>) -> Seq<char>
    decreases s.len(),
{
    if s.len() == 0 {
        Seq::empty()
    } else {
        encoded(s.drop_last()) + encoded_char(s.last())
    }
}

/// Writes a text for the query of a redirect.
pub fn urlenc(s: &str) -> (r: String)
    ensures
        r@ == encoded(s@),
{
    let chars = to_chars(s);
    let mut out = String::new();
    let mut i: usize = 0;
    while i < chars.len()
        invariant
            chars@ == s@,
            i <= chars@.len(),
            out@ == encoded(s@.take(i as int)),
        decreases chars@.len() - i,
    {
        let c = chars[i];
        let ghost before = out@;
        proof {
            assert(s@.take(i + 1).drop_last() =~= s@.take(i as int));
            assert(s@.take(i + 1).last() == c);
        }
        if c == ' ' {
            out.append("+");
        } else if c == '"' {
            out.append("%22");
        } else if c == '&' {
            out.append("%26");
        } else if c == ':' {
            out.append("%3A");
        } else {
            out.push(c);
            proof {
                assert(out@ =~= before + seq![c]);
            }
        }
        i += 1;
    }
    proof {
        assert(s@.take(i as int) =~= s@);
    }
    out
}

/// What is written for a query has none of the characters that would end or split it.
pub proof fn law_encoded_is_plain(s: Seq<char>)
    ensures
        forall|i: int|
            0 <= i < encoded(s).len() ==> {
                let c = #[trigger] encoded(s)[i];
                c != ' ' && c != '"' && c != '&' && c != ':'
            },
    decreases s.len(),
{
    if s.len() > 0 {
        law_encoded_is_plain(s.drop_last());
        reveal_strlit("+");
        reveal_strlit("%22");
        reveal_strlit("%26");
        reveal_strlit("%3A");
        let head = encoded(s.drop_last());
        let tail = encoded_char(s.last());
        assert forall|i: int| 0 <= i < encoded(s).len() implies {
            let c = #[trigger] encoded(s)[i];
            c != ' ' && c != '"' && c != '&' && c != ':'
        } by {
            if i < head.len() {
                assert(encoded(s)[i] == head[i]);
            } else {
                assert(encoded(s)[i] == tail[i - head.len()]);
            }
        }
    }
}

/// Where the browser is sent when the form is refused.
pub open spec fn refusal(message: Seq<char>) -> Seq<char> {
    "/settings?error="@ + encoded(message)
}

/// What is wrong with the form, if anything: the network first, then the
/// addresses of the radio where both are filled in.
pub open spec fn form_complaint(
    form: SettingsForm,
    network: Result<(Seq<u8>, u8), Seq<char>>,
    listen: Option<SocketAddress>,
    server: Option<SocketAddress>,
) -> Option<Seq<char>> {
    if network is Err {
        Some("Invalid network CIDR: "@ + text::trimmed(form.network@))
    } else if wants_radio(form) && listen is None {
        Some("Invalid listen address: "@ + text::trimmed(form.radio_listen@))
    } else if wants_radio(form) && server is None {
        Some("Invalid server address: "@ + text::trimmed(form.radio_server@))
    } else {
        None
    }
}

/// Whether settings are those of a form in which nothing is wrong.
pub open spec fn are_settings(
    c: GatewayConfig,
    form: SettingsForm,
    network: Result<(Seq<u8>, u8), Seq<char>>,
    listen: Option<SocketAddress>,
    server: Option<SocketAddress>,
) -> bool {
    let secs = number_or(form.announce_freq_secs@, u32::MAX as nat, 1);
    &&& network == Ok::<(Seq<u8>, u8), Seq<char>>(c.network@)
    &&& text::views(c.peers@) == peers_on(text::lines_of(form.peers@))
    &&& c.announce_freq_secs == if secs < 1 {
        1
    } else {
        secs
    }
    &&& if wants_radio(form) {
        c.kaonic_ctrl_config == Some(
            KaonicCtrlConfig {
                listen_addr: listen->0,
                server_addr: server->0,
                module: number_or(form.radio_module@, usize::MAX as nat, 0) as usize,
                radio_config: radio_of(form),
                modulation: Some(modulation_of(form)),
            },
        )
    } else {
        c.kaonic_ctrl_config is None
    }
}

/// Reads the form, given what its network and its two addresses were read as. On
/// refusal says where the browser is sent.
pub fn read_settings(
    form: &SettingsForm,
    network: Result<Ipv4Net, String>,
    listen: Option<SocketAddress>,
    server: Option<SocketAddress>,
) -> (r: Result<GatewayConfig, String>)
    ensures
        match r {
            Ok(c) => {
                &&& form_complaint(*form, route::view_net(network), listen, server) is None
                &&& are_settings(c, *form, route::view_net(network), listen, server)
            },
            Err(e) => {
                &&& form_complaint(*form, route::view_net(network), listen, server) is Some
                &&& e@ == refusal(form_complaint(*form, route::view_net(network), listen, server)->0)
            },
        },
{
    let network = match network {
        Ok(n) => n,
        Err(_) => {
            let message = cat2("Invalid network CIDR: ", trim(form.network.as_str()).as_str());
            return Err(cat2("/settings?error=", urlenc(message.as_str()).as_str()));
        },
    };
    let secs: u32 = read_number(form.announce_freq_secs.as_str(), u32::MAX as u64, 1) as u32;
    let announce_freq_secs: u32 = if secs < 1 {
        1
    } else {
        secs
    };
    let peers = read_peers(form.peers.as_str());
    let listen_text = trim(form.radio_listen.as_str());
    let server_text = trim(form.radio_server.as_str());
    let mut kaonic_ctrl_config: Option<KaonicCtrlConfig> = None;
    if !is_empty(listen_text.as_str()) && !is_empty(server_text.as_str()) {
        let listen_addr = match listen {
            Some(a) => a,
            None => {
                let message = cat2("Invalid listen address: ", listen_text.as_str());
                return Err(cat2("/settings?error=", urlenc(message.as_str()).as_str()));
            },
        };
        let server_addr = match server {
            Some(a) => a,
            None => {
                let message = cat2("Invalid server address: ", server_text.as_str());
                return Err(cat2("/settings?error=", urlenc(message.as_str()).as_str()));
            },
        };
        let module: usize = read_number(form.radio_module.as_str(), usize::MAX as u64, 0) as usize;
        kaonic_ctrl_config = Some(
            KaonicCtrlConfig {
                listen_addr,
                server_addr,
                module,
                radio_config: read_radio(form),
                modulation: Some(read_modulation(form)),
            },
        );
    }
    Ok(GatewayConfig { network, peers, announce_freq_secs, kaonic_ctrl_config })
}

/// Reads the form, given what its two addresses were read as.
pub fn post_settings(form: &SettingsForm, listen: Option<SocketAddress>, server: Option<SocketAddress>) -> (r: Result<
    GatewayConfig,
    String,
>)
    ensures
        ({
            let network = route::cidr_of(text::trimmed(form.network@));
            match r {
                Ok(c) => {
                    &&& form_complaint(*form, network, listen, server) is None
                    &&& are_settings(c, *form, network, listen, server)
                },
                Err(e) => {
                    &&& form_complaint(*form, network, listen, server) is Some
                    &&& e@ == refusal(form_complaint(*form, network, listen, server)->0)
                },
            }
        }),
{
    let network = parse_cidr(trim(form.network.as_str()).as_str());
    read_settings(form, network, listen, server)
}

/// Where the browser is sent once the settings were written, or could not be.
pub fn settings_saved(written: bool) -> (r: String)
    ensures
        r@ == if written {
            "/settings?saved=1"@
        } else {
            refusal("Failed to save settings"@)
        },
{
    if written {
        "/settings?saved=1".to_owned()
    } else {
        cat2("/settings?error=", urlenc("Failed to save settings").as_str())
    }
}

// ── Showing the page ─────────────────────────────────────────────────────────

/// The page with every field filled in.
#[derive(Clone, Debug)]
pub struct SettingsPage {
    pub saved: bool,
    pub error: Option<String>,
    pub network: String,
    pub announce_freq_secs: u32,
    pub peers_text: String,
    pub listen_addr: Option<SocketAddress>,
    pub server_addr: Option<SocketAddress>,
    pub module: usize,
    pub freq_mhz: u64,
    pub ch_spacing_khz: u64,
    pub channel: u16,
    pub bandwidth_filter: String,
    pub mod_type: String,
    pub ofdm_mcs: u8,
    pub ofdm_opt: u8,
    pub ofdm_pdt: u8,
    pub ofdm_tx_power: u8,
    pub qpsk_fchip: u8,
    pub qpsk_mode: u8,
    pub qpsk_tx_power: u8,
}

/// The radio's settings, where there are any.
pub open spec fn rf_of(c: GatewayConfig) -> Option<RadioConfig> {
    match c.kaonic_ctrl_config {
        Some(r) => r.radio_config,
        None => None,
    }
}

/// The radio's modulation, where there is any.
pub open spec fn shown_modulation(c: GatewayConfig) -> Option<Modulation> {
    match c.kaonic_ctrl_config {
        Some(r) => r.modulation,
        None => None,
    }
}

/// The choice of modulation that is shown.
pub open spec fn mod_type_name(m: Option<Modulation>) -> Seq<char> {
    match m {
        Some(Modulation::Ofdm(_)) => "ofdm"@,
        Some(Modulation::Qpsk(_)) => "qpsk"@,
        _ => "off"@,
    }
}

/// The choice of modulation that is shown.
pub fn mod_type_str(m: &Option<Modulation>) -> (r: String)
    ensures
        r@ == mod_type_name(*m),
{
    match m {
        Some(Modulation::Ofdm(_)) => "ofdm".to_owned(),
        Some(Modulation::Qpsk(_)) => "qpsk".to_owned(),
        _ => "off".to_owned(),
    }
}

/// The OFDM settings that are shown: those in force, or the defaults.
pub open spec fn shown_ofdm(c: GatewayConfig, default: OfdmModulation) -> OfdmModulation {
    match shown_modulation(c) {
        Some(Modulation::Ofdm(o)) => o,
        _ => default,
    }
}

/// The QPSK settings that are shown: those in force, or the defaults.
pub open spec fn shown_qpsk(c: GatewayConfig, default: QpskModulation) -> QpskModulation {
    match shown_modulation(c) {
        Some(Modulation::Qpsk(q)) => q,
        _ => default,
    }
}

/// Whether the page shows the settings.
pub open spec fn shows_settings(p: SettingsPage, c: GatewayConfig, ofdm: OfdmModulation, qpsk: QpskModulation) -> bool {
    let o = shown_ofdm(c, ofdm);
    let q = shown_qpsk(c, qpsk);
    &&& p.network@ == route::net_text(c.network@)
    &&& p.announce_freq_secs == c.announce_freq_secs
    &&& p.peers_text@ == text::joined(text::views(c.peers@), "\n"@)
    &&& match c.kaonic_ctrl_config {
        Some(r) => p.listen_addr == Some(r.listen_addr) && p.server_addr == Some(r.server_addr) && p.module == r.module,
        None => p.listen_addr is None && p.server_addr is None && p.module == 0,
    }
    &&& match rf_of(c) {
        Some(rf) => {
            &&& p.freq_mhz == rf.freq / 1_000_000
            &&& p.ch_spacing_khz == rf.channel_spacing / 1_000
            &&& p.channel == rf.channel
            &&& p.bandwidth_filter@ == if rf.bandwidth_filter == BandwidthFilter::Narrow {
                "narrow"@
            } else {
                "wide"@
            }
        },
        None => p.freq_mhz == 869 && p.ch_spacing_khz == 200 && p.channel == 0 && p.bandwidth_filter@ == "narrow"@,
    }
    &&& p.mod_type@ == mod_type_name(shown_modulation(c))
    &&& p.ofdm_mcs == mcs_number(o.mcs)
    &&& p.ofdm_opt == opt_number(o.opt)
    &&& p.ofdm_pdt == o.pdt
    &&& p.ofdm_tx_power == o.tx_power
    &&& p.qpsk_fchip == fchip_number(q.fchip)
    &&& p.qpsk_mode == mode_number(q.mode)
    &&& p.qpsk_tx_power == q.tx_power
}

/// The number of a modulation and coding scheme.
fn write_mcs(m: OfdmMcs) -> (r: u8)
    ensures
        r == mcs_number(m),
{
    match m {
        OfdmMcs::BpskC1_2_4x => 0,
        OfdmMcs::BpskC1_2_2x => 1,
        OfdmMcs::QpskC1_2_2x => 2,
        OfdmMcs::QpskC1_2 => 3,
        OfdmMcs::QpskC3_4 => 4,
        OfdmMcs::QamC1_2 => 5,
        OfdmMcs::QamC3_4 => 6,
    }
}

/// The number of a bandwidth.
fn write_opt(o: OfdmBandwidthOption) -> (r: u8)
    ensures
        r == opt_number(o),
{
    match o {
        OfdmBandwidthOption::Option1 => 0,
        OfdmBandwidthOption::Option2 => 1,
        OfdmBandwidthOption::Option3 => 2,
        OfdmBandwidthOption::Option4 => 3,
    }
}

/// The number of a chip rate.
fn write_fchip(f: QpskChipFrequency) -> (r: u8)
    ensures
        r == fchip_number(f),
{
    match f {
        QpskChipFrequency::Fchip100 => 0,
        QpskChipFrequency::Fchip200 => 1,
        QpskChipFrequency::Fchip1000 => 2,
        QpskChipFrequency::Fchip2000 => 3,
    }
}

/// The number of a rate mode.
fn write_mode(m: QpskRateMode) -> (r: u8)
    ensures
        r == mode_number(m),
{
    match m {
        QpskRateMode::RateMode0 => 0,
        QpskRateMode::RateMode1 => 1,
        QpskRateMode::RateMode2 => 2,
        QpskRateMode::RateMode3 => 3,
        QpskRateMode::RateMode4 => 4,
    }
}

/// The page for settings that were loaded, or for the default ones. Modulations
/// that are not in force are shown with the given defaults.
pub fn get_settings(config: &GatewayConfig, flash: &Flash, ofdm_default: OfdmModulation, qpsk_default: QpskModulation) -> (p:
    SettingsPage)
    ensures
        p.saved == flash.saved is Some,
        p.error == flash.error,
        shows_settings(p, *config, ofdm_default, qpsk_default),
{
    let (listen_addr, server_addr, module, rf, modulation): (
        Option<SocketAddress>,
        Option<SocketAddress>,
        usize,
        Option<RadioConfig>,
        Option<Modulation>,
    ) = match &config.kaonic_ctrl_config {
        Some(r) => (Some(r.listen_addr), Some(r.server_addr), r.module, r.radio_config, r.modulation),
        None => (None, None, 0, None, None),
    };
    let (freq_mhz, ch_spacing_khz, channel, narrow): (u64, u64, u16, bool) = match rf {
        Some(rf) => (
            rf.freq / 1_000_000,
            rf.channel_spacing / 1_000,
            rf.channel,
            rf.bandwidth_filter == BandwidthFilter::Narrow,
        ),
        None => (869, 200, 0, true),
    };
    let ofdm = match modulation {
        Some(Modulation::Ofdm(o)) => o,
        _ => ofdm_default,
    };
    let qpsk = match modulation {
        Some(Modulation::Qpsk(q)) => q,
        _ => qpsk_default,
    };
    SettingsPage {
        saved: flash.saved.is_some(),
        error: match &flash.error {
            Some(e) => Some(e.clone()),
            None => None,
        },
        network: write_net(&config.network),
        announce_freq_secs: config.announce_freq_secs,
        peers_text: join(&config.peers, "\n"),
        listen_addr,
        server_addr,
        module,
        freq_mhz,
        ch_spacing_khz,
        channel,
        bandwidth_filter: if narrow {
            "narrow".to_owned()
        } else {
            "wide".to_owned()
        },
        mod_type: mod_type_str(&modulation),
        ofdm_mcs: write_mcs(ofdm.mcs),
        ofdm_opt: write_opt(ofdm.opt),
        ofdm_pdt: ofdm.pdt,
        ofdm_tx_power: ofdm.tx_power,
        qpsk_fchip: write_fchip(qpsk.fchip),
        qpsk_mode: write_mode(qpsk.mode),
        qpsk_tx_power: qpsk.tx_power,
    }
}

// ── Saving what is shown ─────────────────────────────────────────────────────

/// Whether a form is filled in as the page fills it in: every number in decimal, every
/// choice by its value. What the address fields hold is up to how addresses are written.
pub open spec fn is_filled_in(form: SettingsForm, p: SettingsPage) -> bool {
    &&& form.announce_freq_secs@ == digits::decimal(p.announce_freq_secs as nat)
    &&& form.peers@ == p.peers_text@
    &&& wants_radio(form) == (p.listen_addr is Some && p.server_addr is Some)
    &&& form.radio_module@ == digits::decimal(p.module as nat)
    &&& form.radio_freq_mhz@ == digits::decimal(p.freq_mhz as nat)
    &&& form.radio_channel_spacing_khz@ == digits::decimal(p.ch_spacing_khz as nat)
    &&& form.radio_channel@ == digits::decimal(p.channel as nat)
    &&& form.radio_bandwidth_filter@ == p.bandwidth_filter@
    &&& form.modulation_type@ == p.mod_type@
    &&& form.ofdm_mcs@ == digits::decimal(p.ofdm_mcs as nat)
    &&& form.ofdm_opt@ == digits::decimal(p.ofdm_opt as nat)
    &&& form.ofdm_pdt@ == digits::decimal(p.ofdm_pdt as nat)
    &&& form.ofdm_tx_power@ == digits::decimal(p.ofdm_tx_power as nat)
    &&& form.qpsk_fchip@ == digits::decimal(p.qpsk_fchip as nat)
    &&& form.qpsk_mode@ == digits::decimal(p.qpsk_mode as nat)
    &&& form.qpsk_tx_power@ == digits::decimal(p.qpsk_tx_power as nat)
}

/// Whether the page can show settings in full: there are announcements, every peer fits
/// on a line of its own, and a radio has a carrier in whole megahertz, a spacing in whole
/// kilohertz and a modulation that can be chosen.
pub open spec fn can_be_shown(c: GatewayConfig) -> bool {
    &&& c.announce_freq_secs >= 1
    &&& forall|i: int|
        0 <= i < c.peers@.len() ==> {
            let peer = (#[trigger] c.peers@[i])@;
            &&& peer.len() > 0
            &&& !text::is_white(peer[0])
            &&& !text::is_white(peer.last())
            &&& !peer.contains('\n')
        }
    &&& match c.kaonic_ctrl_config {
        Some(r) => {
            &&& r.radio_config is Some
            &&& r.radio_config->0.freq > 0
            &&& r.radio_config->0.freq % 1_000_000 == 0
            &&& r.radio_config->0.channel_spacing % 1_000 == 0
            &&& r.modulation is Some
            &&& !(r.modulation->0 is Fsk)
        },
        None => true,
    }
}

/// A number that the page wrote is read back.
proof fn lemma_number_reads_back(n: nat, max: nat, default: nat)
    requires
        n <= max,
    ensures
        number_or(digits::decimal(n), max, default) == n,
{
    let s = digits::decimal(n);
    digits::lemma_decimal_reads_back(n);
    assert(digits::is_digit(s[0]));
    assert(digits::is_digit(s[s.len() - 1]));
    text::lemma_trim_plain(s);
    assert(digits::unsigned_body(s) == s);
}

/// The peers that the page wrote are read back.
proof fn lemma_peers_read_back(rows: Seq<Seq<char>>)
    requires
        forall|i: int|
            0 <= i < rows.len() ==> (#[trigger] rows[i]).len() > 0 && !text::is_white(rows[i][0]) && !text::is_white(
                rows[i].last(),
            ),
    ensures
        peers_on(rows) == rows,
    decreases rows.len(),
{
    if rows.len() > 0 {
        let front = rows.drop_last();
        assert forall|i: int| 0 <= i < front.len() implies (#[trigger] front[i]).len() > 0 && !text::is_white(front[i][0])
            && !text::is_white(front[i].last()) by {
            assert(rows[i].len() > 0);
        }
        lemma_peers_read_back(front);
        assert(rows[rows.len() - 1].len() > 0);
        text::lemma_trim_plain(rows.last());
        assert(front.push(rows.last()) =~= rows);
    }
}

/// The words by which choices are written.
proof fn lemma_choice_words()
    ensures
        text::trimmed("off"@) == "off"@,
        text::trimmed("ofdm"@) == "ofdm"@,
        text::trimmed("qpsk"@) == "qpsk"@,
        text::trimmed("wide"@) == "wide"@,
        text::trimmed("narrow"@) == "narrow"@,
        "off"@ != "ofdm"@,
        "off"@ != "qpsk"@,
        "qpsk"@ != "ofdm"@,
        "narrow"@ != "wide"@,
{
    reveal_strlit("off");
    reveal_strlit("ofdm");
    reveal_strlit("qpsk");
    reveal_strlit("wide");
    reveal_strlit("narrow");
    text::lemma_trim_plain("off"@);
    text::lemma_trim_plain("ofdm"@);
    text::lemma_trim_plain("qpsk"@);
    text::lemma_trim_plain("wide"@);
    text::lemma_trim_plain("narrow"@);
    assert("off"@.len() == 3 && "ofdm"@.len() == 4 && "narrow"@.len() == 6 && "wide"@.len() == 4);
    assert("qpsk"@[0] == 'q' && "ofdm"@[0] == 'o');
}

/// Saving the page as it is shown changes nothing: the form is accepted, its frequencies
/// fit, and the settings that it writes are the settings that were shown.
pub proof fn law_page_saves_back(
    c: GatewayConfig,
    p: SettingsPage,
    form: SettingsForm,
    ofdm: OfdmModulation,
    qpsk: QpskModulation,
)
    requires
        can_be_shown(c),
        shows_settings(p, c, ofdm, qpsk),
        is_filled_in(form, p),
    ensures
        ({
            let network = Ok::<(Seq<u8>, u8), Seq<char>>(c.network@);
            &&& form_complaint(form, network, p.listen_addr, p.server_addr) is None
            &&& are_settings(c, form, network, p.listen_addr, p.server_addr)
        }),
{
    lemma_choice_words();
    lemma_number_reads_back(p.announce_freq_secs as nat, u32::MAX as nat, 1);
    lemma_number_reads_back(p.module as nat, usize::MAX as nat, 0);
    lemma_number_reads_back(p.freq_mhz as nat, u64::MAX as nat, 0);
    lemma_number_reads_back(p.ch_spacing_khz as nat, u64::MAX as nat, 0);
    lemma_number_reads_back(p.channel as nat, u16::MAX as nat, 0);
    lemma_number_reads_back(p.ofdm_mcs as nat, 255, 0);
    lemma_number_reads_back(p.ofdm_opt as nat, 255, 0);
    lemma_number_reads_back(p.ofdm_pdt as nat, 255, 3);
    lemma_number_reads_back(p.ofdm_tx_power as nat, 255, 10);
    lemma_number_reads_back(p.qpsk_fchip as nat, 255, 0);
    lemma_number_reads_back(p.qpsk_mode as nat, 255, 0);
    lemma_number_reads_back(p.qpsk_tx_power as nat, 255, 10);
    let rows = text::views(c.peers@);
    assert forall|i: int| 0 <= i < rows.len() implies (#[trigger] rows[i]).len() > 0 && !text::is_white(rows[i][0])
        && !text::is_white(rows[i].last()) && !rows[i].contains('\n') by {
        assert(c.peers@[i]@.len() > 0);
    }
    reveal_strlit("\n");
    assert("\n"@ =~= seq!['\n']);
    text::lemma_lines_joined(rows);
    lemma_peers_read_back(rows);
    if let Some(r) = c.kaonic_ctrl_config {
        let rf = r.radio_config->0;
        assert(rf.freq / 1_000_000 * 1_000_000 == rf.freq);
        assert(rf.channel_spacing / 1_000 * 1_000 == rf.channel_spacing);
        assert(rf.freq / 1_000_000 > 0);
        assert(radio_of(form) == r.radio_config);
        match r.modulation->0 {
            Modulation::Ofdm(o) => {
                law_choices_read_back(o.mcs, o.opt, qpsk.fchip, qpsk.mode);
            },
            Modulation::Qpsk(q) => {
                law_choices_read_back(ofdm.mcs, ofdm.opt, q.fchip, q.mode);
            },
            _ => {},
        }
        assert(modulation_of(form) == r.modulation->0);
    }
}

// ── What is typed and what comes of it ───────────────────────────────────────

/// Whether a number stands in a field, with or without white space around it.
pub open spec fn is_typed(field: Seq<char>, n: nat) -> bool {
    text::trimmed(field) == digits::decimal(n)
}

/// Whether a field was left blank.
pub open spec fn is_blank(field: Seq<char>) -> bool {
    text::trimmed(field).len() == 0
}

/// What a typed number and a blank field are read as.
proof fn lemma_typed(field: Seq<char>, n: nat, max: nat, default: nat)
    ensures
        is_typed(field, n) && n <= max ==> number_or(field, max, default) == n,
        is_typed(field, n) && n > max ==> number_or(field, max, default) == default,
        is_blank(field) ==> number_or(field, max, default) == default,
{
    let s = digits::decimal(n);
    digits::lemma_decimal_reads_back(n);
    assert(digits::is_digit(s[0]));
    assert(digits::unsigned_body(s) == s);
}

/// A typed number is what is read, where it is not too large; a blank field, a number that is too large
/// and anything that is no number are read as the default.
pub proof fn law_numbers_are_read(field: &str, max: u64, default: u64, n: nat, i: int, r: u64)
    requires
        default <= max,
        call_ensures(read_number, (field, max, default), r),
    ensures
        is_typed(field@, n) && n <= max ==> r == n,
        is_typed(field@, n) && n > max ==> r == default,
        is_blank(field@) ==> r == default,
        0 <= i < text::trimmed(field@).len() && !digits::is_digit(text::trimmed(field@)[i]) && (i > 0 || text::trimmed(
            field@,
        )[i] != '+') ==> r == default,
{
    lemma_typed(field@, n, max as nat, default as nat);
    let s = text::trimmed(field@);
    let body = digits::unsigned_body(s);
    if 0 <= i < s.len() && !digits::is_digit(s[i]) && (i > 0 || s[i] != '+') {
        if s[0] == '+' {
            assert(body[i - 1] == s[i]);
        } else {
            assert(body[i] == s[i]);
        }
    }
}

/// The peers are the lines of the field without white space around them, in their order, blank lines left
/// out.
pub proof fn law_peers_are_the_lines(field: &str, rows: Vec<String>, r: Vec<String>)
    requires
        call_ensures(lines, (field,), rows),
        call_ensures(read_peers, (field,), r),
    ensures
        text::views(r@) == text::views(rows@).map_values(|row: Seq<char>| text::trimmed(row)).filter(
            |name: Seq<char>| name.len() > 0,
        ),
{
    lemma_peers(text::views(rows@));
}

/// The peers on lines, by what they are and what they are not.
proof fn lemma_peers(rows: Seq<Seq<char>>)
    ensures
        peers_on(rows) == rows.map_values(|row: Seq<char>| text::trimmed(row)).filter(|name: Seq<char>| name.len() > 0),
    decreases rows.len(),
{
    reveal(Seq::filter);
    let names = rows.map_values(|row: Seq<char>| text::trimmed(row));
    if rows.len() > 0 {
        lemma_peers(rows.drop_last());
        assert(names.drop_last() =~= rows.drop_last().map_values(|row: Seq<char>| text::trimmed(row)));
        assert(names.last() == text::trimmed(rows.last()));
    }
}

/// The form is refused exactly where the network is none, or where both addresses of the radio are filled
/// in and one of them is none. The browser is then sent back with the first of these complaints.
pub proof fn law_form_is_refused(
    form: &SettingsForm,
    network: Result<Ipv4Net, String>,
    listen: Option<SocketAddress>,
    server: Option<SocketAddress>,
    r: Result<GatewayConfig, String>,
    said: &str,
    written: String,
)
    requires
        call_ensures(read_settings, (form, network, listen, server), r),
        call_ensures(urlenc, (said,), written),
    ensures
        ({
            let radio = !is_blank(form.radio_listen@) && !is_blank(form.radio_server@);
            &&& r is Ok <==> network is Ok && (radio ==> listen is Some && server is Some)
            &&& network is Err && said@ == "Invalid network CIDR: "@ + text::trimmed(form.network@) ==> r->Err_0@
                == "/settings?error="@ + written@
            &&& network is Ok && radio && listen is None && said@ == "Invalid listen address: "@ + text::trimmed(
                form.radio_listen@,
            ) ==> r->Err_0@ == "/settings?error="@ + written@
            &&& network is Ok && radio && listen is Some && server is None && said@ == "Invalid server address: "@
                + text::trimmed(form.radio_server@) ==> r->Err_0@ == "/settings?error="@ + written@
        }),
{
}

/// The network in the form is read like any other, without white space around it, and the form is
/// accepted or not by what it is read as.
pub proof fn law_form_names_a_network(
    form: &SettingsForm,
    listen: Option<SocketAddress>,
    server: Option<SocketAddress>,
    r: Result<GatewayConfig, String>,
)
    requires
        call_ensures(post_settings, (form, listen, server), r),
    ensures
        ({
            let network = route::cidr_of(text::trimmed(form.network@));
            let radio = !is_blank(form.radio_listen@) && !is_blank(form.radio_server@);
            &&& r is Ok <==> network is Ok && (radio ==> listen is Some && server is Some)
            &&& r is Ok ==> r->Ok_0.network@ == network->Ok_0
        }),
{
}

/// Accepted settings are what was typed: the network and the peers, at least a second between two
/// announcements, and a radio where both of its addresses are filled in, at these addresses and with the
/// typed number of its module.
pub proof fn law_settings_are_what_was_typed(
    form: &SettingsForm,
    network: Result<Ipv4Net, String>,
    listen: Option<SocketAddress>,
    server: Option<SocketAddress>,
    r: Result<GatewayConfig, String>,
    field: &str,
    peers: Vec<String>,
    n: nat,
)
    requires
        call_ensures(read_settings, (form, network, listen, server), r),
        field@ == form.peers@,
        call_ensures(read_peers, (field,), peers),
        r is Ok,
    ensures
        r->Ok_0.network@ == network->Ok_0@,
        text::views(r->Ok_0.peers@) == text::views(peers@),
        r->Ok_0.announce_freq_secs >= 1,
        is_typed(form.announce_freq_secs@, n) && 1 <= n <= u32::MAX ==> r->Ok_0.announce_freq_secs == n,
        is_typed(form.announce_freq_secs@, n) && n == 0 ==> r->Ok_0.announce_freq_secs == 1,
        is_blank(form.announce_freq_secs@) ==> r->Ok_0.announce_freq_secs == 1,
        r->Ok_0.kaonic_ctrl_config is Some <==> !is_blank(form.radio_listen@) && !is_blank(form.radio_server@),
        r->Ok_0.kaonic_ctrl_config matches Some(k) ==> {
            &&& listen == Some(k.listen_addr)
            &&& server == Some(k.server_addr)
            &&& k.modulation is Some
            &&& is_typed(form.radio_module@, n) && n <= usize::MAX ==> k.module == n
            &&& is_blank(form.radio_module@) ==> k.module == 0
        },
{
    lemma_typed(form.announce_freq_secs@, n, u32::MAX as nat, 1);
    lemma_typed(form.radio_module@, n, usize::MAX as nat, 0);
}

/// The radio is tuned to what was typed: the carrier in megahertz, the spacing in kilohertz, the channel
/// as it is, and a wide filter exactly where `wide` was chosen. Without a carrier nothing is tuned.
pub proof fn law_radio_is_tuned_as_typed(
    form: &SettingsForm,
    network: Result<Ipv4Net, String>,
    listen: Option<SocketAddress>,
    server: Option<SocketAddress>,
    r: Result<GatewayConfig, String>,
    n: nat,
)
    requires
        call_ensures(read_settings, (form, network, listen, server), r),
        r is Ok,
        r->Ok_0.kaonic_ctrl_config is Some,
    ensures
        ({
            let rf = r->Ok_0.kaonic_ctrl_config->0.radio_config;
            &&& is_blank(form.radio_freq_mhz@) ==> rf is None
            &&& is_typed(form.radio_freq_mhz@, 0) ==> rf is None
            &&& is_typed(form.radio_freq_mhz@, n) && 0 < n <= u64::MAX ==> rf is Some
            &&& is_typed(form.radio_freq_mhz@, n) && 0 < n && n * 1_000_000 <= u64::MAX ==> rf->0.freq == n * 1_000_000
            &&& rf is Some && is_typed(form.radio_channel_spacing_khz@, n) && n * 1_000 <= u64::MAX
                ==> rf->0.channel_spacing == n * 1_000
            &&& rf is Some && is_blank(form.radio_channel_spacing_khz@) ==> rf->0.channel_spacing == 0
            &&& rf is Some && is_typed(form.radio_channel@, n) && n <= 65_535 ==> rf->0.channel == n
            &&& rf is Some && is_blank(form.radio_channel@) ==> rf->0.channel == 0
            &&& rf is Some ==> (rf->0.bandwidth_filter == BandwidthFilter::Wide <==> text::trimmed(
                form.radio_bandwidth_filter@,
            ) == "wide"@)
        }),
{
    lemma_typed(form.radio_freq_mhz@, n, u64::MAX as nat, 0);
    lemma_typed(form.radio_freq_mhz@, 0, u64::MAX as nat, 0);
    lemma_typed(form.radio_channel_spacing_khz@, n, u64::MAX as nat, 0);
    lemma_typed(form.radio_channel@, n, u16::MAX as nat, 0);
}

/// The modulation schemes in the order of their numbers.
pub open spec fn schemes_in_order() -> Seq<OfdmMcs> {
    seq![
        OfdmMcs::BpskC1_2_4x,
        OfdmMcs::BpskC1_2_2x,
        OfdmMcs::QpskC1_2_2x,
        OfdmMcs::QpskC1_2,
        OfdmMcs::QpskC3_4,
        OfdmMcs::QamC1_2,
        OfdmMcs::QamC3_4,
    ]
}

/// The bandwidths in the order of their numbers.
pub open spec fn bandwidths_in_order() -> Seq<OfdmBandwidthOption> {
    seq![
        OfdmBandwidthOption::Option1,
        OfdmBandwidthOption::Option2,
        OfdmBandwidthOption::Option3,
        OfdmBandwidthOption::Option4,
    ]
}

/// The chip rates in the order of their numbers.
pub open spec fn chip_rates_in_order() -> Seq<QpskChipFrequency> {
    seq![
        QpskChipFrequency::Fchip100,
        QpskChipFrequency::Fchip200,
        QpskChipFrequency::Fchip1000,
        QpskChipFrequency::Fchip2000,
    ]
}

/// The rate modes in the order of their numbers.
pub open spec fn rate_modes_in_order() -> Seq<QpskRateMode> {
    seq![
        QpskRateMode::RateMode0,
        QpskRateMode::RateMode1,
        QpskRateMode::RateMode2,
        QpskRateMode::RateMode3,
        QpskRateMode::RateMode4,
    ]
}

/// The modulation is the one that was chosen, by its word; each of its parts is what was chosen by number,
/// and each power and margin the number that was typed. A scheme past the end is the last one, any other
/// part past the end the first one.
pub proof fn law_modulation_is_what_was_chosen(
    form: &SettingsForm,
    network: Result<Ipv4Net, String>,
    listen: Option<SocketAddress>,
    server: Option<SocketAddress>,
    r: Result<GatewayConfig, String>,
    n: nat,
)
    requires
        call_ensures(read_settings, (form, network, listen, server), r),
        r is Ok,
        r->Ok_0.kaonic_ctrl_config is Some,
        n <= 255,
    ensures
        ({
            let m = r->Ok_0.kaonic_ctrl_config->0.modulation->0;
            let word = text::trimmed(form.modulation_type@);
            &&& m is Ofdm <==> word == "ofdm"@
            &&& m is Qpsk <==> word == "qpsk"@
            &&& m is Ofdm || m is Qpsk || m == Modulation::Off
            &&& m matches Modulation::Ofdm(o) ==> {
                &&& is_typed(form.ofdm_mcs@, n) && n < 7 ==> o.mcs == schemes_in_order()[n as int]
                &&& is_typed(form.ofdm_mcs@, n) && n >= 7 ==> o.mcs == OfdmMcs::QamC3_4
                &&& is_blank(form.ofdm_mcs@) ==> o.mcs == OfdmMcs::BpskC1_2_4x
                &&& is_typed(form.ofdm_opt@, n) && n < 4 ==> o.opt == bandwidths_in_order()[n as int]
                &&& is_typed(form.ofdm_opt@, n) && n >= 4 ==> o.opt == OfdmBandwidthOption::Option1
                &&& is_blank(form.ofdm_opt@) ==> o.opt == OfdmBandwidthOption::Option1
                &&& is_typed(form.ofdm_pdt@, n) ==> o.pdt == n
                &&& is_blank(form.ofdm_pdt@) ==> o.pdt == 3
                &&& is_typed(form.ofdm_tx_power@, n) ==> o.tx_power == n
                &&& is_blank(form.ofdm_tx_power@) ==> o.tx_power == 10
            }
            &&& m matches Modulation::Qpsk(q) ==> {
                &&& is_typed(form.qpsk_fchip@, n) && n < 4 ==> q.fchip == chip_rates_in_order()[n as int]
                &&& is_typed(form.qpsk_fchip@, n) && n >= 4 ==> q.fchip == QpskChipFrequency::Fchip100
                &&& is_blank(form.qpsk_fchip@) ==> q.fchip == QpskChipFrequency::Fchip100
                &&& is_typed(form.qpsk_mode@, n) && n < 5 ==> q.mode == rate_modes_in_order()[n as int]
                &&& is_typed(form.qpsk_mode@, n) && n >= 5 ==> q.mode == QpskRateMode::RateMode0
                &&& is_blank(form.qpsk_mode@) ==> q.mode == QpskRateMode::RateMode0
                &&& is_typed(form.qpsk_tx_power@, n) ==> q.tx_power == n
                &&& is_blank(form.qpsk_tx_power@) ==> q.tx_power == 10
            }
        }),
{
    lemma_choice_words();
    lemma_typed(form.ofdm_mcs@, n, 255, 0);
    lemma_typed(form.ofdm_opt@, n, 255, 0);
    lemma_typed(form.ofdm_pdt@, n, 255, 3);
    lemma_typed(form.ofdm_tx_power@, n, 255, 10);
    lemma_typed(form.qpsk_fchip@, n, 255, 0);
    lemma_typed(form.qpsk_mode@, n, 255, 0);
    lemma_typed(form.qpsk_tx_power@, n, 255, 10);
}

/// The page shows the settings field by field: the carrier in whole megahertz, the spacing in whole
/// kilohertz, every part of the modulation by its number, and the defaults for a modulation that is not in
/// force.
pub proof fn law_page_shows_the_settings(
    c: &GatewayConfig,
    flash: &Flash,
    ofdm: OfdmModulation,
    qpsk: QpskModulation,
    p: SettingsPage,
    network: String,
)
    requires
        call_ensures(get_settings, (c, flash, ofdm, qpsk), p),
        call_ensures(write_net, (&c.network,), network),
    ensures
        p.saved <==> flash.saved is Some,
        p.error == flash.error,
        p.network@ == network@,
        p.announce_freq_secs == c.announce_freq_secs,
        p.peers_text@ == text::joined(text::views(c.peers@), "\n"@),
        c.kaonic_ctrl_config is None ==> p.listen_addr is None && p.server_addr is None && p.module == 0,
        c.kaonic_ctrl_config matches Some(k) ==> p.listen_addr == Some(k.listen_addr) && p.server_addr == Some(
            k.server_addr,
        ) && p.module == k.module,
        c.kaonic_ctrl_config is None || c.kaonic_ctrl_config->0.radio_config is None ==> p.freq_mhz == 869
            && p.ch_spacing_khz == 200 && p.channel == 0 && p.bandwidth_filter@ == "narrow"@,
        c.kaonic_ctrl_config is Some && c.kaonic_ctrl_config->0.radio_config is Some ==> {
            let rf = c.kaonic_ctrl_config->0.radio_config->0;
            &&& p.freq_mhz * 1_000_000 <= rf.freq < (p.freq_mhz + 1) * 1_000_000
            &&& p.ch_spacing_khz * 1_000 <= rf.channel_spacing < (p.ch_spacing_khz + 1) * 1_000
            &&& p.channel == rf.channel
            &&& rf.bandwidth_filter == BandwidthFilter::Wide ==> p.bandwidth_filter@ == "wide"@
            &&& rf.bandwidth_filter == BandwidthFilter::Narrow ==> p.bandwidth_filter@ == "narrow"@
        },
        ({
            let m = if c.kaonic_ctrl_config is Some {
                c.kaonic_ctrl_config->0.modulation
            } else {
                None
            };
            let o = if m is Some && m->0 is Ofdm {
                m->0->Ofdm_0
            } else {
                ofdm
            };
            let q = if m is Some && m->0 is Qpsk {
                m->0->Qpsk_0
            } else {
                qpsk
            };
            &&& m is Some && m->0 is Ofdm ==> p.mod_type@ == "ofdm"@
            &&& m is Some && m->0 is Qpsk ==> p.mod_type@ == "qpsk"@
            &&& m is None || !(m->0 is Ofdm || m->0 is Qpsk) ==> p.mod_type@ == "off"@
            &&& p.ofdm_mcs < 7 && schemes_in_order()[p.ofdm_mcs as int] == o.mcs
            &&& p.ofdm_opt < 4 && bandwidths_in_order()[p.ofdm_opt as int] == o.opt
            &&& p.ofdm_pdt == o.pdt && p.ofdm_tx_power == o.tx_power
            &&& p.qpsk_fchip < 4 && chip_rates_in_order()[p.qpsk_fchip as int] == q.fchip
            &&& p.qpsk_mode < 5 && rate_modes_in_order()[p.qpsk_mode as int] == q.mode
            &&& p.qpsk_tx_power == q.tx_power
        }),
{
}

/// A text is written for a query character by character: a space as a plus sign, a quotation mark, an
/// ampersand and a colon by their numbers, and every other character as it is.
pub proof fn law_query_is_written_character_by_character(a: &str, b: &str, c: char, x: String, y: String)
    requires
        b@ == a@.push(c),
        call_ensures(urlenc, (a,), x),
        call_ensures(urlenc, (b,), y),
    ensures
        a@.len() == 0 ==> x@.len() == 0,
        y@ == x@ + (if c == ' ' {
            seq!['+']
        } else if c == '"' {
            seq!['%', '2', '2']
        } else if c == '&' {
            seq!['%', '2', '6']
        } else if c == ':' {
            seq!['%', '3', 'A']
        } else {
            seq![c]
        }),
{
    reveal_strlit("+");
    reveal_strlit("%22");
    reveal_strlit("%26");
    reveal_strlit("%3A");
    assert(b@.drop_last() =~= a@);
    assert("+"@ =~= seq!['+']);
    assert("%22"@ =~= seq!['%', '2', '2']);
    assert("%26"@ =~= seq!['%', '2', '6']);
    assert("%3A"@ =~= seq!['%', '3', 'A']);
}

/// Saving leads back to the page, with a word on how it went.
pub proof fn law_saving_is_reported(written: bool, r: String, said: &str, encoded_said: String)
    requires
        call_ensures(settings_saved, (written,), r),
        said@ == "Failed to save settings"@,
        call_ensures(urlenc, (said,), encoded_said),
    ensures
        written ==> r@ == "/settings?saved=1"@,
        !written ==> r@ == "/settings?error="@ + encoded_said@,
{
}

/// Before anyone has set them the network is 10.20.0.0/16, there are no peers and no radio, and a second
/// lies between two announcements.
pub proof fn law_settings_before_any(c: GatewayConfig)
    requires
        call_ensures(default_config, (), c),
    ensures
        c.network.length == 16,
        c.network.address@[0] == 10 && c.network.address@[1] == 20 && c.network.address@[2] == 0 && c.network.address@[3]
            == 0,
        c.peers@.len() == 0,
        c.announce_freq_secs == 1,
        c.kaonic_ctrl_config is None,
{
    let n = c.network@;
    assert(n.0 == c.network.address@ && n.1 == c.network.length);
    assert(n.0[0] == 10 && n.0[1] == 20 && n.0[2] == 0 && n.0[3] == 0);
}

/// A modulation is chosen by its word, and any other by none.
pub proof fn law_modulations_have_their_word(m: &Option<Modulation>, r: String)
    requires
        call_ensures(mod_type_str, (m,), r),
    ensures
        *m is Some && m->0 is Ofdm ==> r@ == "ofdm"@,
        *m is Some && m->0 is Qpsk ==> r@ == "qpsk"@,
        *m is None || !(m->0 is Ofdm || m->0 is Qpsk) ==> r@ == "off"@,
{
}

} // verus!
