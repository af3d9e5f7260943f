//! The cards of the dashboard.

use vstd::prelude::*;

use crate::dashboard::settings;
use crate::digits;
use crate::digits::{dec, dec_usize};
use crate::gateway::radio::{
    Accelerator, BandwidthFilter, Modulation, OfdmBandwidthOption, OfdmMcs, QpskChipFrequency, QpskRateMode,
    RadioModuleConfig,
};
use crate::pages::network;
use crate::pages::network::text_or;
use crate::pages::reticulum::VpnPeer;
use crate::text;
use crate::text::{cat2, cat4, same};

verus! {

// ── Radio ────────────────────────────────────────────────────────────────────

/// What a radio module is called.
pub fn radio_label(index: usize) -> (r: &'static str)
    ensures
        r@ == if index == 0 {
            "Radio A"@
        } else if index == 1 {
            "Radio B"@
        } else {
            "Radio"@
        },
{
    match index {
        0 => "Radio A",
        1 => "Radio B",
        _ => "Radio",
    }
}

/// A coding scheme in short.
pub open spec fn mcs_short(value: OfdmMcs) -> Seq<char> {
    match value {
        OfdmMcs::BpskC1_2_4x => "BPSK ½ 4×"@,
        OfdmMcs::BpskC1_2_2x => "BPSK ½ 2×"@,
        OfdmMcs::QpskC1_2_2x => "QPSK ½ 2×"@,
        OfdmMcs::QpskC1_2 => "QPSK ½"@,
        OfdmMcs::QpskC3_4 => "QPSK ¾"@,
        OfdmMcs::QamC1_2 => "16-QAM ½"@,
        OfdmMcs::QamC3_4 => "16-QAM ¾"@,
    }
}

/// A coding scheme in short.
fn mcs_symbol(value: OfdmMcs) -> (r: &'static str)
    ensures
        r@ == mcs_short(value),
{
    match value {
        OfdmMcs::BpskC1_2_4x => "BPSK ½ 4×",
        OfdmMcs::BpskC1_2_2x => "BPSK ½ 2×",
        OfdmMcs::QpskC1_2_2x => "QPSK ½ 2×",
        OfdmMcs::QpskC1_2 => "QPSK ½",
        OfdmMcs::QpskC3_4 => "QPSK ¾",
        OfdmMcs::QamC1_2 => "16-QAM ½",
        OfdmMcs::QamC3_4 => "16-QAM ¾",
    }
}

/// A coding scheme.
pub open spec fn mcs_long(value: OfdmMcs) -> Seq<char> {
    match value {
        OfdmMcs::BpskC1_2_4x => "BPSK 1/2 4×"@,
        OfdmMcs::BpskC1_2_2x => "BPSK 1/2 2×"@,
        OfdmMcs::QpskC1_2_2x => "QPSK 1/2 2×"@,
        OfdmMcs::QpskC1_2 => "QPSK 1/2"@,
        OfdmMcs::QpskC3_4 => "QPSK 3/4"@,
        OfdmMcs::QamC1_2 => "16-QAM 1/2"@,
        OfdmMcs::QamC3_4 => "16-QAM 3/4"@,
    }
}

/// A coding scheme.
fn mcs_name(value: OfdmMcs) -> (r: &'static str)
    ensures
        r@ == mcs_long(value),
{
    match value {
        OfdmMcs::BpskC1_2_4x => "BPSK 1/2 4×",
        OfdmMcs::BpskC1_2_2x => "BPSK 1/2 2×",
        OfdmMcs::QpskC1_2_2x => "QPSK 1/2 2×",
        OfdmMcs::QpskC1_2 => "QPSK 1/2",
        OfdmMcs::QpskC3_4 => "QPSK 3/4",
        OfdmMcs::QamC1_2 => "16-QAM 1/2",
        OfdmMcs::QamC3_4 => "16-QAM 3/4",
    }
}

/// The number of a bandwidth option.
pub open spec fn option_number(value: OfdmBandwidthOption) -> Seq<char> {
    match value {
        OfdmBandwidthOption::Option1 => "1"@,
        OfdmBandwidthOption::Option2 => "2"@,
        OfdmBandwidthOption::Option3 => "3"@,
        OfdmBandwidthOption::Option4 => "4"@,
    }
}

/// The number of a bandwidth option.
fn option_digit(value: OfdmBandwidthOption) -> (r: &'static str)
    ensures
        r@ == option_number(value),
{
    match value {
        OfdmBandwidthOption::Option1 => "1",
        OfdmBandwidthOption::Option2 => "2",
        OfdmBandwidthOption::Option3 => "3",
        OfdmBandwidthOption::Option4 => "4",
    }
}

/// A chip rate in short.
pub open spec fn chip_rate_short(value: QpskChipFrequency) -> Seq<char> {
    match value {
        QpskChipFrequency::Fchip100 => "100 kchip/s"@,
        QpskChipFrequency::Fchip200 => "200 kchip/s"@,
        QpskChipFrequency::Fchip1000 => "1 Mchip/s"@,
        QpskChipFrequency::Fchip2000 => "2 Mchip/s"@,
    }
}

/// A chip rate in short.
fn chip_rate_symbol(value: QpskChipFrequency) -> (r: &'static str)
    ensures
        r@ == chip_rate_short(value),
{
    match value {
        QpskChipFrequency::Fchip100 => "100 kchip/s",
        QpskChipFrequency::Fchip200 => "200 kchip/s",
        QpskChipFrequency::Fchip1000 => "1 Mchip/s",
        QpskChipFrequency::Fchip2000 => "2 Mchip/s",
    }
}

/// A chip rate.
pub open spec fn chip_rate_long(value: QpskChipFrequency) -> Seq<char> {
    match value {
        QpskChipFrequency::Fchip100 => "100 kchip/s"@,
        QpskChipFrequency::Fchip200 => "200 kchip/s"@,
        QpskChipFrequency::Fchip1000 => "1000 kchip/s"@,
        QpskChipFrequency::Fchip2000 => "2000 kchip/s"@,
    }
}

/// A chip rate.
fn chip_rate_name(value: QpskChipFrequency) -> (r: &'static str)
    ensures
        r@ == chip_rate_long(value),
{
    match value {
        QpskChipFrequency::Fchip100 => "100 kchip/s",
        QpskChipFrequency::Fchip200 => "200 kchip/s",
        QpskChipFrequency::Fchip1000 => "1000 kchip/s",
        QpskChipFrequency::Fchip2000 => "2000 kchip/s",
    }
}

/// The number of a rate mode.
pub open spec fn mode_number(value: QpskRateMode) -> Seq<char> {
    match value {
        QpskRateMode::RateMode0 => "0"@,
        QpskRateMode::RateMode1 => "1"@,
        QpskRateMode::RateMode2 => "2"@,
        QpskRateMode::RateMode3 => "3"@,
        QpskRateMode::RateMode4 => "4"@,
    }
}

/// The number of a rate mode.
fn mode_digit(value: QpskRateMode) -> (r: &'static str)
    ensures
        r@ == mode_number(value),
{
    match value {
        QpskRateMode::RateMode0 => "0",
        QpskRateMode::RateMode1 => "1",
        QpskRateMode::RateMode2 => "2",
        QpskRateMode::RateMode3 => "3",
        QpskRateMode::RateMode4 => "4",
    }
}

/// Where the baseband is processed.
pub open spec fn accelerator_label(value: Accelerator) -> Seq<char> {
    match value {
        Accelerator::Native => "Native"@,
        Accelerator::Hardware => "Hardware (FPGA)"@,
    }
}

/// Where the baseband is processed.
fn accelerator_name(value: Accelerator) -> (r: &'static str)
    ensures
        r@ == accelerator_label(value),
{
    match value {
        Accelerator::Native => "Native",
        Accelerator::Hardware => "Hardware (FPGA)",
    }
}

/// The width of a filter.
pub open spec fn bandwidth_label(value: BandwidthFilter) -> Seq<char> {
    match value {
        BandwidthFilter::Narrow => "Narrow"@,
        BandwidthFilter::Wide => "Wide"@,
    }
}

/// The width of a filter.
fn bandwidth_name(value: BandwidthFilter) -> (r: &'static str)
    ensures
        r@ == bandwidth_label(value),
{
    match value {
        BandwidthFilter::Narrow => "Narrow",
        BandwidthFilter::Wide => "Wide",
    }
}

/// A transmit power.
pub open spec fn power_text(dbm: u8) -> Seq<char> {
    digits::decimal(dbm as nat) + " dBm"@
}

/// The name of a modulation and its settings in short.
pub open spec fn modulation_short(modulation: Modulation) -> (Seq<char>, Seq<char>) {
    match modulation {
        Modulation::Off => ("OFF"@, "disabled"@),
        Modulation::Fsk => ("FSK"@, "fsk"@),
        Modulation::Ofdm(o) => (
            "OFDM"@,
            mcs_short(o.mcs) + " · BW"@ + option_number(o.opt) + " · "@ + power_text(o.tx_power),
        ),
        Modulation::Qpsk(q) => (
            "QPSK"@,
            chip_rate_short(q.fchip) + " · mode "@ + mode_number(q.mode) + " · "@ + power_text(q.tx_power),
        ),
    }
}

/// A transmit power.
fn write_power(dbm: u8) -> (r: String)
    ensures
        r@ == power_text(dbm),
{
    cat2(dec(dbm as u64).as_str(), " dBm")
}

/// The name of a modulation and its settings in short.
pub fn modulation_summary(module: &RadioModuleConfig) -> (r: (&'static str, String))
    ensures
        (r.0@, r.1@) == modulation_short(module.modulation),
{
    match module.modulation {
        Modulation::Off => ("OFF", "disabled".to_owned()),
        Modulation::Fsk => ("FSK", "fsk".to_owned()),
        Modulation::Ofdm(o) => {
            let power = write_power(o.tx_power);
            let settings = cat4(mcs_symbol(o.mcs), " · BW", option_digit(o.opt), " · ");
            ("OFDM", cat2(settings.as_str(), power.as_str()))
        },
        Modulation::Qpsk(q) => {
            let power = write_power(q.tx_power);
            let settings = cat4(chip_rate_symbol(q.fchip), " · mode ", mode_digit(q.mode), " · ");
            ("QPSK", cat2(settings.as_str(), power.as_str()))
        },
    }
}

/// The name of a modulation and its settings one by one, each with its label.
pub open spec fn modulation_details(modulation: Modulation) -> (Seq<char>, Seq<(Seq<char>, Seq<char>)>) {
    match modulation {
        Modulation::Off => ("Off"@, Seq::empty()),
        Modulation::Fsk => ("FSK"@, Seq::empty()),
        Modulation::Ofdm(o) => (
            "OFDM"@,
            seq![
                ("MCS"@, mcs_long(o.mcs)),
                ("Bandwidth"@, "BW Opt "@ + option_number(o.opt)),
                ("TX Power"@, power_text(o.tx_power)),
            ],
        ),
        Modulation::Qpsk(q) => (
            "QPSK"@,
            seq![
                ("Chip Rate"@, chip_rate_long(q.fchip)),
                ("Rate Mode"@, "Mode "@ + mode_number(q.mode)),
                ("TX Power"@, power_text(q.tx_power)),
            ],
        ),
    }
}

/// The characters of labelled values.
pub open spec fn labelled(pairs: Seq<(String, String)>) -> Seq<(Seq<char>, Seq<char>)> {
    pairs.map_values(|p: (String, String)| (p.0@, p.1@))
}

/// The name of a modulation and its settings one by one, each with its label.
fn describe_modulation(modulation: Modulation) -> (r: (&'static str, Vec<(String, String)>))
    ensures
        (r.0@, labelled(r.1@)) == modulation_details(modulation),
{
    let mut out: Vec<(String, String)> = Vec::new();
    let name: &'static str;
    match modulation {
        Modulation::Off => {
            name = "Off";
        },
        Modulation::Fsk => {
            name = "FSK";
        },
        Modulation::Ofdm(o) => {
            name = "OFDM";
            out.push(("MCS".to_owned(), mcs_name(o.mcs).to_owned()));
            out.push(("Bandwidth".to_owned(), cat2("BW Opt ", option_digit(o.opt))));
            out.push(("TX Power".to_owned(), write_power(o.tx_power)));
        },
        Modulation::Qpsk(q) => {
            name = "QPSK";
            out.push(("Chip Rate".to_owned(), chip_rate_name(q.fchip).to_owned()));
            out.push(("Rate Mode".to_owned(), cat2("Mode ", mode_digit(q.mode))));
            out.push(("TX Power".to_owned(), write_power(q.tx_power)));
        },
    }
    proof {
        assert(labelled(out@) =~= modulation_details(modulation).1);
    }
    (name, out)
}

/// What the traffic card of a module shows.
#[derive(Clone, Debug)]
pub struct TrafficCard {
    pub frequency: String,
    pub channel: String,
    pub modulation: String,
    pub settings: String,
}

/// A frequency in whole megahertz.
pub open spec fn mhz_text(hz: u64) -> Seq<char> {
    digits::decimal((hz / 1_000_000) as nat) + " MHz"@
}

/// A frequency in whole kilohertz.
pub open spec fn khz_text(hz: u64) -> Seq<char> {
    digits::decimal((hz / 1_000) as nat) + " kHz"@
}

/// The traffic card of a module.
pub fn traffic_card(module: &RadioModuleConfig) -> (r: TrafficCard)
    ensures
        r.frequency@ == mhz_text(module.radio_config.freq),
        r.channel@ == "ch "@ + digits::decimal(module.radio_config.channel as nat) + " · "@ + khz_text(
            module.radio_config.channel_spacing,
        ),
        (r.modulation@, r.settings@) == modulation_short(module.modulation),
{
    let (modulation, settings) = modulation_summary(module);
    let spacing = cat2(dec(module.radio_config.channel_spacing / 1_000).as_str(), " kHz");
    TrafficCard {
        frequency: cat2(dec(module.radio_config.freq / 1_000_000).as_str(), " MHz"),
        channel: cat4("ch ", dec(module.radio_config.channel as u64).as_str(), " · ", spacing.as_str()),
        modulation: modulation.to_owned(),
        settings,
    }
}

/// What the settings card of a module shows.
#[derive(Clone, Debug)]
pub struct ModuleCard {
    pub label: String,
    pub modulation: String,
    pub frequency: String,
    pub channel: String,
    pub spacing: String,
    pub bandwidth: String,
    pub acceleration: String,
    /// The settings of the modulation, each with its label.
    pub details: Vec<(String, String)>,
}

/// The settings card of a module.
pub fn module_card(index: usize, module: &RadioModuleConfig) -> (r: ModuleCard)
    ensures
        r.label@ == if index == 0 {
            "Radio A"@
        } else if index == 1 {
            "Radio B"@
        } else {
            "Radio"@
        },
        (r.modulation@, labelled(r.details@)) == modulation_details(module.modulation),
        r.frequency@ == mhz_text(module.radio_config.freq),
        r.channel@ == digits::decimal(module.radio_config.channel as nat),
        r.spacing@ == khz_text(module.radio_config.channel_spacing),
        r.bandwidth@ == bandwidth_label(module.radio_config.bandwidth_filter),
        r.acceleration@ == accelerator_label(module.accelerator),
{
    let (modulation, details) = describe_modulation(module.modulation);
    ModuleCard {
        label: radio_label(index).to_owned(),
        modulation: modulation.to_owned(),
        frequency: cat2(dec(module.radio_config.freq / 1_000_000).as_str(), " MHz"),
        channel: dec(module.radio_config.channel as u64),
        spacing: cat2(dec(module.radio_config.channel_spacing / 1_000).as_str(), " kHz"),
        bandwidth: bandwidth_name(module.radio_config.bandwidth_filter).to_owned(),
        acceleration: accelerator_name(module.accelerator).to_owned(),
        details,
    }
}

// ── System ───────────────────────────────────────────────────────────────────

/// The load of the system, sizes in megabytes.
#[derive(Clone, Copy, Debug, PartialEq, Eq, Structural)]
pub struct SystemLoad {
    /// 0 where it is not known.
    pub cpu_freq_mhz: u64,
    pub ram_used_mb: u64,
    pub ram_total_mb: u64,
    pub fs_free_mb: u64,
    pub fs_total_mb: u64,
}

/// What the card of the system shows.
#[derive(Clone, Debug)]
pub struct SystemCard {
    pub cpu_clock: String,
    pub ram_percent: u64,
    pub ram_text: String,
    pub fs_used_mb: u64,
    pub fs_percent: u64,
}

/// The space that is taken on the file system.
pub open spec fn fs_used(load: SystemLoad) -> int {
    if load.fs_free_mb <= load.fs_total_mb {
        load.fs_total_mb - load.fs_free_mb
    } else {
        0
    }
}

/// A share in percent, rounded down; nothing of nothing is nothing.
pub open spec fn percent(part: int, whole: int) -> int {
    if whole > 0 {
        part * 100 / whole
    } else {
        0
    }
}

/// The card of the system. A hundred times either used size fits a machine word.
pub fn system_card(load: &SystemLoad) -> (r: SystemCard)
    requires
        load.ram_total_mb > 0 ==> load.ram_used_mb * 100 <= u64::MAX,
        load.fs_total_mb > 0 ==> fs_used(*load) * 100 <= u64::MAX,
    ensures
        r.cpu_clock@ == if load.cpu_freq_mhz > 0 {
            digits::decimal(load.cpu_freq_mhz as nat) + " MHz"@
        } else {
            "—"@
        },
        r.ram_percent == percent(load.ram_used_mb as int, load.ram_total_mb as int),
        r.ram_text@ == digits::decimal(load.ram_used_mb as nat) + " / "@ + digits::decimal(load.ram_total_mb as nat)
            + " MB"@,
        r.fs_used_mb == fs_used(*load),
        r.fs_percent == percent(fs_used(*load), load.fs_total_mb as int),
{
    let used: u64 = if load.fs_free_mb <= load.fs_total_mb {
        load.fs_total_mb - load.fs_free_mb
    } else {
        0
    };
    SystemCard {
        cpu_clock: if load.cpu_freq_mhz > 0 {
            cat2(dec(load.cpu_freq_mhz).as_str(), " MHz")
        } else {
            "—".to_owned()
        },
        ram_percent: if load.ram_total_mb > 0 {
            load.ram_used_mb * 100 / load.ram_total_mb
        } else {
            0
        },
        ram_text: cat4(dec(load.ram_used_mb).as_str(), " / ", dec(load.ram_total_mb).as_str(), " MB"),
        fs_used_mb: used,
        fs_percent: if load.fs_total_mb > 0 {
            used * 100 / load.fs_total_mb
        } else {
            0
        },
    }
}

/// A part is never more than a hundred percent of its whole.
pub proof fn law_percent_is_bounded(part: int, whole: int)
    requires
        0 <= part <= whole,
    ensures
        0 <= percent(part, whole) <= 100,
{
    if whole > 0 {
        assert(0 <= part * 100 / whole <= 100) by (nonlinear_arith)
            requires
                0 <= part <= whole,
                whole > 0,
        ;
    }
}

// ── Services ─────────────────────────────────────────────────────────────────

/// The state of a service of the system.
#[derive(Clone, Debug)]
pub struct ServiceStatus {
    pub unit: String,
    pub brief_name: String,
    pub load_state: String,
    pub active_state: String,
    pub status: String,
}

/// Whether a service was loaded and runs.
pub open spec fn is_running(service: ServiceStatus) -> bool {
    service.load_state@ == "loaded"@ && service.active_state@ == "active"@
}

/// The class of the badge of a service.
pub open spec fn service_class(service: ServiceStatus) -> Seq<char> {
    if service.load_state@ != "loaded"@ {
        "badge-err"@
    } else if service.active_state@ == "active"@ {
        "badge-ok"@
    } else if service.active_state@ == "activating"@ || service.active_state@ == "reloading"@ {
        "badge-warn"@
    } else {
        "badge-err"@
    }
}

/// The class of the badge of a service.
pub fn service_badge_class(service: &ServiceStatus) -> (r: &'static str)
    ensures
        r@ == service_class(*service),
{
    let state = service.active_state.as_str();
    if !same(service.load_state.as_str(), "loaded") {
        "badge-err"
    } else if same(state, "active") {
        "badge-ok"
    } else if same(state, "activating") || same(state, "reloading") {
        "badge-warn"
    } else {
        "badge-err"
    }
}

/// The text of the badge of a service: its state, or why it was not loaded.
pub fn service_badge_label(service: &ServiceStatus) -> (r: &str)
    ensures
        r@ == if service.load_state@ != "loaded"@ {
            service.load_state@
        } else {
            service.active_state@
        },
{
    if !same(service.load_state.as_str(), "loaded") {
        service.load_state.as_str()
    } else {
        service.active_state.as_str()
    }
}

/// How many services run, out of how many.
pub fn services_text(services: &[ServiceStatus]) -> (r: String)
    ensures
        r@ == digits::decimal(services@.filter(|s: ServiceStatus| is_running(s)).len()) + "/"@ + digits::decimal(
            services@.len(),
        ) + " active"@,
{
    let n: usize = services.len();
    let mut active: usize = 0;
    let mut i: usize = 0;
    proof {
        reveal(Seq::filter);
    }
    while i < n
        invariant
            n == services@.len(),
            i <= n,
            active <= i,
            active == services@.take(i as int).filter(|s: ServiceStatus| is_running(s)).len(),
        decreases n - i,
    {
        proof {
            reveal(Seq::filter);
            assert(services@.take(i + 1).drop_last() =~= services@.take(i as int));
            assert(services@.take(i + 1).last() == services@[i as int]);
        }
        if same(services[i].load_state.as_str(), "loaded") && same(services[i].active_state.as_str(), "active") {
            active += 1;
        }
        i += 1;
    }
    proof {
        assert(services@.take(n as int) =~= services@);
    }
    cat4(dec_usize(active).as_str(), "/", dec_usize(n).as_str(), " active")
}

/// The badge is green for exactly the services that run.
pub proof fn law_green_badge_means_running(service: ServiceStatus)
    ensures
        (service_class(service) == "badge-ok"@) == is_running(service),
{
    reveal_strlit("badge-ok");
    reveal_strlit("badge-err");
    reveal_strlit("badge-warn");
    assert("badge-ok"@[6] == 'o' && "badge-err"@[6] == 'e' && "badge-warn"@[6] == 'w');
}

// ── Tunnel and ports ─────────────────────────────────────────────────────────

/// The class of the badge that shows a state of the tunnel.
pub open spec fn vpn_status_class(status: Seq<char>) -> Seq<char> {
    if status == "running"@ {
        "badge badge-ok"@
    } else if status == "mock"@ {
        "badge badge-warn"@
    } else if status == "error"@ {
        "badge badge-err"@
    } else {
        "badge"@
    }
}

/// The class of the badge that shows a state of the tunnel.
pub fn vpn_status_badge_class(status: &str) -> (r: &'static str)
    ensures
        r@ == vpn_status_class(status@),
{
    if same(status, "running") {
        "badge badge-ok"
    } else if same(status, "mock") {
        "badge badge-warn"
    } else if same(status, "error") {
        "badge badge-err"
    } else {
        "badge"
    }
}

/// What the card of the tunnel shows.
#[derive(Clone, Debug)]
pub struct VpnCard {
    pub badge_class: String,
    pub tunnel_ip: String,
    pub peer_summary: String,
    pub tx_packets: String,
    pub rx_packets: String,
}

/// The card of the tunnel.
pub fn vpn_card(status: &str, tunnel_ip: &Option<String>, peers: &[VpnPeer], tx_packets: u64, rx_packets: u64) -> (r:
    VpnCard)
    ensures
        r.badge_class@ == vpn_status_class(status@),
        r.tunnel_ip@ == network::or_else(text::view_opt(*tunnel_ip), "—"@),
        r.peer_summary@ == digits::decimal(peers@.filter(|p: VpnPeer| p.link_state@ == "active"@).len()) + "/"@
            + digits::decimal(peers@.len()) + " linked"@,
        r.tx_packets@ == digits::decimal(tx_packets as nat) + " pkts"@,
        r.rx_packets@ == digits::decimal(rx_packets as nat) + " pkts"@,
{
    let n: usize = peers.len();
    let mut active: usize = 0;
    let mut i: usize = 0;
    proof {
        reveal(Seq::filter);
    }
    while i < n
        invariant
            n == peers@.len(),
            i <= n,
            active <= i,
            active == peers@.take(i as int).filter(|p: VpnPeer| p.link_state@ == "active"@).len(),
        decreases n - i,
    {
        proof {
            reveal(Seq::filter);
            assert(peers@.take(i + 1).drop_last() =~= peers@.take(i as int));
            assert(peers@.take(i + 1).last() == peers@[i as int]);
        }
        if same(peers[i].link_state.as_str(), "active") {
            active += 1;
        }
        i += 1;
    }
    proof {
        assert(peers@.take(n as int) =~= peers@);
    }
    VpnCard {
        badge_class: vpn_status_badge_class(status).to_owned(),
        tunnel_ip: text_or(tunnel_ip, "—"),
        peer_summary: cat4(dec_usize(active).as_str(), "/", dec_usize(n).as_str(), " linked"),
        tx_packets: cat2(dec(tx_packets).as_str(), " pkts"),
        rx_packets: cat2(dec(rx_packets).as_str(), " pkts"),
    }
}

/// The class of the badge of a network port.
pub open spec fn port_class(status: Seq<char>) -> Seq<char> {
    if status == "linked"@ || status == "listening"@ || status == "reachable"@ || status == "active"@ {
        "badge badge-ok"@
    } else if status == "waiting"@ || status == "activating"@ || status == "reloading"@ {
        "badge badge-warn"@
    } else {
        "badge badge-err"@
    }
}

/// The class of the badge of a network port.
pub fn port_badge_class(status: &str) -> (r: &'static str)
    ensures
        r@ == port_class(status@),
{
    if same(status, "linked") || same(status, "listening") || same(status, "reachable") || same(status, "active") {
        "badge badge-ok"
    } else if same(status, "waiting") || same(status, "activating") || same(status, "reloading") {
        "badge badge-warn"
    } else {
        "badge badge-err"
    }
}

// ── What the cards say ───────────────────────────────────────────────────────

/// The coding schemes in short, in the order of their numbers.
pub open spec fn scheme_symbols() -> Seq<Seq<char>> {
    seq![
        "BPSK ½ 4×"@,
        "BPSK ½ 2×"@,
        "QPSK ½ 2×"@,
        "QPSK ½"@,
        "QPSK ¾"@,
        "16-QAM ½"@,
        "16-QAM ¾"@,
    ]
}

/// The coding schemes, in the order of their numbers.
pub open spec fn scheme_names() -> Seq<Seq<char>> {
    seq![
        "BPSK 1/2 4×"@,
        "BPSK 1/2 2×"@,
        "QPSK 1/2 2×"@,
        "QPSK 1/2"@,
        "QPSK 3/4"@,
        "16-QAM 1/2"@,
        "16-QAM 3/4"@,
    ]
}

/// The digits from nought to four.
proof fn lemma_small_numbers()
    ensures
        digits::decimal(0) == "0"@,
        digits::decimal(1) == "1"@,
        digits::decimal(2) == "2"@,
        digits::decimal(3) == "3"@,
        digits::decimal(4) == "4"@,
{
    reveal_strlit("0");
    reveal_strlit("1");
    reveal_strlit("2");
    reveal_strlit("3");
    reveal_strlit("4");
    assert(digits::decimal(0) =~= "0"@);
    assert(digits::decimal(1) =~= "1"@);
    assert(digits::decimal(2) =~= "2"@);
    assert(digits::decimal(3) =~= "3"@);
    assert(digits::decimal(4) =~= "4"@);
}

/// A modulation is summed up by its name and its settings: an OFDM one by its scheme, the number of its
/// bandwidth, counted from one, and its power, a QPSK one by its chip rate, the number of its mode, counted
/// from nought, and its power.
pub proof fn law_modulation_is_summed_up(module: &RadioModuleConfig, r: (&'static str, String), k: int, power: u8, dbm: String)
    requires
        call_ensures(modulation_summary, (module,), r),
        call_ensures(dec, (power as u64,), dbm),
    ensures
        module.modulation is Off ==> r.0@ == "OFF"@ && r.1@ == "disabled"@,
        module.modulation is Fsk ==> r.0@ == "FSK"@ && r.1@ == "fsk"@,
        module.modulation matches Modulation::Ofdm(o) ==> r.0@ == "OFDM"@ && exists|symbol: Seq<char>, option: nat|
            {
                &&& r.1@ == symbol + " · BW"@ + #[trigger] digits::decimal(option) + " · "@ + digits::decimal(
                    o.tx_power as nat,
                ) + " dBm"@
                &&& #[trigger] scheme_symbols().contains(symbol)
                &&& 0 <= k < 7 && settings::schemes_in_order()[k] == o.mcs ==> symbol == scheme_symbols()[k]
                &&& 0 <= k < 4 && settings::bandwidths_in_order()[k] == o.opt ==> option == k + 1
            },
        module.modulation matches Modulation::Qpsk(q) ==> {
            &&& r.0@ == "QPSK"@
            &&& 0 <= k < 5 && settings::rate_modes_in_order()[k] == q.mode && q.tx_power == power ==> {
                let rest = " · mode "@ + digits::decimal(k as nat) + " · "@ + dbm@ + " dBm"@;
                &&& q.fchip is Fchip100 ==> r.1@ == "100 kchip/s"@ + rest
                &&& q.fchip is Fchip200 ==> r.1@ == "200 kchip/s"@ + rest
                &&& q.fchip is Fchip1000 ==> r.1@ == "1 Mchip/s"@ + rest
                &&& q.fchip is Fchip2000 ==> r.1@ == "2 Mchip/s"@ + rest
            }
        },
{
    lemma_small_numbers();
    if let Modulation::Ofdm(o) = module.modulation {
        let symbol = mcs_short(o.mcs);
        let option = match o.opt {
            OfdmBandwidthOption::Option1 => 1nat,
            OfdmBandwidthOption::Option2 => 2nat,
            OfdmBandwidthOption::Option3 => 3nat,
            OfdmBandwidthOption::Option4 => 4nat,
        };
        let place = match o.mcs {
            OfdmMcs::BpskC1_2_4x => 0int,
            OfdmMcs::BpskC1_2_2x => 1,
            OfdmMcs::QpskC1_2_2x => 2,
            OfdmMcs::QpskC1_2 => 3,
            OfdmMcs::QpskC3_4 => 4,
            OfdmMcs::QamC1_2 => 5,
            OfdmMcs::QamC3_4 => 6,
        };
        assert(scheme_symbols()[place] == symbol);
        assert(scheme_symbols().contains(symbol));
        assert(r.1@ =~= symbol + " · BW"@ + digits::decimal(option) + " · "@ + digits::decimal(o.tx_power as nat)
            + " dBm"@);
    }
    if let Modulation::Qpsk(q) = module.modulation {
        if 0 <= k < 5 && settings::rate_modes_in_order()[k] == q.mode && q.tx_power == power {
            let rest = " · mode "@ + digits::decimal(k as nat) + " · "@ + dbm@ + " dBm"@;
            assert(mode_number(q.mode) == digits::decimal(k as nat));
            assert(r.1@ =~= chip_rate_short(q.fchip) + rest);
        }
    }
}

/// The card of a module shows its carrier in whole megahertz, its spacing in whole kilohertz and its
/// channel, and is called after its place.
pub proof fn law_module_card(index: usize, module: &RadioModuleConfig, r: ModuleCard, t: TrafficCard, s: (&'static str, String))
    requires
        call_ensures(module_card, (index, module), r),
        call_ensures(traffic_card, (module,), t),
        call_ensures(modulation_summary, (module,), s),
    ensures
        index == 0 ==> r.label@ == "Radio A"@,
        index == 1 ==> r.label@ == "Radio B"@,
        index > 1 ==> r.label@ == "Radio"@,
        exists|mhz: nat|
            {
                &&& mhz * 1_000_000 <= module.radio_config.freq < (mhz + 1) * 1_000_000
                &&& r.frequency@ == #[trigger] digits::decimal(mhz) + " MHz"@
                &&& t.frequency@ == r.frequency@
            },
        exists|khz: nat|
            {
                &&& khz * 1_000 <= module.radio_config.channel_spacing < (khz + 1) * 1_000
                &&& r.spacing@ == #[trigger] digits::decimal(khz) + " kHz"@
            },
        r.channel@ == digits::decimal(module.radio_config.channel as nat),
        t.channel@ == "ch "@ + r.channel@ + " · "@ + r.spacing@,
        t.modulation@ == s.0@ && t.settings@ == s.1@,
        module.radio_config.bandwidth_filter == BandwidthFilter::Narrow ==> r.bandwidth@ == "Narrow"@,
        module.radio_config.bandwidth_filter == BandwidthFilter::Wide ==> r.bandwidth@ == "Wide"@,
        module.accelerator is Native ==> r.acceleration@ == "Native"@,
        module.accelerator is Hardware ==> r.acceleration@ == "Hardware (FPGA)"@,
{
    let mhz = (module.radio_config.freq / 1_000_000) as nat;
    assert(r.frequency@ == digits::decimal(mhz) + " MHz"@);
    let khz = (module.radio_config.channel_spacing / 1_000) as nat;
    assert(r.spacing@ == digits::decimal(khz) + " kHz"@);
}

/// The card of a module names its modulation and lists its settings, each under its label.
pub proof fn law_module_card_lists_the_modulation(index: usize, module: &RadioModuleConfig, r: ModuleCard, k: int)
    requires
        call_ensures(module_card, (index, module), r),
    ensures
        module.modulation is Off ==> r.modulation@ == "Off"@ && r.details@.len() == 0,
        module.modulation is Fsk ==> r.modulation@ == "FSK"@ && r.details@.len() == 0,
        module.modulation matches Modulation::Ofdm(o) ==> {
            &&& r.modulation@ == "OFDM"@
            &&& r.details@.len() == 3
            &&& r.details@[0].0@ == "MCS"@
            &&& 0 <= k < 7 && settings::schemes_in_order()[k] == o.mcs ==> r.details@[0].1@ == scheme_names()[k]
            &&& r.details@[1].0@ == "Bandwidth"@
            &&& 0 <= k < 4 && settings::bandwidths_in_order()[k] == o.opt ==> r.details@[1].1@ == "BW Opt "@
                + digits::decimal((k + 1) as nat)
            &&& r.details@[2].0@ == "TX Power"@
            &&& r.details@[2].1@ == digits::decimal(o.tx_power as nat) + " dBm"@
        },
        module.modulation matches Modulation::Qpsk(q) ==> {
            &&& r.modulation@ == "QPSK"@
            &&& r.details@.len() == 3
            &&& r.details@[0].0@ == "Chip Rate"@
            &&& q.fchip is Fchip100 ==> r.details@[0].1@ == "100 kchip/s"@
            &&& q.fchip is Fchip200 ==> r.details@[0].1@ == "200 kchip/s"@
            &&& q.fchip is Fchip1000 ==> r.details@[0].1@ == "1000 kchip/s"@
            &&& q.fchip is Fchip2000 ==> r.details@[0].1@ == "2000 kchip/s"@
            &&& r.details@[1].0@ == "Rate Mode"@
            &&& 0 <= k < 5 && settings::rate_modes_in_order()[k] == q.mode ==> r.details@[1].1@ == "Mode "@
                + digits::decimal(k as nat)
            &&& r.details@[2].0@ == "TX Power"@
            &&& r.details@[2].1@ == digits::decimal(q.tx_power as nat) + " dBm"@
        },
{
    lemma_small_numbers();
    let v = labelled(r.details@);
    assert(v.len() == r.details@.len());
    assert forall|i: int| 0 <= i < v.len() implies v[i].0 == r.details@[i].0@ && v[i].1 == r.details@[i].1@ by {
    }
}

/// The card of the system shows what is taken: of the memory as it was measured, of the file system what
/// is not free. Each share in percent is the largest whole one that is not more than what is taken.
pub proof fn law_system_card(load: &SystemLoad, r: SystemCard)
    requires
        load.ram_total_mb > 0 ==> load.ram_used_mb * 100 <= u64::MAX,
        load.fs_total_mb > 0 ==> fs_used(*load) * 100 <= u64::MAX,
        call_ensures(system_card, (load,), r),
    ensures
        load.cpu_freq_mhz > 0 ==> r.cpu_clock@ == digits::decimal(load.cpu_freq_mhz as nat) + " MHz"@,
        load.cpu_freq_mhz == 0 ==> r.cpu_clock@ == "—"@,
        r.ram_text@ == digits::decimal(load.ram_used_mb as nat) + " / "@ + digits::decimal(load.ram_total_mb as nat)
            + " MB"@,
        load.ram_total_mb > 0 ==> r.ram_percent * load.ram_total_mb <= 100 * load.ram_used_mb < (r.ram_percent + 1)
            * load.ram_total_mb,
        load.ram_total_mb == 0 ==> r.ram_percent == 0,
        load.fs_free_mb <= load.fs_total_mb ==> r.fs_used_mb + load.fs_free_mb == load.fs_total_mb,
        load.fs_free_mb > load.fs_total_mb ==> r.fs_used_mb == 0,
        load.fs_total_mb > 0 ==> r.fs_percent * load.fs_total_mb <= 100 * r.fs_used_mb < (r.fs_percent + 1)
            * load.fs_total_mb,
        load.fs_total_mb == 0 ==> r.fs_percent == 0,
{
    if load.ram_total_mb > 0 {
        lemma_percent(load.ram_used_mb as int, load.ram_total_mb as int);
    }
    if load.fs_total_mb > 0 {
        lemma_percent(fs_used(*load), load.fs_total_mb as int);
    }
}

/// A share in percent, between what it is and what it is not.
proof fn lemma_percent(part: int, whole: int)
    requires
        whole > 0,
    ensures
        percent(part, whole) * whole <= 100 * part < (percent(part, whole) + 1) * whole,
{
    assert((part * 100 / whole) * whole <= 100 * part < (part * 100 / whole + 1) * whole) by (nonlinear_arith)
        requires
            whole > 0,
    ;
}

/// A service that was not loaded says why, in red; one that was says its state: in green where it is
/// active, in yellow where it is on its way, and else in red.
pub proof fn law_service_badge(service: &ServiceStatus, class: &'static str, label: &str)
    requires
        call_ensures(service_badge_class, (service,), class),
        call_ensures(service_badge_label, (service,), label),
    ensures
        service.load_state@ != "loaded"@ ==> class@ == "badge-err"@ && label@ == service.load_state@,
        service.load_state@ == "loaded"@ ==> {
            let state = service.active_state@;
            &&& label@ == state
            &&& state == "active"@ ==> class@ == "badge-ok"@
            &&& state == "activating"@ || state == "reloading"@ ==> class@ == "badge-warn"@
            &&& state != "active"@ && state != "activating"@ && state != "reloading"@ ==> class@ == "badge-err"@
        },
{
    reveal_strlit("active");
    reveal_strlit("activating");
    reveal_strlit("reloading");
    assert("active"@.len() == 6 && "activating"@.len() == 10 && "reloading"@.len() == 9);
}

/// The services are counted as they stand: one that was loaded and is active is one of those that run, and
/// every one is one of all.
pub proof fn law_services_are_counted(
    services: &[ServiceStatus],
    r: String,
    running: usize,
    a: String,
    all: usize,
    b: String,
)
    requires
        call_ensures(services_text, (services,), r),
        running == services@.filter(
            |s: ServiceStatus| s.load_state@ == "loaded"@ && s.active_state@ == "active"@,
        ).len(),
        call_ensures(dec_usize, (running,), a),
        all == services@.len(),
        call_ensures(dec_usize, (all,), b),
    ensures
        r@ == a@ + "/"@ + b@ + " active"@,
{
    assert((|s: ServiceStatus| s.load_state@ == "loaded"@ && s.active_state@ == "active"@) =~= (|s: ServiceStatus|
        is_running(s)));
}

/// The card of the tunnel counts the peers with an active link among all of them, keeps sent and received
/// packets apart, and shows its state by its colour.
pub proof fn law_tunnel_card(
    status: &str,
    ip: &Option<String>,
    peers: &[VpnPeer],
    tx: u64,
    rx: u64,
    r: VpnCard,
    linked: usize,
    a: String,
    all: usize,
    b: String,
)
    requires
        call_ensures(vpn_card, (status, ip, peers, tx, rx), r),
        linked == peers@.filter(|p: VpnPeer| p.link_state@ == "active"@).len(),
        call_ensures(dec_usize, (linked,), a),
        all == peers@.len(),
        call_ensures(dec_usize, (all,), b),
    ensures
        r.peer_summary@ == a@ + "/"@ + b@ + " linked"@,
        r.tx_packets@ == digits::decimal(tx as nat) + " pkts"@,
        r.rx_packets@ == digits::decimal(rx as nat) + " pkts"@,
        *ip is Some ==> r.tunnel_ip@ == ip->0@,
        *ip is None ==> r.tunnel_ip@ == "—"@,
        status@ == "running"@ ==> r.badge_class@ == "badge badge-ok"@,
        status@ == "mock"@ ==> r.badge_class@ == "badge badge-warn"@,
        status@ == "error"@ ==> r.badge_class@ == "badge badge-err"@,
        status@ != "running"@ && status@ != "mock"@ && status@ != "error"@ ==> r.badge_class@ == "badge"@,
{
    reveal_strlit("running");
    reveal_strlit("mock");
    reveal_strlit("error");
    assert("running"@.len() == 7 && "mock"@.len() == 4 && "error"@.len() == 5);
}

/// A port that is in use is green, one that waits is yellow, and every other is red.
pub proof fn law_port_badge(status: &str, r: &'static str)
    requires
        call_ensures(port_badge_class, (status,), r),
    ensures
        status@ == "linked"@ || status@ == "listening"@ || status@ == "reachable"@ || status@ == "active"@ ==> r@
            == "badge badge-ok"@,
        status@ == "waiting"@ || status@ == "activating"@ || status@ == "reloading"@ ==> r@ == "badge badge-warn"@,
        r@ == "badge badge-ok"@ ==> status@ == "linked"@ || status@ == "listening"@ || status@ == "reachable"@
            || status@ == "active"@,
        r@ == "badge badge-ok"@ || r@ == "badge badge-warn"@ || r@ == "badge badge-err"@,
        r@ == "badge badge-warn"@ ==> status@ == "waiting"@ || status@ == "activating"@ || status@ == "reloading"@,
{
    reveal_strlit("linked");
    reveal_strlit("listening");
    reveal_strlit("reachable");
    reveal_strlit("active");
    reveal_strlit("waiting");
    reveal_strlit("activating");
    reveal_strlit("reloading");
    reveal_strlit("badge badge-ok");
    reveal_strlit("badge badge-warn");
    reveal_strlit("badge badge-err");
    assert("badge badge-ok"@[12] == 'o' && "badge badge-warn"@[12] == 'w' && "badge badge-err"@[12] == 'e');
    assert("waiting"@.len() == 7 && "activating"@.len() == 10 && "reloading"@[2] == 'l' && "listening"@[2] == 's'
        && "reachable"@[2] == 'a' && "linked"@.len() == 6 && "active"@.len() == 6 && "reloading"@.len() == 9);
}

} // verus!
