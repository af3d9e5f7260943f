//! The settings of the radio modules, and how they are put into force.

use vstd::prelude::*;

use crate::digits;
use crate::digits::{dec, dec_usize};
use crate::text;
use crate::text::{cat2, cat3, is_empty, same, trim};

verus! {

/// Modulation and coding scheme of OFDM.
#[derive(Clone, Copy, Debug, PartialEq, Eq, Structural)]
pub enum OfdmMcs {
    BpskC1_2_4x,
    BpskC1_2_2x,
    QpskC1_2_2x,
    QpskC1_2,
    QpskC3_4,
    QamC1_2,
    QamC3_4,
}

/// Bandwidth of OFDM.
#[derive(Clone, Copy, Debug, PartialEq, Eq, Structural)]
pub enum OfdmBandwidthOption {
    Option1,
    Option2,
    Option3,
    Option4,
}

/// Chip rate of QPSK.
#[derive(Clone, Copy, Debug, PartialEq, Eq, Structural)]
pub enum QpskChipFrequency {
    Fchip100,
    Fchip200,
    Fchip1000,
    Fchip2000,
}

/// Rate mode of QPSK.
#[derive(Clone, Copy, Debug, PartialEq, Eq, Structural)]
pub enum QpskRateMode {
    RateMode0,
    RateMode1,
    RateMode2,
    RateMode3,
    RateMode4,
}

#[derive(Clone, Copy, Debug, PartialEq, Eq, Structural)]
pub struct OfdmModulation {
    pub mcs: OfdmMcs,
    pub opt: OfdmBandwidthOption,
    /// Preamble detection threshold.
    pub pdt: u8,
    /// In dBm.
    pub tx_power: u8,
}

#[derive(Clone, Copy, Debug, PartialEq, Eq, Structural)]
pub struct QpskModulation {
    pub fchip: QpskChipFrequency,
    pub mode: QpskRateMode,
    /// In dBm.
    pub tx_power: u8,
}

/// How a module modulates its carrier.
#[derive(Clone, Copy, Debug, PartialEq, Eq, Structural)]
pub enum Modulation {
    Off,
    Fsk,
    Ofdm(OfdmModulation),
    Qpsk(QpskModulation),
}

#[derive(Clone, Copy, Debug, PartialEq, Eq, Structural)]
pub enum BandwidthFilter {
    Narrow,
    Wide,
}

/// Where a module is tuned to. Frequencies are in hertz.
#[derive(Clone, Copy, Debug, PartialEq, Eq, Structural)]
pub struct RadioConfig {
    pub freq: u64,
    pub channel_spacing: u64,
    pub channel: u16,
    pub bandwidth_filter: BandwidthFilter,
}

/// The two bands of the transceiver: below 1 GHz and 2.4 GHz.
#[derive(Clone, Copy, Debug, PartialEq, Eq, Structural)]
pub enum RadioBand {
    Band09,
    Band24,
}

/// Baseband processing on the chip or in the FPGA.
#[derive(Clone, Copy, Debug, PartialEq, Eq, Structural)]
pub enum Accelerator {
    Native,
    Hardware,
}

#[derive(Clone, Copy, Debug, PartialEq, Eq, Structural)]
pub enum Antenna {
    Internal,
    External,
}

/// Default baseband processing of a module.
pub fn default_accelerator() -> (r: Accelerator)
    ensures
        r == Accelerator::Native,
{
    Accelerator::Native
}

/// Default antenna for 2.4 GHz, the only band with an antenna switch.
pub fn default_antenna() -> (r: Antenna)
    ensures
        r == Antenna::Internal,
{
    Antenna::Internal
}

/// The lowest frequency of the 2.4 GHz transceiver.
pub const BAND_24_MIN_HZ: u64 = 2_400_000_000;

/// The band that a frequency lies in.
pub open spec fn band_of(freq: u64) -> RadioBand {
    if freq >= BAND_24_MIN_HZ {
        RadioBand::Band24
    } else {
        RadioBand::Band09
    }
}

/// The band that a module works in.
pub fn band_for_config(radio_config: &RadioConfig) -> (r: RadioBand)
    ensures
        r == band_of(radio_config.freq),
{
    if radio_config.freq >= BAND_24_MIN_HZ {
        RadioBand::Band24
    } else {
        RadioBand::Band09
    }
}

/// The settings of one module.
#[derive(Clone, Copy, Debug, PartialEq, Eq, Structural)]
pub struct RadioModuleConfig {
    pub radio_config: RadioConfig,
    pub modulation: Modulation,
    pub accelerator: Accelerator,
    /// Used at 2.4 GHz only: below 1 GHz the external connector is hard-wired.
    pub antenna: Antenna,
}

impl RadioModuleConfig {
    /// The band that the module works in.
    pub fn band(&self) -> (r: RadioBand)
        ensures
            r == band_of(self.radio_config.freq),
    {
        band_for_config(&self.radio_config)
    }
}

/// The settings of both modules.
#[derive(Clone, Copy, Debug)]
pub struct HardwareRadioConfig {
    pub module_configs: [RadioModuleConfig; 2],
}

/// The settings of a module that nobody has set yet.
pub open spec fn default_module(ofdm: OfdmModulation, filter: BandwidthFilter, channel: u16) -> RadioModuleConfig {
    RadioModuleConfig {
        radio_config: RadioConfig { freq: 869_535_000, channel_spacing: 200_000, channel, bandwidth_filter: filter },
        modulation: Modulation::Ofdm(ofdm),
        accelerator: Accelerator::Native,
        antenna: Antenna::Internal,
    }
}

impl HardwareRadioConfig {
    /// Both modules at 869.535 MHz, on channels 3 and 11, with the given OFDM
    /// settings and filter.
    pub fn with_defaults(ofdm: OfdmModulation, filter: BandwidthFilter) -> (r: HardwareRadioConfig)
        ensures
            r.module_configs@ == seq![default_module(ofdm, filter, 3), default_module(ofdm, filter, 11)],
    {
        let first = RadioModuleConfig {
            radio_config: RadioConfig {
                freq: 869_535_000,
                channel_spacing: 200_000,
                channel: 3,
                bandwidth_filter: filter,
            },
            modulation: Modulation::Ofdm(ofdm),
            accelerator: default_accelerator(),
            antenna: default_antenna(),
        };
        let second = RadioModuleConfig {
            radio_config: RadioConfig { channel: 11, ..first.radio_config },
            ..first
        };
        HardwareRadioConfig { module_configs: [first, second] }
    }
}

// ── Putting settings into force ──────────────────────────────────────────────

/// One setting of a module that is sent to the radio by itself.
#[derive(Clone, Copy, Debug, PartialEq, Eq, Structural)]
pub enum RadioStep {
    SetRadioConfig(RadioConfig),
    SetModulation(Modulation),
    SetAccelerator(Accelerator),
    SetAntenna(RadioBand, Antenna),
}

/// The steps that put a module's settings into force, in order.
pub open spec fn steps_of(cfg: RadioModuleConfig) -> Seq<RadioStep> {
    let always = seq![
        RadioStep::SetRadioConfig(cfg.radio_config),
        RadioStep::SetModulation(cfg.modulation),
        RadioStep::SetAccelerator(cfg.accelerator),
    ];
    if band_of(cfg.radio_config.freq) == RadioBand::Band24 {
        always.push(RadioStep::SetAntenna(RadioBand::Band24, cfg.antenna))
    } else {
        always
    }
}

/// The steps that put a module's settings into force, in order.
pub fn module_steps(cfg: &RadioModuleConfig) -> (r: Vec<RadioStep>)
    ensures
        r@ == steps_of(*cfg),
{
    let mut out: Vec<RadioStep> = Vec::new();
    out.push(RadioStep::SetRadioConfig(cfg.radio_config));
    out.push(RadioStep::SetModulation(cfg.modulation));
    out.push(RadioStep::SetAccelerator(cfg.accelerator));
    if cfg.band() == RadioBand::Band24 {
        out.push(RadioStep::SetAntenna(RadioBand::Band24, cfg.antenna));
    }
    proof {
        assert(out@ =~= steps_of(*cfg));
    }
    out
}

/// What a step is called in an error.
pub open spec fn step_name(step: RadioStep) -> Seq<char> {
    match step {
        RadioStep::SetRadioConfig(_) => "radio config: "@,
        RadioStep::SetModulation(_) => "modulation: "@,
        RadioStep::SetAccelerator(_) => "accelerator: "@,
        RadioStep::SetAntenna(_, _) => "antenna: "@,
    }
}

/// The error of the first step that failed; every step is tried all the same.
pub open spec fn first_failure(steps: Seq<RadioStep>, results: Seq<Result<(), String>>) -> Option<Seq<char>>
    decreases steps.len(),
{
    if steps.len() == 0 || results.len() == 0 {
        None
    } else {
        match results[0] {
            Err(e) => Some(step_name(steps[0]) + e@),
            Ok(()) => first_failure(steps.skip(1), results.skip(1)),
        }
    }
}

/// Judges the results of all the steps of a module: the error of the first that failed.
pub fn apply_outcome(steps: &[RadioStep], results: &[Result<(), String>]) -> (r: Result<(), String>)
    requires
        steps@.len() == results@.len(),
    ensures
        match r {
            Ok(()) => first_failure(steps@, results@) is None,
            Err(e) => first_failure(steps@, results@) == Some(e@),
        },
{
    let mut i: usize = 0;
    proof {
        assert(steps@.skip(0) =~= steps@);
        assert(results@.skip(0) =~= results@);
    }
    while i < steps.len()
        invariant
            steps@.len() == results@.len(),
            i <= steps@.len(),
            first_failure(steps@, results@) == first_failure(steps@.skip(i as int), results@.skip(i as int)),
        decreases steps@.len() - i,
    {
        proof {
            assert(steps@.skip(i as int).skip(1) =~= steps@.skip(i + 1));
            assert(results@.skip(i as int).skip(1) =~= results@.skip(i + 1));
        }
        match &results[i] {
            Ok(()) => {},
            Err(e) => {
                let name = match steps[i] {
                    RadioStep::SetRadioConfig(_) => "radio config: ",
                    RadioStep::SetModulation(_) => "modulation: ",
                    RadioStep::SetAccelerator(_) => "accelerator: ",
                    RadioStep::SetAntenna(_, _) => "antenna: ",
                };
                return Err(cat2(name, e.as_str()));
            },
        }
        i += 1;
    }
    Ok(())
}

/// Only a module at 2.4 GHz has its antenna switched.
pub proof fn law_antenna_only_at_24(cfg: RadioModuleConfig, step: RadioStep)
    requires
        steps_of(cfg).contains(step),
        step is SetAntenna,
    ensures
        cfg.radio_config.freq >= BAND_24_MIN_HZ,
        step == RadioStep::SetAntenna(RadioBand::Band24, cfg.antenna),
{
    let i = choose|i: int| 0 <= i < steps_of(cfg).len() && steps_of(cfg)[i] == step;
    assert(i == 3);
}

// ── Starting up ──────────────────────────────────────────────────────────────

/// How often each module's settings are tried at start-up.
pub const BOOT_ATTEMPTS: usize = 3;

/// The pause after a failed attempt, in milliseconds.
pub const BOOT_PAUSE_MS: u64 = 500;

/// How long after start-up the modules that failed are tried once more, in seconds.
pub const BOOT_LATER_SECS: u64 = 5;

/// What to do next at start-up.
#[derive(Clone, Copy, Debug, PartialEq, Eq, Structural)]
pub enum BootStep {
    /// Ask the radio whether it answers.
    Ping,
    /// Try the settings of a module.
    Apply(usize),
    /// Wait for `BOOT_PAUSE_MS`, then go on.
    Pause,
    /// Start-up is over; the listed modules are tried once more later.
    Done,
}

/// Where start-up is.
#[derive(Clone, Copy, Debug, PartialEq, Eq, Structural)]
pub enum BootPhase {
    /// This many pings have failed.
    Pinging(usize),
    /// A pause is due; this many pings have failed.
    PingPause(usize),
    /// This module's settings are due; this many attempts have failed.
    Applying(usize, usize),
    /// A pause is due after an attempt for this module; this many have failed.
    ApplyPause(usize, usize),
    Finished,
}

/// Start-up of the radio: a ping first, then the settings of every module, each
/// tried a few times.
#[derive(Clone, Debug)]
pub struct BootSequence {
    pub modules: usize,
    pub phase: BootPhase,
    pub failed: Vec<usize>,
}

impl BootSequence {
    /// The phase in which the settings of a module are due.
    pub open spec fn at_module(&self, module: int) -> BootPhase {
        if module < self.modules {
            BootPhase::Applying(module as usize, 0)
        } else {
            BootPhase::Finished
        }
    }

    /// The counts are within bounds.
    pub open spec fn wf(&self) -> bool {
        match self.phase {
            BootPhase::Pinging(n) => n < BOOT_ATTEMPTS && self.failed@.len() == 0,
            BootPhase::PingPause(n) => 0 < n <= BOOT_ATTEMPTS && self.failed@.len() == 0,
            BootPhase::Applying(m, n) => m < self.modules && n < BOOT_ATTEMPTS,
            BootPhase::ApplyPause(m, n) => m < self.modules && 0 < n <= BOOT_ATTEMPTS,
            BootPhase::Finished => true,
        }
    }

    /// Start-up of a radio with this many modules.
    pub fn new(modules: usize) -> (b: BootSequence)
        ensures
            b.wf(),
            b.modules == modules,
            b.phase == BootPhase::Pinging(0),
            b.failed@.len() == 0,
    {
        BootSequence { modules, phase: BootPhase::Pinging(0), failed: Vec::new() }
    }

    /// What a phase asks for.
    pub open spec fn due(&self) -> BootStep {
        match self.phase {
            BootPhase::Pinging(_) => BootStep::Ping,
            BootPhase::PingPause(_) => BootStep::Pause,
            BootPhase::Applying(m, _) => BootStep::Apply(m),
            BootPhase::ApplyPause(_, _) => BootStep::Pause,
            BootPhase::Finished => BootStep::Done,
        }
    }

    /// What to do next.
    pub fn step(&self) -> (r: BootStep)
        ensures
            r == self.due(),
    {
        match self.phase {
            BootPhase::Pinging(_) => BootStep::Ping,
            BootPhase::PingPause(_) => BootStep::Pause,
            BootPhase::Applying(m, _) => BootStep::Apply(m),
            BootPhase::ApplyPause(_, _) => BootStep::Pause,
            BootPhase::Finished => BootStep::Done,
        }
    }

    /// The phase after what was due was done, and whether it worked. A pause always works.
    pub open spec fn next_phase(&self, worked: bool) -> BootPhase {
        match self.phase {
            BootPhase::Pinging(n) => if worked {
                self.at_module(0)
            } else {
                BootPhase::PingPause((n + 1) as usize)
            },
            BootPhase::PingPause(n) => if n < BOOT_ATTEMPTS {
                BootPhase::Pinging(n)
            } else {
                self.at_module(0)
            },
            BootPhase::Applying(m, n) => if worked {
                self.at_module(m + 1)
            } else {
                BootPhase::ApplyPause(m, (n + 1) as usize)
            },
            BootPhase::ApplyPause(m, n) => if n < BOOT_ATTEMPTS {
                BootPhase::Applying(m, n)
            } else {
                self.at_module(m + 1)
            },
            BootPhase::Finished => BootPhase::Finished,
        }
    }

    /// The modules that failed, after what was due was done.
    pub open spec fn next_failed(&self) -> Seq<usize> {
        match self.phase {
            BootPhase::ApplyPause(m, n) => if n < BOOT_ATTEMPTS {
                self.failed@
            } else {
                self.failed@.push(m)
            },
            _ => self.failed@,
        }
    }

    /// The phase in which the settings of a module are due.
    fn start_module(&self, module: usize) -> (r: BootPhase)
        ensures
            r == self.at_module(module as int),
    {
        if module < self.modules {
            BootPhase::Applying(module, 0)
        } else {
            BootPhase::Finished
        }
    }

    /// Moves on after what was due was done, and whether it worked.
    pub fn advance(&mut self, worked: bool)
        requires
            old(self).wf(),
        ensures
            final(self).wf(),
            final(self).modules == old(self).modules,
            final(self).phase == old(self).next_phase(worked),
            final(self).failed@ == old(self).next_failed(),
    {
        match self.phase {
            BootPhase::Pinging(n) => {
                self.phase = if worked {
                    self.start_module(0)
                } else {
                    BootPhase::PingPause(n + 1)
                };
            },
            BootPhase::PingPause(n) => {
                self.phase = if n < BOOT_ATTEMPTS {
                    BootPhase::Pinging(n)
                } else {
                    self.start_module(0)
                };
            },
            BootPhase::Applying(m, n) => {
                self.phase = if worked {
                    self.start_module(m + 1)
                } else {
                    BootPhase::ApplyPause(m, n + 1)
                };
            },
            BootPhase::ApplyPause(m, n) => {
                if n < BOOT_ATTEMPTS {
                    self.phase = BootPhase::Applying(m, n);
                } else {
                    self.failed.push(m);
                    self.phase = self.start_module(m + 1);
                }
            },
            BootPhase::Finished => {},
        }
    }

    /// A number that every move makes smaller until start-up is over.
    pub open spec fn moves_left(&self) -> nat {
        match self.phase {
            BootPhase::Pinging(n) => (2 * (BOOT_ATTEMPTS - n) + 1 + 7 * self.modules) as nat,
            BootPhase::PingPause(n) => (2 * (BOOT_ATTEMPTS - n) + 2 + 7 * self.modules) as nat,
            BootPhase::Applying(m, n) => (2 * (BOOT_ATTEMPTS - n) + 1 + 7 * (self.modules - m - 1)) as nat,
            BootPhase::ApplyPause(m, n) => (2 * (BOOT_ATTEMPTS - n) + 2 + 7 * (self.modules - m - 1)) as nat,
            BootPhase::Finished => 0,
        }
    }
}

/// Start-up comes to an end whatever fails: every move leaves fewer moves to make.
pub proof fn law_boot_ends(before: BootSequence, after: BootSequence, worked: bool)
    requires
        before.wf(),
        before.phase != BootPhase::Finished,
        after.modules == before.modules,
        after.phase == before.next_phase(worked),
    ensures
        after.moves_left() < before.moves_left(),
{
}

/// A module is listed as failed only after all its attempts have failed.
pub proof fn law_failed_after_all_attempts(before: BootSequence, module: usize)
    requires
        before.next_failed() == before.failed@.push(module),
    ensures
        before.phase matches BootPhase::ApplyPause(m, n) && m == module && n >= BOOT_ATTEMPTS,
{
    assert(before.next_failed().len() == before.failed@.len() + 1);
    assert(before.next_failed().last() == module);
}

// ── Link timers ──────────────────────────────────────────────────────────────

/// How long the stages of a mesh link may take, in microseconds.
#[derive(Clone, Copy, Debug, PartialEq, Eq, Structural)]
pub struct LinkTimers {
    pub in_link_stale: u128,
    pub in_link_close: u128,
    pub out_link_restart: u128,
    pub out_link_stale: u128,
    pub out_link_close: u128,
    pub out_link_repeat: u128,
    pub out_link_keep: u128,
}

/// A number of seconds, or the air time of a number of frames where that is longer.
pub open spec fn at_least_spec(floor_secs: int, frames: int, frame_micros: u64) -> u128 {
    let floor = floor_secs * 1_000_000;
    let scaled = frame_micros * frames;
    (if floor > scaled {
        floor
    } else {
        scaled
    }) as u128
}

/// A number of seconds, or the air time of a number of frames where that is longer.
fn at_least(floor_secs: u128, frames: u128, frame_micros: u64) -> (r: u128)
    requires
        floor_secs <= 45,
        frames <= 30,
    ensures
        r == at_least_spec(floor_secs as int, frames as int, frame_micros),
{
    let floor: u128 = floor_secs * 1_000_000;
    assert(frame_micros * frames <= 30 * u64::MAX) by (nonlinear_arith)
        requires
            frames <= 30,
            frame_micros <= u64::MAX,
    ;
    let scaled: u128 = (frame_micros as u128) * frames;
    if floor > scaled {
        floor
    } else {
        scaled
    }
}

/// The link timers for a radio whose frames take the given air time: the usual
/// ones, stretched for slow modulations.
pub open spec fn timers_for(frame_micros: u64) -> LinkTimers {
    LinkTimers {
        in_link_stale: at_least_spec(30, 20, frame_micros),
        in_link_close: at_least_spec(15, 10, frame_micros),
        out_link_restart: at_least_spec(45, 30, frame_micros),
        out_link_stale: at_least_spec(30, 20, frame_micros),
        out_link_close: at_least_spec(15, 10, frame_micros),
        out_link_repeat: at_least_spec(10, 8, frame_micros),
        out_link_keep: at_least_spec(5, 4, frame_micros),
    }
}

/// The link timers for a radio whose frames take the given air time.
pub fn link_timers(frame_micros: u64) -> (r: LinkTimers)
    ensures
        r == timers_for(frame_micros),
{
    LinkTimers {
        in_link_stale: at_least(30, 20, frame_micros),
        in_link_close: at_least(15, 10, frame_micros),
        out_link_restart: at_least(45, 30, frame_micros),
        out_link_stale: at_least(30, 20, frame_micros),
        out_link_close: at_least(15, 10, frame_micros),
        out_link_repeat: at_least(10, 8, frame_micros),
        out_link_keep: at_least(5, 4, frame_micros),
    }
}

/// Fast modulations keep the usual timers: those whose frames take at most 1.25
/// seconds of air.
pub proof fn law_fast_radio_keeps_timers(frame_micros: u64)
    requires
        frame_micros <= 1_250_000,
    ensures
        timers_for(frame_micros) == timers_for(0),
        timers_for(0) == (LinkTimers {
            in_link_stale: 30_000_000,
            in_link_close: 15_000_000,
            out_link_restart: 45_000_000,
            out_link_stale: 30_000_000,
            out_link_close: 15_000_000,
            out_link_repeat: 10_000_000,
            out_link_keep: 5_000_000,
        }),
{
    assert(frame_micros * 30 <= 45_000_000 && frame_micros * 20 <= 30_000_000 && frame_micros * 10 <= 15_000_000
        && frame_micros * 8 <= 10_000_000 && frame_micros * 4 <= 5_000_000);
}

/// No timer is ever shorter than the usual one.
pub proof fn law_timers_only_stretch(frame_micros: u64)
    ensures
        timers_for(frame_micros).in_link_stale >= timers_for(0).in_link_stale,
        timers_for(frame_micros).in_link_close >= timers_for(0).in_link_close,
        timers_for(frame_micros).out_link_restart >= timers_for(0).out_link_restart,
        timers_for(frame_micros).out_link_stale >= timers_for(0).out_link_stale,
        timers_for(frame_micros).out_link_close >= timers_for(0).out_link_close,
        timers_for(frame_micros).out_link_repeat >= timers_for(0).out_link_repeat,
        timers_for(frame_micros).out_link_keep >= timers_for(0).out_link_keep,
{
}

// ── Channel and test frames ──────────────────────────────────────────────────

/// The name of the radio channel that the gateway is told to use: the trimmed
/// text, unless it is blank or `0`. Without a name it uses the common channel.
pub open spec fn channel_name(setting: Option<Seq<char>>) -> Option<Seq<char>> {
    match setting {
        Some(s) => if text::trimmed(s).len() > 0 && text::trimmed(s) != "0"@ {
            Some(text::trimmed(s))
        } else {
            None
        },
        None => None,
    }
}

/// The name of the radio channel that the gateway is told to use.
pub fn gateway_channel_name(setting: Option<String>) -> (r: Option<String>)
    ensures
        text::view_opt(r) == channel_name(text::view_opt(setting)),
{
    match setting {
        Some(s) => {
            let name = trim(s.as_str());
            if is_empty(name.as_str()) || same(name.as_str(), "0") {
                None
            } else {
                Some(name)
            }
        },
        None => None,
    }
}

/// The longest test frame for a radio with frames of the given size.
pub open spec fn max_test_len(frame_size: usize) -> usize {
    if frame_size < 2047 {
        frame_size
    } else {
        2047
    }
}

/// Why a test frame cannot be sent, if so: the module does not exist, there is
/// nothing to send, it is too long, or there is no radio.
pub open spec fn test_frame_complaint(radio_present: bool, frame_size: usize, module: usize, payload_len: nat) -> Option<Seq<char>> {
    if module > 1 {
        Some("radio module "@ + digits::decimal(module as nat) + " not found"@)
    } else if payload_len == 0 {
        Some("message is required"@)
    } else if payload_len > max_test_len(frame_size) {
        Some("message exceeds "@ + digits::decimal(max_test_len(frame_size) as nat) + " bytes"@)
    } else if !radio_present {
        Some("radio backend unavailable"@)
    } else {
        None
    }
}

/// Checks a test frame before it is sent.
pub fn check_test_frame(radio_present: bool, frame_size: usize, module: usize, payload: &[u8]) -> (r: Result<(), String>)
    ensures
        match r {
            Ok(()) => test_frame_complaint(radio_present, frame_size, module, payload@.len()) is None,
            Err(e) => test_frame_complaint(radio_present, frame_size, module, payload@.len()) == Some(e@),
        },
{
    if module > 1 {
        return Err(cat3("radio module ", dec_usize(module).as_str(), " not found"));
    }
    if payload.len() == 0 {
        return Err("message is required".to_owned());
    }
    let max_len: usize = if frame_size < 2047 {
        frame_size
    } else {
        2047
    };
    if payload.len() > max_len {
        return Err(cat3("message exceeds ", dec_usize(max_len).as_str(), " bytes"));
    }
    if !radio_present {
        return Err("radio backend unavailable".to_owned());
    }
    Ok(())
}

/// Judges the sending of a test frame; one that was sent is to be reported to
/// whoever watches what is sent.
pub fn test_frame_sent(sent: Result<(), String>) -> (r: Result<(), String>)
    ensures
        match sent {
            Ok(()) => r is Ok,
            Err(e) => r is Err && r->Err_0@ == "transmit: "@ + e@,
        },
{
    match sent {
        Ok(()) => Ok(()),
        Err(e) => Err(cat2("transmit: ", e.as_str())),
    }
}

// ── What the settings come to ────────────────────────────────────────────────

/// What a module of the radio is set to.
pub struct ModuleState {
    pub radio_config: RadioConfig,
    pub modulation: Modulation,
    pub accelerator: Accelerator,
    pub antenna_24: Antenna,
}

/// A module after a step was carried out.
pub open spec fn after_step(m: ModuleState, step: RadioStep) -> ModuleState {
    match step {
        RadioStep::SetRadioConfig(radio_config) => ModuleState { radio_config, ..m },
        RadioStep::SetModulation(modulation) => ModuleState { modulation, ..m },
        RadioStep::SetAccelerator(accelerator) => ModuleState { accelerator, ..m },
        RadioStep::SetAntenna(band, antenna) => if band == RadioBand::Band24 {
            ModuleState { antenna_24: antenna, ..m }
        } else {
            m
        },
    }
}

/// A module after steps were carried out one after the other.
pub open spec fn after_steps(m: ModuleState, steps: Seq<RadioStep>) -> ModuleState
    decreases steps.len(),
{
    if steps.len() == 0 {
        m
    } else {
        after_step(after_steps(m, steps.drop_last()), steps.last())
    }
}

/// Whatever a module was set to before, its steps leave it tuned, modulated and accelerated as
/// its settings say; from 2.4 GHz up its antenna is the one of the settings too, and below that
/// the antenna switch stays as it was.
pub proof fn law_steps_put_the_settings_into_force(cfg: &RadioModuleConfig, steps: Vec<RadioStep>, before: ModuleState)
    requires
        call_ensures(module_steps, (cfg,), steps),
    ensures
        ({
            let after = after_steps(before, steps@);
            &&& after.radio_config == cfg.radio_config
            &&& after.modulation == cfg.modulation
            &&& after.accelerator == cfg.accelerator
            &&& after.antenna_24 == if cfg.radio_config.freq >= 2_400_000_000 {
                cfg.antenna
            } else {
                before.antenna_24
            }
        }),
{
    let s = steps@;
    assert(s.take(s.len() as int) =~= s);
    lemma_after_prefix(before, s, 1);
    lemma_after_prefix(before, s, 2);
    lemma_after_prefix(before, s, 3);
    assert(after_steps(before, s.take(0)) == before);
    if s.len() == 4 {
        lemma_after_prefix(before, s, 4);
    }
}

/// One more step is carried out after those before it.
proof fn lemma_after_prefix(m: ModuleState, steps: Seq<RadioStep>, n: int)
    requires
        0 < n <= steps.len(),
    ensures
        after_steps(m, steps.take(n)) == after_step(after_steps(m, steps.take(n - 1)), steps[n - 1]),
{
    assert(steps.take(n).drop_last() =~= steps.take(n - 1));
}

/// Every step carries the module's own setting, each setting is sent once, and the module is tuned
/// before anything else is set.
pub proof fn law_each_setting_is_sent_once(cfg: &RadioModuleConfig, steps: Vec<RadioStep>, i: int, j: int)
    requires
        call_ensures(module_steps, (cfg,), steps),
        0 <= i < steps@.len(),
        0 <= j < steps@.len(),
    ensures
        steps@[i] matches RadioStep::SetRadioConfig(c) ==> c == cfg.radio_config && i == 0,
        steps@[i] matches RadioStep::SetModulation(m) ==> m == cfg.modulation,
        steps@[i] matches RadioStep::SetAccelerator(a) ==> a == cfg.accelerator,
        steps@[i] matches RadioStep::SetAntenna(b, a) ==> b == RadioBand::Band24 && a == cfg.antenna
            && cfg.radio_config.freq >= 2_400_000_000,
        steps@[i] is SetRadioConfig && steps@[j] is SetRadioConfig ==> i == j,
        steps@[i] is SetModulation && steps@[j] is SetModulation ==> i == j,
        steps@[i] is SetAccelerator && steps@[j] is SetAccelerator ==> i == j,
        steps@[i] is SetAntenna && steps@[j] is SetAntenna ==> i == j,
        steps@[i] is SetModulation && steps@[j] is SetAccelerator ==> i < j,
        steps@[i] is SetAntenna ==> i == steps@.len() - 1,
        steps@.len() == if cfg.radio_config.freq >= 2_400_000_000 {
            4
        } else {
            3int
        },
{
}

/// Settings are in force exactly where every step worked. Otherwise the first step that failed is
/// reported, with its kind and its own error.
pub proof fn law_first_failed_step_is_reported(
    steps: &[RadioStep],
    results: &[Result<(), String>],
    r: Result<(), String>,
    i: int,
)
    requires
        steps@.len() == results@.len(),
        call_ensures(apply_outcome, (steps, results), r),
    ensures
        r is Ok <==> forall|k: int| 0 <= k < results@.len() ==> (#[trigger] results@[k]) is Ok,
        ({
            &&& 0 <= i < results@.len()
            &&& results@[i] is Err
            &&& forall|k: int| 0 <= k < i ==> (#[trigger] results@[k]) is Ok
        }) ==> r is Err && r->Err_0@ == (match steps@[i] {
            RadioStep::SetRadioConfig(_) => "radio config: "@,
            RadioStep::SetModulation(_) => "modulation: "@,
            RadioStep::SetAccelerator(_) => "accelerator: "@,
            RadioStep::SetAntenna(_, _) => "antenna: "@,
        }) + results@[i]->Err_0@,
{
    lemma_first_failure(steps@, results@, i);
}

/// The first failure is that of the first result that is an error.
proof fn lemma_first_failure(steps: Seq<RadioStep>, results: Seq<Result<(), String>>, i: int)
    requires
        steps.len() == results.len(),
    ensures
        first_failure(steps, results) is None <==> forall|k: int| 0 <= k < results.len() ==> (#[trigger] results[k]) is Ok,
        0 <= i < results.len() && results[i] is Err && (forall|k: int| 0 <= k < i ==> (#[trigger] results[k]) is Ok)
            ==> first_failure(steps, results) == Some(step_name(steps[i]) + results[i]->Err_0@),
    decreases steps.len(),
{
    if steps.len() > 0 && results[0] is Ok {
        let rs = results.skip(1);
        lemma_first_failure(steps.skip(1), rs, i - 1);
        assert forall|k: int| 0 <= k < rs.len() implies rs[k] == #[trigger] results[k + 1] by {}
        if forall|k: int| 0 <= k < rs.len() ==> (#[trigger] rs[k]) is Ok {
            assert forall|k: int| 0 <= k < results.len() implies (#[trigger] results[k]) is Ok by {
                if k > 0 {
                    assert(rs[k - 1] is Ok);
                }
            }
        }
        if 0 < i < results.len() && results[i] is Err && (forall|k: int| 0 <= k < i ==> (#[trigger] results[k]) is Ok) {
            assert forall|k: int| 0 <= k < i - 1 implies (#[trigger] rs[k]) is Ok by {
                assert(results[k + 1] is Ok);
            }
        }
    }
}

/// A frequency is in the upper band from 2.4 GHz on.
pub proof fn law_bands_part_at_24(radio_config: &RadioConfig, band: RadioBand)
    requires
        call_ensures(band_for_config, (radio_config,), band),
    ensures
        band == RadioBand::Band24 <==> radio_config.freq >= 2_400_000_000,
{
}

/// Where nobody has set them, both modules work alike below 1 GHz, at 869.535 MHz with the given
/// modulation, and on different channels.
pub proof fn law_modules_start_on_different_channels(ofdm: OfdmModulation, filter: BandwidthFilter, r: HardwareRadioConfig, m: int)
    requires
        call_ensures(HardwareRadioConfig::with_defaults, (ofdm, filter), r),
        0 <= m < 2,
    ensures
        r.module_configs@[m].modulation == Modulation::Ofdm(ofdm),
        r.module_configs@[m].radio_config.bandwidth_filter == filter,
        r.module_configs@[m].radio_config.freq == 869_535_000,
        r.module_configs@[m].radio_config.channel_spacing == 200_000,
        r.module_configs@[m].accelerator == Accelerator::Native,
        r.module_configs@[m].antenna == Antenna::Internal,
        r.module_configs@[0].radio_config.channel == 3,
        r.module_configs@[1].radio_config.channel == 11,
{
}

// ── What start-up comes to ───────────────────────────────────────────────────

/// What worked is not done again: after a ping that was answered come the modules, one after the
/// other, and after the last of them start-up is over. What failed is followed by a pause, and
/// leaves the list of failed modules as it is. A start-up that is over stays over.
pub proof fn law_boot_moves_on(boot: &mut BootSequence, worked: bool)
    requires
        old(boot).wf(),
        call_ensures(BootSequence::advance, (boot, worked), ()),
    ensures
        old(boot).due() == BootStep::Ping && worked ==> final(boot).due() == if old(boot).modules > 0 {
            BootStep::Apply(0)
        } else {
            BootStep::Done
        },
        old(boot).due() matches BootStep::Apply(m) ==> worked ==> final(boot).due() == if m + 1 < old(boot).modules {
            BootStep::Apply((m + 1) as usize)
        } else {
            BootStep::Done
        },
        (old(boot).due() == BootStep::Ping || old(boot).due() is Apply) && !worked ==> final(boot).due() == BootStep::Pause,
        old(boot).due() != BootStep::Pause ==> final(boot).failed@ == old(boot).failed@,
        old(boot).due() == BootStep::Done ==> final(boot).due() == BootStep::Done,
        final(boot).modules == old(boot).modules,
{
}

/// Whether start-up moved from one state to the next.
pub open spec fn boot_moved(before: BootSequence, after: BootSequence, worked: bool) -> bool {
    &&& after.modules == before.modules
    &&& after.phase == before.next_phase(worked)
    &&& after.failed@ == before.next_failed()
}

/// A module whose settings never take is tried three times with a pause after each, is then listed
/// as failed, and start-up goes on with the next.
pub proof fn law_stubborn_module_is_tried_three_times(s: Seq<BootSequence>, module: usize)
    requires
        s.len() == 7,
        s[0].wf(),
        s[0].phase == BootPhase::Applying(module, 0),
        boot_moved(s[0], s[1], false) && boot_moved(s[1], s[2], false) && boot_moved(s[2], s[3], false),
        boot_moved(s[3], s[4], false) && boot_moved(s[4], s[5], false) && boot_moved(s[5], s[6], false),
    ensures
        s[0].due() == BootStep::Apply(module) && s[2].due() == BootStep::Apply(module) && s[4].due() == BootStep::Apply(module),
        s[1].due() == BootStep::Pause && s[3].due() == BootStep::Pause && s[5].due() == BootStep::Pause,
        s[6].failed@ == s[0].failed@.push(module),
        s[6].due() == if module + 1 < s[0].modules {
            BootStep::Apply((module + 1) as usize)
        } else {
            BootStep::Done
        },
{
}

/// A module whose settings take at the second or third attempt is not listed as failed.
pub proof fn law_late_success_counts(s: Seq<BootSequence>, module: usize)
    requires
        s.len() == 4,
        s[0].wf(),
        s[0].phase is Applying,
        s[0].due() == BootStep::Apply(module),
        boot_moved(s[0], s[1], false),
        boot_moved(s[1], s[2], true),
        s[2].due() == BootStep::Apply(module),
        boot_moved(s[2], s[3], true),
    ensures
        s[3].failed@ == s[0].failed@,
        s[3].due() == if module + 1 < s[0].modules {
            BootStep::Apply((module + 1) as usize)
        } else {
            BootStep::Done
        },
{
}

/// A radio that never answers is pinged three times with a pause after each; then the modules are
/// tried all the same.
pub proof fn law_silent_radio_is_pinged_three_times(modules: usize, s: Seq<BootSequence>)
    requires
        s.len() == 7,
        call_ensures(BootSequence::new, (modules,), s[0]),
        boot_moved(s[0], s[1], false) && boot_moved(s[1], s[2], false) && boot_moved(s[2], s[3], false),
        boot_moved(s[3], s[4], false) && boot_moved(s[4], s[5], false) && boot_moved(s[5], s[6], false),
    ensures
        s[0].due() == BootStep::Ping && s[2].due() == BootStep::Ping && s[4].due() == BootStep::Ping,
        s[1].due() == BootStep::Pause && s[3].due() == BootStep::Pause && s[5].due() == BootStep::Pause,
        s[6].failed@.len() == 0,
        s[6].due() == if modules > 0 {
            BootStep::Apply(0)
        } else {
            BootStep::Done
        },
{
}

// ── What the timers and frames come to ───────────────────────────────────────

/// Whether a time in microseconds is the longer of a number of seconds and the air time of a
/// number of frames.
pub open spec fn is_longer_of(time: u128, secs: int, frames: int, frame_micros: u64) -> bool {
    &&& time >= secs * 1_000_000
    &&& time >= frames * frame_micros
    &&& time == secs * 1_000_000 || time == frames * frame_micros
}

/// Each link timer is the longer of its usual time and the time that its frames take on the air.
pub proof fn law_timers_leave_time_for_frames(frame_micros: u64, t: LinkTimers)
    requires
        call_ensures(link_timers, (frame_micros,), t),
    ensures
        is_longer_of(t.in_link_stale, 30, 20, frame_micros),
        is_longer_of(t.in_link_close, 15, 10, frame_micros),
        is_longer_of(t.out_link_restart, 45, 30, frame_micros),
        is_longer_of(t.out_link_stale, 30, 20, frame_micros),
        is_longer_of(t.out_link_close, 15, 10, frame_micros),
        is_longer_of(t.out_link_repeat, 10, 8, frame_micros),
        is_longer_of(t.out_link_keep, 5, 4, frame_micros),
{
}

/// Where links are kept alive, that happens before they count as stale, and they are repeated
/// before they are restarted, however slow the radio is.
pub proof fn law_timers_keep_their_order(frame_micros: u64, t: LinkTimers)
    requires
        call_ensures(link_timers, (frame_micros,), t),
    ensures
        t.out_link_keep < t.out_link_repeat < t.out_link_close < t.out_link_stale < t.out_link_restart,
        t.in_link_close < t.in_link_stale,
        t.in_link_stale == t.out_link_stale && t.in_link_close == t.out_link_close,
{
}

/// A channel has a name exactly where the setting holds something but white space other than a
/// lone zero; white space around the name does not matter.
pub proof fn law_channel_is_named(setting: Option<String>, name: Option<String>)
    requires
        call_ensures(gateway_channel_name, (setting,), name),
    ensures
        name is Some <==> setting is Some && text::trimmed(setting->0@).len() > 0 && text::trimmed(setting->0@) != "0"@,
        name matches Some(n) ==> n@.len() > 0 && !text::is_white(n@[0]) && !text::is_white(n@.last()) && n@ == text::trimmed(
            setting->0@,
        ),
{
    if setting is Some {
        text::lemma_trimmed(setting->0@);
    }
}

/// A test frame is let through exactly where there is a radio, the module is one of its two, and the
/// frame has at least one byte and no more than fit a radio frame or 2047.
pub proof fn law_test_frame_fits(present: bool, frame_size: usize, module: usize, payload: &[u8], r: Result<(), String>)
    requires
        call_ensures(check_test_frame, (present, frame_size, module, payload), r),
    ensures
        r is Ok <==> present && module < 2 && 0 < payload@.len() && payload@.len() <= frame_size && payload@.len() <= 2047,
        module >= 2 ==> r->Err_0@ == "radio module "@ + digits::decimal(module as nat) + " not found"@,
        module < 2 && payload@.len() == 0 ==> r->Err_0@ == "message is required"@,
        module < 2 && payload@.len() > 0 && payload@.len() <= frame_size && payload@.len() <= 2047 && !present
            ==> r->Err_0@ == "radio backend unavailable"@,
{
}

/// A test frame that could not be sent is answered with why, and one that was is not.
pub proof fn law_test_frames_are_answered_for(sent: Result<(), String>, r: Result<(), String>)
    requires
        call_ensures(test_frame_sent, (sent,), r),
    ensures
        r is Ok <==> sent is Ok,
        sent matches Err(e) ==> r->Err_0@ == "transmit: "@ + e@,
{
}

/// Start-up begins by asking for the radio, with nothing failed yet.
pub proof fn law_start_begins_with_a_ping(modules: usize, b: BootSequence, start: &BootSequence, step: BootStep)
    requires
        call_ensures(BootSequence::new, (modules,), b),
        *start == b,
        call_ensures(BootSequence::step, (start,), step),
    ensures
        step == BootStep::Ping,
        b.modules == modules,
        b.failed@.len() == 0,
{
}

/// Half a second lies between two attempts, and five seconds before a module that failed is tried again.
pub proof fn law_pauses_of_the_start()
    ensures
        BOOT_PAUSE_MS == 500,
        BOOT_LATER_SECS == 5,
{
}

} // verus!
