//! How the gateway starts, and the frames it has seen.

use vstd::prelude::*;

use crate::atak_bridge;
use crate::atak_bridge::write_spaced_hex;
use crate::counter;
use crate::digits;
use crate::digits::dec;
use crate::net::{IpAddress, SocketAddress};
use crate::text;
use crate::text::{cat2, same, to_ascii_lower, trim};

verus! {

/// The file that the settings are kept in unless told otherwise.
pub fn default_db_path() -> (r: String)
    ensures
        r@ == "kaonic-gateway.db"@,
{
    "kaonic-gateway.db".to_owned()
}

/// Whether a text says yes.
pub open spec fn says_yes(value: Seq<char>) -> bool {
    let word = text::ascii_lowered(text::trimmed(value));
    word == "1"@ || word == "true"@ || word == "yes"@ || word == "on"@
}

/// Whether only the pages are served, without radio and mesh: as the setting says,
/// and without a setting wherever this is not a Kaonic device.
pub open spec fn webapp_only(setting: Option<Seq<char>>, is_linux: bool, has_serial: bool) -> bool {
    match setting {
        Some(value) => says_yes(value),
        None => !is_linux || !has_serial,
    }
}

/// Whether only the pages are served.
pub fn should_run_webapp_only(setting: Option<String>, is_linux: bool, has_serial: bool) -> (r: bool)
    ensures
        r == webapp_only(text::view_opt(setting), is_linux, has_serial),
{
    if let Some(value) = setting {
        let word = to_ascii_lower(trim(value.as_str()).as_str());
        return same(word.as_str(), "1") || same(word.as_str(), "true") || same(word.as_str(), "yes") || same(
            word.as_str(),
            "on",
        );
    }
    !is_linux || !has_serial
}

/// The serial number of the device: the trimmed contents of its file.
pub fn serial_text(contents: Option<String>) -> (r: String)
    ensures
        r@ == match contents {
            Some(s) => text::trimmed(s@),
            None => "unknown"@,
        },
{
    match contents {
        Some(s) => trim(s.as_str()),
        None => "unknown".to_owned(),
    }
}

/// The radio controller to connect to: the one asked for, or 192.168.10.1:9090.
pub fn ctrl_server(asked: Option<SocketAddress>) -> (r: SocketAddress)
    ensures
        match asked {
            Some(a) => r == a,
            None => r.port == 9090 && (r.ip matches IpAddress::V4(o) && o@ == seq![192u8, 168, 10, 1]),
        },
{
    match asked {
        Some(a) => a,
        None => SocketAddress { ip: IpAddress::V4([192, 168, 10, 1]), port: 9090 },
    }
}

/// How far the gateway has come.
#[derive(Clone, Copy, Debug, PartialEq, Eq, Structural)]
pub enum StartPhase {
    OpenSettings,
    LoadConfig,
    LoadSeed,
    ConnectRadio,
    AttachRadio,
    /// Loads the identity of a bridge and starts it.
    StartBridge(usize),
    /// The pages are served, until a signal ends the program.
    Serve,
    /// The program ends with an error.
    Failed,
}

/// What follows a phase that worked.
pub open spec fn phase_after(phase: StartPhase, webapp_only: bool, bridges: usize) -> StartPhase {
    match phase {
        StartPhase::OpenSettings => StartPhase::LoadConfig,
        StartPhase::LoadConfig => if webapp_only {
            StartPhase::Serve
        } else {
            StartPhase::LoadSeed
        },
        StartPhase::LoadSeed => StartPhase::ConnectRadio,
        StartPhase::ConnectRadio => StartPhase::AttachRadio,
        StartPhase::AttachRadio => if bridges > 0 {
            StartPhase::StartBridge(0)
        } else {
            StartPhase::Serve
        },
        StartPhase::StartBridge(i) => if i + 1 < bridges {
            StartPhase::StartBridge((i + 1) as usize)
        } else {
            StartPhase::Serve
        },
        StartPhase::Serve => StartPhase::Serve,
        StartPhase::Failed => StartPhase::Failed,
    }
}

/// What follows a phase: each one has to work for the next to be tried.
pub fn next_phase(phase: StartPhase, worked: bool, webapp_only: bool, bridges: usize) -> (r: StartPhase)
    ensures
        r == if worked {
            phase_after(phase, webapp_only, bridges)
        } else {
            StartPhase::Failed
        },
{
    if !worked {
        return StartPhase::Failed;
    }
    match phase {
        StartPhase::OpenSettings => StartPhase::LoadConfig,
        StartPhase::LoadConfig => if webapp_only {
            StartPhase::Serve
        } else {
            StartPhase::LoadSeed
        },
        StartPhase::LoadSeed => StartPhase::ConnectRadio,
        StartPhase::ConnectRadio => StartPhase::AttachRadio,
        StartPhase::AttachRadio => if bridges > 0 {
            StartPhase::StartBridge(0)
        } else {
            StartPhase::Serve
        },
        StartPhase::StartBridge(i) => if bridges > 0 && i < bridges - 1 {
            StartPhase::StartBridge(i + 1)
        } else {
            StartPhase::Serve
        },
        StartPhase::Serve => StartPhase::Serve,
        StartPhase::Failed => StartPhase::Failed,
    }
}

/// Whether a phase needs neither the radio nor the mesh.
pub open spec fn is_offline_phase(phase: StartPhase) -> bool {
    phase is OpenSettings || phase is LoadConfig || phase is Serve || phase is Failed
}

/// Where only the pages are served, neither the radio nor the mesh is touched.
pub proof fn law_webapp_stays_offline(phase: StartPhase, bridges: usize)
    requires
        is_offline_phase(phase),
    ensures
        is_offline_phase(phase_after(phase, true, bridges)),
{
}

/// The phases that are left until the pages are served.
pub open spec fn phases_left(phase: StartPhase, bridges: usize) -> int {
    match phase {
        StartPhase::OpenSettings => bridges + 6,
        StartPhase::LoadConfig => bridges + 5,
        StartPhase::LoadSeed => bridges + 4,
        StartPhase::ConnectRadio => bridges + 3,
        StartPhase::AttachRadio => bridges + 2,
        StartPhase::StartBridge(i) => if i < bridges {
            bridges - i + 1
        } else {
            1
        },
        StartPhase::Serve => 0,
        StartPhase::Failed => 0,
    }
}

/// The start comes to an end: every phase that works leaves fewer to go, and only the
/// last two are left alone.
pub proof fn law_start_ends(phase: StartPhase, webapp_only: bool, bridges: usize)
    ensures
        phases_left(phase, bridges) >= 0,
        phases_left(phase, bridges) > 0 ==> phases_left(phase_after(phase, webapp_only, bridges), bridges)
            < phases_left(phase, bridges),
        phases_left(phase, bridges) == 0 <==> (phase is Serve || phase is Failed),
{
}

/// The name under which the identity of an ATAK bridge is kept.
pub fn atak_seed_name(port: u16) -> (r: String)
    ensures
        r@ == "atak_identity_seed_"@ + digits::decimal(port as nat),
{
    cat2("atak_identity_seed_", dec(port as u64).as_str())
}

/// The bridges for different ports keep different identities.
pub proof fn law_atak_seeds_differ(a: u16, b: u16)
    requires
        "atak_identity_seed_"@ + digits::decimal(a as nat) == "atak_identity_seed_"@ + digits::decimal(b as nat),
    ensures
        a == b,
{
    let p = "atak_identity_seed_"@;
    let da = digits::decimal(a as nat);
    let db = digits::decimal(b as nat);
    assert((p + da).skip(p.len() as int) =~= da);
    assert((p + db).skip(p.len() as int) =~= db);
    digits::lemma_decimal_reads_back(a as nat);
    digits::lemma_decimal_reads_back(b as nat);
}

// ── Frames ───────────────────────────────────────────────────────────────────

/// The first 8 bytes of a frame in hexadecimal.
pub open spec fn frame_words(data: Seq<u8>) -> Seq<char> {
    atak_bridge::spaced_hex(
        data.take(
            if data.len() < 8 {
                data.len() as int
            } else {
                8
            },
        ),
    )
}

/// The first 8 bytes of a frame in hexadecimal.
pub fn frame_preview(data: &[u8]) -> (r: String)
    ensures
        r@ == frame_words(data@),
{
    let n: usize = if data.len() < 8 {
        data.len()
    } else {
        8
    };
    write_spaced_hex(data, n)
}

/// A frame as it is shown.
#[derive(Clone, Debug)]
pub struct RxFrame {
    pub module: usize,
    /// `rx` or `tx`.
    pub direction: String,
    pub rssi: i32,
    pub len: usize,
    pub hex: String,
    pub ts: u64,
}

/// What a module has received and sent.
#[derive(Clone, Copy, Debug, PartialEq, Eq, Structural)]
pub struct FrameStats {
    pub rx_frames: u64,
    pub tx_frames: u64,
    pub rx_bytes: u64,
    pub tx_bytes: u64,
    pub last_rssi: i32,
}

/// The counts of a module and its latest frames, the newest first.
#[derive(Clone, Debug)]
pub struct FrameLog {
    pub capacity: usize,
    pub stats: FrameStats,
    pub recent: Vec<RxFrame>,
}

/// The module that a frame is counted under: all but the first count as the second.
pub open spec fn module_slot(module: usize) -> usize {
    if module < 1 {
        module
    } else {
        1
    }
}

/// The module that a frame is counted under.
pub fn frame_module(module: usize) -> (r: usize)
    ensures
        r == module_slot(module),
        r < 2,
{
    if module < 1 {
        module
    } else {
        1
    }
}

/// The newest frame before the earlier ones, as many as there is room for.
pub open spec fn pushed(recent: Seq<RxFrame>, frame: RxFrame, capacity: nat) -> Seq<RxFrame> {
    let all = seq![frame] + recent;
    if all.len() > capacity {
        all.take(capacity as int)
    } else {
        all
    }
}

impl FrameLog {
    /// There are no more frames than there is room for.
    pub open spec fn wf(&self) -> bool {
        self.recent@.len() <= self.capacity
    }

    /// A module that has seen nothing.
    pub fn new(capacity: usize) -> (l: FrameLog)
        ensures
            l.wf(),
            l.capacity == capacity,
            l.stats == (FrameStats { rx_frames: 0, tx_frames: 0, rx_bytes: 0, tx_bytes: 0, last_rssi: 0 }),
            l.recent@.len() == 0,
    {
        FrameLog {
            capacity,
            stats: FrameStats { rx_frames: 0, tx_frames: 0, rx_bytes: 0, tx_bytes: 0, last_rssi: 0 },
            recent: Vec::new(),
        }
    }

    /// Puts a frame in front, and forgets the oldest where there is no room.
    fn remember(&mut self, frame: RxFrame)
        requires
            old(self).wf(),
        ensures
            final(self).wf(),
            final(self).capacity == old(self).capacity,
            final(self).stats == old(self).stats,
            final(self).recent@ == pushed(old(self).recent@, frame, old(self).capacity as nat),
    {
        self.recent.insert(0, frame);
        proof {
            assert(self.recent@ =~= seq![frame] + old(self).recent@);
        }
        if self.recent.len() > self.capacity {
            self.recent.truncate(self.capacity);
        }
    }

    /// Takes note of a frame that a module received.
    pub fn record_rx(&mut self, module: usize, rssi: i32, frame: &[u8], now: u64)
        requires
            old(self).wf(),
        ensures
            final(self).wf(),
            has_received(*old(self), *final(self), module, rssi, frame@, now),
    {
        let f = RxFrame {
            module: frame_module(module),
            direction: "rx".to_owned(),
            rssi,
            len: frame.len(),
            hex: frame_preview(frame),
            ts: now,
        };
        proof {
            assert(is_frame(f, module, "rx"@, rssi, frame@, now));
        }
        self.stats.rx_frames = self.stats.rx_frames.wrapping_add(1);
        self.stats.rx_bytes = self.stats.rx_bytes.wrapping_add(frame.len() as u64);
        self.stats.last_rssi = rssi;
        self.remember(f);
    }

    /// Takes note of a frame that a module sent.
    pub fn record_tx(&mut self, module: usize, frame: &[u8], now: u64)
        requires
            old(self).wf(),
        ensures
            final(self).wf(),
            has_sent(*old(self), *final(self), module, frame@, now),
    {
        let f = RxFrame {
            module: frame_module(module),
            direction: "tx".to_owned(),
            rssi: 0,
            len: frame.len(),
            hex: frame_preview(frame),
            ts: now,
        };
        proof {
            assert(is_frame(f, module, "tx"@, 0, frame@, now));
        }
        self.stats.tx_frames = self.stats.tx_frames.wrapping_add(1);
        self.stats.tx_bytes = self.stats.tx_bytes.wrapping_add(frame.len() as u64);
        self.remember(f);
    }
}

/// Whether a frame is shown as it was seen.
pub open spec fn is_frame(f: RxFrame, module: usize, direction: Seq<char>, rssi: i32, data: Seq<u8>, now: u64) -> bool {
    &&& f.module == module_slot(module)
    &&& f.direction@ == direction
    &&& f.rssi == rssi
    &&& f.len == data.len()
    &&& f.hex@ == frame_words(data)
    &&& f.ts == now
}

/// Whether a log took note of a received frame, and of nothing else.
pub open spec fn has_received(before: FrameLog, after: FrameLog, module: usize, rssi: i32, data: Seq<u8>, now: u64) -> bool {
    &&& after.capacity == before.capacity
    &&& after.stats == (FrameStats {
        rx_frames: counter::raised(before.stats.rx_frames, 1),
        rx_bytes: counter::raised(before.stats.rx_bytes, data.len() as u64),
        last_rssi: rssi,
        ..before.stats
    })
    &&& exists|f: RxFrame|
        {
            &&& #[trigger] is_frame(f, module, "rx"@, rssi, data, now)
            &&& after.recent@ == pushed(before.recent@, f, before.capacity as nat)
        }
}

/// Whether a log took note of a sent frame, and of nothing else.
pub open spec fn has_sent(before: FrameLog, after: FrameLog, module: usize, data: Seq<u8>, now: u64) -> bool {
    &&& after.capacity == before.capacity
    &&& after.stats == (FrameStats {
        tx_frames: counter::raised(before.stats.tx_frames, 1),
        tx_bytes: counter::raised(before.stats.tx_bytes, data.len() as u64),
        ..before.stats
    })
    &&& exists|f: RxFrame|
        {
            &&& #[trigger] is_frame(f, module, "tx"@, 0, data, now)
            &&& after.recent@ == pushed(before.recent@, f, before.capacity as nat)
        }
}

// ── The feed of frames ───────────────────────────────────────────────────────

/// What the radio reports.
#[derive(Clone, Debug)]
pub enum FeedEvent {
    Received { module: usize, rssi: i32, frame: Vec<u8> },
    Sent { module: usize, frame: Vec<u8> },
    /// Reports were lost because they were not taken in time.
    Lagged,
    /// There will be no more reports.
    Closed,
}

/// The logs of both modules.
#[derive(Clone, Debug)]
pub struct FrameFeed {
    pub first: FrameLog,
    pub second: FrameLog,
}

impl FrameFeed {
    pub open spec fn wf(&self) -> bool {
        self.first.wf() && self.second.wf()
    }

    /// Two modules that have seen nothing.
    pub fn new(capacity: usize) -> (f: FrameFeed)
        ensures
            f.wf(),
            f.first.capacity == capacity && f.second.capacity == capacity,
            f.first.recent@.len() == 0 && f.second.recent@.len() == 0,
            f.first.stats == (FrameStats { rx_frames: 0, tx_frames: 0, rx_bytes: 0, tx_bytes: 0, last_rssi: 0 }),
            f.second.stats == f.first.stats,
    {
        FrameFeed { first: FrameLog::new(capacity), second: FrameLog::new(capacity) }
    }

    /// Takes note of a report in the log of its module, and tells whether to wait for
    /// the next one.
    pub fn step(&mut self, event: &FeedEvent, now: u64) -> (go_on: bool)
        requires
            old(self).wf(),
        ensures
            final(self).wf(),
            go_on == !(event is Closed),
            match event {
                FeedEvent::Received { module, rssi, frame } => if module_slot(*module) == 0 {
                    has_received(old(self).first, final(self).first, *module, *rssi, frame@, now)
                        && final(self).second == old(self).second
                } else {
                    has_received(old(self).second, final(self).second, *module, *rssi, frame@, now)
                        && final(self).first == old(self).first
                },
                FeedEvent::Sent { module, frame } => if module_slot(*module) == 0 {
                    has_sent(old(self).first, final(self).first, *module, frame@, now) && final(self).second == old(
                        self,
                    ).second
                } else {
                    has_sent(old(self).second, final(self).second, *module, frame@, now) && final(self).first == old(
                        self,
                    ).first
                },
                _ => *final(self) == *old(self),
            },
    {
        match event {
            FeedEvent::Received { module, rssi, frame } => {
                if frame_module(*module) == 0 {
                    self.first.record_rx(*module, *rssi, frame.as_slice(), now);
                } else {
                    self.second.record_rx(*module, *rssi, frame.as_slice(), now);
                }
                true
            },
            FeedEvent::Sent { module, frame } => {
                if frame_module(*module) == 0 {
                    self.first.record_tx(*module, frame.as_slice(), now);
                } else {
                    self.second.record_tx(*module, frame.as_slice(), now);
                }
                true
            },
            FeedEvent::Lagged => true,
            FeedEvent::Closed => false,
        }
    }
}

/// The newest frame is the first that is shown, as long as any are.
pub proof fn law_newest_frame_comes_first(recent: Seq<RxFrame>, frame: RxFrame, capacity: nat)
    requires
        capacity > 0,
    ensures
        pushed(recent, frame, capacity).len() > 0,
        pushed(recent, frame, capacity)[0] == frame,
        pushed(recent, frame, capacity).len() <= if recent.len() < capacity {
            recent.len() + 1
        } else {
            capacity
        },
{
}

// ── What the start comes to ──────────────────────────────────────────────────

/// Where something is set, only the pages are served exactly where it is `1`, `true`, `yes` or `on`, in
/// any case and with any white space around it; where nothing is, everywhere but on a Linux device with
/// a serial number.
pub proof fn law_pages_only_where_told(setting: Option<String>, is_linux: bool, has_serial: bool, r: bool)
    requires
        call_ensures(should_run_webapp_only, (setting, is_linux, has_serial), r),
    ensures
        setting is None ==> (!r <==> is_linux && has_serial),
        setting matches Some(value) ==> {
            let word = text::ascii_lowered(text::trimmed(value@));
            r <==> word == "1"@ || word == "true"@ || word == "yes"@ || word == "on"@
        },
{
}

/// The gateway starts step by step: settings, configuration, identity, radio, mesh, one bridge after the
/// other, and then the pages; without radio and mesh it goes from the configuration to the pages. A step
/// that failed ends the start.
pub proof fn law_start_goes_step_by_step(phase: StartPhase, worked: bool, webapp_only: bool, bridges: usize, r: StartPhase)
    requires
        call_ensures(next_phase, (phase, worked, webapp_only, bridges), r),
    ensures
        !worked ==> r == StartPhase::Failed,
        worked ==> {
            &&& phase == StartPhase::OpenSettings ==> r == StartPhase::LoadConfig
            &&& phase == StartPhase::LoadConfig && webapp_only ==> r == StartPhase::Serve
            &&& phase == StartPhase::LoadConfig && !webapp_only ==> r == StartPhase::LoadSeed
            &&& phase == StartPhase::LoadSeed ==> r == StartPhase::ConnectRadio
            &&& phase == StartPhase::ConnectRadio ==> r == StartPhase::AttachRadio
            &&& phase == StartPhase::AttachRadio && bridges == 0 ==> r == StartPhase::Serve
            &&& phase == StartPhase::AttachRadio && bridges > 0 ==> r == StartPhase::StartBridge(0)
            &&& phase == StartPhase::Serve || phase == StartPhase::Failed ==> r == phase
        },
        worked && phase is StartBridge ==> {
            let i = phase->StartBridge_0;
            &&& i + 1 < bridges ==> r == StartPhase::StartBridge((i + 1) as usize)
            &&& i + 1 >= bridges ==> r == StartPhase::Serve
        },
{
}

/// The serial number is what its file holds, without white space around it; the controller is the one
/// that was asked for.
pub proof fn law_device_is_what_it_says(contents: Option<String>, serial: String, asked: Option<SocketAddress>, ctrl: SocketAddress)
    requires
        call_ensures(serial_text, (contents,), serial),
        call_ensures(ctrl_server, (asked,), ctrl),
    ensures
        contents matches Some(s) ==> serial@ == text::trimmed(s@),
        contents is None ==> serial@ == "unknown"@,
        asked matches Some(a) ==> ctrl == a,
        asked is None ==> ctrl.port == 9090 && ctrl.ip is V4 && ctrl.ip->V4_0@[0] == 192 && ctrl.ip->V4_0@[1] == 168
            && ctrl.ip->V4_0@[2] == 10 && ctrl.ip->V4_0@[3] == 1,
{
}

/// The first module counts for itself, and every other for the second.
pub proof fn law_two_modules_are_counted(module: usize, r: usize)
    requires
        call_ensures(frame_module, (module,), r),
    ensures
        r == 0 <==> module == 0,
        r == 0 || r == 1,
{
}

/// A received frame is counted once with its bytes and its strength, and remembered first, as received,
/// with its module, size, strength, time and first bytes; the frames before it move back by one, and the
/// oldest goes where there is no room.
pub proof fn law_received_frames_are_logged(log: &mut FrameLog, module: usize, rssi: i32, frame: &[u8], now: u64, shown: String, i: int)
    requires
        old(log).wf(),
        old(log).capacity > 0,
        call_ensures(FrameLog::record_rx, (log, module, rssi, frame, now), ()),
        call_ensures(frame_preview, (frame,), shown),
    ensures
        (final(log).stats.rx_frames - old(log).stats.rx_frames - 1) % 0x1_0000_0000_0000_0000 == 0,
        (final(log).stats.rx_bytes - old(log).stats.rx_bytes - frame@.len()) % 0x1_0000_0000_0000_0000 == 0,
        final(log).stats.last_rssi == rssi,
        final(log).stats.tx_frames == old(log).stats.tx_frames && final(log).stats.tx_bytes == old(log).stats.tx_bytes,
        final(log).capacity == old(log).capacity,
        final(log).recent@.len() == if old(log).recent@.len() < old(log).capacity {
            old(log).recent@.len() + 1
        } else {
            old(log).capacity as nat
        },
        ({
            let f = final(log).recent@[0];
            &&& f.direction@ == "rx"@ && f.rssi == rssi && f.len == frame@.len() && f.ts == now && f.hex@ == shown@
            &&& f.module == 0 <==> module == 0
        }),
        0 < i < final(log).recent@.len() ==> final(log).recent@[i] == old(log).recent@[i - 1],
{
    let f = choose|f: RxFrame|
        {
            &&& #[trigger] is_frame(f, module, "rx"@, rssi, frame@, now)
            &&& final(log).recent@ == pushed(old(log).recent@, f, old(log).capacity as nat)
        };
    assert(is_frame(f, module, "rx"@, rssi, frame@, now));
}

/// A sent frame is counted once with its bytes, and remembered first, as sent; what was received stays as
/// it is.
pub proof fn law_sent_frames_are_logged(log: &mut FrameLog, module: usize, frame: &[u8], now: u64, shown: String, i: int)
    requires
        old(log).wf(),
        old(log).capacity > 0,
        call_ensures(FrameLog::record_tx, (log, module, frame, now), ()),
        call_ensures(frame_preview, (frame,), shown),
    ensures
        (final(log).stats.tx_frames - old(log).stats.tx_frames - 1) % 0x1_0000_0000_0000_0000 == 0,
        (final(log).stats.tx_bytes - old(log).stats.tx_bytes - frame@.len()) % 0x1_0000_0000_0000_0000 == 0,
        final(log).stats.rx_frames == old(log).stats.rx_frames && final(log).stats.rx_bytes == old(log).stats.rx_bytes
            && final(log).stats.last_rssi == old(log).stats.last_rssi,
        final(log).capacity == old(log).capacity,
        final(log).recent@.len() == if old(log).recent@.len() < old(log).capacity {
            old(log).recent@.len() + 1
        } else {
            old(log).capacity as nat
        },
        ({
            let f = final(log).recent@[0];
            &&& f.direction@ == "tx"@ && f.len == frame@.len() && f.ts == now && f.hex@ == shown@
            &&& f.module == 0 <==> module == 0
        }),
        0 < i < final(log).recent@.len() ==> final(log).recent@[i] == old(log).recent@[i - 1],
{
    let f = choose|f: RxFrame|
        {
            &&& #[trigger] is_frame(f, module, "tx"@, 0, frame@, now)
            &&& final(log).recent@ == pushed(old(log).recent@, f, old(log).capacity as nat)
        };
    assert(is_frame(f, module, "tx"@, 0, frame@, now));
}

/// A frame is shown by its first eight bytes, or by all of them where it has fewer.
pub proof fn law_frames_show_eight_bytes(data: &[u8], r: String, i: int)
    requires
        call_ensures(frame_preview, (data,), r),
        0 <= i < 8,
        i < data@.len(),
    ensures
        r@.len() == 3 * (if data@.len() < 8 {
            data@.len() as int
        } else {
            8
        }) - 1,
        16 * digits::hex_value(r@[3 * i])->0 + digits::hex_value(r@[3 * i + 1])->0 == data@[i],
{
    let n = if data@.len() < 8 {
        data@.len() as int
    } else {
        8
    };
    atak_bridge::law_spaced_hex(data@.take(n), i);
}

/// What the radio reports of a module is logged for that module and leaves the other alone; the feed goes
/// on until there will be no more reports, whether or not some were lost.
pub proof fn law_reports_go_to_their_module(feed: &mut FrameFeed, event: &FeedEvent, now: u64, go_on: bool)
    requires
        old(feed).wf(),
        call_ensures(FrameFeed::step, (feed, event, now), go_on),
    ensures
        !go_on <==> *event == FeedEvent::Closed,
        *event is Lagged || *event is Closed ==> *final(feed) == *old(feed),
        *event is Received || *event is Sent ==> {
            let module = if *event is Received {
                event->Received_module
            } else {
                event->Sent_module
            };
            let bytes = if *event is Received {
                event->Received_frame@.len()
            } else {
                event->Sent_frame@.len()
            };
            let before = if module == 0 {
                old(feed).first.stats
            } else {
                old(feed).second.stats
            };
            let after = if module == 0 {
                final(feed).first.stats
            } else {
                final(feed).second.stats
            };
            let rx = if *event is Received {
                1int
            } else {
                0int
            };
            &&& module == 0 ==> final(feed).second == old(feed).second
            &&& module != 0 ==> final(feed).first == old(feed).first
            &&& (after.rx_frames - before.rx_frames - rx) % 0x1_0000_0000_0000_0000 == 0
            &&& (after.tx_frames - before.tx_frames - (1 - rx)) % 0x1_0000_0000_0000_0000 == 0
            &&& (after.rx_bytes - before.rx_bytes - rx * bytes) % 0x1_0000_0000_0000_0000 == 0
            &&& (after.tx_bytes - before.tx_bytes - (1 - rx) * bytes) % 0x1_0000_0000_0000_0000 == 0
            &&& *event is Received ==> after.last_rssi == event->Received_rssi
            &&& *event is Sent ==> after.last_rssi == before.last_rssi
        },
{
}

/// Every port has an identity of its own.
pub proof fn law_ports_have_their_own_identity(a: u16, b: u16, x: String, y: String)
    requires
        call_ensures(atak_seed_name, (a,), x),
        call_ensures(atak_seed_name, (b,), y),
    ensures
        x@ == y@ ==> a == b,
        x@.skip(19) == digits::decimal(a as nat),
{
    reveal_strlit("atak_identity_seed_");
    assert(x@.skip(19) =~= digits::decimal(a as nat));
    assert(y@.skip(19) =~= digits::decimal(b as nat));
    digits::lemma_decimal_reads_back(a as nat);
    digits::lemma_decimal_reads_back(b as nat);
}

} // verus!
