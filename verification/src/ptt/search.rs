//! The search for a sound device that works: which programs to start with which
//! arguments, and what to do when one of them fails.

use vstd::prelude::*;

use crate::digits;
use crate::digits::{dec, dec_usize};
use crate::ptt::audio;
use crate::ptt::audio::{alsa_device_candidates, playback_format_candidates, PlaybackFormat};
use crate::ptt::config::PluginConfig;
use crate::text;
use crate::text::{cat2, cat4, cat8, is_empty, trim};

verus! {

/// Whether sound is recorded or played.
#[derive(Clone, Copy, Debug, PartialEq, Eq, Structural)]
pub enum Direction {
    Capture,
    Playback,
}

/// One way to open a device: its name and the format to use it in.
#[derive(Clone, Debug)]
pub struct Attempt {
    pub device: String,
    pub format: PlaybackFormat,
}

impl View for Attempt {
    type V = (Seq<char>, PlaybackFormat);

    open spec fn view(&self) -> (Seq<char>, PlaybackFormat) {
        (self.device@, self.format)
    }
}

/// How an attempt failed, with what the system said of it.
#[derive(Clone, Debug)]
pub enum ProbeFailure {
    /// The program could not be started.
    Spawn(String),
    /// The program has no pipe to read from or write to.
    NoPipe,
    /// The silent test frame could not be written.
    ProbeWrite(String),
    /// The program ended by itself.
    ExitedEarly(String),
    /// It is not known whether the program still runs.
    Probe(String),
}

/// What to do next.
#[derive(Clone, Debug)]
pub enum SearchStep {
    /// Start the program for this attempt.
    Try(Attempt),
    /// There is nothing left to try.
    GiveUp(String),
}

/// A search for a device that works.
#[derive(Clone, Debug)]
pub struct DeviceSearch {
    pub direction: Direction,
    pub attempts: Vec<Attempt>,
    pub at: usize,
    pub last_err: Option<String>,
}

/// The attempts of a list, as device names and formats.
pub open spec fn attempt_views(v: Seq<Attempt>) -> Seq<(Seq<char>, PlaybackFormat)> {
    v.map_values(|a: Attempt| a@)
}

/// Every device in every format: all formats of the first device, then of the next.
pub open spec fn pairings(devices: Seq<Seq<char>>, formats: Seq<PlaybackFormat>) -> Seq<(Seq<char>, PlaybackFormat)>
    decreases devices.len(),
{
    if devices.len() == 0 {
        Seq::empty()
    } else {
        pairings(devices.drop_last(), formats) + formats.map_values(|f: PlaybackFormat| (devices.last(), f))
    }
}

/// Every device in every format.
fn pair_up(devices: &[String], formats: &[PlaybackFormat]) -> (r: Vec<Attempt>)
    ensures
        attempt_views(r@) == pairings(text::views(devices@), formats@),
{
    let ghost dv = text::views(devices@);
    let mut out: Vec<Attempt> = Vec::new();
    let mut i: usize = 0;
    proof {
        assert(attempt_views(out@) =~= pairings(dv.take(0), formats@));
    }
    while i < devices.len()
        invariant
            dv == text::views(devices@),
            i <= devices@.len(),
            attempt_views(out@) == pairings(dv.take(i as int), formats@),
        decreases devices@.len() - i,
    {
        let ghost before = attempt_views(out@);
        let ghost name = devices@[i as int]@;
        let ghost row = formats@.map_values(|f: PlaybackFormat| (name, f));
        let mut j: usize = 0;
        while j < formats.len()
            invariant
                i < devices@.len(),
                name == devices@[i as int]@,
                row == formats@.map_values(|f: PlaybackFormat| (name, f)),
                j <= formats@.len(),
                attempt_views(out@) =~= before + row.take(j as int),
            decreases formats@.len() - j,
        {
            let ghost so_far = attempt_views(out@);
            out.push(Attempt { device: devices[i].clone(), format: formats[j] });
            proof {
                assert(attempt_views(out@) =~= so_far.push((name, formats@[j as int])));
                assert(row.take(j + 1) =~= row.take(j as int).push((name, formats@[j as int])));
            }
            j += 1;
        }
        proof {
            assert(row.take(j as int) =~= row);
            assert(dv.take(i + 1).drop_last() =~= dv.take(i as int));
            assert(dv.take(i + 1).last() == name);
        }
        i += 1;
    }
    proof {
        assert(dv.take(i as int) =~= dv);
    }
    out
}

/// Whether an attempt can fail this way: only a device to play on is written to.
pub open spec fn can_fail(direction: Direction, failure: ProbeFailure) -> bool {
    !(direction is Capture && failure is ProbeWrite)
}

/// What is reported of an attempt that failed.
pub open spec fn failure_words(direction: Direction, device: Seq<char>, format: PlaybackFormat, failure: ProbeFailure) -> Seq<char> {
    match (direction, failure) {
        (Direction::Capture, ProbeFailure::Spawn(e)) => "spawn arecord for "@ + device + ": "@ + e@,
        (Direction::Capture, ProbeFailure::NoPipe) => "arecord stdout unavailable for device "@ + device,
        (Direction::Capture, ProbeFailure::ProbeWrite(_)) => Seq::empty(),
        (Direction::Capture, ProbeFailure::ExitedEarly(status)) => "arecord exited early for device "@ + device
            + " with status "@ + status@,
        (Direction::Capture, ProbeFailure::Probe(e)) => "probe arecord on device "@ + device + ": "@ + e@,
        (Direction::Playback, ProbeFailure::Spawn(e)) => "spawn aplay for "@ + device + " rate="@ + digits::decimal(
            format.sample_rate_hz as nat,
        ) + " channels="@ + digits::decimal(format.channels as nat) + ": "@ + e@,
        (Direction::Playback, ProbeFailure::NoPipe) => "aplay stdin unavailable for device "@ + device,
        (Direction::Playback, ProbeFailure::ProbeWrite(e)) => "write playback probe to device "@ + device + " rate="@
            + digits::decimal(format.sample_rate_hz as nat) + " channels="@ + digits::decimal(format.channels as nat)
            + ": "@ + e@,
        (Direction::Playback, ProbeFailure::ExitedEarly(status)) => "aplay exited early for device "@ + device + " rate="@
            + digits::decimal(format.sample_rate_hz as nat) + " channels="@ + digits::decimal(format.channels as nat)
            + " with status "@ + status@,
        (Direction::Playback, ProbeFailure::Probe(e)) => "probe aplay on device "@ + device + " rate="@ + digits::decimal(
            format.sample_rate_hz as nat,
        ) + " channels="@ + digits::decimal(format.channels as nat) + ": "@ + e@,
    }
}

/// What is reported of an attempt that failed.
pub fn describe_failure(direction: Direction, attempt: &Attempt, failure: &ProbeFailure) -> (r: String)
    requires
        can_fail(direction, *failure),
    ensures
        r@ == failure_words(direction, attempt.device@, attempt.format, *failure),
{
    let device = attempt.device.as_str();
    let rate = dec(attempt.format.sample_rate_hz as u64);
    let channels = dec_usize(attempt.format.channels);
    match direction {
        Direction::Capture => match failure {
            ProbeFailure::Spawn(e) => cat4("spawn arecord for ", device, ": ", e.as_str()),
            ProbeFailure::NoPipe => cat2("arecord stdout unavailable for device ", device),
            ProbeFailure::ProbeWrite(_) => String::new(),
            ProbeFailure::ExitedEarly(s) => cat4("arecord exited early for device ", device, " with status ", s.as_str()),
            ProbeFailure::Probe(e) => cat4("probe arecord on device ", device, ": ", e.as_str()),
        },
        Direction::Playback => match failure {
            ProbeFailure::Spawn(e) => cat8(
                "spawn aplay for ",
                device,
                " rate=",
                rate.as_str(),
                " channels=",
                channels.as_str(),
                ": ",
                e.as_str(),
            ),
            ProbeFailure::NoPipe => cat2("aplay stdin unavailable for device ", device),
            ProbeFailure::ProbeWrite(e) => cat8(
                "write playback probe to device ",
                device,
                " rate=",
                rate.as_str(),
                " channels=",
                channels.as_str(),
                ": ",
                e.as_str(),
            ),
            ProbeFailure::ExitedEarly(s) => cat8(
                "aplay exited early for device ",
                device,
                " rate=",
                rate.as_str(),
                " channels=",
                channels.as_str(),
                " with status ",
                s.as_str(),
            ),
            ProbeFailure::Probe(e) => cat8(
                "probe aplay on device ",
                device,
                " rate=",
                rate.as_str(),
                " channels=",
                channels.as_str(),
                ": ",
                e.as_str(),
            ),
        },
    }
}

impl ProbeFailure {
    /// Whether the program was started and may still run, so that it has to be
    /// stopped before the next attempt.
    pub open spec fn spec_leaves_program(self) -> bool {
        !(self is Spawn) && !(self is ExitedEarly)
    }

    /// Whether the program has to be stopped before the next attempt.
    pub fn leaves_program(&self) -> (r: bool)
        ensures
            r == self.spec_leaves_program(),
    {
        match self {
            ProbeFailure::Spawn(_) => false,
            ProbeFailure::ExitedEarly(_) => false,
            _ => true,
        }
    }
}

/// What is said when no attempt was made at all.
pub open spec fn no_candidates(direction: Direction) -> Seq<char> {
    match direction {
        Direction::Capture => "no usable ALSA capture device candidates"@,
        Direction::Playback => "no usable ALSA playback device candidates"@,
    }
}

/// The attempts of a search for a device to record from.
pub open spec fn capture_attempts(cfg: PluginConfig) -> Seq<(Seq<char>, PlaybackFormat)> {
    pairings(
        text::deduped(audio::device_names(cfg.capture_device@)),
        seq![PlaybackFormat { sample_rate_hz: cfg.sample_rate_hz, channels: 1 }],
    )
}

/// The attempts of a search for a device to play on.
pub open spec fn playback_attempts(cfg: PluginConfig) -> Seq<(Seq<char>, PlaybackFormat)> {
    pairings(text::deduped(audio::device_names(cfg.playback_device@)), audio::playback_formats(cfg.sample_rate_hz))
}

impl DeviceSearch {
    /// The attempt that is due, if any is left, and what was last reported.
    pub open spec fn wf(&self) -> bool {
        self.at <= self.attempts@.len()
    }

    /// A search for a device to record voice frames from.
    pub fn capture(cfg: &PluginConfig) -> (s: DeviceSearch)
        ensures
            s.wf(),
            s.direction == Direction::Capture,
            s.at == 0,
            s.last_err is None,
            attempt_views(s.attempts@) == capture_attempts(*cfg),
    {
        let devices = alsa_device_candidates(cfg.capture_device.as_str());
        let mut formats: Vec<PlaybackFormat> = Vec::new();
        formats.push(PlaybackFormat { sample_rate_hz: cfg.sample_rate_hz, channels: 1 });
        proof {
            assert(formats@ =~= seq![PlaybackFormat { sample_rate_hz: cfg.sample_rate_hz, channels: 1 }]);
        }
        let attempts = pair_up(&devices, &formats);
        DeviceSearch { direction: Direction::Capture, attempts, at: 0, last_err: None }
    }

    /// A search for a device to play voice frames on.
    pub fn playback(cfg: &PluginConfig) -> (s: DeviceSearch)
        ensures
            s.wf(),
            s.direction == Direction::Playback,
            s.at == 0,
            s.last_err is None,
            attempt_views(s.attempts@) == playback_attempts(*cfg),
    {
        let devices = alsa_device_candidates(cfg.playback_device.as_str());
        let formats = playback_format_candidates(cfg);
        let attempts = pair_up(&devices, &formats);
        DeviceSearch { direction: Direction::Playback, attempts, at: 0, last_err: None }
    }

    /// What the search gives up with.
    pub open spec fn verdict(&self) -> Seq<char> {
        match self.last_err {
            Some(e) => e@,
            None => no_candidates(self.direction),
        }
    }

    /// What to do next: the attempt that is due, or giving up with the last failure.
    pub fn step(&self) -> (r: SearchStep)
        requires
            self.wf(),
        ensures
            match r {
                SearchStep::Try(a) => self.at < self.attempts@.len() && a@ == self.attempts@[self.at as int]@,
                SearchStep::GiveUp(e) => self.at == self.attempts@.len() && e@ == self.verdict(),
            },
    {
        if self.at < self.attempts.len() {
            let due = &self.attempts[self.at];
            return SearchStep::Try(Attempt { device: due.device.clone(), format: due.format });
        }
        SearchStep::GiveUp(
            match &self.last_err {
                Some(e) => e.clone(),
                None => match self.direction {
                    Direction::Capture => "no usable ALSA capture device candidates".to_owned(),
                    Direction::Playback => "no usable ALSA playback device candidates".to_owned(),
                },
            },
        )
    }

    /// Takes note that the attempt that was due failed, and moves on.
    pub fn failed(&mut self, failure: ProbeFailure)
        requires
            old(self).wf(),
            old(self).at < old(self).attempts@.len(),
            can_fail(old(self).direction, failure),
        ensures
            final(self).wf(),
            final(self).direction == old(self).direction,
            final(self).attempts == old(self).attempts,
            final(self).at == old(self).at + 1,
            final(self).last_err is Some,
            final(self).verdict() == failure_words(
                old(self).direction,
                old(self).attempts@[old(self).at as int].device@,
                old(self).attempts@[old(self).at as int].format,
                failure,
            ),
    {
        let words = describe_failure(self.direction, &self.attempts[self.at], &failure);
        let n: usize = self.attempts.len();
        self.last_err = Some(words);
        assert(self.at < n);
        self.at = self.at + 1;
    }
}

/// A search always has something to try.
pub proof fn law_search_is_not_empty(cfg: PluginConfig)
    ensures
        capture_attempts(cfg).len() > 0,
        playback_attempts(cfg).len() >= 4,
{
    let capture = text::deduped(audio::device_names(cfg.capture_device@));
    let playback = text::deduped(audio::device_names(cfg.playback_device@));
    audio::law_device_candidates(cfg.capture_device@);
    audio::law_device_candidates(cfg.playback_device@);
    assert(pairings(capture, seq![PlaybackFormat { sample_rate_hz: cfg.sample_rate_hz, channels: 1 }]).len() >= 1);
    assert(pairings(playback, audio::playback_formats(cfg.sample_rate_hz)).len() >= 4);
}

// ── Sound programs at work ───────────────────────────────────────────────────

/// Why recording or playing came to an end.
pub fn stream_failed(direction: Direction, err: &str) -> (r: String)
    ensures
        r@ == match direction {
            Direction::Capture => "read arecord frame: "@,
            Direction::Playback => "write aplay frame: "@,
        } + err@,
{
    match direction {
        Direction::Capture => cat2("read arecord frame: ", err),
        Direction::Playback => cat2("write aplay frame: ", err),
    }
}

/// What is noted of a line that a sound program complained with; blank lines are passed
/// over.
pub fn stderr_note(direction: Direction, line: &str) -> (r: Option<String>)
    ensures
        text::view_opt(r) == if text::trimmed(line@).len() == 0 {
            None
        } else {
            Some(
                match direction {
                    Direction::Capture => "arecord: "@,
                    Direction::Playback => "aplay: "@,
                } + text::trimmed(line@),
            )
        },
{
    let message = trim(line);
    if is_empty(message.as_str()) {
        return None;
    }
    Some(
        match direction {
            Direction::Capture => cat2("arecord: ", message.as_str()),
            Direction::Playback => cat2("aplay: ", message.as_str()),
        },
    )
}

// ── Command lines ────────────────────────────────────────────────────────────

/// The arguments of the program that records or plays raw sound.
pub open spec fn program_arguments(device: Seq<char>, format: PlaybackFormat) -> Seq<Seq<char>> {
    seq![
        "-q"@,
        "-D"@,
        device,
        "-f"@,
        "S16_LE"@,
        "-c"@,
        digits::decimal(format.channels as nat),
        "-r"@,
        digits::decimal(format.sample_rate_hz as nat),
        "-t"@,
        "raw"@,
    ]
}

/// The arguments of the program that records or plays raw sound.
pub fn alsa_arguments(attempt: &Attempt) -> (r: Vec<String>)
    ensures
        text::views(r@) == program_arguments(attempt.device@, attempt.format),
{
    let mut out: Vec<String> = Vec::new();
    out.push("-q".to_owned());
    out.push("-D".to_owned());
    out.push(attempt.device.clone());
    out.push("-f".to_owned());
    out.push("S16_LE".to_owned());
    out.push("-c".to_owned());
    out.push(dec_usize(attempt.format.channels));
    out.push("-r".to_owned());
    out.push(dec(attempt.format.sample_rate_hz as u64));
    out.push("-t".to_owned());
    out.push("raw".to_owned());
    proof {
        assert(text::views(out@) =~= program_arguments(attempt.device@, attempt.format));
    }
    out
}

// ── What a search tries ──────────────────────────────────────────────────────

/// A search tries every device in every format: all formats of a device in their order before the next
/// device, and nothing else.
pub proof fn law_every_device_is_tried_in_every_format(
    cfg: &PluginConfig,
    s: DeviceSearch,
    configured: &str,
    devices: Vec<String>,
    formats: Vec<PlaybackFormat>,
    d: int,
    f: int,
)
    requires
        configured@ == cfg.playback_device@,
        call_ensures(DeviceSearch::playback, (cfg,), s),
        call_ensures(alsa_device_candidates, (configured,), devices),
        call_ensures(playback_format_candidates, (cfg,), formats),
        0 <= d < devices@.len(),
        0 <= f < formats@.len(),
    ensures
        s.attempts@.len() == devices@.len() * formats@.len(),
        0 <= d * formats@.len() + f < s.attempts@.len(),
        s.attempts@[d * formats@.len() + f].device@ == devices@[d]@,
        s.attempts@[d * formats@.len() + f].format == formats@[f],
        s.at == 0 && s.last_err is None && s.direction == Direction::Playback,
{
    let dv = text::views(devices@);
    lemma_pairings(dv, formats@, d, f);
    let av = attempt_views(s.attempts@);
    assert(av.len() == s.attempts@.len());
    assert(dv.len() == devices@.len());
    let at = d * formats@.len() + f;
    assert(av[at] == s.attempts@[at]@);
    assert(dv[d] == devices@[d]@);
}

/// A search for a device to record from tries each device once, with one channel at the rate of the
/// voice frames.
pub proof fn law_every_device_is_tried_for_recording(
    cfg: &PluginConfig,
    s: DeviceSearch,
    configured: &str,
    devices: Vec<String>,
    d: int,
)
    requires
        configured@ == cfg.capture_device@,
        call_ensures(DeviceSearch::capture, (cfg,), s),
        call_ensures(alsa_device_candidates, (configured,), devices),
        0 <= d < devices@.len(),
    ensures
        s.attempts@.len() == devices@.len(),
        s.attempts@[d].device@ == devices@[d]@,
        s.attempts@[d].format == (PlaybackFormat { sample_rate_hz: cfg.sample_rate_hz, channels: 1 }),
        s.at == 0 && s.last_err is None && s.direction == Direction::Capture,
{
    let dv = text::views(devices@);
    let formats = seq![PlaybackFormat { sample_rate_hz: cfg.sample_rate_hz, channels: 1 }];
    lemma_pairings(dv, formats, d, 0);
    let av = attempt_views(s.attempts@);
    assert(av.len() == s.attempts@.len());
    assert(dv.len() == devices@.len());
    assert(d * 1 + 0 == d);
    assert(dv.len() * 1 == dv.len());
    assert(av[d] == s.attempts@[d]@);
    assert(dv[d] == devices@[d]@);
}

/// Where a device in a format stands among all attempts.
proof fn lemma_pairings(devices: Seq<Seq<char>>, formats: Seq<PlaybackFormat>, d: int, f: int)
    requires
        0 <= d < devices.len(),
        0 <= f < formats.len(),
    ensures
        pairings(devices, formats).len() == devices.len() * formats.len(),
        0 <= d * formats.len() + f < pairings(devices, formats).len(),
        pairings(devices, formats)[d * formats.len() + f] == (devices[d], formats[f]),
    decreases devices.len(),
{
    let n = devices.len() as int;
    let m = formats.len() as int;
    lemma_pairings_len(devices, formats);
    lemma_pairings_len(devices.drop_last(), formats);
    assert(0 <= d * m && d * m + f < n * m) by (nonlinear_arith)
        requires
            0 <= d < n,
            0 <= f < m,
    ;
    assert((n - 1) * m == n * m - m) by (nonlinear_arith);
    let row = formats.map_values(|x: PlaybackFormat| (devices.last(), x));
    if d < n - 1 {
        lemma_pairings(devices.drop_last(), formats, d, f);
    } else {
        assert(d * m == (n - 1) * m);
        assert(row[f] == (devices.last(), formats[f]));
    }
}

/// How many attempts there are.
proof fn lemma_pairings_len(devices: Seq<Seq<char>>, formats: Seq<PlaybackFormat>)
    ensures
        pairings(devices, formats).len() == devices.len() * formats.len(),
    decreases devices.len(),
{
    let n = devices.len() as int;
    let m = formats.len() as int;
    if n > 0 {
        lemma_pairings_len(devices.drop_last(), formats);
        assert((n - 1) * m + m == n * m) by (nonlinear_arith);
    } else {
        assert(n * m == 0) by (nonlinear_arith)
            requires
                n == 0,
        ;
    }
}

/// A search goes from one attempt to the next and gives up exactly when all have failed, with what was
/// said of the last.
pub proof fn law_search_gives_up_after_the_last(search: &mut DeviceSearch, failure: ProbeFailure, words: String, next: SearchStep)
    requires
        old(search).wf(),
        old(search).at < old(search).attempts@.len(),
        can_fail(old(search).direction, failure),
        call_ensures(DeviceSearch::failed, (search, failure), ()),
        call_ensures(
            describe_failure,
            (old(search).direction, &old(search).attempts@[old(search).at as int], &failure),
            words,
        ),
        call_ensures(DeviceSearch::step, (&*final(search),), next),
    ensures
        next is GiveUp <==> old(search).at + 1 == old(search).attempts@.len(),
        next matches SearchStep::GiveUp(e) ==> e@ == words@,
        next matches SearchStep::Try(a) ==> a.device@ == old(search).attempts@[old(search).at + 1].device@ && a.format == old(
            search,
        ).attempts@[old(search).at + 1].format,
{
}

/// The program is told the device, the channels and the rate of the attempt, and raw samples of sixteen
/// bits with the low byte first.
pub proof fn law_program_is_told_the_attempt(attempt: &Attempt, words: Vec<String>)
    requires
        call_ensures(alsa_arguments, (attempt,), words),
    ensures
        words@.len() == 11,
        words@[0]@ == "-q"@,
        words@[1]@ == "-D"@ && words@[2]@ == attempt.device@,
        words@[3]@ == "-f"@ && words@[4]@ == "S16_LE"@,
        words@[5]@ == "-c"@ && words@[6]@ == digits::decimal(attempt.format.channels as nat),
        words@[7]@ == "-r"@ && words@[8]@ == digits::decimal(attempt.format.sample_rate_hz as nat),
        words@[9]@ == "-t"@ && words@[10]@ == "raw"@,
{
    let wv = text::views(words@);
    assert(wv.len() == words@.len());
    assert forall|i: int| 0 <= i < 11 implies wv[i] == (#[trigger] words@[i])@ by {}
}

/// A program is stopped after every failure but those that show that it is not running: it never
/// started, or it has ended.
pub proof fn law_running_programs_are_stopped(failure: &ProbeFailure, r: bool)
    requires
        call_ensures(ProbeFailure::leaves_program, (failure,), r),
    ensures
        !r <==> *failure is Spawn || *failure is ExitedEarly,
{
}

/// What a stream fails with, and what its program prints, is said of that program; blank lines are not
/// said.
pub proof fn law_programs_are_named(direction: Direction, err: &str, failed: String, line: &str, note: Option<String>)
    requires
        call_ensures(stream_failed, (direction, err), failed),
        call_ensures(stderr_note, (direction, line), note),
    ensures
        direction is Capture ==> failed@ == "read arecord frame: "@ + err@,
        direction is Playback ==> failed@ == "write aplay frame: "@ + err@,
        note is None <==> text::trimmed(line@).len() == 0,
        note is Some && direction is Capture ==> note->0@ == "arecord: "@ + text::trimmed(line@),
        note is Some && direction is Playback ==> note->0@ == "aplay: "@ + text::trimmed(line@),
{
}

} // verus!
