//! Sound devices, playback formats and sample conversion.

use vstd::prelude::*;

use crate::ptt::config;
use crate::ptt::config::PluginConfig;
use crate::ptt::packet;
use crate::ptt::packet::push_sample;
use crate::text;
use crate::text::{cat2, dedup, from_range, is_empty, lines, same, starts_with, to_ascii_lower, to_chars, trim};

verus! {

/// Voice has one channel.
pub const CHANNELS: usize = 1;

/// How long a sound program gets to fail after it was started, in milliseconds.
pub const ALSA_STARTUP_PROBE_MS: u64 = 250;

/// A rate and a number of channels to play sound with.
#[derive(Clone, Copy, Debug, PartialEq, Eq, Structural)]
pub struct PlaybackFormat {
    pub sample_rate_hz: u32,
    pub channels: usize,
}

/// The sound devices of a node.
#[derive(Debug, Clone)]
pub struct AudioDevices {
    pub capture: Vec<String>,
    pub playback: Vec<String>,
}

/// The number of samples in one frame.
pub open spec fn samples_in_frame(cfg: PluginConfig) -> nat {
    (cfg.sample_rate_hz as nat) * (cfg.frame_ms as nat) / 1000
}

/// The number of samples in one frame.
pub fn frame_samples(cfg: &PluginConfig) -> (r: usize)
    requires
        cfg.sample_rate_hz * cfg.frame_ms <= usize::MAX,
    ensures
        r == samples_in_frame(*cfg),
{
    ((cfg.sample_rate_hz as usize) * (cfg.frame_ms as usize)) / 1000
}

/// The number of bytes in one frame.
pub fn frame_bytes(cfg: &PluginConfig) -> (r: usize)
    requires
        cfg.sample_rate_hz * cfg.frame_ms <= usize::MAX,
    ensures
        r == 2 * samples_in_frame(*cfg),
{
    frame_samples(cfg) * CHANNELS * 2
}

/// Valid settings give frames of the size that the voice codec takes.
pub proof fn law_valid_frames_fit_the_codec(cfg: PluginConfig)
    requires
        config::config_complaint(cfg) is None,
    ensures
        samples_in_frame(cfg) == 160,
{
}

// ── Listing devices ──────────────────────────────────────────────────────────

/// Whether a line of a device listing names a device: it is not blank and not indented.
pub open spec fn names_device(line: Seq<char>) -> bool {
    text::trimmed(line).len() > 0 && line[0] != ' ' && line[0] != '\t'
}

/// The devices that the lines of a listing name.
pub open spec fn devices_of(listing: Seq<Seq<char>>) -> Seq<Seq<char>>
    decreases listing.len(),
{
    if listing.len() == 0 {
        Seq::empty()
    } else {
        let before = devices_of(listing.drop_last());
        if names_device(listing.last()) {
            before.push(text::trimmed(listing.last()))
        } else {
            before
        }
    }
}

/// Trimming an empty text leaves nothing.
proof fn lemma_trim_empty(s: Seq<char>)
    requires
        s.len() == 0,
    ensures
        text::trimmed(s).len() == 0,
{
}

/// Reads the devices out of the text of a listing.
pub fn parse_devices(listing: &str) -> (r: Vec<String>)
    ensures
        text::views(r@) == devices_of(text::lines_of(listing@)),
{
    let all = lines(listing);
    let ghost av = text::views(all@);
    let mut out: Vec<String> = Vec::new();
    let mut i: usize = 0;
    proof {
        assert(text::views(out@) =~= devices_of(av.take(0)));
    }
    while i < all.len()
        invariant
            av == text::views(all@),
            i <= all@.len(),
            text::views(out@) == devices_of(av.take(i as int)),
        decreases all@.len() - i,
    {
        let ghost before = text::views(out@);
        let name = trim(all[i].as_str());
        let chars = to_chars(all[i].as_str());
        proof {
            assert(av.take(i + 1).drop_last() =~= av.take(i as int));
            assert(av.take(i + 1).last() == all@[i as int]@);
            if chars@.len() == 0 {
                lemma_trim_empty(chars@);
            }
        }
        if !is_empty(name.as_str()) && chars[0] != ' ' && chars[0] != '\t' {
            out.push(name);
            proof {
                assert(text::views(out@) =~= before.push(text::trimmed(all@[i as int]@)));
            }
        }
        i += 1;
    }
    proof {
        assert(av.take(i as int) =~= av);
    }
    out
}

/// What a program that lists devices did.
#[derive(Clone, Debug)]
pub struct Listing {
    /// Whether it could be run and succeeded.
    pub succeeded: bool,
    pub stdout: Vec<u8>,
}

/// The devices that a program listed; none where it failed.
pub open spec fn listed_devices(listing: Listing) -> Seq<Seq<char>> {
    if listing.succeeded {
        devices_of(text::lines_of(text::utf8_lossy(listing.stdout@)))
    } else {
        Seq::empty()
    }
}

/// The devices that a program listed; none where it failed.
pub fn list_linux_devices(listing: &Listing) -> (r: Vec<String>)
    ensures
        text::views(r@) == listed_devices(*listing),
{
    if listing.succeeded {
        parse_devices(text::from_utf8_lossy(listing.stdout.as_slice()).as_str())
    } else {
        let none: Vec<String> = Vec::new();
        proof {
            assert(text::views(none@) =~= Seq::empty());
        }
        none
    }
}

/// The devices of a node: those that the programs for recording and playing listed on
/// Linux, and stand-ins elsewhere.
pub fn list_devices(is_linux: bool, recorders: &Listing, players: &Listing) -> (r: AudioDevices)
    ensures
        text::views(r.capture@) == if is_linux {
            listed_devices(*recorders)
        } else {
            seq!["mock-capture"@]
        },
        text::views(r.playback@) == if is_linux {
            listed_devices(*players)
        } else {
            seq!["mock-playback"@]
        },
{
    if is_linux {
        return AudioDevices { capture: list_linux_devices(recorders), playback: list_linux_devices(players) };
    }
    let mocks = AudioDevices {
        capture: vec!["mock-capture".to_owned()],
        playback: vec!["mock-playback".to_owned()],
    };
    proof {
        assert(text::views(mocks.capture@) =~= seq!["mock-capture"@]);
        assert(text::views(mocks.playback@) =~= seq!["mock-playback"@]);
    }
    mocks
}

// ── Which device to open ─────────────────────────────────────────────────────

/// The device names to try for a configured device, before doubles are left out.
pub open spec fn device_names(configured: Seq<char>) -> Seq<Seq<char>> {
    let trimmed = text::trimmed(configured);
    let name = if trimmed.len() == 0 {
        "default"@
    } else {
        trimmed
    };
    let lower = text::ascii_lowered(name);
    if text::begins_with(name, "plughw:"@) || text::begins_with(name, "plug:"@) {
        seq![name]
    } else if text::begins_with(name, "hw:"@) {
        seq!["plughw:"@ + name.skip(3), name]
    } else if lower == "default"@ || text::begins_with(lower, "default:"@) {
        seq![
            "plughw:0,0"@,
            "sysdefault:CARD=Audio"@,
            "default:CARD=Audio"@,
            "plug:default"@,
            "default"@,
            "plug:sysdefault"@,
            "sysdefault"@,
        ]
    } else if lower == "sysdefault"@ || text::begins_with(lower, "sysdefault:"@) {
        seq![
            "plughw:0,0"@,
            "sysdefault:CARD=Audio"@,
            "default:CARD=Audio"@,
            "plug:"@ + name,
            name,
            "plug:default"@,
            "default"@,
        ]
    } else if name.contains(':') {
        seq!["plug:"@ + name, name]
    } else {
        seq![name, "plug:"@ + name]
    }
}

/// The device names to try for a configured device, in order, none of them twice.
pub fn alsa_device_candidates(configured: &str) -> (r: Vec<String>)
    ensures
        text::views(r@) == text::deduped(device_names(configured@)),
{
    let trimmed = trim(configured);
    let name = if is_empty(trimmed.as_str()) {
        "default".to_owned()
    } else {
        trimmed
    };
    let lower = to_ascii_lower(name.as_str());
    let chars = to_chars(name.as_str());
    let colon: usize = text::find_from(&chars, ':', 0);
    let mut out: Vec<String> = Vec::new();
    if starts_with(name.as_str(), "plughw:") || starts_with(name.as_str(), "plug:") {
        out.push(name);
    } else if starts_with(name.as_str(), "hw:") {
        proof {
            reveal_strlit("hw:");
            assert(chars@.subrange(3, chars@.len() as int) =~= name@.skip(3));
        }
        let rest = from_range(&chars, 3, chars.len());
        out.push(cat2("plughw:", rest.as_str()));
        out.push(name);
    } else if same(lower.as_str(), "default") || starts_with(lower.as_str(), "default:") {
        out.push("plughw:0,0".to_owned());
        out.push("sysdefault:CARD=Audio".to_owned());
        out.push("default:CARD=Audio".to_owned());
        out.push("plug:default".to_owned());
        out.push("default".to_owned());
        out.push("plug:sysdefault".to_owned());
        out.push("sysdefault".to_owned());
    } else if same(lower.as_str(), "sysdefault") || starts_with(lower.as_str(), "sysdefault:") {
        out.push("plughw:0,0".to_owned());
        out.push("sysdefault:CARD=Audio".to_owned());
        out.push("default:CARD=Audio".to_owned());
        out.push(cat2("plug:", name.as_str()));
        out.push(name);
        out.push("plug:default".to_owned());
        out.push("default".to_owned());
    } else if colon < chars.len() {
        out.push(cat2("plug:", name.as_str()));
        out.push(name);
    } else {
        let plugged = cat2("plug:", name.as_str());
        out.push(name);
        out.push(plugged);
    }
    proof {
        assert(text::views(out@) =~= device_names(configured@));
    }
    dedup(out)
}

/// There is always a device to try, and none is tried twice.
pub proof fn law_device_candidates(configured: Seq<char>)
    ensures
        text::deduped(device_names(configured)).len() > 0,
        text::deduped(device_names(configured)).no_duplicates(),
{
    text::lemma_deduped(device_names(configured));
}

// ── Which format to play in ──────────────────────────────────────────────────

/// The formats that are tried first, whatever the rate of the voice frames.
pub open spec fn standard_formats() -> Seq<PlaybackFormat> {
    seq![
        PlaybackFormat { sample_rate_hz: 48_000, channels: 2 },
        PlaybackFormat { sample_rate_hz: 48_000, channels: 1 },
        PlaybackFormat { sample_rate_hz: 32_000, channels: 2 },
        PlaybackFormat { sample_rate_hz: 32_000, channels: 1 },
    ]
}

/// The formats to try, in order: the standard ones, then the frames' own rate
/// with one channel unless that is among them.
pub open spec fn playback_formats(rate: u32) -> Seq<PlaybackFormat> {
    let own = PlaybackFormat { sample_rate_hz: rate, channels: 1 };
    if standard_formats().contains(own) {
        standard_formats()
    } else {
        standard_formats().push(own)
    }
}

/// The formats to try, in order, none of them twice.
pub fn playback_format_candidates(cfg: &PluginConfig) -> (r: Vec<PlaybackFormat>)
    ensures
        r@ == playback_formats(cfg.sample_rate_hz),
{
    let mut out: Vec<PlaybackFormat> = Vec::new();
    out.push(PlaybackFormat { sample_rate_hz: 48_000, channels: 2 });
    out.push(PlaybackFormat { sample_rate_hz: 48_000, channels: 1 });
    out.push(PlaybackFormat { sample_rate_hz: 32_000, channels: 2 });
    out.push(PlaybackFormat { sample_rate_hz: 32_000, channels: 1 });
    let own = PlaybackFormat { sample_rate_hz: cfg.sample_rate_hz, channels: 1 };
    proof {
        assert(out@ =~= standard_formats());
        if own.sample_rate_hz == 48_000 {
            assert(standard_formats()[1] == own);
        } else if own.sample_rate_hz == 32_000 {
            assert(standard_formats()[3] == own);
        }
    }
    if own.sample_rate_hz != 48_000 && own.sample_rate_hz != 32_000 {
        out.push(own);
    }
    out
}

// ── Sample conversion ────────────────────────────────────────────────────────

/// Samples at another rate: each place takes the sample that was played at its
/// time. There is at least one sample unless there was none to begin with.
pub open spec fn resampled(input: Seq<i16>, from: u32, to: u32) -> Seq<i16> {
    if from == to || input.len() == 0 {
        input
    } else {
        let scaled = input.len() * to / (from as int);
        let len = if scaled < 1 {
            1
        } else {
            scaled
        };
        Seq::new(
            len as nat,
            |i: int|
                {
                    let at = i * from / (to as int);
                    input[if at < input.len() {
                        at
                    } else {
                        input.len() - 1
                    }]
                },
        )
    }
}

/// Whether the numbers that resampling computes fit the machine.
pub open spec fn can_resample(input: Seq<i16>, from: u32, to: u32) -> bool {
    from == to || input.len() == 0 || {
        &&& from > 0
        &&& to > 0
        &&& input.len() * to <= u64::MAX
        &&& input.len() * to / (from as int) <= usize::MAX
    }
}

/// Brings samples to another rate.
pub fn resample_mono_pcm(input: &[i16], input_rate_hz: u32, output_rate_hz: u32) -> (r: Vec<i16>)
    requires
        can_resample(input@, input_rate_hz, output_rate_hz),
    ensures
        r@ == resampled(input@, input_rate_hz, output_rate_hz),
{
    if input_rate_hz == output_rate_hz || input.len() == 0 {
        return vstd::slice::slice_to_vec(input);
    }
    let n: u64 = input.len() as u64;
    let scaled: u64 = n * (output_rate_hz as u64) / (input_rate_hz as u64);
    let output_len: usize = if scaled < 1 {
        1
    } else {
        scaled as usize
    };
    let ghost from = input_rate_hz as int;
    let ghost to = output_rate_hz as int;
    let mut output: Vec<i16> = Vec::new();
    let mut index: usize = 0;
    while index < output_len
        invariant
            input_rate_hz != output_rate_hz,
            input@.len() > 0,
            input_rate_hz > 0,
            output_rate_hz > 0,
            n == input@.len(),
            n * output_rate_hz <= u64::MAX,
            output_len == if n * output_rate_hz / (input_rate_hz as int) < 1 {
                1
            } else {
                n * output_rate_hz / (input_rate_hz as int)
            },
            index <= output_len,
            output@.len() == index,
            forall|k: int| 0 <= k < index ==> output@[k] == #[trigger] resampled(input@, input_rate_hz, output_rate_hz)[k],
        decreases output_len - index,
    {
        proof {
            let total = n * output_rate_hz;
            let rate = input_rate_hz as int;
            let at = index as int;
            if total / rate >= 1 {
                assert(at * rate <= total) by (nonlinear_arith)
                    requires
                        0 <= at < total / rate,
                        rate > 0,
                        total >= 0,
                ;
            } else {
                assert(at * rate == 0) by (nonlinear_arith)
                    requires
                        at == 0,
                ;
            }
            assert(at * rate >= 0) by (nonlinear_arith)
                requires
                    at >= 0,
                    rate > 0,
            ;
        }
        let source: u64 = (index as u64) * (input_rate_hz as u64) / (output_rate_hz as u64);
        let sample: i16 = if source < n {
            input[source as usize]
        } else {
            input[input.len() - 1]
        };
        output.push(sample);
        index += 1;
    }
    proof {
        assert(output@ =~= resampled(input@, input_rate_hz, output_rate_hz));
    }
    output
}

/// Whether the sample at `i`, at the rate `from`, is heard when the place `k` begins at the rate
/// `to`: it begins no later, and ends after that moment.
pub open spec fn is_heard_at(i: int, from: u32, k: int, to: u32) -> bool {
    i * to <= k * from < (i + 1) * to
}

/// Resampling keeps the time at which each sample is heard: what stands at `k` of the result
/// is the sample whose span at the old rate holds the moment at which `k` begins at the new
/// one. This holds for every pair of rates and every place.
pub proof fn law_resampling_keeps_time(input: &[i16], from: u32, to: u32, out: Vec<i16>, k: int, i: int)
    requires
        from > 0,
        to > 0,
        call_ensures(resample_mono_pcm, (input, from, to), out),
        0 <= k < out@.len(),
        0 <= i < input@.len(),
        is_heard_at(i, from, k, to),
    ensures
        out@[k] == input@[i],
{
    let t = to as int;
    let f = from as int;
    if from == to {
        assert(i == k) by (nonlinear_arith)
            requires
                f > 0,
                i * f <= k * f,
                k * f < (i + 1) * f,
        ;
    } else {
        lemma_quotient(k * f, t, i);
    }
}

/// Every place of a resampled frame holds some sample of the frame; the frame is as long as the
/// new rate needs for the same time, rounded down, but never empty unless it was.
pub proof fn law_resampled_frame_takes_the_same_time(input: &[i16], from: u32, to: u32, out: Vec<i16>, k: int)
    requires
        from > 0,
        to > 0,
        call_ensures(resample_mono_pcm, (input, from, to), out),
    ensures
        input@.len() == 0 <==> out@.len() == 0,
        input@.len() > 0 ==> out@.len() * from <= input@.len() * to || out@.len() == 1,
        input@.len() * to < (out@.len() + 1) * from,
        0 <= k < out@.len() ==> exists|i: int|
            0 <= i < input@.len() && #[trigger] is_heard_at(i, from, k, to) && out@[k] == input@[i],
{
    let n = input@.len() as int;
    let t = to as int;
    let f = from as int;
    let len = out@.len() as int;
    if from != to && n > 0 {
        let scaled = n * t / f;
        lemma_bounds(n * t, f);
        assert(n * t >= 0) by (nonlinear_arith)
            requires
                n > 0,
                t > 0,
        ;
        if scaled < 1 {
            assert(n * t < 2 * f);
        }
    } else {
        assert(n * f < (n + 1) * f) by (nonlinear_arith)
            requires
                f > 0,
        ;
        if n == 0 {
            assert(n * t < (len + 1) * f) by (nonlinear_arith)
                requires
                    n == 0,
                    len == 0,
                    f > 0,
            ;
        }
    }
    if 0 <= k < out@.len() {
        let i = k * f / t;
        lemma_bounds(k * f, t);
        assert(k * f >= 0) by (nonlinear_arith)
            requires
                k >= 0,
                f > 0,
        ;
        assert(0 <= i) by (nonlinear_arith)
            requires
                k * f >= 0,
                t > 0,
                k * f < (i + 1) * t,
        ;
        assert(n > 0);
        if from == to {
            assert(i == k) by (nonlinear_arith)
                requires
                    f > 0,
                    i * f <= k * f,
                    k * f < (i + 1) * f,
            ;
        } else {
            if k == 0 {
                assert(k * f == 0) by (nonlinear_arith)
                    requires
                        k == 0,
                ;
                lemma_quotient(0, t, 0);
                assert(i == 0);
            } else {
                assert(k * f < n * t) by (nonlinear_arith)
                    requires
                        k + 1 <= len,
                        len * f <= n * t,
                        f > 0,
                ;
                assert(i < n) by (nonlinear_arith)
                    requires
                        i * t <= k * f,
                        k * f < n * t,
                        t > 0,
                ;
            }
        }
        assert(is_heard_at(i, from, k, to));
    }
}

/// Brought to a rate `r` times as high, every sample is heard `r` times over, one after the other.
pub proof fn law_whole_multiples_repeat_samples(input: &[i16], from: u32, to: u32, out: Vec<i16>, r: int, i: int, j: int)
    requires
        from > 0,
        to == r * from,
        call_ensures(resample_mono_pcm, (input, from, to), out),
        0 <= i < input@.len(),
        0 <= j < r,
    ensures
        out@.len() == r * input@.len(),
        0 <= r * i + j < out@.len(),
        out@[r * i + j] == input@[i],
{
    let n = input@.len() as int;
    let f = from as int;
    let t = to as int;
    let k = r * i + j;
    assert(t > 0) by (nonlinear_arith)
        requires
            t == r * f,
            r > 0,
            f > 0,
    ;
    if from == to {
        assert(r == 1) by (nonlinear_arith)
            requires
                f > 0,
                f == r * f,
        ;
        assert(r * n == n && r * i + j == i) by (nonlinear_arith)
            requires
                r == 1,
                j == 0,
        ;
    } else {
        assert(n * t == (r * n) * f) by (nonlinear_arith)
            requires
                t == r * f,
        ;
        assert((r * n) * f < (r * n + 1) * f) by (nonlinear_arith)
            requires
                f > 0,
        ;
        lemma_quotient(n * t, f, r * n);
        assert(r * n >= 1) by (nonlinear_arith)
            requires
                r >= 1,
                n >= 1,
        ;
        assert(0 <= k < r * n) by (nonlinear_arith)
            requires
                k == r * i + j,
                0 <= j < r,
                0 <= i < n,
        ;
        assert(i * t <= k * f < (i + 1) * t) by (nonlinear_arith)
            requires
                k == r * i + j,
                0 <= j < r,
                t == r * f,
                f > 0,
        ;
        assert(is_heard_at(i, from, k, to));
        law_resampling_keeps_time(input, from, to, out, k, i);
    }
}

/// A quotient is the number whose multiple is the last that is not above the dividend.
proof fn lemma_quotient(a: int, b: int, q: int)
    requires
        b > 0,
        q * b <= a < (q + 1) * b,
    ensures
        a / b == q,
{
    lemma_bounds(a, b);
    let p = a / b;
    assert(p == q) by (nonlinear_arith)
        requires
            b > 0,
            q * b <= a < (q + 1) * b,
            p * b <= a < (p + 1) * b,
    ;
}

/// A quotient's multiple is not above the dividend, and the next one is.
proof fn lemma_bounds(a: int, b: int)
    requires
        b > 0,
    ensures
        (a / b) * b <= a < (a / b + 1) * b,
{
    vstd::arithmetic::div_mod::lemma_fundamental_div_mod(a, b);
    let q = a / b;
    assert(b * q == q * b && (q + 1) * b == q * b + b) by (nonlinear_arith);
}

/// A sample's bytes once for each channel.
pub open spec fn repeated(sample: i16, channels: nat) -> Seq<u8>
    decreases channels,
{
    if channels == 0 {
        Seq::empty()
    } else {
        repeated(sample, (channels - 1) as nat) + packet::sample_bytes(sample)
    }
}

/// Samples as raw bytes, each on every channel.
pub open spec fn interleaved(samples: Seq<i16>, channels: nat) -> Seq<u8>
    decreases samples.len(),
{
    if samples.len() == 0 {
        Seq::empty()
    } else {
        interleaved(samples.drop_last(), channels) + repeated(samples.last(), channels)
    }
}

/// Turns a voice frame into raw bytes at the rate and with the channels of the
/// playback device.
pub fn convert_playback_frame(
    input: &[i16],
    input_rate_hz: u32,
    output_rate_hz: u32,
    output_channels: usize,
) -> (raw: Vec<u8>)
    requires
        can_resample(input@, input_rate_hz, output_rate_hz),
    ensures
        raw@ == interleaved(resampled(input@, input_rate_hz, output_rate_hz), output_channels as nat),
{
    let samples = resample_mono_pcm(input, input_rate_hz, output_rate_hz);
    let mut raw: Vec<u8> = Vec::new();
    let mut i: usize = 0;
    while i < samples.len()
        invariant
            i <= samples@.len(),
            raw@ == interleaved(samples@.take(i as int), output_channels as nat),
        decreases samples@.len() - i,
    {
        let sample: i16 = samples[i];
        let ghost before = raw@;
        let mut c: usize = 0;
        while c < output_channels
            invariant
                c <= output_channels,
                raw@ == before + repeated(sample, c as nat),
            decreases output_channels - c,
        {
            push_sample(&mut raw, sample);
            c += 1;
            proof {
                assert(raw@ =~= before + repeated(sample, c as nat));
            }
        }
        i += 1;
        proof {
            assert(samples@.take(i as int).drop_last() =~= samples@.take(i - 1));
        }
    }
    proof {
        assert(samples@.take(i as int) =~= samples@);
    }
    raw
}

/// Every sample takes two bytes on each channel.
pub proof fn law_playback_frame_size(samples: Seq<i16>, channels: nat)
    ensures
        interleaved(samples, channels).len() == 2 * samples.len() * channels,
    decreases samples.len(),
{
    if samples.len() > 0 {
        law_playback_frame_size(samples.drop_last(), channels);
        lemma_repeated_size(samples.last(), channels);
        let n = samples.len();
        assert(2 * (n - 1) * channels + 2 * channels == 2 * n * channels) by (nonlinear_arith)
            requires
                n >= 1,
        ;
    } else {
        assert(2 * samples.len() * channels == 0) by (nonlinear_arith)
            requires
                samples.len() == 0,
        ;
    }
}

/// Each sample stands in the frame once for every channel, the channels side by side: the
/// sample at `i` takes the two bytes of channel `c` in the group of its channels.
pub proof fn law_playback_sample_position(samples: Seq<i16>, channels: nat, i: int, c: int)
    requires
        0 <= i < samples.len(),
        0 <= c < channels,
    ensures
        0 <= 2 * (i * channels + c),
        2 * (i * channels + c) + 2 <= interleaved(samples, channels).len(),
        interleaved(samples, channels).subrange(2 * (i * channels + c), 2 * (i * channels + c) + 2)
            == packet::sample_bytes(samples[i]),
    decreases samples.len(),
{
    let group: int = i * channels;
    let n: int = samples.len() as int;
    let head = interleaved(samples.drop_last(), channels);
    let tail = repeated(samples.last(), channels);
    law_playback_frame_size(samples.drop_last(), channels);
    lemma_repeated_size(samples.last(), channels);
    assert(0 <= group) by (nonlinear_arith)
        requires
            0 <= i,
            0 <= channels,
            group == i * channels,
    ;
    if i < n - 1 {
        law_playback_sample_position(samples.drop_last(), channels, i, c);
        lemma_subrange_of_sum(head, tail, 2 * (group + c));
    } else {
        assert(head.len() == 2 * group) by (nonlinear_arith)
            requires
                head.len() == 2 * (n - 1) * channels,
                group == i * channels,
                i == n - 1,
        ;
        lemma_repeated_position(samples.last(), channels, c);
        lemma_subrange_of_sum(head, tail, 2 * (group + c));
    }
}

/// Two bytes of two sequences put together stand in the one or the other.
proof fn lemma_subrange_of_sum(head: Seq<u8>, tail: Seq<u8>, at: int)
    requires
        0 <= at,
        at + 2 <= head.len() || head.len() <= at,
        at + 2 <= head.len() + tail.len(),
    ensures
        (head + tail).subrange(at, at + 2) == if at + 2 <= head.len() {
            head.subrange(at, at + 2)
        } else {
            tail.subrange(at - head.len(), at - head.len() + 2)
        },
{
    if at + 2 <= head.len() {
        assert((head + tail).subrange(at, at + 2) =~= head.subrange(at, at + 2));
    } else {
        assert((head + tail).subrange(at, at + 2) =~= tail.subrange(at - head.len(), at - head.len() + 2));
    }
}

/// Silence in the voice frames' own format.
pub open spec fn silence(n: nat) -> Seq<i16> {
    Seq::new(n, |i: int| 0i16)
}

/// One frame of silence in the voice frames' own format.
pub fn silent_frame(cfg: &PluginConfig) -> (r: Vec<i16>)
    requires
        cfg.sample_rate_hz * cfg.frame_ms <= usize::MAX,
    ensures
        r@ == silence(samples_in_frame(*cfg)),
{
    let n: usize = frame_samples(cfg);
    let mut out: Vec<i16> = Vec::new();
    let mut i: usize = 0;
    while i < n
        invariant
            i <= n,
            out@ =~= silence(i as nat),
        decreases n - i,
    {
        out.push(0);
        i += 1;
    }
    out
}

/// Whether one frame can be brought to a format.
pub open spec fn can_probe(cfg: PluginConfig, format: PlaybackFormat) -> bool {
    &&& cfg.sample_rate_hz * cfg.frame_ms <= usize::MAX
    &&& can_resample(silence(samples_in_frame(cfg)), cfg.sample_rate_hz, format.sample_rate_hz)
}

/// The silent frame that a device is tested with.
pub fn probe_frame(cfg: &PluginConfig, format: &PlaybackFormat) -> (raw: Vec<u8>)
    requires
        can_probe(*cfg, *format),
    ensures
        raw@ == interleaved(
            resampled(silence(samples_in_frame(*cfg)), cfg.sample_rate_hz, format.sample_rate_hz),
            format.channels as nat,
        ),
{
    let frame = silent_frame(cfg);
    convert_playback_frame(frame.as_slice(), cfg.sample_rate_hz, format.sample_rate_hz, format.channels)
}

/// A voice frame is played in time and on every channel: at `k` of the played frame, each of the
/// channels holds, in two bytes with the low one first, the sample that is heard at that moment.
pub proof fn law_playback_is_heard_in_time(
    input: &[i16],
    from: u32,
    to: u32,
    channels: usize,
    raw: Vec<u8>,
    samples: Vec<i16>,
    k: int,
    i: int,
    c: int,
)
    requires
        from > 0,
        to > 0,
        call_ensures(convert_playback_frame, (input, from, to, channels), raw),
        call_ensures(resample_mono_pcm, (input, from, to), samples),
        0 <= k < samples@.len(),
        0 <= i < input@.len(),
        is_heard_at(i, from, k, to),
        0 <= c < channels,
    ensures
        raw@.len() == 2 * samples@.len() * channels,
        0 <= 2 * (k * channels + c) < raw@.len() - 1,
        (raw@[2 * (k * channels + c)] + 256 * raw@[2 * (k * channels + c) + 1] - input@[i]) % 0x1_0000 == 0,
{
    law_resampling_keeps_time(input, from, to, samples, k, i);
    law_playback_frame_size(samples@, channels as nat);
    law_playback_sample_position(samples@, channels as nat, k, c);
    let at = 2 * (k * channels + c);
    let pair = raw@.subrange(at, at + 2);
    assert(pair[0] == raw@[at] && pair[1] == raw@[at + 1]);
    packet::law_samples_are_little_endian(input@[i]);
}

/// The formats are tried from the most to the least demanding: the higher rates first, and two
/// channels before one. The frames' own rate is always among them, and no format twice.
pub proof fn law_formats_are_tried_in_order(cfg: &PluginConfig, formats: Vec<PlaybackFormat>)
    requires
        call_ensures(playback_format_candidates, (cfg,), formats),
    ensures
        formats@.no_duplicates(),
        formats@.contains(PlaybackFormat { sample_rate_hz: cfg.sample_rate_hz, channels: 1 }),
        forall|rate: u32, channels: usize|
            (rate == 48_000 || rate == 32_000) && (channels == 1 || channels == 2) ==> #[trigger] formats@.contains(
                PlaybackFormat { sample_rate_hz: rate, channels },
            ),
        forall|i: int|
            0 <= i < formats@.len() ==> (#[trigger] formats@[i]).sample_rate_hz == cfg.sample_rate_hz && formats@[i].channels
                == 1 || ((formats@[i].sample_rate_hz == 48_000 || formats@[i].sample_rate_hz == 32_000) && (
            formats@[i].channels == 1 || formats@[i].channels == 2)),
        forall|i: int, j: int|
            0 <= i < j < 4 ==> (#[trigger] formats@[i]).sample_rate_hz > (#[trigger] formats@[j]).sample_rate_hz || (
            formats@[i].sample_rate_hz == formats@[j].sample_rate_hz && formats@[i].channels > formats@[j].channels),
{
    let own = PlaybackFormat { sample_rate_hz: cfg.sample_rate_hz, channels: 1 };
    if !standard_formats().contains(own) {
        assert(formats@[4] == own);
        assert forall|i: int| 0 <= i < 4 implies #[trigger] formats@[i] != own by {
            assert(standard_formats()[i] == formats@[i]);
        }
    }
    assert(formats@[0] == (PlaybackFormat { sample_rate_hz: 48_000, channels: 2 }));
    assert(formats@[1] == (PlaybackFormat { sample_rate_hz: 48_000, channels: 1 }));
    assert(formats@[2] == (PlaybackFormat { sample_rate_hz: 32_000, channels: 2 }));
    assert(formats@[3] == (PlaybackFormat { sample_rate_hz: 32_000, channels: 1 }));
}

/// A frame holds the samples of its length: at 1000 frames of one millisecond to the second,
/// `frame_ms` of them, rounded down; and two bytes for each.
pub proof fn law_frame_lasts_its_length(cfg: &PluginConfig, samples: usize, bytes: usize)
    requires
        call_ensures(frame_samples, (cfg,), samples),
        call_ensures(frame_bytes, (cfg,), bytes),
    ensures
        samples * 1000 <= cfg.sample_rate_hz * cfg.frame_ms < (samples + 1) * 1000,
        bytes == 2 * samples,
{
}

/// Silence stays silent, at whatever rate it is played.
pub proof fn law_silence_stays_silent(n: nat, from: u32, to: u32)
    requires
        can_resample(silence(n), from, to),
    ensures
        forall|i: int| 0 <= i < resampled(silence(n), from, to).len() ==> #[trigger] resampled(silence(n), from, to)[i] == 0,
{
    assert forall|i: int| 0 <= i < resampled(silence(n), from, to).len() implies #[trigger] resampled(
        silence(n),
        from,
        to,
    )[i] == 0 by {
        if from != to && n > 0 {
            let at = i * from / (to as int);
            assert(at >= 0) by (nonlinear_arith)
                requires
                    i >= 0,
                    from >= 0,
                    to > 0,
                    at == i * from / (to as int),
            ;
        }
    }
}

/// A valid frame can be played in every format that is tried.
pub proof fn law_valid_frames_can_be_played(cfg: PluginConfig, format: PlaybackFormat)
    requires
        config::config_complaint(cfg) is None,
        playback_formats(cfg.sample_rate_hz).contains(format),
    ensures
        can_probe(cfg, format),
{
    let rate = format.sample_rate_hz;
    let all = playback_formats(cfg.sample_rate_hz);
    let i = choose|i: int| 0 <= i < all.len() && all[i] == format;
    assert(rate == 48_000 || rate == 32_000 || rate == 8_000);
    assert(silence(samples_in_frame(cfg)).len() == 160);
    assert(160 * rate <= 7_680_000);
}

proof fn lemma_repeated_position(sample: i16, channels: nat, c: int)
    requires
        0 <= c < channels,
    ensures
        repeated(sample, channels).subrange(2 * c, 2 * c + 2) == packet::sample_bytes(sample),
    decreases channels,
{
    let last = packet::sample_bytes(sample);
    lemma_repeated_size(sample, (channels - 1) as nat);
    lemma_subrange_of_sum(repeated(sample, (channels - 1) as nat), last, 2 * c);
    if c < channels - 1 {
        lemma_repeated_position(sample, (channels - 1) as nat, c);
    } else {
        assert(last.subrange(0, 2) =~= last);
    }
}

proof fn lemma_repeated_size(sample: i16, channels: nat)
    ensures
        repeated(sample, channels).len() == 2 * channels,
    decreases channels,
{
    if channels > 0 {
        lemma_repeated_size(sample, (channels - 1) as nat);
    }
}

// ── Which devices are found and tried ────────────────────────────────────────

/// The devices are the lines of a listing that are neither blank nor start with a space or a tab, in
/// their order and without white space around them.
pub proof fn law_devices_are_the_lines_at_the_margin(listing: &str, r: Vec<String>)
    requires
        call_ensures(parse_devices, (listing,), r),
    ensures
        text::views(r@) == text::lines_of(listing@).filter(
            |line: Seq<char>| text::trimmed(line).len() > 0 && line[0] != ' ' && line[0] != '\t',
        ).map_values(|line: Seq<char>| text::trimmed(line)),
{
    lemma_devices(text::lines_of(listing@));
}

/// The devices of a listing are the trimmed lines at the margin.
proof fn lemma_devices(rows: Seq<Seq<char>>)
    ensures
        devices_of(rows) == rows.filter(
            |line: Seq<char>| text::trimmed(line).len() > 0 && line[0] != ' ' && line[0] != '\t',
        ).map_values(|line: Seq<char>| text::trimmed(line)),
    decreases rows.len(),
{
    reveal(Seq::filter);
    let keep = |line: Seq<char>| text::trimmed(line).len() > 0 && line[0] != ' ' && line[0] != '\t';
    let trim = |line: Seq<char>| text::trimmed(line);
    if rows.len() == 0 {
        assert(rows.filter(keep).map_values(trim) =~= Seq::empty());
    } else {
        let before = rows.drop_last();
        lemma_devices(before);
        assert(before.filter(keep).push(rows.last()).map_values(trim) =~= before.filter(keep).map_values(trim).push(
            trim(rows.last()),
        ));
    }
}

/// A program that failed listed nothing; one that succeeded listed what it printed.
pub proof fn law_failed_listings_are_empty(listing: &Listing, r: Vec<String>, printed: &str, devices: Vec<String>)
    requires
        call_ensures(list_linux_devices, (listing,), r),
        printed@ == text::utf8_lossy(listing.stdout@),
        call_ensures(parse_devices, (printed,), devices),
    ensures
        !listing.succeeded ==> r@.len() == 0,
        listing.succeeded ==> text::views(r@) == text::views(devices@),
{
    assert(text::views(r@).len() == r@.len());
}

/// What records is listed by the one program and what plays by the other.
pub proof fn law_recorders_and_players_are_kept_apart(recorders: &Listing, players: &Listing, r: AudioDevices, c: Vec<String>, p: Vec<String>)
    requires
        call_ensures(list_devices, (true, recorders, players), r),
        call_ensures(list_linux_devices, (recorders,), c),
        call_ensures(list_linux_devices, (players,), p),
    ensures
        text::views(r.capture@) == text::views(c@),
        text::views(r.playback@) == text::views(p@),
{
}

/// Which devices are tried for a configured one. White space around the name does not matter, and a
/// blank name stands for `default`. A device behind a plug is tried as it is and alone; a bare hardware
/// device is tried behind a plug first; the default devices are tried through the first card first; any
/// other device is tried as it is and behind a plug, a named one first as it is, one with a colon first
/// behind the plug.
pub proof fn law_configured_device_is_tried(configured: &str, r: Vec<String>)
    requires
        call_ensures(alsa_device_candidates, (configured,), r),
    ensures
        ({
            let trimmed = text::trimmed(configured@);
            let name = if trimmed.len() == 0 {
                "default"@
            } else {
                trimmed
            };
            let tried = text::views(r@);
            let plugged = text::begins_with(name, "plughw:"@) || text::begins_with(name, "plug:"@);
            let bare = text::begins_with(name, "hw:"@);
            let lower = text::ascii_lowered(name);
            let usual = lower == "default"@ || text::begins_with(lower, "default:"@);
            let system = lower == "sysdefault"@ || text::begins_with(lower, "sysdefault:"@);
            &&& tried.len() > 0 && tried.no_duplicates()
            &&& plugged ==> tried == seq![name]
            &&& !plugged && bare ==> tried[0] == "plughw:"@ + name.skip(3) && tried.contains(name)
            &&& !plugged && !bare && (usual || system) ==> tried[0] == "plughw:0,0"@ && tried.contains("default"@)
                && tried.contains("plug:default"@)
            &&& !plugged && !bare && !usual ==> tried.contains(name)
            &&& !plugged && !bare && !usual ==> tried.contains("plug:"@ + name)
            &&& !plugged && !bare && !usual && !system && !name.contains(':') ==> tried[0] == name
            &&& !plugged && !bare && !usual && !system && name.contains(':') ==> tried[0] == "plug:"@ + name
        }),
{
    let names = device_names(configured@);
    text::lemma_deduped(names);
    let trimmed = text::trimmed(configured@);
    let name = if trimmed.len() == 0 {
        "default"@
    } else {
        trimmed
    };
    let tried = text::views(r@);
    assert(names[0] == tried[0]);
    assert(forall|s: Seq<char>| tried.contains(s) <==> names.contains(s));
    if names.len() == 1 {
        assert(names.drop_last().len() == 0);
        reveal_with_fuel(text::deduped, 2);
        assert(tried =~= seq![names[0]]);
    }
    if names.len() == 2 {
        assert(names.contains(names[0]) && names.contains(names[1]));
    }
    if names.len() == 7 {
        assert(names.contains(names[3]) && names.contains(names[4]) && names.contains(names[5]) && names.contains(names[6]));
    }
}

/// A silent frame has as many samples as any frame, all of them zero.
pub proof fn law_silent_frame(cfg: &PluginConfig, r: Vec<i16>, samples: usize, i: int)
    requires
        cfg.sample_rate_hz * cfg.frame_ms <= usize::MAX,
        call_ensures(silent_frame, (cfg,), r),
        call_ensures(frame_samples, (cfg,), samples),
    ensures
        r@.len() == samples,
        0 <= i < r@.len() ==> r@[i] == 0,
{
}

/// Voice has one channel, and a device has a quarter of a second to start.
pub proof fn law_voice_has_one_channel()
    ensures
        CHANNELS == 1,
        4 * ALSA_STARTUP_PROBE_MS == 1000,
{
}

} // verus!
