//! Channels between local media applications and nodes on the mesh.
//!
//! A channel pairs a node and a stream with two local addresses: datagrams that
//! arrive on `ingress` are sent to the node, and what the node sends on the stream
//! is delivered to `egress`.

use vstd::prelude::*;

use crate::counter;
use crate::digits;
use crate::mesh;
use crate::mesh::AddressHash;
use crate::net::SocketAddress;
use crate::order;
use crate::order::sort_dedup;
use crate::table::Table;
use crate::text;
use crate::text::{cat2, cat3, cat4, same};

verus! {

/// What a channel is opened with.
#[derive(Clone, Debug)]
pub struct MediaChannelSpec {
    pub stream: u8,
    /// The address that the application sends to.
    pub ingress: SocketAddress,
    /// The address that received packets are delivered to.
    pub egress: SocketAddress,
    /// `voice`, `video` or `custom`.
    pub profile: String,
    pub k: Option<u8>,
    pub m: Option<u8>,
    pub block_timeout_ms: Option<u64>,
    pub latency_ms: Option<u64>,
    /// Datagrams that arrive within this time go into one radio frame.
    pub pack_ms: Option<u64>,
}

/// How a stream is coded and timed. Times are in milliseconds.
#[derive(Clone, Copy, Debug, PartialEq, Eq, Structural)]
pub struct MediaConfig {
    pub stream: u8,
    pub k: u8,
    pub m: u8,
    pub block_timeout_ms: u64,
    pub latency_budget_ms: u64,
    pub pack_window_ms: u64,
}

/// The profile of a channel that names none.
pub fn default_profile() -> (r: String)
    ensures
        r@ == "voice"@,
{
    "voice".to_owned()
}

/// Why a channel cannot be configured.
#[derive(Clone, Debug)]
pub enum MediaSpecError {
    IngressNotLoopback(SocketAddress),
    EgressNotLoopback(SocketAddress),
    UnknownProfile(String),
}

impl MediaSpecError {
    /// The error in words, given the offending address in words.
    pub open spec fn words(self, address: Seq<char>) -> Seq<char> {
        match self {
            MediaSpecError::IngressNotLoopback(_) => "ingress"@ + " must be a loopback address, got "@ + address,
            MediaSpecError::EgressNotLoopback(_) => "egress"@ + " must be a loopback address, got "@ + address,
            MediaSpecError::UnknownProfile(p) => "unknown profile "@ + p@,
        }
    }

    /// The error in words, given the offending address in words.
    pub fn message(&self, address: &str) -> (r: String)
        ensures
            r@ == self.words(address@),
    {
        match self {
            MediaSpecError::IngressNotLoopback(_) => cat3("ingress", " must be a loopback address, got ", address),
            MediaSpecError::EgressNotLoopback(_) => cat3("egress", " must be a loopback address, got ", address),
            MediaSpecError::UnknownProfile(p) => cat2("unknown profile ", p.as_str()),
        }
    }
}

/// A number brought into a range.
pub open spec fn clamped(n: u64, low: u64, high: u64) -> u64 {
    if n < low {
        low
    } else if n > high {
        high
    } else {
        n
    }
}

/// A number brought into a range.
pub fn clamp(n: u64, low: u64, high: u64) -> (r: u64)
    ensures
        r == clamped(n, low, high),
{
    if n < low {
        low
    } else if n > high {
        high
    } else {
        n
    }
}

/// A preset with what a channel asks for put in its place: times within bounds,
/// the rest as it is.
pub open spec fn adjusted(preset: MediaConfig, spec: MediaChannelSpec) -> MediaConfig {
    MediaConfig {
        stream: preset.stream,
        k: match spec.k {
            Some(k) => k,
            None => preset.k,
        },
        m: match spec.m {
            Some(m) => m,
            None => preset.m,
        },
        block_timeout_ms: match spec.block_timeout_ms {
            Some(ms) => clamped(ms, 5, 2000),
            None => preset.block_timeout_ms,
        },
        latency_budget_ms: match spec.latency_ms {
            Some(ms) => clamped(ms, 20, 5000),
            None => preset.latency_budget_ms,
        },
        pack_window_ms: match spec.pack_ms {
            Some(ms) => clamped(ms, 0, 500),
            None => preset.pack_window_ms,
        },
    }
}

impl MediaChannelSpec {
    /// Whether both addresses are on this device.
    pub open spec fn is_local(self) -> bool {
        self.ingress.ip.spec_is_loopback() && self.egress.ip.spec_is_loopback()
    }

    /// The preset that the profile names.
    pub open spec fn preset(self, voice: MediaConfig, video: MediaConfig) -> Option<MediaConfig> {
        if self.profile@ == "voice"@ || self.profile@ == "custom"@ {
            Some(voice)
        } else if self.profile@ == "video"@ {
            Some(video)
        } else {
            None
        }
    }

    /// How the channel's stream is coded and timed, given the presets for the
    /// stream. Both addresses must be loopback ones, so that a channel never
    /// relays to or from another host.
    pub fn config(&self, voice: MediaConfig, video: MediaConfig) -> (r: Result<MediaConfig, MediaSpecError>)
        ensures
            r is Ok ==> self.is_local(),
            if !self.ingress.ip.spec_is_loopback() {
                r == Err::<MediaConfig, MediaSpecError>(MediaSpecError::IngressNotLoopback(self.ingress))
            } else if !self.egress.ip.spec_is_loopback() {
                r == Err::<MediaConfig, MediaSpecError>(MediaSpecError::EgressNotLoopback(self.egress))
            } else {
                match self.preset(voice, video) {
                    None => r matches Err(MediaSpecError::UnknownProfile(p)) && p@ == self.profile@,
                    Some(preset) => r == Ok::<MediaConfig, MediaSpecError>(adjusted(preset, *self)),
                }
            },
    {
        if !self.ingress.ip.is_loopback() {
            return Err(MediaSpecError::IngressNotLoopback(self.ingress));
        }
        if !self.egress.ip.is_loopback() {
            return Err(MediaSpecError::EgressNotLoopback(self.egress));
        }
        let profile = self.profile.as_str();
        let mut config = if same(profile, "voice") || same(profile, "custom") {
            voice
        } else if same(profile, "video") {
            video
        } else {
            return Err(MediaSpecError::UnknownProfile(self.profile.clone()));
        };
        if let Some(k) = self.k {
            config.k = k;
        }
        if let Some(m) = self.m {
            config.m = m;
        }
        if let Some(ms) = self.block_timeout_ms {
            config.block_timeout_ms = clamp(ms, 5, 2000);
        }
        if let Some(ms) = self.latency_ms {
            config.latency_budget_ms = clamp(ms, 20, 5000);
        }
        if let Some(ms) = self.pack_ms {
            config.pack_window_ms = clamp(ms, 0, 500);
        }
        Ok(config)
    }

    /// The same specification again.
    pub fn copy(&self) -> (r: MediaChannelSpec)
        ensures
            r == *self,
    {
        MediaChannelSpec {
            stream: self.stream,
            ingress: self.ingress,
            egress: self.egress,
            profile: self.profile.clone(),
            k: self.k,
            m: self.m,
            block_timeout_ms: self.block_timeout_ms,
            latency_ms: self.latency_ms,
            pack_ms: self.pack_ms,
        }
    }
}

/// Judges a configuration, given what the media transport makes of it.
pub fn check_config(config: MediaConfig, verdict: Result<(), String>) -> (r: Result<MediaConfig, String>)
    ensures
        r == match verdict {
            Ok(()) => Ok::<MediaConfig, String>(config),
            Err(e) => Err::<MediaConfig, String>(e),
        },
{
    match verdict {
        Ok(()) => Ok(config),
        Err(e) => Err(e),
    }
}

/// Why the socket that the application sends to could not be opened.
pub fn bind_failed(address: &str, err: &str) -> (r: String)
    ensures
        r@ == "bind "@ + address@ + ": "@ + err@,
{
    cat4("bind ", address, ": ", err)
}

/// An open channel and what it has carried so far.
#[derive(Clone, Debug)]
pub struct Channel {
    pub node: AddressHash,
    pub spec: MediaChannelSpec,
    pub config: MediaConfig,
    pub datagrams_in: u64,
    pub datagrams_out: u64,
    pub dropped: u64,
}

/// A channel as it is shown.
#[derive(Clone, Debug)]
pub struct MediaChannelDto {
    pub node: String,
    pub stream: u8,
    pub ingress: SocketAddress,
    pub egress: SocketAddress,
    pub profile: String,
    pub k: u8,
    pub m: u8,
    pub datagrams_in: u64,
    pub datagrams_out: u64,
    pub dropped: u64,
}

/// Whether a channel is shown as it is.
pub open spec fn shows_channel(d: MediaChannelDto, c: Channel) -> bool {
    &&& d.node@ == digits::hex_of(c.node@)
    &&& d.stream == c.spec.stream
    &&& d.ingress == c.spec.ingress
    &&& d.egress == c.spec.egress
    &&& d.profile == c.spec.profile
    &&& d.k == c.config.k
    &&& d.m == c.config.m
    &&& d.datagrams_in == c.datagrams_in
    &&& d.datagrams_out == c.datagrams_out
    &&& d.dropped == c.dropped
}

/// Whether one of the channels is shown as it is.
pub open spec fn shows_one_of(d: MediaChannelDto, channels: Map<Seq<char>, Channel>) -> bool {
    exists|key: Seq<char>| #[trigger] channels.contains_key(key) && shows_channel(d, channels[key])
}

/// Whether a channel is shown in a list.
pub open spec fn is_listed(c: Channel, list: Seq<MediaChannelDto>) -> bool {
    exists|i: int| 0 <= i < list.len() && shows_channel(#[trigger] list[i], c)
}

/// Whether every channel is shown in a list.
pub open spec fn lists_all(list: Seq<MediaChannelDto>, channels: Map<Seq<char>, Channel>) -> bool {
    forall|key: Seq<char>| #[trigger] channels.contains_key(key) ==> is_listed(channels[key], list)
}

/// The text by which a channel is kept: the node in hexadecimal, then the stream
/// as one character.
pub open spec fn channel_key(node: Seq<u8>, stream: u8) -> Seq<char> {
    digits::hex_of(node).push(stream as char)
}

/// Writes the text by which a channel is kept.
fn key_text(node: &AddressHash, stream: u8) -> (r: String)
    ensures
        r@ == channel_key(node@, stream),
{
    let mut out = node.to_hex_string();
    out.push(stream as char);
    out
}

/// Different channels are kept under different texts.
pub proof fn law_channels_are_kept_apart(n1: Seq<u8>, s1: u8, n2: Seq<u8>, s2: u8)
    requires
        n1.len() == 16,
        n2.len() == 16,
        channel_key(n1, s1) == channel_key(n2, s2),
    ensures
        n1 == n2,
        s1 == s2,
{
    let k1 = channel_key(n1, s1);
    let k2 = channel_key(n2, s2);
    assert(k1.drop_last() =~= digits::hex_of(n1));
    assert(k2.drop_last() =~= digits::hex_of(n2));
    mesh::law_hash_text_reads_back(n1);
    mesh::law_hash_text_reads_back(n2);
    assert(k1.last() == s1 as char && k2.last() == s2 as char);
}

/// The order in which channels are shown: by node, then by stream.
pub open spec fn listed_before(a: MediaChannelDto, b: MediaChannelDto) -> bool {
    order::text_lt(a.node@, b.node@) || (a.node@ == b.node@ && a.stream < b.stream)
}

/// Texts of the same length decide before the characters that follow them.
proof fn lemma_key_order(p: Seq<char>, q: Seq<char>, c: char, d: char)
    requires
        p.len() == q.len(),
        order::text_lt(p.push(c), q.push(d)),
    ensures
        order::text_lt(p, q) || (p == q && c < d),
    decreases p.len(),
{
    reveal_with_fuel(order::text_lt, 2);
    let pc = p.push(c);
    let qd = q.push(d);
    if p.len() == 0 {
        assert(p =~= q);
        assert(pc[0] == c && qd[0] == d);
        assert(qd.skip(1).len() == 0);
    } else {
        assert(pc[0] == p[0] && qd[0] == q[0]);
        if p[0] == q[0] {
            assert(pc.skip(1) =~= p.skip(1).push(c));
            assert(qd.skip(1) =~= q.skip(1).push(d));
            lemma_key_order(p.skip(1), q.skip(1), c, d);
            if p.skip(1) == q.skip(1) {
                assert(p =~= seq![p[0]] + p.skip(1));
                assert(q =~= seq![q[0]] + q.skip(1));
            }
        }
    }
}

/// The open channels.
pub struct MediaBridge {
    pub channels: Table<Channel>,
}

impl MediaBridge {
    /// Every channel is kept once, under its own node and stream, and none reaches
    /// beyond this device.
    pub open spec fn wf(&self) -> bool {
        &&& self.channels.wf()
        &&& forall|key: Seq<char>| #[trigger]
            self.channels@.contains_key(key) ==> {
                &&& key == channel_key(self.channels@[key].node@, self.channels@[key].spec.stream)
                &&& self.channels@[key].spec.is_local()
            }
    }

    /// Whether a channel is open.
    pub open spec fn is_open(&self, node: Seq<u8>, stream: u8) -> bool {
        self.channels@.contains_key(channel_key(node, stream))
    }

    /// An open channel.
    pub open spec fn channel(&self, node: Seq<u8>, stream: u8) -> Channel {
        self.channels@[channel_key(node, stream)]
    }

    /// A bridge without channels.
    pub fn new() -> (b: MediaBridge)
        ensures
            b.wf(),
            b.channels@ == Map::<Seq<char>, Channel>::empty(),
    {
        MediaBridge { channels: Table::new() }
    }

    /// Claims the place of a channel that could be configured, before it is opened. A
    /// place is claimed once.
    pub fn claim(&mut self, node: AddressHash, spec: MediaChannelSpec, config: MediaConfig) -> (r: Result<(), String>)
        requires
            old(self).wf(),
            spec.is_local(),
        ensures
            final(self).wf(),
            if old(self).is_open(node@, spec.stream) {
                r is Err && r->Err_0@ == "channel already open"@ && final(self).channels@ == old(self).channels@
            } else {
                r is Ok && final(self).channels@ == old(self).channels@.insert(
                    channel_key(node@, spec.stream),
                    (Channel { node, spec, config, datagrams_in: 0, datagrams_out: 0, dropped: 0 }),
                )
            },
    {
        let key = key_text(&node, spec.stream);
        if self.channels.contains_key(key.as_str()) {
            return Err("channel already open".to_owned());
        }
        let _ = self.channels.insert(key, Channel { node, spec, config, datagrams_in: 0, datagrams_out: 0, dropped: 0 });
        Ok(())
    }

    /// Gives a claimed place back, because the channel could not be opened.
    pub fn release(&mut self, node: &AddressHash, stream: u8)
        requires
            old(self).wf(),
        ensures
            final(self).wf(),
            final(self).channels@ == old(self).channels@.remove(channel_key(node@, stream)),
    {
        let _ = self.channels.remove(key_text(node, stream).as_str());
    }

    /// Ends the opening of a channel whose place was claimed: one whose socket or
    /// stream could not be opened gives its place back.
    pub fn start(&mut self, node: &AddressHash, stream: u8, started: Result<(), String>) -> (r: Result<(), String>)
        requires
            old(self).wf(),
        ensures
            final(self).wf(),
            match started {
                Ok(()) => r is Ok,
                Err(e) => r == Err::<(), String>(e),
            },
            final(self).channels@ == match started {
                Ok(()) => old(self).channels@,
                Err(_) => old(self).channels@.remove(channel_key(node@, stream)),
            },
    {
        match started {
            Ok(()) => Ok(()),
            Err(e) => {
                self.release(node, stream);
                Err(e)
            },
        }
    }

    /// Closes a channel; one that is not open cannot be closed.
    pub fn stop(&mut self, node: &AddressHash, stream: u8) -> (r: Result<Channel, String>)
        requires
            old(self).wf(),
        ensures
            final(self).wf(),
            final(self).channels@ == old(self).channels@.remove(channel_key(node@, stream)),
            match r {
                Ok(c) => old(self).is_open(node@, stream) && c == old(self).channel(node@, stream),
                Err(e) => !old(self).is_open(node@, stream) && e@ == "channel not open"@,
            },
    {
        match self.channels.remove(key_text(node, stream).as_str()) {
            Some(c) => Ok(c),
            None => Err("channel not open".to_owned()),
        }
    }

    /// Where what a node sends on a stream is delivered to: always on this device.
    pub fn egress(&self, from: &AddressHash, stream: u8) -> (r: Option<SocketAddress>)
        requires
            self.wf(),
        ensures
            r is Some ==> r->Some_0.ip.spec_is_loopback(),
            r == if self.is_open(from@, stream) {
                Some(self.channel(from@, stream).spec.egress)
            } else {
                None
            },
    {
        match self.channels.get(key_text(from, stream).as_str()) {
            Some(c) => Some(c.spec.egress),
            None => None,
        }
    }

    /// Puts other counts in the place of an open channel's.
    fn set_counts(&mut self, key: String, datagrams_in: u64, datagrams_out: u64, dropped: u64)
        requires
            old(self).wf(),
            old(self).channels@.contains_key(key@),
        ensures
            final(self).wf(),
            final(self).channels@ == old(self).channels@.insert(
                key@,
                (Channel { datagrams_in, datagrams_out, dropped, ..old(self).channels@[key@] }),
            ),
    {
        if let Some(c) = self.channels.remove(key.as_str()) {
            let c = Channel { node: c.node, spec: c.spec, config: c.config, datagrams_in, datagrams_out, dropped };
            let _ = self.channels.insert(key, c);
            proof {
                assert(self.channels@ =~= old(self).channels@.insert(
                    key@,
                    (Channel { datagrams_in, datagrams_out, dropped, ..old(self).channels@[key@] }),
                ));
            }
        }
    }

    /// Takes note of a datagram from the application, and says whether it is to be
    /// sent: one that is empty or too long is dropped.
    pub fn datagram_in(&mut self, node: &AddressHash, stream: u8, len: usize, max_len: usize) -> (forward: bool)
        requires
            old(self).wf(),
        ensures
            final(self).wf(),
            forward == (old(self).is_open(node@, stream) && 0 < len <= max_len),
            final(self).channels@ == if old(self).is_open(node@, stream) {
                let c = old(self).channel(node@, stream);
                old(self).channels@.insert(
                    channel_key(node@, stream),
                    if forward {
                        Channel { datagrams_in: counter::raised(c.datagrams_in, 1), ..c }
                    } else {
                        Channel { dropped: counter::raised(c.dropped, 1), ..c }
                    },
                )
            } else {
                old(self).channels@
            },
    {
        let key = key_text(node, stream);
        match self.channels.get(key.as_str()) {
            None => false,
            Some(c) => {
                let forward = len > 0 && len <= max_len;
                let (ins, outs, dropped): (u64, u64, u64) = (c.datagrams_in, c.datagrams_out, c.dropped);
                if forward {
                    self.set_counts(key, ins.wrapping_add(1), outs, dropped);
                } else {
                    self.set_counts(key, ins, outs, dropped.wrapping_add(1));
                }
                forward
            },
        }
    }

    /// Takes note that a datagram could not be sent to the node.
    pub fn send_failed(&mut self, node: &AddressHash, stream: u8)
        requires
            old(self).wf(),
        ensures
            final(self).wf(),
            final(self).channels@ == if old(self).is_open(node@, stream) {
                let c = old(self).channel(node@, stream);
                old(self).channels@.insert(
                    channel_key(node@, stream),
                    (Channel { dropped: counter::raised(c.dropped, 1), ..c }),
                )
            } else {
                old(self).channels@
            },
    {
        let key = key_text(node, stream);
        if let Some(c) = self.channels.get(key.as_str()) {
            let (ins, outs, dropped): (u64, u64, u64) = (c.datagrams_in, c.datagrams_out, c.dropped);
            self.set_counts(key, ins, outs, dropped.wrapping_add(1));
        }
    }

    /// Takes note that a packet from the node was delivered.
    pub fn delivered(&mut self, from: &AddressHash, stream: u8)
        requires
            old(self).wf(),
        ensures
            final(self).wf(),
            final(self).channels@ == if old(self).is_open(from@, stream) {
                let c = old(self).channel(from@, stream);
                old(self).channels@.insert(
                    channel_key(from@, stream),
                    (Channel { datagrams_out: counter::raised(c.datagrams_out, 1), ..c }),
                )
            } else {
                old(self).channels@
            },
    {
        let key = key_text(from, stream);
        if let Some(c) = self.channels.get(key.as_str()) {
            let (ins, outs, dropped): (u64, u64, u64) = (c.datagrams_in, c.datagrams_out, c.dropped);
            self.set_counts(key, ins, outs.wrapping_add(1), dropped);
        }
    }

    /// The open channels, ordered by node and then by stream.
    pub fn list(&self) -> (list: Vec<MediaChannelDto>)
        requires
            self.wf(),
        ensures
            forall|i: int, j: int| 0 <= i < j < list@.len() ==> listed_before(#[trigger] list@[i], #[trigger] list@[j]),
            forall|i: int| 0 <= i < list@.len() ==> shows_one_of(#[trigger] list@[i], self.channels@),
            forall|key: Seq<char>| #[trigger]
                self.channels@.contains_key(key) ==> exists|i: int|
                    0 <= i < list@.len() && shows_channel(#[trigger] list@[i], self.channels@[key]),
            lists_all(list@, self.channels@),
    {
        let n: usize = self.channels.len();
        let mut keys: Vec<String> = Vec::new();
        let mut i: usize = 0;
        while i < n
            invariant
                n == self.channels.keys().len(),
                i <= n,
                text::views(keys@) =~= self.channels.keys().take(i as int),
            decreases n - i,
        {
            let ghost before = text::views(keys@);
            keys.push(self.channels.key_at(i).clone());
            proof {
                let name = self.channels.keys()[i as int];
                assert(text::views(keys@) =~= before.push(name));
                assert(self.channels.keys().take(i + 1) =~= self.channels.keys().take(i as int).push(name));
            }
            i += 1;
        }
        let sorted = sort_dedup(&keys);
        let ghost sv = text::views(sorted@);
        proof {
            self.channels.lemma_keys();
            assert(text::views(keys@) =~= self.channels.keys());
            assert(forall|key: Seq<char>| sv.contains(key) <==> self.channels@.contains_key(key));
            assert forall|j: int| 0 <= j < sv.len() implies self.channels@.contains_key(#[trigger] sv[j]) by {
                assert(sv.contains(sv[j]));
            }
        }
        let mut list: Vec<MediaChannelDto> = Vec::new();
        let mut k: usize = 0;
        while k < sorted.len()
            invariant
                self.wf(),
                sv == text::views(sorted@),
                order::ascending(sv),
                forall|key: Seq<char>| sv.contains(key) <==> self.channels@.contains_key(key),
                k <= sorted@.len(),
                list@.len() == k,
                forall|j: int| 0 <= j < sv.len() ==> self.channels@.contains_key(#[trigger] sv[j]),
                forall|j: int| 0 <= j < k ==> shows_channel(#[trigger] list@[j], self.channels@[sv[j]]),
            decreases sorted@.len() - k,
        {
            proof {
                assert(sv[k as int] == sorted@[k as int]@);
                assert(self.channels@.contains_key(sv[k as int]));
            }
            if let Some(c) = self.channels.get(sorted[k].as_str()) {
                list.push(
                    MediaChannelDto {
                        node: c.node.to_hex_string(),
                        stream: c.spec.stream,
                        ingress: c.spec.ingress,
                        egress: c.spec.egress,
                        profile: c.spec.profile.clone(),
                        k: c.config.k,
                        m: c.config.m,
                        datagrams_in: c.datagrams_in,
                        datagrams_out: c.datagrams_out,
                        dropped: c.dropped,
                    },
                );
            }
            k += 1;
        }
        proof {
            assert forall|key: Seq<char>| #[trigger] self.channels@.contains_key(key) implies is_listed(
                self.channels@[key],
                list@,
            ) by {
                assert(sv.contains(key));
                let j = choose|j: int| 0 <= j < sv.len() && sv[j] == key;
                assert(shows_channel(list@[j], self.channels@[sv[j]]));
            }
            assert forall|i: int| 0 <= i < list@.len() implies shows_one_of(#[trigger] list@[i], self.channels@) by {
                assert(shows_channel(list@[i], self.channels@[sv[i]]));
                assert(self.channels@.contains_key(sv[i]));
            }
            assert forall|i: int, j: int| 0 <= i < j < list@.len() implies listed_before(
                #[trigger] list@[i],
                #[trigger] list@[j],
            ) by {
                assert(shows_channel(list@[i], self.channels@[sv[i]]));
                assert(shows_channel(list@[j], self.channels@[sv[j]]));
                assert(self.channels@.contains_key(sv[i]));
                assert(self.channels@.contains_key(sv[j]));
                assert(order::text_lt(sv[i], sv[j]));
                let a = self.channels@[sv[i]];
                let b = self.channels@[sv[j]];
                lemma_key_order(
                    digits::hex_of(a.node@),
                    digits::hex_of(b.node@),
                    a.spec.stream as char,
                    b.spec.stream as char,
                );
            }
        }
        list
    }
}

/// A channel whose opening failed leaves the bridge as it was: claiming its place and
/// giving it back change nothing.
pub proof fn law_release_undoes_claim(before: Map<Seq<char>, Channel>, key: Seq<char>, channel: Channel)
    requires
        !before.contains_key(key),
    ensures
        before.insert(key, channel).remove(key) == before,
{
    assert(before.insert(key, channel).remove(key) =~= before);
}

// ── What a channel is for ────────────────────────────────────────────────────

/// A channel is configured exactly where both its addresses are on this device and its profile is
/// known. Voice and custom channels start from the voice preset, video ones from the video preset;
/// what the channel asks for stands in its place, times at the nearest bound where they are beyond
/// one.
pub proof fn law_channels_stay_on_the_device(
    spec: &MediaChannelSpec,
    voice: MediaConfig,
    video: MediaConfig,
    r: Result<MediaConfig, MediaSpecError>,
)
    requires
        call_ensures(MediaChannelSpec::config, (spec, voice, video), r),
    ensures
        r is Ok <==> {
            &&& spec.ingress.ip.spec_is_loopback()
            &&& spec.egress.ip.spec_is_loopback()
            &&& spec.profile@ == "voice"@ || spec.profile@ == "custom"@ || spec.profile@ == "video"@
        },
        !spec.ingress.ip.spec_is_loopback() ==> r == Err::<MediaConfig, MediaSpecError>(
            MediaSpecError::IngressNotLoopback(spec.ingress),
        ),
        spec.ingress.ip.spec_is_loopback() && !spec.egress.ip.spec_is_loopback() ==> r == Err::<MediaConfig, MediaSpecError>(
            MediaSpecError::EgressNotLoopback(spec.egress),
        ),
        r matches Ok(c) ==> {
            let preset = if spec.profile@ == "video"@ {
                video
            } else {
                voice
            };
            &&& c.stream == preset.stream
            &&& spec.k is None ==> c.k == preset.k
            &&& spec.k is Some ==> Some(c.k) == spec.k
            &&& spec.m is None ==> c.m == preset.m
            &&& spec.m is Some ==> Some(c.m) == spec.m
            &&& spec.block_timeout_ms is None ==> c.block_timeout_ms == preset.block_timeout_ms
            &&& spec.block_timeout_ms matches Some(ms) ==> is_nearest(c.block_timeout_ms, ms, 5, 2000)
            &&& spec.latency_ms is None ==> c.latency_budget_ms == preset.latency_budget_ms
            &&& spec.latency_ms matches Some(ms) ==> is_nearest(c.latency_budget_ms, ms, 20, 5000)
            &&& spec.pack_ms is None ==> c.pack_window_ms == preset.pack_window_ms
            &&& spec.pack_ms matches Some(ms) ==> is_nearest(c.pack_window_ms, ms, 0, 500)
        },
{
    reveal_strlit("voice");
    reveal_strlit("custom");
    reveal_strlit("video");
    assert("voice"@[1] != "video"@[1]);
    assert("custom"@.len() != "video"@.len());
}

/// Whether a number is within bounds and, of those that are, the nearest to the one asked for.
pub open spec fn is_nearest(n: u64, asked: u64, low: u64, high: u64) -> bool {
    &&& low <= n <= high
    &&& n < asked ==> n == high
    &&& n > asked ==> n == low
}

/// A channel that was claimed delivers to the address it was opened with, starts with nothing
/// carried, and cannot be claimed again; a place that is taken stays with who has it. Other channels
/// stay as they are.
pub proof fn law_a_place_is_claimed_once(
    bridge: &mut MediaBridge,
    node: AddressHash,
    spec: MediaChannelSpec,
    config: MediaConfig,
    r: Result<(), String>,
    later: &mut MediaBridge,
    other: MediaChannelSpec,
    config2: MediaConfig,
    again: Result<(), String>,
    to: Option<SocketAddress>,
)
    requires
        old(bridge).wf(),
        spec.is_local() && other.is_local(),
        call_ensures(MediaBridge::claim, (bridge, node, spec, config), r),
        *old(later) == *final(bridge),
        other.stream == spec.stream,
        call_ensures(MediaBridge::claim, (later, node, other, config2), again),
        call_ensures(MediaBridge::egress, (&*final(later), &node, spec.stream), to),
    ensures
        r is Ok <==> !old(bridge).is_open(node@, spec.stream),
        again is Err,
        r is Ok ==> to == Some(spec.egress),
        r is Ok ==> final(later).channel(node@, spec.stream) == (Channel {
            node,
            spec,
            config,
            datagrams_in: 0,
            datagrams_out: 0,
            dropped: 0,
        }),
        r is Err ==> final(later).channels@ == old(bridge).channels@,
        forall|n: Seq<u8>, s: u8|
            n.len() == 16 && (n != node@ || s != spec.stream) ==> (final(later).is_open(n, s) <==> old(bridge).is_open(n, s))
                && final(later).channel(n, s) == #[trigger] old(bridge).channel(n, s),
{
    assert(node@.len() == 16);
    assert forall|n: Seq<u8>, s: u8| n.len() == 16 && (n != node@ || s != spec.stream) implies (final(later).is_open(n, s)
        <==> old(bridge).is_open(n, s)) && final(later).channel(n, s) == #[trigger] old(bridge).channel(n, s) by {
        if channel_key(n, s) == channel_key(node@, spec.stream) {
            law_channels_are_kept_apart(n, s, node@, spec.stream);
        }
    }
}

/// A channel that was closed delivers nowhere and can be claimed again; closing tells what the
/// channel was, and is refused exactly where it was not open.
pub proof fn law_closed_channels_are_gone(
    bridge: &mut MediaBridge,
    node: &AddressHash,
    stream: u8,
    r: Result<Channel, String>,
    to: Option<SocketAddress>,
)
    requires
        old(bridge).wf(),
        call_ensures(MediaBridge::stop, (bridge, node, stream), r),
        call_ensures(MediaBridge::egress, (&*final(bridge), node, stream), to),
    ensures
        r is Ok <==> old(bridge).is_open(node@, stream),
        r matches Ok(c) ==> c == old(bridge).channel(node@, stream),
        to is None,
        !final(bridge).is_open(node@, stream),
        forall|key: Seq<char>|
            key != channel_key(node@, stream) ==> (final(bridge).channels@.contains_key(key) <==> #[trigger] old(
                bridge,
            ).channels@.contains_key(key)) && final(bridge).channels@[key] == old(bridge).channels@[key],
{
}

/// A channel whose opening failed can be claimed again, and one that was opened stays.
pub proof fn law_failed_opening_frees_the_place(
    bridge: &mut MediaBridge,
    node: &AddressHash,
    stream: u8,
    started: Result<(), String>,
    r: Result<(), String>,
)
    requires
        old(bridge).wf(),
        call_ensures(MediaBridge::start, (bridge, node, stream, started), r),
    ensures
        r is Ok <==> started is Ok,
        started matches Err(e) ==> r == Err::<(), String>(e) && !final(bridge).is_open(node@, stream),
        started is Ok ==> final(bridge).channels@ == old(bridge).channels@,
{
}

/// A datagram is sent exactly where its channel is open and it is neither empty nor too long. One
/// that is sent counts as taken in, one that is not as dropped, and nothing else is counted.
pub proof fn law_datagrams_are_sent_or_dropped(
    bridge: &mut MediaBridge,
    node: &AddressHash,
    stream: u8,
    len: usize,
    max_len: usize,
    forward: bool,
)
    requires
        old(bridge).wf(),
        call_ensures(MediaBridge::datagram_in, (bridge, node, stream, len, max_len), forward),
    ensures
        forward <==> old(bridge).is_open(node@, stream) && len != 0 && !(len > max_len),
        final(bridge).channels@.dom() == old(bridge).channels@.dom(),
        old(bridge).is_open(node@, stream) ==> {
            let before = old(bridge).channel(node@, stream);
            let after = final(bridge).channel(node@, stream);
            &&& (after.datagrams_in - before.datagrams_in - if forward {
                1int
            } else {
                0int
            }) % 0x1_0000_0000_0000_0000 == 0
            &&& (after.dropped - before.dropped - if forward {
                0int
            } else {
                1int
            }) % 0x1_0000_0000_0000_0000 == 0
            &&& after.datagrams_out == before.datagrams_out
            &&& after.node == before.node && after.spec == before.spec && after.config == before.config
        },
{
    assert(final(bridge).channels@.dom() =~= old(bridge).channels@.dom());
}

/// What could not be sent counts as dropped, and what was delivered as given out; neither changes
/// anything else.
pub proof fn law_each_outcome_is_counted_once(bridge: &mut MediaBridge, other: &mut MediaBridge, node: &AddressHash, stream: u8)
    requires
        old(bridge).wf() && old(other).wf(),
        call_ensures(MediaBridge::send_failed, (bridge, node, stream), ()),
        call_ensures(MediaBridge::delivered, (other, node, stream), ()),
    ensures
        final(bridge).channels@.dom() == old(bridge).channels@.dom(),
        final(other).channels@.dom() == old(other).channels@.dom(),
        old(bridge).is_open(node@, stream) ==> {
            let before = old(bridge).channel(node@, stream);
            let after = final(bridge).channel(node@, stream);
            &&& (after.dropped - before.dropped - 1) % 0x1_0000_0000_0000_0000 == 0
            &&& after.datagrams_in == before.datagrams_in && after.datagrams_out == before.datagrams_out
            &&& after.node == before.node && after.spec == before.spec && after.config == before.config
        },
        old(other).is_open(node@, stream) ==> {
            let before = old(other).channel(node@, stream);
            let after = final(other).channel(node@, stream);
            &&& (after.datagrams_out - before.datagrams_out - 1) % 0x1_0000_0000_0000_0000 == 0
            &&& after.datagrams_in == before.datagrams_in && after.dropped == before.dropped
            &&& after.node == before.node && after.spec == before.spec && after.config == before.config
        },
{
    assert(final(bridge).channels@.dom() =~= old(bridge).channels@.dom());
    assert(final(other).channels@.dom() =~= old(other).channels@.dom());
}

/// Every open channel is listed, with its node, addresses, coding and counts as they are, and nothing
/// is listed that is not open.
pub proof fn law_every_channel_is_listed(bridge: &MediaBridge, list: Vec<MediaChannelDto>, node: Seq<u8>, stream: u8, i: int)
    requires
        bridge.wf(),
        call_ensures(MediaBridge::list, (bridge,), list),
    ensures
        bridge.is_open(node, stream) ==> exists|j: int|
            {
                let d = #[trigger] list@[j];
                let c = bridge.channel(node, stream);
                &&& 0 <= j < list@.len()
                &&& d.node@ == digits::hex_of(c.node@) && d.stream == c.spec.stream
                &&& d.ingress == c.spec.ingress && d.egress == c.spec.egress && d.profile == c.spec.profile
                &&& d.k == c.config.k && d.m == c.config.m
                &&& d.datagrams_in == c.datagrams_in && d.datagrams_out == c.datagrams_out && d.dropped == c.dropped
            },
        0 <= i < list@.len() ==> exists|key: Seq<char>|
            #[trigger] bridge.channels@.contains_key(key) && list@[i].node@ == digits::hex_of(
                bridge.channels@[key].node@,
            ) && list@[i].stream == bridge.channels@[key].spec.stream,
        forall|a: int, b: int|
            0 <= a < b < list@.len() ==> order::text_lt((#[trigger] list@[a]).node@, (#[trigger] list@[b]).node@) || (
            list@[a].node@ == list@[b].node@ && list@[a].stream < list@[b].stream),
{
    if bridge.is_open(node, stream) {
        let key = channel_key(node, stream);
        assert(bridge.channels@.contains_key(key));
        let c = bridge.channel(node, stream);
        assert(lists_all(list@, bridge.channels@));
        assert(is_listed(c, list@));
        let j = choose|j: int| 0 <= j < list@.len() && shows_channel(#[trigger] list@[j], c);
        assert(shows_channel(list@[j], c));
    }
    if 0 <= i < list@.len() {
        assert(shows_one_of(list@[i], bridge.channels@));
    }
    assert forall|a: int, b: int| 0 <= a < b < list@.len() implies order::text_lt(
        (#[trigger] list@[a]).node@,
        (#[trigger] list@[b]).node@,
    ) || (list@[a].node@ == list@[b].node@ && list@[a].stream < list@[b].stream) by {
        assert(listed_before(list@[a], list@[b]));
    }
}

/// A number is brought to the nearest within its bounds.
pub proof fn law_clamp(n: u64, low: u64, high: u64, r: u64)
    requires
        low <= high,
        call_ensures(clamp, (n, low, high), r),
    ensures
        is_nearest(r, n, low, high),
{
}

/// A verdict on settings stands.
pub proof fn law_verdict_stands(config: MediaConfig, verdict: Result<(), String>, r: Result<MediaConfig, String>)
    requires
        call_ensures(check_config, (config, verdict), r),
    ensures
        verdict is Ok ==> r == Ok::<MediaConfig, String>(config),
        verdict matches Err(e) ==> r == Err::<MediaConfig, String>(e),
{
}

/// A place that is given back is free, and every other stays as it was.
pub proof fn law_released_place_is_free(bridge: &mut MediaBridge, node: &AddressHash, stream: u8, other: Seq<char>)
    requires
        old(bridge).wf(),
        call_ensures(MediaBridge::release, (bridge, node, stream), ()),
    ensures
        !final(bridge).is_open(node@, stream),
        other != channel_key(node@, stream) ==> (final(bridge).channels@.contains_key(other) <==> old(
            bridge,
        ).channels@.contains_key(other)) && final(bridge).channels@[other] == old(bridge).channels@[other],
{
}

} // verus!
