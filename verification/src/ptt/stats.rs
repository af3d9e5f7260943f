//! Counters of the push-to-talk plugin.

use vstd::prelude::*;

use crate::counter;

verus! {

/// What the plugin has sent, received and played so far. Counters wrap around.
#[derive(Clone, Debug)]
pub struct Stats {
    pub transmitting: bool,
    pub tx_packets: u64,
    pub rx_packets: u64,
    pub tx_bytes: u64,
    pub rx_bytes: u64,
    pub dropped_rx_while_talking: u64,
    pub playback_drops: u64,
    pub played_frames: u64,
    pub last_played_ts: u64,
    pub last_played_samples: u64,
    pub last_playback_error_ts: u64,
    pub browser_session_seq: u64,
    pub seq: u64,
    pub last_remote: Option<String>,
    pub last_playback_error: Option<String>,
}

/// The counters before anything has happened.
pub open spec fn no_stats() -> Stats {
    Stats {
        transmitting: false,
        tx_packets: 0,
        rx_packets: 0,
        tx_bytes: 0,
        rx_bytes: 0,
        dropped_rx_while_talking: 0,
        playback_drops: 0,
        played_frames: 0,
        last_played_ts: 0,
        last_played_samples: 0,
        last_playback_error_ts: 0,
        browser_session_seq: 0,
        seq: 0,
        last_remote: None,
        last_playback_error: None,
    }
}

impl Default for Stats {
    fn default() -> (s: Stats)
        ensures
            s == no_stats(),
    {
        Stats {
            transmitting: false,
            tx_packets: 0,
            rx_packets: 0,
            tx_bytes: 0,
            rx_bytes: 0,
            dropped_rx_while_talking: 0,
            playback_drops: 0,
            played_frames: 0,
            last_played_ts: 0,
            last_played_samples: 0,
            last_playback_error_ts: 0,
            browser_session_seq: 0,
            seq: 0,
            last_remote: None,
            last_playback_error: None,
        }
    }
}

impl Stats {
    /// Takes note that a frame was played.
    pub fn record_played_frame(&mut self, sample_count: usize, now: u64)
        ensures
            *final(self) == (Stats {
                played_frames: counter::raised(old(self).played_frames, 1),
                last_played_samples: sample_count as u64,
                last_played_ts: now,
                ..*old(self)
            }),
    {
        self.played_frames = self.played_frames.wrapping_add(1);
        self.last_played_samples = sample_count as u64;
        self.last_played_ts = now;
    }

    /// Takes note that playing failed.
    pub fn record_playback_error(&mut self, detail: String, now: u64)
        ensures
            *final(self) == (Stats {
                last_playback_error: Some(detail),
                last_playback_error_ts: now,
                ..*old(self)
            }),
    {
        self.last_playback_error = Some(detail);
        self.last_playback_error_ts = now;
    }

    /// The number of the next browser session: one more than the last.
    pub fn next_browser_session_id(&mut self) -> (id: u64)
        requires
            old(self).browser_session_seq < u64::MAX,
        ensures
            id == old(self).browser_session_seq + 1,
            *final(self) == (Stats { browser_session_seq: id, ..*old(self) }),
    {
        self.browser_session_seq = self.browser_session_seq + 1;
        self.browser_session_seq
    }

    /// The sequence number for the next packet: the low half of the counter.
    pub fn next_packet_seq(&mut self) -> (seq: u32)
        ensures
            seq == old(self).seq % 0x1_0000_0000,
            *final(self) == (Stats { seq: counter::raised(old(self).seq, 1), ..*old(self) }),
    {
        let seq: u32 = (self.seq % 0x1_0000_0000) as u32;
        self.seq = self.seq.wrapping_add(1);
        seq
    }
}

/// Packets are numbered one after the other: the next number follows the last, and starts again
/// at zero after the largest.
pub proof fn law_packets_are_numbered_in_order(stats: &mut Stats, first: u32, later: &mut Stats, second: u32)
    requires
        call_ensures(Stats::next_packet_seq, (stats,), first),
        *old(later) == *final(stats),
        call_ensures(Stats::next_packet_seq, (later,), second),
    ensures
        second == if first < u32::MAX {
            first + 1
        } else {
            0
        },
        *final(later) == (Stats { seq: final(later).seq, ..*old(stats) }),
{
}

/// The first packet has the number zero.
pub proof fn law_numbering_starts_at_zero(stats: &mut Stats, first: u32)
    requires
        call_ensures(<Stats as Default>::default, (), *old(stats)),
        call_ensures(Stats::next_packet_seq, (stats,), first),
    ensures
        first == 0,
        !final(stats).transmitting,
{
}

/// No two browser sessions have the same number, and zero is none.
pub proof fn law_browser_sessions_differ(stats: &mut Stats, first: u64, later: &mut Stats, second: u64)
    requires
        call_ensures(Stats::next_browser_session_id, (stats,), first),
        old(later).browser_session_seq >= final(stats).browser_session_seq,
        call_ensures(Stats::next_browser_session_id, (later,), second),
    ensures
        0 < first < second,
        *final(stats) == (Stats { browser_session_seq: first, ..*old(stats) }),
{
}

/// A played frame is counted once and remembered with its size and time; it says nothing of
/// errors, and an error says nothing of frames.
pub proof fn law_playback_is_recorded(stats: &mut Stats, samples: usize, failed: &mut Stats, detail: String, now: u64)
    requires
        call_ensures(Stats::record_played_frame, (stats, samples, now), ()),
        call_ensures(Stats::record_playback_error, (failed, detail, now), ()),
    ensures
        (final(stats).played_frames - old(stats).played_frames - 1) % 0x1_0000_0000_0000_0000 == 0,
        final(stats).last_played_samples == samples,
        final(stats).last_played_ts == now,
        final(stats).last_playback_error == old(stats).last_playback_error,
        final(stats).rx_packets == old(stats).rx_packets && final(stats).tx_packets == old(stats).tx_packets,
        final(failed).last_playback_error == Some(detail),
        final(failed).last_playback_error_ts == now,
        final(failed).played_frames == old(failed).played_frames,
        final(failed).last_played_ts == old(failed).last_played_ts,
{
}

/// Before anything has happened everything counts zero, nobody was heard, and nothing went wrong.
pub proof fn law_counting_starts_at_zero(s: Stats)
    requires
        call_ensures(Stats::default, (), s),
    ensures
        !s.transmitting,
        s.tx_packets == 0 && s.rx_packets == 0 && s.tx_bytes == 0 && s.rx_bytes == 0,
        s.dropped_rx_while_talking == 0 && s.playback_drops == 0 && s.played_frames == 0,
        s.last_played_ts == 0 && s.last_played_samples == 0 && s.last_playback_error_ts == 0,
        s.browser_session_seq == 0 && s.seq == 0,
        s.last_remote is None && s.last_playback_error is None,
{
}

/// Sessions are numbered one after the other, so that no two have the same number.
pub proof fn law_sessions_are_numbered(s: &mut Stats, first: u64, later: &mut Stats, second: u64)
    requires
        old(s).browser_session_seq < u64::MAX - 1,
        call_ensures(Stats::next_browser_session_id, (s,), first),
        *old(later) == *final(s),
        call_ensures(Stats::next_browser_session_id, (later,), second),
    ensures
        first > old(s).browser_session_seq,
        second == first + 1,
        final(s).transmitting == old(s).transmitting && final(s).tx_packets == old(s).tx_packets && final(s).seq == old(
            s,
        ).seq,
{
}

} // verus!
