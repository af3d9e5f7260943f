//! The packets that carry a voice frame, and raw PCM samples.

use vstd::prelude::*;
use vstd::slice::slice_subrange;

use crate::digits;
use crate::digits::dec_usize;
use crate::text::cat4;

verus! {

/// The first bytes of every voice packet: `KPT2`.
pub const PACKET_MAGIC: [u8; 4] = [0x4B, 0x50, 0x54, 0x32];

/// The number of bytes before the payload of a voice packet.
pub const PACKET_HEADER_LEN: usize = 8;

/// A number as four bytes, the most significant first.
pub open spec fn be_bytes(n: u32) -> Seq<u8> {
    seq![
        (n / 0x100_0000) as u8,
        ((n / 0x1_0000) % 0x100) as u8,
        ((n / 0x100) % 0x100) as u8,
        (n % 0x100) as u8,
    ]
}

/// A voice packet: the magic, the sequence number and the payload.
pub open spec fn packet_bytes(seq: u32, payload: Seq<u8>) -> Seq<u8> {
    PACKET_MAGIC@ + be_bytes(seq) + payload
}

/// The payload of a voice packet; nothing for bytes that are no voice packet.
pub open spec fn packet_payload(packet: Seq<u8>) -> Option<Seq<u8>> {
    if packet.len() >= PACKET_HEADER_LEN && packet.take(4) == PACKET_MAGIC@ {
        Some(packet.skip(PACKET_HEADER_LEN as int))
    } else {
        None
    }
}

/// Builds the voice packet with a sequence number and a payload.
pub fn encode_packet(seq: u32, payload: &[u8]) -> (packet: Vec<u8>)
    ensures
        packet@ == packet_bytes(seq, payload@),
{
    let mut packet: Vec<u8> = Vec::new();
    packet.extend_from_slice(PACKET_MAGIC.as_slice());
    packet.push((seq / 0x100_0000) as u8);
    packet.push(((seq / 0x1_0000) % 0x100) as u8);
    packet.push(((seq / 0x100) % 0x100) as u8);
    packet.push((seq % 0x100) as u8);
    packet.extend_from_slice(payload);
    proof {
        assert(packet@ =~= packet_bytes(seq, payload@));
    }
    packet
}

/// The payload of a voice packet; nothing for bytes that are no voice packet.
pub fn decode_packet(packet: &[u8]) -> (payload: Option<&[u8]>)
    ensures
        match payload {
            Some(p) => packet_payload(packet@) == Some(p@),
            None => packet_payload(packet@) is None,
        },
{
    if packet.len() < PACKET_HEADER_LEN {
        return None;
    }
    let mut i: usize = 0;
    while i < 4
        invariant
            i <= 4,
            packet@.len() >= PACKET_HEADER_LEN,
            forall|k: int| 0 <= k < i ==> packet@[k] == PACKET_MAGIC@[k],
        decreases 4 - i,
    {
        if packet[i] != PACKET_MAGIC[i] {
            proof {
                assert(packet@.take(4)[i as int] != PACKET_MAGIC@[i as int]);
            }
            return None;
        }
        i += 1;
    }
    proof {
        assert(packet@.take(4) =~= PACKET_MAGIC@);
        assert(packet@.subrange(PACKET_HEADER_LEN as int, packet@.len() as int) =~= packet@.skip(PACKET_HEADER_LEN as int));
    }
    Some(slice_subrange(packet, PACKET_HEADER_LEN, packet.len()))
}

/// What is put into a voice packet comes out of it again.
pub proof fn law_packet_round_trip(seq: u32, payload: Seq<u8>)
    ensures
        packet_payload(packet_bytes(seq, payload)) == Some(payload),
{
    let packet = packet_bytes(seq, payload);
    assert(packet.take(4) =~= PACKET_MAGIC@);
    assert(packet.skip(PACKET_HEADER_LEN as int) =~= payload);
}

/// Two voice packets with the same bytes have the same sequence number and payload.
pub proof fn law_packet_determines_contents(seq1: u32, payload1: Seq<u8>, seq2: u32, payload2: Seq<u8>)
    requires
        packet_bytes(seq1, payload1) == packet_bytes(seq2, payload2),
    ensures
        seq1 == seq2,
        payload1 == payload2,
{
    law_packet_round_trip(seq1, payload1);
    law_packet_round_trip(seq2, payload2);
    let packet = packet_bytes(seq1, payload1);
    assert(packet.subrange(4, 8) =~= be_bytes(seq1));
    assert(packet.subrange(4, 8) =~= be_bytes(seq2));
    assert(be_bytes(seq1)[0] == be_bytes(seq2)[0]);
    assert(be_bytes(seq1)[1] == be_bytes(seq2)[1]);
    assert(be_bytes(seq1)[2] == be_bytes(seq2)[2]);
    assert(be_bytes(seq1)[3] == be_bytes(seq2)[3]);
}

/// Bytes that do not start with the magic are no voice packet.
pub proof fn law_wrong_magic_is_rejected(packet: Seq<u8>)
    requires
        packet.take(4) != PACKET_MAGIC@,
    ensures
        packet_payload(packet) is None,
{
}

// ── PCM samples ──────────────────────────────────────────────────────────────

/// The sample that two bytes hold, the least significant first.
pub open spec fn le_sample(lo: u8, hi: u8) -> i16 {
    let n = lo as int + 256 * hi as int;
    if n < 0x8000 {
        n as i16
    } else {
        (n - 0x1_0000) as i16
    }
}

/// The two bytes of a sample, the least significant first.
pub open spec fn sample_bytes(sample: i16) -> Seq<u8> {
    let n = if sample >= 0 {
        sample as int
    } else {
        sample as int + 0x1_0000
    };
    seq![(n % 256) as u8, (n / 256) as u8]
}

/// The samples that raw bytes hold, two bytes each; an odd byte at the end is left.
pub open spec fn pcm_samples(raw: Seq<u8>) -> Seq<i16> {
    Seq::new(raw.len() / 2, |i: int| le_sample(raw[2 * i], raw[2 * i + 1]))
}

/// The sample that two bytes hold, the least significant first.
fn read_sample(lo: u8, hi: u8) -> (r: i16)
    ensures
        r == le_sample(lo, hi),
{
    let n: i32 = lo as i32 + 256 * hi as i32;
    if n < 0x8000 {
        n as i16
    } else {
        (n - 0x1_0000) as i16
    }
}

/// Reads raw bytes as samples.
pub fn decode_pcm(raw: &[u8]) -> (r: Vec<i16>)
    ensures
        r@ == pcm_samples(raw@),
{
    let total: usize = raw.len();
    let n: usize = total / 2;
    let mut out: Vec<i16> = Vec::new();
    let mut i: usize = 0;
    while i < n
        invariant
            total == raw@.len(),
            n == total / 2,
            i <= n,
            out@.len() == i,
            forall|k: int| 0 <= k < i ==> out@[k] == #[trigger] pcm_samples(raw@)[k],
        decreases n - i,
    {
        out.push(read_sample(raw[2 * i], raw[2 * i + 1]));
        i += 1;
    }
    proof {
        assert(out@ =~= pcm_samples(raw@));
    }
    out
}

/// Appends the two bytes of a sample.
pub fn push_sample(out: &mut Vec<u8>, sample: i16)
    ensures
        final(out)@ == old(out)@ + sample_bytes(sample),
{
    let n: i32 = if sample >= 0 {
        sample as i32
    } else {
        sample as i32 + 0x1_0000
    };
    out.push((n % 256) as u8);
    out.push((n / 256) as u8);
    proof {
        assert(out@ =~= old(out)@ + sample_bytes(sample));
    }
}

/// The two bytes of a sample read back as the sample.
pub proof fn law_sample_round_trip(sample: i16)
    ensures
        le_sample(sample_bytes(sample)[0], sample_bytes(sample)[1]) == sample,
{
}

/// A sample is written in two bytes, the low one first, as a number in two's complement.
pub proof fn law_samples_are_little_endian(sample: i16)
    ensures
        sample_bytes(sample).len() == 2,
        (sample_bytes(sample)[0] + 256 * sample_bytes(sample)[1] - sample) % 0x1_0000 == 0,
{
}

/// Raw bytes are read as one sample for every two of them, in order, the low byte first, as
/// numbers in two's complement.
pub proof fn law_pcm_is_little_endian(raw: &[u8], samples: Vec<i16>, i: int)
    requires
        call_ensures(decode_pcm, (raw,), samples),
        0 <= i < samples@.len(),
    ensures
        2 * samples@.len() <= raw@.len() <= 2 * samples@.len() + 1,
        (raw@[2 * i] + 256 * raw@[2 * i + 1] - samples@[i]) % 0x1_0000 == 0,
{
}

/// Samples that were written as bytes one after the other are read back as they were.
pub proof fn law_pcm_reads_back(written: Seq<i16>, raw: &[u8], samples: Vec<i16>)
    requires
        raw@.len() == 2 * written.len(),
        forall|i: int|
            0 <= i < written.len() ==> raw@.subrange(2 * i, 2 * i + 2) == sample_bytes(#[trigger] written[i]),
        call_ensures(decode_pcm, (raw,), samples),
    ensures
        samples@ == written,
{
    assert forall|i: int| 0 <= i < written.len() implies samples@[i] == written[i] by {
        let pair = raw@.subrange(2 * i, 2 * i + 2);
        assert(pair == sample_bytes(written[i]));
        assert(pair[0] == raw@[2 * i] && pair[1] == raw@[2 * i + 1]);
    }
    assert(samples@ =~= written);
}

/// A packet starts with the letters `KPT2`, then has its number, the high byte first, and then
/// the payload as it is, to the last byte.
pub proof fn law_packet_layout(seq: u32, payload: &[u8], packet: Vec<u8>)
    requires
        call_ensures(encode_packet, (seq, payload), packet),
    ensures
        packet@.len() == 8 + payload@.len(),
        packet@[0] == 'K' as u8 && packet@[1] == 'P' as u8 && packet@[2] == 'T' as u8 && packet@[3] == '2' as u8,
        ((packet@[4] * 256 + packet@[5]) * 256 + packet@[6]) * 256 + packet@[7] == seq,
        packet@.skip(8) == payload@,
{
    assert(packet@[4] == be_bytes(seq)[0] && packet@[5] == be_bytes(seq)[1]);
    assert(packet@[6] == be_bytes(seq)[2] && packet@[7] == be_bytes(seq)[3]);
    assert(packet@.skip(8) =~= payload@);
}

/// Bytes are taken for a packet exactly where they are at least eight and start with the letters
/// `KPT2`; what follows the eight is the payload.
pub proof fn law_packet_is_told_by_its_start(packet: &[u8], payload: Option<&[u8]>)
    requires
        call_ensures(decode_packet, (packet,), payload),
    ensures
        payload is Some <==> packet@.len() >= 8 && packet@[0] == 'K' as u8 && packet@[1] == 'P' as u8 && packet@[2]
            == 'T' as u8 && packet@[3] == '2' as u8,
        payload is Some ==> payload->0@ == packet@.skip(8),
{
    let start = packet@.take(4);
    if packet@.len() >= 8 {
        assert(start[0] == packet@[0] && start[1] == packet@[1] && start[2] == packet@[2] && start[3] == packet@[3]);
        if packet@[0] == 'K' as u8 && packet@[1] == 'P' as u8 && packet@[2] == 'T' as u8 && packet@[3] == '2' as u8 {
            assert(start =~= PACKET_MAGIC@);
        }
        if start == PACKET_MAGIC@ {
            assert(PACKET_MAGIC@[0] == 0x4B && PACKET_MAGIC@[1] == 0x50 && PACKET_MAGIC@[2] == 0x54 && PACKET_MAGIC@[3]
                == 0x32);
        }
    }
}

/// What one node packs, another unpacks to the same bytes.
pub proof fn law_packets_carry_their_payload(seq: u32, sent: &[u8], packet: Vec<u8>, wire: &[u8], received: Option<&[u8]>)
    requires
        call_ensures(encode_packet, (seq, sent), packet),
        wire@ == packet@,
        call_ensures(decode_packet, (wire,), received),
    ensures
        received is Some,
        received->0@ == sent@,
{
    law_packet_round_trip(seq, sent@);
}

/// A browser's frame is read exactly where it has two bytes for every sample expected, and then
/// as raw bytes are read.
pub proof fn law_browser_frames_are_read_as_pcm(payload: &[u8], expected: usize, r: Result<Vec<i16>, String>, i: int)
    requires
        call_ensures(decode_browser_pcm, (payload, expected), r),
    ensures
        r is Ok <==> payload@.len() == 2 * expected,
        r is Ok ==> r->Ok_0@.len() == expected,
        r is Ok && 0 <= i < expected ==> (payload@[2 * i] + 256 * payload@[2 * i + 1] - r->Ok_0@[i]) % 0x1_0000 == 0,
{
}

/// The complaint about a browser frame of the wrong size.
pub open spec fn browser_frame_complaint(expected_samples: nat, got: nat) -> Seq<char> {
    "browser audio frame must be exactly "@ + digits::decimal(expected_samples * 2) + " bytes, got "@ + digits::decimal(got)
}

/// Reads a frame sent by a browser, which must hold exactly the expected number of samples.
pub fn decode_browser_pcm(payload: &[u8], expected_samples: usize) -> (r: Result<Vec<i16>, String>)
    requires
        expected_samples * 2 <= usize::MAX,
    ensures
        r is Ok <==> payload@.len() == expected_samples * 2,
        r matches Ok(samples) ==> samples@ == pcm_samples(payload@),
        r matches Err(e) ==> e@ == browser_frame_complaint(expected_samples as nat, payload@.len()),
{
    if payload.len() != expected_samples * 2 {
        return Err(
            cat4(
                "browser audio frame must be exactly ",
                dec_usize(expected_samples * 2).as_str(),
                " bytes, got ",
                dec_usize(payload.len()).as_str(),
            ),
        );
    }
    Ok(decode_pcm(payload))
}

/// A sample is put behind what is there as two bytes, the low one first.
pub proof fn law_samples_are_put_behind(out: &mut Vec<u8>, sample: i16)
    requires
        call_ensures(push_sample, (out, sample), ()),
    ensures
        final(out)@.len() == old(out)@.len() + 2,
        final(out)@.take(old(out)@.len() as int) == old(out)@,
        (final(out)@[old(out)@.len() as int] + 256 * final(out)@[old(out)@.len() as int + 1] - sample) % 0x1_0000 == 0,
{
}

/// A browser's frame of the wrong size is refused with the number of bytes that is wanted, two to a sample,
/// and the number that came.
pub proof fn law_browser_frames_of_the_wrong_size(payload: &[u8], expected: usize, r: Result<Vec<i16>, String>)
    requires
        expected * 2 <= usize::MAX,
        call_ensures(decode_browser_pcm, (payload, expected), r),
    ensures
        r is Err <==> payload@.len() != 2 * expected,
        r matches Err(e) ==> e@ == "browser audio frame must be exactly "@ + digits::decimal((2 * expected) as nat)
            + " bytes, got "@ + digits::decimal(payload@.len()),
{
}

} // verus!
