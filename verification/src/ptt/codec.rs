//! The voice codec: Codec2 at 3200 bits per second.

use vstd::prelude::*;

use crate::digits;
use crate::digits::dec_usize;
use crate::ptt::config::PluginConfig;
use crate::text::cat4;

verus! {

/// The outside type `codec2::Codec2`: one direction of a voice codec, with the
/// state it carries from frame to frame.
#[verifier::external_type_specification]
#[verifier::external_body]
pub struct ExCodec2(codec2::Codec2);

/// What `Codec2::samples_per_frame` returns for a codec.
pub uninterp spec fn codec2_samples(codec: codec2::Codec2) -> nat;

/// What `Codec2::bits_per_frame` returns for a codec.
pub uninterp spec fn codec2_bits(codec: codec2::Codec2) -> nat;

/// Whether a codec is in the state in which `Codec2::new` returns it.
pub uninterp spec fn codec2_is_new(codec: codec2::Codec2) -> bool;

/// Whether `Codec2::encode` can take a codec from one state to another and turn these
/// samples into these bytes. More than one outcome is possible: the codec computes in
/// single precision with the sines, cosines and logarithms of the machine it runs on,
/// whose last bits differ from machine to machine.
pub uninterp spec fn codec2_encodes(
    before: codec2::Codec2,
    speech: Seq<i16>,
    after: codec2::Codec2,
    bits: Seq<u8>,
) -> bool;

/// Whether `Codec2::decode` can take a codec from one state to another and turn these
/// bytes into these samples. More than one outcome is possible: besides the precision of
/// the machine, the phases of unvoiced sound come from a counter that all codecs of a
/// process share.
pub uninterp spec fn codec2_decodes(
    before: codec2::Codec2,
    bits: Seq<u8>,
    after: codec2::Codec2,
    speech: Seq<i16>,
) -> bool;

/// `Codec2::new` with the mode `MODE_3200`: a new codec whose frames have 160 samples
/// and 64 bits.
#[verifier::external_body]
fn codec2_new() -> (codec: codec2::Codec2)
    ensures
        codec2_is_new(codec),
        codec2_samples(codec) == 160,
        codec2_bits(codec) == 64,
{
    codec2::Codec2::new(codec2::Codec2Mode::MODE_3200)
}

/// `Codec2::samples_per_frame`: the number of samples in one frame.
#[verifier::external_body]
fn codec2_samples_per_frame(codec: &codec2::Codec2) -> (n: usize)
    ensures
        n == codec2_samples(*codec),
{
    codec.samples_per_frame()
}

/// `Codec2::bits_per_frame`: the number of bits of one encoded frame.
#[verifier::external_body]
fn codec2_bits_per_frame(codec: &codec2::Codec2) -> (n: usize)
    ensures
        n == codec2_bits(*codec),
{
    codec.bits_per_frame()
}

/// `Codec2::encode`: turns one frame of samples into the bytes of one encoded frame and
/// keeps the mode of the codec. Which bytes they are depends on the samples and on the
/// state of the codec, and in their last bits on the machine.
#[verifier::external_body]
fn codec2_encode(codec: &mut codec2::Codec2, bits: &mut Vec<u8>, speech: &[i16])
    requires
        speech@.len() == codec2_samples(*old(codec)),
        old(bits)@.len() == (codec2_bits(*old(codec)) + 7) / 8,
    ensures
        codec2_encodes(*old(codec), speech@, *final(codec), final(bits)@),
        codec2_samples(*final(codec)) == codec2_samples(*old(codec)),
        codec2_bits(*final(codec)) == codec2_bits(*old(codec)),
        final(bits)@.len() == old(bits)@.len(),
{
    codec.encode(bits, speech)
}

/// `Codec2::decode`: turns one encoded frame into samples and keeps the mode of the
/// codec. Which samples they are depends on the bytes and on the state of the codec, and
/// within these on what was decoded before and on the machine.
#[verifier::external_body]
fn codec2_decode(codec: &mut codec2::Codec2, speech: &mut [i16], bits: &[u8])
    requires
        old(speech)@.len() == codec2_samples(*old(codec)),
        bits@.len() == (codec2_bits(*old(codec)) + 7) / 8,
    ensures
        codec2_decodes(*old(codec), bits@, *final(codec), final(speech)@),
        codec2_samples(*final(codec)) == codec2_samples(*old(codec)),
        codec2_bits(*final(codec)) == codec2_bits(*old(codec)),
        final(speech)@.len() == old(speech)@.len(),
{
    codec.decode(speech, bits)
}

/// Whether these samples are what a new decoder can make of these bytes.
pub open spec fn is_voice_of(bits: Seq<u8>, speech: Seq<i16>) -> bool {
    exists|before: codec2::Codec2, after: codec2::Codec2|
        codec2_is_new(before) && #[trigger] codec2_decodes(before, bits, after, speech)
}

/// The complaint about a frame with the wrong number of samples.
pub open spec fn pcm_size_complaint(expected: nat, got: nat) -> Seq<char> {
    "codec2 expects "@ + digits::decimal(expected) + " pcm samples per frame, got "@ + digits::decimal(got)
}

/// The complaint about an encoded frame with the wrong number of bytes.
pub open spec fn encoded_size_complaint(expected: nat, got: nat) -> Seq<char> {
    "codec2 expects "@ + digits::decimal(expected) + " encoded bytes per frame, got "@ + digits::decimal(got)
}

/// The complaint about an output with the wrong number of places for samples.
pub open spec fn output_size_complaint(expected: nat, got: nat) -> Seq<char> {
    "codec2 decode_into expects "@ + digits::decimal(expected) + " sample slots, got "@ + digits::decimal(got)
}

/// The complaint of a decoder about an encoded frame or an output of the wrong size.
pub open spec fn decode_complaint(samples: nat, encoded_len: nat, got_encoded: nat, got_samples: nat) -> Seq<char> {
    if got_encoded != encoded_len {
        encoded_size_complaint(encoded_len, got_encoded)
    } else {
        output_size_complaint(samples, got_samples)
    }
}

/// The encoder of the sending side.
pub struct TxCodec {
    inner: codec2::Codec2,
    samples_per_frame: usize,
    bytes_per_frame: usize,
    scratch: Vec<u8>,
}

impl TxCodec {
    /// The sizes agree with the codec inside.
    pub closed spec fn wf(&self) -> bool {
        &&& self.samples_per_frame == codec2_samples(self.inner)
        &&& self.bytes_per_frame == (codec2_bits(self.inner) + 7) / 8
        &&& self.scratch@.len() == self.bytes_per_frame
    }

    /// The number of samples in one frame.
    pub closed spec fn samples(&self) -> nat {
        self.samples_per_frame as nat
    }

    /// The number of bytes of one encoded frame.
    pub closed spec fn encoded_len(&self) -> nat {
        self.bytes_per_frame as nat
    }

    /// The codec inside.
    pub closed spec fn codec(&self) -> codec2::Codec2 {
        self.inner
    }

    /// The bytes that the codec produced last.
    pub closed spec fn last_encoded(&self) -> Seq<u8> {
        self.scratch@
    }

    /// A new encoder: frames of 160 samples become 8 bytes.
    pub fn new(_cfg: &PluginConfig) -> (r: Result<TxCodec, String>)
        ensures
            r is Ok,
            r->Ok_0.wf(),
            r->Ok_0.samples() == 160,
            r->Ok_0.encoded_len() == 8,
            codec2_is_new(r->Ok_0.codec()),
            r->Ok_0.last_encoded() == Seq::new(8, |i: int| 0u8),
    {
        let inner = codec2_new();
        let samples_per_frame: usize = codec2_samples_per_frame(&inner);
        let bytes_per_frame: usize = (codec2_bits_per_frame(&inner) + 7) / 8;
        Ok(TxCodec { inner, samples_per_frame, bytes_per_frame, scratch: vec![0u8; bytes_per_frame] })
    }

    /// The number of samples in one frame.
    pub fn samples_per_frame(&self) -> (n: usize)
        ensures
            n == self.samples(),
    {
        self.samples_per_frame
    }

    /// The number of bytes of one encoded frame.
    pub fn bytes_per_frame(&self) -> (n: usize)
        ensures
            n == self.encoded_len(),
    {
        self.bytes_per_frame
    }

    /// Encodes one frame into new bytes.
    pub fn encode(&mut self, pcm: &[i16]) -> (r: Result<Vec<u8>, String>)
        requires
            old(self).wf(),
        ensures
            final(self).wf(),
            final(self).samples() == old(self).samples(),
            final(self).encoded_len() == old(self).encoded_len(),
            r is Ok <==> pcm@.len() == old(self).samples(),
            r matches Ok(bytes) ==> {
                &&& codec2_encodes(old(self).codec(), pcm@, final(self).codec(), bytes@)
                &&& bytes@ == final(self).last_encoded()
                &&& bytes@.len() == old(self).encoded_len()
            },
            r matches Err(e) ==> e@ == pcm_size_complaint(old(self).samples(), pcm@.len()) && *final(self) == *old(self),
    {
        let mut out: Vec<u8> = Vec::new();
        match self.encode_into(pcm, &mut out) {
            Ok(()) => {
                proof {
                    assert(out@ =~= self.last_encoded());
                }
                Ok(out)
            },
            Err(e) => Err(e),
        }
    }

    /// Encodes one frame, which must have exactly as many samples as the codec
    /// takes, and appends the bytes that the codec produced to `out`. A frame of
    /// another size is refused and leaves `out` as it was.
    pub fn encode_into(&mut self, pcm: &[i16], out: &mut Vec<u8>) -> (r: Result<(), String>)
        requires
            old(self).wf(),
        ensures
            final(self).wf(),
            final(self).samples() == old(self).samples(),
            final(self).encoded_len() == old(self).encoded_len(),
            final(self).last_encoded().len() == old(self).encoded_len(),
            r is Ok <==> pcm@.len() == old(self).samples(),
            r is Ok ==> {
                &&& codec2_encodes(old(self).codec(), pcm@, final(self).codec(), final(self).last_encoded())
                &&& final(out)@ == old(out)@ + final(self).last_encoded()
            },
            r matches Err(e) ==> {
                &&& e@ == pcm_size_complaint(old(self).samples(), pcm@.len())
                &&& final(out)@ == old(out)@
                &&& *final(self) == *old(self)
            },
    {
        if pcm.len() != self.samples_per_frame {
            return Err(
                cat4(
                    "codec2 expects ",
                    dec_usize(self.samples_per_frame).as_str(),
                    " pcm samples per frame, got ",
                    dec_usize(pcm.len()).as_str(),
                ),
            );
        }
        codec2_encode(&mut self.inner, &mut self.scratch, pcm);
        out.extend_from_slice(self.scratch.as_slice());
        proof {
            assert(out@ =~= old(out)@ + self.scratch@);
        }
        Ok(())
    }
}

/// The decoder of the receiving side.
pub struct RxCodec {
    inner: codec2::Codec2,
    samples_per_frame: usize,
    bytes_per_frame: usize,
}

impl RxCodec {
    /// The sizes agree with the codec inside.
    pub closed spec fn wf(&self) -> bool {
        &&& self.samples_per_frame == codec2_samples(self.inner)
        &&& self.bytes_per_frame == (codec2_bits(self.inner) + 7) / 8
    }

    /// The number of samples in one frame.
    pub closed spec fn samples(&self) -> nat {
        self.samples_per_frame as nat
    }

    /// The number of bytes of one encoded frame.
    pub closed spec fn encoded_len(&self) -> nat {
        self.bytes_per_frame as nat
    }

    /// The codec inside.
    pub closed spec fn codec(&self) -> codec2::Codec2 {
        self.inner
    }

    /// A new decoder: 8 bytes become a frame of 160 samples.
    pub fn new(_cfg: &PluginConfig) -> (r: Result<RxCodec, String>)
        ensures
            r is Ok,
            r->Ok_0.wf(),
            r->Ok_0.samples() == 160,
            r->Ok_0.encoded_len() == 8,
            codec2_is_new(r->Ok_0.codec()),
    {
        let inner = codec2_new();
        let samples_per_frame: usize = codec2_samples_per_frame(&inner);
        let bytes_per_frame: usize = (codec2_bits_per_frame(&inner) + 7) / 8;
        Ok(RxCodec { inner, samples_per_frame, bytes_per_frame })
    }

    /// The number of samples in one frame.
    pub fn samples_per_frame(&self) -> (n: usize)
        ensures
            n == self.samples(),
    {
        self.samples_per_frame
    }

    /// The number of bytes of one encoded frame.
    pub fn bytes_per_frame(&self) -> (n: usize)
        ensures
            n == self.encoded_len(),
    {
        self.bytes_per_frame
    }

    /// Decodes one frame into `frame_len` new samples.
    pub fn decode(&mut self, encoded: &[u8], frame_len: usize) -> (r: Result<Vec<i16>, String>)
        requires
            old(self).wf(),
        ensures
            final(self).wf(),
            final(self).samples() == old(self).samples(),
            final(self).encoded_len() == old(self).encoded_len(),
            r is Ok <==> encoded@.len() == old(self).encoded_len() && frame_len == old(self).samples(),
            r matches Ok(pcm) ==> {
                &&& codec2_decodes(old(self).codec(), encoded@, final(self).codec(), pcm@)
                &&& pcm@.len() == frame_len
            },
            r matches Err(e) ==> {
                &&& e@ == decode_complaint(
                    old(self).samples(),
                    old(self).encoded_len(),
                    encoded@.len(),
                    frame_len as nat,
                )
                &&& *final(self) == *old(self)
            },
    {
        let mut pcm: Vec<i16> = vec![0i16; frame_len];
        match self.decode_into(encoded, pcm.as_mut_slice()) {
            Ok(()) => Ok(pcm),
            Err(e) => Err(e),
        }
    }

    /// Decodes one frame in place. The encoded frame and the output must both have
    /// exactly the codec's sizes; otherwise the output is left as it was, and the
    /// complaint is about the encoded frame first.
    pub fn decode_into(&mut self, encoded: &[u8], out: &mut [i16]) -> (r: Result<(), String>)
        requires
            old(self).wf(),
        ensures
            final(self).wf(),
            final(self).samples() == old(self).samples(),
            final(self).encoded_len() == old(self).encoded_len(),
            final(out)@.len() == old(out)@.len(),
            r is Ok <==> encoded@.len() == old(self).encoded_len() && old(out)@.len() == old(self).samples(),
            r is Ok ==> codec2_decodes(old(self).codec(), encoded@, final(self).codec(), final(out)@),
            r matches Err(e) ==> {
                &&& e@ == decode_complaint(old(self).samples(), old(self).encoded_len(), encoded@.len(), old(out)@.len())
                &&& final(out)@ == old(out)@
                &&& *final(self) == *old(self)
            },
    {
        if encoded.len() != self.bytes_per_frame {
            return Err(
                cat4(
                    "codec2 expects ",
                    dec_usize(self.bytes_per_frame).as_str(),
                    " encoded bytes per frame, got ",
                    dec_usize(encoded.len()).as_str(),
                ),
            );
        }
        if out.len() != self.samples_per_frame {
            return Err(
                cat4(
                    "codec2 decode_into expects ",
                    dec_usize(self.samples_per_frame).as_str(),
                    " sample slots, got ",
                    dec_usize(out.len()).as_str(),
                ),
            );
        }
        codec2_decode(&mut self.inner, out, encoded);
        Ok(())
    }
}

/// A new encoder takes frames of 160 samples, and no others, and makes eight bytes of each; a new
/// decoder takes eight bytes, and no others, and makes 160 samples of them. So a frame that was encoded
/// can always be decoded, to a frame of its size, from the bytes that the encoder made.
pub proof fn law_encoded_frames_can_be_decoded(
    cfg: &PluginConfig,
    tx: &mut TxCodec,
    pcm: &[i16],
    bytes: Result<Vec<u8>, String>,
    rx: &mut RxCodec,
    wire: &[u8],
    frame_len: usize,
    heard: Result<Vec<i16>, String>,
)
    requires
        call_ensures(TxCodec::new, (cfg,), Ok::<TxCodec, String>(*old(tx))),
        call_ensures(TxCodec::encode, (tx, pcm), bytes),
        call_ensures(RxCodec::new, (cfg,), Ok::<RxCodec, String>(*old(rx))),
        call_ensures(RxCodec::decode, (rx, wire, frame_len), heard),
    ensures
        bytes is Ok <==> pcm@.len() == 160,
        bytes is Ok ==> bytes->Ok_0@.len() == 8,
        bytes is Ok ==> codec2_is_new(old(tx).codec()) && codec2_encodes(
            old(tx).codec(),
            pcm@,
            final(tx).codec(),
            bytes->Ok_0@,
        ),
        heard is Ok <==> wire@.len() == 8 && frame_len == 160,
        heard is Ok ==> heard->Ok_0@.len() == 160 && is_voice_of(wire@, heard->Ok_0@),
        bytes is Ok && wire@ == bytes->Ok_0@ && frame_len == pcm@.len() ==> heard is Ok,
{
}

/// Encoding appends the frame's bytes to what is there, and a frame that is refused appends nothing.
pub proof fn law_encoding_appends(tx: &mut TxCodec, pcm: &[i16], out: &mut Vec<u8>, r: Result<(), String>)
    requires
        old(tx).wf(),
        call_ensures(TxCodec::encode_into, (tx, pcm, out), r),
    ensures
        r is Ok <==> pcm@.len() == old(tx).samples(),
        r is Ok ==> final(out)@.len() == old(out)@.len() + old(tx).encoded_len() && final(out)@.take(old(out)@.len() as int)
            == old(out)@ && codec2_encodes(
            old(tx).codec(),
            pcm@,
            final(tx).codec(),
            final(out)@.skip(old(out)@.len() as int),
        ),
        r is Err ==> final(out)@ == old(out)@ && *final(tx) == *old(tx),
{
    if r is Ok {
        assert(final(out)@.take(old(out)@.len() as int) =~= old(out)@);
        assert(final(out)@.skip(old(out)@.len() as int) =~= final(tx).last_encoded());
    }
}

/// A frame of the wrong size is refused with the size that is wanted and the size that came, and changes
/// neither the codec nor the output.
pub proof fn law_wrong_sizes_are_told(
    tx: &mut TxCodec,
    pcm: &[i16],
    sent: Result<Vec<u8>, String>,
    rx: &mut RxCodec,
    wire: &[u8],
    out: &mut [i16],
    heard: Result<(), String>,
)
    requires
        old(tx).wf(),
        old(rx).wf(),
        call_ensures(TxCodec::encode, (tx, pcm), sent),
        call_ensures(RxCodec::decode_into, (rx, wire, out), heard),
    ensures
        pcm@.len() != old(tx).samples() ==> sent is Err && *final(tx) == *old(tx) && sent->Err_0@ == "codec2 expects "@
            + digits::decimal(old(tx).samples()) + " pcm samples per frame, got "@ + digits::decimal(pcm@.len()),
        heard is Ok <==> wire@.len() == old(rx).encoded_len() && old(out)@.len() == old(rx).samples(),
        heard is Ok ==> codec2_decodes(old(rx).codec(), wire@, final(rx).codec(), final(out)@),
        heard is Err ==> final(out)@ == old(out)@ && *final(rx) == *old(rx),
        wire@.len() != old(rx).encoded_len() ==> heard is Err && heard->Err_0@ == "codec2 expects "@ + digits::decimal(
            old(rx).encoded_len(),
        ) + " encoded bytes per frame, got "@ + digits::decimal(wire@.len()),
        wire@.len() == old(rx).encoded_len() && old(out)@.len() != old(rx).samples() ==> heard is Err && heard->Err_0@
            == "codec2 decode_into expects "@ + digits::decimal(old(rx).samples()) + " sample slots, got "@
            + digits::decimal(old(out)@.len()),
{
}

} // verus!
