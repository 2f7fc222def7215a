//! Recorded audio and its WAV form.
//!
//! Samples are 16-bit PCM.

use vstd::prelude::*;

pub mod recorder;
pub mod trim;
pub mod vad;

verus! {

/// The sample rate at which audio is transcribed.
pub const TARGET_SAMPLE_RATE: u32 = 16_000;

/// The channel count with which audio is transcribed.
pub const TARGET_CHANNELS: u16 = 1;

/// How many points the coarse waveform of a visualization snapshot has.
pub const VISUALIZATION_BIN_COUNT: usize = 32;

/// How many frequency bands a visualization snapshot has.
pub const VISUALIZATION_BAND_COUNT: usize = 6;

/// A finished recording.
#[derive(Debug, Clone, PartialEq, Eq)]
pub struct AudioPayload {
    pub sample_rate: u32,
    pub channels: u16,
    pub samples: Vec<i16>,
}

impl AudioPayload {
    /// A recording of the given samples.
    pub fn new(sample_rate: u32, channels: u16, samples: Vec<i16>) -> (payload: Self)
        ensures
            payload.sample_rate == sample_rate,
            payload.channels == channels,
            payload.samples == samples,
    {
        AudioPayload { sample_rate, channels, samples }
    }
}

/// A number below 2^16 in two bytes, the low one first.
pub open spec fn le16(n: int) -> Seq<u8> {
    seq![(n % 256) as u8, (n / 256) as u8]
}

/// A number below 2^32 in four bytes, the lowest one first.
pub open spec fn le32(n: int) -> Seq<u8> {
    seq![
        (n % 256) as u8,
        (n / 256 % 256) as u8,
        (n / 65_536 % 256) as u8,
        (n / 16_777_216) as u8,
    ]
}

/// The number that two bytes stand for, the low one first.
pub open spec fn le16_at(bytes: Seq<u8>, at: int) -> int {
    bytes[at] + 256 * bytes[at + 1]
}

/// The number that four bytes stand for, the lowest one first.
pub open spec fn le32_at(bytes: Seq<u8>, at: int) -> int {
    bytes[at] + 256 * bytes[at + 1] + 65_536 * bytes[at + 2] + 16_777_216 * bytes[at + 3]
}

/// A sample as the number below 2^16 that shares its sixteen bits.
pub open spec fn sample_bits(sample: i16) -> int {
    if sample >= 0 {
        sample as int
    } else {
        sample + 65_536
    }
}

/// The sample that the sixteen bits of a number below 2^16 stand for.
pub open spec fn sample_of_bits(bits: int) -> int {
    if bits < 32_768 {
        bits
    } else {
        bits - 65_536
    }
}

/// The samples one behind the other, two bytes each.
pub open spec fn pcm_bytes(samples: Seq<i16>) -> Seq<u8>
    decreases samples.len(),
{
    if samples.len() == 0 {
        Seq::empty()
    } else {
        pcm_bytes(samples.drop_last()) + le16(sample_bits(samples.last()))
    }
}

/// The 44 bytes before the samples: the RIFF chunk, the format (PCM, one
/// channel, 16 bits to a sample) and the head of the data chunk.
#[verifier::opaque]
pub open spec fn wav_header(data_bytes: int, sample_rate: int) -> Seq<u8> {
    riff_tag() + le32(36 + data_bytes) + wave_tag() + fmt_tag() + le32(16) + le16(1) + le16(1)
        + le32(sample_rate) + le32(sample_rate * 2) + le16(2) + le16(16) + data_tag() + le32(
        data_bytes,
    )
}

/// `RIFF`.
pub open spec fn riff_tag() -> Seq<u8> {
    seq![82u8, 73u8, 70u8, 70u8]
}

/// `WAVE`.
pub open spec fn wave_tag() -> Seq<u8> {
    seq![87u8, 65u8, 86u8, 69u8]
}

/// `fmt `.
pub open spec fn fmt_tag() -> Seq<u8> {
    seq![102u8, 109u8, 116u8, 32u8]
}

/// `data`.
pub open spec fn data_tag() -> Seq<u8> {
    seq![100u8, 97u8, 116u8, 97u8]
}

/// How many bytes the samples take, as the thirty-two bits of the header hold
/// it.
pub open spec fn data_size(samples: int) -> int {
    (2 * samples) % 0x1_0000_0000
}

/// A recording as a WAV file.
pub open spec fn wav_file(samples: Seq<i16>, sample_rate: int) -> Seq<u8> {
    wav_header(data_size(samples.len() as int), sample_rate) + pcm_bytes(samples)
}

fn push_tag(bytes: &mut Vec<u8>, a: u8, b: u8, c: u8, d: u8)
    ensures
        final(bytes)@ == old(bytes)@ + seq![a, b, c, d],
{
    bytes.push(a);
    bytes.push(b);
    bytes.push(c);
    bytes.push(d);
    assert(bytes@ =~= old(bytes)@ + seq![a, b, c, d]);
}

fn push_le16(bytes: &mut Vec<u8>, n: u16)
    ensures
        final(bytes)@ == old(bytes)@ + le16(n as int),
{
    bytes.push((n % 256) as u8);
    bytes.push((n / 256) as u8);
    assert(bytes@ =~= old(bytes)@ + le16(n as int));
}

fn push_le32(bytes: &mut Vec<u8>, n: u32)
    ensures
        final(bytes)@ == old(bytes)@ + le32(n as int),
{
    bytes.push((n % 256) as u8);
    bytes.push((n / 256 % 256) as u8);
    bytes.push((n / 65_536 % 256) as u8);
    bytes.push((n / 16_777_216) as u8);
    assert(bytes@ =~= old(bytes)@ + le32(n as int));
}

/// The recording as a WAV file with one channel of 16-bit PCM.
///
/// The sizes in the header are thirty-two bits wide: the recording must leave
/// room for the 36 bytes that the RIFF size adds, and the byte rate, twice the
/// sample rate, must fit.
pub fn encode_wav_bytes(samples: &[i16], sample_rate: u32) -> (bytes: Vec<u8>)
    requires
        data_size(samples@.len() as int) + 36 <= u32::MAX,
        sample_rate * 2 <= u32::MAX,
    ensures
        bytes@ == wav_file(samples@, sample_rate as int),
{
    let mut bytes: Vec<u8> = Vec::new();
    let count: u64 = samples.len() as u64;
    assert(data_size(count as int) == 2 * (count as int % 0x8000_0000));
    let data_bytes: u32 = ((count % 0x8000_0000) * 2) as u32;
    let riff_size: u32 = 36 + data_bytes;

    push_tag(&mut bytes, 82, 73, 70, 70);
    push_le32(&mut bytes, riff_size);
    push_tag(&mut bytes, 87, 65, 86, 69);
    push_tag(&mut bytes, 102, 109, 116, 32);
    push_le32(&mut bytes, 16);
    push_le16(&mut bytes, 1);
    push_le16(&mut bytes, 1);
    push_le32(&mut bytes, sample_rate);
    push_le32(&mut bytes, sample_rate * 2);
    push_le16(&mut bytes, 2);
    push_le16(&mut bytes, 16);
    push_tag(&mut bytes, 100, 97, 116, 97);
    push_le32(&mut bytes, data_bytes);
    let ghost header = wav_header(data_bytes as int, sample_rate as int);
    assert(bytes@ =~= header) by {
        reveal(wav_header);
    }

    let mut next: usize = 0;
    assert(bytes@ =~= header + pcm_bytes(samples@.take(0)));
    while next < samples.len()
        invariant
            next <= samples.len(),
            bytes@ == header + pcm_bytes(samples@.take(next as int)),
        decreases samples.len() - next,
    {
        let sample: i16 = samples[next];
        let bits: u16 = if sample >= 0 {
            sample as u16
        } else {
            (sample as i32 + 65_536) as u16
        };
        assert(samples@.take(next + 1).drop_last() =~= samples@.take(next as int));
        push_le16(&mut bytes, bits);
        next = next + 1;
        assert(bytes@ =~= header + pcm_bytes(samples@.take(next as int)));
    }
    assert(samples@.take(next as int) =~= samples@);
    bytes
}

/// What a WAV file with one channel of 16-bit PCM holds.
pub struct WavContent {
    pub sample_rate: int,
    pub samples: Seq<int>,
}

/// Whether bytes are a WAV file with one channel of 16-bit PCM, with every
/// field of the header in order, `size` bytes of samples and the given rate.
pub open spec fn is_wav(bytes: Seq<u8>, size: int, sample_rate: int) -> bool {
    &&& bytes.len() == 44 + size
    &&& bytes.subrange(0, 4) == riff_tag()
    &&& le32_at(bytes, 4) == 36 + size
    &&& bytes.subrange(8, 12) == wave_tag()
    &&& bytes.subrange(12, 16) == fmt_tag()
    &&& le32_at(bytes, 16) == 16
    &&& le16_at(bytes, 20) == 1
    &&& le16_at(bytes, 22) == 1
    &&& le32_at(bytes, 24) == sample_rate
    &&& le32_at(bytes, 28) == 2 * sample_rate
    &&& le16_at(bytes, 32) == 2
    &&& le16_at(bytes, 34) == 16
    &&& bytes.subrange(36, 40) == data_tag()
    &&& le32_at(bytes, 40) == size
}

/// What the bytes of a WAV file with one channel of 16-bit PCM say.
pub open spec fn read_wav(bytes: Seq<u8>) -> Option<WavContent> {
    if bytes.len() % 2 == 0 && is_wav(bytes, bytes.len() - 44, le32_at(bytes, 24)) {
        Some(
            WavContent {
                sample_rate: le32_at(bytes, 24),
                samples: Seq::new(
                    ((bytes.len() - 44) / 2) as nat,
                    |i: int| sample_of_bits(le16_at(bytes, 44 + 2 * i)),
                ),
            },
        )
    } else {
        None
    }
}

proof fn lemma_pcm_bytes(samples: Seq<i16>)
    ensures
        pcm_bytes(samples).len() == 2 * samples.len(),
        forall|i: int|
            0 <= i < samples.len() ==> #[trigger] samples[i] == sample_of_bits(
                le16_at(pcm_bytes(samples), 2 * i),
            ),
    decreases samples.len(),
{
    if samples.len() > 0 {
        let shorter = samples.drop_last();
        lemma_pcm_bytes(shorter);
        let bytes = pcm_bytes(samples);
        assert forall|i: int| 0 <= i < samples.len() implies #[trigger] samples[i]
            == sample_of_bits(le16_at(bytes, 2 * i)) by {
            if i < shorter.len() {
                assert(shorter[i] == samples[i]);
                assert(bytes[2 * i] == pcm_bytes(shorter)[2 * i]);
                assert(bytes[2 * i + 1] == pcm_bytes(shorter)[2 * i + 1]);
            }
        }
    }
}

/// Reading back an encoded recording gives the sample rate and the samples
/// that went in.
pub proof fn law_wav_round_trip(samples: Seq<i16>, sample_rate: u32)
    requires
        2 * samples.len() + 36 <= u32::MAX,
        sample_rate * 2 <= u32::MAX,
    ensures
        read_wav(wav_file(samples, sample_rate as int)) == Some(
            WavContent {
                sample_rate: sample_rate as int,
                samples: Seq::new(samples.len(), |i: int| samples[i] as int),
            },
        ),
{
    let size: int = 2 * (samples.len() as int);
    let header = wav_header(size, sample_rate as int);
    let data = pcm_bytes(samples);
    let bytes = wav_file(samples, sample_rate as int);
    assert(data_size(samples.len() as int) == size);
    assert(bytes == header + data);
    lemma_pcm_bytes(samples);
    lemma_wav_header(size, sample_rate as int);
    lemma_wav_of_header(header, data, size, sample_rate as int);
    assert forall|i: int| 0 <= i < samples.len() implies sample_of_bits(
        #[trigger] le16_at(bytes, 44 + 2 * i),
    ) == samples[i] by {
        assert(bytes[44 + 2 * i] == data[2 * i]);
        assert(bytes[44 + 2 * i + 1] == data[2 * i + 1]);
    }
    assert(read_wav(bytes).unwrap().samples =~= Seq::new(
        samples.len(),
        |i: int| samples[i] as int,
    ));
}

proof fn lemma_wav_of_header(header: Seq<u8>, data: Seq<u8>, size: int, sample_rate: int)
    requires
        header_fields(header, size, sample_rate),
        data.len() == size,
    ensures
        is_wav(header + data, size, sample_rate),
{
    reveal(header_fields);
    let bytes = header + data;
    assert(forall|i: int| 0 <= i < 44 ==> bytes[i] == header[i]);
    assert(bytes.subrange(0, 4) =~= header.subrange(0, 4));
    assert(bytes.subrange(8, 12) =~= header.subrange(8, 12));
    assert(bytes.subrange(12, 16) =~= header.subrange(12, 16));
    assert(bytes.subrange(36, 40) =~= header.subrange(36, 40));
}

/// The fields of the header, each at its place.
#[verifier::opaque]
spec fn header_fields(header: Seq<u8>, size: int, sample_rate: int) -> bool {
    &&& header.len() == 44
    &&& header.subrange(0, 4) == riff_tag()
    &&& le32_at(header, 4) == 36 + size
    &&& header.subrange(8, 12) == wave_tag()
    &&& header.subrange(12, 16) == fmt_tag()
    &&& le32_at(header, 16) == 16
    &&& le16_at(header, 20) == 1
    &&& le16_at(header, 22) == 1
    &&& le32_at(header, 24) == sample_rate
    &&& le32_at(header, 28) == 2 * sample_rate
    &&& le16_at(header, 32) == 2
    &&& le16_at(header, 34) == 16
    &&& header.subrange(36, 40) == data_tag()
    &&& le32_at(header, 40) == size
}

proof fn lemma_wav_header(size: int, sample_rate: int)
    requires
        0 <= size,
        size + 36 <= u32::MAX,
        0 <= sample_rate,
        sample_rate * 2 <= u32::MAX,
    ensures
        wav_header(size, sample_rate).len() == 44,
        header_fields(wav_header(size, sample_rate), size, sample_rate),
{
    let front = riff_tag() + le32(36 + size) + wave_tag() + fmt_tag() + le32(16) + le16(1) + le16(
        1,
    );
    let back = le32(sample_rate) + le32(sample_rate * 2) + le16(2) + le16(16) + data_tag() + le32(
        size,
    );
    let header = wav_header(size, sample_rate);
    lemma_le32(36 + size);
    lemma_le32(16);
    lemma_le32(sample_rate);
    lemma_le32(sample_rate * 2);
    lemma_le32(size);
    assert(front.len() == 24 && back.len() == 20);
    assert(header =~= front + back) by {
        reveal(wav_header);
    }
    assert(front.subrange(4, 8) =~= le32(36 + size));
    assert(front.subrange(16, 20) =~= le32(16));
    assert(back.subrange(0, 4) =~= le32(sample_rate));
    assert(back.subrange(4, 8) =~= le32(sample_rate * 2));
    assert(back.subrange(16, 20) =~= le32(size));
    assert(le32_at(header, 4) == le32_at(front.subrange(4, 8), 0));
    assert(le32_at(header, 16) == le32_at(front.subrange(16, 20), 0));
    assert(le32_at(header, 24) == le32_at(back.subrange(0, 4), 0));
    assert(le32_at(header, 28) == le32_at(back.subrange(4, 8), 0));
    assert(le32_at(header, 40) == le32_at(back.subrange(16, 20), 0));
    assert(header.subrange(0, 4) =~= riff_tag());
    assert(header.subrange(8, 12) =~= wave_tag());
    assert(header.subrange(12, 16) =~= fmt_tag());
    assert(header.subrange(36, 40) =~= data_tag());
    reveal(header_fields);
}

proof fn lemma_le32(n: int)
    requires
        0 <= n <= u32::MAX,
    ensures
        le32_at(le32(n), 0) == n,
{
}

/// What is written of a recording is a WAV file that gives back the rate and
/// every sample.
pub proof fn law_written_recording_reads_back(samples: &[i16], sample_rate: u32, bytes: Vec<u8>)
    requires
        call_ensures(encode_wav_bytes, (samples, sample_rate), bytes),
        2 * samples@.len() + 36 <= u32::MAX,
        sample_rate * 2 <= u32::MAX,
    ensures
        read_wav(bytes@) == Some(
            WavContent {
                sample_rate: sample_rate as int,
                samples: Seq::new(samples@.len(), |i: int| samples@[i] as int),
            },
        ),
        bytes@.len() == 44 + 2 * samples@.len(),
{
    law_wav_round_trip(samples@, sample_rate);
    lemma_pcm_bytes(samples@);
    lemma_wav_header(2 * samples@.len() as int, sample_rate as int);
    assert(data_size(samples@.len() as int) == 2 * samples@.len());
}

/// A recording holds what it was made of.
pub proof fn law_recording_holds_its_samples(
    sample_rate: u32,
    channels: u16,
    samples: Vec<i16>,
    payload: AudioPayload,
)
    requires
        call_ensures(AudioPayload::new, (sample_rate, channels, samples), payload),
    ensures
        payload.sample_rate == sample_rate,
        payload.channels == channels,
        payload.samples@ == samples@,
{
}

/// The header of a WAV file says what a player has to know, each thing at its
/// place: `RIFF`, the size of all behind that, `WAVE` and `fmt `; that there are
/// plain samples, in one channel, of 16 bits, at a rate; and then `data` and its
/// size.
pub proof fn law_wav_header_says_what_follows(bytes: Seq<u8>)
    requires
        read_wav(bytes) is Some,
    ensures
        bytes[0] == 0x52 && bytes[1] == 0x49 && bytes[2] == 0x46 && bytes[3] == 0x46,
        bytes[8] == 0x57 && bytes[9] == 0x41 && bytes[10] == 0x56 && bytes[11] == 0x45,
        bytes[12] == 0x66 && bytes[13] == 0x6d && bytes[14] == 0x74 && bytes[15] == 0x20,
        bytes[36] == 0x64 && bytes[37] == 0x61 && bytes[38] == 0x74 && bytes[39] == 0x61,
        bytes[20] + 256 * bytes[21] == 1,
        bytes[22] + 256 * bytes[23] == 1,
        bytes[34] + 256 * bytes[35] == 16,
        bytes[32] + 256 * bytes[33] == 2,
        bytes[4] + 0x100 * bytes[5] + 0x1_0000 * bytes[6] + 0x100_0000 * bytes[7] == bytes.len() - 8,
        bytes[40] + 0x100 * bytes[41] + 0x1_0000 * bytes[42] + 0x100_0000 * bytes[43] == bytes.len()
            - 44,
        read_wav(bytes)->0.sample_rate == bytes[24] + 0x100 * bytes[25] + 0x1_0000 * bytes[26]
            + 0x100_0000 * bytes[27],
        bytes[28] + 0x100 * bytes[29] + 0x1_0000 * bytes[30] + 0x100_0000 * bytes[31] == 2
            * read_wav(bytes)->0.sample_rate,
        read_wav(bytes)->0.samples.len() == (bytes.len() - 44) / 2,
        forall|i: int|
            0 <= i < read_wav(bytes)->0.samples.len() ==> ({
                let bits = bytes[44 + 2 * i] + 256 * bytes[45 + 2 * i];
                #[trigger] read_wav(bytes)->0.samples[i] == (if bits < 0x8000 {
                    bits
                } else {
                    bits - 0x1_0000
                })
            }),
{
    let riff = bytes.subrange(0, 4);
    let wave = bytes.subrange(8, 12);
    let fmt = bytes.subrange(12, 16);
    let data = bytes.subrange(36, 40);
    assert(riff[0] == bytes[0] && riff[1] == bytes[1] && riff[2] == bytes[2] && riff[3]
        == bytes[3]);
    assert(wave[0] == bytes[8] && wave[1] == bytes[9] && wave[2] == bytes[10] && wave[3]
        == bytes[11]);
    assert(fmt[0] == bytes[12] && fmt[1] == bytes[13] && fmt[2] == bytes[14] && fmt[3]
        == bytes[15]);
    assert(data[0] == bytes[36] && data[1] == bytes[37] && data[2] == bytes[38] && data[3]
        == bytes[39]);
}

} // verus!
