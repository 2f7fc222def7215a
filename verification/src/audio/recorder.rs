//! How the microphone is opened.

use crate::audio::{AudioPayload, TARGET_CHANNELS, TARGET_SAMPLE_RATE};
use crate::text::{join, joined, views};
use vstd::prelude::*;

verus! {

/// How long a period of the capture buffer is to be, in milliseconds.
pub const TARGET_BUFFER_MILLIS: u32 = 200;

/// For how many seconds there is room before the capture buffer has to grow.
pub const CAPTURE_RESERVE_SECONDS: usize = 60;

/// How many frames a period of the capture buffer has, where the device takes
/// from `min` to `max`.
pub fn buffer_frames(sample_rate: u32, min: u32, max: u32) -> (frames: u32)
    requires
        min <= max,
    ensures
        ({
            let wanted = sample_rate as int / 1000 * TARGET_BUFFER_MILLIS;
            frames == (if wanted < min {
                min as int
            } else if wanted > max {
                max as int
            } else {
                wanted
            })
        }),
{
    let wanted: u32 = sample_rate / 1000 * TARGET_BUFFER_MILLIS;
    if wanted < min {
        min
    } else if wanted > max {
        max
    } else {
        wanted
    }
}

/// How many channels there are at least.
pub open spec fn channel_count(channels: u16) -> int {
    if channels == 0 {
        1
    } else {
        channels as int
    }
}

/// How many channels there are at least.
pub fn channels_of(channels: u16) -> (count: usize)
    ensures
        count == channel_count(channels),
        count > 0,
{
    if channels == 0 {
        1
    } else {
        channels as usize
    }
}

/// For how many samples there is room before the capture buffer has to grow.
pub fn capture_reserve(sample_rate: u32, channels: u16) -> (samples: usize)
    requires
        sample_rate * channel_count(channels) * CAPTURE_RESERVE_SECONDS <= usize::MAX,
    ensures
        samples == sample_rate * channel_count(channels) * CAPTURE_RESERVE_SECONDS,
{
    let count: usize = channels_of(channels);
    assert(sample_rate * count <= sample_rate * count * CAPTURE_RESERVE_SECONDS)
        by (nonlinear_arith)
        requires
            0 <= sample_rate * count,
            CAPTURE_RESERVE_SECONDS == 60,
    ;
    assert(sample_rate <= sample_rate * count) by (nonlinear_arith)
        requires
            count >= 1,
    ;
    (sample_rate as usize) * count * CAPTURE_RESERVE_SECONDS
}

/// How many whole frames interleaved samples make: one sample for each channel.
pub fn frame_count(samples: usize, channels: u16) -> (frames: usize)
    ensures
        frames == samples as int / channel_count(channels),
{
    samples / channels_of(channels)
}

/// What was recorded, once it is down to one channel and to the rate at which
/// it is transcribed.
pub fn finish(samples: Vec<i16>) -> (payload: AudioPayload)
    ensures
        payload.sample_rate == 16_000,
        payload.channels == 1,
        payload.samples == samples,
{
    AudioPayload::new(TARGET_SAMPLE_RATE, TARGET_CHANNELS, samples)
}

/// The search for a device to record from: why each one that was tried did not
/// do.
#[derive(Debug, Clone, PartialEq, Eq)]
pub struct DeviceSearch {
    attempts: Vec<String>,
}

impl DeviceSearch {
    /// Why each device that was tried did not do.
    pub closed spec fn attempts(self) -> Seq<Seq<char>> {
        views(self.attempts@)
    }

    /// Before any device was tried.
    pub fn new() -> (search: Self)
        ensures
            search.attempts() == Seq::<Seq<char>>::empty(),
    {
        let search = DeviceSearch { attempts: Vec::new() };
        assert(search.attempts() =~= Seq::<Seq<char>>::empty());
        search
    }

    fn note(&mut self, attempt: String)
        ensures
            final(self).attempts() == old(self).attempts().push(attempt@),
    {
        self.attempts.push(attempt);
        assert(self.attempts() =~= old(self).attempts().push(attempt@));
    }

    /// There is no default device.
    pub fn no_default(&mut self)
        ensures
            final(self).attempts() == old(self).attempts().push(
                "no default input device available"@,
            ),
    {
        self.note("no default input device available".to_string());
    }

    /// The default device did not do.
    pub fn default_failed(&mut self, name: &str, reason: &str)
        ensures
            final(self).attempts() == old(self).attempts().push(
                "default device "@ + name@ + ": "@ + reason@,
            ),
    {
        let mut attempt: String = "default device ".to_string();
        attempt.append(name);
        attempt.append(": ");
        attempt.append(reason);
        self.note(attempt);
    }

    /// A device did not do.
    pub fn device_failed(&mut self, name: &str, reason: &str)
        ensures
            final(self).attempts() == old(self).attempts().push(
                "input device "@ + name@ + ": "@ + reason@,
            ),
    {
        let mut attempt: String = "input device ".to_string();
        attempt.append(name);
        attempt.append(": ");
        attempt.append(reason);
        self.note(attempt);
    }

    /// No device did.
    pub fn error(&self) -> (text: String)
        ensures
            text@ == "failed to find a usable input device: "@ + joined(self.attempts(), "; "@),
    {
        let mut text: String = "failed to find a usable input device: ".to_string();
        text.append(join(&self.attempts, "; ").as_str());
        text
    }
}

/// A period of the capture buffer is as near to 200 ms as the device lets it be.
pub proof fn law_buffer_is_as_long_as_the_device_lets_it_be(
    sample_rate: u32,
    min: u32,
    max: u32,
    frames: u32,
)
    requires
        call_ensures(buffer_frames, (sample_rate, min, max), frames),
        min <= max,
    ensures
        min <= frames <= max,
        sample_rate % 1000 == 0 && min * 1000 <= sample_rate * 200 <= max * 1000 ==> frames * 1000
            == sample_rate * 200,
        sample_rate * 200 < min * 1000 ==> frames == min,
        sample_rate % 1000 == 0 && sample_rate * 200 > max * 1000 ==> frames == max,
{
}

/// There is room for a minute of every channel before the capture buffer has to
/// grow; no channels count as one. Samples make as many frames as there are whole
/// rows of channels.
pub proof fn law_a_minute_is_reserved(
    sample_rate: u32,
    channels: u16,
    reserve: usize,
    count: usize,
    samples: usize,
    frames: usize,
)
    requires
        call_ensures(capture_reserve, (sample_rate, channels), reserve),
        call_ensures(channels_of, (channels,), count),
        call_ensures(frame_count, (samples, channels), frames),
    ensures
        channels > 0 ==> count == channels,
        channels == 0 ==> count == 1,
        reserve == sample_rate * count * 60,
        frames * count <= samples < (frames + 1) * count,
{
    assert(frames * count <= samples < (frames + 1) * count) by (nonlinear_arith)
        requires
            frames == samples as int / count as int,
            count > 0,
    ;
}

/// What was recorded is handed on whole, as one channel at 16 kHz.
pub proof fn law_recording_is_finished_whole(samples: Vec<i16>, payload: AudioPayload)
    requires
        call_ensures(finish, (samples,), payload),
    ensures
        payload.samples@ == samples@,
        payload.sample_rate == 16_000,
        payload.channels == 1,
{
}

/// A device that did not do is noted behind those before it, by its name and with
/// the reason.
pub proof fn law_each_device_is_noted(
    search: &mut DeviceSearch,
    name: &str,
    reason: &str,
)
    requires
        call_ensures(DeviceSearch::device_failed, (search, name, reason), ()) || call_ensures(
            DeviceSearch::default_failed,
            (search, name, reason),
            (),
        ),
    ensures
        final(search).attempts().len() == old(search).attempts().len() + 1,
        final(search).attempts().drop_last() == old(search).attempts(),
        reason@.is_suffix_of(final(search).attempts().last()),
        crate::text::has_text(final(search).attempts().last(), name@),
{
    let last = final(search).attempts().last();
    assert(final(search).attempts().drop_last() =~= old(search).attempts());
    assert(last.subrange(last.len() - reason@.len(), last.len() as int) =~= reason@);
    let at: int = last.len() - reason@.len() - ": "@.len() - name@.len();
    assert(last.subrange(at, at + name@.len()) =~= name@);
    assert(crate::text::occurs_at(last, name@, at));
}

/// Where no device did, each one is named in the error.
pub proof fn law_every_device_is_named(search: DeviceSearch, text: String, at: int)
    requires
        call_ensures(DeviceSearch::error, (&search,), text),
        0 <= at < search.attempts().len(),
    ensures
        crate::text::has_text(text@, search.attempts()[at]),
{
    let all = search.attempts();
    crate::text::lemma_joined(all, "; "@);
    let whole = joined(all, "; "@);
    assert(crate::text::has_text(whole, all[at]));
    let k = choose|k: int| crate::text::occurs_at(whole, all[at], k);
    let h: int = "failed to find a usable input device: "@.len() as int;
    assert(text@.subrange(h + k, h + k + all[at].len()) =~= all[at]);
    assert(crate::text::occurs_at(text@, all[at], h + k));
}

} // verus!
