//! Cutting the silence off a recording.
//!
//! A recording is looked at through windows of 20 ms, half a window apart,
//! once from its start and once from its end. How loud a window is, and whether
//! a sample is active, is measured outside; what to cut is decided here.

use crate::audio::TARGET_SAMPLE_RATE;
use crate::config::RecordingConfig;
use vstd::prelude::*;

verus! {

/// How many samples a window has: a fiftieth of a second.
pub const WINDOW: usize = 320;

/// How far apart windows are: half a window.
pub const STEP: usize = 160;

/// How many windows fit into a recording.
pub open spec fn window_count(samples: int) -> int {
    if samples < WINDOW {
        0
    } else {
        (samples - WINDOW) / STEP as int + 1
    }
}

/// How many windows fit into a recording.
pub fn windows(samples: usize) -> (count: usize)
    ensures
        count == window_count(samples as int),
{
    if samples < WINDOW {
        0
    } else {
        (samples - WINDOW) / STEP + 1
    }
}

/// What was measured of a recording.
#[derive(Debug, Clone, PartialEq, Eq)]
pub struct Loudness {
    /// For each sample, whether it is active.
    pub active: Vec<bool>,
    /// For each window from the start, whether it is loud. The first begins at
    /// the first sample, each of the others a step behind the one before it.
    pub leading: Vec<bool>,
    /// For each window from the end, whether it is loud. The first ends with the
    /// last sample, each of the others a step before the one before it.
    pub trailing: Vec<bool>,
}

impl Loudness {
    /// Whether every window was measured.
    pub open spec fn is_complete(self) -> bool {
        &&& self.leading@.len() == window_count(self.active@.len() as int)
        &&& self.trailing@.len() == window_count(self.active@.len() as int)
    }

    /// Where a window from the start begins.
    pub open spec fn leading_start(self, window: int) -> int {
        window * STEP
    }

    /// Where a window from the end begins.
    pub open spec fn trailing_start(self, window: int) -> int {
        self.active@.len() - window * STEP - WINDOW
    }
}

/// Whether this is where speech begins in a stretch: at the first active
/// sample, or at the start of the stretch where there is none.
pub open spec fn is_first_active(active: Seq<bool>, start: int, end: int, at: int) -> bool {
    if exists|i: int| start <= i < end && #[trigger] active[i] {
        &&& start <= at < end
        &&& active[at]
        &&& forall|i: int| start <= i < at ==> !#[trigger] active[i]
    } else {
        at == start
    }
}

/// Whether this is where speech ends in a stretch: behind the last active
/// sample, or at the end of the stretch where there is none.
pub open spec fn is_last_active(active: Seq<bool>, start: int, end: int, at: int) -> bool {
    if exists|i: int| start <= i < end && #[trigger] active[i] {
        &&& start < at <= end
        &&& active[at - 1]
        &&& forall|i: int| at <= i < end ==> !#[trigger] active[i]
    } else {
        at == end
    }
}

/// Where speech begins in a stretch.
pub fn first_active_sample(active: &[bool], start: usize, end: usize) -> (at: usize)
    requires
        start <= end <= active@.len(),
    ensures
        is_first_active(active@, start as int, end as int, at as int),
{
    let mut next: usize = start;
    while next < end
        invariant
            start <= next <= end <= active@.len(),
            forall|i: int| start <= i < next ==> !#[trigger] active@[i],
        decreases end - next,
    {
        if active[next] {
            assert(active@[next as int]);
            return next;
        }
        next = next + 1;
    }
    start
}

/// Where speech ends in a stretch.
pub fn last_active_sample(active: &[bool], start: usize, end: usize) -> (at: usize)
    requires
        start <= end <= active@.len(),
    ensures
        is_last_active(active@, start as int, end as int, at as int),
{
    let mut next: usize = end;
    while next > start
        invariant
            start <= next <= end <= active@.len(),
            forall|i: int| next <= i < end ==> !#[trigger] active@[i],
        decreases next,
    {
        if active[next - 1] {
            assert(active@[next - 1]);
            return next;
        }
        next = next - 1;
    }
    end
}

/// Whether the first loud window stands here.
pub open spec fn is_first_loud(loud: Seq<bool>, at: int) -> bool {
    &&& 0 <= at < loud.len()
    &&& loud[at]
    &&& forall|i: int| 0 <= i < at ==> !#[trigger] loud[i]
}

/// Whether no window is loud.
pub open spec fn is_quiet(loud: Seq<bool>) -> bool {
    forall|i: int| 0 <= i < loud.len() ==> !#[trigger] loud[i]
}

/// How much of the silence at one end of a recording is kept: the padding where
/// there is that much, else half of what there is.
pub open spec fn kept_silence(silence: int, padding: int) -> int {
    if silence < padding {
        silence / 2
    } else {
        padding
    }
}

/// How much of the silence at one end of a recording is kept.
fn keep_silence(silence: usize, padding: usize) -> (kept: usize)
    ensures
        kept == kept_silence(silence as int, padding as int),
        kept <= silence,
{
    if silence < padding {
        silence / 2
    } else {
        padding
    }
}

/// Whether a recording is to be kept from here on: from where speech begins in
/// the first loud window from the start, with some of the silence before that;
/// nothing of it where no window is loud.
pub open spec fn is_kept_from(loudness: Loudness, padding: int, from: int) -> bool {
    if is_quiet(loudness.leading@) {
        from == loudness.active@.len()
    } else {
        exists|window: int, speech: int|
            #![trigger is_first_loud(loudness.leading@, window), is_first_active(loudness.active@, loudness.leading_start(window), loudness.leading_start(window) + WINDOW, speech)]
            is_first_loud(loudness.leading@, window) && is_first_active(
                loudness.active@,
                loudness.leading_start(window),
                loudness.leading_start(window) + WINDOW,
                speech,
            ) && from == speech - kept_silence(speech, padding)
    }
}

/// Whether a recording is to be kept up to here: up to where speech ends in the
/// first loud window from the end, with some of the silence behind that; nothing
/// of it where no window is loud.
pub open spec fn is_kept_upto(loudness: Loudness, padding: int, upto: int) -> bool {
    if is_quiet(loudness.trailing@) {
        upto == 0
    } else {
        exists|window: int, speech: int|
            #![trigger is_first_loud(loudness.trailing@, window), is_last_active(loudness.active@, loudness.trailing_start(window), loudness.trailing_start(window) + WINDOW, speech)]
            is_first_loud(loudness.trailing@, window) && is_last_active(
                loudness.active@,
                loudness.trailing_start(window),
                loudness.trailing_start(window) + WINDOW,
                speech,
            ) && upto == speech + kept_silence(loudness.active@.len() - speech, padding)
    }
}

/// From where a recording is to be kept.
pub fn trim_leading(loudness: &Loudness, padding: usize) -> (from: usize)
    requires
        loudness.is_complete(),
    ensures
        is_kept_from(*loudness, padding as int, from as int),
        from <= loudness.active@.len(),
{
    let samples: usize = loudness.active.len();
    let mut window: usize = 0;
    while window < loudness.leading.len()
        invariant
            window <= loudness.leading@.len(),
            samples == loudness.active@.len(),
            loudness.is_complete(),
            forall|i: int| 0 <= i < window ==> !#[trigger] loudness.leading@[i],
        decreases loudness.leading@.len() - window,
    {
        if loudness.leading[window] {
            assert(window * STEP + WINDOW <= samples);
            let start: usize = window * STEP;
            let speech: usize = first_active_sample(
                loudness.active.as_slice(),
                start,
                start + WINDOW,
            );
            proof {
                assert(loudness.leading@[window as int]);
                assert(is_first_loud(loudness.leading@, window as int));
                assert(is_first_active(
                    loudness.active@,
                    loudness.leading_start(window as int),
                    loudness.leading_start(window as int) + WINDOW,
                    speech as int,
                ));
            }
            return speech - keep_silence(speech, padding);
        }
        window = window + 1;
    }
    samples
}

/// Up to where a recording is to be kept.
pub fn trim_trailing(loudness: &Loudness, padding: usize) -> (upto: usize)
    requires
        loudness.is_complete(),
    ensures
        is_kept_upto(*loudness, padding as int, upto as int),
        upto <= loudness.active@.len(),
{
    let samples: usize = loudness.active.len();
    let mut window: usize = 0;
    while window < loudness.trailing.len()
        invariant
            window <= loudness.trailing@.len(),
            samples == loudness.active@.len(),
            loudness.is_complete(),
            forall|i: int| 0 <= i < window ==> !#[trigger] loudness.trailing@[i],
        decreases loudness.trailing@.len() - window,
    {
        if loudness.trailing[window] {
            assert(window * STEP + WINDOW <= samples);
            let end: usize = samples - window * STEP;
            let start: usize = end - WINDOW;
            let speech: usize = last_active_sample(loudness.active.as_slice(), start, end);
            proof {
                assert(loudness.trailing@[window as int]);
                assert(is_first_loud(loudness.trailing@, window as int));
                assert(is_last_active(
                    loudness.active@,
                    loudness.trailing_start(window as int),
                    loudness.trailing_start(window as int) + WINDOW,
                    speech as int,
                ));
            }
            return speech + keep_silence(samples - speech, padding);
        }
        window = window + 1;
    }
    0
}

/// How many samples a number of milliseconds takes.
pub fn ms_to_samples(ms: u32, sample_rate: usize) -> (samples: usize)
    requires
        ms * sample_rate <= usize::MAX,
    ensures
        samples == ms * sample_rate / 1000,
{
    (ms as usize) * sample_rate / 1000
}

/// How many samples of padding stay around speech.
pub open spec fn padding_of(config: RecordingConfig) -> int {
    config.trim_padding_ms as int * TARGET_SAMPLE_RATE as int / 1000
}

/// Whether this stretch of a recording is kept: all of it where silence is not
/// to be trimmed; else from the start of speech to its end, with some of the
/// silence at either end; and nothing where that leaves nothing.
pub open spec fn is_trimmed(
    loudness: Loudness,
    config: RecordingConfig,
    kept: (usize, usize),
) -> bool {
    if !config.trim_silence || loudness.active@.len() == 0 {
        kept.0 == 0 && kept.1 == loudness.active@.len()
    } else {
        exists|from: int, upto: int|
            #![trigger is_kept_from(loudness, padding_of(config), from), is_kept_upto(loudness, padding_of(config), upto)]
            is_kept_from(loudness, padding_of(config), from) && is_kept_upto(
                loudness,
                padding_of(config),
                upto,
            ) && if from >= upto {
                kept == (0usize, 0usize)
            } else {
                kept.0 == from && kept.1 == upto
            }
    }
}

/// Which stretch of a recording is kept, from its first sample to behind its
/// last one.
pub fn trim_silence(loudness: &Loudness, config: &RecordingConfig) -> (kept: (usize, usize))
    requires
        loudness.is_complete(),
        config.trim_padding_ms * TARGET_SAMPLE_RATE <= usize::MAX,
    ensures
        is_trimmed(*loudness, *config, kept),
        kept.0 <= kept.1 <= loudness.active@.len(),
{
    if !config.trim_silence || loudness.active.len() == 0 {
        return (0, loudness.active.len());
    }
    let padding: usize = ms_to_samples(config.trim_padding_ms, TARGET_SAMPLE_RATE as usize);
    let from: usize = trim_leading(loudness, padding);
    let upto: usize = trim_trailing(loudness, padding);
    proof {
        assert(padding == padding_of(*config));
        assert(is_kept_from(*loudness, padding_of(*config), from as int));
        assert(is_kept_upto(*loudness, padding_of(*config), upto as int));
    }
    if from >= upto {
        (0, 0)
    } else {
        (from, upto)
    }
}

/// The first loud window, and where speech begins in it, are the only ones.
proof fn lemma_kept_from(loudness: Loudness, padding: int, from: int, window: int, speech: int)
    requires
        is_kept_from(loudness, padding, from),
        is_first_loud(loudness.leading@, window),
        is_first_active(
            loudness.active@,
            loudness.leading_start(window),
            loudness.leading_start(window) + WINDOW,
            speech,
        ),
    ensures
        from == speech - kept_silence(speech, padding),
{
    let (first, begin) = choose|first: int, begin: int|
        #![trigger is_first_loud(loudness.leading@, first), is_first_active(loudness.active@, loudness.leading_start(first), loudness.leading_start(first) + WINDOW, begin)]
        is_first_loud(loudness.leading@, first) && is_first_active(
            loudness.active@,
            loudness.leading_start(first),
            loudness.leading_start(first) + WINDOW,
            begin,
        ) && from == begin - kept_silence(begin, padding);
    assert(first == window);
    assert(begin == speech);
}

/// The first loud window from the end, and where speech ends in it, are the only
/// ones.
proof fn lemma_kept_upto(loudness: Loudness, padding: int, upto: int, window: int, speech: int)
    requires
        is_kept_upto(loudness, padding, upto),
        is_first_loud(loudness.trailing@, window),
        is_last_active(
            loudness.active@,
            loudness.trailing_start(window),
            loudness.trailing_start(window) + WINDOW,
            speech,
        ),
    ensures
        upto == speech + kept_silence(loudness.active@.len() - speech, padding),
{
    let (first, end) = choose|first: int, end: int|
        #![trigger is_first_loud(loudness.trailing@, first), is_last_active(loudness.active@, loudness.trailing_start(first), loudness.trailing_start(first) + WINDOW, end)]
        is_first_loud(loudness.trailing@, first) && is_last_active(
            loudness.active@,
            loudness.trailing_start(first),
            loudness.trailing_start(first) + WINDOW,
            end,
        ) && upto == end + kept_silence(loudness.active@.len() - end, padding);
    assert(first == window);
    if end < speech {
        assert(loudness.active@[speech - 1]);
    }
    if speech < end {
        assert(loudness.active@[end - 1]);
    }
}

/// Silence before speech gets shorter, and stays as long as the padding where
/// there is that much of it. It stays as it is only where it is just that long.
pub proof fn law_silence_is_trimmed_at_the_start(
    loudness: Loudness,
    padding: int,
    from: int,
    window: int,
    speech: int,
)
    requires
        loudness.is_complete(),
        0 <= padding,
        is_kept_from(loudness, padding, from),
        is_first_loud(loudness.leading@, window),
        is_first_active(
            loudness.active@,
            loudness.leading_start(window),
            loudness.leading_start(window) + WINDOW,
            speech,
        ),
    ensures
        0 <= from <= speech,
        speech > 0 && speech != padding ==> from > 0,
        speech >= padding ==> from == speech - padding,
{
    lemma_kept_from(loudness, padding, from, window, speech);
}

/// Silence behind speech gets shorter, and stays as long as the padding where
/// there is that much of it. It stays as it is only where it is just that long.
pub proof fn law_silence_is_trimmed_at_the_end(
    loudness: Loudness,
    padding: int,
    upto: int,
    window: int,
    speech: int,
)
    requires
        loudness.is_complete(),
        0 <= padding,
        is_kept_upto(loudness, padding, upto),
        is_first_loud(loudness.trailing@, window),
        is_last_active(
            loudness.active@,
            loudness.trailing_start(window),
            loudness.trailing_start(window) + WINDOW,
            speech,
        ),
    ensures
        speech <= upto <= loudness.active@.len(),
        speech < loudness.active@.len() && loudness.active@.len() - speech != padding ==> upto
            < loudness.active@.len(),
        loudness.active@.len() - speech >= padding ==> upto == speech + padding,
{
    lemma_kept_upto(loudness, padding, upto, window, speech);
}

/// No active sample of a loud window from the start is cut off at the start;
/// before it stays the padding, or at least half of all that is there.
pub proof fn law_speech_stays_at_the_start(
    loudness: Loudness,
    padding: int,
    from: int,
    window: int,
    sample: int,
)
    requires
        loudness.is_complete(),
        0 <= padding,
        is_kept_from(loudness, padding, from),
        0 <= window < loudness.leading@.len(),
        loudness.leading@[window],
        loudness.leading_start(window) <= sample < loudness.leading_start(window) + WINDOW,
        loudness.active@[sample],
    ensures
        from <= sample,
        sample - from >= padding || sample - from >= sample / 2,
{
    let (first, speech) = choose|first: int, speech: int|
        #![trigger is_first_loud(loudness.leading@, first), is_first_active(loudness.active@, loudness.leading_start(first), loudness.leading_start(first) + WINDOW, speech)]
        is_first_loud(loudness.leading@, first) && is_first_active(
            loudness.active@,
            loudness.leading_start(first),
            loudness.leading_start(first) + WINDOW,
            speech,
        ) && from == speech - kept_silence(speech, padding);
    assert(first <= window);
    assert(speech <= sample) by {
        if sample < loudness.leading_start(first) + WINDOW {
            assert(loudness.active@[sample]);
        }
    }
}

/// No active sample of a loud window from the end is cut off at the end; behind
/// it stays the padding, or at least half of all that is there.
pub proof fn law_speech_stays_at_the_end(
    loudness: Loudness,
    padding: int,
    upto: int,
    window: int,
    sample: int,
)
    requires
        loudness.is_complete(),
        0 <= padding,
        is_kept_upto(loudness, padding, upto),
        0 <= window < loudness.trailing@.len(),
        loudness.trailing@[window],
        loudness.trailing_start(window) <= sample < loudness.trailing_start(window) + WINDOW,
        loudness.active@[sample],
    ensures
        sample < upto,
        upto - sample - 1 >= padding || upto - sample - 1 >= (loudness.active@.len() - sample - 1)
            / 2,
{
    let (first, speech) = choose|first: int, speech: int|
        #![trigger is_first_loud(loudness.trailing@, first), is_last_active(loudness.active@, loudness.trailing_start(first), loudness.trailing_start(first) + WINDOW, speech)]
        is_first_loud(loudness.trailing@, first) && is_last_active(
            loudness.active@,
            loudness.trailing_start(first),
            loudness.trailing_start(first) + WINDOW,
            speech,
        ) && upto == speech + kept_silence(loudness.active@.len() - speech, padding);
    assert(first <= window);
    assert(sample < loudness.active@.len());
    assert(sample < speech) by {
        if sample >= loudness.trailing_start(first) {
            assert(loudness.active@[sample]);
        }
    }
}

/// Nothing is cut where silence is not to be trimmed, and nothing is kept where
/// no window is loud.
pub proof fn law_all_or_nothing_is_kept(
    loudness: Loudness,
    config: RecordingConfig,
    kept: (usize, usize),
)
    requires
        call_ensures(trim_silence, (&loudness, &config), kept),
        loudness.is_complete(),
    ensures
        kept.0 <= kept.1 <= loudness.active@.len(),
        !config.trim_silence ==> kept.0 == 0 && kept.1 == loudness.active@.len(),
        config.trim_silence && is_quiet(loudness.leading@) ==> kept.0 == kept.1,
        config.trim_silence && is_quiet(loudness.trailing@) ==> kept.0 == kept.1,
{
    if config.trim_silence && loudness.active@.len() > 0 {
        let (from, upto) = lemma_kept(loudness, config, kept);
    }
}

/// The two ends between which a recording is kept.
proof fn lemma_kept(loudness: Loudness, config: RecordingConfig, kept: (usize, usize)) -> (ends: (
    int,
    int,
))
    requires
        is_trimmed(loudness, config, kept),
        config.trim_silence,
        loudness.active@.len() > 0,
    ensures
        is_kept_from(loudness, padding_of(config), ends.0),
        is_kept_upto(loudness, padding_of(config), ends.1),
        if ends.0 >= ends.1 {
            kept == (0usize, 0usize)
        } else {
            kept.0 == ends.0 && kept.1 == ends.1
        },
{
    choose|from: int, upto: int|
        #![trigger is_kept_from(loudness, padding_of(config), from), is_kept_upto(loudness, padding_of(config), upto)]
        is_kept_from(loudness, padding_of(config), from) && is_kept_upto(
            loudness,
            padding_of(config),
            upto,
        ) && if from >= upto {
            kept == (0usize, 0usize)
        } else {
            kept.0 == from && kept.1 == upto
        }
}

/// No speech is lost: in the stretch that is kept lies every active sample of a
/// window that is loud from the start, as far as its beginning goes, and every
/// one of a window that is loud from the end, as far as its end goes. A sample
/// that is active in both is kept.
pub proof fn law_no_speech_is_lost(
    loudness: Loudness,
    config: RecordingConfig,
    kept: (usize, usize),
    window: int,
    sample: int,
    last_window: int,
    last_sample: int,
)
    requires
        call_ensures(trim_silence, (&loudness, &config), kept),
        loudness.is_complete(),
        0 <= window < loudness.leading@.len(),
        loudness.leading@[window],
        window * STEP <= sample < window * STEP + WINDOW,
        loudness.active@[sample],
        0 <= last_window < loudness.trailing@.len(),
        loudness.trailing@[last_window],
        loudness.active@.len() - last_window * STEP - WINDOW <= last_sample
            < loudness.active@.len() - last_window * STEP,
        loudness.active@[last_sample],
    ensures
        kept.0 < kept.1 ==> kept.0 <= sample && last_sample < kept.1,
        sample <= last_sample ==> kept.0 <= sample && last_sample < kept.1,
{
    assert(sample < loudness.active@.len());
    if config.trim_silence {
        let (from, upto) = lemma_kept(loudness, config, kept);
        let padding = padding_of(config);
        law_speech_stays_at_the_start(loudness, padding, from, window, sample);
        law_speech_stays_at_the_end(loudness, padding, upto, last_window, last_sample);
    }
}

/// Of the silence before speech and behind it, in what is kept, as much stays as
/// the padding has, where there is that much, and less than there was where
/// there is not; never more than the padding.
pub proof fn law_padding_is_kept_around_speech(
    loudness: Loudness,
    config: RecordingConfig,
    kept: (usize, usize),
    window: int,
    speech: int,
    last_window: int,
    end: int,
)
    requires
        call_ensures(trim_silence, (&loudness, &config), kept),
        loudness.is_complete(),
        config.trim_silence,
        kept.0 < kept.1,
        is_first_loud(loudness.leading@, window),
        is_first_active(loudness.active@, window * STEP, window * STEP + WINDOW, speech),
        is_first_loud(loudness.trailing@, last_window),
        is_last_active(
            loudness.active@,
            loudness.active@.len() - last_window * STEP - WINDOW,
            loudness.active@.len() - last_window * STEP,
            end,
        ),
    ensures
        ({
            let padding = config.trim_padding_ms * 16;
            let silence = loudness.active@.len() - end;
            &&& 0 <= speech - kept.0 <= padding
            &&& speech >= padding ==> speech - kept.0 == padding
            &&& 0 < speech < padding ==> speech - kept.0 < speech
            &&& 0 <= kept.1 - end <= padding
            &&& silence >= padding ==> kept.1 - end == padding
            &&& 0 < silence < padding ==> kept.1 - end < silence
        }),
{
    let (from, upto) = lemma_kept(loudness, config, kept);
    let padding = padding_of(config);
    assert(padding == config.trim_padding_ms * 16);
    assert(loudness.leading_start(window) == window * STEP);
    lemma_kept_from(loudness, padding, from, window, speech);
    lemma_kept_upto(loudness, padding, upto, last_window, end);
}

/// The windows that a recording is looked at through all lie in it, and no further
/// one would.
pub proof fn law_windows_fill_the_recording(samples: usize, count: usize)
    requires
        call_ensures(windows, (samples,), count),
    ensures
        count > 0 ==> (count - 1) * 160 + 320 <= samples,
        count * 160 + 320 > samples,
{
}

/// So many milliseconds are so many samples, rounded down.
pub proof fn law_milliseconds_are_samples(ms: u32, sample_rate: usize, samples: usize)
    requires
        call_ensures(ms_to_samples, (ms, sample_rate), samples),
        ms * sample_rate <= usize::MAX,
    ensures
        samples * 1000 <= ms * sample_rate < (samples + 1) * 1000,
{
}

/// No sample with a sound comes before the first one that is found in a part of a
/// recording, and none behind the last one.
pub proof fn law_sounds_lie_between(
    active: &[bool],
    start: usize,
    end: usize,
    first: usize,
    last: usize,
    at: int,
)
    requires
        start <= end <= active@.len(),
        call_ensures(first_active_sample, (active, start, end), first),
        call_ensures(last_active_sample, (active, start, end), last),
        start <= at < end,
        active@[at],
    ensures
        start <= first <= at < last <= end,
        active@[first as int],
        active@[last - 1],
{
}

/// Where a part of a recording has no sound, all of it counts.
pub proof fn law_part_without_sound_counts_whole(
    active: &[bool],
    start: usize,
    end: usize,
    first: usize,
    last: usize,
)
    requires
        start <= end <= active@.len(),
        call_ensures(first_active_sample, (active, start, end), first),
        call_ensures(last_active_sample, (active, start, end), last),
        forall|i: int| start <= i < end ==> !#[trigger] active@[i],
    ensures
        first == start,
        last == end,
{
}

} // verus!
