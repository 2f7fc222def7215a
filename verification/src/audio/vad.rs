//! When audio counts as speech.
//!
//! How likely a frame of 10 ms is speech is measured outside. Once a frame was
//! speech, the frames behind it count as speech for a while, so that the short
//! gaps between words are bridged.

use vstd::prelude::*;

verus! {

/// The rate at which audio is looked at, in samples to the second.
pub const VAD_SAMPLE_RATE: u32 = 48_000;

/// How many samples a frame has.
pub const FRAME_SIZE: usize = 480;

/// How many frames count as speech after it drops: 300 ms.
pub const HANGOVER_FRAMES: u32 = 30;

/// How long audio still counts as speech.
#[derive(Debug, Clone, Copy, PartialEq, Eq, Structural)]
pub struct SpeechHold {
    frames_left: u32,
}

/// For how many frames behind these, at most, audio still counts as speech.
pub open spec fn hold_after(frames: Seq<bool>) -> int
    decreases frames.len(),
{
    if frames.len() == 0 {
        0
    } else if frames.last() {
        HANGOVER_FRAMES as int
    } else if hold_after(frames.drop_last()) > 0 {
        hold_after(frames.drop_last()) - 1
    } else {
        0
    }
}

/// Whether the last of these frames counts as speech.
pub open spec fn is_held(frames: Seq<bool>) -> bool {
    frames.len() > 0 && (frames.last() || hold_after(frames.drop_last()) > 0)
}

impl SpeechHold {
    /// Whether this is where the frames so far have led.
    pub closed spec fn has_seen(self, frames: Seq<bool>) -> bool {
        self.frames_left == hold_after(frames)
    }

    /// How many of the frames to come count as speech at least.
    pub closed spec fn left(self) -> int {
        self.frames_left as int
    }

    /// Before the first frame.
    pub fn new() -> (hold: Self)
        ensures
            hold.left() == 0,
            hold.has_seen(Seq::empty()),
    {
        SpeechHold { frames_left: 0 }
    }

    /// Takes the next frame, which is speech or not, and says whether it counts
    /// as speech.
    pub fn integrate(&mut self, speech: bool) -> (held: bool)
        ensures
            held == (speech || old(self).left() > 0),
            final(self).left() == (if speech {
                HANGOVER_FRAMES as int
            } else if old(self).left() > 0 {
                old(self).left() - 1
            } else {
                0
            }),
            forall|frames: Seq<bool>| #[trigger]
                old(self).has_seen(frames) ==> held == is_held(frames.push(speech))
                    && final(self).has_seen(frames.push(speech)),
    {
        let held: bool = speech || self.frames_left > 0;
        proof {
            assert forall|frames: Seq<bool>| #[trigger] old(self).has_seen(frames) implies held
                == is_held(frames.push(speech)) by {
                assert(frames.push(speech).drop_last() =~= frames);
            }
        }
        if speech {
            self.frames_left = HANGOVER_FRAMES;
        } else if self.frames_left > 0 {
            self.frames_left = self.frames_left - 1;
        }
        proof {
            assert forall|frames: Seq<bool>| #[trigger] old(self).has_seen(frames) implies
                self.has_seen(frames.push(speech)) by {
                assert(frames.push(speech).drop_last() =~= frames);
            }
        }
        held
    }
}

impl Default for SpeechHold {
    fn default() -> (hold: Self)
        ensures
            hold.left() == 0,
            hold.has_seen(Seq::empty()),
    {
        SpeechHold::new()
    }
}

/// A frame counts as speech where it is, or where one of the thirty frames
/// before it was; and nowhere else.
pub proof fn law_speech_is_held(frames: Seq<bool>)
    requires
        frames.len() > 0,
    ensures
        is_held(frames) <==> exists|i: int|
            frames.len() - 1 - HANGOVER_FRAMES <= i < frames.len() && 0 <= i && #[trigger] frames[i],
{
    let before = frames.drop_last();
    lemma_hold_after(before);
    if is_held(frames) {
        if frames.last() {
            assert(frames[frames.len() - 1]);
        } else {
            let i = before.len() - 1 - (HANGOVER_FRAMES - hold_after(before));
            assert(before[i]);
            assert(frames[i]);
        }
    }
    if exists|i: int|
        frames.len() - 1 - HANGOVER_FRAMES <= i < frames.len() && 0 <= i && #[trigger] frames[i] {
        let i = choose|i: int|
            frames.len() - 1 - HANGOVER_FRAMES <= i < frames.len() && 0 <= i && #[trigger] frames[i];
        if i < before.len() {
            assert(before[i]);
            lemma_hold_lasts(before, i);
        }
    }
}

proof fn lemma_hold_after(frames: Seq<bool>)
    ensures
        0 <= hold_after(frames) <= HANGOVER_FRAMES,
        hold_after(frames) > 0 ==> ({
            let i = frames.len() - 1 - (HANGOVER_FRAMES - hold_after(frames));
            0 <= i < frames.len() && frames[i]
        }),
    decreases frames.len(),
{
    if frames.len() > 0 {
        lemma_hold_after(frames.drop_last());
    }
}

proof fn lemma_hold_lasts(frames: Seq<bool>, at: int)
    requires
        0 <= at < frames.len(),
        frames[at],
    ensures
        hold_after(frames) >= HANGOVER_FRAMES - (frames.len() - 1 - at),
    decreases frames.len(),
{
    if at < frames.len() - 1 {
        assert(frames.drop_last()[at]);
        lemma_hold_lasts(frames.drop_last(), at);
    }
    lemma_hold_after(frames);
}

/// How many whole frames samples make, and how many samples are left over.
pub fn frames_in(samples: usize) -> (split: (usize, usize))
    ensures
        split.0 * FRAME_SIZE + split.1 == samples,
        split.1 < FRAME_SIZE,
{
    (samples / FRAME_SIZE, samples % FRAME_SIZE)
}

/// A frame that is speech counts as such, and so do the thirty behind it; each
/// frame that is none uses up one of them, and behind the last one a frame that
/// is no speech counts as none.
pub proof fn law_hold_is_used_up_frame_by_frame(hold: &mut SpeechHold, speech: bool, held: bool)
    requires
        call_ensures(SpeechHold::integrate, (hold, speech), held),
    ensures
        speech ==> held && final(hold).left() == 30,
        !speech && old(hold).left() > 0 ==> held && final(hold).left() == old(hold).left() - 1,
        !speech && old(hold).left() == 0 ==> !held && final(hold).left() == 0,
{
}

/// Samples are cut into frames of 480, as many as there are, and fewer than one
/// frame is left over.
pub proof fn law_frames_are_whole(samples: usize, split: (usize, usize))
    requires
        call_ensures(frames_in, (samples,), split),
    ensures
        split.0 * 480 + split.1 == samples,
        split.1 < 480,
{
}

/// Before any speech, a frame that is none counts as none.
pub proof fn law_nothing_is_held_at_first(fresh: SpeechHold, hold: &mut SpeechHold, held: bool)
    requires
        call_ensures(SpeechHold::new, (), fresh),
        *old(hold) == fresh,
        call_ensures(SpeechHold::integrate, (hold, false), held),
    ensures
        !held,
        final(hold).left() == 0,
{
}

} // verus!
