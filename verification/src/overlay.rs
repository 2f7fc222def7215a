//! What the status overlay shows, and for how long.
//!
//! The overlay follows the session and never changes it. Times are in
//! nanoseconds.

use crate::state::SessionPhase;
use vstd::prelude::*;

verus! {

/// What an overlay is told.
#[derive(Debug, Clone, Copy, PartialEq, Eq, Structural)]
pub enum OverlayCommand {
    /// The session is in this phase.
    Phase(SessionPhase),
    /// There is more audio to show.
    Audio,
    /// Close at once.
    Abort,
    /// Fade, once the session is idle.
    FadeOut,
}

/// What an overlay forgets of the audio that it showed.
#[derive(Debug, Clone, Copy, PartialEq, Eq, Structural)]
pub struct Reset {
    /// Show silence, to begin with.
    pub displayed_audio: bool,
    /// Begin the motion anew.
    pub motion: bool,
}

/// The state of an overlay.
#[derive(Debug, Clone, Copy, PartialEq, Eq, Structural)]
pub struct OverlayState {
    pub phase: SessionPhase,
    pub fade_requested: bool,
    pub fade_started_at: Option<u128>,
    pub visible_started_at: Option<u128>,
    pub processing_started_at: Option<u128>,
    pub abort_requested: bool,
    pub fade_out_ms: u64,
}

/// Which audio an overlay shows.
#[derive(Debug, Clone, Copy, PartialEq, Eq, Structural)]
pub enum AudioTarget {
    /// The voice that is being recorded.
    Voice,
    /// None: something is being worked on.
    Work,
    /// The audio as it came.
    Plain,
}

/// What came of asking for a texture to draw on.
#[derive(Debug, Clone, Copy, PartialEq, Eq, Structural)]
pub enum TextureStatus {
    Ready,
    /// The surface has changed, or is lost.
    Stale,
    Unavailable,
}

/// What to do with a frame.
#[derive(Debug, Clone, Copy, PartialEq, Eq, Structural)]
pub enum FrameStep {
    Draw,
    /// Set the surface up anew, and ask for a texture again.
    Reconfigure,
    /// Leave this frame out.
    Skip,
}

/// What to do with a frame: where the surface has changed it is set up anew,
/// once; a frame that cannot be drawn then is left out.
pub fn frame_step(status: TextureStatus, reconfigured: bool) -> (step: FrameStep)
    ensures
        step == (match status {
            TextureStatus::Ready => FrameStep::Draw,
            TextureStatus::Stale if !reconfigured => FrameStep::Reconfigure,
            _ => FrameStep::Skip,
        }),
{
    match status {
        TextureStatus::Ready => FrameStep::Draw,
        TextureStatus::Stale => if reconfigured {
            FrameStep::Skip
        } else {
            FrameStep::Reconfigure
        },
        TextureStatus::Unavailable => FrameStep::Skip,
    }
}

/// A share of a whole: a number from 0 to `whole`, which is not 0.
#[derive(Debug, Clone, Copy, PartialEq, Eq, Structural)]
pub struct Share {
    pub part: u128,
    pub whole: u128,
}

/// Whether something is being worked on in this phase.
pub open spec fn is_working(phase: SessionPhase) -> bool {
    phase == SessionPhase::Processing || phase == SessionPhase::Pasting
}

/// Whether something is being worked on in this phase.
fn working(phase: SessionPhase) -> (work: bool)
    ensures
        work == is_working(phase),
{
    phase == SessionPhase::Processing || phase == SessionPhase::Pasting
}

/// How long ago something was, at least 0.
pub open spec fn elapsed(now: u128, then: u128) -> int {
    if now < then {
        0
    } else {
        now - then
    }
}

/// How long ago something was, at least 0.
fn since(now: u128, then: u128) -> (time: u128)
    ensures
        time == elapsed(now, then),
{
    if now < then {
        0
    } else {
        now - then
    }
}

/// How much of a time is over, at most all of it. Of no time at all, all is.
pub open spec fn share_over(time: int, whole: int) -> Share {
    if whole == 0 {
        Share { part: 1, whole: 1 }
    } else if time >= whole {
        Share { part: whole as u128, whole: whole as u128 }
    } else {
        Share { part: time as u128, whole: whole as u128 }
    }
}

/// How much of a time is over, at most all of it.
fn share(time: u128, whole: u128) -> (over: Share)
    ensures
        over == share_over(time as int, whole as int),
{
    if whole == 0 {
        Share { part: 1, whole: 1 }
    } else if time >= whole {
        Share { part: whole, whole }
    } else {
        Share { part: time, whole }
    }
}

impl OverlayState {
    /// How long the overlay fades.
    pub open spec fn fade_time(self) -> int {
        self.fade_out_ms * 1_000_000
    }

    fn fade_nanos(&self) -> (time: u128)
        ensures
            time == self.fade_time(),
    {
        (self.fade_out_ms as u128) * 1_000_000
    }

    /// An overlay that shows nothing yet.
    pub fn new(fade_out_ms: u64) -> (overlay: Self)
        ensures
            overlay == (OverlayState {
                phase: SessionPhase::Idle,
                fade_requested: false,
                fade_started_at: None,
                visible_started_at: None,
                processing_started_at: None,
                abort_requested: false,
                fade_out_ms,
            }),
    {
        OverlayState {
            phase: SessionPhase::Idle,
            fade_requested: false,
            fade_started_at: None,
            visible_started_at: None,
            processing_started_at: None,
            abort_requested: false,
            fade_out_ms,
        }
    }

    /// After the overlay has begun to fade, if it is to and has not yet.
    pub open spec fn fading(self, now: u128) -> OverlayState {
        if self.phase == SessionPhase::Idle && self.fade_requested && self.fade_started_at is None {
            OverlayState { fade_started_at: Some(now), ..self }
        } else {
            self
        }
    }

    /// After the session has come to a phase.
    pub open spec fn in_phase(self, phase: SessionPhase, now: u128) -> OverlayState {
        OverlayState {
            phase,
            visible_started_at: if phase != SessionPhase::Idle && self.phase
                == SessionPhase::Idle {
                Some(now)
            } else {
                self.visible_started_at
            },
            processing_started_at: if is_working(phase) && !is_working(self.phase) {
                Some(now)
            } else if phase == SessionPhase::Recording && self.phase != SessionPhase::Recording {
                None
            } else {
                self.processing_started_at
            },
            fade_started_at: if phase != SessionPhase::Idle {
                None
            } else {
                self.fade_started_at
            },
            ..self
        }.fading(now)
    }

    /// After a command.
    pub open spec fn commanded(self, command: OverlayCommand, now: u128) -> OverlayState {
        match command {
            OverlayCommand::Phase(phase) => self.in_phase(phase, now),
            OverlayCommand::Audio => self,
            OverlayCommand::Abort => OverlayState { abort_requested: true, ..self },
            OverlayCommand::FadeOut => OverlayState { fade_requested: true, ..self }.fading(now),
        }
    }

    /// What the overlay forgets at a command.
    pub open spec fn reset_by(self, command: OverlayCommand) -> Reset {
        match command {
            OverlayCommand::Phase(phase) => Reset {
                displayed_audio: phase != SessionPhase::Idle && self.phase == SessionPhase::Idle,
                motion: phase == SessionPhase::Recording && self.phase != SessionPhase::Recording,
            },
            _ => Reset { displayed_audio: false, motion: false },
        }
    }

    /// Begins to fade, if the overlay is to and has not yet.
    pub fn maybe_start_fade(&mut self, now: u128)
        ensures
            *final(self) == old(self).fading(now),
    {
        if self.phase == SessionPhase::Idle && self.fade_requested && self.fade_started_at.is_none() {
            self.fade_started_at = Some(now);
        }
    }

    /// Carries out a command. Returns what the overlay is to forget.
    pub fn handle_command(&mut self, command: OverlayCommand, now: u128) -> (reset: Reset)
        ensures
            *final(self) == old(self).commanded(command, now),
            reset == old(self).reset_by(command),
    {
        let mut reset = Reset { displayed_audio: false, motion: false };
        match command {
            OverlayCommand::Phase(phase) => {
                let entering_visible: bool = phase != SessionPhase::Idle && self.phase
                    == SessionPhase::Idle;
                let entering_recording: bool = phase == SessionPhase::Recording && self.phase
                    != SessionPhase::Recording;
                let entering_working: bool = working(phase) && !working(self.phase);
                self.phase = phase;
                if entering_visible {
                    self.visible_started_at = Some(now);
                    reset.displayed_audio = true;
                }
                if entering_recording {
                    self.processing_started_at = None;
                    reset.motion = true;
                }
                if entering_working {
                    self.processing_started_at = Some(now);
                }
                if phase != SessionPhase::Idle {
                    self.fade_started_at = None;
                }
                self.maybe_start_fade(now);
            },
            OverlayCommand::Audio => {},
            OverlayCommand::Abort => {
                self.abort_requested = true;
            },
            OverlayCommand::FadeOut => {
                self.fade_requested = true;
                self.maybe_start_fade(now);
            },
        }
        reset
    }

    /// Whether the overlay shows that something is being worked on: it is, or it
    /// was and the overlay fades.
    pub open spec fn shows_work(self) -> bool {
        is_working(self.phase) || (self.fade_started_at is Some && self.phase
            == SessionPhase::Idle)
    }

    /// Whether the overlay shows that something is being worked on.
    pub fn processing_like(&self) -> (work: bool)
        ensures
            work == self.shows_work(),
    {
        working(self.phase) || (self.fade_started_at.is_some() && self.phase
            == SessionPhase::Idle)
    }

    /// Which audio the overlay shows.
    pub fn audio_target(&self) -> (target: AudioTarget)
        ensures
            target == (if self.phase == SessionPhase::Recording {
                AudioTarget::Voice
            } else if self.shows_work() {
                AudioTarget::Work
            } else {
                AudioTarget::Plain
            }),
    {
        if self.phase == SessionPhase::Recording {
            AudioTarget::Voice
        } else if self.processing_like() {
            AudioTarget::Work
        } else {
            AudioTarget::Plain
        }
    }

    /// Whether the overlay can be seen.
    pub open spec fn is_visible(self) -> bool {
        self.phase != SessionPhase::Idle || self.fade_started_at is Some
    }

    /// How much of the overlay can be seen, as two shares to be multiplied: how
    /// far it has come up, and how much is left of it since it fades. Nothing
    /// where it is not visible.
    pub open spec fn opacity(self, now: u128) -> Option<(Share, Share)> {
        if !self.is_visible() {
            None
        } else {
            let come_up = match self.visible_started_at {
                Some(then) => share_over(elapsed(now, then), self.fade_time()),
                None => Share { part: 1, whole: 1 },
            };
            let left = match self.fade_started_at {
                Some(then) => {
                    let over = share_over(elapsed(now, then), self.fade_time());
                    Share { part: (over.whole - over.part) as u128, whole: over.whole }
                },
                None => Share { part: 1, whole: 1 },
            };
            Some((come_up, left))
        }
    }

    /// How much of the overlay can be seen.
    pub fn fade_alpha(&self, now: u128) -> (shares: Option<(Share, Share)>)
        ensures
            shares == self.opacity(now),
    {
        if self.phase == SessionPhase::Idle && self.fade_started_at.is_none() {
            return None;
        }
        let whole: u128 = self.fade_nanos();
        let come_up: Share = match self.visible_started_at {
            Some(then) => share(since(now, then), whole),
            None => Share { part: 1, whole: 1 },
        };
        let left: Share = match self.fade_started_at {
            Some(then) => {
                let over: Share = share(since(now, then), whole);
                Share { part: over.whole - over.part, whole: over.whole }
            },
            None => Share { part: 1, whole: 1 },
        };
        Some((come_up, left))
    }

    /// For how long something has been worked on, where the overlay shows that.
    pub open spec fn work_time(self, now: u128) -> Option<int> {
        if self.shows_work() {
            match self.processing_started_at {
                Some(then) => Some(elapsed(now, then)),
                None => Some(0),
            }
        } else {
            None
        }
    }

    /// For how long something has been worked on, where the overlay shows that.
    pub fn processing_time(&self, now: u128) -> (time: Option<u128>)
        ensures
            match time {
                Some(time) => self.work_time(now) == Some(time as int),
                None => self.work_time(now) is None,
            },
    {
        if !self.processing_like() {
            return None;
        }
        match self.processing_started_at {
            Some(then) => Some(since(now, then)),
            None => Some(0),
        }
    }

    /// Whether the overlay has faded.
    pub open spec fn has_faded(self, now: u128) -> bool {
        self.fade_started_at matches Some(then) && elapsed(now, then) >= self.fade_time()
    }

    /// Whether the overlay has faded, and is to be closed.
    pub fn close_if_fade_completed(&self, now: u128) -> (faded: bool)
        ensures
            faded == self.has_faded(now),
    {
        match self.fade_started_at {
            Some(then) => since(now, then) >= self.fade_nanos(),
            None => false,
        }
    }
}

/// The state of an overlay after commands, each with its time.
pub open spec fn after_all(overlay: OverlayState, commands: Seq<(OverlayCommand, u128)>) -> OverlayState
    decreases commands.len(),
{
    if commands.len() == 0 {
        overlay
    } else {
        after_all(overlay, commands.drop_last()).commanded(
            commands.last().0,
            commands.last().1,
        )
    }
}

/// An overlay that is told everything from its start on fades only where it was
/// asked to and the session is idle; and where both hold, it does.
pub proof fn law_overlay_fades_when_idle(
    overlay: OverlayState,
    commands: Seq<(OverlayCommand, u128)>,
)
    requires
        call_ensures(OverlayState::new, (overlay.fade_out_ms,), overlay),
    ensures
        ({
            let now = after_all(overlay, commands);
            now.fade_started_at is Some <==> now.phase == SessionPhase::Idle && now.fade_requested
        }),
    decreases commands.len(),
{
    if commands.len() > 0 {
        law_overlay_fades_when_idle(overlay, commands.drop_last());
    }
}

/// An abort is never taken back.
pub proof fn law_overlay_abort_is_final(
    overlay: OverlayState,
    commands: Seq<(OverlayCommand, u128)>,
)
    requires
        overlay.abort_requested,
    ensures
        after_all(overlay, commands).abort_requested,
    decreases commands.len(),
{
    if commands.len() > 0 {
        law_overlay_abort_is_final(overlay, commands.drop_last());
    }
}

/// An overlay that has faded cannot be seen any more, and until then it fades
/// steadily: as time goes on, less and less is left of it.
pub proof fn law_fade_only_falls(overlay: OverlayState, now: u128, later: u128)
    requires
        now <= later,
        overlay.fade_started_at is Some,
    ensures
        overlay.opacity(now) is Some,
        overlay.opacity(later) is Some,
        ({
            let (_, left) = overlay.opacity(now)->0;
            let (_, left_later) = overlay.opacity(later)->0;
            &&& left_later.whole == left.whole
            &&& left_later.part <= left.part
            &&& overlay.has_faded(later) <==> left_later.part == 0
        }),
{
}

/// An overlay, as its owner holds it. One that is not enabled is told nothing.
#[derive(Debug, Clone, Copy, PartialEq, Eq, Structural)]
pub struct OverlayHandle {
    enabled: bool,
}

impl OverlayHandle {
    /// Whether there is anything to tell.
    pub closed spec fn enabled(self) -> bool {
        self.enabled
    }

    /// What to tell an overlay, if it is told anything.
    pub open spec fn telling(self, command: OverlayCommand) -> Option<OverlayCommand> {
        if self.enabled() {
            Some(command)
        } else {
            None
        }
    }

    /// An overlay that is enabled, or is not.
    pub fn new(enabled: bool) -> (handle: Self)
        ensures
            handle.enabled() == enabled,
    {
        OverlayHandle { enabled }
    }

    /// Whether the overlay is enabled.
    pub fn is_enabled(&self) -> (enabled: bool)
        ensures
            enabled == self.enabled(),
    {
        self.enabled
    }

    fn tell(&self, command: OverlayCommand) -> (told: Option<OverlayCommand>)
        ensures
            told == self.telling(command),
    {
        if self.enabled {
            Some(command)
        } else {
            None
        }
    }

    /// What to tell the overlay when the session comes to a phase.
    pub fn set_phase(&self, phase: SessionPhase) -> (told: Option<OverlayCommand>)
        ensures
            told == self.telling(OverlayCommand::Phase(phase)),
    {
        self.tell(OverlayCommand::Phase(phase))
    }

    /// What to tell the overlay when there is more audio.
    pub fn push_audio_snapshot(&self) -> (told: Option<OverlayCommand>)
        ensures
            told == self.telling(OverlayCommand::Audio),
    {
        self.tell(OverlayCommand::Audio)
    }

    /// What to tell the overlay to close it at once.
    pub fn request_abort(&self) -> (told: Option<OverlayCommand>)
        ensures
            told == self.telling(OverlayCommand::Abort),
    {
        self.tell(OverlayCommand::Abort)
    }

    /// What to tell the overlay to let it fade.
    pub fn request_fade_out(&self) -> (told: Option<OverlayCommand>)
        ensures
            told == self.telling(OverlayCommand::FadeOut),
    {
        self.tell(OverlayCommand::FadeOut)
    }
}

/// A step to the end of an overlay.
#[derive(Debug, Clone, Copy, PartialEq, Eq, Structural)]
pub enum EndStep {
    /// Tell the overlay.
    Tell(OverlayCommand),
    /// Wait so many milliseconds.
    Wait(u64),
    /// Send no more audio, and wait until all of it has gone.
    StopAudio,
    /// Close the overlay, and wait for that.
    Close,
}

/// How an overlay is taken away at once.
pub fn abort_now() -> (steps: Vec<EndStep>)
    ensures
        steps@ == seq![
            EndStep::Tell(OverlayCommand::Abort),
            EndStep::StopAudio,
            EndStep::Close,
        ],
{
    let mut steps: Vec<EndStep> = Vec::new();
    steps.push(EndStep::Tell(OverlayCommand::Abort));
    steps.push(EndStep::StopAudio);
    steps.push(EndStep::Close);
    steps
}

/// How an overlay ends that fades for so many milliseconds.
pub fn finish_with_fade(fade_out_ms: u64) -> (steps: Vec<EndStep>)
    ensures
        steps@ == seq![
            EndStep::Tell(OverlayCommand::Phase(SessionPhase::Idle)),
            EndStep::Tell(OverlayCommand::FadeOut),
            EndStep::Wait(fade_out_ms),
            EndStep::StopAudio,
            EndStep::Close,
        ],
{
    let mut steps: Vec<EndStep> = Vec::new();
    steps.push(EndStep::Tell(OverlayCommand::Phase(SessionPhase::Idle)));
    steps.push(EndStep::Tell(OverlayCommand::FadeOut));
    steps.push(EndStep::Wait(fade_out_ms));
    steps.push(EndStep::StopAudio);
    steps.push(EndStep::Close);
    steps
}

/// An overlay that is told to end as [`finish_with_fade`] says begins to fade
/// then, if it does not fade already, and has faded when the wait is over.
pub proof fn law_wait_is_as_long_as_the_fade(
    overlay: OverlayState,
    told: u128,
    then: u128,
    now: u128,
)
    requires
        told <= then,
        overlay.fade_started_at matches Some(started) ==> started <= told,
        now >= then + overlay.fade_out_ms * 1_000_000,
    ensures
        overlay.commanded(OverlayCommand::Phase(SessionPhase::Idle), told).commanded(
            OverlayCommand::FadeOut,
            then,
        ).has_faded(now),
{
}

/// An overlay that is told of a phase is in it. In any phase but the idle one it
/// can be seen and does not fade, and what it was asked before, to fade or to
/// close, stays asked.
pub proof fn law_overlay_follows_the_phase(
    overlay: &mut OverlayState,
    phase: SessionPhase,
    now: u128,
    reset: Reset,
    shares: Option<(Share, Share)>,
)
    requires
        call_ensures(
            OverlayState::handle_command,
            (overlay, OverlayCommand::Phase(phase), now),
            reset,
        ),
        call_ensures(OverlayState::fade_alpha, (final(overlay), now), shares),
    ensures
        final(overlay).phase == phase,
        phase != SessionPhase::Idle ==> final(overlay).fade_started_at is None && shares is Some,
        final(overlay).fade_requested == old(overlay).fade_requested,
        final(overlay).abort_requested == old(overlay).abort_requested,
        final(overlay).fade_out_ms == old(overlay).fade_out_ms,
        phase == SessionPhase::Idle && !old(overlay).fade_requested && old(overlay).fade_started_at is None ==> shares is None,
        phase == SessionPhase::Idle && old(overlay).fade_requested ==> final(overlay).fade_started_at is Some,
{
}

/// An overlay begins to come up, with silence, when the session leaves the idle
/// phase, and not again before it was idle; it begins to count the work when the
/// session begins to process, and goes on counting when it pastes; and its motion
/// begins anew with each recording.
pub proof fn law_overlay_counts_from_the_right_moment(
    overlay: &mut OverlayState,
    phase: SessionPhase,
    now: u128,
    reset: Reset,
)
    requires
        call_ensures(
            OverlayState::handle_command,
            (overlay, OverlayCommand::Phase(phase), now),
            reset,
        ),
    ensures
        old(overlay).phase == SessionPhase::Idle && phase != SessionPhase::Idle ==> final(overlay).visible_started_at == Some(now) && reset.displayed_audio,
        old(overlay).phase != SessionPhase::Idle || phase == SessionPhase::Idle ==> final(overlay).visible_started_at == old(overlay).visible_started_at && !reset.displayed_audio,
        (phase == SessionPhase::Processing || phase == SessionPhase::Pasting) && (old(overlay).phase
            == SessionPhase::Idle || old(overlay).phase == SessionPhase::Recording) ==> final(overlay).processing_started_at == Some(now),
        (phase == SessionPhase::Processing || phase == SessionPhase::Pasting) && (old(overlay).phase
            == SessionPhase::Processing || old(overlay).phase == SessionPhase::Pasting) ==> final(overlay).processing_started_at == old(overlay).processing_started_at,
        phase == SessionPhase::Idle ==> final(overlay).processing_started_at == old(overlay).processing_started_at,
        phase == SessionPhase::Recording && old(overlay).phase != SessionPhase::Recording ==> final(overlay).processing_started_at is None,
        reset.motion <==> phase == SessionPhase::Recording && old(overlay).phase
            != SessionPhase::Recording,
{
}

/// An overlay that is told to close is to be closed, and one that is told to fade
/// is to fade; audio changes neither, and none of them changes the phase.
pub proof fn law_overlay_does_as_it_is_told(
    overlay: &mut OverlayState,
    command: OverlayCommand,
    now: u128,
    reset: Reset,
)
    requires
        call_ensures(OverlayState::handle_command, (overlay, command, now), reset),
        !(command is Phase),
    ensures
        final(overlay).phase == old(overlay).phase,
        final(overlay).visible_started_at == old(overlay).visible_started_at,
        final(overlay).processing_started_at == old(overlay).processing_started_at,
        command == OverlayCommand::Abort ==> final(overlay).abort_requested,
        command == OverlayCommand::FadeOut ==> final(overlay).fade_requested,
        command != OverlayCommand::Abort ==> final(overlay).abort_requested == old(overlay).abort_requested,
        command == OverlayCommand::Audio ==> *final(overlay) == *old(overlay),
        command == OverlayCommand::FadeOut && old(overlay).phase == SessionPhase::Idle && old(overlay).fade_started_at is None ==> final(overlay).fade_started_at == Some(now),
        command == OverlayCommand::FadeOut && (old(overlay).phase != SessionPhase::Idle || old(overlay).fade_started_at is Some) ==> final(overlay).fade_started_at == old(overlay).fade_started_at,
        !reset.displayed_audio && !reset.motion,
{
}

/// An overlay comes up steadily: not at all at first, and all of it once as much
/// time has gone by as it fades for; and one that does not fade is not less for
/// it.
pub proof fn law_overlay_comes_up_steadily(
    overlay: OverlayState,
    then: u128,
    now: u128,
    later: u128,
    shares: Option<(Share, Share)>,
    shares_later: Option<(Share, Share)>,
)
    requires
        call_ensures(OverlayState::fade_alpha, (&overlay, now), shares),
        call_ensures(OverlayState::fade_alpha, (&overlay, later), shares_later),
        overlay.phase != SessionPhase::Idle || overlay.fade_started_at is Some,
        overlay.visible_started_at == Some(then),
        then <= now <= later,
    ensures
        shares is Some && shares_later is Some,
        ({
            let (up, left) = shares->0;
            let (up_later, _) = shares_later->0;
            &&& up.whole > 0 && up.whole == up_later.whole
            &&& up.part <= up_later.part <= up.whole
            &&& overlay.fade_out_ms > 0 && now == then ==> up.part == 0
            &&& now - then >= overlay.fade_out_ms * 1_000_000 <==> up.part == up.whole
            &&& overlay.fade_out_ms > 0 && now - then <= overlay.fade_out_ms * 1_000_000 ==> up.part
                * (overlay.fade_out_ms * 1_000_000) == (now - then) * up.whole
            &&& overlay.fade_started_at is None ==> left.part == left.whole && left.whole > 0
        }),
{
    let whole = overlay.fade_out_ms * 1_000_000;
    if overlay.fade_out_ms > 0 && now - then <= whole {
        let (up, _) = shares->0;
        assert(up.whole == whole);
        assert(up.part == now - then);
        assert(up.part * whole == (now - then) * up.whole);
    }
}

/// An overlay fades for as long as it is configured to, from when it began: until
/// then it is not closed, and from then on it is.
pub proof fn law_overlay_is_closed_when_faded(
    overlay: OverlayState,
    then: u128,
    now: u128,
    faded: bool,
    shares: Option<(Share, Share)>,
)
    requires
        call_ensures(OverlayState::close_if_fade_completed, (&overlay, now), faded),
        call_ensures(OverlayState::fade_alpha, (&overlay, now), shares),
        then <= now,
    ensures
        overlay.fade_started_at is None ==> !faded,
        overlay.fade_started_at == Some(then) ==> (faded <==> now - then >= overlay.fade_out_ms
            * 1_000_000),
        overlay.fade_started_at == Some(then) && overlay.fade_out_ms > 0 && !faded ==> (
        shares matches Some((_, left)) && left.whole - left.part == now - then && left.whole
            == overlay.fade_out_ms * 1_000_000),
        overlay.fade_started_at == Some(then) && faded ==> (shares matches Some((_, left))
            && left.part == 0),
{
}

/// What the overlay shows is the voice while it is recorded, work while there is
/// any or the overlay fades after it, and else the audio as it came; the work is
/// counted from when it began.
pub proof fn law_overlay_shows_what_goes_on(
    overlay: OverlayState,
    now: u128,
    then: u128,
    target: AudioTarget,
    time: Option<u128>,
    work: bool,
)
    requires
        call_ensures(OverlayState::audio_target, (&overlay,), target),
        call_ensures(OverlayState::processing_time, (&overlay, now), time),
        call_ensures(OverlayState::processing_like, (&overlay,), work),
        then <= now,
    ensures
        target == AudioTarget::Voice <==> overlay.phase == SessionPhase::Recording,
        overlay.phase == SessionPhase::Processing || overlay.phase == SessionPhase::Pasting
            ==> target == AudioTarget::Work,
        overlay.phase == SessionPhase::Idle ==> (target == AudioTarget::Work
            <==> overlay.fade_started_at is Some),
        work <==> target == AudioTarget::Work,
        time is Some <==> work,
        work && overlay.processing_started_at == Some(then) ==> time == Some((now - then) as u128),
        work && overlay.processing_started_at is None ==> time == Some(0u128),
{
}

/// A frame is drawn whenever there is something to draw on; a surface that has
/// changed is set up anew once, and not twice for one frame.
pub proof fn law_frame_is_drawn_when_it_can_be(
    status: TextureStatus,
    reconfigured: bool,
    step: FrameStep,
)
    requires
        call_ensures(frame_step, (status, reconfigured), step),
    ensures
        step == FrameStep::Draw <==> status == TextureStatus::Ready,
        step == FrameStep::Reconfigure <==> status == TextureStatus::Stale && !reconfigured,
{
}

/// An overlay that is enabled is told everything, and each thing as it is; one
/// that is not is told nothing.
pub proof fn law_enabled_overlay_is_told(
    enabled: bool,
    handle: OverlayHandle,
    phase: SessionPhase,
    of_phase: Option<OverlayCommand>,
    of_audio: Option<OverlayCommand>,
    of_abort: Option<OverlayCommand>,
    of_fade: Option<OverlayCommand>,
)
    requires
        call_ensures(OverlayHandle::new, (enabled,), handle),
        call_ensures(OverlayHandle::set_phase, (&handle, phase), of_phase),
        call_ensures(OverlayHandle::push_audio_snapshot, (&handle,), of_audio),
        call_ensures(OverlayHandle::request_abort, (&handle,), of_abort),
        call_ensures(OverlayHandle::request_fade_out, (&handle,), of_fade),
    ensures
        enabled ==> of_phase == Some(OverlayCommand::Phase(phase)) && of_audio == Some(
            OverlayCommand::Audio,
        ) && of_abort == Some(OverlayCommand::Abort) && of_fade == Some(OverlayCommand::FadeOut),
        !enabled ==> of_phase is None && of_audio is None && of_abort is None && of_fade is None,
{
}

/// An overlay that ends with a fade is told that the session is idle and to fade,
/// is given the time for that, and is closed last; one that is aborted is told so
/// and closed without a wait. Either way the audio is stopped before it closes.
pub proof fn law_overlay_is_closed_last(
    fade_out_ms: u64,
    fading: Vec<EndStep>,
    aborting: Vec<EndStep>,
)
    requires
        call_ensures(finish_with_fade, (fade_out_ms,), fading),
        call_ensures(abort_now, (), aborting),
    ensures
        fading@.last() == EndStep::Close,
        fading@.contains(EndStep::Wait(fade_out_ms)),
        fading@[0] == EndStep::Tell(OverlayCommand::Phase(SessionPhase::Idle)),
        fading@[1] == EndStep::Tell(OverlayCommand::FadeOut),
        fading@[fading@.len() - 2] == EndStep::StopAudio,
        aborting@.last() == EndStep::Close,
        aborting@[0] == EndStep::Tell(OverlayCommand::Abort),
        aborting@[aborting@.len() - 2] == EndStep::StopAudio,
        forall|i: int| 0 <= i < aborting@.len() ==> !((#[trigger] aborting@[i]) is Wait),
{
    assert(fading@[2] == EndStep::Wait(fade_out_ms));
}

/// A fade begins now, where one is asked for, the session is idle and none has
/// begun; one that has begun is not put off, and nothing else changes.
pub proof fn law_fade_begins_once(overlay: &mut OverlayState, now: u128)
    requires
        call_ensures(OverlayState::maybe_start_fade, (overlay, now), ()),
    ensures
        old(overlay).fade_started_at is Some ==> final(overlay).fade_started_at == old(
            overlay,
        ).fade_started_at,
        old(overlay).fade_started_at is None ==> (final(overlay).fade_started_at == Some(now)
            <==> old(overlay).fade_requested && old(overlay).phase == SessionPhase::Idle),
        old(overlay).fade_started_at is None && !(old(overlay).fade_requested && old(overlay).phase
            == SessionPhase::Idle) ==> final(overlay).fade_started_at is None,
        final(overlay).phase == old(overlay).phase,
        final(overlay).fade_requested == old(overlay).fade_requested,
        final(overlay).visible_started_at == old(overlay).visible_started_at,
        final(overlay).processing_started_at == old(overlay).processing_started_at,
{
}

} // verus!
