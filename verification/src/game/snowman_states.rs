use vstd::prelude::*;

verus! {

/// What the snowman is doing right now.
///
/// Every animated state holds, as its last field, the frame at which it
/// began. `Shrinking`, `Growing` and `Big` hold the targeted multiplier on the
/// y-axis first, in thousandths; the states that avoid the pointer hold the
/// point to avoid.
#[derive(Copy, Clone, PartialEq, Eq, Structural, Debug)]
pub enum SnowmanStates {
    Idle,
    Waving(i32),
    Jumping(i32),
    TakingTopHat(i32),
    HoldingTopHat(),
    PutTopHatBackOn(i32),
    Melting(i32),
    Melted,
    ResurrectionInProgress(i32),
    Shrinking(i32, i32),
    Growing(i32, i32),
    Big(i32),
    MorphingIntoAFirTree(i32),
    IsFirTree(),
    MorphingFromAFirTree(i32),
    DeformationToAvoidPoint(i32, i32, i32),
    IsDeformedToAvoidPoint(i32, i32),
    ReverseDeformationToAvoidPoint(i32, i32, i32),
}

impl SnowmanStates {
    /// The frame at which an animated state began; `None` for a state at rest.
    pub open spec fn start_frame(self) -> Option<i32> {
        match self {
            SnowmanStates::Waving(start) => Some(start),
            SnowmanStates::Jumping(start) => Some(start),
            SnowmanStates::TakingTopHat(start) => Some(start),
            SnowmanStates::PutTopHatBackOn(start) => Some(start),
            SnowmanStates::Melting(start) => Some(start),
            SnowmanStates::ResurrectionInProgress(start) => Some(start),
            SnowmanStates::Shrinking(_, start) => Some(start),
            SnowmanStates::Growing(_, start) => Some(start),
            SnowmanStates::MorphingIntoAFirTree(start) => Some(start),
            SnowmanStates::MorphingFromAFirTree(start) => Some(start),
            SnowmanStates::DeformationToAvoidPoint(_, _, start) => Some(start),
            SnowmanStates::ReverseDeformationToAvoidPoint(_, _, start) => Some(start),
            _ => None,
        }
    }

    /// An animated state runs for a fixed number of frames and then gives way
    /// to its resting state.
    pub open spec fn is_animated(self) -> bool {
        self.start_frame() is Some
    }

    /// The state that follows once an animation has run its course. A state
    /// at rest follows itself.
    pub open spec fn resting(self) -> SnowmanStates {
        match self {
            SnowmanStates::Waving(_) => SnowmanStates::Idle,
            SnowmanStates::Jumping(_) => SnowmanStates::Idle,
            SnowmanStates::PutTopHatBackOn(_) => SnowmanStates::Idle,
            SnowmanStates::ResurrectionInProgress(_) => SnowmanStates::Idle,
            SnowmanStates::ReverseDeformationToAvoidPoint(_, _, _) => SnowmanStates::Idle,
            SnowmanStates::MorphingFromAFirTree(_) => SnowmanStates::Idle,
            SnowmanStates::TakingTopHat(_) => SnowmanStates::HoldingTopHat(),
            SnowmanStates::Melting(_) => SnowmanStates::Melted,
            SnowmanStates::Shrinking(scale, _) => SnowmanStates::Big(scale),
            SnowmanStates::Growing(scale, _) => SnowmanStates::Big(scale),
            SnowmanStates::MorphingIntoAFirTree(_) => SnowmanStates::IsFirTree(),
            SnowmanStates::DeformationToAvoidPoint(x, y, _) => SnowmanStates::IsDeformedToAvoidPoint(
                x,
                y,
            ),
            other => other,
        }
    }

    /// The number of frames an animated state has been running at
    /// `current_frame`; zero for a state at rest.
    pub open spec fn elapsed(self, current_frame: i32) -> int {
        match self.start_frame() {
            Some(start) => current_frame - start,
            None => 0,
        }
    }

    /// An animation is over once it has run for `duration` frames.
    pub open spec fn is_over(self, current_frame: i32, duration: i32) -> bool {
        self.is_animated() && self.elapsed(current_frame) >= duration
    }

    /// The state one step later: an animation that is over gives way to its
    /// resting state, every other state stays.
    pub open spec fn advanced(self, current_frame: i32, duration: i32) -> SnowmanStates {
        if self.is_over(current_frame, duration) {
            self.resting()
        } else {
            self
        }
    }

    /// Whether the session is over after this step: it is once the morph
    /// back from the fir tree has run its course.
    pub open spec fn ends_session(self, current_frame: i32, duration: i32) -> bool {
        self is MorphingFromAFirTree && self.is_over(current_frame, duration)
    }

    /// The frame at which this state began, if it is animated.
    pub fn started_at(self) -> (start: Option<i32>)
        ensures
            start == self.start_frame(),
    {
        match self {
            SnowmanStates::Waving(start) => Some(start),
            SnowmanStates::Jumping(start) => Some(start),
            SnowmanStates::TakingTopHat(start) => Some(start),
            SnowmanStates::PutTopHatBackOn(start) => Some(start),
            SnowmanStates::Melting(start) => Some(start),
            SnowmanStates::ResurrectionInProgress(start) => Some(start),
            SnowmanStates::Shrinking(_, start) => Some(start),
            SnowmanStates::Growing(_, start) => Some(start),
            SnowmanStates::MorphingIntoAFirTree(start) => Some(start),
            SnowmanStates::MorphingFromAFirTree(start) => Some(start),
            SnowmanStates::DeformationToAvoidPoint(_, _, start) => Some(start),
            SnowmanStates::ReverseDeformationToAvoidPoint(_, _, start) => Some(start),
            _ => None,
        }
    }

    /// The number of frames this state has been running at `current_frame`.
    pub fn frames_since_start(self, current_frame: i32) -> (frames: i64)
        ensures
            frames == self.elapsed(current_frame),
    {
        match self.started_at() {
            Some(start) => current_frame as i64 - start as i64,
            None => 0,
        }
    }

    /// Whether this state is an animation that has run for `duration` frames.
    pub fn has_run_out(self, current_frame: i32, duration: i32) -> (over: bool)
        ensures
            over == self.is_over(current_frame, duration),
    {
        match self.started_at() {
            Some(start) => current_frame as i64 - start as i64 >= duration as i64,
            None => false,
        }
    }

    /// One step of the state machine, taken once per frame before any input
    /// is handled.
    pub fn advance(self, current_frame: i32, duration: i32) -> (next: SnowmanStates)
        ensures
            next == self.advanced(current_frame, duration),
    {
        if !self.has_run_out(current_frame, duration) {
            return self;
        }
        match self {
            SnowmanStates::TakingTopHat(_) => SnowmanStates::HoldingTopHat(),
            SnowmanStates::Melting(_) => SnowmanStates::Melted,
            SnowmanStates::Shrinking(scale, _) => SnowmanStates::Big(scale),
            SnowmanStates::Growing(scale, _) => SnowmanStates::Big(scale),
            SnowmanStates::MorphingIntoAFirTree(_) => SnowmanStates::IsFirTree(),
            SnowmanStates::DeformationToAvoidPoint(x, y, _) => SnowmanStates::IsDeformedToAvoidPoint(
                x,
                y,
            ),
            _ => SnowmanStates::Idle,
        }
    }
}

/// A second step at the same frame changes nothing, and once an animation
/// is over its resting state stays whatever the frame and the duration of
/// later steps: `Growing` and `Shrinking` settle in `Big` with their
/// multiplier, and `Big` stays `Big`.
pub proof fn lemma_advance_settles(
    state: SnowmanStates,
    current_frame: i32,
    duration: i32,
    later_frame: i32,
    later_duration: i32,
)
    ensures
        state.advanced(current_frame, duration).advanced(current_frame, duration)
            == state.advanced(current_frame, duration),
        state.is_over(current_frame, duration) ==> {
            &&& !state.advanced(current_frame, duration).is_animated()
            &&& state.advanced(current_frame, duration).advanced(later_frame, later_duration)
                == state.advanced(current_frame, duration)
        },
        !state.is_animated() ==> state.advanced(later_frame, later_duration) == state,
{
}

} // verus!
