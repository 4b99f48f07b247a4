use vstd::prelude::*;
use crate::game::hat::{hat_on, hat_outline, settled, step};
use crate::game::morph::{interpolation, morph_from_christmas_tree, morph_into_christmas_tree};
use crate::game::secret::{place_value, place_values, BIT_COUNT};
use crate::game::shapes::{
    christmas_tree,
    empty,
    get_christmas_tree,
    get_empty,
    get_snowman,
    snowman,
    Point,
    ShapeError,
};
use crate::game::snowman_states::SnowmanStates;

verus! {

/// How the height of the figure is stretched in one frame. Below, `scale` is
/// the vertical scale of the renderer after its idle sway, and `wobble` the
/// trembling of the fir tree; both are waves of the frame number, which the
/// program that draws works out.
#[derive(Copy, Clone, PartialEq, Eq, Structural, Debug)]
pub enum Stretch {
    /// The scale as it is.
    Plain,
    /// The scale less its share `elapsed / duration`: a snowman that melts.
    Shrunk { elapsed: i64, duration: i32 },
    /// No height at all: a snowman that has melted.
    Flat,
    /// The scale and the share `weight / duration` of the wobble.
    Wobbling { weight: i64, duration: i32 },
    /// The scale and the whole wobble.
    FullWobble,
}

/// What is to be drawn in one frame. Outlines are in model space.
#[derive(Debug)]
pub struct Scene {
    /// The eight places of the answer: the digit that the player has
    /// confirmed for a place, or `None` for a place that is still open.
    pub digits: Vec<Option<u8>>,
    /// What each of the eight places is worth, as a hint below it.
    pub hints: Vec<i32>,
    /// The outline of the figure.
    pub figure: Vec<Point>,
    /// Whether the state has a drawing of its own. Where it has none, the
    /// figure is the outline with every point at the origin.
    pub drawn: bool,
    /// The outline of the hat.
    pub hat: Vec<Point>,
    /// How the vertical scale is to be stretched.
    pub stretch: Stretch,
}

/// What the renderer keeps from frame to frame. The position on the screen
/// is counted in thousandths of a pixel, the scale in thousandths of a pixel
/// for each model unit.
#[derive(Copy, Clone, PartialEq, Eq, Structural, Debug)]
pub struct Renderer {
    pub snowman_pos: Point,
    pub snowman_scale: Point,
    pub snowman_idle_amplifier: i32,
    pub animation_duration: i32,
    pub hat_left: Point,
    pub hat_right: Point,
}

/// The places of the answer as they are shown: the confirmed digits first,
/// then open places, eight in all.
pub open spec fn shown_digits(player_input: Seq<u8>) -> Seq<Option<u8>> {
    Seq::new(
        BIT_COUNT as nat,
        |i: int|
            if i < player_input.len() {
                Some(player_input[i])
            } else {
                None
            },
    )
}

/// Whether a state has a drawing of its own.
pub open spec fn has_drawing(state: SnowmanStates) -> bool {
    match state {
        SnowmanStates::Idle
        | SnowmanStates::Melting(_)
        | SnowmanStates::Melted
        | SnowmanStates::MorphingIntoAFirTree(_)
        | SnowmanStates::MorphingFromAFirTree(_)
        | SnowmanStates::IsFirTree() => true,
        _ => false,
    }
}

/// The outline of the figure in a state at a frame, for animations of
/// `duration` frames: the snowman, the fir tree, a morph between the two as
/// far as the animation has run, or the empty outline for a state without a
/// drawing.
pub open spec fn figure_for(state: SnowmanStates, current_frame: i32, duration: i32) -> Result<
    Seq<Point>,
    ShapeError,
> {
    match state {
        SnowmanStates::Idle | SnowmanStates::Melting(_) | SnowmanStates::Melted => Ok(snowman()),
        SnowmanStates::MorphingIntoAFirTree(_) => interpolation(
            snowman(),
            christmas_tree(),
            state.elapsed(current_frame),
            duration as int,
        ),
        SnowmanStates::MorphingFromAFirTree(_) => interpolation(
            christmas_tree(),
            snowman(),
            state.elapsed(current_frame),
            duration as int,
        ),
        SnowmanStates::IsFirTree() => Ok(christmas_tree()),
        _ => Ok(empty()),
    }
}

/// How the vertical scale is stretched in a state at a frame. The morph back
/// from the fir tree weighs the wobble with the frame number, taken
/// negative, not with the frames that the morph has run.
pub open spec fn stretch_for(state: SnowmanStates, current_frame: i32, duration: i32) -> Stretch {
    match state {
        SnowmanStates::Melting(_) => Stretch::Shrunk {
            elapsed: state.elapsed(current_frame) as i64,
            duration,
        },
        SnowmanStates::Melted => Stretch::Flat,
        SnowmanStates::MorphingIntoAFirTree(_) => Stretch::Wobbling {
            weight: state.elapsed(current_frame) as i64,
            duration,
        },
        SnowmanStates::MorphingFromAFirTree(_) => Stretch::Wobbling {
            weight: (-current_frame) as i64,
            duration,
        },
        SnowmanStates::IsFirTree() => Stretch::FullWobble,
        _ => Stretch::Plain,
    }
}

/// The places of the answer as they are shown.
pub fn digit_places(player_input: &Vec<u8>) -> (digits: Vec<Option<u8>>)
    ensures
        digits@ == shown_digits(player_input@),
{
    let mut digits: Vec<Option<u8>> = Vec::with_capacity(8);
    let mut i: usize = 0;
    while i < 8
        invariant
            i <= 8,
            digits.len() == i,
            forall|j: int| 0 <= j < i ==> digits@[j] == shown_digits(player_input@)[j],
        decreases 8 - i,
    {
        if i < player_input.len() {
            digits.push(Some(player_input[i]));
        } else {
            digits.push(None);
        }
        i = i + 1;
    }
    assert(digits@ =~= shown_digits(player_input@));
    digits
}

/// The outline of the figure in a state at a frame.
pub fn figure(snowman_state: SnowmanStates, current_frame: i32, animation_duration: i32) -> (r:
    Result<Vec<Point>, ShapeError>)
    ensures
        r matches Ok(v) ==> figure_for(snowman_state, current_frame, animation_duration) == Ok::<
            Seq<Point>,
            ShapeError,
        >(v@),
        r matches Err(e) ==> figure_for(snowman_state, current_frame, animation_duration) == Err::<
            Seq<Point>,
            ShapeError,
        >(e),
{
    match snowman_state {
        SnowmanStates::Idle | SnowmanStates::Melting(_) | SnowmanStates::Melted => Ok(
            get_snowman(),
        ),
        SnowmanStates::MorphingIntoAFirTree(_) => morph_into_christmas_tree(
            snowman_state.frames_since_start(current_frame),
            animation_duration as i64,
        ),
        SnowmanStates::MorphingFromAFirTree(_) => morph_from_christmas_tree(
            snowman_state.frames_since_start(current_frame),
            animation_duration as i64,
        ),
        SnowmanStates::IsFirTree() => Ok(get_christmas_tree()),
        _ => Ok(get_empty()),
    }
}

/// How the vertical scale is stretched in a state at a frame.
pub fn stretch(snowman_state: SnowmanStates, current_frame: i32, animation_duration: i32) -> (s:
    Stretch)
    ensures
        s == stretch_for(snowman_state, current_frame, animation_duration),
{
    match snowman_state {
        SnowmanStates::Melting(_) => Stretch::Shrunk {
            elapsed: snowman_state.frames_since_start(current_frame),
            duration: animation_duration,
        },
        SnowmanStates::Melted => Stretch::Flat,
        SnowmanStates::MorphingIntoAFirTree(_) => Stretch::Wobbling {
            weight: snowman_state.frames_since_start(current_frame),
            duration: animation_duration,
        },
        SnowmanStates::MorphingFromAFirTree(_) => Stretch::Wobbling {
            weight: -(current_frame as i64),
            duration: animation_duration,
        },
        SnowmanStates::IsFirTree() => Stretch::FullWobble,
        _ => Stretch::Plain,
    }
}

impl Renderer {
    /// What one frame leaves of a renderer whose hat came to lie on
    /// `figure`: each anchor has taken its own step, and nothing else has
    /// changed.
    pub open spec fn with_hat_on(self, figure: Seq<Point>) -> Renderer {
        Renderer {
            hat_left: settled(self.hat_left, figure),
            hat_right: settled(self.hat_right, figure),
            ..self
        }
    }

    /// What one frame leaves of a renderer that was asked to draw `state`
    /// at `current_frame`: the hat has settled on the figure, or, where there
    /// is no figure or no hat, everything is as it was.
    pub open spec fn after_render(self, state: SnowmanStates, current_frame: i32) -> Renderer {
        match figure_for(state, current_frame, self.animation_duration) {
            Ok(figure) => if hat_on(settled(self.hat_left, figure), settled(self.hat_right, figure))
                is Ok {
                self.with_hat_on(figure)
            } else {
                self
            },
            Err(_) => self,
        }
    }

    /// Whether `r` is what `render` returns for a renderer that is `self`
    /// before the frame.
    ///
    /// A scene holds the figure of the state, the hat laid on the anchors
    /// after their step over that figure, the places of the answer with
    /// their hints, and the stretch of the state. An error is the reason
    /// why there is no figure, or else why there is no hat.
    pub open spec fn shows(
        self,
        player_input: Seq<u8>,
        current_frame: i32,
        state: SnowmanStates,
        r: Result<Scene, ShapeError>,
    ) -> bool {
        match r {
            Ok(scene) => {
                &&& figure_for(state, current_frame, self.animation_duration) == Ok::<
                    Seq<Point>,
                    ShapeError,
                >(scene.figure@)
                &&& hat_on(
                    settled(self.hat_left, scene.figure@),
                    settled(self.hat_right, scene.figure@),
                ) == Ok::<Seq<Point>, ShapeError>(scene.hat@)
                &&& scene.digits@ == shown_digits(player_input)
                &&& scene.hints.len() == BIT_COUNT
                &&& forall|i: int| 0 <= i < BIT_COUNT ==> scene.hints@[i] == place_value(i)
                &&& scene.drawn == has_drawing(state)
                &&& scene.stretch == stretch_for(state, current_frame, self.animation_duration)
            },
            Err(e) => match figure_for(state, current_frame, self.animation_duration) {
                Ok(figure) => hat_on(
                    settled(self.hat_left, figure),
                    settled(self.hat_right, figure),
                ) == Err::<Seq<Point>, ShapeError>(e),
                Err(reason) => reason == e,
            },
        }
    }

    /// One frame: works out what is to be drawn and lets the hat settle on
    /// the figure.
    ///
    /// The figure is the outline of the state at this frame. Each anchor of
    /// the hat takes one step over that figure, the left and the right on
    /// their own, and the hat is laid on the two. Where there is no figure or
    /// no hat, for the reason that `figure_for` or `hat_on` gives, nothing is
    /// drawn and the renderer stays as it was.
    pub fn render(
        &mut self,
        player_input: &Vec<u8>,
        current_frame: i32,
        snowman_state: SnowmanStates,
    ) -> (r: Result<Scene, ShapeError>)
        ensures
            *final(self) == old(self).after_render(snowman_state, current_frame),
            old(self).shows(player_input@, current_frame, snowman_state, r),
    {
        let figure: Vec<Point> = match figure(
            snowman_state,
            current_frame,
            self.animation_duration,
        ) {
            Ok(figure) => figure,
            Err(e) => {
                return Err(e);
            },
        };
        let hat_left: Point = step(self.hat_left, &figure);
        let hat_right: Point = step(self.hat_right, &figure);
        let hat: Vec<Point> = match hat_outline(hat_left, hat_right) {
            Ok(hat) => hat,
            Err(e) => {
                return Err(e);
            },
        };
        self.hat_left = hat_left;
        self.hat_right = hat_right;
        let drawn: bool = match snowman_state {
            SnowmanStates::Idle
            | SnowmanStates::Melting(_)
            | SnowmanStates::Melted
            | SnowmanStates::MorphingIntoAFirTree(_)
            | SnowmanStates::MorphingFromAFirTree(_)
            | SnowmanStates::IsFirTree() => true,
            _ => false,
        };
        Ok(
            Scene {
                digits: digit_places(player_input),
                hints: place_values(),
                figure,
                drawn,
                hat,
                stretch: stretch(snowman_state, current_frame, self.animation_duration),
            },
        )
    }
}

/// A renderer for a figure at `snowman_pos` on the screen, with animations
/// of `animation_duration` frames. The figure is drawn 25 pixels to the unit
/// and sways by up to one and a half; the hat starts high above it, its
/// anchors three units apart.
pub fn new(snowman_pos: Point, animation_duration: i32) -> (renderer: Renderer)
    ensures
        renderer == (Renderer {
            snowman_pos,
            snowman_scale: Point { x: 25000, y: 25000 },
            snowman_idle_amplifier: 1500,
            animation_duration,
            hat_left: Point { x: 3500, y: 20000 },
            hat_right: Point { x: 6500, y: 20000 },
        }),
{
    Renderer {
        snowman_pos,
        snowman_scale: Point { x: 25000, y: 25000 },
        snowman_idle_amplifier: 1500,
        animation_duration,
        hat_left: Point { x: 3500, y: 20000 },
        hat_right: Point { x: 6500, y: 20000 },
    }
}

} // verus!
