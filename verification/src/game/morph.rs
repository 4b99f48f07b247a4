use vstd::prelude::*;
use crate::game::fixed::{is_coordinate, lemma_lerp_between, lemma_lerp_ends, lerp, lerp_coordinate};
use crate::game::shapes::{christmas_tree, get_christmas_tree, get_snowman, snowman, Point, ShapeError};

verus! {

/// Whether the point at `num / den` of the way from `s` to `t` has
/// coordinates a point can have.
pub open spec fn morph_point_fits(s: Point, t: Point, num: int, den: int) -> bool {
    is_coordinate(lerp(s.x as int, t.x as int, num, den)) && is_coordinate(
        lerp(s.y as int, t.y as int, num, den),
    )
}

/// The point at `num / den` of the way from `s` to `t`.
pub open spec fn morphed_point(s: Point, t: Point, num: int, den: int) -> Point {
    Point {
        x: lerp(s.x as int, t.x as int, num, den) as i32,
        y: lerp(s.y as int, t.y as int, num, den) as i32,
    }
}

/// Whether every point of the morph has coordinates a point can have.
pub open spec fn morph_fits(source: Seq<Point>, target: Seq<Point>, num: int, den: int) -> bool {
    forall|i: int|
        0 <= i < source.len() ==> morph_point_fits(#[trigger] source[i], target[i], num, den)
}

/// The silhouette at `num / den` of the way from `source` to `target`: each
/// point goes its own straight way to the point of the same index.
pub open spec fn morphed(source: Seq<Point>, target: Seq<Point>, num: int, den: int) -> Seq<
    Point,
> {
    Seq::new(source.len(), |i: int| morphed_point(source[i], target[i], num, den))
}

/// What `interpolate` returns: the morph, or the reason why there is none.
/// A difference in length comes first, then a fraction of zero, then a
/// result that is no point.
pub open spec fn interpolation(source: Seq<Point>, target: Seq<Point>, num: int, den: int) -> Result<
    Seq<Point>,
    ShapeError,
> {
    if source.len() != target.len() {
        Err(ShapeError::LengthMismatch)
    } else if den == 0 {
        Err(ShapeError::DivisionByZero)
    } else if !morph_fits(source, target, num, den) {
        Err(ShapeError::OutOfRange)
    } else {
        Ok(morphed(source, target, num, den))
    }
}

/// The silhouette at `num / den` of the way from `source` to `target`.
///
/// Each coordinate is `lerp` of the two coordinates of the same index. The
/// fraction is taken as it is: below zero or above one the morph goes on
/// beyond its ends. There is no morph where the silhouettes differ in length,
/// where `den` is zero, or where a coordinate leaves the range of `i32`.
pub fn interpolate(source: &Vec<Point>, target: &Vec<Point>, num: i64, den: i64) -> (r: Result<
    Vec<Point>,
    ShapeError,
>)
    ensures
        r matches Ok(v) ==> interpolation(source@, target@, num as int, den as int) == Ok::<
            Seq<Point>,
            ShapeError,
        >(v@),
        r matches Err(e) ==> interpolation(source@, target@, num as int, den as int) == Err::<
            Seq<Point>,
            ShapeError,
        >(e),
{
    if source.len() != target.len() {
        return Err(ShapeError::LengthMismatch);
    }
    if den == 0 {
        return Err(ShapeError::DivisionByZero);
    }
    let ghost whole = morphed(source@, target@, num as int, den as int);
    let mut result: Vec<Point> = Vec::new();
    let mut i: usize = 0;
    while i < source.len()
        invariant
            source.len() == target.len(),
            den != 0,
            i <= source.len(),
            result.len() == i,
            whole == morphed(source@, target@, num as int, den as int),
            forall|j: int|
                0 <= j < i ==> morph_point_fits(#[trigger] source@[j], target@[j], num as int, den as int),
            forall|j: int| 0 <= j < i ==> result@[j] == whole[j],
        decreases source.len() - i,
    {
        let s: Point = source[i];
        let t: Point = target[i];
        match (lerp_coordinate(s.x, t.x, num, den), lerp_coordinate(s.y, t.y, num, den)) {
            (Some(x), Some(y)) => {
                result.push(Point { x, y });
            },
            _ => {
                assert(!morph_point_fits(source@[i as int], target@[i as int], num as int, den as int));
                return Err(ShapeError::OutOfRange);
            },
        }
        i = i + 1;
    }
    assert(result@ =~= whole);
    Ok(result)
}

/// The snowman on its way to the fir tree, `animation_frame` frames into a
/// morph of `animation_duration` frames. From the first frame to the last
/// of the morph there always is an outline.
pub fn morph_into_christmas_tree(animation_frame: i64, animation_duration: i64) -> (r: Result<
    Vec<Point>,
    ShapeError,
>)
    ensures
        r matches Ok(v) ==> interpolation(
            snowman(),
            christmas_tree(),
            animation_frame as int,
            animation_duration as int,
        ) == Ok::<Seq<Point>, ShapeError>(v@),
        r matches Err(e) ==> interpolation(
            snowman(),
            christmas_tree(),
            animation_frame as int,
            animation_duration as int,
        ) == Err::<Seq<Point>, ShapeError>(e),
        0 <= animation_frame <= animation_duration && animation_duration != 0 ==> r is Ok,
{
    proof {
        if 0 <= animation_frame <= animation_duration && animation_duration != 0 {
            lemma_interpolation_within(
                snowman(),
                christmas_tree(),
                animation_frame as int,
                animation_duration as int,
            );
        }
    }
    interpolate(&get_snowman(), &get_christmas_tree(), animation_frame, animation_duration)
}

/// The fir tree on its way back to the snowman, `animation_frame` frames
/// into a morph of `animation_duration` frames. From the first frame to the
/// last of the morph there always is an outline.
pub fn morph_from_christmas_tree(animation_frame: i64, animation_duration: i64) -> (r: Result<
    Vec<Point>,
    ShapeError,
>)
    ensures
        r matches Ok(v) ==> interpolation(
            christmas_tree(),
            snowman(),
            animation_frame as int,
            animation_duration as int,
        ) == Ok::<Seq<Point>, ShapeError>(v@),
        r matches Err(e) ==> interpolation(
            christmas_tree(),
            snowman(),
            animation_frame as int,
            animation_duration as int,
        ) == Err::<Seq<Point>, ShapeError>(e),
        0 <= animation_frame <= animation_duration && animation_duration != 0 ==> r is Ok,
{
    proof {
        if 0 <= animation_frame <= animation_duration && animation_duration != 0 {
            lemma_interpolation_within(
                christmas_tree(),
                snowman(),
                animation_frame as int,
                animation_duration as int,
            );
        }
    }
    interpolate(&get_christmas_tree(), &get_snowman(), animation_frame, animation_duration)
}

/// A morph begins as its source and ends as its target: at none of the
/// way it is exactly `source`, at all of the way exactly `target`, for every
/// two silhouettes of one length and every length of the way but zero.
pub proof fn lemma_interpolation_ends(source: Seq<Point>, target: Seq<Point>, den: int)
    requires
        source.len() == target.len(),
        den != 0,
    ensures
        interpolation(source, target, 0, den) == Ok::<Seq<Point>, ShapeError>(source),
        interpolation(source, target, den, den) == Ok::<Seq<Point>, ShapeError>(target),
{
    assert forall|i: int| 0 <= i < source.len() implies {
        &&& morph_point_fits(#[trigger] source[i], target[i], 0, den)
        &&& morph_point_fits(source[i], target[i], den, den)
        &&& morphed_point(source[i], target[i], 0, den) == source[i]
        &&& morphed_point(source[i], target[i], den, den) == target[i]
    } by {
        lemma_lerp_ends(source[i].x as int, target[i].x as int, den);
        lemma_lerp_ends(source[i].y as int, target[i].y as int, den);
    }
    assert(morphed(source, target, 0, den) =~= source);
    assert(morphed(source, target, den, den) =~= target);
}

/// From its start to its end a morph always exists, and each of its points
/// lies in the box spanned by the two points it moves between.
pub proof fn lemma_interpolation_within(source: Seq<Point>, target: Seq<Point>, num: int, den: int)
    requires
        source.len() == target.len(),
        den != 0,
        0 <= num <= den || den <= num <= 0,
    ensures
        interpolation(source, target, num, den) == Ok::<Seq<Point>, ShapeError>(
            morphed(source, target, num, den),
        ),
        forall|i: int|
            0 <= i < source.len() ==> is_between(
                #[trigger] morphed(source, target, num, den)[i],
                source[i],
                target[i],
            ),
{
    assert forall|i: int| 0 <= i < source.len() implies {
        &&& morph_point_fits(#[trigger] source[i], target[i], num, den)
        &&& is_between(morphed_point(source[i], target[i], num, den), source[i], target[i])
    } by {
        lemma_lerp_between(source[i].x as int, target[i].x as int, num, den);
        lemma_lerp_between(source[i].y as int, target[i].y as int, num, den);
    }
}

/// Whether `p` lies in the box spanned by `a` and `b`.
pub open spec fn is_between(p: Point, a: Point, b: Point) -> bool {
    &&& a.x <= p.x <= b.x || b.x <= p.x <= a.x
    &&& a.y <= p.y <= b.y || b.y <= p.y <= a.y
}

} // verus!
