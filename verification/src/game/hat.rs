use vstd::prelude::*;
use crate::game::fixed::{is_coordinate, lemma_lerp_between, lerp, lerp_coordinate, lerp_wide};
use crate::game::shapes::{get_hat, hat, Point, ShapeError};

verus! {

/// How far an anchor without support falls in one frame. An anchor that is
/// no more than this above its support counts as resting on it.
pub const HAT_DROP: i32 = 55;

/// The highest point of the edge from `a` to `b` straight above or below
/// `x`: the height of an end that lies at `x`, or the height at which the
/// edge crosses `x` between its ends, found by `lerp`. `None` where the edge
/// does not reach `x`.
pub open spec fn edge_height(a: Point, b: Point, x: int) -> Option<int> {
    if a.x == x && b.x == x {
        Some(if a.y >= b.y { a.y as int } else { b.y as int })
    } else if a.x == x {
        Some(a.y as int)
    } else if b.x == x {
        Some(b.y as int)
    } else if a.x < x < b.x || b.x < x < a.x {
        Some(lerp(a.y as int, b.y as int, x - a.x, b.x - a.x))
    } else {
        None
    }
}

/// The height at `x` of the edge that begins at point `i` of `outline`.
pub open spec fn height_of_edge(outline: Seq<Point>, i: int, x: int) -> Option<int> {
    edge_height(outline[i], outline[i + 1], x)
}

/// The higher of two heights, where `None` is lower than any height.
pub open spec fn higher(a: Option<int>, b: Option<int>) -> Option<int> {
    match (a, b) {
        (Some(p), Some(q)) => Some(if p >= q { p } else { q }),
        (Some(p), None) => Some(p),
        (None, q) => q,
    }
}

/// Whether a height, if there is one, is no greater than `limit`.
pub open spec fn reaches_no_higher(height: Option<int>, limit: int) -> bool {
    match height {
        Some(h) => h <= limit,
        None => true,
    }
}

/// The greatest height at `x` among the first `edges` edges of `outline`.
pub open spec fn support_of_edges(outline: Seq<Point>, x: int, edges: nat) -> Option<int>
    decreases edges,
{
    if edges == 0 {
        None
    } else {
        higher(
            support_of_edges(outline, x, (edges - 1) as nat),
            height_of_edge(outline, edges - 1, x),
        )
    }
}

/// The greatest height at which `outline` passes `x`. The outline is read as
/// an open line: each point is joined to the next, the last not to the first.
/// `None` where no edge reaches `x`.
pub open spec fn max_height_at(outline: Seq<Point>, x: int) -> Option<int> {
    if outline.len() < 2 {
        None
    } else {
        support_of_edges(outline, x, (outline.len() - 1) as nat)
    }
}

/// Where an anchor is one frame later. Above an outline that does not reach
/// its `x` it stays. Else it rests on the outline if that is above it or no
/// more than `HAT_DROP` below, and falls by `HAT_DROP` if not.
pub open spec fn settled(anchor: Point, outline: Seq<Point>) -> Point {
    match max_height_at(outline, anchor.x as int) {
        None => anchor,
        Some(support) => if support >= anchor.y - HAT_DROP {
            Point { x: anchor.x, y: support as i32 }
        } else {
            Point { x: anchor.x, y: (anchor.y - HAT_DROP) as i32 }
        },
    }
}

/// The height at `x` of an edge lies between the heights of its ends.
pub proof fn lemma_edge_height_within(a: Point, b: Point, x: int)
    ensures
        edge_height(a, b, x) matches Some(h) ==> a.y <= h <= b.y || b.y <= h <= a.y,
{
    if a.x != x && b.x != x && (a.x < x < b.x || b.x < x < a.x) {
        lemma_lerp_between(a.y as int, b.y as int, x - a.x, b.x - a.x);
    }
}

/// The greatest height among the first edges is the height of one of them,
/// and none of them is higher.
pub proof fn lemma_support_of_edges(outline: Seq<Point>, x: int, edges: nat)
    requires
        edges < outline.len(),
    ensures
        match support_of_edges(outline, x, edges) {
            None => forall|i: int|
                0 <= i < edges ==> (#[trigger] height_of_edge(outline, i, x)) is None,
            Some(h) => {
                &&& is_coordinate(h)
                &&& exists|i: int| 0 <= i < edges && height_of_edge(outline, i, x) == Some(h)
                &&& forall|i: int|
                    0 <= i < edges ==> reaches_no_higher(#[trigger] height_of_edge(outline, i, x), h)
            },
        },
    decreases edges,
{
    if edges > 0 {
        lemma_support_of_edges(outline, x, (edges - 1) as nat);
        lemma_edge_height_within(outline[edges - 1], outline[edges as int], x);
        match support_of_edges(outline, x, edges) {
            None => {},
            Some(h) => {
                if height_of_edge(outline, edges - 1, x) != Some(h) {
                    let i = choose|i: int|
                        0 <= i < edges - 1 && height_of_edge(outline, i, x) == Some(h);
                    assert(0 <= i < edges && height_of_edge(outline, i, x) == Some(h));
                }
            },
        }
    }
}

/// What `max_height_at` is: where no edge reaches `x` there is no height;
/// else it is the height of an edge at `x`, no edge is higher there, and it
/// is a coordinate.
pub proof fn lemma_max_height_is_highest(outline: Seq<Point>, x: int)
    ensures
        match max_height_at(outline, x) {
            None => forall|i: int|
                0 <= i < outline.len() - 1 ==> (#[trigger] height_of_edge(outline, i, x)) is None,
            Some(h) => {
                &&& is_coordinate(h)
                &&& exists|i: int|
                    0 <= i < outline.len() - 1 && height_of_edge(outline, i, x) == Some(h)
                &&& forall|i: int|
                    0 <= i < outline.len() - 1 ==> reaches_no_higher(
                        #[trigger] height_of_edge(outline, i, x),
                        h,
                    )
            },
        },
{
    if outline.len() >= 2 {
        lemma_support_of_edges(outline, x, (outline.len() - 1) as nat);
    }
}

/// An anchor over a level stretch of the outline comes to rest on it within
/// one frame, from below or from no more than `HAT_DROP` above, provided
/// that the outline is nowhere higher at the anchor's `x`.
pub proof fn lemma_level_edge_catches(anchor: Point, outline: Seq<Point>, i: int, level: int)
    requires
        0 <= i < outline.len() - 1,
        outline[i].y == level,
        outline[i + 1].y == level,
        outline[i].x <= anchor.x <= outline[i + 1].x || outline[i + 1].x <= anchor.x
            <= outline[i].x,
        forall|j: int|
            0 <= j < outline.len() - 1 ==> reaches_no_higher(
                #[trigger] height_of_edge(outline, j, anchor.x as int),
                level,
            ),
        anchor.y - HAT_DROP <= level,
    ensures
        max_height_at(outline, anchor.x as int) == Some(level),
        settled(anchor, outline) == (Point { x: anchor.x, y: level as i32 }),
        settled(anchor, outline).y == level,
{
    lemma_max_height_is_highest(outline, anchor.x as int);
    lemma_edge_height_within(outline[i], outline[i + 1], anchor.x as int);
    assert(height_of_edge(outline, i, anchor.x as int) == Some(level));
}

/// An anchor that is more than `HAT_DROP` above the outline falls: one frame
/// later it is lower by `HAT_DROP`, at the same `x`. An anchor over an
/// outline that does not reach its `x` stays where it is.
pub proof fn lemma_unsupported_anchor(anchor: Point, outline: Seq<Point>)
    ensures
        max_height_at(outline, anchor.x as int) matches Some(support) && support < anchor.y
            - HAT_DROP ==> {
            &&& settled(anchor, outline).y == anchor.y - HAT_DROP
            &&& settled(anchor, outline).y < anchor.y
            &&& settled(anchor, outline).x == anchor.x
        },
        max_height_at(outline, anchor.x as int) is None ==> settled(anchor, outline) == anchor,
{
    lemma_max_height_is_highest(outline, anchor.x as int);
}

/// The height at `x` of the edge from `a` to `b`.
pub fn edge_height_at(a: Point, b: Point, x: i32) -> (h: Option<i32>)
    ensures
        h is Some <==> edge_height(a, b, x as int) is Some,
        h matches Some(v) ==> edge_height(a, b, x as int) == Some(v as int),
{
    if a.x == x && b.x == x {
        Some(if a.y >= b.y { a.y } else { b.y })
    } else if a.x == x {
        Some(a.y)
    } else if b.x == x {
        Some(b.y)
    } else if (a.x < x && x < b.x) || (b.x < x && x < a.x) {
        proof {
            lemma_lerp_between(a.y as int, b.y as int, x - a.x, b.x - a.x);
        }
        lerp_coordinate(a.y, b.y, x as i64 - a.x as i64, b.x as i64 - a.x as i64)
    } else {
        None
    }
}

/// The greatest height at which the outline `snowman` passes `x_pos`, or
/// `None` where it does not reach `x_pos`.
pub fn get_max_height_at(x_pos: i32, snowman: &Vec<Point>) -> (max_height: Option<i32>)
    ensures
        max_height is Some <==> max_height_at(snowman@, x_pos as int) is Some,
        max_height matches Some(h) ==> max_height_at(snowman@, x_pos as int) == Some(h as int),
{
    if snowman.len() < 2 {
        return None;
    }
    let mut max_height: Option<i32> = None;
    let mut i: usize = 0;
    while i < snowman.len() - 1
        invariant
            snowman.len() >= 2,
            i <= snowman.len() - 1,
            max_height is Some <==> support_of_edges(snowman@, x_pos as int, i as nat) is Some,
            max_height matches Some(h) ==> support_of_edges(snowman@, x_pos as int, i as nat)
                == Some(h as int),
        decreases snowman.len() - 1 - i,
    {
        let here: Option<i32> = edge_height_at(snowman[i], snowman[i + 1], x_pos);
        assert(height_of_edge(snowman@, i as int, x_pos as int) == edge_height(
            snowman@[i as int],
            snowman@[i + 1],
            x_pos as int,
        ));
        max_height =
        match (max_height, here) {
            (Some(p), Some(q)) => Some(if p >= q { p } else { q }),
            (Some(p), None) => Some(p),
            (None, q) => q,
        };
        i = i + 1;
    }
    max_height
}

/// One frame of an anchor over `silhouette`: it rests on the outline, falls
/// towards it, or stays where the outline does not reach it.
pub fn step(anchor: Point, silhouette: &Vec<Point>) -> (next: Point)
    ensures
        next == settled(anchor, silhouette@),
{
    match get_max_height_at(anchor.x, silhouette) {
        None => anchor,
        Some(support) => {
            if support as i64 >= anchor.y as i64 - HAT_DROP as i64 {
                Point { x: anchor.x, y: support }
            } else {
                Point { x: anchor.x, y: anchor.y - HAT_DROP }
            }
        },
    }
}

/// Where the corner `corner` of the hat lies when the hat rests on the
/// anchors `left` and `right`: moved to the left anchor and lifted by the
/// slope between the anchors, which is the difference of their heights over
/// the difference of their `x`.
pub open spec fn tilted(left: Point, right: Point, corner: Point) -> (int, int) {
    (
        left.x + corner.x,
        lerp(left.y as int, right.y as int, corner.x as int, right.x - left.x) + corner.y,
    )
}

/// The outline of the hat on two anchors, or the reason why there is none:
/// anchors at one `x` have no slope, and a corner may leave the range of a
/// point.
pub open spec fn hat_on(left: Point, right: Point) -> Result<Seq<Point>, ShapeError> {
    if left.x == right.x {
        Err(ShapeError::DivisionByZero)
    } else if exists|i: int|
        0 <= i < hat().len() && !(is_coordinate(tilted(left, right, #[trigger] hat()[i]).0)
            && is_coordinate(tilted(left, right, hat()[i]).1)) {
        Err(ShapeError::OutOfRange)
    } else {
        Ok(
            Seq::new(
                hat().len(),
                |i: int|
                    Point {
                        x: tilted(left, right, hat()[i]).0 as i32,
                        y: tilted(left, right, hat()[i]).1 as i32,
                    },
            ),
        )
    }
}

/// The outline of the hat as it rests on the anchors `left` and `right`.
pub fn hat_outline(left: Point, right: Point) -> (r: Result<Vec<Point>, ShapeError>)
    ensures
        r matches Ok(v) ==> hat_on(left, right) == Ok::<Seq<Point>, ShapeError>(v@),
        r matches Err(e) ==> hat_on(left, right) == Err::<Seq<Point>, ShapeError>(e),
{
    if left.x == right.x {
        return Err(ShapeError::DivisionByZero);
    }
    let corners: Vec<Point> = get_hat();
    let ghost whole = Seq::new(
        hat().len(),
        |i: int|
            Point {
                x: tilted(left, right, hat()[i]).0 as i32,
                y: tilted(left, right, hat()[i]).1 as i32,
            },
    );
    let mut outline: Vec<Point> = Vec::new();
    let mut i: usize = 0;
    while i < corners.len()
        invariant
            corners@ == hat(),
            left.x != right.x,
            i <= corners.len(),
            outline.len() == i,
            whole == Seq::new(
                hat().len(),
                |i: int|
                    Point {
                        x: tilted(left, right, hat()[i]).0 as i32,
                        y: tilted(left, right, hat()[i]).1 as i32,
                    },
            ),
            forall|j: int|
                0 <= j < i ==> is_coordinate(tilted(left, right, #[trigger] hat()[j]).0)
                    && is_coordinate(tilted(left, right, hat()[j]).1),
            forall|j: int| 0 <= j < i ==> outline@[j] == whole[j],
        decreases corners.len() - i,
    {
        let corner: Point = corners[i];
        let x: i64 = left.x as i64 + corner.x as i64;
        let y: i128 = lerp_wide(left.y, right.y, corner.x as i64, right.x as i64 - left.x as i64)
            + corner.y as i128;
        if x < i32::MIN as i64 || x > i32::MAX as i64 || y < i32::MIN as i128 || y
            > i32::MAX as i128 {
            assert(!(is_coordinate(tilted(left, right, hat()[i as int]).0) && is_coordinate(
                tilted(left, right, hat()[i as int]).1,
            )));
            return Err(ShapeError::OutOfRange);
        }
        outline.push(Point { x: x as i32, y: y as i32 });
        i = i + 1;
    }
    assert(outline@ =~= whole);
    Ok(outline)
}

} // verus!
