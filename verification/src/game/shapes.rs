use vstd::prelude::*;
use crate::game::fixed::{divide_coordinate, is_coordinate, ratio, scale_coordinate, scaled};

verus! {

/// A point of the plane, or the step from one point to another. Both
/// coordinates are counted in thousandths of a model unit; `y` grows upwards.
#[derive(Copy, Clone, PartialEq, Eq, Structural, Debug)]
pub struct Point {
    pub x: i32,
    pub y: i32,
}


/// The number of points of every named silhouette. Points of the same index
/// in two silhouettes belong together: a morph moves each to the other.
pub const VERTEX_COUNT: usize = 17;

/// The outline of the snowman at rest.
pub open spec fn snowman() -> Seq<Point> {
    seq![
        Point { x: 5000, y: 8000 },
        Point { x: 5000, y: 8000 },
        Point { x: 3000, y: 8000 },
        Point { x: 1000, y: 10000 },
        Point { x: 1000, y: 12000 },
        Point { x: 3000, y: 14000 },
        Point { x: 5000, y: 14000 },
        Point { x: 7000, y: 12000 },
        Point { x: 7000, y: 10000 },
        Point { x: 5000, y: 8000 },
        Point { x: 8000, y: 5000 },
        Point { x: 8000, y: 2000 },
        Point { x: 6000, y: 0 },
        Point { x: 2000, y: 0 },
        Point { x: 0, y: 2000 },
        Point { x: 0, y: 5000 },
        Point { x: 3000, y: 8000 },
    ]
}

/// The outline of the fir tree.
pub open spec fn christmas_tree() -> Seq<Point> {
    seq![
        Point { x: 4000, y: 10000 },
        Point { x: 7000, y: 6000 },
        Point { x: 4000, y: 6000 },
        Point { x: 7000, y: 2000 },
        Point { x: 4000, y: 2000 },
        Point { x: 4000, y: 0 },
        Point { x: 3000, y: 0 },
        Point { x: 3000, y: 2000 },
        Point { x: 0, y: 2000 },
        Point { x: 3000, y: 6000 },
        Point { x: 0, y: 6000 },
        Point { x: 3000, y: 10000 },
        Point { x: 0, y: 10000 },
        Point { x: 3500, y: 14000 },
        Point { x: 7000, y: 10000 },
        Point { x: 4000, y: 10000 },
        Point { x: 7000, y: 6000 },
    ]
}

/// The outline with every point at the origin. It stands in for a state
/// that has no drawing of its own.
pub open spec fn empty() -> Seq<Point> {
    Seq::new(VERTEX_COUNT as nat, |i: int| Point { x: 0, y: 0 })
}

/// The outline of the hat, relative to its left corner.
pub open spec fn hat() -> Seq<Point> {
    seq![
        Point { x: 0, y: 0 },
        Point { x: 1000, y: 0 },
        Point { x: 1000, y: 2000 },
        Point { x: 2000, y: 2000 },
        Point { x: 2000, y: 0 },
        Point { x: 3000, y: 0 },
        Point { x: 0, y: 0 },
    ]
}

/// A fresh copy of the snowman's outline.
pub fn get_snowman() -> (snowman: Vec<Point>)
    ensures
        snowman@ == self::snowman(),
        snowman.len() == VERTEX_COUNT,
{
    let snowman: Vec<Point> = vec![
        Point { x: 5000, y: 8000 },
        Point { x: 5000, y: 8000 },
        Point { x: 3000, y: 8000 },
        Point { x: 1000, y: 10000 },
        Point { x: 1000, y: 12000 },
        Point { x: 3000, y: 14000 },
        Point { x: 5000, y: 14000 },
        Point { x: 7000, y: 12000 },
        Point { x: 7000, y: 10000 },
        Point { x: 5000, y: 8000 },
        Point { x: 8000, y: 5000 },
        Point { x: 8000, y: 2000 },
        Point { x: 6000, y: 0 },
        Point { x: 2000, y: 0 },
        Point { x: 0, y: 2000 },
        Point { x: 0, y: 5000 },
        Point { x: 3000, y: 8000 },
    ];
    assert(snowman@ =~= self::snowman());
    snowman
}

/// A fresh copy of the fir tree's outline.
pub fn get_christmas_tree() -> (christmas_tree: Vec<Point>)
    ensures
        christmas_tree@ == self::christmas_tree(),
        christmas_tree.len() == VERTEX_COUNT,
{
    let christmas_tree: Vec<Point> = vec![
        Point { x: 4000, y: 10000 },
        Point { x: 7000, y: 6000 },
        Point { x: 4000, y: 6000 },
        Point { x: 7000, y: 2000 },
        Point { x: 4000, y: 2000 },
        Point { x: 4000, y: 0 },
        Point { x: 3000, y: 0 },
        Point { x: 3000, y: 2000 },
        Point { x: 0, y: 2000 },
        Point { x: 3000, y: 6000 },
        Point { x: 0, y: 6000 },
        Point { x: 3000, y: 10000 },
        Point { x: 0, y: 10000 },
        Point { x: 3500, y: 14000 },
        Point { x: 7000, y: 10000 },
        Point { x: 4000, y: 10000 },
        Point { x: 7000, y: 6000 },
    ];
    assert(christmas_tree@ =~= self::christmas_tree());
    christmas_tree
}

/// A fresh copy of the outline that has every point at the origin.
pub fn get_empty() -> (empty: Vec<Point>)
    ensures
        empty@ == self::empty(),
        empty.len() == VERTEX_COUNT,
{
    let empty: Vec<Point> = same_everywhere(Point { x: 0, y: 0 }, VERTEX_COUNT);
    assert(empty@ =~= self::empty());
    empty
}

/// A fresh copy of the hat's outline.
pub fn get_hat() -> (hat: Vec<Point>)
    ensures
        hat@ == self::hat(),
{
    let hat: Vec<Point> = vec![
        Point { x: 0, y: 0 },
        Point { x: 1000, y: 0 },
        Point { x: 1000, y: 2000 },
        Point { x: 2000, y: 2000 },
        Point { x: 2000, y: 0 },
        Point { x: 3000, y: 0 },
        Point { x: 0, y: 0 },
    ];
    assert(hat@ =~= self::hat());
    hat
}

/// How far an outline reaches to the right: the greatest `x` of its points,
/// but no less than zero.
pub open spec fn reach(outline: Seq<Point>) -> int
    decreases outline.len(),
{
    if outline.len() == 0 {
        0
    } else if outline.last().x > reach(outline.drop_last()) {
        outline.last().x as int
    } else {
        reach(outline.drop_last())
    }
}

/// The points at which an outline reaches farthest to the right, in order.
pub open spec fn points_at_reach(outline: Seq<Point>) -> Seq<Point> {
    outline.filter(|p: Point| p.x == reach(outline))
}

/// Where the arm of the snowman begins: at the last but one of the points at
/// which its outline reaches farthest to the right, or at the only such
/// point. An outline that stays left of zero has no such point.
pub open spec fn snowman_arm(outline: Seq<Point>) -> Option<Point> {
    let candidates = points_at_reach(outline);
    if candidates.len() > 1 {
        Some(candidates[candidates.len() - 2])
    } else if candidates.len() == 1 {
        Some(candidates[0])
    } else {
        None
    }
}

/// How far the outline `snowman` reaches to the right.
pub fn get_reach(snowman: &Vec<Point>) -> (max_x: i32)
    ensures
        max_x == reach(snowman@),
{
    let mut max_x: i32 = 0;
    let mut i: usize = 0;
    while i < snowman.len()
        invariant
            i <= snowman.len(),
            max_x == reach(snowman@.take(i as int)),
        decreases snowman.len() - i,
    {
        assert(snowman@.take(i + 1).drop_last() =~= snowman@.take(i as int));
        if snowman[i].x > max_x {
            max_x = snowman[i].x;
        }
        i = i + 1;
    }
    assert(snowman@.take(snowman.len() as int) =~= snowman@);
    max_x
}

/// Where the arm of the snowman begins, if its outline has a place for it.
pub fn get_snowman_arm(snowman: &Vec<Point>) -> (arm: Option<Point>)
    ensures
        arm == snowman_arm(snowman@),
{
    let max_x: i32 = get_reach(snowman);
    let ghost at_reach = |p: Point| p.x == reach(snowman@);
    let mut arm_possibilities: Vec<Point> = Vec::new();
    let mut i: usize = 0;
    proof {
        reveal(Seq::filter);
    }
    while i < snowman.len()
        invariant
            i <= snowman.len(),
            max_x == reach(snowman@),
            at_reach == (|p: Point| p.x == reach(snowman@)),
            arm_possibilities@ == snowman@.take(i as int).filter(at_reach),
        decreases snowman.len() - i,
    {
        proof {
            let next = snowman@.take(i + 1);
            assert(next.drop_last() =~= snowman@.take(i as int));
            assert(next.last() == snowman@[i as int]);
            assert(at_reach(next.last()) == (snowman@[i as int].x == max_x));
            reveal(Seq::filter);
        }
        if snowman[i].x == max_x {
            arm_possibilities.push(snowman[i]);
        }
        i = i + 1;
    }
    assert(snowman@.take(snowman.len() as int) =~= snowman@);
    if arm_possibilities.len() > 1 {
        Some(arm_possibilities[arm_possibilities.len() - 2])
    } else if arm_possibilities.len() == 1 {
        Some(arm_possibilities[0])
    } else {
        None
    }
}

/// Why an outline could not be computed.
#[derive(Copy, Clone, PartialEq, Eq, Structural, Debug)]
pub enum ShapeError {
    /// The two outlines differ in their number of points.
    LengthMismatch,
    /// A divisor is zero.
    DivisionByZero,
    /// A point of the result lies beyond the coordinates a point can have.
    OutOfRange,
}

/// The four operations on coordinates.
#[derive(Copy, Clone, PartialEq, Eq, Structural, Debug)]
pub enum Operation {
    Add,
    Subtract,
    Multiply,
    Divide,
}

impl Operation {
    /// The exact result on two coordinates. Factors and divisors are counted
    /// in thousandths as lengths are; a quotient by zero is `None`.
    pub open spec fn value(self, a: int, b: int) -> Option<int> {
        match self {
            Operation::Add => Some(a + b),
            Operation::Subtract => Some(a - b),
            Operation::Multiply => Some(scaled(a, b)),
            Operation::Divide => if b == 0 {
                None
            } else {
                Some(ratio(a, b))
            },
        }
    }

    /// Whether the result on two points exists.
    pub open spec fn defined(self, a: Point, b: Point) -> bool {
        self.value(a.x as int, b.x as int) is Some && self.value(a.y as int, b.y as int) is Some
    }

    /// Whether the result on two points exists and is a point.
    pub open spec fn fits(self, a: Point, b: Point) -> bool {
        &&& self.value(a.x as int, b.x as int) matches Some(x) && is_coordinate(x)
        &&& self.value(a.y as int, b.y as int) matches Some(y) && is_coordinate(y)
    }

    /// The result on two points, coordinate by coordinate.
    pub open spec fn point(self, a: Point, b: Point) -> Point {
        Point {
            x: self.value(a.x as int, b.x as int)->0 as i32,
            y: self.value(a.y as int, b.y as int)->0 as i32,
        }
    }

    /// The result on two outlines, point by point, or the reason why there
    /// is none: a difference in length first, then a divisor that is zero,
    /// then a result that is no point.
    pub open spec fn outline(self, a: Seq<Point>, b: Seq<Point>) -> Result<Seq<Point>, ShapeError> {
        if a.len() != b.len() {
            Err(ShapeError::LengthMismatch)
        } else if exists|i: int| 0 <= i < a.len() && !self.defined(#[trigger] a[i], b[i]) {
            Err(ShapeError::DivisionByZero)
        } else if exists|i: int| 0 <= i < a.len() && !self.fits(#[trigger] a[i], b[i]) {
            Err(ShapeError::OutOfRange)
        } else {
            Ok(Seq::new(a.len(), |i: int| self.point(a[i], b[i])))
        }
    }

    /// The result on two coordinates, if it exists and is a coordinate.
    pub fn apply(self, a: i32, b: i32) -> (r: Option<i32>)
        ensures
            r is Some <==> (self.value(a as int, b as int) matches Some(v) && is_coordinate(v)),
            r matches Some(v) ==> self.value(a as int, b as int) == Some(v as int),
    {
        match self {
            Operation::Add => {
                let v: i64 = a as i64 + b as i64;
                if v < i32::MIN as i64 || v > i32::MAX as i64 {
                    None
                } else {
                    Some(v as i32)
                }
            },
            Operation::Subtract => {
                let v: i64 = a as i64 - b as i64;
                if v < i32::MIN as i64 || v > i32::MAX as i64 {
                    None
                } else {
                    Some(v as i32)
                }
            },
            Operation::Multiply => scale_coordinate(a, b),
            Operation::Divide => divide_coordinate(a, b),
        }
    }

    /// The result on two outlines, point by point.
    pub fn apply_to_outlines(self, a: &Vec<Point>, b: &Vec<Point>) -> (r: Result<
        Vec<Point>,
        ShapeError,
    >)
        ensures
            r matches Ok(v) ==> self.outline(a@, b@) == Ok::<Seq<Point>, ShapeError>(v@),
            r matches Err(e) ==> self.outline(a@, b@) == Err::<Seq<Point>, ShapeError>(e),
    {
        if a.len() != b.len() {
            return Err(ShapeError::LengthMismatch);
        }
        let mut i: usize = 0;
        while i < a.len()
            invariant
                a.len() == b.len(),
                i <= a.len(),
                forall|j: int| 0 <= j < i ==> self.defined(#[trigger] a@[j], b@[j]),
            decreases a.len() - i,
        {
            if self == Operation::Divide && (b[i].x == 0 || b[i].y == 0) {
                assert(!self.defined(a@[i as int], b@[i as int]));
                return Err(ShapeError::DivisionByZero);
            }
            i = i + 1;
        }
        let ghost whole = Seq::new(a@.len(), |j: int| self.point(a@[j], b@[j]));
        let mut result: Vec<Point> = Vec::new();
        let mut i: usize = 0;
        while i < a.len()
            invariant
                a.len() == b.len(),
                i <= a.len(),
                result.len() == i,
                whole == Seq::new(a@.len(), |j: int| self.point(a@[j], b@[j])),
                forall|j: int| 0 <= j < a.len() ==> self.defined(#[trigger] a@[j], b@[j]),
                forall|j: int| 0 <= j < i ==> self.fits(#[trigger] a@[j], b@[j]),
                forall|j: int| 0 <= j < i ==> result@[j] == whole[j],
            decreases a.len() - i,
        {
            let x: Option<i32> = self.apply(a[i].x, b[i].x);
            let y: Option<i32> = self.apply(a[i].y, b[i].y);
            match (x, y) {
                (Some(x), Some(y)) => {
                    result.push(Point { x, y });
                },
                _ => {
                    assert(!self.fits(a@[i as int], b@[i as int]));
                    return Err(ShapeError::OutOfRange);
                },
            }
            i = i + 1;
        }
        assert(result@ =~= whole);
        Ok(result)
    }
}

/// The outline of `len` points that all are `point`.
pub open spec fn uniform(point: Point, len: nat) -> Seq<Point> {
    Seq::new(len, |i: int| point)
}

/// An outline of `len` points that all are `point`.
pub fn same_everywhere(point: Point, len: usize) -> (outline: Vec<Point>)
    ensures
        outline@ == uniform(point, len as nat),
{
    let mut outline: Vec<Point> = Vec::new();
    let mut i: usize = 0;
    while i < len
        invariant
            i <= len,
            outline.len() == i,
            forall|j: int| 0 <= j < i ==> outline@[j] == point,
        decreases len - i,
    {
        outline.push(point);
        i = i + 1;
    }
    assert(outline@ =~= uniform(point, len as nat));
    outline
}

/// The sum of two outlines, point by point.
pub fn add_vec_array(vecarray1: &Vec<Point>, vecarray2: &Vec<Point>) -> (r: Result<
    Vec<Point>,
    ShapeError,
>)
    ensures
        r matches Ok(v) ==> Operation::Add.outline(vecarray1@, vecarray2@) == Ok::<
            Seq<Point>,
            ShapeError,
        >(v@),
        r matches Err(e) ==> Operation::Add.outline(vecarray1@, vecarray2@) == Err::<
            Seq<Point>,
            ShapeError,
        >(e),
{
    Operation::Add.apply_to_outlines(vecarray1, vecarray2)
}

/// The difference of two outlines, point by point.
pub fn sub_vec_array(vecarray1: &Vec<Point>, vecarray2: &Vec<Point>) -> (r: Result<
    Vec<Point>,
    ShapeError,
>)
    ensures
        r matches Ok(v) ==> Operation::Subtract.outline(vecarray1@, vecarray2@) == Ok::<
            Seq<Point>,
            ShapeError,
        >(v@),
        r matches Err(e) ==> Operation::Subtract.outline(vecarray1@, vecarray2@) == Err::<
            Seq<Point>,
            ShapeError,
        >(e),
{
    Operation::Subtract.apply_to_outlines(vecarray1, vecarray2)
}

/// The quotient of two outlines, coordinate by coordinate.
pub fn div_vec_array(vecarray1: &Vec<Point>, vecarray2: &Vec<Point>) -> (r: Result<
    Vec<Point>,
    ShapeError,
>)
    ensures
        r matches Ok(v) ==> Operation::Divide.outline(vecarray1@, vecarray2@) == Ok::<
            Seq<Point>,
            ShapeError,
        >(v@),
        r matches Err(e) ==> Operation::Divide.outline(vecarray1@, vecarray2@) == Err::<
            Seq<Point>,
            ShapeError,
        >(e),
{
    Operation::Divide.apply_to_outlines(vecarray1, vecarray2)
}

/// An outline with every coordinate divided by `number`, which is counted
/// in thousandths.
pub fn div_vec_array_of_number(vecarray1: &Vec<Point>, number: i32) -> (r: Result<
    Vec<Point>,
    ShapeError,
>)
    ensures
        r matches Ok(v) ==> Operation::Divide.outline(
            vecarray1@,
            uniform(Point { x: number, y: number }, vecarray1@.len()),
        ) == Ok::<Seq<Point>, ShapeError>(v@),
        r matches Err(e) ==> Operation::Divide.outline(
            vecarray1@,
            uniform(Point { x: number, y: number }, vecarray1@.len()),
        ) == Err::<Seq<Point>, ShapeError>(e),
{
    let divisors: Vec<Point> = same_everywhere(Point { x: number, y: number }, vecarray1.len());
    Operation::Divide.apply_to_outlines(vecarray1, &divisors)
}

/// An outline with every coordinate multiplied by `multiplier`, which is
/// counted in thousandths.
pub fn mul_vec_array(vecarray: &Vec<Point>, multiplier: i32) -> (r: Result<Vec<Point>, ShapeError>)
    ensures
        r matches Ok(v) ==> Operation::Multiply.outline(
            vecarray@,
            uniform(Point { x: multiplier, y: multiplier }, vecarray@.len()),
        ) == Ok::<Seq<Point>, ShapeError>(v@),
        r matches Err(e) ==> Operation::Multiply.outline(
            vecarray@,
            uniform(Point { x: multiplier, y: multiplier }, vecarray@.len()),
        ) == Err::<Seq<Point>, ShapeError>(e),
{
    let factors: Vec<Point> = same_everywhere(
        Point { x: multiplier, y: multiplier },
        vecarray.len(),
    );
    Operation::Multiply.apply_to_outlines(vecarray, &factors)
}

} // verus!
