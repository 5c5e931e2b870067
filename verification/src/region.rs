//! Rectangles in the logical space of the compositor: overlap, bounding
//! boxes, and the area that a frame covers.

use crate::error::Error;
use crate::output::OutputInfo;
use crate::screencopy::FrameCopy;
use vstd::prelude::*;

verus! {

/// Rectangle of a capture, in logical coordinates.
#[derive(Debug, Copy, Clone, PartialEq, Eq, Structural)]
pub struct CaptureRegion {
    /// X coordinate of the area to capture.
    pub x_coordinate: i32,
    /// Y coordinate of the area to capture.
    pub y_coordinate: i32,
    /// Width of the capture area.
    pub width: i32,
    /// Height of the capture area.
    pub height: i32,
}

/// How the area of a screenshot is chosen.
#[derive(Debug, Clone, PartialEq, Eq)]
pub enum RegionCapturer {
    /// The area that these outputs cover together.
    Outputs(Vec<OutputInfo>),
    /// A given area.
    Region(CaptureRegion),
    /// An area that is picked while the screen shows a still of itself. The
    /// caller runs the selection and supplies its result.
    Freeze,
}

impl CaptureRegion {
    /// Left edge.
    pub open spec fn left(&self) -> int {
        self.x_coordinate as int
    }

    /// Right edge (exclusive).
    pub open spec fn right(&self) -> int {
        self.x_coordinate + self.width
    }

    /// Edge at the lowest y coordinate.
    pub open spec fn bottom(&self) -> int {
        self.y_coordinate as int
    }

    /// Edge at the highest y coordinate (exclusive).
    pub open spec fn top(&self) -> int {
        self.y_coordinate + self.height
    }

    /// A region is valid when neither of its sides is negative.
    pub open spec fn spec_is_valid(&self) -> bool {
        self.width >= 0 && self.height >= 0
    }

    /// Whether neither side of the region is negative.
    pub fn is_valid(&self) -> (r: bool)
        ensures
            r == self.spec_is_valid(),
    {
        self.width >= 0 && self.height >= 0
    }

    /// Two regions overlap when they share a point on both axes.
    pub open spec fn spec_overlaps(&self, other: &CaptureRegion) -> bool {
        &&& self.left() < other.right()
        &&& other.left() < self.right()
        &&& self.bottom() < other.top()
        &&& other.bottom() < self.top()
    }

    /// Whether the two rectangles share area.
    pub fn overlaps(&self, other: &CaptureRegion) -> (r: bool)
        ensures
            r == self.spec_overlaps(other),
    {
        let left: i64 = self.x_coordinate as i64;
        let bottom: i64 = self.y_coordinate as i64;
        let right: i64 = self.x_coordinate as i64 + self.width as i64;
        let top: i64 = self.y_coordinate as i64 + self.height as i64;

        let other_left: i64 = other.x_coordinate as i64;
        let other_bottom: i64 = other.y_coordinate as i64;
        let other_right: i64 = other.x_coordinate as i64 + other.width as i64;
        let other_top: i64 = other.y_coordinate as i64 + other.height as i64;

        left < other_right && other_left < right && bottom < other_top && other_bottom < top
    }

    /// The area that an output covers in the logical space.
    pub open spec fn of_output(output: OutputInfo) -> CaptureRegion {
        CaptureRegion {
            x_coordinate: output.dimensions.x,
            y_coordinate: output.dimensions.y,
            width: output.dimensions.width,
            height: output.dimensions.height,
        }
    }

    /// The areas that the outputs cover, one for one.
    pub open spec fn of_outputs(outputs: Seq<OutputInfo>) -> Seq<CaptureRegion> {
        Seq::new(outputs.len(), |i: int| CaptureRegion::of_output(outputs[i]))
    }

    /// Smallest left edge among the rectangles.
    pub open spec fn min_left(rects: Seq<CaptureRegion>) -> int
        decreases rects.len(),
    {
        if rects.len() == 0 {
            0
        } else if rects.len() == 1 {
            rects[0].left()
        } else {
            vstd::math::min(CaptureRegion::min_left(rects.drop_last()), rects.last().left())
        }
    }

    /// Smallest bottom edge among the rectangles.
    pub open spec fn min_bottom(rects: Seq<CaptureRegion>) -> int
        decreases rects.len(),
    {
        if rects.len() == 0 {
            0
        } else if rects.len() == 1 {
            rects[0].bottom()
        } else {
            vstd::math::min(CaptureRegion::min_bottom(rects.drop_last()), rects.last().bottom())
        }
    }

    /// Largest right edge among the rectangles.
    pub open spec fn max_right(rects: Seq<CaptureRegion>) -> int
        decreases rects.len(),
    {
        if rects.len() == 0 {
            0
        } else if rects.len() == 1 {
            rects[0].right()
        } else {
            vstd::math::max(CaptureRegion::max_right(rects.drop_last()), rects.last().right())
        }
    }

    /// Largest top edge among the rectangles.
    pub open spec fn max_top(rects: Seq<CaptureRegion>) -> int
        decreases rects.len(),
    {
        if rects.len() == 0 {
            0
        } else if rects.len() == 1 {
            rects[0].top()
        } else {
            vstd::math::max(CaptureRegion::max_top(rects.drop_last()), rects.last().top())
        }
    }

    /// Whether the bounding box of the rectangles can be held in a
    /// [`CaptureRegion`]: its width and height fit in 32 bits.
    pub open spec fn union_fits(rects: Seq<CaptureRegion>) -> bool {
        &&& i32::MIN <= CaptureRegion::max_right(rects) - CaptureRegion::min_left(rects) <= i32::MAX
        &&& i32::MIN <= CaptureRegion::max_top(rects) - CaptureRegion::min_bottom(rects) <= i32::MAX
    }

    /// Whether `self` is the bounding box of the rectangles: its edges are
    /// the smallest left and bottom and the largest right and top among them.
    pub open spec fn is_union_of(&self, rects: Seq<CaptureRegion>) -> bool {
        &&& self.left() == CaptureRegion::min_left(rects)
        &&& self.bottom() == CaptureRegion::min_bottom(rects)
        &&& self.right() == CaptureRegion::max_right(rects)
        &&& self.top() == CaptureRegion::max_top(rects)
    }

    /// The four extreme edges of the area that the outputs cover.
    fn extents(outputs: &Vec<OutputInfo>) -> (e: (i64, i64, i64, i64))
        requires
            outputs@.len() > 0,
        ensures
            e.0 == CaptureRegion::min_left(CaptureRegion::of_outputs(outputs@)),
            e.1 == CaptureRegion::min_bottom(CaptureRegion::of_outputs(outputs@)),
            e.2 == CaptureRegion::max_right(CaptureRegion::of_outputs(outputs@)),
            e.3 == CaptureRegion::max_top(CaptureRegion::of_outputs(outputs@)),
            i32::MIN <= e.0 <= i32::MAX,
            i32::MIN <= e.1 <= i32::MAX,
            2 * i32::MIN <= e.2 <= 2 * i32::MAX,
            2 * i32::MIN <= e.3 <= 2 * i32::MAX,
    {
        let ghost rects = CaptureRegion::of_outputs(outputs@);
        let first = &outputs[0].dimensions;
        let mut x1: i64 = first.x as i64;
        let mut y1: i64 = first.y as i64;
        let mut x2: i64 = first.x as i64 + first.width as i64;
        let mut y2: i64 = first.y as i64 + first.height as i64;
        assert(rects.take(1)[0] == rects[0]);
        let mut i: usize = 1;
        while i < outputs.len()
            invariant
                1 <= i <= outputs.len(),
                rects == CaptureRegion::of_outputs(outputs@),
                x1 == CaptureRegion::min_left(rects.take(i as int)),
                y1 == CaptureRegion::min_bottom(rects.take(i as int)),
                x2 == CaptureRegion::max_right(rects.take(i as int)),
                y2 == CaptureRegion::max_top(rects.take(i as int)),
                i32::MIN <= x1 <= i32::MAX,
                i32::MIN <= y1 <= i32::MAX,
                2 * i32::MIN <= x2 <= 2 * i32::MAX,
                2 * i32::MIN <= y2 <= 2 * i32::MAX,
            decreases outputs.len() - i,
        {
            let d = &outputs[i].dimensions;
            proof {
                assert(rects.take(i + 1).drop_last() =~= rects.take(i as int));
                assert(rects.take(i + 1).last() == rects[i as int]);
            }
            let left: i64 = d.x as i64;
            let bottom: i64 = d.y as i64;
            let right: i64 = d.x as i64 + d.width as i64;
            let top: i64 = d.y as i64 + d.height as i64;
            if left < x1 {
                x1 = left;
            }
            if bottom < y1 {
                y1 = bottom;
            }
            if right > x2 {
                x2 = right;
            }
            if top > y2 {
                y2 = top;
            }
            i += 1;
        }
        assert(rects.take(i as int) =~= rects);
        (x1, y1, x2, y2)
    }

    /// Whether the area that the outputs cover together can be held in a
    /// [`CaptureRegion`].
    pub fn outputs_union_fits(outputs: &Vec<OutputInfo>) -> (r: bool)
        ensures
            r == CaptureRegion::union_fits(CaptureRegion::of_outputs(outputs@)),
    {
        if outputs.len() == 0 {
            return true;
        }
        let (x1, y1, x2, y2) = CaptureRegion::extents(outputs);
        let width: i64 = x2 - x1;
        let height: i64 = y2 - y1;
        i32::MIN as i64 <= width && width <= i32::MAX as i64 && i32::MIN as i64 <= height && height
            <= i32::MAX as i64
    }

    /// Whether the region reaches exactly from the least x and y of the
    /// outputs to their greatest x + width and y + height: no output lies
    /// beyond an edge of the region, and on each edge lies one output.
    pub open spec fn spans(&self, outputs: Seq<OutputInfo>) -> bool {
        &&& forall|i: int|
            0 <= i < outputs.len() ==> {
                let d = (#[trigger] outputs[i]).dimensions;
                &&& self.x_coordinate <= d.x
                &&& self.y_coordinate <= d.y
                &&& self.x_coordinate + self.width >= d.x + d.width
                &&& self.y_coordinate + self.height >= d.y + d.height
            }
        &&& exists|i: int|
            0 <= i < outputs.len() && self.x_coordinate == (#[trigger] outputs[i]).dimensions.x
        &&& exists|i: int|
            0 <= i < outputs.len() && self.y_coordinate == (#[trigger] outputs[i]).dimensions.y
        &&& exists|i: int|
            0 <= i < outputs.len() && self.x_coordinate + self.width == (
            #[trigger] outputs[i]).dimensions.x + outputs[i].dimensions.width
        &&& exists|i: int|
            0 <= i < outputs.len() && self.y_coordinate + self.height == (
            #[trigger] outputs[i]).dimensions.y + outputs[i].dimensions.height
    }

    /// The area that the outputs cover together: the smallest rectangle that
    /// holds the area of each. Fails when there is no output.
    pub fn try_from_outputs(outputs: &Vec<OutputInfo>) -> (r: Result<CaptureRegion, Error>)
        requires
            CaptureRegion::union_fits(CaptureRegion::of_outputs(outputs@)),
        ensures
            outputs@.len() == 0 ==> r == Err::<CaptureRegion, Error>(Error::NoOutputs),
            outputs@.len() > 0 ==> r is Ok && r->Ok_0.is_union_of(
                CaptureRegion::of_outputs(outputs@),
            ) && r->Ok_0.spans(outputs@),
    {
        if outputs.len() == 0 {
            return Err(Error::NoOutputs);
        }
        let (x1, y1, x2, y2) = CaptureRegion::extents(outputs);
        proof {
            lemma_union_spans(outputs@);
        }
        Ok(
            CaptureRegion {
                x_coordinate: x1 as i32,
                y_coordinate: y1 as i32,
                width: (x2 - x1) as i32,
                height: (y2 - y1) as i32,
            },
        )
    }

    /// The area that a captured frame covers once it is turned upright: its
    /// position, and its pixel dimensions, which trade places where the
    /// output's transform turns it on its side. Dimensions are carried over
    /// as 32-bit signed values.
    pub open spec fn spec_from_frame(frame: &FrameCopy) -> CaptureRegion {
        let width = frame.frame_format.width as i32;
        let height = frame.frame_format.height as i32;
        CaptureRegion {
            x_coordinate: frame.position.0,
            y_coordinate: frame.position.1,
            width: if frame.transform.spec_is_portrait() {
                height
            } else {
                width
            },
            height: if frame.transform.spec_is_portrait() {
                width
            } else {
                height
            },
        }
    }

    /// The area that a captured frame covers once it is turned upright.
    pub fn from_frame(frame: &FrameCopy) -> (r: CaptureRegion)
        ensures
            r == CaptureRegion::spec_from_frame(frame),
    {
        let width: i32 = frame.frame_format.width as i32;
        let height: i32 = frame.frame_format.height as i32;
        let is_portrait = frame.transform.is_portrait();
        CaptureRegion {
            x_coordinate: frame.position.0,
            y_coordinate: frame.position.1,
            width: if is_portrait {
                height
            } else {
                width
            },
            height: if is_portrait {
                width
            } else {
                height
            },
        }
    }
}

impl RegionCapturer {
    /// The choice of the area that the given outputs cover together. Fails
    /// when there is no output.
    pub fn from_outputs(outputs: Vec<OutputInfo>) -> (r: Result<RegionCapturer, Error>)
        ensures
            outputs@.len() == 0 ==> r matches Err(Error::NoOutputs),
            outputs@.len() > 0 ==> (r matches Ok(RegionCapturer::Outputs(chosen)) && chosen
                == outputs),
    {
        if outputs.len() == 0 {
            Err(Error::NoOutputs)
        } else {
            Ok(RegionCapturer::Outputs(outputs))
        }
    }

    /// The outputs to capture: the given ones, or every known output where
    /// the area is not given by outputs.
    pub fn outputs<'a>(&'a self, all: &'a Vec<OutputInfo>) -> (r: &'a Vec<OutputInfo>)
        ensures
            match self {
                RegionCapturer::Outputs(outputs) => r == outputs,
                _ => r == all,
            },
    {
        match self {
            RegionCapturer::Outputs(outputs) => outputs,
            _ => all,
        }
    }

    /// The area to capture where it is known without asking: the area that
    /// the given outputs cover, or the given area. `None` where it is to be
    /// picked on the frozen screen.
    pub fn region(&self) -> (r: Option<Result<CaptureRegion, Error>>)
        requires
            self matches RegionCapturer::Outputs(outputs) ==> CaptureRegion::union_fits(
                CaptureRegion::of_outputs(outputs@),
            ),
        ensures
            match self {
                RegionCapturer::Outputs(outputs) => {
                    &&& r is Some
                    &&& outputs@.len() == 0 ==> r->0 == Err::<CaptureRegion, Error>(
                        Error::NoOutputs,
                    )
                    &&& outputs@.len() > 0 ==> r->0 is Ok && r->0->Ok_0.is_union_of(
                        CaptureRegion::of_outputs(outputs@),
                    ) && r->0->Ok_0.spans(outputs@)
                },
                RegionCapturer::Region(region) => r == Some(
                    Ok::<CaptureRegion, Error>(*region),
                ),
                RegionCapturer::Freeze => r is None,
            },
    {
        match self {
            RegionCapturer::Outputs(outputs) => Some(CaptureRegion::try_from_outputs(outputs)),
            RegionCapturer::Region(region) => Some(Ok(*region)),
            RegionCapturer::Freeze => None,
        }
    }
}

/// Law: overlap does not depend on the order of the two regions.
pub proof fn lemma_overlaps_symmetric(a: CaptureRegion, b: CaptureRegion)
    ensures
        a.spec_overlaps(&b) == b.spec_overlaps(&a),
{
}

/// Law: a region with area overlaps itself.
pub proof fn lemma_overlaps_reflexive(a: CaptureRegion)
    requires
        a.width > 0,
        a.height > 0,
    ensures
        a.spec_overlaps(&a),
{
}

/// Law: a region does not overlap one that lies wholly beyond one of its
/// edges.
pub proof fn lemma_outside_never_overlaps(a: CaptureRegion, b: CaptureRegion)
    requires
        b.left() >= a.right() || b.right() <= a.left() || b.bottom() >= a.top() || b.top()
            <= a.bottom(),
    ensures
        !a.spec_overlaps(&b),
{
}

/// Law: the edges of the bounding box are extremes of the rectangles: no
/// rectangle reaches beyond them, and each is the edge of one rectangle.
pub proof fn lemma_union_edges_are_extremes(rects: Seq<CaptureRegion>)
    requires
        rects.len() > 0,
    ensures
        forall|i: int| 0 <= i < rects.len() ==> CaptureRegion::min_left(rects) <= rects[i].left(),
        forall|i: int|
            0 <= i < rects.len() ==> CaptureRegion::min_bottom(rects) <= rects[i].bottom(),
        forall|i: int| 0 <= i < rects.len() ==> CaptureRegion::max_right(rects) >= rects[i].right(),
        forall|i: int| 0 <= i < rects.len() ==> CaptureRegion::max_top(rects) >= rects[i].top(),
        exists|i: int| 0 <= i < rects.len() && CaptureRegion::min_left(rects) == rects[i].left(),
        exists|i: int|
            0 <= i < rects.len() && CaptureRegion::min_bottom(rects) == rects[i].bottom(),
        exists|i: int| 0 <= i < rects.len() && CaptureRegion::max_right(rects) == rects[i].right(),
        exists|i: int| 0 <= i < rects.len() && CaptureRegion::max_top(rects) == rects[i].top(),
    decreases rects.len(),
{
    if rects.len() == 1 {
        assert(CaptureRegion::min_left(rects) == rects[0].left());
        assert(CaptureRegion::min_bottom(rects) == rects[0].bottom());
        assert(CaptureRegion::max_right(rects) == rects[0].right());
        assert(CaptureRegion::max_top(rects) == rects[0].top());
    } else {
        let front = rects.drop_last();
        lemma_union_edges_are_extremes(front);
        let last = rects.len() - 1;
        assert forall|i: int| 0 <= i < rects.len() implies CaptureRegion::min_left(rects)
            <= rects[i].left() && CaptureRegion::min_bottom(rects) <= rects[i].bottom()
            && CaptureRegion::max_right(rects) >= rects[i].right() && CaptureRegion::max_top(rects)
            >= rects[i].top() by {
            if i < last {
                assert(front[i] == rects[i]);
            }
        }
        let l = choose|i: int|
            0 <= i < front.len() && CaptureRegion::min_left(front) == front[i].left();
        assert(front[l] == rects[l]);
        assert(CaptureRegion::min_left(rects) == rects[l].left() || CaptureRegion::min_left(rects)
            == rects[last].left());
        let b = choose|i: int|
            0 <= i < front.len() && CaptureRegion::min_bottom(front) == front[i].bottom();
        assert(front[b] == rects[b]);
        assert(CaptureRegion::min_bottom(rects) == rects[b].bottom() || CaptureRegion::min_bottom(
            rects,
        ) == rects[last].bottom());
        let r = choose|i: int|
            0 <= i < front.len() && CaptureRegion::max_right(front) == front[i].right();
        assert(front[r] == rects[r]);
        assert(CaptureRegion::max_right(rects) == rects[r].right() || CaptureRegion::max_right(
            rects,
        ) == rects[last].right());
        let t = choose|i: int|
            0 <= i < front.len() && CaptureRegion::max_top(front) == front[i].top();
        assert(front[t] == rects[t]);
        assert(CaptureRegion::max_top(rects) == rects[t].top() || CaptureRegion::max_top(rects)
            == rects[last].top());
    }
}

/// Law: the bounding box of one rectangle alone is that rectangle, and no
/// other; so the bounding box of a bounding box is that same box.
pub proof fn lemma_union_idempotent(union: CaptureRegion)
    ensures
        union.is_union_of(seq![union]),
        forall|again: CaptureRegion| again.is_union_of(seq![union]) ==> again == union,
{
    assert(seq![union][0] == union);
}

/// Law: a region whose edges are the extremes of the outputs' areas reaches
/// from the least x and y among the outputs to the greatest x + width and
/// y + height among them.
pub proof fn lemma_union_spans(outputs: Seq<OutputInfo>)
    requires
        outputs.len() > 0,
    ensures
        forall|union: CaptureRegion|
            union.is_union_of(CaptureRegion::of_outputs(outputs)) ==> #[trigger] union.spans(
                outputs,
            ),
{
    let rects = CaptureRegion::of_outputs(outputs);
    lemma_union_edges_are_extremes(rects);
    let l = choose|i: int|
        0 <= i < rects.len() && CaptureRegion::min_left(rects) == rects[i].left();
    let b = choose|i: int|
        0 <= i < rects.len() && CaptureRegion::min_bottom(rects) == rects[i].bottom();
    let r = choose|i: int|
        0 <= i < rects.len() && CaptureRegion::max_right(rects) == rects[i].right();
    let t = choose|i: int|
        0 <= i < rects.len() && CaptureRegion::max_top(rects) == rects[i].top();
    assert forall|union: CaptureRegion| union.is_union_of(rects) implies #[trigger] union.spans(
        outputs,
    ) by {
        assert forall|i: int| 0 <= i < outputs.len() implies {
            let d = (#[trigger] outputs[i]).dimensions;
            &&& union.x_coordinate <= d.x
            &&& union.y_coordinate <= d.y
            &&& union.x_coordinate + union.width >= d.x + d.width
            &&& union.y_coordinate + union.height >= d.y + d.height
        } by {
            assert(rects[i] == CaptureRegion::of_output(outputs[i]));
        }
        assert(rects[l] == CaptureRegion::of_output(outputs[l]));
        assert(rects[b] == CaptureRegion::of_output(outputs[b]));
        assert(rects[r] == CaptureRegion::of_output(outputs[r]));
        assert(rects[t] == CaptureRegion::of_output(outputs[t]));
    }
}

/// Law: the bounding box depends on which rectangles there are, not on
/// their order nor on how often each occurs: two lists in which the same
/// rectangles occur have the same extreme edges, and so the same bounding
/// box.
pub proof fn lemma_union_depends_on_set(a: Seq<CaptureRegion>, b: Seq<CaptureRegion>)
    requires
        a.len() > 0,
        b.len() > 0,
        forall|i: int| 0 <= i < a.len() ==> b.contains(#[trigger] a[i]),
        forall|j: int| 0 <= j < b.len() ==> a.contains(#[trigger] b[j]),
    ensures
        CaptureRegion::min_left(a) == CaptureRegion::min_left(b),
        CaptureRegion::min_bottom(a) == CaptureRegion::min_bottom(b),
        CaptureRegion::max_right(a) == CaptureRegion::max_right(b),
        CaptureRegion::max_top(a) == CaptureRegion::max_top(b),
        forall|union: CaptureRegion| union.is_union_of(a) <==> union.is_union_of(b),
        forall|first: CaptureRegion, second: CaptureRegion|
            first.is_union_of(a) && second.is_union_of(b) ==> first == second,
{
    lemma_extremes_within(a, b);
    lemma_extremes_within(b, a);
}

/// Law: two lists of outputs in which the same areas occur, in whatever
/// order and however often, are covered by the same region.
pub proof fn lemma_outputs_union_depends_on_set(first: Seq<OutputInfo>, second: Seq<OutputInfo>)
    requires
        first.len() > 0,
        second.len() > 0,
        forall|i: int|
            0 <= i < first.len() ==> exists|j: int|
                0 <= j < second.len() && (#[trigger] second[j]).dimensions == (
                #[trigger] first[i]).dimensions,
        forall|j: int|
            0 <= j < second.len() ==> exists|i: int|
                0 <= i < first.len() && (#[trigger] first[i]).dimensions == (
                #[trigger] second[j]).dimensions,
    ensures
        forall|a: CaptureRegion, b: CaptureRegion|
            a.is_union_of(CaptureRegion::of_outputs(first)) && b.is_union_of(
                CaptureRegion::of_outputs(second),
            ) ==> a == b,
{
    let a = CaptureRegion::of_outputs(first);
    let b = CaptureRegion::of_outputs(second);
    assert forall|i: int| 0 <= i < a.len() implies b.contains(#[trigger] a[i]) by {
        let j = choose|j: int|
            0 <= j < second.len() && (#[trigger] second[j]).dimensions == first[i].dimensions;
        assert(b[j] == a[i]);
    }
    assert forall|j: int| 0 <= j < b.len() implies a.contains(#[trigger] b[j]) by {
        let i = choose|i: int|
            0 <= i < first.len() && (#[trigger] first[i]).dimensions == second[j].dimensions;
        assert(a[i] == b[j]);
    }
    lemma_union_depends_on_set(a, b);
}

/// Where every rectangle of `inner` occurs in `outer`, the extremes of
/// `inner` lie within those of `outer`.
proof fn lemma_extremes_within(inner: Seq<CaptureRegion>, outer: Seq<CaptureRegion>)
    requires
        inner.len() > 0,
        outer.len() > 0,
        forall|i: int| 0 <= i < inner.len() ==> outer.contains(#[trigger] inner[i]),
    ensures
        CaptureRegion::min_left(outer) <= CaptureRegion::min_left(inner),
        CaptureRegion::min_bottom(outer) <= CaptureRegion::min_bottom(inner),
        CaptureRegion::max_right(outer) >= CaptureRegion::max_right(inner),
        CaptureRegion::max_top(outer) >= CaptureRegion::max_top(inner),
{
    lemma_union_edges_are_extremes(inner);
    lemma_union_edges_are_extremes(outer);
    let l = choose|i: int|
        0 <= i < inner.len() && CaptureRegion::min_left(inner) == inner[i].left();
    let b = choose|i: int|
        0 <= i < inner.len() && CaptureRegion::min_bottom(inner) == inner[i].bottom();
    let r = choose|i: int|
        0 <= i < inner.len() && CaptureRegion::max_right(inner) == inner[i].right();
    let t = choose|i: int|
        0 <= i < inner.len() && CaptureRegion::max_top(inner) == inner[i].top();
    assert(outer.contains(inner[l]));
    let lo = choose|j: int| 0 <= j < outer.len() && outer[j] == inner[l];
    assert(CaptureRegion::min_left(outer) <= outer[lo].left());
    assert(outer.contains(inner[b]));
    let bo = choose|j: int| 0 <= j < outer.len() && outer[j] == inner[b];
    assert(CaptureRegion::min_bottom(outer) <= outer[bo].bottom());
    assert(outer.contains(inner[r]));
    let ro = choose|j: int| 0 <= j < outer.len() && outer[j] == inner[r];
    assert(CaptureRegion::max_right(outer) >= outer[ro].right());
    assert(outer.contains(inner[t]));
    let to = choose|j: int| 0 <= j < outer.len() && outer[j] == inner[t];
    assert(CaptureRegion::max_top(outer) >= outer[to].top());
}

} // verus!
