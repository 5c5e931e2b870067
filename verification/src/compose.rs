//! Composition of captured frames into one image of a region, and the
//! joining of captures that ran side by side.

use crate::error::Error;
use crate::image_util::{rotate_image_buffer, Image, ImageView, Rgba};
use crate::region::CaptureRegion;
use crate::screencopy::FrameCopy;
use vstd::prelude::*;

verus! {

/// The image of a frame, brought upright.
pub open spec fn upright_image(frame: FrameCopy) -> Result<ImageView, Error> {
    match frame.spec_to_image() {
        Ok(view) => Ok(view.transformed(frame.transform)),
        Err(error) => Err(error),
    }
}

/// The canvas of a region before anything is pasted: opaque black.
pub open spec fn blank_canvas(region: CaptureRegion) -> ImageView {
    ImageView::filled(region.width as nat, region.height as nat, Rgba::spec_opaque_black())
}

/// What pasting the frames, first to last, comes to: `None` while no frame
/// has overlapped the region; else the canvas, or the failure of the first
/// overlapping frame that could not be read. A frame that does not overlap
/// the region is passed over.
pub open spec fn composed(region: CaptureRegion, frames: Seq<FrameCopy>) -> Option<
    Result<ImageView, Error>,
>
    decreases frames.len(),
{
    if frames.len() == 0 {
        None
    } else {
        let before = composed(region, frames.drop_last());
        let frame = frames.last();
        if !region.spec_overlaps(&CaptureRegion::spec_from_frame(&frame)) {
            before
        } else {
            let canvas = match before {
                None => Ok(blank_canvas(region)),
                Some(canvas) => canvas,
            };
            Some(
                match (canvas, upright_image(frame)) {
                    (Ok(canvas), Ok(image)) => Ok(
                        canvas.replace(
                            image,
                            frame.position.0 - region.x_coordinate,
                            frame.position.1 - region.y_coordinate,
                        ),
                    ),
                    (Err(error), _) => Err(error),
                    (Ok(_), Err(error)) => Err(error),
                },
            )
        }
    }
}

/// Whether a canvas for the region can be made: its sides are not negative,
/// and its bytes can be counted on this machine.
pub open spec fn spec_can_compose(region: CaptureRegion) -> bool {
    &&& region.spec_is_valid()
    &&& Image::fits(region.width as u32, region.height as u32, usize::MAX as nat)
}

/// Whether a canvas for the region can be made.
pub fn can_compose(region: CaptureRegion) -> (r: bool)
    ensures
        r == spec_can_compose(region),
{
    if region.width < 0 || region.height < 0 {
        return false;
    }
    assert(region.width * region.height <= 0x7fff_ffff * 0x7fff_ffff) by (nonlinear_arith)
        requires
            0 <= region.width <= 0x7fff_ffff,
            0 <= region.height <= 0x7fff_ffff,
    ;
    assert(4 * region.width * region.height == 4 * (region.width * region.height))
        by (nonlinear_arith);
    let most: u64 = usize::MAX as u64;
    let bytes: u64 = 4 * (region.width as u64 * region.height as u64);
    bytes <= most && 4 * (region.width as u64) <= most && 4 * (region.height as u64) <= most
}

/// Once a frame has failed, later frames change nothing.
proof fn lemma_failure_stays(region: CaptureRegion, frames: Seq<FrameCopy>, n: int, error: Error)
    requires
        0 <= n <= frames.len(),
        composed(region, frames.take(n)) == Some(Err::<ImageView, Error>(error)),
    ensures
        composed(region, frames) == Some(Err::<ImageView, Error>(error)),
    decreases frames.len() - n,
{
    if n == frames.len() {
        assert(frames.take(n) =~= frames);
    } else {
        assert(frames.take(n + 1).drop_last() =~= frames.take(n));
        lemma_failure_stays(region, frames, n + 1, error);
    }
}

/// Pastes the frames that overlap the region onto a canvas of the region's
/// size, each upright and at its position relative to the region's origin.
/// Fails with [`Error::NoOutputs`] where no frame overlaps the region, and
/// with the failure of the first overlapping frame that cannot be read.
pub fn compose(region: CaptureRegion, frames: &Vec<FrameCopy>) -> (r: Result<Image, Error>)
    requires
        spec_can_compose(region),
    ensures
        match composed(region, frames@) {
            None => r is Err && r->Err_0 == Error::NoOutputs,
            Some(Err(error)) => r is Err && r->Err_0 == error,
            Some(Ok(canvas)) => r is Ok && r->Ok_0@ == canvas,
        },
{
    let mut canvas: Option<Image> = None;
    let mut i: usize = 0;
    while i < frames.len()
        invariant
            0 <= i <= frames.len(),
            spec_can_compose(region),
            match canvas {
                None => composed(region, frames@.take(i as int)) is None,
                Some(image) => composed(region, frames@.take(i as int)) == Some(
                    Ok::<ImageView, Error>(image@),
                ),
            },
        decreases frames.len() - i,
    {
        let frame = &frames[i];
        proof {
            assert(frames@.take(i + 1).drop_last() =~= frames@.take(i as int));
        }
        if region.overlaps(&CaptureRegion::from_frame(frame)) {
            let image = match frame.to_image() {
                Ok(image) => rotate_image_buffer(image, frame.transform),
                Err(error) => {
                    proof {
                        lemma_failure_stays(region, frames@, i + 1, error);
                    }
                    return Err(error);
                },
            };
            let mut under = match canvas {
                Some(under) => under,
                None => Image::from_pixel(
                    region.width as u32,
                    region.height as u32,
                    Rgba::opaque_black(),
                ),
            };
            under.paste(
                &image,
                frame.position.0 as i64 - region.x_coordinate as i64,
                frame.position.1 as i64 - region.y_coordinate as i64,
            );
            canvas = Some(under);
        }
        i += 1;
    }
    assert(frames@.take(i as int) =~= frames@);
    match canvas {
        Some(image) => Ok(image),
        None => Err(Error::NoOutputs),
    }
}

/// Law: frames none of which overlaps the region compose to nothing, so
/// that the composition fails with [`Error::NoOutputs`]; this holds of no
/// frames at all.
pub proof fn lemma_compose_without_overlap(region: CaptureRegion, frames: Seq<FrameCopy>)
    requires
        forall|i: int|
            0 <= i < frames.len() ==> !region.spec_overlaps(
                &CaptureRegion::spec_from_frame(&frames[i]),
            ),
    ensures
        composed(region, frames) is None,
    decreases frames.len(),
{
    if frames.len() > 0 {
        lemma_compose_without_overlap(region, frames.drop_last());
    }
}

/// Law: of two frames, one overlapping the region and one outside it, only
/// the first is pasted, whichever comes first: the canvas shows the pixels
/// of the overlapping frame where it lies, moved by its position relative
/// to the region's origin, and opaque black everywhere else.
pub proof fn lemma_compose_skips_outside(
    region: CaptureRegion,
    inside: FrameCopy,
    outside: FrameCopy,
)
    requires
        region.width >= 0,
        region.height >= 0,
        region.spec_overlaps(&CaptureRegion::spec_from_frame(&inside)),
        !region.spec_overlaps(&CaptureRegion::spec_from_frame(&outside)),
        upright_image(inside) is Ok,
    ensures
        composed(region, seq![inside, outside]) == composed(region, seq![inside]),
        composed(region, seq![outside, inside]) == composed(region, seq![inside]),
        composed(region, seq![inside]) matches Some(Ok(canvas)) && {
            let image = upright_image(inside)->Ok_0;
            let dx = inside.position.0 - region.x_coordinate;
            let dy = inside.position.1 - region.y_coordinate;
            &&& canvas.width == region.width
            &&& canvas.height == region.height
            &&& forall|x: int, y: int|
                0 <= x < region.width && 0 <= y < region.height ==> #[trigger] canvas.rows[y][x]
                    == if dx <= x < dx + image.width && dy <= y < dy + image.height {
                    image.rows[y - dy][x - dx]
                } else {
                    Rgba::spec_opaque_black()
                }
        },
{
    let one = seq![inside];
    assert(composed(region, one.drop_last()) is None);
    let first = seq![inside, outside];
    assert(first.drop_last() =~= one);
    let second = seq![outside, inside];
    let lone = seq![outside];
    assert(second.drop_last() =~= lone);
    assert(composed(region, lone.drop_last()) is None);
    assert(composed(region, lone) is None);
}

/// Position of the first failure among the results, from position `from` on.
pub open spec fn first_failure<T, E>(results: Seq<Result<T, E>>, from: int) -> Option<int>
    decreases results.len() - from,
{
    if from < 0 || from >= results.len() {
        None
    } else if results[from] is Err {
        Some(from)
    } else {
        first_failure(results, from + 1)
    }
}

/// Joins the results of captures that ran side by side: every frame, in
/// order, if every capture succeeded; else the failure of the first capture
/// that failed, so that no screenshot is made of some outputs only.
pub fn collect_results<T, E>(results: Vec<Result<T, E>>) -> (r: Result<Vec<T>, E>)
    ensures
        match first_failure(results@, 0) {
            Some(i) => r is Err && r->Err_0 == results@[i]->Err_0,
            None => {
                &&& r is Ok
                &&& r->Ok_0@.len() == results@.len()
                &&& forall|i: int|
                    0 <= i < results@.len() ==> results@[i] == Ok::<T, E>(
                        #[trigger] r->Ok_0@[i],
                    )
            },
        },
{
    let mut values: Vec<T> = Vec::new();
    let ghost all = results@;
    for result in it: results
        invariant
            it.seq() == all,
            values@.len() == it.index(),
            first_failure(all, 0) == first_failure(all, it.index() as int),
            forall|i: int| 0 <= i < values@.len() ==> all[i] == Ok::<T, E>(#[trigger] values@[i]),
    {
        match result {
            Ok(value) => {
                values.push(value);
            },
            Err(error) => {
                return Err(error);
            },
        }
    }
    Ok(values)
}

} // verus!
