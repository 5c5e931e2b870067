use libwayshot::error::Error;
use libwayshot::output::{OutputInfo, OutputPositioning, Transform, WlOutputMode};
use libwayshot::region::{CaptureRegion, RegionCapturer};
use libwayshot::screencopy::{ColorType, FrameCopy, FrameFormat, FORMAT_XBGR8888};

fn region(x: i32, y: i32, width: i32, height: i32) -> CaptureRegion {
    CaptureRegion { x_coordinate: x, y_coordinate: y, width, height }
}

fn output(id: u32, x: i32, y: i32, width: i32, height: i32) -> OutputInfo {
    OutputInfo {
        id,
        name: format!("OUT-{id}"),
        description: String::new(),
        transform: Transform::Normal,
        scale: 1,
        dimensions: OutputPositioning { x, y, width, height },
        mode: WlOutputMode { width, height },
    }
}

fn frame(transform: Transform, width: u32, height: u32, position: (i32, i32)) -> FrameCopy {
    FrameCopy {
        frame_format: FrameFormat { format: FORMAT_XBGR8888, width, height, stride: width * 4 },
        frame_color_type: ColorType::Rgba8,
        frame_data: vec![0; (width * height * 4) as usize],
        transform,
        position,
    }
}

#[test]
fn overlap_is_symmetric() {
    let a = region(0, 0, 100, 100);
    let b = region(50, 50, 100, 100);
    assert!(a.overlaps(&b));
    assert!(b.overlaps(&a));
    let c = region(-30, 10, 31, 5);
    assert_eq!(a.overlaps(&c), c.overlaps(&a));
    assert!(a.overlaps(&c));
}

#[test]
fn overlap_is_reflexive_for_regions_with_area() {
    let a = region(7, -3, 1, 1);
    assert!(a.overlaps(&a));
    let b = region(0, 0, 1920, 1080);
    assert!(b.overlaps(&b.clone()));
}

#[test]
fn empty_region_does_not_overlap_itself() {
    let a = region(0, 0, 0, 0);
    assert!(!a.overlaps(&a));
    let b = region(5, 5, 10, 0);
    assert!(!b.overlaps(&b));
}

#[test]
fn region_outside_does_not_overlap() {
    let a = region(0, 0, 100, 100);
    let b = region(200, 0, 50, 50);
    assert!(!a.overlaps(&b));
    assert!(!b.overlaps(&a));
}

#[test]
fn regions_that_touch_do_not_overlap() {
    let a = region(0, 0, 100, 100);
    assert!(!a.overlaps(&region(100, 0, 100, 100)));
    assert!(!a.overlaps(&region(0, 100, 100, 100)));
    assert!(!a.overlaps(&region(-100, 0, 100, 100)));
    assert!(a.overlaps(&region(99, 99, 100, 100)));
}

#[test]
fn overlap_near_the_limits_of_the_coordinates() {
    let a = region(i32::MAX - 10, i32::MAX - 10, i32::MAX, i32::MAX);
    let b = region(i32::MAX - 5, i32::MAX - 5, 1, 1);
    assert!(a.overlaps(&b));
    let c = region(i32::MIN, i32::MIN, 1, 1);
    assert!(!a.overlaps(&c));
}

#[test]
fn union_of_no_outputs_fails() {
    let outputs: Vec<OutputInfo> = Vec::new();
    assert!(CaptureRegion::outputs_union_fits(&outputs));
    assert_eq!(CaptureRegion::try_from_outputs(&outputs), Err(Error::NoOutputs));
}

#[test]
fn union_of_one_output_is_its_area() {
    let outputs = vec![output(1, -5, 7, 640, 480)];
    assert_eq!(CaptureRegion::try_from_outputs(&outputs), Ok(region(-5, 7, 640, 480)));
}

#[test]
fn union_spans_from_the_least_to_the_greatest_edge() {
    let outputs = vec![
        output(1, 0, 0, 1920, 1080),
        output(2, 1920, 0, 1080, 1920),
        output(3, -1280, 200, 1280, 1024),
    ];
    assert!(CaptureRegion::outputs_union_fits(&outputs));
    let union = CaptureRegion::try_from_outputs(&outputs).unwrap();
    assert_eq!(union, region(-1280, 0, 4280, 1920));
    assert_eq!(union.x_coordinate + union.width, 3000);
    assert_eq!(union.y_coordinate + union.height, 1920);
}

#[test]
fn union_does_not_depend_on_the_order_of_the_outputs() {
    let a = vec![output(1, 10, 20, 30, 40), output(2, -10, 50, 5, 100)];
    let b = vec![output(2, -10, 50, 5, 100), output(1, 10, 20, 30, 40)];
    assert_eq!(CaptureRegion::try_from_outputs(&a), CaptureRegion::try_from_outputs(&b));
    assert_eq!(CaptureRegion::try_from_outputs(&a), Ok(region(-10, 20, 50, 130)));
}

#[test]
fn union_does_not_depend_on_how_often_an_output_occurs() {
    let once = vec![output(1, 10, 20, 30, 40), output(2, -10, 50, 5, 100)];
    let more = vec![
        output(2, -10, 50, 5, 100),
        output(1, 10, 20, 30, 40),
        output(3, -10, 50, 5, 100),
        output(1, 10, 20, 30, 40),
    ];
    assert_eq!(CaptureRegion::try_from_outputs(&more), CaptureRegion::try_from_outputs(&once));
}

#[test]
fn union_starts_at_the_least_x_and_y() {
    let outputs = vec![
        output(1, 5, -9, 10, 10),
        output(2, -7, 3, 1, 1),
        output(3, 0, 0, 100, 2),
    ];
    let union = CaptureRegion::try_from_outputs(&outputs).unwrap();
    assert_eq!(union.x_coordinate, -7);
    assert_eq!(union.y_coordinate, -9);
    assert_eq!(union.x_coordinate + union.width, 100);
    assert_eq!(union.y_coordinate + union.height, 4);
}

#[test]
fn valid_regions() {
    assert!(region(0, 0, 0, 0).is_valid());
    assert!(region(-5, -5, 1, i32::MAX).is_valid());
    assert!(!region(0, 0, -1, 5).is_valid());
    assert!(!region(0, 0, 5, i32::MIN).is_valid());
}

#[test]
fn union_of_a_union_is_the_same_region() {
    let outputs = vec![output(1, 0, 0, 1920, 1080), output(2, 1920, 0, 1080, 1920)];
    let union = CaptureRegion::try_from_outputs(&outputs).unwrap();
    let again = vec![output(9, union.x_coordinate, union.y_coordinate, union.width, union.height)];
    assert_eq!(CaptureRegion::try_from_outputs(&again), Ok(union));
}

#[test]
fn union_that_is_too_wide_is_told_apart() {
    let outputs = vec![output(1, i32::MIN, 0, 10, 10), output(2, i32::MAX - 10, 0, 10, 10)];
    assert!(!CaptureRegion::outputs_union_fits(&outputs));
    let outputs = vec![output(1, 0, i32::MIN, 10, 10), output(2, 0, i32::MAX - 10, 10, 10)];
    assert!(!CaptureRegion::outputs_union_fits(&outputs));
    let outputs = vec![output(1, -1, 0, 1, 10), output(2, 0, 0, i32::MAX - 1, 10)];
    assert!(CaptureRegion::outputs_union_fits(&outputs));
    assert_eq!(CaptureRegion::try_from_outputs(&outputs), Ok(region(-1, 0, i32::MAX, 10)));
}

#[test]
fn frame_region_keeps_dimensions_of_an_upright_output() {
    for transform in [Transform::Normal, Transform::_180, Transform::Flipped, Transform::Flipped180]
    {
        let f = frame(transform, 6, 4, (100, -20));
        assert_eq!(CaptureRegion::from_frame(&f), region(100, -20, 6, 4));
    }
}

#[test]
fn frame_region_swaps_dimensions_of_an_output_on_its_side() {
    for transform in
        [Transform::_90, Transform::_270, Transform::Flipped90, Transform::Flipped270]
    {
        let f = frame(transform, 6, 4, (100, -20));
        assert_eq!(CaptureRegion::from_frame(&f), region(100, -20, 4, 6));
    }
}

#[test]
fn transform_on_its_side() {
    assert!(Transform::_90.is_portrait());
    assert!(Transform::Flipped270.is_portrait());
    assert!(!Transform::Normal.is_portrait());
    assert!(!Transform::Flipped180.is_portrait());
}

#[test]
fn capturer_of_no_outputs_fails() {
    assert_eq!(RegionCapturer::from_outputs(Vec::new()), Err(Error::NoOutputs));
}

#[test]
fn capturer_of_outputs_captures_those_outputs() {
    let all = vec![output(1, 0, 0, 10, 10), output(2, 10, 0, 10, 10), output(3, 20, 0, 10, 10)];
    let chosen = vec![output(2, 10, 0, 10, 10)];
    let capturer = RegionCapturer::from_outputs(chosen.clone()).unwrap();
    assert_eq!(capturer.outputs(&all), &chosen);
    assert_eq!(capturer.region(), Some(Ok(region(10, 0, 10, 10))));
}

#[test]
fn capturer_of_a_region_captures_every_output() {
    let all = vec![output(1, 0, 0, 10, 10), output(2, 10, 0, 10, 10)];
    let capturer = RegionCapturer::Region(region(5, 5, 10, 2));
    assert_eq!(capturer.outputs(&all), &all);
    assert_eq!(capturer.region(), Some(Ok(region(5, 5, 10, 2))));
}

#[test]
fn capturer_on_the_frozen_screen_has_no_region_of_its_own() {
    let all = vec![output(1, 0, 0, 10, 10)];
    let capturer = RegionCapturer::Freeze;
    assert_eq!(capturer.outputs(&all), &all);
    assert_eq!(capturer.region(), None);
}
