use mandelbrot_viewer::coordinate::{Coordinate, PlanePoint, UNITS_PER_PIXEL};
use mandelbrot_viewer::escape::{evaluate, EscapeResult};
use mandelbrot_viewer::frame::{
    calculate_for_range, join_ranges, partition_columns, render_frame, FrameTask, PixelColorEntry,
};
use mandelbrot_viewer::viewport::{Direction, ViewportState};

const IDENTITY: FrameTask = FrameTask { pan_offset: (0, 0), magnification: 1 };

fn value(coordinate: Coordinate) -> f64 {
    coordinate.numerator as f64 / coordinate.denominator as f64
}

fn escape_time(point: PlanePoint) -> EscapeResult {
    let c = (value(point.real), value(point.imaginary));
    evaluate(
        c,
        (0.01f64, 0.01f64),
        10,
        &|a: (f64, f64), b: (f64, f64)| (a.0 * b.0 - a.1 * b.1, a.0 * b.1 + a.1 * b.0),
        &|a: (f64, f64), b: (f64, f64)| (a.0 + b.0, a.1 + b.1),
        &|z: &(f64, f64)| (z.0 * z.0 + z.1 * z.1).sqrt() < 2.0,
    )
}

fn quotients(point: PlanePoint) -> (i128, i128, i128, i128) {
    (
        point.real.numerator,
        point.real.denominator,
        point.imaginary.numerator,
        point.imaginary.denominator,
    )
}

fn ranges_of(width: u32, worker_count: usize) -> Vec<(u32, u32)> {
    partition_columns(width, worker_count).iter().map(|r| (r.start, r.end)).collect()
}

fn flat<C: Copy>(frame: &[PixelColorEntry<C>]) -> Vec<(u32, u32, C)> {
    frame.iter().map(|e| (e.x, e.y, e.color)).collect()
}

#[test]
fn columns_are_cut_into_equal_chunks() {
    let ranges = ranges_of(500, 10);
    assert_eq!(ranges.len(), 10);
    for (index, range) in ranges.iter().enumerate() {
        assert_eq!(*range, (50 * index as u32, 50 * index as u32 + 50));
    }
    assert_eq!(ranges_of(4, 1), vec![(0, 4)]);
    assert_eq!(ranges_of(4, 2), vec![(0, 2), (2, 4)]);
}

#[test]
fn last_chunk_takes_the_remainder() {
    assert_eq!(ranges_of(10, 3), vec![(0, 3), (3, 6), (6, 10)]);
    assert_eq!(ranges_of(7, 4), vec![(0, 1), (1, 2), (2, 3), (3, 7)]);
    assert_eq!(ranges_of(2, 5), vec![(0, 0), (0, 0), (0, 0), (0, 0), (0, 2)]);
    assert_eq!(ranges_of(0, 3), vec![(0, 0), (0, 0), (0, 0)]);
    assert_eq!(ranges_of(u32::MAX, 2), vec![(0, u32::MAX / 2), (u32::MAX / 2, u32::MAX)]);
}

#[test]
fn chunks_tile_the_columns() {
    for width in 0u32..40 {
        for worker_count in 1usize..12 {
            let ranges = ranges_of(width, worker_count);
            assert_eq!(ranges.len(), worker_count);
            assert_eq!(ranges[0].0, 0);
            assert_eq!(ranges[worker_count - 1].1, width);
            for index in 0..worker_count {
                assert!(ranges[index].0 <= ranges[index].1);
                if index + 1 < worker_count {
                    assert_eq!(ranges[index].1, ranges[index + 1].0);
                    assert_eq!(ranges[index].1 - ranges[index].0, width / worker_count as u32);
                }
            }
        }
    }
}

#[test]
fn plane_point_maps_each_axis_with_its_extent() {
    let task = FrameTask { pan_offset: (250 * UNITS_PER_PIXEL, 0), magnification: 2 };
    let point = task.plane_point(0, 100, 500, 400);
    assert_eq!(point.real.denominator, 1000 * UNITS_PER_PIXEL);
    assert_eq!(point.real.numerator, -1000 * UNITS_PER_PIXEL);
    assert_eq!(point.imaginary.denominator, 800 * UNITS_PER_PIXEL);
    assert_eq!(point.imaginary.numerator, 400 * UNITS_PER_PIXEL - 1600 * UNITS_PER_PIXEL);
}

#[test]
fn range_is_computed_column_by_column() {
    let entries = calculate_for_range(&IDENTITY, 1, 3, 4, 2, &quotients);
    let unit = UNITS_PER_PIXEL;
    assert_eq!(
        flat(&entries),
        vec![
            (1, 0, (-4 * unit, 4 * unit, -4 * unit, 2 * unit)),
            (1, 1, (-4 * unit, 4 * unit, 0, 2 * unit)),
            (2, 0, (0, 4 * unit, -4 * unit, 2 * unit)),
            (2, 1, (0, 4 * unit, 0, 2 * unit)),
        ]
    );
}

#[test]
fn empty_ranges_hold_nothing() {
    assert!(calculate_for_range(&IDENTITY, 2, 2, 4, 4, &quotients).is_empty());
    assert!(calculate_for_range(&IDENTITY, 0, 4, 4, 0, &quotients).is_empty());
    assert!(render_frame(&IDENTITY, 0, 4, 3, &quotients).is_empty());
    assert!(render_frame(&IDENTITY, 4, 0, 3, &quotients).is_empty());
}

#[test]
fn frame_holds_each_pixel_once_in_order() {
    for (width, height) in [(4u32, 4u32), (1, 1), (7, 3), (3, 7), (10, 1), (1, 10)] {
        for worker_count in [1usize, 2, 3, 4, 7, 16] {
            let frame = render_frame(&IDENTITY, width, height, worker_count, &|_p| ());
            assert_eq!(frame.len(), (width * height) as usize);
            for (index, entry) in frame.iter().enumerate() {
                assert_eq!(entry.x, index as u32 / height);
                assert_eq!(entry.y, index as u32 % height);
            }
        }
    }
}

#[test]
fn frame_does_not_depend_on_the_worker_count() {
    let task = FrameTask {
        pan_offset: (3 * UNITS_PER_PIXEL + 17, -5 * UNITS_PER_PIXEL),
        magnification: 4,
    };
    let single = render_frame(&task, 9, 5, 1, &escape_time);
    for worker_count in [2usize, 3, 4, 5, 9, 10, 100] {
        let many = render_frame(&task, 9, 5, worker_count, &escape_time);
        assert_eq!(flat(&single), flat(&many));
    }
    let points = render_frame(&task, 9, 5, 1, &quotients);
    let again = render_frame(&task, 9, 5, 4, &quotients);
    assert_eq!(flat(&points), flat(&again));
}

#[test]
fn joined_ranges_are_the_frame() {
    for worker_count in [1usize, 2, 3, 5, 8] {
        let mut parts = Vec::new();
        for range in partition_columns(6, worker_count) {
            let part = calculate_for_range(&IDENTITY, range.start, range.end, 6, 3, &escape_time);
            parts.push(Some(part));
        }
        let joined = join_ranges(parts).expect("no part is missing");
        let frame = render_frame(&IDENTITY, 6, 3, 1, &escape_time);
        assert_eq!(flat(&joined), flat(&frame));
    }
}

#[test]
fn join_keeps_the_order_of_the_parts() {
    let parts = vec![Some(vec![1, 2]), Some(vec![]), Some(vec![3]), Some(vec![4, 5, 6])];
    assert_eq!(join_ranges(parts), Some(vec![1, 2, 3, 4, 5, 6]));
    let none: Vec<Option<Vec<u8>>> = Vec::new();
    assert_eq!(join_ranges(none), Some(vec![]));
}

#[test]
fn missing_part_leaves_no_frame() {
    assert_eq!(join_ranges(vec![Some(vec![1, 2]), None, Some(vec![3])]), None);
    assert_eq!(join_ranges(vec![None, Some(vec![1])]), None);
    assert_eq!(join_ranges(vec![Some(vec![1]), None]), None);
    assert_eq!(join_ranges::<u8>(vec![None]), None);
}

#[test]
fn four_by_four_grid_at_identity() {
    let frame = render_frame(&IDENTITY, 4, 4, 2, &|point: PlanePoint| {
        (value(point.real), value(point.imaginary), escape_time(point))
    });
    assert_eq!(frame.len(), 16);
    // Pixel (0, 0) is the point (-2, -2), which leaves within one step.
    assert_eq!((frame[0].x, frame[0].y), (0, 0));
    assert_eq!((frame[0].color.0, frame[0].color.1), (-2.0, -2.0));
    assert_eq!(frame[0].color.2, EscapeResult::Escaped { iterations: 1, max_iterations: 10 });
    // The pixel at the middle of the grid is the origin, which stays bounded.
    let middle = &frame[2 * 4 + 2];
    assert_eq!((middle.x, middle.y), (2, 2));
    assert_eq!((middle.color.0, middle.color.1), (0.0, 0.0));
    assert_eq!(middle.color.2, EscapeResult::Bounded);
    // Pixel (3, 1) is the point (1, -1).
    let other = &frame[3 * 4 + 1];
    assert_eq!((other.x, other.y), (3, 1));
    assert_eq!((other.color.0, other.color.1), (1.0, -1.0));
    assert_eq!(other.color.2, EscapeResult::Escaped { iterations: 2, max_iterations: 10 });
}

#[test]
fn reset_reproduces_the_initial_frame() {
    let mut state = ViewportState::initialize(8, 6);
    let initial = render_frame(&state.frame_task(), 8, 6, 3, &escape_time);
    state.key_down(Direction::Right);
    state.key_down(Direction::Down);
    assert!(state.handle_tick(700_000_000));
    assert!(state.zoom_in((1, 5)));
    assert!(state.zoom_in((6, 2)));
    let moved = render_frame(&state.frame_task(), 8, 6, 3, &escape_time);
    assert_ne!(flat(&initial), flat(&moved));
    state.reset();
    let task = state.begin_frame().expect("a frame is due after a reset");
    let again = render_frame(&task, 8, 6, 2, &escape_time);
    assert_eq!(flat(&initial), flat(&again));
}
