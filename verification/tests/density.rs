use attractor_core::density::{percent_of, PROGRESS_INTERVAL};
use attractor_core::{accumulate_density, AccumulationContext, ConfigError, ControlBlock};

fn grid(width: i32, height: i32, update_progress: bool) -> AccumulationContext {
    match AccumulationContext::new(width, height, update_progress) {
        Ok(context) => context,
        Err(_) => panic!("grid refused"),
    }
}

#[test]
fn new_grid_is_empty() {
    let context = grid(3, 2, true);
    assert_eq!(context.width, 3);
    assert_eq!(context.height, 2);
    assert!(context.update_progress);
    assert_eq!(context.density_array, vec![0u32; 6]);
}

#[test]
fn grid_without_pixels_is_allowed() {
    let context = grid(0, 5, false);
    assert_eq!(context.density_array.len(), 0);
}

#[test]
fn grid_with_negative_pixel_count_is_refused() {
    assert!(matches!(
        AccumulationContext::new(-1, 5, false),
        Err(ConfigError::InvalidDimensions)
    ));
    assert!(matches!(
        AccumulationContext::new(4, -2, false),
        Err(ConfigError::InvalidDimensions)
    ));
}

#[test]
fn deposit_raises_one_bin_and_the_maximum() {
    let mut context = grid(3, 2, false);
    let mut info = ControlBlock::new();
    context.deposit_point(&mut info, 2, 1);
    assert_eq!(context.density_array, vec![0, 0, 0, 0, 0, 1]);
    assert_eq!(info.max_density, 1);
    context.deposit_point(&mut info, 2, 1);
    assert_eq!(context.density_array, vec![0, 0, 0, 0, 0, 2]);
    assert_eq!(info.max_density, 2);
    context.deposit_point(&mut info, 0, 0);
    assert_eq!(context.density_array, vec![1, 0, 0, 0, 0, 2]);
    assert_eq!(info.max_density, 2);
}

#[test]
fn deposit_is_row_major() {
    let mut context = grid(4, 3, false);
    let mut info = ControlBlock::new();
    context.deposit_point(&mut info, 1, 2);
    let mut expected: Vec<u32> = vec![0u32; 12];
    expected[2 * 4 + 1] = 1;
    assert_eq!(context.density_array, expected);
}

#[test]
fn deposit_on_the_far_edges_is_dropped() {
    let mut context = grid(3, 2, false);
    let mut info = ControlBlock { max_density: 4, cancel_requested: false, reserved: 9, progress_percent: 1 };
    let before = info;
    context.deposit_point(&mut info, 3, 0); // x == width
    context.deposit_point(&mut info, 0, 2); // y == height
    context.deposit_point(&mut info, 3, 2);
    assert_eq!(context.density_array, vec![0u32; 6]);
    assert_eq!(info, before);
}

#[test]
fn deposit_of_negative_coordinates_is_dropped() {
    let mut context = grid(3, 2, false);
    let mut info = ControlBlock::new();
    context.deposit_point(&mut info, -1, 0);
    context.deposit_point(&mut info, 0, -1);
    context.deposit_point(&mut info, i32::MIN, i32::MIN);
    context.deposit_point(&mut info, i32::MAX, i32::MAX);
    assert_eq!(context.density_array, vec![0u32; 6]);
    assert_eq!(info, ControlBlock::new());
}

#[test]
fn deposit_keeps_a_larger_maximum() {
    let mut context = grid(2, 2, false);
    let mut info = ControlBlock { max_density: 10, cancel_requested: false, reserved: 0, progress_percent: 0 };
    context.deposit_point(&mut info, 0, 0);
    assert_eq!(info.max_density, 10);
}

#[test]
fn accumulate_counts_the_hits_of_each_bin() {
    let mut context = grid(3, 2, false);
    let mut info = ControlBlock::new();
    let points: Vec<(i32, i32)> =
        vec![(0, 0), (2, 1), (0, 0), (3, 0), (1, 0), (0, 0), (-1, 1), (2, 1), (0, 2)];
    accumulate_density(&mut context, &mut info, &points);
    assert_eq!(context.density_array, vec![3, 1, 0, 0, 0, 2]);
    assert_eq!(info.max_density, 3);
    assert_eq!(info.progress_percent, 0);
    assert!(!info.cancel_requested);
}

#[test]
fn accumulate_with_a_stop_request_does_nothing() {
    let mut context = grid(3, 2, true);
    context.density_array[4] = 7;
    let mut info = ControlBlock { max_density: 7, cancel_requested: true, reserved: 3, progress_percent: 12 };
    let points: Vec<(i32, i32)> = vec![(0, 0), (1, 1), (2, 1)];
    accumulate_density(&mut context, &mut info, &points);
    assert_eq!(context.density_array, vec![0, 0, 0, 0, 7, 0]);
    assert_eq!(
        info,
        ControlBlock { max_density: 7, cancel_requested: true, reserved: 3, progress_percent: 12 }
    );
}

#[test]
fn accumulate_of_no_points_changes_nothing() {
    let mut context = grid(2, 2, true);
    let mut info = ControlBlock { max_density: 1, cancel_requested: false, reserved: 0, progress_percent: 33 };
    let points: Vec<(i32, i32)> = Vec::new();
    accumulate_density(&mut context, &mut info, &points);
    assert_eq!(context.density_array, vec![0u32; 4]);
    assert_eq!(info.progress_percent, 33);
    assert_eq!(info.max_density, 1);
}

#[test]
fn accumulate_in_two_parts_equals_the_whole() {
    let all: Vec<(i32, i32)> =
        vec![(0, 0), (1, 1), (1, 1), (5, 5), (0, 1), (1, 1), (0, 0), (-3, 0), (1, 0)];
    let mut whole = grid(2, 2, false);
    let mut whole_info = ControlBlock::new();
    accumulate_density(&mut whole, &mut whole_info, &all);

    let first: Vec<(i32, i32)> = all[..4].to_vec();
    let second: Vec<(i32, i32)> = all[4..].to_vec();
    let mut parts = grid(2, 2, false);
    let mut parts_info = ControlBlock::new();
    accumulate_density(&mut parts, &mut parts_info, &first);
    let between: Vec<u32> = parts.density_array.clone();
    let max_between: u32 = parts_info.max_density;
    accumulate_density(&mut parts, &mut parts_info, &second);

    assert_eq!(parts.density_array, whole.density_array);
    assert_eq!(parts.density_array, vec![2, 1, 1, 3]);
    assert_eq!(parts_info.max_density, whole_info.max_density);
    assert_eq!(parts_info.max_density, 3);
    assert!(between.iter().zip(parts.density_array.iter()).all(|(early, late)| early <= late));
    assert!(max_between <= parts_info.max_density);
}

#[test]
fn running_maximum_follows_only_bins_that_were_hit() {
    let mut context = grid(2, 1, false);
    context.density_array[0] = 50;
    let mut info = ControlBlock::new();
    let points: Vec<(i32, i32)> = vec![(1, 0), (1, 0)];
    accumulate_density(&mut context, &mut info, &points);
    assert_eq!(context.density_array, vec![50, 2]);
    assert_eq!(info.max_density, 2);
}

#[test]
fn progress_is_untouched_when_reporting_is_off() {
    let mut context = grid(1, 1, false);
    let mut info = ControlBlock { max_density: 0, cancel_requested: false, reserved: 0, progress_percent: 42 };
    let points: Vec<(i32, i32)> = vec![(0, 0); 10];
    accumulate_density(&mut context, &mut info, &points);
    assert_eq!(info.progress_percent, 42);
    assert_eq!(context.density_array, vec![10]);
}

#[test]
fn progress_is_reported_after_the_final_point() {
    let mut context = grid(1, 1, true);
    let mut info = ControlBlock::new();
    let points: Vec<(i32, i32)> = vec![(0, 0); 4];
    accumulate_density(&mut context, &mut info, &points);
    assert_eq!(info.progress_percent, 100);
    assert_eq!(info.max_density, 4);
    assert_eq!(context.density_array, vec![4]);

    let mut five = grid(1, 1, true);
    let mut five_info = ControlBlock::new();
    let more: Vec<(i32, i32)> = vec![(0, 0); 5];
    accumulate_density(&mut five, &mut five_info, &more);
    assert_eq!(five_info.progress_percent, 100);
}

#[test]
fn progress_is_reported_even_if_every_point_is_dropped() {
    let mut context = grid(1, 1, true);
    let mut info = ControlBlock::new();
    let points: Vec<(i32, i32)> = vec![(9, 9); 2];
    accumulate_density(&mut context, &mut info, &points);
    assert_eq!(info.progress_percent, 100);
    assert_eq!(info.max_density, 0);
    assert_eq!(context.density_array, vec![0]);
}

#[test]
fn progress_of_a_single_point_is_reported() {
    let mut context = grid(1, 1, true);
    let mut info = ControlBlock { max_density: 0, cancel_requested: false, reserved: 0, progress_percent: 7 };
    let points: Vec<(i32, i32)> = vec![(0, 0)];
    accumulate_density(&mut context, &mut info, &points);
    assert_eq!(info.progress_percent, 100);
    assert_eq!(info.max_density, 1);
}

#[test]
fn progress_reaches_100_on_a_full_interval() {
    assert_eq!(PROGRESS_INTERVAL, 100_000);
    let mut context = grid(1, 1, true);
    let mut info = ControlBlock::new();
    let points: Vec<(i32, i32)> = vec![(0, 0); 100_000];
    accumulate_density(&mut context, &mut info, &points);
    assert_eq!(info.progress_percent, 100);
    assert_eq!(context.density_array, vec![100_000]);
    assert_eq!(info.max_density, 100_000);

    let mut double = grid(1, 1, true);
    let mut double_info = ControlBlock::new();
    let more: Vec<(i32, i32)> = vec![(1, 1); 200_000];
    accumulate_density(&mut double, &mut double_info, &more);
    assert_eq!(double_info.progress_percent, 100);
    assert_eq!(double.density_array, vec![0]);
}

#[test]
fn progress_past_a_full_interval_ends_at_100() {
    // 100001 points: reports after 100000 (99 percent) and after the last
    let mut context = grid(1, 1, true);
    let mut info = ControlBlock::new();
    let points: Vec<(i32, i32)> = vec![(0, 0); 100_001];
    accumulate_density(&mut context, &mut info, &points);
    assert_eq!(info.progress_percent, 100);

    // 250000 points: reports after 100000, 200000 and 250000
    let mut long = grid(1, 1, true);
    let mut long_info = ControlBlock::new();
    let more: Vec<(i32, i32)> = vec![(0, 0); 250_000];
    accumulate_density(&mut long, &mut long_info, &more);
    assert_eq!(long_info.progress_percent, 100);

    // 150000 points: reports after 100000 (66 percent) and 150000
    let mut mid = grid(1, 1, true);
    let mut mid_info = ControlBlock::new();
    let some: Vec<(i32, i32)> = vec![(0, 0); 150_000];
    accumulate_density(&mut mid, &mut mid_info, &some);
    assert_eq!(mid_info.progress_percent, 100);
}

#[test]
fn progress_under_a_stop_request_is_not_reported() {
    let mut context = grid(1, 1, true);
    let mut info = ControlBlock { max_density: 0, cancel_requested: true, reserved: 0, progress_percent: 7 };
    let points: Vec<(i32, i32)> = vec![(0, 0); 3];
    accumulate_density(&mut context, &mut info, &points);
    assert_eq!(info.progress_percent, 7);
    assert_eq!(context.density_array, vec![0]);
}

#[test]
fn reported_percentage_is_rounded_down() {
    assert_eq!(percent_of(0, 3), 0);
    assert_eq!(percent_of(1, 3), 33);
    assert_eq!(percent_of(2, 3), 66);
    assert_eq!(percent_of(3, 3), 100);
    assert_eq!(percent_of(29, 100), 29);
    assert_eq!(percent_of(100_000, 100_001), 99);
    assert_eq!(percent_of(100_000, 150_000), 66);
    assert_eq!(percent_of(usize::MAX - 1, usize::MAX), 99);
    assert_eq!(percent_of(usize::MAX, usize::MAX), 100);
}

#[test]
fn headroom_is_measured_at_the_fullest_bin() {
    let mut context = grid(2, 1, false);
    assert!(context.has_headroom(0));
    assert!(context.has_headroom(u32::MAX as usize));
    context.density_array[1] = u32::MAX - 3;
    assert!(context.has_headroom(3));
    assert!(!context.has_headroom(4));
    context.density_array[1] = u32::MAX;
    assert!(context.has_headroom(0));
    assert!(!context.has_headroom(1));
}

#[test]
fn headroom_of_a_grid_without_bins_is_unlimited() {
    let context = grid(0, 0, false);
    assert!(context.has_headroom(usize::MAX));
}

#[test]
fn a_bin_can_be_filled_to_the_brim() {
    let mut context = grid(1, 1, false);
    context.density_array[0] = u32::MAX - 2;
    let mut info = ControlBlock::new();
    let points: Vec<(i32, i32)> = vec![(0, 0), (0, 0)];
    assert!(context.has_headroom(points.len()));
    accumulate_density(&mut context, &mut info, &points);
    assert_eq!(context.density_array, vec![u32::MAX]);
    assert_eq!(info.max_density, u32::MAX);
}
