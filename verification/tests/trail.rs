use lorenz::trail::{Segment, Trail};

fn filled(points: &[i32], limit: usize) -> Trail<i32> {
    let mut trail = Trail::new(points[0]);
    for p in &points[1..] {
        trail.record(*p, limit);
    }
    trail
}

fn points_of(trail: &Trail<i32>) -> Vec<i32> {
    (0..trail.len()).map(|i| trail.get(i).unwrap()).collect()
}

fn fields(segment: &Segment<i32>) -> (usize, usize, i32, i32) {
    (segment.index, segment.total, segment.from, segment.to)
}

#[test]
fn new_trail_holds_its_start() {
    let trail = Trail::new(42);
    assert_eq!(trail.len(), 1);
    assert_eq!(trail.get(0), Some(42));
    assert_eq!(trail.get(1), None);
    assert_eq!(trail.last(), Some(42));
}

#[test]
fn record_appends_while_there_is_room() {
    let mut trail = Trail::new(1);
    trail.record(2, 3);
    assert_eq!(points_of(&trail), vec![1, 2]);
    trail.record(3, 3);
    assert_eq!(points_of(&trail), vec![1, 2, 3]);
    assert_eq!(trail.last(), Some(3));
}

#[test]
fn record_evicts_the_oldest_beyond_the_limit() {
    let mut trail = filled(&[1, 2, 3], 3);
    trail.record(4, 3);
    assert_eq!(points_of(&trail), vec![2, 3, 4]);
    trail.record(5, 3);
    assert_eq!(points_of(&trail), vec![3, 4, 5]);
    assert_eq!(trail.last(), Some(5));
}

#[test]
fn record_under_a_smaller_limit_evicts_all_the_excess_at_once() {
    let mut trail = filled(&[1, 2, 3, 4, 5, 6, 7, 8], 100);
    trail.record(9, 2);
    assert_eq!(points_of(&trail), vec![8, 9]);
    trail.record(10, 1);
    assert_eq!(points_of(&trail), vec![10]);
}

#[test]
fn record_under_a_limit_of_zero_keeps_nothing() {
    let mut trail = filled(&[1, 2, 3], 10);
    trail.record(4, 0);
    assert_eq!(trail.len(), 0);
    assert_eq!(trail.last(), None);
    assert_eq!(trail.get(0), None);
    assert!(trail.segments().is_empty());
}

#[test]
fn get_reads_by_age() {
    let trail = filled(&[10, 20, 30], 10);
    assert_eq!(trail.get(0), Some(10));
    assert_eq!(trail.get(1), Some(20));
    assert_eq!(trail.get(2), Some(30));
    assert_eq!(trail.get(3), None);
    assert_eq!(trail.get(usize::MAX), None);
}

#[test]
fn reset_starts_over() {
    let mut trail = filled(&[1, 2, 3, 4], 10);
    trail.reset(-7);
    assert_eq!(points_of(&trail), vec![-7]);
    trail.record(8, 10);
    assert_eq!(points_of(&trail), vec![-7, 8]);
}

#[test]
fn segments_join_each_point_to_the_next() {
    let trail = filled(&[5, 7, 11, 13], 10);
    let segments = trail.segments();
    let got: Vec<(usize, usize, i32, i32)> = segments.iter().map(fields).collect();
    assert_eq!(
        got,
        vec![(0, 4, 5, 7), (1, 4, 7, 11), (2, 4, 11, 13)]
    );
}

#[test]
fn segments_of_a_single_point_are_none() {
    let trail = Trail::new(3);
    assert!(trail.segments().is_empty());
}

#[test]
fn segments_of_two_points_are_one() {
    let trail = filled(&[3, 4], 10);
    let segments = trail.segments();
    assert_eq!(segments.len(), 1);
    assert_eq!(fields(&segments[0]), (0, 2, 3, 4));
}

#[test]
fn segments_follow_the_trail_after_eviction() {
    let trail = filled(&[1, 2, 3, 4, 5], 3);
    let got: Vec<(usize, usize, i32, i32)> = trail.segments().iter().map(fields).collect();
    assert_eq!(got, vec![(0, 3, 3, 4), (1, 3, 4, 5)]);
}

#[test]
fn segment_opacity_is_index_over_total() {
    let trail = filled(&[0, 1, 2, 3], 10);
    let opacity: Vec<f32> = trail
        .segments()
        .iter()
        .map(|s| s.index as f32 / s.total as f32)
        .collect();
    assert_eq!(opacity, vec![0.0, 0.25, 0.5]);
}
