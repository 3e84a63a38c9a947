use khviz::renderer::shapes::{shape_sides, MAX_SHAPE_SIDES, MIN_SHAPE_SIDES};
use khviz::renderer::waves::{wave_sample_count, MAX_WAVE_SAMPLES, MIN_WAVE_SAMPLES};

#[test]
fn wave_sample_counts_are_held_in_range() {
    assert_eq!(wave_sample_count(0), 2);
    assert_eq!(wave_sample_count(1), MIN_WAVE_SAMPLES);
    assert_eq!(wave_sample_count(2), 2);
    assert_eq!(wave_sample_count(300), 300);
    assert_eq!(wave_sample_count(512), 512);
    assert_eq!(wave_sample_count(513), MAX_WAVE_SAMPLES);
    assert_eq!(wave_sample_count(usize::MAX), 512);
}

#[test]
fn shape_sides_are_held_in_range() {
    assert_eq!(shape_sides(0), 3);
    assert_eq!(shape_sides(2), MIN_SHAPE_SIDES);
    assert_eq!(shape_sides(3), 3);
    assert_eq!(shape_sides(6), 6);
    assert_eq!(shape_sides(100), 100);
    assert_eq!(shape_sides(101), MAX_SHAPE_SIDES);
    assert_eq!(shape_sides(usize::MAX), 100);
}
