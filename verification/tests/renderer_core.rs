use rayblaster::colour::{clamp, clamp_colour, Pixel};
use rayblaster::sampling::SuperSamplingMode;
use rayblaster::tiling::RenderConfig;

#[test]
fn clamp_keeps_values_inside_the_band() {
    assert_eq!(clamp(5, 0, 255), 5);
    assert_eq!(clamp(0, 0, 255), 0);
    assert_eq!(clamp(255, 0, 255), 255);
}

#[test]
fn clamp_cuts_values_outside_the_band() {
    assert_eq!(clamp(300, 0, 255), 255);
    assert_eq!(clamp(2, 10, 20), 10);
    assert_eq!(clamp(30, 10, 20), 20);
}

#[test]
fn clamp_lets_the_minimum_win_over_an_empty_band() {
    assert_eq!(clamp(4, 5, 3), 5);
    assert_eq!(clamp(6, 5, 3), 5);
}

#[test]
fn clamp_colour_caps_each_channel_at_one_byte() {
    assert_eq!(clamp_colour(0, 0, 0), Pixel { r: 0, g: 0, b: 0 });
    assert_eq!(clamp_colour(12, 34, 56), Pixel { r: 12, g: 34, b: 56 });
    assert_eq!(clamp_colour(255, 256, 1000), Pixel { r: 255, g: 255, b: 255 });
}

#[test]
fn from_samples_accepts_exactly_the_three_modes() {
    assert_eq!(
        SuperSamplingMode::from_samples(1),
        Some(SuperSamplingMode::SSAAX1)
    );
    assert_eq!(
        SuperSamplingMode::from_samples(4),
        Some(SuperSamplingMode::SSAAX4)
    );
    assert_eq!(
        SuperSamplingMode::from_samples(16),
        Some(SuperSamplingMode::SSAAX16)
    );
}

#[test]
fn from_samples_rejects_every_other_count() {
    for n in [0u8, 2, 3, 5, 8, 15, 17, 32, 64, 255] {
        assert_eq!(SuperSamplingMode::from_samples(n), None);
    }
}

#[test]
fn sample_grid_is_one_two_or_four_wide() {
    assert_eq!(SuperSamplingMode::SSAAX1.grid_len(), 1);
    assert_eq!(SuperSamplingMode::SSAAX4.grid_len(), 2);
    assert_eq!(SuperSamplingMode::SSAAX16.grid_len(), 4);
}

#[test]
fn sample_count_is_the_grid_squared() {
    for mode in [
        SuperSamplingMode::SSAAX1,
        SuperSamplingMode::SSAAX4,
        SuperSamplingMode::SSAAX16,
    ] {
        let g = mode.grid_len();
        assert_eq!(mode.sample_count(), g * g);
    }
    assert_eq!(SuperSamplingMode::SSAAX1.sample_count(), 1);
    assert_eq!(SuperSamplingMode::SSAAX4.sample_count(), 4);
    assert_eq!(SuperSamplingMode::SSAAX16.sample_count(), 16);
}

#[test]
fn sample_coords_are_the_fixed_grid_offsets_in_eighths() {
    assert_eq!(SuperSamplingMode::SSAAX1.sample_coords(), vec![4]);
    assert_eq!(SuperSamplingMode::SSAAX4.sample_coords(), vec![2, 6]);
    assert_eq!(SuperSamplingMode::SSAAX16.sample_coords(), vec![1, 3, 5, 7]);
}

#[test]
fn config_accepts_a_plain_resolution() {
    let c = RenderConfig::new(640, 480, 4, SuperSamplingMode::SSAAX1).unwrap();
    assert_eq!(c.width, 640);
    assert_eq!(c.height, 480);
    assert_eq!(c.workers, 4);
    assert_eq!(c.frame_len(), 640 * 480);
}

#[test]
fn config_rejects_an_empty_image_or_no_workers() {
    assert!(RenderConfig::new(0, 480, 4, SuperSamplingMode::SSAAX1).is_none());
    assert!(RenderConfig::new(640, 0, 4, SuperSamplingMode::SSAAX1).is_none());
    assert!(RenderConfig::new(640, 480, 0, SuperSamplingMode::SSAAX1).is_none());
}

#[test]
fn config_rejects_a_frame_too_large_for_address_arithmetic() {
    assert!(RenderConfig::new(usize::MAX, 2, 1, SuperSamplingMode::SSAAX1).is_none());
    assert!(RenderConfig::new(usize::MAX, usize::MAX, 1, SuperSamplingMode::SSAAX1).is_none());
}

#[test]
fn aspect_ratio_truncates_like_the_integer_quotient() {
    let c = RenderConfig::new(640, 480, 1, SuperSamplingMode::SSAAX1).unwrap();
    assert_eq!(c.aspect_ratio(), 1);
    let c = RenderConfig::new(2048, 512, 1, SuperSamplingMode::SSAAX1).unwrap();
    assert_eq!(c.aspect_ratio(), 4);
    let c = RenderConfig::new(500, 1000, 1, SuperSamplingMode::SSAAX1).unwrap();
    assert_eq!(c.aspect_ratio(), 0);
}

#[test]
fn chunks_split_the_rows_with_the_remainder_on_the_last() {
    let c = RenderConfig::new(100, 10, 3, SuperSamplingMode::SSAAX1).unwrap();
    assert_eq!(c.chunk_lines(), 3);
    assert_eq!(c.chunk_start(0), 0);
    assert_eq!(c.chunk_start(1), 3);
    assert_eq!(c.chunk_start(2), 6);
    assert_eq!(c.chunk_height(0), 3);
    assert_eq!(c.chunk_height(1), 3);
    assert_eq!(c.chunk_height(2), 4);
}

#[test]
fn chunks_split_evenly_when_the_workers_divide_the_height() {
    let c = RenderConfig::new(8, 12, 4, SuperSamplingMode::SSAAX4).unwrap();
    assert_eq!(c.chunk_lines(), 3);
    for k in 0..4 {
        assert_eq!(c.chunk_start(k), 3 * k);
        assert_eq!(c.chunk_height(k), 3);
    }
}

#[test]
fn more_workers_than_rows_leave_the_rows_on_the_last_chunk() {
    let c = RenderConfig::new(4, 2, 5, SuperSamplingMode::SSAAX1).unwrap();
    assert_eq!(c.chunk_lines(), 0);
    for k in 0..4 {
        assert_eq!(c.chunk_start(k), 0);
        assert_eq!(c.chunk_height(k), 0);
    }
    assert_eq!(c.chunk_start(4), 0);
    assert_eq!(c.chunk_height(4), 2);
}

#[test]
fn a_single_worker_owns_the_whole_image() {
    let c = RenderConfig::new(3, 7, 1, SuperSamplingMode::SSAAX1).unwrap();
    assert_eq!(c.chunk_lines(), 7);
    assert_eq!(c.chunk_start(0), 0);
    assert_eq!(c.chunk_height(0), 7);
}

#[test]
fn chunk_pixels_count_the_chunk_rows_times_the_width() {
    let c = RenderConfig::new(100, 10, 3, SuperSamplingMode::SSAAX1).unwrap();
    assert_eq!(c.chunk_pixels(0), 300);
    assert_eq!(c.chunk_pixels(1), 300);
    assert_eq!(c.chunk_pixels(2), 400);
    let total: usize = (0..3).map(|k| c.chunk_pixels(k)).sum();
    assert_eq!(total, c.frame_len());
}
