use rayblaster::colour::Pixel;
use rayblaster::frame::{assemble_frame, flatten_frame, pixel_index};
use rayblaster::sampling::SuperSamplingMode;
use rayblaster::tiling::RenderConfig;
use rayblaster::trace::nearest_hit;

fn px(r: u8, g: u8, b: u8) -> Pixel {
    Pixel { r, g, b }
}

/// The pixel a worker computes for column `x` of absolute row `y` in these
/// tests: an arbitrary fixed function of the coordinates alone.
fn test_pixel(x: usize, y: usize) -> Pixel {
    px(x as u8, y as u8, (7 * x + 3 * y) as u8)
}

/// Render the chunks of `c` the way a worker pool would, one vector per
/// chunk, each pixel taken from `test_pixel`.
fn render_chunks(c: &RenderConfig) -> Vec<Vec<Pixel>> {
    let mut chunks = Vec::new();
    for k in 0..c.workers {
        let start = c.chunk_start(k);
        let lines = c.chunk_height(k);
        let mut chunk = vec![px(0, 0, 0); c.chunk_pixels(k)];
        for y in 0..lines {
            for x in 0..c.width {
                chunk[pixel_index(x, y, c.width)] = test_pixel(x, start + y);
            }
        }
        chunks.push(chunk);
    }
    chunks
}

#[test]
fn pixel_index_is_row_major() {
    assert_eq!(pixel_index(0, 0, 10), 0);
    assert_eq!(pixel_index(3, 2, 10), 23);
    assert_eq!(pixel_index(9, 0, 10), 9);
}

#[test]
fn assemble_frame_concatenates_the_chunks_in_order() {
    let c = RenderConfig::new(2, 3, 2, SuperSamplingMode::SSAAX1).unwrap();
    // chunk_lines == 1: the first chunk holds one row, the last holds two.
    let chunks = vec![
        vec![px(1, 0, 0), px(2, 0, 0)],
        vec![px(3, 0, 0), px(4, 0, 0), px(5, 0, 0), px(6, 0, 0)],
    ];
    let frame = assemble_frame(&c, &chunks);
    assert_eq!(
        frame,
        vec![
            px(1, 0, 0),
            px(2, 0, 0),
            px(3, 0, 0),
            px(4, 0, 0),
            px(5, 0, 0),
            px(6, 0, 0),
        ]
    );
}

#[test]
fn assembled_frame_is_the_same_for_every_worker_count() {
    for (width, height) in [(5, 7), (4, 4), (1, 9)] {
        let mut frames = Vec::new();
        for workers in 1..=height {
            let c = RenderConfig::new(width, height, workers, SuperSamplingMode::SSAAX1).unwrap();
            let chunks = render_chunks(&c);
            frames.push(assemble_frame(&c, &chunks));
        }
        for frame in &frames {
            assert_eq!(frame, &frames[0]);
        }
    }
}

#[test]
fn assembled_frame_holds_each_pixel_at_its_row_major_place() {
    let c = RenderConfig::new(5, 7, 3, SuperSamplingMode::SSAAX1).unwrap();
    let frame = assemble_frame(&c, &render_chunks(&c));
    assert_eq!(frame.len(), 5 * 7);
    for y in 0..7 {
        for x in 0..5 {
            assert_eq!(frame[pixel_index(x, y, 5)], test_pixel(x, y));
        }
    }
}

#[test]
fn flatten_frame_writes_three_bytes_per_pixel_in_order() {
    let frame = vec![px(1, 2, 3), px(4, 5, 6)];
    assert_eq!(flatten_frame(&frame), vec![1, 2, 3, 4, 5, 6]);
    assert_eq!(flatten_frame(&Vec::new()), Vec::<u8>::new());
}

#[test]
fn nearest_hit_on_no_hits_is_none() {
    assert_eq!(nearest_hit(&Vec::new()), None);
    assert_eq!(nearest_hit(&vec![None, None, None]), None);
}

#[test]
fn nearest_hit_picks_the_smallest_key() {
    assert_eq!(nearest_hit(&vec![Some(5)]), Some(0));
    assert_eq!(nearest_hit(&vec![None, Some(7), Some(3), Some(9)]), Some(2));
    assert_eq!(nearest_hit(&vec![Some(10), Some(2)]), Some(1));
}

#[test]
fn nearest_hit_keeps_the_first_of_equal_keys() {
    assert_eq!(nearest_hit(&vec![Some(4), Some(4)]), Some(0));
    assert_eq!(nearest_hit(&vec![None, Some(4), Some(4), Some(4)]), Some(1));
}

#[test]
fn nearest_hit_orders_distances_given_as_float_bits() {
    // Non-negative finite distances compare through their IEEE-754 bits in
    // the same order as the floats themselves.
    let hits = vec![
        Some(5.5f64.to_bits()),
        Some(4.0f64.to_bits()),
        None,
        Some(4.25f64.to_bits()),
    ];
    assert_eq!(nearest_hit(&hits), Some(1));
}
