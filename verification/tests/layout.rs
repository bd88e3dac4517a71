use wallpaper_tiler::tile_layout::{compute_layout, TileLayout};

#[test]
fn one_tile_more_than_fits() {
    let layout = compute_layout(32, 32, 16, 1);
    assert_eq!(layout.horizontal_count, 3);
    assert_eq!(layout.vertical_count, 3);
}

#[test]
fn canvas_is_centred_on_the_pattern() {
    let layout = compute_layout(32, 32, 16, 1);
    assert_eq!(layout.offset_x, 8);
    assert_eq!(layout.offset_y, 8);
}

#[test]
fn desktop_sized_canvas() {
    let layout = compute_layout(1920, 1080, 16, 8);
    assert_eq!(
        layout,
        TileLayout { horizontal_count: 16, vertical_count: 9, offset_x: 64, offset_y: 36 }
    );
}

#[test]
fn axes_are_laid_out_independently() {
    let layout = compute_layout(100, 10, 4, 5);
    assert_eq!(layout.horizontal_count, 6);
    assert_eq!(layout.vertical_count, 1);
    assert_eq!(layout.offset_x, 10);
    assert_eq!(layout.offset_y, 5);
}

#[test]
fn odd_overhang_rounds_towards_the_start() {
    let layout = compute_layout(31, 29, 16, 1);
    assert_eq!(layout.horizontal_count, 2);
    assert_eq!(layout.offset_x, 0);
    assert_eq!(layout.vertical_count, 2);
    assert_eq!(layout.offset_y, 1);
}

#[test]
fn empty_canvas_still_gets_a_tile() {
    let layout = compute_layout(0, 0, 16, 2);
    assert_eq!(layout.horizontal_count, 1);
    assert_eq!(layout.vertical_count, 1);
    assert_eq!(layout.offset_x, 16);
    assert_eq!(layout.offset_y, 16);
}

#[test]
fn tile_larger_than_canvas() {
    let layout = compute_layout(10, 20, 64, 4);
    assert_eq!(layout.horizontal_count, 1);
    assert_eq!(layout.vertical_count, 1);
    assert_eq!(layout.offset_x, 123);
    assert_eq!(layout.offset_y, 118);
}

#[test]
fn largest_inputs_do_not_overflow() {
    let layout = compute_layout(u32::MAX, u32::MAX, 1, 1);
    assert_eq!(layout.horizontal_count, 1u64 << 32);
    assert_eq!(layout.offset_x, 0);
    let wide = compute_layout(u32::MAX, 0, u32::MAX, u32::MAX);
    assert_eq!(wide.horizontal_count, 1);
    let span = (u32::MAX as u64) * (u32::MAX as u64);
    assert_eq!(wide.offset_x as u64, (span - u32::MAX as u64) / 2);
    assert_eq!(wide.offset_y as u64, span / 2);
}

#[test]
fn pattern_always_covers_the_canvas() {
    for canvas in [1u32, 2, 15, 16, 17, 31, 32, 33, 100, 1080, 1920, 4096] {
        for tile in [1u32, 2, 3, 8, 16, 17, 64] {
            for scale in [1u32, 2, 3, 8] {
                let layout = compute_layout(canvas, canvas, tile, scale);
                let span = (tile * scale) as u64;
                assert!(layout.horizontal_count * span >= canvas as u64);
                assert!(layout.vertical_count * span >= canvas as u64);
                assert!(layout.horizontal_count * span <= canvas as u64 + span);
            }
        }
    }
}

#[test]
fn offset_stays_within_one_tile() {
    for canvas in [1u32, 2, 15, 16, 17, 31, 32, 33, 100, 1080, 1920, 4096] {
        for tile in [1u32, 2, 3, 8, 16, 17, 64] {
            for scale in [1u32, 2, 3, 8] {
                let layout = compute_layout(canvas, canvas, tile, scale);
                let span = (tile * scale) as i64;
                assert!(layout.offset_x >= 0);
                assert!(layout.offset_x.abs() <= span);
                assert!(2 * layout.offset_x <= span);
                let rendered = layout.horizontal_count as i64 * span;
                assert!(layout.offset_x + canvas as i64 <= rendered);
            }
        }
    }
}

#[test]
fn offset_is_zero_where_the_pattern_overhangs_by_one_pixel() {
    for (canvas, tile, scale) in [(31u32, 16u32, 1u32), (63, 16, 2), (7, 1, 8), (99, 10, 5)] {
        let layout = compute_layout(canvas, canvas, tile, scale);
        let rendered = layout.horizontal_count * (tile * scale) as u64;
        assert_eq!(rendered - canvas as u64, 1);
        assert!(layout.offset_x <= 0);
        assert_eq!(layout.offset_x, 0);
    }
}
