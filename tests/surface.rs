use arctic_lock::color::{argb_from_rgba, blend, compose_pixel, COLOR_BASE, COLOR_MANTLE};
use arctic_lock::surface::{chunk_rows, text_extent, Chunk, CoverageSample, PixelSurface};

fn channels(c: u32) -> (u32, u32, u32, u32) {
    ((c >> 24) & 0xFF, (c >> 16) & 0xFF, (c >> 8) & 0xFF, c & 0xFF)
}

#[test]
fn new_surface_is_filled() {
    let s = PixelSurface::new(3, 2, COLOR_BASE);
    assert_eq!(s.buffer.len(), 6);
    assert!(s.buffer.iter().all(|&p| p == COLOR_BASE));
}

#[test]
fn opaque_rect_overwrites_covered_pixels_exactly() {
    let mut s = PixelSurface::new(8, 6, 0xFF102030);
    s.draw_rect(2, 1, 3, 2, 0xFFABCDEF);
    for py in 0..6i64 {
        for px in 0..8i64 {
            let p = s.buffer[(py * 8 + px) as usize];
            let inside = (2..5).contains(&px) && (1..3).contains(&py);
            assert_eq!(p, if inside { 0xFFABCDEF } else { 0xFF102030 });
        }
    }
}

#[test]
fn translucent_rect_blends_each_channel() {
    let dst = 0xFF204060u32;
    let color = 0x80FF8000u32;
    let mut s = PixelSurface::new(4, 4, dst);
    s.draw_rect(1, 1, 2, 2, color);
    let a = 0x80u32;
    let expect_r = (0xFF * a + 0x20 * (255 - a)) / 255;
    let expect_g = (0x80 * a + 0x40 * (255 - a)) / 255;
    let expect_b = (0x00 * a + 0x60 * (255 - a)) / 255;
    for py in 1..3usize {
        for px in 1..3usize {
            assert_eq!(channels(s.buffer[py * 4 + px]), (255, expect_r, expect_g, expect_b));
        }
    }
    assert_eq!(s.buffer[0], dst);
    assert_eq!(s.buffer[15], dst);
}

#[test]
fn mantle_over_base_exact_value() {
    // 0xE6 = 230: r = (0x08*230 + 0x0B*25)/255 = 8, g = (0x0C*230 + 0x0F*25)/255 = 12,
    // b = (0x14*230 + 0x18*25)/255 = 20.
    assert_eq!(compose_pixel(COLOR_MANTLE, COLOR_BASE), 0xFF080C14);
}

#[test]
fn rect_is_clipped_to_the_surface() {
    let mut s = PixelSurface::new(4, 3, 0);
    s.draw_rect(-2, -5, 4, 7, 0xFF0000FF);
    let covered: Vec<usize> = (0..12).filter(|&i| s.buffer[i] == 0xFF0000FF).collect();
    assert_eq!(covered, vec![0, 1, 4, 5]);
    s.draw_rect(10, 10, 5, 5, 0xFFFFFFFF);
    s.draw_rect(1, 1, 0, 5, 0xFFFFFFFF);
    assert!(!s.buffer.contains(&0xFFFFFFFF));
}

#[test]
fn blend_extremes() {
    assert_eq!(blend(0xFF123456, 0xFF654321, 255), 0xFF123456);
    assert_eq!(blend(0xFF123456, 0xFF654321, 0), 0xFF654321);
    assert_eq!(blend(0x00FFFFFF, 0x00000000, 255), 0xFFFFFFFF);
}

#[test]
fn background_copy_reorders_channels() {
    let mut s = PixelSurface::new(2, 2, COLOR_BASE);
    s.copy_background(&vec![(1, 2, 3, 4), (0xAA, 0xBB, 0xCC, 0xDD)]);
    assert_eq!(s.buffer[0], 0x04010203);
    assert_eq!(s.buffer[1], 0xDDAABBCC);
    assert_eq!(s.buffer[2], COLOR_BASE);
    assert_eq!(s.buffer[3], COLOR_BASE);
    let many = vec![(9u8, 9u8, 9u8, 9u8); 10];
    s.copy_background(&many);
    assert!(s.buffer.iter().all(|&p| p == 0x09090909));
}

#[test]
fn coverage_samples_blend_and_skip_out_of_bounds() {
    let mut s = PixelSurface::new(3, 3, 0xFF000000);
    let samples = vec![
        CoverageSample { x: 1, y: 1, coverage: 255 },
        CoverageSample { x: 0, y: 0, coverage: 0 },
        CoverageSample { x: 2, y: 0, coverage: 51 },
        CoverageSample { x: -1, y: 0, coverage: 255 },
        CoverageSample { x: 0, y: 3, coverage: 255 },
    ];
    s.draw_coverage(&samples, 0xFFFFFFFF);
    assert_eq!(s.buffer[4], 0xFFFFFFFF);
    assert_eq!(s.buffer[0], 0xFF000000);
    assert_eq!(s.buffer[2], 0xFF333333);
    assert_eq!(s.buffer.iter().filter(|&&p| p == 0xFF000000).count(), 7);
}

#[test]
fn chunks_tile_all_rows_under_the_limit() {
    let s = PixelSurface::new(100, 500, 0);
    // 65536 / 400 = 163 rows per chunk.
    assert_eq!(chunk_rows(100), 163);
    let plan = s.chunk_plan();
    assert_eq!(
        plan,
        vec![
            Chunk { y: 0, rows: 163 },
            Chunk { y: 163, rows: 163 },
            Chunk { y: 326, rows: 163 },
            Chunk { y: 489, rows: 11 },
        ]
    );
    assert!(plan.iter().all(|c| c.rows >= 1));
    assert_eq!(chunk_rows(20000), 1);
    let wide = PixelSurface::new(20000, 3, 0);
    assert_eq!(wide.chunk_plan(), vec![Chunk { y: 0, rows: 1 }, Chunk { y: 1, rows: 1 }, Chunk { y: 2, rows: 1 }]);
    assert!(PixelSurface::new(5, 0, 0).chunk_plan().is_empty());
}

#[test]
fn chunk_bytes_are_lowest_byte_first() {
    let mut s = PixelSurface::new(2, 2, 0);
    s.buffer = vec![0x11223344, 0x55667788, 0x99AABBCC, 0xDDEEFF00];
    let bytes = s.chunk_bytes(Chunk { y: 1, rows: 1 });
    assert_eq!(bytes, vec![0xCC, 0xBB, 0xAA, 0x99, 0x00, 0xFF, 0xEE, 0xDD]);
    assert_eq!(s.chunk_bytes(Chunk { y: 0, rows: 2 }).len(), 16);
}

#[test]
fn argb_packing() {
    assert_eq!(argb_from_rgba(0x12, 0x34, 0x56, 0x78), 0x78123456);
}

#[test]
fn text_extent_measures_from_start() {
    assert_eq!(text_extent(&vec![30, 85, 60], 20), 65);
    assert_eq!(text_extent(&vec![], 20), 0);
    assert_eq!(text_extent(&vec![10], 20), 0);
    assert_eq!(text_extent(&vec![10], -5), 15);
    assert_eq!(text_extent(&vec![-5], -10), 5);
    assert_eq!(text_extent(&vec![-20, -5, -8], -10), 5);
    assert_eq!(text_extent(&vec![], -10), 0);
}
