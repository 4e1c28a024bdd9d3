use font8x8::UnicodeFonts;
use maze_runner::framebuffer::Framebuffer;
use maze_runner::render::{
    cell_color, draw_cell, draw_centered_panel, draw_disc, draw_fps, draw_maze_cells, draw_rect,
    draw_view_button, plot, BLOCK_SIZE,
};
use maze_runner::text::{ascii_upper, draw_glyph, draw_scaled_pixel, draw_text};

fn px(fb: &Framebuffer, x: usize, y: usize) -> u32 {
    fb.buffer[y * fb.width + x]
}

fn count(fb: &Framebuffer, color: u32) -> usize {
    fb.buffer.iter().filter(|&&c| c == color).count()
}

#[test]
fn new_framebuffer_is_black_with_white_pen() {
    let fb = Framebuffer::new(4, 3);
    assert_eq!(fb.buffer.len(), 12);
    assert!(fb.buffer.iter().all(|&c| c == 0));
    assert_eq!(fb.current_color, 0xFFFFFF);
    assert_eq!(fb.background_color, 0);
}

#[test]
fn point_sets_one_pixel_and_ignores_outside() {
    let mut fb = Framebuffer::new(4, 3);
    fb.set_current_color(0x123456);
    fb.point(2, 1);
    assert_eq!(px(&fb, 2, 1), 0x123456);
    assert_eq!(count(&fb, 0x123456), 1);
    fb.point(4, 0);
    fb.point(0, 3);
    fb.point(usize::MAX, usize::MAX);
    assert_eq!(count(&fb, 0x123456), 1);
}

#[test]
fn clear_paints_background() {
    let mut fb = Framebuffer::new(3, 3);
    fb.set_current_color(7);
    fb.point(1, 1);
    fb.background_color = 9;
    fb.clear();
    assert!(fb.buffer.iter().all(|&c| c == 9));
    assert_eq!(fb.current_color, 7);
}

#[test]
fn draw_rect_fills_exactly_the_rectangle() {
    let mut fb = Framebuffer::new(10, 8);
    draw_rect(&mut fb, 2, 3, 4, 2, 0xAA);
    for y in 0..8 {
        for x in 0..10 {
            let inside = (2..6).contains(&x) && (3..5).contains(&y);
            assert_eq!(px(&fb, x, y) == 0xAA, inside, "pixel ({}, {})", x, y);
        }
    }
    assert_eq!(fb.current_color, 0xAA);
}

#[test]
fn draw_rect_clips_and_saturates() {
    let mut fb = Framebuffer::new(5, 5);
    draw_rect(&mut fb, 3, 3, usize::MAX, usize::MAX, 1);
    assert_eq!(count(&fb, 1), 4);
    let mut fb = Framebuffer::new(5, 5);
    draw_rect(&mut fb, 7, 0, 3, 3, 1);
    assert_eq!(count(&fb, 1), 0);
    assert_eq!(fb.current_color, 1);
}

#[test]
fn draw_rect_twice_is_draw_rect_once() {
    let mut once = Framebuffer::new(6, 6);
    draw_rect(&mut once, 1, 1, 3, 4, 5);
    let mut twice = Framebuffer::new(6, 6);
    draw_rect(&mut twice, 1, 1, 3, 4, 5);
    draw_rect(&mut twice, 1, 1, 3, 4, 5);
    assert_eq!(once.buffer, twice.buffer);
    assert_eq!(once.current_color, twice.current_color);
}

#[test]
fn plot_ignores_negative_coordinates() {
    let mut fb = Framebuffer::new(4, 4);
    fb.set_current_color(3);
    plot(&mut fb, -1, 2);
    plot(&mut fb, 2, -5);
    assert_eq!(count(&fb, 3), 0);
    plot(&mut fb, 3, 0);
    assert_eq!(px(&fb, 3, 0), 3);
}

#[test]
fn scaled_pixel_is_a_square() {
    let mut fb = Framebuffer::new(10, 10);
    draw_scaled_pixel(&mut fb, 8, 8, 3, 4);
    assert_eq!(count(&fb, 4), 4);
    assert_eq!(px(&fb, 9, 9), 4);
    let mut fb = Framebuffer::new(10, 10);
    draw_scaled_pixel(&mut fb, 1, 1, 0, 4);
    assert_eq!(count(&fb, 4), 0);
    assert_eq!(fb.current_color, 4);
}

#[test]
fn cell_colors() {
    assert_eq!(cell_color('+'), 0x4AFBFF);
    assert_eq!(cell_color('-'), 0x9B59FF);
    assert_eq!(cell_color('|'), 0x1685FF);
    assert_eq!(cell_color('g'), 0x16C172);
    assert_eq!(cell_color('G'), 0x16C172);
    assert_eq!(cell_color(' '), 0x202840);
    assert_eq!(cell_color('x'), 0x202840);
}

#[test]
fn draw_cell_skips_spaces() {
    let mut fb = Framebuffer::new(50, 50);
    draw_cell(&mut fb, 0, 0, ' ');
    assert!(fb.buffer.iter().all(|&c| c == 0));
    draw_cell(&mut fb, 5, 5, '+');
    assert_eq!(count(&fb, 0x4AFBFF), BLOCK_SIZE * BLOCK_SIZE);
    assert_eq!(px(&fb, 5, 5), 0x4AFBFF);
    assert_eq!(px(&fb, 24, 24), 0x4AFBFF);
    assert_eq!(px(&fb, 25, 25), 0);
}

fn expected_glyph_pixels(c: char, x: usize, y: usize, scale: usize) -> Vec<(usize, usize)> {
    let glyph = font8x8::BASIC_FONTS.get(c).unwrap();
    let mut out = Vec::new();
    for (row, bits) in glyph.iter().enumerate() {
        for col in 0..8 {
            if bits & (1 << col) != 0 {
                for dy in 0..scale {
                    for dx in 0..scale {
                        out.push((x + col * scale + dx, y + row * scale + dy));
                    }
                }
            }
        }
    }
    out
}

#[test]
fn text_draws_uppercase_glyphs_of_the_basic_font() {
    let mut fb = Framebuffer::new(40, 20);
    draw_text(&mut fb, 2, 3, "a", 0xFF, 1);
    let expected = expected_glyph_pixels('A', 2, 3, 1);
    assert!(!expected.is_empty());
    for y in 0..20 {
        for x in 0..40 {
            assert_eq!(px(&fb, x, y) == 0xFF, expected.contains(&(x, y)), "pixel ({}, {})", x, y);
        }
    }
    assert_eq!(fb.current_color, 0xFF);
}

#[test]
fn text_characters_are_nine_scaled_pixels_apart() {
    let mut fb = Framebuffer::new(60, 30);
    draw_text(&mut fb, 1, 1, "HI", 0x10, 2);
    let mut expected = expected_glyph_pixels('H', 1, 1, 2);
    expected.extend(expected_glyph_pixels('I', 1 + 18, 1, 2));
    for y in 0..30 {
        for x in 0..60 {
            assert_eq!(px(&fb, x, y) == 0x10, expected.contains(&(x, y)), "pixel ({}, {})", x, y);
        }
    }
}

#[test]
fn text_at_scale_zero_draws_nothing() {
    let mut fb = Framebuffer::new(20, 20);
    fb.set_current_color(5);
    draw_text(&mut fb, 0, 0, "ABC", 0xFF, 0);
    assert_eq!(count(&fb, 0xFF), 0);
    assert_eq!(fb.current_color, 5);
}

#[test]
fn characters_outside_the_basic_font_leave_a_gap() {
    let mut fb = Framebuffer::new(40, 20);
    fb.set_current_color(5);
    draw_text(&mut fb, 0, 0, "é", 0xFF, 1);
    assert_eq!(count(&fb, 0xFF), 0);
    assert_eq!(fb.current_color, 5);
    let mut fb = Framebuffer::new(40, 20);
    draw_text(&mut fb, 0, 0, "éA", 0xFF, 1);
    let expected = expected_glyph_pixels('A', 9, 0, 1);
    assert_eq!(count(&fb, 0xFF), expected.len());
}

#[test]
fn space_draws_nothing_and_keeps_the_pen() {
    let mut fb = Framebuffer::new(20, 20);
    fb.set_current_color(5);
    draw_text(&mut fb, 0, 0, " ", 0xFF, 1);
    assert_eq!(count(&fb, 0xFF), 0);
    assert_eq!(fb.current_color, 5);
}

#[test]
fn glyph_bits_are_columns_from_the_left() {
    let mut fb = Framebuffer::new(16, 16);
    let glyph = [0b0000_0001, 0, 0, 0, 0, 0, 0, 0b1000_0000];
    draw_glyph(&mut fb, &glyph, 0, 0, 2, 9);
    assert_eq!(count(&fb, 9), 8);
    assert_eq!(px(&fb, 0, 0), 9);
    assert_eq!(px(&fb, 1, 1), 9);
    assert_eq!(px(&fb, 14, 14), 9);
    assert_eq!(px(&fb, 15, 15), 9);
}

#[test]
fn ascii_uppercase() {
    assert_eq!(ascii_upper('a'), 'A');
    assert_eq!(ascii_upper('z'), 'Z');
    assert_eq!(ascii_upper('A'), 'A');
    assert_eq!(ascii_upper('é'), 'é');
    assert_eq!(ascii_upper('1'), '1');
}

#[test]
fn fps_box_and_label() {
    let mut fb = Framebuffer::new(200, 60);
    draw_fps(&mut fb, 60);
    let mut expected = Framebuffer::new(200, 60);
    draw_rect(&mut expected, 12, 12, 130, 30, 0x101522);
    draw_text(&mut expected, 20, 19, "FPS 60", 0xFFFFFF, 2);
    assert_eq!(fb.buffer, expected.buffer);
    assert_eq!(px(&fb, 12, 12), 0x101522);
}

#[test]
fn view_button() {
    let mut fb = Framebuffer::new(1300, 900);
    draw_view_button(&mut fb);
    let mut expected = Framebuffer::new(1300, 900);
    draw_rect(&mut expected, 1030, 850, 250, 36, 0x101522);
    draw_text(&mut expected, 1042, 858, "V / CLICK VISTA", 0xFFFFFF, 1);
    assert_eq!(fb.buffer, expected.buffer);
}

#[test]
fn centered_panel_lines_are_fifty_pixels_apart() {
    let mut fb = Framebuffer::new(1300, 900);
    draw_centered_panel(&mut fb, "TITLE", &["ONE", "TWO"]);
    let mut expected = Framebuffer::new(1300, 900);
    draw_rect(&mut expected, 260, 220, 780, 460, 0x101522);
    draw_text(&mut expected, 390, 275, "TITLE", 0x4AFBFF, 3);
    draw_text(&mut expected, 390, 360, "ONE", 0xFFFFFF, 2);
    draw_text(&mut expected, 390, 410, "TWO", 0xFFFFFF, 2);
    assert_eq!(fb.buffer, expected.buffer);
}

#[test]
fn disc_of_radius_eight() {
    let mut fb = Framebuffer::new(40, 40);
    fb.set_current_color(2);
    draw_disc(&mut fb, 20, 20, 8);
    let mut n = 0;
    for dy in -8i32..=8 {
        for dx in -8i32..=8 {
            if dx * dx + dy * dy <= 64 {
                n += 1;
                assert_eq!(px(&fb, (20 + dx) as usize, (20 + dy) as usize), 2);
            }
        }
    }
    assert_eq!(count(&fb, 2), n);
    assert_eq!(n, 197);
}

#[test]
fn disc_edge_cases() {
    let mut fb = Framebuffer::new(10, 10);
    fb.set_current_color(2);
    draw_disc(&mut fb, 0, 0, 0);
    assert_eq!(count(&fb, 2), 1);
    draw_disc(&mut fb, 5, 5, -3);
    assert_eq!(count(&fb, 2), 1);
    let mut fb = Framebuffer::new(10, 10);
    fb.set_current_color(2);
    draw_disc(&mut fb, 0, 0, 3);
    assert_eq!(count(&fb, 2), 11);
}

#[test]
fn maze_cells_are_centred_blocks() {
    let mut fb = Framebuffer::new(1300, 900);
    let maze = vec![vec!['+', ' ', 'g'], vec!['|', '-', ' ']];
    let offset = draw_maze_cells(&mut fb, &maze);
    assert_eq!(offset, (900 - 2 * BLOCK_SIZE) / 2);
    assert_eq!(px(&fb, 0, offset), 0x4AFBFF);
    assert_eq!(px(&fb, 20, offset), 0);
    assert_eq!(px(&fb, 40, offset + 19), 0x16C172);
    assert_eq!(px(&fb, 0, offset + 20), 0x1685FF);
    assert_eq!(px(&fb, 39, offset + 39), 0x9B59FF);
    assert_eq!(px(&fb, 40, offset + 39), 0);
    assert_eq!(count(&fb, 0x4AFBFF), 400);
}

#[test]
fn tall_maze_starts_at_the_top() {
    let mut fb = Framebuffer::new(100, 100);
    let maze: Vec<Vec<char>> = (0..50).map(|_| vec!['+']).collect();
    assert_eq!(draw_maze_cells(&mut fb, &maze), 0);
    assert_eq!(px(&fb, 0, 0), 0x4AFBFF);
}

#[test]
fn text_stays_in_its_box() {
    let mut fb = Framebuffer::new(80, 40);
    draw_text(&mut fb, 3, 5, "MW", 0x77, 2);
    assert!(count(&fb, 0x77) > 0);
    for y in 0..40 {
        for x in 0..80 {
            if px(&fb, x, y) == 0x77 {
                assert!((3..3 + 36).contains(&x) && (5..5 + 16).contains(&y), "pixel ({}, {})", x, y);
            }
        }
    }
}

#[test]
fn text_is_drawn_as_its_parts_side_by_side() {
    let mut whole = Framebuffer::new(80, 30);
    draw_text(&mut whole, 4, 2, "AB7", 0x33, 2);
    let mut parts = Framebuffer::new(80, 30);
    draw_text(&mut parts, 4, 2, "A", 0x33, 2);
    draw_text(&mut parts, 4 + 18, 2, "B7", 0x33, 2);
    assert_eq!(whole.buffer, parts.buffer);
    assert_eq!(whole.current_color, parts.current_color);
}

#[test]
fn lowercase_text_draws_as_uppercase() {
    let mut lower = Framebuffer::new(60, 20);
    draw_text(&mut lower, 0, 0, "maze", 0x44, 1);
    let mut upper = Framebuffer::new(60, 20);
    draw_text(&mut upper, 0, 0, "MAZE", 0x44, 1);
    assert_eq!(lower.buffer, upper.buffer);
}
