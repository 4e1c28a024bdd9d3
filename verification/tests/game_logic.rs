use maze_runner::audio::{first_existing, AudioManager, MusicStart, SinkCommand};
use maze_runner::framebuffer::Framebuffer;
use maze_runner::game::{decimal, level_name, FpsCounter, GameState, Session, ViewMode, LEVELS, LEVEL_COUNT};
use maze_runner::input::{ButtonSnapshot, ControllerInput, PadEvent};
use maze_runner::maze::{cell_at, cell_center, is_goal, is_wall, is_wall_cell, load_maze, MazeError};
use maze_runner::render::{draw_centered_panel, draw_rect};
use maze_runner::text::draw_text;
use maze_runner::textures::{Texture, TextureSet};
use maze_runner::{screen, screens};

#[test]
fn decimal_numbers() {
    assert_eq!(decimal(0), "0");
    assert_eq!(decimal(7), "7");
    assert_eq!(decimal(10), "10");
    assert_eq!(decimal(1234567890), "1234567890");
    assert_eq!(decimal(usize::MAX), usize::MAX.to_string());
}

#[test]
fn level_names() {
    assert_eq!(level_name(0), "Fácil");
    assert_eq!(level_name(1), "Intermedio");
    assert_eq!(level_name(2), "Difícil");
    assert_eq!(level_name(3), "NIVEL 4");
    assert_eq!(level_name(99), "NIVEL 100");
    assert_ne!(level_name(5), level_name(6));
}

#[test]
fn level_files() {
    assert_eq!(LEVELS.len(), LEVEL_COUNT);
    assert_eq!(LEVELS[0], "levels/level1.txt");
    assert_eq!(LEVELS[2], "levels/level3.txt");
}

#[test]
fn level_selection_keys_and_arrows() {
    let mut s = 0usize;
    screens::update_level_selection([false, true, false], false, false, &mut s);
    assert_eq!(s, 1);
    screens::update_level_selection([true, false, true], false, false, &mut s);
    assert_eq!(s, 2);
    screens::update_level_selection([false; 3], false, true, &mut s);
    assert_eq!(s, 0);
    screens::update_level_selection([false; 3], true, false, &mut s);
    assert_eq!(s, 2);
    screens::update_level_selection([false; 3], true, true, &mut s);
    assert_eq!(s, 2);
    screens::update_level_selection([true, false, false], true, false, &mut s);
    assert_eq!(s, 2);
    let mut far = 5usize;
    screens::update_level_selection([false; 3], true, false, &mut far);
    assert_eq!(far, 4);
}

#[test]
fn up_then_down_returns_to_the_same_level() {
    for start in 0..3usize {
        let mut s = start;
        screens::update_level_selection([false; 3], true, false, &mut s);
        assert!(s < 3);
        screens::update_level_selection([false; 3], false, true, &mut s);
        assert_eq!(s, start);
    }
}

#[test]
fn plain_level_selection_last_key_wins() {
    let mut s = 6usize;
    screen::update_level_selection([false; 3], &mut s);
    assert_eq!(s, 6);
    screen::update_level_selection([true, true, false], &mut s);
    assert_eq!(s, 1);
}

#[test]
fn welcome_screen_matches_its_drawing() {
    let mut fb = Framebuffer::new(1300, 900);
    screens::render_welcome(&mut fb);
    let mut expected = Framebuffer::new(1300, 900);
    draw_rect(&mut expected, 0, 0, 1300, 900, 0x080B14);
    draw_text(&mut expected, 365, 190, "LABERINTO LA CASA ABANDONADA", 0x4AFBFF, 4);
    draw_text(&mut expected, 410, 300, "ENCUENTRA LA SALIDA", 0xFFFFFF, 3);
    draw_text(&mut expected, 390, 425, "ENTER / A PARA CONTINUAR", 0xFFFFFF, 2);
    draw_text(&mut expected, 365, 485, "TECLADO: W/S MOVER | A/D GIRAR | Q/E O FLECHAS LATERALES", 0xAAB7D4, 2);
    draw_text(&mut expected, 340, 530, "CONTROL: STICK IZQ MOVER/LATERAL | STICK DER GIRAR", 0xAAB7D4, 2);
    draw_text(&mut expected, 360, 600, "V/Y: 2D-3D   T/X: TEXTURAS   M/START: MUSICA", 0xFFFFFF, 1);
    draw_text(&mut expected, 390, 630, "ESC: SALIR", 0xAAB7D4, 1);
    assert_eq!(fb.buffer, expected.buffer);
    assert_eq!(fb.buffer[0], 0x080B14);
}

#[test]
fn level_select_highlights_the_choice() {
    let mut fb = Framebuffer::new(1300, 900);
    screens::render_level_select(&mut fb, 1);
    assert_eq!(fb.buffer[(325 - 18) * 1300 + 300], 0x14263D);
    assert_eq!(fb.buffer[(220 - 18) * 1300 + 300], 0x080B14);
    let mut expected = Framebuffer::new(1300, 900);
    draw_rect(&mut expected, 0, 0, 1300, 900, 0x080B14);
    draw_text(&mut expected, 420, 90, "SELECCIONAR NIVEL", 0x4AFBFF, 3);
    draw_text(&mut expected, 350, 220, "1 - Fácil", 0xFFFFFF, 2);
    draw_rect(&mut expected, 300, 325 - 18, 700, 62, 0x14263D);
    draw_text(&mut expected, 350, 325, "2 - Intermedio", 0x4AFBFF, 2);
    draw_text(&mut expected, 350, 430, "3 - Difícil", 0xFFFFFF, 2);
    draw_text(&mut expected, 360, 590, "TECLADO: 1/2/3   ARRIBA/ABAJO: D-PAD", 0xFFFFFF, 1);
    draw_text(&mut expected, 360, 625, "ENTER / A: CONFIRMAR   B: VOLVER   ESC: SALIR", 0xFFFFFF, 1);
    draw_text(&mut expected, 360, 665, "NIVEL 1: FACIL   NIVEL 2: MEDIO   NIVEL 3: DIFICIL", 0xAAB7D4, 1);
    assert_eq!(fb.buffer, expected.buffer);
}

#[test]
fn success_screen_names_the_level() {
    let mut fb = Framebuffer::new(1300, 900);
    screens::render_success(&mut fb, 2);
    let mut expected = Framebuffer::new(1300, 900);
    draw_rect(&mut expected, 0, 0, 1300, 900, 0x07120E);
    draw_centered_panel(&mut expected, "NIVEL COMPLETADO", &["Difícil SUPERADO", "ENTER / A - SIGUIENTE NIVEL"]);
    assert_eq!(fb.buffer, expected.buffer);
}

#[test]
fn plain_screens_match_their_drawing() {
    let mut fb = Framebuffer::new(1300, 900);
    screen::render_welcome(&mut fb);
    let mut expected = Framebuffer::new(1300, 900);
    draw_rect(&mut expected, 0, 0, 1300, 900, 0x080B14);
    draw_text(&mut expected, 365, 245, "MAZE RUNNER", 0x4AFBFF, 4);
    draw_text(&mut expected, 410, 355, "RAY CASTING", 0xFFFFFF, 3);
    draw_text(&mut expected, 390, 485, "ENTER PARA CONTINUAR", 0xFFFFFF, 2);
    draw_text(&mut expected, 425, 535, "WASD / MOUSE / CONTROL", 0xAAB7D4, 2);
    assert_eq!(fb.buffer, expected.buffer);

    let mut fb = Framebuffer::new(1300, 900);
    screen::render_level_select(&mut fb, 4);
    let mut expected = Framebuffer::new(1300, 900);
    draw_rect(&mut expected, 0, 0, 1300, 900, 0x080B14);
    draw_text(&mut expected, 420, 100, "SELECCIONAR NIVEL", 0x4AFBFF, 3);
    for i in 0..7usize {
        let label = format!("{} - {}", i + 1, level_name(i));
        let color = if i == 4 { 0x4AFBFF } else { 0xFFFFFF };
        draw_text(&mut expected, 430, 210 + i * 70, &label, color, 2);
    }
    draw_text(&mut expected, 385, 730, "1-7 PARA ELEGIR  |  ENTER PARA JUGAR", 0xAAB7D4, 1);
    draw_text(&mut expected, 520, 765, "ESC PARA SALIR", 0xAAB7D4, 1);
    assert_eq!(fb.buffer, expected.buffer);

    let mut fb = Framebuffer::new(1300, 900);
    screen::render_success(&mut fb, 0);
    let mut expected = Framebuffer::new(1300, 900);
    draw_rect(&mut expected, 0, 0, 1300, 900, 0x07120E);
    draw_centered_panel(&mut expected, "NIVEL COMPLETADO", &["Fácil SUPERADO", "ENTER - SIGUIENTE NIVEL", "ESC - SALIR"]);
    assert_eq!(fb.buffer, expected.buffer);
}

#[test]
fn session_goes_through_the_screens() {
    let mut s = Session::new();
    assert_eq!(s.state, GameState::Welcome);
    assert_eq!(s.advance(false, true), None);
    assert_eq!(s.state, GameState::Welcome);
    assert_eq!(s.advance(true, false), None);
    assert_eq!(s.state, GameState::LevelSelect);
    s.select_level([false, false, true], false, false);
    assert_eq!(s.selected_level, 2);
    s.view_mode = ViewMode::View2D;
    assert_eq!(s.advance(true, false), Some(2));
    assert_eq!(s.state, GameState::Playing);
    assert_eq!(s.view_mode, ViewMode::View3D);
    assert_eq!(s.advance(true, false), None);
    assert_eq!(s.state, GameState::Playing);
    assert_eq!(s.advance(false, true), None);
    assert_eq!(s.state, GameState::Success);
    assert_eq!(s.advance(false, false), None);
    assert_eq!(s.state, GameState::Success);
    assert_eq!(s.advance(true, false), Some(0));
    assert_eq!(s.selected_level, 0);
    assert_eq!(s.state, GameState::Playing);
}

#[test]
fn three_completed_levels_come_back_to_the_first() {
    let mut s = Session::new();
    s.state = GameState::Success;
    s.selected_level = 1;
    let mut seen = Vec::new();
    for _ in 0..3 {
        seen.push(s.advance(true, false).unwrap());
        s.advance(false, true);
    }
    assert_eq!(seen, vec![2, 0, 1]);
    assert_eq!(s.selected_level, 1);
}

#[test]
fn view_switch_waits_for_the_cooldown_and_a_fresh_click() {
    let mut s = Session::new();
    assert!(!s.toggle_view(true, false, false, false));
    assert_eq!(s.view_mode, ViewMode::View3D);
    assert!(s.toggle_view(true, false, false, true));
    assert_eq!(s.view_mode, ViewMode::View2D);
    assert!(s.toggle_view(false, true, true, true));
    assert_eq!(s.view_mode, ViewMode::View3D);
    assert!(s.mouse_was_down);
    assert!(!s.toggle_view(false, true, true, true));
    assert_eq!(s.view_mode, ViewMode::View3D);
    assert!(!s.toggle_view(false, false, false, true));
    assert!(!s.mouse_was_down);
}

#[test]
fn textures_toggle() {
    let mut s = Session::new();
    assert!(s.textures_enabled);
    s.toggle_textures(false);
    assert!(s.textures_enabled);
    s.toggle_textures(true);
    assert!(!s.textures_enabled);
    s.toggle_textures(true);
    assert!(s.textures_enabled);
}

#[test]
fn fps_counts_the_frames_of_each_second() {
    let mut c = FpsCounter::new();
    assert!(!c.tick(false));
    assert!(!c.tick(false));
    assert_eq!(c.fps, 0);
    assert!(c.tick(true));
    assert_eq!(c.fps, 3);
    assert_eq!(c.frames, 0);
    c.tick(true);
    assert_eq!(c.fps, 1);
}

fn lines(rows: &[&str]) -> Vec<String> {
    rows.iter().map(|r| r.to_string()).collect()
}

#[test]
fn maze_with_player_marker() {
    let (maze, spawn) = load_maze(&lines(&["+-+", "|p|", "+g+"])).unwrap();
    assert_eq!(spawn, Some((1, 1)));
    assert_eq!(maze, vec![vec!['+', '-', '+'], vec!['|', ' ', '|'], vec!['+', 'g', '+']]);
    assert!(is_goal(&maze, 1, 2));
    assert!(!is_goal(&maze, 1, 1));
    assert!(is_wall(&maze, 0, 0));
    assert!(!is_wall(&maze, 1, 1));
    assert!(is_wall(&maze, 3, 1));
    assert!(is_wall(&maze, 0, 3));
    assert!(!is_goal(&maze, 9, 9));
    assert_eq!(cell_at(&maze, 2, 1), Some('|'));
    assert_eq!(cell_at(&maze, 3, 1), None);
}

#[test]
fn last_player_marker_wins() {
    let (maze, spawn) = load_maze(&lines(&["p  ", " p ", "  p"])).unwrap();
    assert_eq!(spawn, Some((2, 2)));
    assert!(maze.iter().all(|row| row.iter().all(|&c| c == ' ')));
}

#[test]
fn maze_without_marker_or_lines() {
    let (maze, spawn) = load_maze(&lines(&["+++", "+ +"])).unwrap();
    assert_eq!(spawn, None);
    assert_eq!(maze.len(), 2);
    let (maze, spawn) = load_maze(&Vec::new()).unwrap();
    assert!(maze.is_empty());
    assert_eq!(spawn, None);
}

#[test]
fn ragged_maze_is_refused() {
    assert_eq!(
        load_maze(&lines(&["+++", "+ +", "++", "+"])),
        Err(MazeError::NotRectangular { row: 2, found: 2, expected: 3 })
    );
    assert_eq!(
        load_maze(&lines(&["ñ+", "+++"])),
        Err(MazeError::NotRectangular { row: 1, found: 3, expected: 2 })
    );
}

#[test]
fn wall_cells_and_centres() {
    assert!(is_wall_cell('+') && is_wall_cell('-') && is_wall_cell('|'));
    assert!(!is_wall_cell('g') && !is_wall_cell(' ') && !is_wall_cell('p'));
    assert_eq!(cell_center(1, 2, 20), (30, 50));
    assert_eq!(cell_center(0, 0, 7), (3, 3));
}

#[test]
fn controller_reports_a_press_once() {
    let mut c = ControllerInput::new();
    let mut held = ButtonSnapshot::default();
    held.south = true;
    held.north = true;
    c.update(held);
    assert!(c.confirm_pressed());
    assert!(c.toggle_view_pressed());
    assert!(!c.back_pressed());
    c.update(held);
    assert!(!c.confirm_pressed());
    assert!(!c.toggle_view_pressed());
    c.update(ButtonSnapshot::default());
    assert!(!c.confirm_pressed());
    let mut start = ButtonSnapshot::default();
    start.start = true;
    c.update(start);
    assert!(c.confirm_pressed());
    assert!(c.toggle_music_pressed());
    let mut pad = ButtonSnapshot::default();
    pad.dpad_up = true;
    pad.west = true;
    pad.select = true;
    c.update(pad);
    assert!(c.level_up_pressed());
    assert!(!c.level_down_pressed());
    assert!(c.toggle_textures_pressed());
    assert!(c.back_pressed());
    assert!(c.just_pressed(true, false));
    assert!(!c.just_pressed(true, true));
}

#[test]
fn controller_follows_connections() {
    let mut c = ControllerInput::new();
    c.adopt_first(Some(4));
    assert_eq!(c.active_id, Some(4));
    c.adopt_first(Some(1));
    assert_eq!(c.active_id, Some(4));
    c.track_event(PadEvent::Disconnected(1));
    assert_eq!(c.active_id, Some(4));
    c.track_event(PadEvent::Disconnected(4));
    assert_eq!(c.active_id, None);
    c.track_event(PadEvent::Connected(7));
    assert_eq!(c.active_id, Some(7));
    c.track_event(PadEvent::Other);
    assert_eq!(c.active_id, Some(7));
}

#[test]
fn texture_samples_are_clamped() {
    let t = Texture { width: 2, height: 2, pixels: vec![1, 2, 3, 4] };
    assert_eq!(t.sample(0, 0), 1);
    assert_eq!(t.sample(1, 0), 2);
    assert_eq!(t.sample(0, 1), 3);
    assert_eq!(t.sample(9, 9), 4);
    assert_eq!(t.sample(0, 7), 3);
}

#[test]
fn texture_set_by_wall_character() {
    let tex = |c: u32| Texture { width: 1, height: 1, pixels: vec![c] };
    let set = TextureSet::load(tex(1), tex(2), tex(3));
    assert_eq!(set.get('+').unwrap().pixels, vec![1]);
    assert_eq!(set.get('-').unwrap().pixels, vec![2]);
    assert_eq!(set.get('|').unwrap().pixels, vec![3]);
    assert!(set.get('g').is_none());
}

#[test]
fn music_start_and_toggle() {
    let m = AudioManager::new(MusicStart::NoOutput);
    assert!(!m.is_enabled() && !m.has_player);
    let m = AudioManager::new(MusicStart::NoPlayer);
    assert!(m.is_enabled() && !m.has_player);
    let m = AudioManager::new(MusicStart::NotFound);
    assert!(!m.is_enabled() && m.has_player);
    let m = AudioManager::new(MusicStart::DecodeFailed);
    assert!(!m.is_enabled() && m.has_player);
    let mut m = AudioManager::new(MusicStart::Playing);
    assert!(m.is_enabled());
    assert_eq!(m.toggle_music(false), Some(SinkCommand::Pause));
    assert!(!m.is_enabled());
    assert_eq!(m.toggle_music(true), Some(SinkCommand::Play));
    assert!(m.is_enabled());
    let mut none = AudioManager::new(MusicStart::NoOutput);
    assert_eq!(none.toggle_music(true), None);
    assert!(!none.is_enabled());
}

#[test]
fn first_music_file_that_exists() {
    assert_eq!(first_existing(&[false, true]), Some(1));
    assert_eq!(first_existing(&[true, true]), Some(0));
    assert_eq!(first_existing(&[false, false]), None);
    assert_eq!(first_existing(&[]), None);
}

fn png_bytes(image: image::DynamicImage) -> Vec<u8> {
    let mut out = std::io::Cursor::new(Vec::new());
    image.write_to(&mut out, image::ImageOutputFormat::Png).unwrap();
    out.into_inner()
}

#[test]
fn png_texture_pixels_are_packed_rgb() {
    let rgb = image::RgbImage::from_raw(2, 1, vec![1, 2, 3, 255, 0, 128]).unwrap();
    let bytes = png_bytes(image::DynamicImage::ImageRgb8(rgb));
    let t = maze_runner::textures::load_texture(&bytes).unwrap();
    assert_eq!((t.width, t.height), (2, 1));
    assert_eq!(t.pixels, vec![0x010203, 0xFF0080]);
}

#[test]
fn grey_png_texture_is_converted() {
    let grey = image::GrayImage::from_raw(1, 2, vec![0x10, 0xF0]).unwrap();
    let bytes = png_bytes(image::DynamicImage::ImageLuma8(grey));
    let t = maze_runner::textures::load_texture(&bytes).unwrap();
    assert_eq!((t.width, t.height), (1, 2));
    assert_eq!(t.pixels, vec![0x101010, 0xF0F0F0]);
}

#[test]
fn bytes_that_are_no_png_are_refused() {
    let r = maze_runner::textures::load_texture(b"not a png");
    assert!(matches!(r, Err(maze_runner::textures::TextureError::Decode(_))));
    assert!(maze_runner::textures::load_texture(&[]).is_err());
}

#[test]
fn packing_rgb_bytes() {
    let t = maze_runner::textures::pack_rgb8(2, 2, &[0, 0, 0, 1, 2, 3, 255, 255, 255, 0x4A, 0xFB, 0xFF]);
    assert_eq!(t.pixels, vec![0, 0x010203, 0xFFFFFF, 0x4AFBFF]);
    let empty = maze_runner::textures::pack_rgb8(0, 5, &[]);
    assert!(empty.pixels.is_empty());
}
