use vstd::prelude::*;
use crate::framebuffer::{Canvas, Framebuffer};
use crate::game::{decimal, lemma_decimal_len, level_name, spec_decimal, spec_level_name};
use crate::render::{draw_centered_panel, draw_rect, fill_rect, spec_centered_panel};
use crate::text::{draw_text, lemma_small_text_fits, lemma_text_stays_in_box, put_text, text_prefix_covers};
use crate::framebuffer::{lemma_index_in_frame, lemma_paint_at, rect, sat_add};

verus! {

/// The welcome screen drawn over `cv`, for a frame `w` by `h`.
pub open spec fn welcome_screen(cv: Canvas, w: nat, h: nat) -> Canvas {
    let c = fill_rect(cv, w, 0, 0, w as int, h as int, 0x080B14);
    let c = put_text(c, w, 365, 190, "LABERINTO LA CASA ABANDONADA"@, 0x4AFBFF, 4);
    let c = put_text(c, w, 410, 300, "ENCUENTRA LA SALIDA"@, 0xFFFFFF, 3);
    let c = put_text(c, w, 390, 425, "ENTER / A PARA CONTINUAR"@, 0xFFFFFF, 2);
    let c = put_text(
        c,
        w,
        365,
        485,
        "TECLADO: W/S MOVER | A/D GIRAR | Q/E O FLECHAS LATERALES"@,
        0xAAB7D4,
        2,
    );
    let c = put_text(
        c,
        w,
        340,
        530,
        "CONTROL: STICK IZQ MOVER/LATERAL | STICK DER GIRAR"@,
        0xAAB7D4,
        2,
    );
    let c = put_text(c, w, 360, 600, "V/Y: 2D-3D   T/X: TEXTURAS   M/START: MUSICA"@, 0xFFFFFF, 1);
    put_text(c, w, 390, 630, "ESC: SALIR"@, 0xAAB7D4, 1)
}

/// Draws the welcome screen: the title, how to continue and the controls.
pub fn render_welcome(framebuffer: &mut Framebuffer)
    requires
        old(framebuffer).wf(),
    ensures
        final(framebuffer).wf(),
        final(framebuffer).same_frame(*old(framebuffer)),
        final(framebuffer).canvas() == welcome_screen(
            old(framebuffer).canvas(),
            old(framebuffer).width as nat,
            old(framebuffer).height as nat,
        ),
{
    let w = framebuffer.width;
    let h = framebuffer.height;
    draw_rect(framebuffer, 0, 0, w, h, 0x080B14);
    proof {
        reveal_strlit("LABERINTO LA CASA ABANDONADA");
        lemma_small_text_fits(365, 190, "LABERINTO LA CASA ABANDONADA"@, 4);
    }
    draw_text(framebuffer, 365, 190, "LABERINTO LA CASA ABANDONADA", 0x4AFBFF, 4);
    proof {
        reveal_strlit("ENCUENTRA LA SALIDA");
        lemma_small_text_fits(410, 300, "ENCUENTRA LA SALIDA"@, 3);
    }
    draw_text(framebuffer, 410, 300, "ENCUENTRA LA SALIDA", 0xFFFFFF, 3);
    proof {
        reveal_strlit("ENTER / A PARA CONTINUAR");
        lemma_small_text_fits(390, 425, "ENTER / A PARA CONTINUAR"@, 2);
    }
    draw_text(framebuffer, 390, 425, "ENTER / A PARA CONTINUAR", 0xFFFFFF, 2);
    proof {
        reveal_strlit("TECLADO: W/S MOVER | A/D GIRAR | Q/E O FLECHAS LATERALES");
        lemma_small_text_fits(
            365,
            485,
            "TECLADO: W/S MOVER | A/D GIRAR | Q/E O FLECHAS LATERALES"@,
            2,
        );
    }
    draw_text(
        framebuffer,
        365,
        485,
        "TECLADO: W/S MOVER | A/D GIRAR | Q/E O FLECHAS LATERALES",
        0xAAB7D4,
        2,
    );
    proof {
        reveal_strlit("CONTROL: STICK IZQ MOVER/LATERAL | STICK DER GIRAR");
        lemma_small_text_fits(340, 530, "CONTROL: STICK IZQ MOVER/LATERAL | STICK DER GIRAR"@, 2);
    }
    draw_text(
        framebuffer,
        340,
        530,
        "CONTROL: STICK IZQ MOVER/LATERAL | STICK DER GIRAR",
        0xAAB7D4,
        2,
    );
    proof {
        reveal_strlit("V/Y: 2D-3D   T/X: TEXTURAS   M/START: MUSICA");
        lemma_small_text_fits(360, 600, "V/Y: 2D-3D   T/X: TEXTURAS   M/START: MUSICA"@, 1);
    }
    draw_text(framebuffer, 360, 600, "V/Y: 2D-3D   T/X: TEXTURAS   M/START: MUSICA", 0xFFFFFF, 1);
    proof {
        reveal_strlit("ESC: SALIR");
        lemma_small_text_fits(390, 630, "ESC: SALIR"@, 1);
    }
    draw_text(framebuffer, 390, 630, "ESC: SALIR", 0xAAB7D4, 1);
}

/// The label of level `i` in the level list: its number, a dash and its
/// name.
pub open spec fn entry_label(i: nat) -> Seq<char> {
    spec_decimal(i + 1) + " - "@ + spec_level_name(i)
}

/// The canvas after drawing the first `n` entries of the level list, the
/// selected one on a highlight bar and in cyan, the others in white.
pub open spec fn level_entries(cv: Canvas, w: nat, selected: nat, n: nat) -> Canvas
    decreases n,
{
    if n == 0 {
        cv
    } else {
        let i = (n - 1) as nat;
        let prev = level_entries(cv, w, selected, i);
        let y = 220 + (i as int) * 105;
        let lit = if i == selected {
            fill_rect(prev, w, 300, y - 18, 700, 62, 0x14263D)
        } else {
            prev
        };
        put_text(
            lit,
            w,
            350,
            y,
            entry_label(i),
            if i == selected {
                0x4AFBFF
            } else {
                0xFFFFFF
            },
            2,
        )
    }
}

/// The level selection screen drawn over `cv` with level `selected`
/// highlighted.
pub open spec fn level_select_screen(cv: Canvas, w: nat, h: nat, selected: nat) -> Canvas {
    let c = fill_rect(cv, w, 0, 0, w as int, h as int, 0x080B14);
    let c = put_text(c, w, 420, 90, "SELECCIONAR NIVEL"@, 0x4AFBFF, 3);
    let c = level_entries(c, w, selected, 3);
    let c = put_text(c, w, 360, 590, "TECLADO: 1/2/3   ARRIBA/ABAJO: D-PAD"@, 0xFFFFFF, 1);
    let c = put_text(
        c,
        w,
        360,
        625,
        "ENTER / A: CONFIRMAR   B: VOLVER   ESC: SALIR"@,
        0xFFFFFF,
        1,
    );
    put_text(
        c,
        w,
        360,
        665,
        "NIVEL 1: FACIL   NIVEL 2: MEDIO   NIVEL 3: DIFICIL"@,
        0xAAB7D4,
        1,
    )
}

/// The name of any level is at most 26 characters long.
pub proof fn lemma_level_name_len(i: nat)
    requires
        i < usize::MAX,
    ensures
        spec_level_name(i).len() <= 26,
{
    reveal_strlit("Fácil");
    reveal_strlit("Intermedio");
    reveal_strlit("Difícil");
    reveal_strlit("NIVEL ");
    lemma_decimal_len(i + 1);
}

/// Draws the level selection screen: the three levels, the selected one
/// highlighted, and the keys to use.
pub fn render_level_select(framebuffer: &mut Framebuffer, selected: usize)
    requires
        old(framebuffer).wf(),
    ensures
        final(framebuffer).wf(),
        final(framebuffer).same_frame(*old(framebuffer)),
        final(framebuffer).canvas() == level_select_screen(
            old(framebuffer).canvas(),
            old(framebuffer).width as nat,
            old(framebuffer).height as nat,
            selected as nat,
        ),
{
    let ghost w = framebuffer.width as nat;
    let fw = framebuffer.width;
    let fh = framebuffer.height;
    draw_rect(framebuffer, 0, 0, fw, fh, 0x080B14);
    proof {
        reveal_strlit("SELECCIONAR NIVEL");
        lemma_small_text_fits(420, 90, "SELECCIONAR NIVEL"@, 3);
    }
    draw_text(framebuffer, 420, 90, "SELECCIONAR NIVEL", 0x4AFBFF, 3);
    let ghost top = framebuffer.canvas();
    for i in 0..3usize
        invariant
            framebuffer.wf(),
            framebuffer.same_frame(*old(framebuffer)),
            w == framebuffer.width,
            framebuffer.canvas() == level_entries(top, w, selected as nat, i as nat),
    {
        let y = 220 + i * 105;
        if i == selected {
            draw_rect(framebuffer, 300, y - 18, 700, 62, 0x14263D);
        }
        let selected_color: u32 = if i == selected {
            0x4AFBFF
        } else {
            0xFFFFFF
        };
        let mut label = decimal(i + 1);
        label.append(" - ");
        let name = level_name(i);
        label.append(name.as_str());
        proof {
            reveal_strlit(" - ");
            lemma_decimal_len((i + 1) as nat);
            lemma_level_name_len(i as nat);
            lemma_small_text_fits(350, y as int, label@, 2);
        }
        draw_text(framebuffer, 350, y, label.as_str(), selected_color, 2);
    }
    proof {
        reveal_strlit("TECLADO: 1/2/3   ARRIBA/ABAJO: D-PAD");
        lemma_small_text_fits(360, 590, "TECLADO: 1/2/3   ARRIBA/ABAJO: D-PAD"@, 1);
    }
    draw_text(framebuffer, 360, 590, "TECLADO: 1/2/3   ARRIBA/ABAJO: D-PAD", 0xFFFFFF, 1);
    proof {
        reveal_strlit("ENTER / A: CONFIRMAR   B: VOLVER   ESC: SALIR");
        lemma_small_text_fits(360, 625, "ENTER / A: CONFIRMAR   B: VOLVER   ESC: SALIR"@, 1);
    }
    draw_text(framebuffer, 360, 625, "ENTER / A: CONFIRMAR   B: VOLVER   ESC: SALIR", 0xFFFFFF, 1);
    proof {
        reveal_strlit("NIVEL 1: FACIL   NIVEL 2: MEDIO   NIVEL 3: DIFICIL");
        lemma_small_text_fits(360, 665, "NIVEL 1: FACIL   NIVEL 2: MEDIO   NIVEL 3: DIFICIL"@, 1);
    }
    draw_text(
        framebuffer,
        360,
        665,
        "NIVEL 1: FACIL   NIVEL 2: MEDIO   NIVEL 3: DIFICIL",
        0xAAB7D4,
        1,
    );
}

/// The screen shown when level `level` is completed.
pub open spec fn success_screen(cv: Canvas, w: nat, h: nat, level: nat) -> Canvas {
    spec_centered_panel(
        fill_rect(cv, w, 0, 0, w as int, h as int, 0x07120E),
        w,
        "NIVEL COMPLETADO"@,
        seq![spec_level_name(level) + " SUPERADO"@, "ENTER / A - SIGUIENTE NIVEL"@],
    )
}

/// Draws the screen that says level `level` is completed and how to go on
/// to the next one.
pub fn render_success(framebuffer: &mut Framebuffer, level: usize)
    requires
        old(framebuffer).wf(),
        level < usize::MAX,
    ensures
        final(framebuffer).wf(),
        final(framebuffer).same_frame(*old(framebuffer)),
        final(framebuffer).canvas() == success_screen(
            old(framebuffer).canvas(),
            old(framebuffer).width as nat,
            old(framebuffer).height as nat,
            level as nat,
        ),
{
    let fw = framebuffer.width;
    let fh = framebuffer.height;
    draw_rect(framebuffer, 0, 0, fw, fh, 0x07120E);
    let mut first = level_name(level);
    first.append(" SUPERADO");
    let lines: [&str; 2] = [first.as_str(), "ENTER / A - SIGUIENTE NIVEL"];
    proof {
        reveal_strlit(" SUPERADO");
        reveal_strlit("NIVEL COMPLETADO");
        reveal_strlit("ENTER / A - SIGUIENTE NIVEL");
        lemma_level_name_len(level as nat);
        let views = lines@.map_values(|l: &str| l@);
        assert(views =~= seq![spec_level_name(level as nat) + " SUPERADO"@, "ENTER / A - SIGUIENTE NIVEL"@]);
        lemma_small_text_fits(390, 275, "NIVEL COMPLETADO"@, 3);
        lemma_small_text_fits(390, 360, views[0], 2);
        lemma_small_text_fits(390, 410, views[1], 2);
    }
    draw_centered_panel(framebuffer, "NIVEL COMPLETADO", &lines);
}

/// The level selected after the level keys (the last one pressed wins).
pub open spec fn after_level_keys(selected: nat, keys: Seq<bool>) -> nat {
    if keys[2] {
        2
    } else if keys[1] {
        1
    } else if keys[0] {
        0
    } else {
        selected
    }
}

/// The level selected after the first `n` level keys.
pub open spec fn keys_prefix_selection(selected: nat, keys: Seq<bool>, n: nat) -> nat
    decreases n,
{
    if n == 0 {
        selected
    } else if keys[n - 1] {
        (n - 1) as nat
    } else {
        keys_prefix_selection(selected, keys, (n - 1) as nat)
    }
}

/// The level above `selected` in the list, wrapping from the first to the
/// last.
pub open spec fn level_above(selected: nat) -> nat {
    if selected == 0 {
        2
    } else {
        (selected - 1) as nat
    }
}

/// The level below `selected` in the list, wrapping from the last to the
/// first.
pub open spec fn level_below(selected: nat) -> nat {
    (selected + 1) % 3
}

/// The selected level after the keys of one frame: the number keys, then
/// up, then down.
pub open spec fn spec_level_selection(selected: nat, keys: Seq<bool>, up: bool, down: bool) -> nat {
    let s = after_level_keys(selected, keys);
    let s = if up {
        level_above(s)
    } else {
        s
    };
    if down {
        level_below(s)
    } else {
        s
    }
}

/// Moves the level selection: `key_pressed[i]` tells whether the key for
/// level `i + 1` was pressed, `up_pressed` and `down_pressed` whether the
/// selection moves up or down the list (keyboard arrows or D-pad).
pub fn update_level_selection(
    key_pressed: [bool; 3],
    up_pressed: bool,
    down_pressed: bool,
    selected: &mut usize,
)
    requires
        !(down_pressed && (if up_pressed {
            level_above(after_level_keys(*old(selected) as nat, key_pressed@))
        } else {
            after_level_keys(*old(selected) as nat, key_pressed@)
        }) == usize::MAX),
    ensures
        *final(selected) == spec_level_selection(
            *old(selected) as nat,
            key_pressed@,
            up_pressed,
            down_pressed,
        ),
{
    for index in 0..3usize
        invariant
            *selected == keys_prefix_selection(*old(selected) as nat, key_pressed@, index as nat),
    {
        if key_pressed[index] {
            *selected = index;
        }
    }
    assert(*selected == after_level_keys(*old(selected) as nat, key_pressed@)) by {
        reveal_with_fuel(keys_prefix_selection, 4);
    }
    if up_pressed {
        *selected = if *selected == 0 {
            2
        } else {
            *selected - 1
        };
    }
    if down_pressed {
        *selected = (*selected + 1) % 3;
    }
}

/// Moving the selection up and then down, or down and then up, comes back
/// to the same level, and both moves stay among the levels.
pub proof fn lemma_level_moves_inverse(selected: nat)
    requires
        selected < 3,
    ensures
        level_below(level_above(selected)) == selected,
        level_above(level_below(selected)) == selected,
        level_above(selected) < 3,
        level_below(selected) < 3,
{
}

/// Whatever keys are pressed, a selection among the levels stays among
/// them.
pub proof fn lemma_selection_stays_in_range(selected: nat, keys: Seq<bool>, up: bool, down: bool)
    requires
        selected < 3,
        keys.len() == 3,
    ensures
        spec_level_selection(selected, keys, up, down) < 3,
{
}

/// With no number key, down selects the next level and up the previous
/// one, both wrapping round the three levels; up and down together leave
/// the choice as it was.
pub proof fn lemma_arrows_step_through_levels(selected: nat, keys: Seq<bool>)
    requires
        selected < 3,
        keys.len() == 3,
        !keys[0] && !keys[1] && !keys[2],
    ensures
        spec_level_selection(selected, keys, false, true) == (selected + 1) % 3,
        spec_level_selection(selected, keys, true, false) == (selected + 2) % 3,
        spec_level_selection(selected, keys, true, true) == selected,
        spec_level_selection(selected, keys, false, false) == selected,
        selected < 2 ==> spec_level_selection(selected, keys, false, true) == selected + 1,
        selected > 0 ==> spec_level_selection(selected, keys, true, false) == selected - 1,
{
}

/// Without arrows, the last number key pressed picks its level, and no key
/// keeps the choice.
pub proof fn lemma_number_keys_pick_levels(selected: nat, keys: Seq<bool>, k: int)
    requires
        keys.len() == 3,
        0 <= k < 3,
        keys[k],
        forall|j: int| k < j < 3 ==> !keys[j],
    ensures
        spec_level_selection(selected, keys, false, false) == k,
{
}

/// Pixel `(a, b)` of a `w * h` canvas after drawing text at scale `s`,
/// when the text does not cover it: unchanged.
proof fn lemma_text_misses(cv: Canvas, w: nat, h: nat, x: int, y: int, t: Seq<char>, color: u32, s: int, a: int, b: int)
    requires
        cv.pixels.len() == w * h,
        0 <= a < w,
        0 <= b < h,
        s > 0,
        !(x <= a < x + 9 * s * t.len() && y <= b < y + 8 * s),
    ensures
        put_text(cv, w, x, y, t, color, s).pixels.len() == w * h,
        put_text(cv, w, x, y, t, color, s).pixels[b * w + a] == cv.pixels[b * w + a],
{
    if text_prefix_covers(t, t.len() as int, x, y, s, a, b) {
        lemma_text_stays_in_box(t, x, y, s, a, b);
    }
    lemma_paint_at(cv.pixels, w, h, |p: int, q: int| text_prefix_covers(t, t.len() as int, x, y, s, p, q), color, a, b);
}

/// The colour of entry `i` of the level list.
spec fn entry_color(i: int, selected: nat) -> u32 {
    if i == selected {
        0x4AFBFF
    } else {
        0xFFFFFF
    }
}

/// Drawing level entries keeps the number of pixels.
proof fn lemma_entries_len(cv: Canvas, w: nat, selected: nat, n: nat)
    ensures
        level_entries(cv, w, selected, n).pixels.len() == cv.pixels.len(),
    decreases n,
{
    if n > 0 {
        lemma_entries_len(cv, w, selected, (n - 1) as nat);
    }
}

/// The left end of entry `i`'s bar after drawing `n` entries: the bar colour
/// if entry `i` is drawn and selected, the old pixel otherwise.
proof fn lemma_entries_bar_pixel(cv: Canvas, w: nat, h: nat, selected: nat, n: nat, i: int)
    requires
        cv.pixels.len() == w * h,
        300 < w,
        412 < h,
        0 <= i < 3,
        n <= 3,
    ensures
        level_entries(cv, w, selected, n).pixels[(202 + 105 * i) * w + 300] == if i < n && i
            == selected {
            0x14263Du32
        } else {
            cv.pixels[(202 + 105 * i) * w + 300]
        },
    decreases n,
{
    if n > 0 {
        let j = (n - 1) as nat;
        let prev = level_entries(cv, w, selected, j);
        lemma_entries_bar_pixel(cv, w, h, selected, j, i);
        lemma_entries_len(cv, w, selected, j);
        let y = 220 + (j as int) * 105;
        let lit = if j == selected {
            fill_rect(prev, w, 300, y - 18, 700, 62, 0x14263D)
        } else {
            prev
        };
        lemma_paint_at(prev.pixels, w, h, rect(300, y - 18, sat_add(300, 700), sat_add(y - 18, 62)), 0x14263D, 300, 202 + 105 * i);
        lemma_text_misses(lit, w, h, 350, y, entry_label(j), entry_color(j as int, selected), 2, 300, 202 + 105 * i);
    }
}

/// Pixel `(a, b)` of entry `i`'s text after drawing `n > i` entries: the
/// entry's colour.
proof fn lemma_entries_text_pixel(cv: Canvas, w: nat, h: nat, selected: nat, n: nat, i: int, a: int, b: int)
    requires
        cv.pixels.len() == w * h,
        0 <= a < w,
        0 <= b < h,
        0 <= i < n,
        n <= 3,
        text_prefix_covers(entry_label(i as nat), entry_label(i as nat).len() as int, 350, 220 + 105 * i, 2, a, b),
    ensures
        level_entries(cv, w, selected, n).pixels[b * w + a] == entry_color(i, selected),
    decreases n,
{
    let j = (n - 1) as nat;
    let prev = level_entries(cv, w, selected, j);
    lemma_entries_len(cv, w, selected, j);
    let y = 220 + (j as int) * 105;
    let lit = if j == selected {
        fill_rect(prev, w, 300, y - 18, 700, 62, 0x14263D)
    } else {
        prev
    };
    lemma_paint_at(prev.pixels, w, h, rect(300, y - 18, sat_add(300, 700), sat_add(y - 18, 62)), 0x14263D, a, b);
    let label = entry_label(j);
    lemma_paint_at(
        lit.pixels,
        w,
        h,
        |p: int, q: int| text_prefix_covers(label, label.len() as int, 350, y, 2, p, q),
        entry_color(j as int, selected),
        a,
        b,
    );
    if i < j {
        lemma_text_stays_in_box(entry_label(i as nat), 350, 220 + 105 * i, 2, a, b);
        lemma_entries_text_pixel(cv, w, h, selected, j, i, a, b);
        lemma_text_misses(lit, w, h, 350, y, label, entry_color(j as int, selected), 2, a, b);
    }
}

/// In the level list, the left end of entry `i`'s bar, pixel
/// `(300, 202 + 105 * i)`, has the bar colour exactly when entry `i` is
/// the selected one, and the background colour otherwise: only the
/// selected level is highlighted.
pub proof fn lemma_only_selected_entry_has_bar(cv: Canvas, w: nat, h: nat, selected: nat, i: int)
    requires
        cv.pixels.len() == w * h,
        300 < w,
        412 < h,
        0 <= i < 3,
    ensures
        0 <= (202 + 105 * i) * w + 300 < w * h,
        level_select_screen(cv, w, h, selected).pixels[(202 + 105 * i) * w + 300] == if i == selected {
            0x14263Du32
        } else {
            0x080B14u32
        },
{
    let (a, b) = (300int, 202 + 105 * i);
    lemma_index_in_frame(a, b, w as int, h as int);
    let c0 = fill_rect(cv, w, 0, 0, w as int, h as int, 0x080B14);
    lemma_paint_at(cv.pixels, w, h, rect(0, 0, sat_add(0, w as int), sat_add(0, h as int)), 0x080B14, a, b);
    let c1 = put_text(c0, w, 420, 90, "SELECCIONAR NIVEL"@, 0x4AFBFF, 3);
    lemma_text_misses(c0, w, h, 420, 90, "SELECCIONAR NIVEL"@, 0x4AFBFF, 3, a, b);
    let c2 = level_entries(c1, w, selected, 3);
    lemma_entries_bar_pixel(c1, w, h, selected, 3, i);
    lemma_entries_len(c1, w, selected, 3);
    let t3 = "TECLADO: 1/2/3   ARRIBA/ABAJO: D-PAD"@;
    let t4 = "ENTER / A: CONFIRMAR   B: VOLVER   ESC: SALIR"@;
    let t5 = "NIVEL 1: FACIL   NIVEL 2: MEDIO   NIVEL 3: DIFICIL"@;
    let c3 = put_text(c2, w, 360, 590, t3, 0xFFFFFF, 1);
    lemma_text_misses(c2, w, h, 360, 590, t3, 0xFFFFFF, 1, a, b);
    let c4 = put_text(c3, w, 360, 625, t4, 0xFFFFFF, 1);
    lemma_text_misses(c3, w, h, 360, 625, t4, 0xFFFFFF, 1, a, b);
    lemma_text_misses(c4, w, h, 360, 665, t5, 0xAAB7D4, 1, a, b);
}

/// In the level list, every pixel of entry `i`'s label, drawn at scale 2
/// with its top-left corner at `(350, 220 + 105 * i)`, ends up cyan when
/// entry `i` is the selected one and white otherwise.
pub proof fn lemma_entry_text_colour(cv: Canvas, w: nat, h: nat, selected: nat, i: int, a: int, b: int)
    requires
        cv.pixels.len() == w * h,
        0 <= a < w,
        0 <= b < h,
        0 <= i < 3,
        text_prefix_covers(entry_label(i as nat), entry_label(i as nat).len() as int, 350, 220 + 105 * i, 2, a, b),
    ensures
        0 <= b * w + a < w * h,
        level_select_screen(cv, w, h, selected).pixels[b * w + a] == if i == selected {
            0x4AFBFFu32
        } else {
            0xFFFFFFu32
        },
{
    lemma_index_in_frame(a, b, w as int, h as int);
    lemma_text_stays_in_box(entry_label(i as nat), 350, 220 + 105 * i, 2, a, b);
    let c0 = fill_rect(cv, w, 0, 0, w as int, h as int, 0x080B14);
    let c1 = put_text(c0, w, 420, 90, "SELECCIONAR NIVEL"@, 0x4AFBFF, 3);
    assert(c1.pixels.len() == w * h);
    let c2 = level_entries(c1, w, selected, 3);
    lemma_entries_text_pixel(c1, w, h, selected, 3, i, a, b);
    lemma_entries_len(c1, w, selected, 3);
    let t3 = "TECLADO: 1/2/3   ARRIBA/ABAJO: D-PAD"@;
    let t4 = "ENTER / A: CONFIRMAR   B: VOLVER   ESC: SALIR"@;
    let t5 = "NIVEL 1: FACIL   NIVEL 2: MEDIO   NIVEL 3: DIFICIL"@;
    let c3 = put_text(c2, w, 360, 590, t3, 0xFFFFFF, 1);
    lemma_text_misses(c2, w, h, 360, 590, t3, 0xFFFFFF, 1, a, b);
    let c4 = put_text(c3, w, 360, 625, t4, 0xFFFFFF, 1);
    lemma_text_misses(c3, w, h, 360, 625, t4, 0xFFFFFF, 1, a, b);
    lemma_text_misses(c4, w, h, 360, 665, t5, 0xAAB7D4, 1, a, b);
}

} // verus!
