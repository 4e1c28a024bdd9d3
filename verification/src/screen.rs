use vstd::prelude::*;
use crate::framebuffer::{Canvas, Framebuffer};
use crate::game::{decimal, lemma_decimal_len, level_name, spec_level_name};
use crate::render::{draw_centered_panel, draw_rect, fill_rect, spec_centered_panel};
use crate::screens::{after_level_keys, entry_label, keys_prefix_selection, lemma_level_name_len};
use crate::text::{draw_text, lemma_small_text_fits, put_text};

verus! {

/// The plain welcome screen drawn over `cv`, for a frame `w` by `h`.
pub open spec fn welcome_screen(cv: Canvas, w: nat, h: nat) -> Canvas {
    let c = fill_rect(cv, w, 0, 0, w as int, h as int, 0x080B14);
    let c = put_text(c, w, 365, 245, "MAZE RUNNER"@, 0x4AFBFF, 4);
    let c = put_text(c, w, 410, 355, "RAY CASTING"@, 0xFFFFFF, 3);
    let c = put_text(c, w, 390, 485, "ENTER PARA CONTINUAR"@, 0xFFFFFF, 2);
    put_text(c, w, 425, 535, "WASD / MOUSE / CONTROL"@, 0xAAB7D4, 2)
}

/// Draws the plain welcome screen: title, subtitle and how to continue.
pub fn render_welcome(framebuffer: &mut Framebuffer)
    requires
        old(framebuffer).wf(),
    ensures
        final(framebuffer).wf(),
        final(framebuffer).same_frame(*old(framebuffer)),
        final(framebuffer).canvas() == welcome_screen(
            old(framebuffer).canvas(),
            old(framebuffer).width as nat,
            old(framebuffer).height as nat,
        ),
{
    let w = framebuffer.width;
    let h = framebuffer.height;
    draw_rect(framebuffer, 0, 0, w, h, 0x080B14);
    proof {
        reveal_strlit("MAZE RUNNER");
        reveal_strlit("RAY CASTING");
        reveal_strlit("ENTER PARA CONTINUAR");
        reveal_strlit("WASD / MOUSE / CONTROL");
        lemma_small_text_fits(365, 245, "MAZE RUNNER"@, 4);
        lemma_small_text_fits(410, 355, "RAY CASTING"@, 3);
        lemma_small_text_fits(390, 485, "ENTER PARA CONTINUAR"@, 2);
        lemma_small_text_fits(425, 535, "WASD / MOUSE / CONTROL"@, 2);
    }
    draw_text(framebuffer, 365, 245, "MAZE RUNNER", 0x4AFBFF, 4);
    draw_text(framebuffer, 410, 355, "RAY CASTING", 0xFFFFFF, 3);
    draw_text(framebuffer, 390, 485, "ENTER PARA CONTINUAR", 0xFFFFFF, 2);
    draw_text(framebuffer, 425, 535, "WASD / MOUSE / CONTROL", 0xAAB7D4, 2);
}

/// The canvas after drawing the first `n` entries of the seven-entry level
/// list, the selected one in cyan and the others in white.
pub open spec fn level_entries(cv: Canvas, w: nat, selected: nat, n: nat) -> Canvas
    decreases n,
{
    if n == 0 {
        cv
    } else {
        let i = (n - 1) as nat;
        put_text(
            level_entries(cv, w, selected, i),
            w,
            430,
            210 + (i as int) * 70,
            entry_label(i),
            if i == selected {
                0x4AFBFF
            } else {
                0xFFFFFF
            },
            2,
        )
    }
}

/// The seven-entry level selection screen drawn over `cv`.
pub open spec fn level_select_screen(cv: Canvas, w: nat, h: nat, selected: nat) -> Canvas {
    let c = fill_rect(cv, w, 0, 0, w as int, h as int, 0x080B14);
    let c = put_text(c, w, 420, 100, "SELECCIONAR NIVEL"@, 0x4AFBFF, 3);
    let c = level_entries(c, w, selected, 7);
    let c = put_text(c, w, 385, 730, "1-7 PARA ELEGIR  |  ENTER PARA JUGAR"@, 0xAAB7D4, 1);
    put_text(c, w, 520, 765, "ESC PARA SALIR"@, 0xAAB7D4, 1)
}

/// Draws a level list of seven entries with `selected` in cyan, and the
/// keys to use.
pub fn render_level_select(framebuffer: &mut Framebuffer, selected: usize)
    requires
        old(framebuffer).wf(),
    ensures
        final(framebuffer).wf(),
        final(framebuffer).same_frame(*old(framebuffer)),
        final(framebuffer).canvas() == level_select_screen(
            old(framebuffer).canvas(),
            old(framebuffer).width as nat,
            old(framebuffer).height as nat,
            selected as nat,
        ),
{
    let ghost w = framebuffer.width as nat;
    let fw = framebuffer.width;
    let fh = framebuffer.height;
    draw_rect(framebuffer, 0, 0, fw, fh, 0x080B14);
    proof {
        reveal_strlit("SELECCIONAR NIVEL");
        lemma_small_text_fits(420, 100, "SELECCIONAR NIVEL"@, 3);
    }
    draw_text(framebuffer, 420, 100, "SELECCIONAR NIVEL", 0x4AFBFF, 3);
    let ghost top = framebuffer.canvas();
    for i in 0..7usize
        invariant
            framebuffer.wf(),
            framebuffer.same_frame(*old(framebuffer)),
            w == framebuffer.width,
            framebuffer.canvas() == level_entries(top, w, selected as nat, i as nat),
    {
        let y = 210 + i * 70;
        let selected_color: u32 = if i == selected {
            0x4AFBFF
        } else {
            0xFFFFFF
        };
        let mut label = decimal(i + 1);
        label.append(" - ");
        let name = level_name(i);
        label.append(name.as_str());
        proof {
            reveal_strlit(" - ");
            lemma_decimal_len((i + 1) as nat);
            lemma_level_name_len(i as nat);
            lemma_small_text_fits(430, y as int, label@, 2);
        }
        draw_text(framebuffer, 430, y, label.as_str(), selected_color, 2);
    }
    proof {
        reveal_strlit("1-7 PARA ELEGIR  |  ENTER PARA JUGAR");
        reveal_strlit("ESC PARA SALIR");
        lemma_small_text_fits(385, 730, "1-7 PARA ELEGIR  |  ENTER PARA JUGAR"@, 1);
        lemma_small_text_fits(520, 765, "ESC PARA SALIR"@, 1);
    }
    draw_text(framebuffer, 385, 730, "1-7 PARA ELEGIR  |  ENTER PARA JUGAR", 0xAAB7D4, 1);
    draw_text(framebuffer, 520, 765, "ESC PARA SALIR", 0xAAB7D4, 1);
}

/// The plain screen shown when level `level` is completed.
pub open spec fn success_screen(cv: Canvas, w: nat, h: nat, level: nat) -> Canvas {
    spec_centered_panel(
        fill_rect(cv, w, 0, 0, w as int, h as int, 0x07120E),
        w,
        "NIVEL COMPLETADO"@,
        seq![spec_level_name(level) + " SUPERADO"@, "ENTER - SIGUIENTE NIVEL"@, "ESC - SALIR"@],
    )
}

/// Draws the screen that says level `level` is completed, with the keys to
/// go on or quit.
pub fn render_success(framebuffer: &mut Framebuffer, level: usize)
    requires
        old(framebuffer).wf(),
        level < usize::MAX,
    ensures
        final(framebuffer).wf(),
        final(framebuffer).same_frame(*old(framebuffer)),
        final(framebuffer).canvas() == success_screen(
            old(framebuffer).canvas(),
            old(framebuffer).width as nat,
            old(framebuffer).height as nat,
            level as nat,
        ),
{
    let fw = framebuffer.width;
    let fh = framebuffer.height;
    draw_rect(framebuffer, 0, 0, fw, fh, 0x07120E);
    let mut first = level_name(level);
    first.append(" SUPERADO");
    let lines: [&str; 3] = [first.as_str(), "ENTER - SIGUIENTE NIVEL", "ESC - SALIR"];
    proof {
        reveal_strlit(" SUPERADO");
        reveal_strlit("NIVEL COMPLETADO");
        reveal_strlit("ENTER - SIGUIENTE NIVEL");
        reveal_strlit("ESC - SALIR");
        lemma_level_name_len(level as nat);
        let views = lines@.map_values(|l: &str| l@);
        assert(views =~= seq![
            spec_level_name(level as nat) + " SUPERADO"@,
            "ENTER - SIGUIENTE NIVEL"@,
            "ESC - SALIR"@,
        ]);
        lemma_small_text_fits(390, 275, "NIVEL COMPLETADO"@, 3);
        lemma_small_text_fits(390, 360, views[0], 2);
        lemma_small_text_fits(390, 410, views[1], 2);
        lemma_small_text_fits(390, 460, views[2], 2);
    }
    draw_centered_panel(framebuffer, "NIVEL COMPLETADO", &lines);
}

/// Selects a level with the number keys: `key_pressed[i]` tells whether
/// the key for level `i + 1` was pressed; the last one pressed wins.
pub fn update_level_selection(key_pressed: [bool; 3], selected: &mut usize)
    ensures
        *final(selected) == after_level_keys(*old(selected) as nat, key_pressed@),
{
    for index in 0..3usize
        invariant
            *selected == keys_prefix_selection(*old(selected) as nat, key_pressed@, index as nat),
    {
        if key_pressed[index] {
            *selected = index;
        }
    }
    assert(*selected == after_level_keys(*old(selected) as nat, key_pressed@)) by {
        reveal_with_fuel(keys_prefix_selection, 4);
    }
}

} // verus!
