use vstd::prelude::*;
use crate::maze::{grid, Maze};
use crate::game::{decimal, lemma_decimal_len, spec_decimal};
use crate::text::{draw_text, put_text, text_fits, text_prefix_covers};
use crate::framebuffer::{
    lemma_paint_same_inside, lemma_paint_union, paint, rect, sat_add, single, Canvas, Framebuffer,
};

verus! {

/// Side of a maze cell, in pixels.
pub const BLOCK_SIZE: usize = 20;

/// Width of the window, in pixels.
pub const WINDOW_WIDTH: usize = 1300;

/// Height of the window, in pixels.
pub const WINDOW_HEIGHT: usize = 900;

/// Number of rays cast for the 3D view, one per column.
pub const NUM_RAYS: usize = 1300;

/// Number of rays drawn in the 2D view.
pub const NUM_2D_RAYS: usize = 15;

/// The canvas after filling the rectangle at `(x0, y0)` of the given size
/// (its far edges saturating at `usize::MAX`) with `color`; the pen becomes
/// `color`.
pub open spec fn fill_rect(
    cv: Canvas,
    w: nat,
    x0: int,
    y0: int,
    width: int,
    height: int,
    color: u32,
) -> Canvas {
    Canvas {
        pixels: paint(cv.pixels, w, rect(x0, y0, sat_add(x0, width), sat_add(y0, height)), color),
        pen: color,
    }
}

/// Fills the rectangle at `(x0, y0)` of the given size with `color`,
/// clipped to the frame, and leaves `color` as the current colour.
pub fn draw_rect(
    framebuffer: &mut Framebuffer,
    x0: usize,
    y0: usize,
    width: usize,
    height: usize,
    color: u32,
)
    requires
        old(framebuffer).wf(),
    ensures
        final(framebuffer).wf(),
        final(framebuffer).same_frame(*old(framebuffer)),
        final(framebuffer).canvas() == fill_rect(
            old(framebuffer).canvas(),
            old(framebuffer).width as nat,
            x0 as int,
            y0 as int,
            width as int,
            height as int,
            color,
        ),
{
    framebuffer.set_current_color(color);
    let ghost start = framebuffer.buffer@;
    let ghost w = framebuffer.width as nat;
    let ghost h = framebuffer.height as nat;
    let x1 = x0.saturating_add(width).min(framebuffer.width);
    let y1 = y0.saturating_add(height).min(framebuffer.height);
    let xs = x0.min(framebuffer.width);
    let ys = y0.min(framebuffer.height);
    assert(framebuffer.buffer@ =~= paint(start, w, rect(xs as int, ys as int, x1 as int, ys as int), color));
    for y in ys..y1
        invariant
            framebuffer.wf(),
            framebuffer.same_frame(*old(framebuffer)),
            framebuffer.current_color == color,
            w == framebuffer.width,
            h == framebuffer.height,
            start.len() == w * h,
            xs <= x1,
            framebuffer.buffer@ == paint(start, w, rect(xs as int, ys as int, x1 as int, y as int), color),
    {
        let ghost before = framebuffer.buffer@;
        assert(framebuffer.buffer@ =~= paint(
            start,
            w,
            |a: int, b: int| rect(xs as int, ys as int, x1 as int, y as int)(a, b) || rect(xs as int, y as int, xs as int, y + 1)(a, b),
            color,
        ));
        for x in xs..x1
            invariant
                framebuffer.wf(),
                framebuffer.same_frame(*old(framebuffer)),
                framebuffer.current_color == color,
                w == framebuffer.width,
                h == framebuffer.height,
                start.len() == w * h,
                framebuffer.buffer@ == paint(
                    start,
                    w,
                    |a: int, b: int| rect(xs as int, ys as int, x1 as int, y as int)(a, b) || rect(xs as int, y as int, x as int, y + 1)(a, b),
                    color,
                ),
        {
            let ghost prev = framebuffer.buffer@;
            framebuffer.point(x, y);
            proof {
                let r = |a: int, b: int| rect(xs as int, ys as int, x1 as int, y as int)(a, b) || rect(xs as int, y as int, x as int, y + 1)(a, b);
                lemma_paint_union(start, w, r, single(x as int, y as int), color);
                assert(framebuffer.buffer@ =~= paint(
                    start,
                    w,
                    |a: int, b: int| rect(xs as int, ys as int, x1 as int, y as int)(a, b) || rect(xs as int, y as int, x + 1, y + 1)(a, b),
                    color,
                ));
            }
        }
        assert(framebuffer.buffer@ =~= paint(start, w, rect(xs as int, ys as int, x1 as int, y + 1), color));
    }
    proof {
        lemma_paint_same_inside(
            start,
            w,
            h,
            rect(xs as int, ys as int, x1 as int, y1 as int),
            rect(x0 as int, y0 as int, sat_add(x0 as int, width as int), sat_add(y0 as int, height as int)),
            color,
        );
    }
}

/// Sets pixel `(x, y)` to the current colour when both coordinates are
/// non-negative and inside the frame.
pub fn plot(framebuffer: &mut Framebuffer, x: i32, y: i32)
    requires
        old(framebuffer).wf(),
    ensures
        final(framebuffer).wf(),
        final(framebuffer).same_frame(*old(framebuffer)),
        final(framebuffer).current_color == old(framebuffer).current_color,
        final(framebuffer).buffer@ == paint(
            old(framebuffer).buffer@,
            old(framebuffer).width as nat,
            single(x as int, y as int),
            old(framebuffer).current_color,
        ),
{
    if x >= 0 && y >= 0 {
        framebuffer.point(x as usize, y as usize);
    } else {
        proof {
            crate::framebuffer::lemma_paint_point(
                framebuffer.buffer@,
                framebuffer.width as nat,
                framebuffer.height as nat,
                x as int,
                y as int,
                framebuffer.current_color,
            );
        }
    }
}

/// The colour of a maze cell in the 2D view and the minimap.
pub open spec fn spec_cell_color(cell: char) -> u32 {
    if cell == '+' {
        0x4AFBFF
    } else if cell == '-' {
        0x9B59FF
    } else if cell == '|' {
        0x1685FF
    } else if cell == 'g' || cell == 'G' {
        0x16C172
    } else {
        0x202840
    }
}

/// The colour of a maze cell: cyan, purple and blue walls, green goals and
/// a dark floor for anything else.
pub fn cell_color(cell: char) -> (c: u32)
    ensures
        c == spec_cell_color(cell),
{
    match cell {
        '+' => 0x4AFBFF,
        '-' => 0x9B59FF,
        '|' => 0x1685FF,
        'g' | 'G' => 0x16C172,
        _ => 0x202840,
    }
}

/// The canvas after drawing the cell `cell` as a block at `(x, y)`: a space
/// draws nothing.
pub open spec fn spec_draw_cell(cv: Canvas, w: nat, x: int, y: int, cell: char) -> Canvas {
    if cell != ' ' {
        fill_rect(cv, w, x, y, BLOCK_SIZE as int, BLOCK_SIZE as int, spec_cell_color(cell))
    } else {
        cv
    }
}

/// Draws a maze cell as a `BLOCK_SIZE` square in its colour, unless it is
/// a space.
pub fn draw_cell(framebuffer: &mut Framebuffer, x: usize, y: usize, cell: char)
    requires
        old(framebuffer).wf(),
    ensures
        final(framebuffer).wf(),
        final(framebuffer).same_frame(*old(framebuffer)),
        final(framebuffer).canvas() == spec_draw_cell(
            old(framebuffer).canvas(),
            old(framebuffer).width as nat,
            x as int,
            y as int,
            cell,
        ),
{
    if cell != ' ' {
        let c = cell_color(cell);
        draw_rect(framebuffer, x, y, BLOCK_SIZE, BLOCK_SIZE, c);
    }
}

/// The label of the frame counter.
pub open spec fn fps_label(fps: nat) -> Seq<char> {
    "FPS "@ + spec_decimal(fps)
}

/// The canvas after drawing the frame counter.
pub open spec fn spec_draw_fps(cv: Canvas, w: nat, fps: nat) -> Canvas {
    put_text(fill_rect(cv, w, 12, 12, 130, 30, 0x101522), w, 20, 19, fps_label(fps), 0xFFFFFF, 2)
}

/// Draws "FPS" and the frame rate on a dark box in the top-left corner.
pub fn draw_fps(framebuffer: &mut Framebuffer, fps: u32)
    requires
        old(framebuffer).wf(),
    ensures
        final(framebuffer).wf(),
        final(framebuffer).same_frame(*old(framebuffer)),
        final(framebuffer).canvas() == spec_draw_fps(
            old(framebuffer).canvas(),
            old(framebuffer).width as nat,
            fps as nat,
        ),
{
    draw_rect(framebuffer, 12, 12, 130, 30, 0x101522);
    let mut label = String::from_str("FPS ");
    let number = decimal(fps as usize);
    label.append(number.as_str());
    proof {
        reveal_strlit("FPS ");
        lemma_decimal_len(fps as nat);
        assert(label@.len() <= 24);
    }
    let text = label.as_str();
    assert(text@ == fps_label(fps as nat));
    assert(text@.len() <= 24);
    assert(18 * text@.len() <= 432);
    assert(9 * 2 * text@.len() <= 432);
    draw_text(framebuffer, 20, 19, text, 0xFFFFFF, 2);
}

/// The canvas after drawing the lines of a panel, the first `n` of them.
pub open spec fn panel_lines(cv: Canvas, w: nat, lines: Seq<Seq<char>>, n: nat) -> Canvas
    decreases n,
{
    if n == 0 {
        cv
    } else {
        put_text(
            panel_lines(cv, w, lines, (n - 1) as nat),
            w,
            390,
            360 + (n - 1) * 50,
            lines[n - 1],
            0xFFFFFF,
            2,
        )
    }
}

/// The canvas after drawing a centred panel: a dark box, a cyan title and
/// white lines 50 pixels apart.
pub open spec fn spec_centered_panel(cv: Canvas, w: nat, title: Seq<char>, lines: Seq<Seq<char>>) -> Canvas {
    panel_lines(
        put_text(fill_rect(cv, w, 260, 220, 780, 460, 0x101522), w, 390, 275, title, 0x4AFBFF, 3),
        w,
        lines,
        lines.len(),
    )
}

/// Whether a panel with this title and these lines can be drawn without
/// leaving `usize`.
pub open spec fn panel_fits(title: Seq<char>, lines: Seq<Seq<char>>) -> bool {
    &&& text_fits(390, 275, title, 3)
    &&& 360 + 50 * lines.len() <= usize::MAX
    &&& forall|i: int| 0 <= i < lines.len() ==> text_fits(390, 360 + 50 * i, #[trigger] lines[i], 2)
}

/// Draws a dark panel in the middle of the window with `title` in cyan and
/// `lines` below it in white.
pub fn draw_centered_panel(framebuffer: &mut Framebuffer, title: &str, lines: &[&str])
    requires
        old(framebuffer).wf(),
        panel_fits(title@, lines@.map_values(|l: &str| l@)),
    ensures
        final(framebuffer).wf(),
        final(framebuffer).same_frame(*old(framebuffer)),
        final(framebuffer).canvas() == spec_centered_panel(
            old(framebuffer).canvas(),
            old(framebuffer).width as nat,
            title@,
            lines@.map_values(|l: &str| l@),
        ),
{
    let ghost views = lines@.map_values(|l: &str| l@);
    let ghost w = framebuffer.width as nat;
    draw_rect(framebuffer, 260, 220, 780, 460, 0x101522);
    draw_text(framebuffer, 390, 275, title, 0x4AFBFF, 3);
    let ghost top = framebuffer.canvas();
    let n = lines.len();
    for i in 0..n
        invariant
            framebuffer.wf(),
            framebuffer.same_frame(*old(framebuffer)),
            w == framebuffer.width,
            n == lines@.len(),
            views == lines@.map_values(|l: &str| l@),
            panel_fits(title@, views),
            framebuffer.canvas() == panel_lines(top, w, views, i as nat),
    {
        let line = lines[i];
        assert(line@ == views[i as int]);
        assert(text_fits(390, 360 + 50 * i, views[i as int], 2));
        draw_text(framebuffer, 390, 360 + i * 50, line, 0xFFFFFF, 2);
    }
}

/// The canvas after drawing the button that switches between the 2D and
/// 3D views.
pub open spec fn spec_view_button(cv: Canvas, w: nat) -> Canvas {
    put_text(fill_rect(cv, w, 1030, 850, 250, 36, 0x101522), w, 1042, 858, "V / CLICK VISTA"@, 0xFFFFFF, 1)
}

/// Draws the button that switches between the 2D and 3D views.
pub fn draw_view_button(framebuffer: &mut Framebuffer)
    requires
        old(framebuffer).wf(),
    ensures
        final(framebuffer).wf(),
        final(framebuffer).same_frame(*old(framebuffer)),
        final(framebuffer).canvas() == spec_view_button(
            old(framebuffer).canvas(),
            old(framebuffer).width as nat,
        ),
{
    draw_rect(framebuffer, 1030, 850, 250, 36, 0x101522);
    proof {
        reveal_strlit("V / CLICK VISTA");
    }
    draw_text(framebuffer, 1042, 858, "V / CLICK VISTA", 0xFFFFFF, 1);
}

/// Whether pixel `(a, b)` lies in the disc of radius `r` around
/// `(cx, cy)`: within `r` on both axes and at most `r` away.
pub open spec fn in_disc(cx: int, cy: int, r: int, a: int, b: int) -> bool {
    &&& -r <= a - cx <= r
    &&& -r <= b - cy <= r
    &&& (a - cx) * (a - cx) + (b - cy) * (b - cy) <= r * r
}

/// Whether the disc pixels before column offset `dx_end`, row offset
/// `dy_end` (offsets from the centre, column by column) contain `(a, b)`.
pub open spec fn disc_prefix(cx: int, cy: int, r: int, dx_end: int, dy_end: int, a: int, b: int) -> bool {
    &&& in_disc(cx, cy, r, a, b)
    &&& (a - cx < dx_end || (a - cx == dx_end && b - cy < dy_end))
}

/// Plots, in the current colour, every pixel of the disc of radius
/// `radius` around `(cx, cy)` that lies in the frame.
pub fn draw_disc(framebuffer: &mut Framebuffer, cx: i32, cy: i32, radius: i32)
    requires
        old(framebuffer).wf(),
        radius > i32::MIN,
        radius >= 0 ==> {
            &&& radius <= 32767
            &&& i32::MIN <= cx - radius
            &&& cx + radius <= i32::MAX
            &&& i32::MIN <= cy - radius
            &&& cy + radius <= i32::MAX
        },
    ensures
        final(framebuffer).wf(),
        final(framebuffer).same_frame(*old(framebuffer)),
        final(framebuffer).current_color == old(framebuffer).current_color,
        final(framebuffer).buffer@ == paint(
            old(framebuffer).buffer@,
            old(framebuffer).width as nat,
            |a: int, b: int| in_disc(cx as int, cy as int, radius as int, a, b),
            old(framebuffer).current_color,
        ),
{
    let ghost start = framebuffer.buffer@;
    let ghost w = framebuffer.width as nat;
    let ghost pen = framebuffer.current_color;
    let ghost (gx, gy, gr) = (cx as int, cy as int, radius as int);
    if radius < 0 {
        assert(paint(start, w, |a: int, b: int| in_disc(gx, gy, gr, a, b), pen) =~= start);
        return;
    }
    let mut dx = -radius;
    assert(framebuffer.buffer@ =~= paint(start, w, |a: int, b: int| disc_prefix(gx, gy, gr, dx as int, -gr, a, b), pen));
    while dx <= radius
        invariant
            framebuffer.wf(),
            framebuffer.same_frame(*old(framebuffer)),
            framebuffer.current_color == pen,
            w == framebuffer.width,
            gx == cx,
            gy == cy,
            gr == radius,
            0 <= radius <= 32767,
            i32::MIN <= cx - radius,
            cx + radius <= i32::MAX,
            i32::MIN <= cy - radius,
            cy + radius <= i32::MAX,
            -radius <= dx <= radius + 1,
            framebuffer.buffer@ == paint(start, w, |a: int, b: int| disc_prefix(gx, gy, gr, dx as int, -gr, a, b), pen),
        decreases radius + 1 - dx,
    {
        let mut dy = -radius;
        while dy <= radius
            invariant
                framebuffer.wf(),
                framebuffer.same_frame(*old(framebuffer)),
                framebuffer.current_color == pen,
                w == framebuffer.width,
                gx == cx,
                gy == cy,
                gr == radius,
                0 <= radius <= 32767,
                i32::MIN <= cx - radius,
                cx + radius <= i32::MAX,
                i32::MIN <= cy - radius,
                cy + radius <= i32::MAX,
                -radius <= dx <= radius,
                -radius <= dy <= radius + 1,
                framebuffer.buffer@ == paint(start, w, |a: int, b: int| disc_prefix(gx, gy, gr, dx as int, dy as int, a, b), pen),
            decreases radius + 1 - dy,
        {
            assert(0 <= dx * dx <= radius * radius) by (nonlinear_arith)
                requires
                    -radius <= dx <= radius,
            ;
            assert(0 <= dy * dy <= radius * radius) by (nonlinear_arith)
                requires
                    -radius <= dy <= radius,
            ;
            assert(radius * radius <= 1073676289) by (nonlinear_arith)
                requires
                    0 <= radius <= 32767,
            ;
            let inside = dx * dx + dy * dy <= radius * radius;
            let ghost prev = |a: int, b: int| disc_prefix(gx, gy, gr, dx as int, dy as int, a, b);
            let ghost next = |a: int, b: int| disc_prefix(gx, gy, gr, dx as int, dy + 1, a, b);
            if inside {
                plot(framebuffer, cx + dx, cy + dy);
                proof {
                    lemma_paint_union(start, w, prev, single(gx + dx, gy + dy), pen);
                    assert forall|a: int, b: int| #[trigger] next(a, b) == (prev(a, b) || single(gx + dx, gy + dy)(a, b)) by {
                        if a == gx + dx && b == gy + dy {
                            assert(a - gx == dx && b - gy == dy);
                        }
                    }
                    assert(framebuffer.buffer@ =~= paint(start, w, next, pen));
                }
            } else {
                proof {
                    assert forall|a: int, b: int| #[trigger] next(a, b) == prev(a, b) by {
                        if a - gx == dx && b - gy == dy {
                            assert(a == gx + dx && b == gy + dy);
                        }
                    }
                    assert(framebuffer.buffer@ =~= paint(start, w, next, pen));
                }
            }
            dy = dy + 1;
        }
        proof {
            let prev = |a: int, b: int| disc_prefix(gx, gy, gr, dx as int, gr + 1, a, b);
            let next = |a: int, b: int| disc_prefix(gx, gy, gr, dx + 1, -gr, a, b);
            assert forall|a: int, b: int| #[trigger] next(a, b) == prev(a, b) by {}
            assert(framebuffer.buffer@ =~= paint(start, w, next, pen));
        }
        dx = dx + 1;
    }
    proof {
        let prev = |a: int, b: int| disc_prefix(gx, gy, gr, gr + 1, -gr, a, b);
        let full = |a: int, b: int| in_disc(gx, gy, gr, a, b);
        assert forall|a: int, b: int| #[trigger] full(a, b) == prev(a, b) by {}
        assert(framebuffer.buffer@ =~= paint(start, w, full, pen));
    }
}

/// The canvas after drawing the first `n` cells of a maze row as blocks
/// from the left edge, at height `y`.
pub open spec fn row_cells(cv: Canvas, w: nat, line: Seq<char>, y: int, n: nat) -> Canvas
    decreases n,
{
    if n == 0 {
        cv
    } else {
        spec_draw_cell(
            row_cells(cv, w, line, y, (n - 1) as nat),
            w,
            (n - 1) * BLOCK_SIZE,
            y,
            line[n - 1],
        )
    }
}

/// The canvas after drawing the first `n` rows of a maze as blocks, the
/// first row `offset` pixels from the top.
pub open spec fn maze_cells(cv: Canvas, w: nat, cells: Seq<Seq<char>>, offset: int, n: nat) -> Canvas
    decreases n,
{
    if n == 0 {
        cv
    } else {
        let r = (n - 1) as nat;
        row_cells(
            maze_cells(cv, w, cells, offset, r),
            w,
            cells[r as int],
            r * BLOCK_SIZE + offset,
            cells[r as int].len(),
        )
    }
}

/// The gap left above a maze of `rows` rows to centre it in the window.
pub open spec fn maze_offset(rows: nat) -> int {
    let height = rows * BLOCK_SIZE;
    if height >= WINDOW_HEIGHT {
        0
    } else {
        (WINDOW_HEIGHT - height) / 2
    }
}

/// Draws every cell of the maze as a block in its colour (spaces stay
/// undrawn), centred vertically in the window. Returns the gap above the
/// maze.
pub fn draw_maze_cells(framebuffer: &mut Framebuffer, maze: &Maze) -> (offset_y: usize)
    requires
        old(framebuffer).wf(),
        maze@.len() * BLOCK_SIZE + WINDOW_HEIGHT <= usize::MAX,
        forall|r: int| 0 <= r < maze@.len() ==> #[trigger] maze@[r]@.len() * BLOCK_SIZE <= usize::MAX,
    ensures
        offset_y == maze_offset(maze@.len()),
        final(framebuffer).wf(),
        final(framebuffer).same_frame(*old(framebuffer)),
        final(framebuffer).canvas() == maze_cells(
            old(framebuffer).canvas(),
            old(framebuffer).width as nat,
            grid(maze),
            offset_y as int,
            maze@.len(),
        ),
{
    let ghost cv0 = framebuffer.canvas();
    let ghost w = framebuffer.width as nat;
    let ghost cells = grid(maze);
    let map_height = maze.len() * BLOCK_SIZE;
    let offset_y = WINDOW_HEIGHT.saturating_sub(map_height) / 2;
    let rows = maze.len();
    for row in 0..rows
        invariant
            framebuffer.wf(),
            framebuffer.same_frame(*old(framebuffer)),
            w == framebuffer.width,
            rows == maze@.len(),
            cells == grid(maze),
            offset_y <= WINDOW_HEIGHT,
            maze@.len() * BLOCK_SIZE + WINDOW_HEIGHT <= usize::MAX,
            forall|r: int| 0 <= r < maze@.len() ==> #[trigger] maze@[r]@.len() * BLOCK_SIZE <= usize::MAX,
            framebuffer.canvas() == maze_cells(cv0, w, cells, offset_y as int, row as nat),
    {
        let line = &maze[row];
        let cols = line.len();
        let y = row * BLOCK_SIZE + offset_y;
        let ghost before = framebuffer.canvas();
        assert(line@ == cells[row as int]);
        for col in 0..cols
            invariant
                framebuffer.wf(),
                framebuffer.same_frame(*old(framebuffer)),
                w == framebuffer.width,
                cols == line@.len(),
                cols * BLOCK_SIZE <= usize::MAX,
                framebuffer.canvas() == row_cells(before, w, line@, y as int, col as nat),
        {
            draw_cell(framebuffer, col * BLOCK_SIZE, y, line[col]);
        }
    }
    offset_y
}

/// Filling the same rectangle twice with the same colour is the same as
/// filling it once.
pub proof fn lemma_fill_rect_idempotent(
    cv: Canvas,
    w: nat,
    x0: int,
    y0: int,
    width: int,
    height: int,
    color: u32,
)
    ensures
        fill_rect(fill_rect(cv, w, x0, y0, width, height, color), w, x0, y0, width, height, color)
            == fill_rect(cv, w, x0, y0, width, height, color),
{
    crate::framebuffer::lemma_paint_idempotent(
        cv.pixels,
        w,
        rect(x0, y0, sat_add(x0, width), sat_add(y0, height)),
        color,
    );
}

/// Drawing panel lines keeps the number of pixels.
proof fn lemma_panel_lines_len(cv: Canvas, w: nat, lines: Seq<Seq<char>>, n: nat)
    ensures
        panel_lines(cv, w, lines, n).pixels.len() == cv.pixels.len(),
    decreases n,
{
    if n > 0 {
        lemma_panel_lines_len(cv, w, lines, (n - 1) as nat);
    }
}

/// Once line `i` is drawn, its pixels stay white while later lines are
/// drawn.
proof fn lemma_panel_lines_white(
    cv: Canvas,
    w: nat,
    h: nat,
    lines: Seq<Seq<char>>,
    n: nat,
    i: int,
    a: int,
    b: int,
)
    requires
        cv.pixels.len() == w * h,
        0 <= a < w,
        0 <= b < h,
        0 <= i < n,
        text_prefix_covers(lines[i], lines[i].len() as int, 390, 360 + 50 * i, 2, a, b),
    ensures
        panel_lines(cv, w, lines, n).pixels[b * w + a] == 0xFFFFFF,
    decreases n,
{
    let prev = panel_lines(cv, w, lines, (n - 1) as nat);
    lemma_panel_lines_len(cv, w, lines, (n - 1) as nat);
    let line = lines[n - 1];
    crate::framebuffer::lemma_paint_at(
        prev.pixels,
        w,
        h,
        |x: int, y: int| text_prefix_covers(line, line.len() as int, 390, 360 + (n - 1) * 50, 2, x, y),
        0xFFFFFF,
        a,
        b,
    );
    if i < n - 1 {
        lemma_panel_lines_white(cv, w, h, lines, (n - 1) as nat, i, a, b);
    } else {
        assert(360 + (n - 1) * 50 == 360 + 50 * i);
    }
}

/// Every pixel of the text of panel line `i`, drawn at scale 2 with its
/// top-left corner at `(390, 360 + 50 * i)`, ends up white in the panel.
pub proof fn lemma_panel_line_is_white(
    cv: Canvas,
    w: nat,
    h: nat,
    title: Seq<char>,
    lines: Seq<Seq<char>>,
    i: int,
    a: int,
    b: int,
)
    requires
        cv.pixels.len() == w * h,
        0 <= a < w,
        0 <= b < h,
        0 <= i < lines.len(),
        text_prefix_covers(lines[i], lines[i].len() as int, 390, 360 + 50 * i, 2, a, b),
    ensures
        0 <= b * w + a < w * h,
        spec_centered_panel(cv, w, title, lines).pixels[b * w + a] == 0xFFFFFF,
{
    crate::framebuffer::lemma_index_in_frame(a, b, w as int, h as int);
    let top = put_text(fill_rect(cv, w, 260, 220, 780, 460, 0x101522), w, 390, 275, title, 0x4AFBFF, 3);
    assert(top.pixels.len() == w * h);
    lemma_panel_lines_white(top, w, h, lines, lines.len(), i, a, b);
}

} // verus!
