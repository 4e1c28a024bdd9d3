use vstd::prelude::*;

verus! {

/// A maze: rows of cells, `maze[row][col]`.
pub type Maze = Vec<Vec<char>>;

/// The cells of a maze.
pub open spec fn grid(maze: &Maze) -> Seq<Seq<char>> {
    maze@.map_values(|row: Vec<char>| row@)
}

/// The cell at column `col` of row `row`, if the maze has one there.
pub open spec fn spec_cell_at(cells: Seq<Seq<char>>, col: int, row: int) -> Option<char> {
    if 0 <= row < cells.len() && 0 <= col < cells[row].len() {
        Some(cells[row][col])
    } else {
        None
    }
}

/// Whether a cell is a wall: `+`, `-` or `|`.
pub open spec fn is_wall_char(cell: char) -> bool {
    cell == '+' || cell == '-' || cell == '|'
}

/// Whether a cell is a wall: `+`, `-` or `|`.
pub fn is_wall_cell(cell: char) -> (wall: bool)
    ensures
        wall == is_wall_char(cell),
{
    cell == '+' || cell == '-' || cell == '|'
}

/// Why a maze file cannot be loaded.
#[derive(Clone, Copy, PartialEq, Eq, Structural, Debug)]
pub enum MazeError {
    /// Row `row` has `found` cells where the first row has `expected`.
    NotRectangular { row: usize, found: usize, expected: usize },
}

/// Whether `lines[row]` is the first line whose length differs from that of
/// the first line.
pub open spec fn first_ragged_row(lines: Seq<Seq<char>>, row: int) -> bool {
    &&& 0 < row < lines.len()
    &&& lines[row].len() != lines[0].len()
    &&& forall|i: int| 0 <= i < row ==> #[trigger] lines[i].len() == lines[0].len()
}

/// Whether all lines are as long as the first.
pub open spec fn rectangular(lines: Seq<Seq<char>>) -> bool {
    forall|i: int| 0 <= i < lines.len() ==> #[trigger] lines[i].len() == lines[0].len()
}

/// A line of a maze file with the player marker `p` turned into floor.
pub open spec fn clear_marker(line: Seq<char>) -> Seq<char> {
    line.map_values(|c: char| if c == 'p' { ' ' } else { c })
}

/// Whether `(col, row)` holds the last player marker of the lines, in
/// reading order.
pub open spec fn last_marker(lines: Seq<Seq<char>>, col: int, row: int) -> bool {
    &&& spec_cell_at(lines, col, row) == Some('p')
    &&& forall|c: int, r: int|
        #![trigger spec_cell_at(lines, c, r)]
        (r > row || (r == row && c > col)) ==> spec_cell_at(lines, c, r) != Some('p')
}

/// Whether the lines hold no player marker.
pub open spec fn no_marker(lines: Seq<Seq<char>>) -> bool {
    forall|c: int, r: int| #[trigger] spec_cell_at(lines, c, r) != Some('p')
}

/// Whether the player marker positions before `(col_end, row_end)` in
/// reading order lead to `spawn` as the last one seen, starting from
/// nothing.
pub open spec fn marker_prefix(lines: Seq<Seq<char>>, col_end: int, row_end: int, spawn: Option<(usize, usize)>) -> bool {
    match spawn {
        Some((c, r)) => {
            &&& (r < row_end || (r == row_end && c < col_end))
            &&& spec_cell_at(lines, c as int, r as int) == Some('p')
            &&& forall|c2: int, r2: int|
                #![trigger spec_cell_at(lines, c2, r2)]
                (r2 > r || (r2 == r && c2 > c)) && (r2 < row_end || (r2 == row_end && c2 < col_end))
                    ==> spec_cell_at(lines, c2, r2) != Some('p')
        },
        None => forall|c2: int, r2: int|
            #![trigger spec_cell_at(lines, c2, r2)]
            (r2 < row_end || (r2 == row_end && c2 < col_end)) ==> spec_cell_at(lines, c2, r2) != Some('p'),
    }
}

/// Reads a maze from the lines of a maze file: each character is a cell,
/// `p` marks where the player starts (the last one if there are several)
/// and becomes floor. All lines must be as long as the first.
/// Returns the cells and the player's starting cell `(col, row)`, if any.
pub fn load_maze(lines: &Vec<String>) -> (res: Result<(Maze, Option<(usize, usize)>), MazeError>)
    ensures
        match res {
            Ok((maze, spawn)) => {
                &&& rectangular(lines@.map_values(|l: String| l@))
                &&& grid(&maze) == lines@.map_values(|l: String| clear_marker(l@))
                &&& match spawn {
                    Some((col, row)) => last_marker(
                        lines@.map_values(|l: String| l@),
                        col as int,
                        row as int,
                    ),
                    None => no_marker(lines@.map_values(|l: String| l@)),
                }
            },
            Err(MazeError::NotRectangular { row, found, expected }) => {
                &&& first_ragged_row(lines@.map_values(|l: String| l@), row as int)
                &&& found == lines@[row as int]@.len()
                &&& expected == lines@[0]@.len()
            },
        },
{
    let ghost src = lines@.map_values(|l: String| l@);
    let mut maze: Maze = Vec::new();
    let mut spawn: Option<(usize, usize)> = None;
    let mut expected_width: Option<usize> = None;
    let n = lines.len();
    for row in 0..n
        invariant
            n == lines@.len(),
            src == lines@.map_values(|l: String| l@),
            maze@.len() == row,
            forall|i: int| 0 <= i < row ==> #[trigger] maze@[i]@ == clear_marker(src[i]),
            row == 0 <==> expected_width is None,
            expected_width matches Some(wd) ==> wd == src[0].len(),
            forall|i: int| 0 <= i < row ==> #[trigger] src[i].len() == src[0].len(),
            marker_prefix(src, 0, row as int, spawn),
    {
        let line = lines[row].as_str();
        let width = line.unicode_len();
        assert(line@ == src[row as int]);
        match expected_width {
            Some(expected) => {
                if width != expected {
                    return Err(MazeError::NotRectangular { row, found: width, expected });
                }
            },
            None => {
                expected_width = Some(width);
            },
        }
        let mut cells: Vec<char> = Vec::new();
        for col in 0..width
            invariant
                n == lines@.len(),
                src == lines@.map_values(|l: String| l@),
                0 <= row < n,
                line@ == src[row as int],
                width == line@.len(),
                cells@.len() == col,
                forall|j: int| 0 <= j < col ==> #[trigger] cells@[j] == clear_marker(src[row as int])[j],
                marker_prefix(src, col as int, row as int, spawn),
        {
            let character = line.get_char(col);
            if character == 'p' {
                spawn = Some((col, row));
                cells.push(' ');
            } else {
                cells.push(character);
            }
            assert(spec_cell_at(src, col as int, row as int) == Some(character));
        }
        assert(cells@ =~= clear_marker(src[row as int]));
        proof {
            assert(marker_prefix(src, 0, row + 1, spawn)) by {
                assert forall|c2: int, r2: int|
                    (r2 < row + 1 || (r2 == row + 1 && c2 < 0)) && !(r2 < row || (r2 == row && c2 < width))
                    implies #[trigger] spec_cell_at(src, c2, r2) != Some('p') by {
                }
            }
        }
        maze.push(cells);
    }
    proof {
        assert(grid(&maze) =~= lines@.map_values(|l: String| clear_marker(l@)));
        match spawn {
            Some((col, row)) => {
                assert forall|c: int, r: int| (r > row || (r == row && c > col)) implies #[trigger] spec_cell_at(src, c, r) != Some('p') by {
                    if r < n {
                    }
                }
            },
            None => {
                assert forall|c: int, r: int| #[trigger] spec_cell_at(src, c, r) != Some('p') by {
                    if 0 <= r < n {
                    }
                }
            },
        }
    }
    Ok((maze, spawn))
}

/// The cell at column `col` of row `row`, if the maze has one there.
pub fn cell_at(maze: &Maze, col: usize, row: usize) -> (cell: Option<char>)
    ensures
        cell == spec_cell_at(grid(maze), col as int, row as int),
{
    if row < maze.len() && col < maze[row].len() {
        Some(maze[row][col])
    } else {
        None
    }
}

/// Whether the cell `(col, row)` stops the player: a wall, or anywhere
/// outside the maze.
pub fn is_wall(maze: &Maze, col: usize, row: usize) -> (wall: bool)
    ensures
        wall == match spec_cell_at(grid(maze), col as int, row as int) {
            Some(cell) => is_wall_char(cell),
            None => true,
        },
{
    match cell_at(maze, col, row) {
        Some(cell) => is_wall_cell(cell),
        None => true,
    }
}

/// Whether the cell `(col, row)` is the goal `g`.
pub fn is_goal(maze: &Maze, col: usize, row: usize) -> (goal: bool)
    ensures
        goal == (spec_cell_at(grid(maze), col as int, row as int) == Some('g')),
{
    match cell_at(maze, col, row) {
        Some(cell) => cell == 'g',
        None => false,
    }
}

/// The pixel at the centre of cell `(col, row)` for cells of
/// `block_size` pixels (rounded down).
pub fn cell_center(col: usize, row: usize, block_size: usize) -> (p: (usize, usize))
    requires
        col * block_size + block_size / 2 <= usize::MAX,
        row * block_size + block_size / 2 <= usize::MAX,
    ensures
        p.0 == col * block_size + block_size / 2,
        p.1 == row * block_size + block_size / 2,
{
    (col * block_size + block_size / 2, row * block_size + block_size / 2)
}

/// A loaded maze holds no player marker, and the player starts on floor:
/// `cleared` is what `load_maze` makes of `lines`.
pub proof fn lemma_loaded_maze_is_clear(lines: Seq<Seq<char>>, cleared: Seq<Seq<char>>, col: int, row: int)
    requires
        cleared == lines.map_values(|l: Seq<char>| clear_marker(l)),
        last_marker(lines, col, row),
    ensures
        no_marker(cleared),
        spec_cell_at(cleared, col, row) == Some(' '),
{
    assert forall|c: int, r: int| #[trigger] spec_cell_at(cleared, c, r) != Some('p') by {
        if 0 <= r < cleared.len() && 0 <= c < cleared[r].len() {
            assert(cleared[r][c] == (if lines[r][c] == 'p' { ' ' } else { lines[r][c] }));
        }
    }
}

/// The goal is never a wall.
pub proof fn lemma_goal_is_not_wall(cell: char)
    requires
        cell == 'g',
    ensures
        !is_wall_char(cell),
{
}

} // verus!
