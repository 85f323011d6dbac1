use vstd::prelude::*;

use crate::rules::{top_row, ObstacleCell, GROUND_ROW, HEIGHT, MAX_JUMPS, PLAYER_X, WIDTH};
use crate::text::{
    is_white_space,
    append_str, decimal, decimal_chars, pad_left, pad_left_chars, string_from_chars, trim_end,
    trim_end_chars,
};

verus! {

/// What one frame shows, as plain values: the dragon's row and used jumps,
/// where each obstacle stands, the score, the scroll speed already written
/// out as text, and whether the game is over.
pub struct FrameView {
    pub dragon_row: usize,
    pub jumps_used: u8,
    pub obstacles: Vec<ObstacleCell>,
    pub score: u32,
    pub speed_text: String,
    pub game_over: bool,
}

/// The first line of every frame.
pub open spec fn title_line() -> Seq<char> {
    "Side-Scrolling Dragon  |  SPACE: jump  Q: quit  R: restart"@
}

/// The line shown under the playfield once the game is over.
pub open spec fn game_over_line() -> Seq<char> {
    "Game Over! Press R to play again."@
}

/// Jumps still available when `jumps_used` are used (never below zero).
pub open spec fn jumps_left(jumps_used: u8) -> nat {
    if jumps_used < MAX_JUMPS {
        (MAX_JUMPS - jumps_used) as nat
    } else {
        0
    }
}

/// The status line: the score right-aligned in three columns, the jumps
/// left and the speed text, without trailing white space.
pub open spec fn status_line(score: u32, jumps_used: u8, speed_text: Seq<char>) -> Seq<char> {
    trim_end(
        "Score: "@ + pad_left(decimal(score as nat), 3) + "  Jumps Left: "@ + decimal(
            jumps_left(jumps_used),
        ) + "  Speed: "@ + speed_text + seq!['\n'],
    )
}

/// The border above and below the playfield.
pub open spec fn border_line() -> Seq<char> {
    seq!['+'] + Seq::new(WIDTH as nat, |i: int| '-') + seq!['+']
}

/// The empty playfield: two ground rows under the ground row, and two rows
/// of stars in the sky.
pub open spec fn background_cell(row: int, col: int) -> char {
    if row == GROUND_ROW + 1 || row == GROUND_ROW + 2 {
        '='
    } else if row == 2 && col % 9 == 0 {
        '.'
    } else if row == 4 && col % 13 == 4 {
        '.'
    } else {
        ' '
    }
}

/// The obstacle is drawn on the cell: it is inside the playfield's columns,
/// in this column, and the row lies between its top and the ground row.
pub open spec fn covers(obstacle: ObstacleCell, row: int, col: int) -> bool {
    &&& obstacle.height > 0
    &&& 0 <= obstacle.col < WIDTH
    &&& obstacle.col == col
    &&& top_row(obstacle.height) <= row <= GROUND_ROW
}

/// The cell with the first `count` obstacles drawn over the background.
pub open spec fn scenery_cell(obstacles: Seq<ObstacleCell>, count: int, row: int, col: int) -> char {
    if exists|j: int| 0 <= j < count && covers(#[trigger] obstacles[j], row, col) {
        '#'
    } else {
        background_cell(row, col)
    }
}

/// The dragon's body: `&` once both jumps are used, `@` otherwise.
pub open spec fn dragon_sprite(jumps_used: u8) -> char {
    if jumps_used == 2 {
        '&'
    } else {
        '@'
    }
}

/// The part of the dragon drawn on the cell, if any: body in its column,
/// head above it, `<` before it, `>` and `~` after it.
pub open spec fn dragon_part(dragon_row: int, jumps_used: u8, row: int, col: int) -> Option<char> {
    if row == dragon_row && col == PLAYER_X {
        Some(dragon_sprite(jumps_used))
    } else if row == dragon_row - 1 && col == PLAYER_X {
        Some('^')
    } else if row == dragon_row && col == PLAYER_X - 1 {
        Some('<')
    } else if row == dragon_row && col == PLAYER_X + 1 {
        Some('>')
    } else if row == dragon_row && col == PLAYER_X + 2 {
        Some('~')
    } else {
        None
    }
}

/// The character of a playfield cell: the dragon over the obstacles over the background.
pub open spec fn playfield_cell(view: &FrameView, row: int, col: int) -> char {
    match dragon_part(view.dragon_row as int, view.jumps_used, row, col) {
        Some(c) => c,
        None => scenery_cell(view.obstacles@, view.obstacles@.len() as int, row, col),
    }
}

/// One playfield row between two `|`.
pub open spec fn playfield_line(view: &FrameView, row: int) -> Seq<char> {
    seq!['|'] + Seq::new(WIDTH as nat, |col: int| playfield_cell(view, row, col)) + seq!['|']
}

/// All lines of the frame: title, status, border, the playfield rows, border,
/// and, once the game is over, an empty line and the game-over line.
pub open spec fn frame_lines(view: &FrameView) -> Seq<Seq<char>> {
    seq![title_line(), status_line(view.score, view.jumps_used, view.speed_text@), border_line()]
        + Seq::new(HEIGHT as nat, |row: int| playfield_line(view, row)) + seq![border_line()] + if view.game_over {
        seq![Seq::<char>::empty(), game_over_line()]
    } else {
        Seq::<Seq<char>>::empty()
    }
}

/// Every frame has the title, status and border lines, one line per
/// playfield row and the closing border, plus two lines once the game is
/// over; every border and playfield line is `WIDTH + 2` characters wide.
pub proof fn lemma_frame_shape(view: &FrameView)
    ensures
        frame_lines(view).len() == HEIGHT + 4 + if view.game_over {
            2nat
        } else {
            0nat
        },
        forall|i: int| 2 <= i < HEIGHT + 4 ==> #[trigger] frame_lines(view)[i].len() == WIDTH + 2,
        frame_lines(view)[0] == title_line(),
        view.game_over ==> frame_lines(view)[HEIGHT + 4].len() == 0,
        view.game_over ==> frame_lines(view)[HEIGHT + 5] == game_over_line(),
        forall|i: int|
            0 <= i < WIDTH + 2 ==> #[trigger] frame_lines(view)[2][i] == if i == 0 || i == WIDTH + 1 {
                '+'
            } else {
                '-'
            },
        frame_lines(view)[HEIGHT + 3] == frame_lines(view)[2],
        forall|row: int|
            3 <= row < HEIGHT + 3 ==> #[trigger] frame_lines(view)[row][0] == '|' && frame_lines(
                view,
            )[row][WIDTH + 1] == '|',
{
    let lines = frame_lines(view);
    assert forall|row: int| 3 <= row < HEIGHT + 3 implies #[trigger] lines[row][0] == '|' && lines[row][WIDTH
        + 1] == '|' by {
        assert(lines[row] == playfield_line(view, row - 3));
    }
    assert forall|i: int| 2 <= i < HEIGHT + 4 implies #[trigger] lines[i].len() == WIDTH + 2 by {
        if 3 <= i < HEIGHT + 3 {
            assert(lines[i] == playfield_line(view, i - 3));
        }
    }
}

/// The dragon is drawn over everything else: its body shows in its row and
/// column, as `&` exactly when both jumps are used, and its head shows
/// above it unless it is in the top row.
pub proof fn lemma_dragon_on_top(view: &FrameView)
    requires
        view.dragon_row < HEIGHT,
    ensures
        playfield_cell(view, view.dragon_row as int, PLAYER_X as int) == dragon_sprite(view.jumps_used),
        (playfield_cell(view, view.dragon_row as int, PLAYER_X as int) == '&') <==> view.jumps_used
            == MAX_JUMPS,
        view.dragon_row > 0 ==> playfield_cell(view, view.dragon_row - 1, PLAYER_X as int) == '^',
{
}

/// The character shown at playfield row `row`, column `col` is the
/// playfield cell there (the frame has three lines above the playfield and
/// a `|` before each row).
proof fn lemma_frame_cell(view: &FrameView, row: int, col: int)
    requires
        0 <= row < HEIGHT,
        0 <= col < WIDTH,
    ensures
        frame_lines(view)[3 + row].len() == WIDTH + 2,
        frame_lines(view)[3 + row][1 + col] == playfield_cell(view, row, col),
{
    let lines = frame_lines(view);
    assert(lines[3 + row] == playfield_line(view, row));
    let line = playfield_line(view, row);
    assert(line[1 + col] == playfield_cell(view, row, col));
}

/// The whole dragon is drawn over the scenery, whatever obstacles stand
/// there: in its row, `<` in column `PLAYER_X - 1`, the body (`&` once both
/// jumps are used, `@` otherwise) in column `PLAYER_X`, `>` and `~` in the
/// next two columns, and `^` above the body unless the dragon is in row 0.
pub proof fn lemma_dragon_drawn_over_scenery(view: &FrameView)
    requires
        view.dragon_row < HEIGHT,
    ensures
        ({
            let line = frame_lines(view)[3 + view.dragon_row];
            &&& line[PLAYER_X as int] == '<'
            &&& line[PLAYER_X + 1] == if view.jumps_used == MAX_JUMPS {
                '&'
            } else {
                '@'
            }
            &&& line[PLAYER_X + 2] == '>'
            &&& line[PLAYER_X + 3] == '~'
        }),
        view.dragon_row > 0 ==> frame_lines(view)[2 + view.dragon_row][PLAYER_X + 1] == '^',
{
    let r = view.dragon_row as int;
    lemma_frame_cell(view, r, PLAYER_X - 1);
    lemma_frame_cell(view, r, PLAYER_X as int);
    lemma_frame_cell(view, r, PLAYER_X + 1);
    lemma_frame_cell(view, r, PLAYER_X + 2);
    if r > 0 {
        lemma_frame_cell(view, r - 1, PLAYER_X as int);
    }
}

/// The dragon covers the cell: one of its four cells in its row (columns
/// `PLAYER_X - 1` to `PLAYER_X + 2`) or its head above the body.
pub open spec fn dragon_covers(dragon_row: int, row: int, col: int) -> bool {
    ||| row == dragon_row && PLAYER_X - 1 <= col <= PLAYER_X + 2
    ||| row + 1 == dragon_row && col == PLAYER_X
}

/// Every obstacle at least one row tall whose column lies in the playfield
/// shows `#` in its column on every row from the ground row up to
/// `GROUND_ROW + 1 - height` (row 0 at the highest), except where the dragon is.
pub proof fn lemma_obstacle_drawn(view: &FrameView, i: int, row: int)
    requires
        0 <= i < view.obstacles@.len(),
        view.obstacles@[i].height >= 1,
        0 <= view.obstacles@[i].col < WIDTH,
        0 <= row <= GROUND_ROW,
        row + view.obstacles@[i].height >= GROUND_ROW + 1,
        !dragon_covers(view.dragon_row as int, row, view.obstacles@[i].col as int),
    ensures
        frame_lines(view)[3 + row][1 + view.obstacles@[i].col] == '#',
{
    let col = view.obstacles@[i].col as int;
    lemma_frame_cell(view, row, col);
    assert(covers(view.obstacles@[i], row, col));
}

/// A `#` is shown only where an obstacle at least one row tall stands in
/// that column and reaches down to the ground row from at most that row.
pub proof fn lemma_hash_only_on_obstacles(view: &FrameView, row: int, col: int)
    requires
        0 <= row < HEIGHT,
        0 <= col < WIDTH,
        frame_lines(view)[3 + row][1 + col] == '#',
    ensures
        exists|i: int|
            0 <= i < view.obstacles@.len() && #[trigger] view.obstacles@[i].col == col
                && view.obstacles@[i].height >= 1 && row <= GROUND_ROW && row
                + view.obstacles@[i].height >= GROUND_ROW + 1,
{
    lemma_frame_cell(view, row, col);
    let j = choose|j: int|
        0 <= j < view.obstacles@.len() && covers(#[trigger] view.obstacles@[j], row, col);
    assert(view.obstacles@[j].col == col);
}

/// Where neither the dragon nor an obstacle is, the background shows: the
/// two rows under the ground row are `=`, row 2 has a `.` in every ninth
/// column from 0, row 4 a `.` in columns 4, 17, 30, ... and the rest is blank.
pub proof fn lemma_background_shown(view: &FrameView, row: int, col: int)
    requires
        0 <= row < HEIGHT,
        0 <= col < WIDTH,
        !dragon_covers(view.dragon_row as int, row, col),
        forall|i: int|
            0 <= i < view.obstacles@.len() ==> !(#[trigger] view.obstacles@[i].col == col
                && view.obstacles@[i].height >= 1 && row <= GROUND_ROW && row
                + view.obstacles@[i].height >= GROUND_ROW + 1),
    ensures
        frame_lines(view)[3 + row][1 + col] == if row == GROUND_ROW + 1 || row == GROUND_ROW + 2 {
            '='
        } else if (row == 2 && col % 9 == 0) || (row == 4 && col % 13 == 4) {
            '.'
        } else {
            ' '
        },
{
    lemma_frame_cell(view, row, col);
    if exists|j: int| 0 <= j < view.obstacles@.len() && covers(#[trigger] view.obstacles@[j], row, col) {
        let j = choose|j: int|
            0 <= j < view.obstacles@.len() && covers(#[trigger] view.obstacles@[j], row, col);
        assert(view.obstacles@[j].col == col);
    }
}

/// `grid` has `HEIGHT` rows of `WIDTH` cells.
spec fn grid_shape(grid: Seq<Vec<char>>) -> bool {
    &&& grid.len() == HEIGHT
    &&& forall|r: int| 0 <= r < HEIGHT ==> #[trigger] grid[r]@.len() == WIDTH
}

/// Writes `ch` into one cell of the grid.
fn set_cell(grid: &mut Vec<Vec<char>>, row: usize, col: usize, ch: char)
    requires
        grid_shape(old(grid)@),
        row < HEIGHT,
        col < WIDTH,
    ensures
        grid_shape(final(grid)@),
        forall|r: int, c: int|
            0 <= r < HEIGHT && 0 <= c < WIDTH ==> #[trigger] final(grid)@[r]@[c] == if r == row
                && c == col {
                ch
            } else {
                old(grid)@[r]@[c]
            },
{
    grid[row][col] = ch;
}

/// The empty playfield: ground rows and stars.
fn background_grid() -> (grid: Vec<Vec<char>>)
    ensures
        grid_shape(grid@),
        forall|r: int, c: int|
            0 <= r < HEIGHT && 0 <= c < WIDTH ==> #[trigger] grid@[r]@[c] == background_cell(r, c),
{
    let mut grid: Vec<Vec<char>> = Vec::new();
    for r in 0..HEIGHT
        invariant
            grid@.len() == r,
            forall|i: int| 0 <= i < r ==> #[trigger] grid@[i]@ =~= Seq::new(WIDTH as nat, |c: int| ' '),
    {
        let mut line: Vec<char> = Vec::new();
        for c in 0..WIDTH
            invariant
                line@ =~= Seq::new(c as nat, |k: int| ' '),
        {
            line.push(' ');
        }
        grid.push(line);
    }
    for c in 0..WIDTH
        invariant
            grid_shape(grid@),
            forall|i: int, k: int|
                0 <= i < HEIGHT && 0 <= k < WIDTH ==> #[trigger] grid@[i]@[k] == if (i == GROUND_ROW
                    + 1 || i == GROUND_ROW + 2) && k < c {
                    '='
                } else {
                    ' '
                },
    {
        set_cell(&mut grid, GROUND_ROW + 1, c, '=');
        set_cell(&mut grid, GROUND_ROW + 2, c, '=');
    }
    for x in 0..WIDTH
        invariant
            grid_shape(grid@),
            forall|i: int, k: int|
                0 <= i < HEIGHT && 0 <= k < WIDTH ==> #[trigger] grid@[i]@[k] == if k < x {
                    background_cell(i, k)
                } else if i == GROUND_ROW + 1 || i == GROUND_ROW + 2 {
                    '='
                } else {
                    ' '
                },
    {
        if x % 9 == 0 {
            set_cell(&mut grid, 2, x, '.');
        }
        if x % 13 == 4 {
            set_cell(&mut grid, 4, x, '.');
        }
    }
    grid
}

/// Draws the obstacles over the background, each from the ground row up to its top.
fn draw_obstacles(grid: &mut Vec<Vec<char>>, obstacles: &Vec<ObstacleCell>)
    requires
        grid_shape(old(grid)@),
        forall|r: int, c: int|
            0 <= r < HEIGHT && 0 <= c < WIDTH ==> #[trigger] old(grid)@[r]@[c] == background_cell(r, c),
    ensures
        grid_shape(final(grid)@),
        forall|r: int, c: int|
            0 <= r < HEIGHT && 0 <= c < WIDTH ==> #[trigger] final(grid)@[r]@[c] == scenery_cell(
                obstacles@,
                obstacles@.len() as int,
                r,
                c,
            ),
{
    let mut i: usize = 0;
    while i < obstacles.len()
        invariant
            i <= obstacles@.len(),
            grid_shape(grid@),
            forall|r: int, c: int|
                0 <= r < HEIGHT && 0 <= c < WIDTH ==> #[trigger] grid@[r]@[c] == scenery_cell(
                    obstacles@,
                    i as int,
                    r,
                    c,
                ),
        decreases obstacles@.len() - i,
    {
        let obstacle = obstacles[i];
        let ghost before = grid@;
        if 0 <= obstacle.col && obstacle.col < WIDTH as isize {
            let col = obstacle.col as usize;
            let mut y: usize = 0;
            while y < obstacle.height
                invariant
                    y <= obstacle.height,
                    col < WIDTH,
                    grid_shape(grid@),
                    forall|r: int, c: int|
                        0 <= r < HEIGHT && 0 <= c < WIDTH ==> #[trigger] grid@[r]@[c] == if (y > 0
                            && c == col && top_row(y) <= r <= GROUND_ROW) {
                            '#'
                        } else {
                            before[r]@[c]
                        },
                decreases obstacle.height - y,
            {
                let row = GROUND_ROW.saturating_sub(y);
                set_cell(grid, row, col, '#');
                y = y + 1;
            }
        }
        proof {
            assert forall|r: int, c: int|
                0 <= r < HEIGHT && 0 <= c < WIDTH implies #[trigger] grid@[r]@[c] == scenery_cell(
                obstacles@,
                i + 1,
                r,
                c,
            ) by {
                if covers(obstacles@[i as int], r, c) {
                    assert(0 <= i < i + 1 && covers(obstacles@[i as int], r, c));
                } else if exists|j: int| 0 <= j < i && covers(#[trigger] obstacles@[j], r, c) {
                    let j = choose|j: int| 0 <= j < i && covers(#[trigger] obstacles@[j], r, c);
                    assert(0 <= j < i + 1 && covers(obstacles@[j], r, c));
                } else {
                    assert(!exists|j: int| 0 <= j < i + 1 && covers(#[trigger] obstacles@[j], r, c)) by {
                        assert forall|j: int| 0 <= j < i + 1 implies !covers(#[trigger] obstacles@[j], r, c) by {
                            if j == i {
                            }
                        }
                    }
                }
            }
        }
        i = i + 1;
    }
}

/// Draws the dragon over the playfield.
fn draw_dragon(grid: &mut Vec<Vec<char>>, dragon_row: usize, jumps_used: u8)
    requires
        grid_shape(old(grid)@),
        dragon_row < HEIGHT,
    ensures
        grid_shape(final(grid)@),
        forall|r: int, c: int|
            0 <= r < HEIGHT && 0 <= c < WIDTH ==> #[trigger] final(grid)@[r]@[c] == match dragon_part(
                dragon_row as int,
                jumps_used,
                r,
                c,
            ) {
                Some(ch) => ch,
                None => old(grid)@[r]@[c],
            },
{
    let sprite = if jumps_used == 2 {
        '&'
    } else {
        '@'
    };
    set_cell(grid, dragon_row, PLAYER_X, sprite);
    if dragon_row > 0 {
        set_cell(grid, dragon_row - 1, PLAYER_X, '^');
    }
    set_cell(grid, dragon_row, PLAYER_X - 1, '<');
    set_cell(grid, dragon_row, PLAYER_X + 1, '>');
    set_cell(grid, dragon_row, PLAYER_X + 2, '~');
}

/// The status line reads `Score: `, the score right-aligned in three
/// columns, `  Jumps Left: `, the jumps left (two minus those used, never
/// below zero), `  Speed: ` and the speed text, when that text ends in a
/// character other than white space; trailing white space is dropped.
pub proof fn lemma_status_line(score: u32, jumps_used: u8, speed_text: Seq<char>)
    requires
        speed_text.len() > 0,
        !is_white_space(speed_text.last()),
    ensures
        status_line(score, jumps_used, speed_text) == "Score: "@ + pad_left(decimal(score as nat), 3)
            + "  Jumps Left: "@ + decimal(jumps_left(jumps_used)) + "  Speed: "@ + speed_text,
        jumps_used <= MAX_JUMPS ==> jumps_left(jumps_used) + jumps_used == MAX_JUMPS,
        jumps_used >= MAX_JUMPS ==> jumps_left(jumps_used) == 0,
{
    let body = "Score: "@ + pad_left(decimal(score as nat), 3) + "  Jumps Left: "@ + decimal(
        jumps_left(jumps_used),
    ) + "  Speed: "@ + speed_text;
    let full = body + seq!['\n'];
    assert(full.drop_last() =~= body);
    assert(full.last() == '\n');
    assert(is_white_space('\n'));
    assert(body.last() == speed_text.last());
    assert(trim_end(full) == trim_end(full.drop_last()));
    assert(trim_end(body) == body);
    assert(status_line(score, jumps_used, speed_text) == trim_end(full));
}

/// The border line above and below the playfield.
fn border() -> (line: String)
    ensures
        line@ == border_line(),
{
    let mut chars: Vec<char> = Vec::new();
    chars.push('+');
    for i in 0..WIDTH
        invariant
            chars@ =~= seq!['+'] + Seq::new(i as nat, |k: int| '-'),
    {
        chars.push('-');
    }
    chars.push('+');
    string_from_chars(&chars)
}

impl FrameView {
    /// The status line of this frame.
    fn status(&self) -> (line: String)
        ensures
            line@ == status_line(self.score, self.jumps_used, self.speed_text@),
    {
        let left = MAX_JUMPS.saturating_sub(self.jumps_used);
        let mut chars: Vec<char> = Vec::new();
        append_str(&mut chars, "Score: ");
        let digits = decimal_chars(self.score);
        let padded = pad_left_chars(&digits, 3);
        let mut i: usize = 0;
        let ghost start = chars@;
        while i < padded.len()
            invariant
                i <= padded@.len(),
                chars@ =~= start + padded@.subrange(0, i as int),
            decreases padded@.len() - i,
        {
            chars.push(padded[i]);
            i = i + 1;
        }
        assert(padded@.subrange(0, padded@.len() as int) =~= padded@);
        append_str(&mut chars, "  Jumps Left: ");
        let left_digits = decimal_chars(left as u32);
        let mut k: usize = 0;
        let ghost middle = chars@;
        while k < left_digits.len()
            invariant
                k <= left_digits@.len(),
                chars@ =~= middle + left_digits@.subrange(0, k as int),
            decreases left_digits@.len() - k,
        {
            chars.push(left_digits[k]);
            k = k + 1;
        }
        assert(left_digits@.subrange(0, left_digits@.len() as int) =~= left_digits@);
        append_str(&mut chars, "  Speed: ");
        append_str(&mut chars, self.speed_text.as_str());
        chars.push('\n');
        assert(chars@ =~= "Score: "@ + pad_left(decimal(self.score as nat), 3) + "  Jumps Left: "@
            + decimal(jumps_left(self.jumps_used)) + "  Speed: "@ + self.speed_text@ + seq!['\n']);
        trim_end_chars(&mut chars);
        string_from_chars(&chars)
    }

    /// The frame as text lines: title, status line, the bordered playfield
    /// with ground, stars, obstacles and dragon, and the game-over lines once
    /// the game is over.
    pub fn render(&self) -> (lines: Vec<String>)
        requires
            self.dragon_row < HEIGHT,
        ensures
            lines@.len() == frame_lines(self).len(),
            forall|i: int| 0 <= i < lines@.len() ==> #[trigger] lines@[i]@ == frame_lines(self)[i],
    {
        let mut grid = background_grid();
        draw_obstacles(&mut grid, &self.obstacles);
        draw_dragon(&mut grid, self.dragon_row, self.jumps_used);
        let ghost expected = frame_lines(self);
        let mut lines: Vec<String> = Vec::new();
        lines.push(String::from_str("Side-Scrolling Dragon  |  SPACE: jump  Q: quit  R: restart"));
        lines.push(self.status());
        lines.push(border());
        for row in 0..HEIGHT
            invariant
                grid_shape(grid@),
                forall|r: int, c: int|
                    0 <= r < HEIGHT && 0 <= c < WIDTH ==> #[trigger] grid@[r]@[c] == playfield_cell(self, r, c),
                lines@.len() == 3 + row,
                expected == frame_lines(self),
                forall|i: int| 0 <= i < lines@.len() ==> #[trigger] lines@[i]@ == expected[i],
        {
            let mut chars: Vec<char> = Vec::new();
            chars.push('|');
            for col in 0..WIDTH
                invariant
                    grid_shape(grid@),
                    row < HEIGHT,
                    chars@ =~= seq!['|'] + Seq::new(col as nat, |c: int| grid@[row as int]@[c]),
            {
                chars.push(grid[row][col]);
            }
            chars.push('|');
            assert(chars@ =~= playfield_line(self, row as int));
            assert(expected[3 + row] == playfield_line(self, row as int));
            lines.push(string_from_chars(&chars));
        }
        lines.push(border());
        assert(expected[3 + HEIGHT] == border_line());
        if self.game_over {
            lines.push(String::new());
            lines.push(String::from_str("Game Over! Press R to play again."));
        }
        lines
    }
}

} // verus!
