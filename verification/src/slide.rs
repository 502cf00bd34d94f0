//! The rules of a slide, stated over the grid as sequences of symbols.
//!
//! A duck that moves leaves its anchor cell first; everything else is read
//! from the grid without the duck on it. Positions are pairs of integers here,
//! so that a step over the edge of the grid can be named.
use crate::level::{grid_bread, in_bounds, lemma_grid_bread_put, put};
use crate::utils::Direction;
use vstd::prelude::*;

verus! {

/// Whether `symbol` shows a common duck.
pub open spec fn is_duck_symbol(symbol: char) -> bool {
    symbol == 'D' || symbol == 'Q' || symbol == 'O' || symbol == 'P'
}

/// Whether `symbol` shows the anchor of a big duck.
pub open spec fn is_big_duck_symbol(symbol: char) -> bool {
    symbol == 'g' || symbol == 'G' || symbol == '&' || symbol == '$'
}

/// Whether a duck may step on a cell that shows `symbol`: no wall, no common
/// duck, and no bread for a duck that is stuffed.
pub open spec fn symbol_allows(symbol: char, stuffed: bool) -> bool {
    symbol != '@' && !is_duck_symbol(symbol) && (!stuffed || symbol != 'B')
}

/// Whether a big duck is anchored at `(row, col)`.
pub open spec fn anchors_big_duck(grid: Seq<Seq<char>>, row: int, col: int) -> bool {
    in_bounds(grid, row, col) && is_big_duck_symbol(grid[row][col])
}

/// Whether `(row, col)` is one of the four cells of a big duck.
pub open spec fn in_big_duck(grid: Seq<Seq<char>>, row: int, col: int) -> bool {
    anchors_big_duck(grid, row, col) || anchors_big_duck(grid, row, col - 1) || anchors_big_duck(
        grid,
        row - 1,
        col,
    ) || anchors_big_duck(grid, row - 1, col - 1)
}

/// Whether a duck may step on `(row, col)`: the cell exists, its symbol
/// allows it, and no big duck covers it.
pub open spec fn can_enter(grid: Seq<Seq<char>>, row: int, col: int, stuffed: bool) -> bool {
    in_bounds(grid, row, col) && symbol_allows(grid[row][col], stuffed) && !in_big_duck(
        grid,
        row,
        col,
    )
}

/// What a duck leaves behind on a cell that showed `symbol`: breaking ice
/// where it stood on breaking ice, plain ice elsewhere.
pub open spec fn ground_under(symbol: char) -> char {
    if symbol == 'O' || symbol == '&' || symbol == '$' {
        '*'
    } else {
        '#'
    }
}

/// `grid` after the duck anchored at `(row, col)` has left that cell.
pub open spec fn vacated(grid: Seq<Seq<char>>, row: int, col: int) -> Seq<Seq<char>> {
    put(grid, row, col, ground_under(grid[row][col]))
}

/// Steps that the grid leaves room for from `(row, col)` in `direction`.
pub open spec fn room(grid: Seq<Seq<char>>, row: int, col: int, direction: Direction) -> int {
    match direction {
        Direction::Up => row,
        Direction::Down => grid.len() - row,
        Direction::Left => col,
        Direction::Right => if 0 <= row < grid.len() {
            grid[row].len() - col
        } else {
            0
        },
        Direction::Idle => 0,
    }
}

/// Whether steps in `direction` lead from `start` to `cell`, `start` itself
/// included.
pub open spec fn reaches(start: (int, int), cell: (int, int), direction: Direction) -> bool {
    match direction {
        Direction::Up => cell.0 <= start.0 && cell.1 == start.1,
        Direction::Down => cell.0 >= start.0 && cell.1 == start.1,
        Direction::Left => cell.0 == start.0 && cell.1 <= start.1,
        Direction::Right => cell.0 == start.0 && cell.1 >= start.1,
        Direction::Idle => cell == start,
    }
}

/// Whether a duck that has just stepped on a cell showing `symbol` stops
/// there: on bread, which it eats, and on breaking ice if it is stuffed.
pub open spec fn halts_on(symbol: char, stuffed: bool) -> bool {
    symbol == 'B' || (symbol == '*' && stuffed)
}

/// Where a common duck comes to rest when it slides from `(row, col)` in
/// `direction`: it steps on while it may enter the next cell, and stops on
/// the first cell that halts it.
pub open spec fn slide(
    grid: Seq<Seq<char>>,
    row: int,
    col: int,
    direction: Direction,
    stuffed: bool,
) -> (int, int)
    decreases room(grid, row, col, direction),
{
    let r = row + direction.row_delta();
    let c = col + direction.col_delta();
    if direction == Direction::Idle || !can_enter(grid, r, c, stuffed) {
        (row, col)
    } else if halts_on(grid[r][c], stuffed) {
        (r, c)
    } else {
        slide(grid, r, c, direction, stuffed)
    }
}

/// Whether the four cells of a big duck anchored at `(row, col)` exist.
pub open spec fn block_in_bounds(grid: Seq<Seq<char>>, row: int, col: int) -> bool {
    in_bounds(grid, row, col) && in_bounds(grid, row, col + 1) && in_bounds(grid, row + 1, col)
        && in_bounds(grid, row + 1, col + 1)
}

/// 1 where `(row, col)` holds bread, else 0.
pub open spec fn bread_at(grid: Seq<Seq<char>>, row: int, col: int) -> nat {
    if in_bounds(grid, row, col) && grid[row][col] == 'B' {
        1
    } else {
        0
    }
}

/// Bread on the four cells of a big duck anchored at `(row, col)`.
pub open spec fn block_bread(grid: Seq<Seq<char>>, row: int, col: int) -> nat {
    bread_at(grid, row, col) + bread_at(grid, row, col + 1) + bread_at(grid, row + 1, col)
        + bread_at(grid, row + 1, col + 1)
}

/// Whether all four cells of a big duck anchored at `(row, col)` are breaking
/// ice.
pub open spec fn block_breaking(grid: Seq<Seq<char>>, row: int, col: int) -> bool {
    block_in_bounds(grid, row, col) && grid[row][col] == '*' && grid[row][col + 1] == '*'
        && grid[row + 1][col] == '*' && grid[row + 1][col + 1] == '*'
}

/// The two cells that a big duck anchored at `(row, col)` enters with one
/// step in `direction`.
pub open spec fn cells_ahead(row: int, col: int, direction: Direction) -> ((int, int), (int, int)) {
    match direction {
        Direction::Up => ((row - 1, col), (row - 1, col + 1)),
        Direction::Down => ((row + 2, col), (row + 2, col + 1)),
        Direction::Left => ((row, col - 1), (row + 1, col - 1)),
        Direction::Right => ((row, col + 2), (row + 1, col + 2)),
        Direction::Idle => ((row, col), (row, col)),
    }
}

/// Whether a big duck anchored at `(row, col)` may take one step in
/// `direction`: it may enter both cells ahead of its leading edge.
pub open spec fn big_can_step(
    grid: Seq<Seq<char>>,
    row: int,
    col: int,
    direction: Direction,
    stuffed: bool,
) -> bool {
    let (a, b) = cells_ahead(row, col, direction);
    direction != Direction::Idle && can_enter(grid, a.0, a.1, stuffed) && can_enter(
        grid,
        b.0,
        b.1,
        stuffed,
    )
}

/// Whether a big duck that has just stepped to `(row, col)` stops there:
/// where any of its cells holds bread, and where it is stuffed and all of
/// them are breaking ice.
pub open spec fn big_halts_at(grid: Seq<Seq<char>>, row: int, col: int, stuffed: bool) -> bool {
    block_bread(grid, row, col) > 0 || (stuffed && block_breaking(grid, row, col))
}

/// Where a big duck comes to rest when it slides from `(row, col)` in
/// `direction`.
pub open spec fn big_slide(
    grid: Seq<Seq<char>>,
    row: int,
    col: int,
    direction: Direction,
    stuffed: bool,
) -> (int, int)
    decreases room(grid, row, col, direction),
{
    let r = row + direction.row_delta();
    let c = col + direction.col_delta();
    if !big_can_step(grid, row, col, direction, stuffed) {
        (row, col)
    } else if big_halts_at(grid, r, c, stuffed) {
        (r, c)
    } else {
        big_slide(grid, r, c, direction, stuffed)
    }
}

/// `bread` after a duck that holds `belly` was offered one bread more, if
/// `offered`.
pub open spec fn fed_if(offered: bool, bread: u32, belly: u32) -> u32 {
    if offered && bread < belly {
        (bread + 1) as u32
    } else {
        bread
    }
}

/// Bread eaten by a big duck after it has eaten what lies on its four cells,
/// one bread at a time and no more than fills it.
pub open spec fn fed_on_block(
    grid: Seq<Seq<char>>,
    row: int,
    col: int,
    bread: u32,
    belly: u32,
) -> u32 {
    let first = fed_if(bread_at(grid, row, col) > 0, bread, belly);
    let second = fed_if(bread_at(grid, row, col + 1) > 0, first, belly);
    let third = fed_if(bread_at(grid, row + 1, col) > 0, second, belly);
    fed_if(bread_at(grid, row + 1, col + 1) > 0, third, belly)
}

/// `grid` with the bread at `(row, col)`, if there is any, eaten: plain ice
/// is left.
pub open spec fn eaten(grid: Seq<Seq<char>>, row: int, col: int) -> Seq<Seq<char>> {
    if bread_at(grid, row, col) > 0 {
        put(grid, row, col, '#')
    } else {
        grid
    }
}

/// `grid` after a big duck anchored at `(row, col)` fell through the ice:
/// the anchor shows the duck in the water, the other three cells open water.
pub open spec fn sunk(grid: Seq<Seq<char>>, row: int, col: int) -> Seq<Seq<char>> {
    let anchor = put(grid, row, col, 'P');
    let right = put(anchor, row, col + 1, '^');
    let below = put(right, row + 1, col, '^');
    put(below, row + 1, col + 1, '^')
}

/// `grid` after a big duck came to rest at `(row, col)` and did not fall
/// through: the bread under it is eaten and the anchor shows `symbol`.
pub open spec fn settled(grid: Seq<Seq<char>>, row: int, col: int, symbol: char) -> Seq<Seq<char>> {
    let right = eaten(grid, row, col + 1);
    let below = eaten(right, row + 1, col);
    put(eaten(below, row + 1, col + 1), row, col, symbol)
}

/// The cells beyond `(row, col)` in `direction` that show a common duck, one
/// after the other, up to the first cell that shows none or lies outside
/// the grid.
pub open spec fn shake_wave(grid: Seq<Seq<char>>, row: int, col: int, direction: Direction) -> Seq<
    (usize, usize),
>
    decreases room(grid, row, col, direction),
{
    let r = row + direction.row_delta();
    let c = col + direction.col_delta();
    if direction != Direction::Idle && in_bounds(grid, r, c) && is_duck_symbol(grid[r][c]) {
        seq![(r as usize, c as usize)] + shake_wave(grid, r, c, direction)
    } else {
        Seq::empty()
    }
}

/// The cell `steps` steps from `(row, col)` in `direction`.
pub open spec fn ahead(row: int, col: int, direction: Direction, steps: int) -> (int, int) {
    match direction {
        Direction::Up => (row - steps, col),
        Direction::Down => (row + steps, col),
        Direction::Left => (row, col - steps),
        Direction::Right => (row, col + steps),
        Direction::Idle => (row, col),
    }
}

/// Whether `(row, col)` is plain ice that no big duck covers.
pub open spec fn is_open_ice(grid: Seq<Seq<char>>, row: int, col: int) -> bool {
    in_bounds(grid, row, col) && grid[row][col] == '#' && !in_big_duck(grid, row, col)
}

/// Whether `(row, col)` is a wall or lies outside the grid.
pub open spec fn is_wall_or_edge(grid: Seq<Seq<char>>, row: int, col: int) -> bool {
    !in_bounds(grid, row, col) || grid[row][col] == '@'
}

/// A duck in front of `steps` cells of open ice that end at a wall or at the
/// edge of the grid comes to rest on the last of them, next to the wall and
/// never inside it.
pub proof fn lemma_free_slide(
    grid: Seq<Seq<char>>,
    row: int,
    col: int,
    direction: Direction,
    stuffed: bool,
    steps: nat,
)
    requires
        direction != Direction::Idle,
        forall|k: int|
            1 <= k <= steps ==> is_open_ice(
                grid,
                #[trigger] ahead(row, col, direction, k).0,
                ahead(row, col, direction, k).1,
            ),
        is_wall_or_edge(
            grid,
            ahead(row, col, direction, steps as int + 1).0,
            ahead(row, col, direction, steps as int + 1).1,
        ),
    ensures
        slide(grid, row, col, direction, stuffed) == ahead(row, col, direction, steps as int),
    decreases steps,
{
    let next = ahead(row, col, direction, 1);
    assert(next == (row + direction.row_delta(), col + direction.col_delta()));
    if steps > 0 {
        assert(is_open_ice(grid, next.0, next.1));
        assert forall|k: int| 1 <= k <= steps - 1 implies is_open_ice(
            grid,
            #[trigger] ahead(next.0, next.1, direction, k).0,
            ahead(next.0, next.1, direction, k).1,
        ) by {
            assert(ahead(next.0, next.1, direction, k) == ahead(row, col, direction, k + 1));
        }
        assert(ahead(next.0, next.1, direction, steps as int) == ahead(
            row,
            col,
            direction,
            steps as int + 1,
        ));
        lemma_free_slide(grid, next.0, next.1, direction, stuffed, (steps - 1) as nat);
        assert(ahead(next.0, next.1, direction, steps - 1) == ahead(
            row,
            col,
            direction,
            steps as int,
        ));
    }
}

/// A big duck with no bread under it, in front of `steps` pairs of cells of
/// open ice that end at a wall or at the edge of the grid, comes to rest
/// after `steps` steps, next to the wall and never inside it.
pub proof fn lemma_free_big_slide(
    grid: Seq<Seq<char>>,
    row: int,
    col: int,
    direction: Direction,
    stuffed: bool,
    steps: nat,
)
    requires
        direction != Direction::Idle,
        block_in_bounds(grid, row, col),
        block_bread(grid, row, col) == 0,
        forall|k: int|
            0 <= k < steps ==> {
                let from = #[trigger] ahead(row, col, direction, k);
                let (a, b) = cells_ahead(from.0, from.1, direction);
                is_open_ice(grid, a.0, a.1) && is_open_ice(grid, b.0, b.1)
            },
        ({
            let from = ahead(row, col, direction, steps as int);
            let (a, b) = cells_ahead(from.0, from.1, direction);
            is_wall_or_edge(grid, a.0, a.1) || is_wall_or_edge(grid, b.0, b.1)
        }),
    ensures
        big_slide(grid, row, col, direction, stuffed) == ahead(row, col, direction, steps as int),
    decreases steps,
{
    assert(ahead(row, col, direction, 0) == (row, col));
    if steps > 0 {
        let next = ahead(row, col, direction, 1);
        assert(next == (row + direction.row_delta(), col + direction.col_delta()));
        assert(big_can_step(grid, row, col, direction, stuffed));
        assert(block_in_bounds(grid, next.0, next.1));
        assert(block_bread(grid, next.0, next.1) == 0);
        assert(!block_breaking(grid, next.0, next.1));
        assert forall|k: int| 0 <= k < steps - 1 implies {
            let from = #[trigger] ahead(next.0, next.1, direction, k);
            let (a, b) = cells_ahead(from.0, from.1, direction);
            is_open_ice(grid, a.0, a.1) && is_open_ice(grid, b.0, b.1)
        } by {
            assert(ahead(next.0, next.1, direction, k) == ahead(row, col, direction, k + 1));
        }
        assert(ahead(next.0, next.1, direction, steps - 1) == ahead(
            row,
            col,
            direction,
            steps as int,
        ));
        lemma_free_big_slide(grid, next.0, next.1, direction, stuffed, (steps - 1) as nat);
    }
}

/// A slide ends on a cell of the grid that lies in the direction of the
/// slide.
pub proof fn lemma_slide_stays(
    grid: Seq<Seq<char>>,
    row: int,
    col: int,
    direction: Direction,
    stuffed: bool,
)
    requires
        in_bounds(grid, row, col),
    ensures
        in_bounds(
            grid,
            slide(grid, row, col, direction, stuffed).0,
            slide(grid, row, col, direction, stuffed).1,
        ),
        reaches((row, col), slide(grid, row, col, direction, stuffed), direction),
    decreases room(grid, row, col, direction),
{
    let r = row + direction.row_delta();
    let c = col + direction.col_delta();
    if direction != Direction::Idle && can_enter(grid, r, c, stuffed) && !halts_on(
        grid[r][c],
        stuffed,
    ) {
        lemma_slide_stays(grid, r, c, direction, stuffed);
    }
}

/// The slide of a big duck ends where the grid has all four cells of the
/// duck, in the direction of the slide.
pub proof fn lemma_big_slide_stays(
    grid: Seq<Seq<char>>,
    row: int,
    col: int,
    direction: Direction,
    stuffed: bool,
)
    requires
        block_in_bounds(grid, row, col),
    ensures
        block_in_bounds(
            grid,
            big_slide(grid, row, col, direction, stuffed).0,
            big_slide(grid, row, col, direction, stuffed).1,
        ),
        reaches((row, col), big_slide(grid, row, col, direction, stuffed), direction),
    decreases room(grid, row, col, direction),
{
    let r = row + direction.row_delta();
    let c = col + direction.col_delta();
    if big_can_step(grid, row, col, direction, stuffed) && !big_halts_at(grid, r, c, stuffed) {
        lemma_big_slide_stays(grid, r, c, direction, stuffed);
    }
}

/// Writing a symbol that is not bread leaves no more bread than there was,
/// and the grid keeps its shape.
pub proof fn lemma_put_no_bread(grid: Seq<Seq<char>>, row: int, col: int, symbol: char)
    requires
        in_bounds(grid, row, col),
        symbol != 'B',
    ensures
        grid_bread(put(grid, row, col, symbol)) <= grid_bread(grid),
        forall|r: int, c: int|
            in_bounds(put(grid, row, col, symbol), r, c) == in_bounds(grid, r, c),
{
    lemma_grid_bread_put(grid, row, col, symbol);
    assert forall|r: int, c: int| in_bounds(put(grid, row, col, symbol), r, c) == in_bounds(
        grid,
        r,
        c,
    ) by {}
}

/// Whether `(row, col)` shows a duck: a common duck or the anchor of a big
/// one.
pub open spec fn shows_duck(grid: Seq<Seq<char>>, row: int, col: int) -> bool {
    in_bounds(grid, row, col) && (is_duck_symbol(grid[row][col]) || is_big_duck_symbol(
        grid[row][col],
    ))
}

/// Whether none of the four cells of a big duck anchored at `(row, col)`
/// shows a duck.
pub open spec fn block_clear(grid: Seq<Seq<char>>, row: int, col: int) -> bool {
    !shows_duck(grid, row, col) && !shows_duck(grid, row, col + 1) && !shows_duck(
        grid,
        row + 1,
        col,
    ) && !shows_duck(grid, row + 1, col + 1)
}

/// A duck that slides away from its cell comes to rest on a cell that it
/// could enter, so on one that shows no duck.
pub proof fn lemma_slide_entered(
    grid: Seq<Seq<char>>,
    row: int,
    col: int,
    direction: Direction,
    stuffed: bool,
)
    requires
        slide(grid, row, col, direction, stuffed) != (row, col),
    ensures
        can_enter(
            grid,
            slide(grid, row, col, direction, stuffed).0,
            slide(grid, row, col, direction, stuffed).1,
            stuffed,
        ),
        !shows_duck(
            grid,
            slide(grid, row, col, direction, stuffed).0,
            slide(grid, row, col, direction, stuffed).1,
        ),
    decreases room(grid, row, col, direction),
{
    let r = row + direction.row_delta();
    let c = col + direction.col_delta();
    if direction != Direction::Idle && can_enter(grid, r, c, stuffed) && !halts_on(
        grid[r][c],
        stuffed,
    ) {
        if slide(grid, r, c, direction, stuffed) != (r, c) {
            lemma_slide_entered(grid, r, c, direction, stuffed);
        }
    }
}

/// A big duck whose cells show no duck before it slides comes to rest on
/// cells that show none.
pub proof fn lemma_big_slide_keeps_clear(
    grid: Seq<Seq<char>>,
    row: int,
    col: int,
    direction: Direction,
    stuffed: bool,
)
    requires
        block_clear(grid, row, col),
    ensures
        block_clear(
            grid,
            big_slide(grid, row, col, direction, stuffed).0,
            big_slide(grid, row, col, direction, stuffed).1,
        ),
    decreases room(grid, row, col, direction),
{
    let r = row + direction.row_delta();
    let c = col + direction.col_delta();
    if big_can_step(grid, row, col, direction, stuffed) {
        assert(block_clear(grid, r, c));
        if !big_halts_at(grid, r, c, stuffed) {
            lemma_big_slide_keeps_clear(grid, r, c, direction, stuffed);
        }
    }
}

/// Whether none of the big ducks shown on `grid` has a duck shown on one of
/// its other three cells: every duck has its cells to itself.
pub open spec fn tidy(grid: Seq<Seq<char>>) -> bool {
    forall|r: int, c: int|
        #![trigger anchors_big_duck(grid, r, c)]
        anchors_big_duck(grid, r, c) ==> !shows_duck(grid, r, c + 1) && !shows_duck(
            grid,
            r + 1,
            c,
        ) && !shows_duck(grid, r + 1, c + 1)
}

/// Whether `(row, col)` is none of the other three cells of a big duck
/// shown on `grid`.
pub open spec fn beside_no_anchor(grid: Seq<Seq<char>>, row: int, col: int) -> bool {
    !anchors_big_duck(grid, row, col - 1) && !anchors_big_duck(grid, row - 1, col)
        && !anchors_big_duck(grid, row - 1, col - 1)
}

/// A big duck whose cells show no duck, and whose anchor is no cell of
/// another big duck, comes to rest with its anchor on no cell of another big
/// duck.
pub proof fn lemma_big_slide_keeps_apart(
    grid: Seq<Seq<char>>,
    row: int,
    col: int,
    direction: Direction,
    stuffed: bool,
)
    requires
        block_clear(grid, row, col),
        beside_no_anchor(grid, row, col),
    ensures
        beside_no_anchor(
            grid,
            big_slide(grid, row, col, direction, stuffed).0,
            big_slide(grid, row, col, direction, stuffed).1,
        ),
    decreases room(grid, row, col, direction),
{
    let r = row + direction.row_delta();
    let c = col + direction.col_delta();
    if big_can_step(grid, row, col, direction, stuffed) {
        assert(block_clear(grid, r, c));
        assert(beside_no_anchor(grid, r, c));
        if !big_halts_at(grid, r, c, stuffed) {
            lemma_big_slide_keeps_apart(grid, r, c, direction, stuffed);
        }
    }
}

} // verus!
