//! The census of the ducks: every duck of a grid is on the list of its ducks
//! once, at the cell that shows it, and a move changes the duck that is
//! moved and no other.
use crate::level::{in_bounds, put};
use crate::player::{at, Actor, BigDuck, CommonDuck, Duck};
use crate::slide::{
    anchors_big_duck, beside_no_anchor, block_clear, block_in_bounds, eaten, is_big_duck_symbol,
    is_duck_symbol, lemma_big_slide_keeps_apart, lemma_big_slide_keeps_clear,
    lemma_big_slide_stays, lemma_slide_entered, lemma_slide_stays, shows_duck, tidy, vacated,
};
use crate::session::SessionView;
use crate::spawn::{bread_sums, duck_at, ducks_of, grid_ducks, recorded, row_ducks};
use crate::utils::Direction;
use vstd::prelude::*;

verus! {

/// Whether every row index and every column index of `grid` is a `usize`.
pub open spec fn fits_usize(grid: Seq<Seq<char>>) -> bool {
    &&& grid.len() <= usize::MAX
    &&& forall|r: int| 0 <= r < grid.len() ==> (#[trigger] grid[r]).len() <= usize::MAX
}

/// Whether `first` comes before `second` where cells are read row by row
/// from the top and from left to right in each row.
pub open spec fn comes_before(first: (int, int), second: (int, int)) -> bool {
    first.0 < second.0 || (first.0 == second.0 && first.1 < second.1)
}

/// The ducks among the first `cols` cells of a row stand in that row, each at
/// the cell that shows it, from left to right.
pub proof fn lemma_row_census(
    grid: Seq<Seq<char>>,
    record: Seq<((usize, usize), u32)>,
    row: int,
    cols: int,
)
    requires
        fits_usize(grid),
        0 <= row < grid.len(),
        cols <= grid[row].len(),
    ensures
        forall|i: int|
            0 <= i < row_ducks(grid, record, row, cols).len() ==> {
                let duck = #[trigger] row_ducks(grid, record, row, cols)[i];
                let (r, c) = at(duck.position());
                r == row && 0 <= c < cols && duck_at(grid, record, r, c) == Some(duck)
            },
        forall|i: int, j: int|
            0 <= i < j < row_ducks(grid, record, row, cols).len() ==> at(
                (#[trigger] row_ducks(grid, record, row, cols)[i]).position(),
            ).1 < at((#[trigger] row_ducks(grid, record, row, cols)[j]).position()).1,
    decreases cols,
{
    if cols > 0 {
        lemma_row_census(grid, record, row, cols - 1);
        let rest = row_ducks(grid, record, row, cols - 1);
        let all = row_ducks(grid, record, row, cols);
        assert forall|i: int| 0 <= i < all.len() implies {
            let duck = #[trigger] all[i];
            let (r, c) = at(duck.position());
            r == row && 0 <= c < cols && duck_at(grid, record, r, c) == Some(duck)
        } by {
            if i < rest.len() {
                assert(all[i] == rest[i]);
            }
        }
        assert forall|i: int, j: int| 0 <= i < j < all.len() implies at(
            (#[trigger] all[i]).position(),
        ).1 < at((#[trigger] all[j]).position()).1 by {
            assert(all[i] == rest[i]);
            if j < rest.len() {
                assert(all[j] == rest[j]);
            }
        }
    }
}

/// The ducks of the first `rows` rows of a grid stand on the grid, each at
/// the cell that shows it, in the order in which the cells are read.
pub proof fn lemma_census(grid: Seq<Seq<char>>, record: Seq<((usize, usize), u32)>, rows: int)
    requires
        fits_usize(grid),
        rows <= grid.len(),
    ensures
        forall|i: int|
            0 <= i < grid_ducks(grid, record, rows).len() ==> {
                let duck = #[trigger] grid_ducks(grid, record, rows)[i];
                let (r, c) = at(duck.position());
                0 <= r < rows && in_bounds(grid, r, c) && duck_at(grid, record, r, c) == Some(duck)
            },
        forall|i: int, j: int|
            0 <= i < j < grid_ducks(grid, record, rows).len() ==> comes_before(
                at((#[trigger] grid_ducks(grid, record, rows)[i]).position()),
                at((#[trigger] grid_ducks(grid, record, rows)[j]).position()),
            ),
    decreases rows,
{
    if rows > 0 {
        lemma_census(grid, record, rows - 1);
        lemma_row_census(grid, record, rows - 1, grid[rows - 1].len() as int);
        let above = grid_ducks(grid, record, rows - 1);
        let row = row_ducks(grid, record, rows - 1, grid[rows - 1].len() as int);
        let all = grid_ducks(grid, record, rows);
        assert forall|i: int| 0 <= i < all.len() implies {
            let duck = #[trigger] all[i];
            let (r, c) = at(duck.position());
            0 <= r < rows && in_bounds(grid, r, c) && duck_at(grid, record, r, c) == Some(duck)
        } by {
            if i < above.len() {
                assert(all[i] == above[i]);
            } else {
                assert(all[i] == row[i - above.len()]);
            }
        }
        assert forall|i: int, j: int| 0 <= i < j < all.len() implies comes_before(
            at((#[trigger] all[i]).position()),
            at((#[trigger] all[j]).position()),
        ) by {
            if j < above.len() {
                assert(all[i] == above[i]);
                assert(all[j] == above[j]);
            } else if i < above.len() {
                assert(all[i] == above[i]);
                assert(all[j] == row[j - above.len()]);
            } else {
                assert(all[i] == row[i - above.len()]);
                assert(all[j] == row[j - above.len()]);
            }
        }
    }
}

/// The duck that a cell among the first `cols` cells of a row shows is among
/// the ducks of these cells.
pub proof fn lemma_row_holds(
    grid: Seq<Seq<char>>,
    record: Seq<((usize, usize), u32)>,
    row: int,
    cols: int,
    col: int,
)
    requires
        0 <= col < cols,
        duck_at(grid, record, row, col) is Some,
    ensures
        row_ducks(grid, record, row, cols).contains(duck_at(grid, record, row, col)->Some_0),
    decreases cols,
{
    let all = row_ducks(grid, record, row, cols);
    let rest = row_ducks(grid, record, row, cols - 1);
    let duck = duck_at(grid, record, row, col)->Some_0;
    if col == cols - 1 {
        assert(all[all.len() - 1] == duck);
    } else {
        lemma_row_holds(grid, record, row, cols - 1, col);
        let i = choose|i: int| 0 <= i < rest.len() && rest[i] == duck;
        assert(all[i] == duck);
    }
}

/// The duck that a cell of the first `rows` rows shows is among the ducks of
/// these rows.
pub proof fn lemma_grid_holds(
    grid: Seq<Seq<char>>,
    record: Seq<((usize, usize), u32)>,
    rows: int,
    row: int,
    col: int,
)
    requires
        0 <= row < rows <= grid.len(),
        0 <= col < grid[row].len(),
        duck_at(grid, record, row, col) is Some,
    ensures
        grid_ducks(grid, record, rows).contains(duck_at(grid, record, row, col)->Some_0),
    decreases rows,
{
    let all = grid_ducks(grid, record, rows);
    let above = grid_ducks(grid, record, rows - 1);
    let last = row_ducks(grid, record, rows - 1, grid[rows - 1].len() as int);
    let duck = duck_at(grid, record, row, col)->Some_0;
    if row == rows - 1 {
        lemma_row_holds(grid, record, row, grid[row].len() as int, col);
        let i = choose|i: int| 0 <= i < last.len() && last[i] == duck;
        assert(all[above.len() + i] == duck);
    } else {
        lemma_grid_holds(grid, record, rows - 1, row, col);
        let i = choose|i: int| 0 <= i < above.len() && above[i] == duck;
        assert(all[i] == duck);
    }
}

/// A record with one entry more says of a cell what it said before, and
/// what the new entry says where it was silent.
pub proof fn lemma_recorded_push(
    record: Seq<((usize, usize), u32)>,
    entry: ((usize, usize), u32),
    position: (usize, usize),
)
    ensures
        recorded(record.push(entry), position) == match recorded(record, position) {
            Some(bread) => Some(bread),
            None => if entry.0 == position {
                Some(entry.1)
            } else {
                None
            },
        },
    decreases record.len(),
{
    let longer = record.push(entry);
    if record.len() == 0 {
        assert(longer[0] == entry);
        assert(longer.drop_first().len() == 0);
        assert(recorded(longer.drop_first(), position) is None);
    } else if record[0].0 == position {
        assert(longer[0] == record[0]);
    } else {
        assert(longer[0] == record[0]);
        lemma_recorded_push(record.drop_first(), entry, position);
        assert(longer.drop_first() =~= record.drop_first().push(entry));
    }
}

/// The record of ducks none of which is a big duck anchored at `position`
/// is silent on `position`.
pub proof fn lemma_record_misses(ducks: Seq<Actor>, position: (usize, usize))
    requires
        forall|i: int|
            0 <= i < ducks.len() && (#[trigger] ducks[i]).is_big() ==> ducks[i].position()
                != position,
    ensures
        recorded(bread_sums(ducks), position) is None,
    decreases ducks.len(),
{
    if ducks.len() > 0 {
        let rest = ducks.drop_last();
        assert forall|i: int|
            0 <= i < rest.len() && (#[trigger] rest[i]).is_big() implies rest[i].position()
            != position by {
            assert(rest[i] == ducks[i]);
        }
        lemma_record_misses(rest, position);
        match ducks.last() {
            Actor::Multi(duck) => {
                assert(ducks[ducks.len() - 1].is_big());
                lemma_recorded_push(
                    bread_sums(rest),
                    (duck.logic_position, duck.bread_sum),
                    position,
                );
            },
            Actor::Single(_) => {},
        }
    }
}

/// The record of ducks says of the anchor of a big duck among them what that
/// duck has eaten, where no other of them has the same anchor.
pub proof fn lemma_record_finds(ducks: Seq<Actor>, index: int)
    requires
        0 <= index < ducks.len(),
        ducks[index].is_big(),
        forall|i: int|
            0 <= i < ducks.len() && i != index ==> (#[trigger] ducks[i]).position()
                != ducks[index].position(),
    ensures
        recorded(bread_sums(ducks), ducks[index].position()) == Some(ducks[index].bread()),
    decreases ducks.len(),
{
    let rest = ducks.drop_last();
    let position = ducks[index].position();
    if index == ducks.len() - 1 {
        assert forall|i: int|
            0 <= i < rest.len() && (#[trigger] rest[i]).is_big() implies rest[i].position()
            != position by {
            assert(rest[i] == ducks[i]);
        }
        lemma_record_misses(rest, position);
        match ducks.last() {
            Actor::Multi(duck) => {
                lemma_recorded_push(
                    bread_sums(rest),
                    (duck.logic_position, duck.bread_sum),
                    position,
                );
            },
            Actor::Single(_) => {},
        }
    } else {
        assert(rest[index] == ducks[index]);
        assert forall|i: int|
            0 <= i < rest.len() && i != index implies (#[trigger] rest[i]).position()
            != rest[index].position() by {
            assert(rest[i] == ducks[i]);
        }
        lemma_record_finds(rest, index);
        match ducks.last() {
            Actor::Multi(duck) => {
                lemma_recorded_push(
                    bread_sums(rest),
                    (duck.logic_position, duck.bread_sum),
                    position,
                );
            },
            Actor::Single(_) => {},
        }
    }
}

/// Whether two grids have the same rows of the same lengths.
pub open spec fn same_shape(first: Seq<Seq<char>>, second: Seq<Seq<char>>) -> bool {
    &&& first.len() == second.len()
    &&& forall|r: int| 0 <= r < first.len() ==> (#[trigger] first[r]).len() == second[r].len()
}

/// Whether the move that took a duck from `start` to `end` and `grid` to
/// `after` left alone every cell that showed another duck, and put the duck
/// on none of them.
pub open spec fn spares_others(
    grid: Seq<Seq<char>>,
    after: Seq<Seq<char>>,
    start: (int, int),
    end: (int, int),
) -> bool {
    forall|r: int, c: int|
        #![trigger shows_duck(grid, r, c)]
        shows_duck(grid, r, c) && (r, c) != start ==> after[r][c] == grid[r][c] && (r, c) != end
}

/// Whether the move that took a duck from `start` to `end` and `grid` to
/// `after` shows no duck that was not there: but for the cell `end`, a cell
/// that shows a duck showed the same before, and is not `start`.
pub open spec fn shows_no_new_duck(
    grid: Seq<Seq<char>>,
    after: Seq<Seq<char>>,
    start: (int, int),
    end: (int, int),
) -> bool {
    forall|r: int, c: int|
        #![trigger shows_duck(after, r, c)]
        shows_duck(after, r, c) && (r, c) != end ==> after[r][c] == grid[r][c] && (r, c) != start
}

/// The slide of a common duck that moves keeps the shape of the grid, ends
/// on a cell of the grid, shows the duck there, and spares the other ducks.
pub proof fn lemma_slide_spares_others(duck: CommonDuck, direction: Direction, grid: Seq<Seq<char>>)
    requires
        duck.slide_end(direction, grid) != at(duck.logic_position),
    ensures
        same_shape(grid, duck.grid_after_slide(direction, grid)),
        in_bounds(grid, duck.slide_end(direction, grid).0, duck.slide_end(direction, grid).1),
        spares_others(
            grid,
            duck.grid_after_slide(direction, grid),
            at(duck.logic_position),
            duck.slide_end(direction, grid),
        ),
        shows_no_new_duck(
            grid,
            duck.grid_after_slide(direction, grid),
            at(duck.logic_position),
            duck.slide_end(direction, grid),
        ),
        duck.grid_after_slide(direction, grid)[duck.slide_end(direction, grid).0][duck.slide_end(
            direction,
            grid,
        ).1] == duck.after_slide(direction, grid).symbol_on(
            grid[duck.slide_end(direction, grid).0][duck.slide_end(direction, grid).1],
        ),
{
    let (r0, c0) = at(duck.logic_position);
    let end = duck.slide_end(direction, grid);
    let bare = vacated(grid, r0, c0);
    let full = duck.bread_sum == duck.belly_capacity;
    lemma_slide_stays(bare, r0, c0, direction, full);
    lemma_slide_entered(bare, r0, c0, direction, full);
    assert(bare[end.0][end.1] == grid[end.0][end.1]);
}

/// The slide of a big duck that moves, and on whose other three cells no
/// duck is shown, keeps the shape of the grid, ends where the grid has all
/// four cells of the duck, shows the duck there, and spares the other ducks.
pub proof fn lemma_big_slide_spares_others(
    duck: BigDuck,
    direction: Direction,
    grid: Seq<Seq<char>>,
)
    requires
        duck.slide_end(direction, grid) != at(duck.logic_position),
        !shows_duck(grid, duck.logic_position.0 as int, duck.logic_position.1 + 1),
        !shows_duck(grid, duck.logic_position.0 + 1, duck.logic_position.1 as int),
        !shows_duck(grid, duck.logic_position.0 + 1, duck.logic_position.1 + 1),
    ensures
        same_shape(grid, duck.grid_after_slide(direction, grid)),
        block_in_bounds(grid, duck.slide_end(direction, grid).0, duck.slide_end(direction, grid).1),
        spares_others(
            grid,
            duck.grid_after_slide(direction, grid),
            at(duck.logic_position),
            duck.slide_end(direction, grid),
        ),
        shows_no_new_duck(
            grid,
            duck.grid_after_slide(direction, grid),
            at(duck.logic_position),
            duck.slide_end(direction, grid),
        ),
        duck.grid_after_slide(direction, grid)[duck.slide_end(direction, grid).0][duck.slide_end(
            direction,
            grid,
        ).1] == duck.after_slide(direction, grid).symbol_on(
            vacated(
                grid,
                duck.logic_position.0 as int,
                duck.logic_position.1 as int,
            )[duck.slide_end(direction, grid).0][duck.slide_end(direction, grid).1],
        ),
{
    let (r0, c0) = at(duck.logic_position);
    let end = duck.slide_end(direction, grid);
    let bare = vacated(grid, r0, c0);
    let full = duck.bread_sum == duck.belly_capacity;
    let after = duck.grid_after_slide(direction, grid);
    lemma_big_slide_stays(bare, r0, c0, direction, full);
    assert(block_clear(bare, r0, c0));
    lemma_big_slide_keeps_clear(bare, r0, c0, direction, full);
    let (r, c) = end;
    assert(block_clear(bare, r, c));
    let first = eaten(bare, r, c + 1);
    let second = eaten(first, r + 1, c);
    let third = eaten(second, r + 1, c + 1);
    assert(same_shape(bare, first) && same_shape(first, second) && same_shape(second, third));
    assert forall|x: int, y: int|
        #![trigger shows_duck(grid, x, y)]
        shows_duck(grid, x, y) && (x, y) != (r0, c0) implies after[x][y] == grid[x][y] && (x, y)
        != end by {
        assert(bare[x][y] == grid[x][y]);
        assert(shows_duck(bare, x, y));
        assert((x, y) != (r, c) && (x, y) != (r, c + 1) && (x, y) != (r + 1, c) && (x, y) != (
            r + 1,
            c + 1,
        ));
    }
    assert forall|x: int, y: int|
        #![trigger shows_duck(after, x, y)]
        shows_duck(after, x, y) && (x, y) != end implies after[x][y] == grid[x][y] && (x, y) != (
            r0,
            c0,
        ) by {
        assert(!shows_duck(bare, r, c + 1) && !shows_duck(bare, r + 1, c) && !shows_duck(
            bare,
            r + 1,
            c + 1,
        ));
        assert(in_bounds(bare, x, y));
        if (x, y) == (r, c + 1) || (x, y) == (r + 1, c) || (x, y) == (r + 1, c + 1) {
            assert(!shows_duck(after, x, y));
        } else {
            assert(after[x][y] == bare[x][y]);
        }
    }
}

/// The slide of a common duck keeps a tidy grid tidy.
pub proof fn lemma_slide_keeps_tidy(duck: CommonDuck, direction: Direction, grid: Seq<Seq<char>>)
    requires
        tidy(grid),
        duck.slide_end(direction, grid) != at(duck.logic_position),
    ensures
        tidy(duck.grid_after_slide(direction, grid)),
{
    let (r0, c0) = at(duck.logic_position);
    let end = duck.slide_end(direction, grid);
    let bare = vacated(grid, r0, c0);
    let full = duck.bread_sum == duck.belly_capacity;
    let after = duck.grid_after_slide(direction, grid);
    lemma_slide_spares_others(duck, direction, grid);
    lemma_slide_entered(bare, r0, c0, direction, full);
    assert forall|r: int, c: int| #![trigger anchors_big_duck(after, r, c)] anchors_big_duck(
        after,
        r,
        c,
    ) implies !shows_duck(after, r, c + 1) && !shows_duck(after, r + 1, c) && !shows_duck(
        after,
        r + 1,
        c + 1,
    ) by {
        assert(shows_duck(after, r, c));
        assert((r, c) != end);
        assert(anchors_big_duck(grid, r, c));
        assert(anchors_big_duck(bare, r, c));
        lemma_cell_stays_clear(grid, after, (r0, c0), end, r, c + 1);
        lemma_cell_stays_clear(grid, after, (r0, c0), end, r + 1, c);
        lemma_cell_stays_clear(grid, after, (r0, c0), end, r + 1, c + 1);
    }
}

/// A cell that showed no duck shows none after a move, unless the moved duck
/// came to rest on it.
proof fn lemma_cell_stays_clear(
    grid: Seq<Seq<char>>,
    after: Seq<Seq<char>>,
    start: (int, int),
    end: (int, int),
    row: int,
    col: int,
)
    requires
        shows_no_new_duck(grid, after, start, end),
        same_shape(grid, after),
        !shows_duck(grid, row, col),
        (row, col) != end,
    ensures
        !shows_duck(after, row, col),
{
    if shows_duck(after, row, col) {
        assert(after[row][col] == grid[row][col]);
    }
}

/// The slide of a big duck that is shown on a tidy grid keeps the grid tidy.
pub proof fn lemma_big_slide_keeps_tidy(duck: BigDuck, direction: Direction, grid: Seq<Seq<char>>)
    requires
        tidy(grid),
        duck.slide_end(direction, grid) != at(duck.logic_position),
        anchors_big_duck(grid, duck.logic_position.0 as int, duck.logic_position.1 as int),
    ensures
        tidy(duck.grid_after_slide(direction, grid)),
{
    let (r0, c0) = at(duck.logic_position);
    let end = duck.slide_end(direction, grid);
    let bare = vacated(grid, r0, c0);
    let full = duck.bread_sum == duck.belly_capacity;
    let after = duck.grid_after_slide(direction, grid);
    assert(shows_duck(grid, r0, c0));
    lemma_big_slide_spares_others(duck, direction, grid);
    assert(block_clear(bare, r0, c0));
    assert(beside_no_anchor(bare, r0, c0)) by {
        if anchors_big_duck(bare, r0, c0 - 1) {
            assert(anchors_big_duck(grid, r0, c0 - 1));
        }
        if anchors_big_duck(bare, r0 - 1, c0) {
            assert(anchors_big_duck(grid, r0 - 1, c0));
        }
        if anchors_big_duck(bare, r0 - 1, c0 - 1) {
            assert(anchors_big_duck(grid, r0 - 1, c0 - 1));
        }
    }
    lemma_big_slide_keeps_clear(bare, r0, c0, direction, full);
    lemma_big_slide_keeps_apart(bare, r0, c0, direction, full);
    lemma_big_slide_stays(bare, r0, c0, direction, full);
    let (re, ce) = end;
    assert(block_clear(bare, re, ce));
    assert(!shows_duck(after, re, ce + 1) && !shows_duck(after, re + 1, ce) && !shows_duck(
        after,
        re + 1,
        ce + 1,
    ));
    assert forall|r: int, c: int| #![trigger anchors_big_duck(after, r, c)] anchors_big_duck(
        after,
        r,
        c,
    ) implies !shows_duck(after, r, c + 1) && !shows_duck(after, r + 1, c) && !shows_duck(
        after,
        r + 1,
        c + 1,
    ) by {
        if (r, c) != end {
            assert(shows_duck(after, r, c));
            assert(anchors_big_duck(grid, r, c));
            assert(anchors_big_duck(bare, r, c));
            lemma_cell_stays_clear(grid, after, (r0, c0), end, r, c + 1);
            lemma_cell_stays_clear(grid, after, (r0, c0), end, r + 1, c);
            lemma_cell_stays_clear(grid, after, (r0, c0), end, r + 1, c + 1);
        }
    }
}

/// No two ducks of a grid have the same anchor.
pub proof fn lemma_ducks_apart(
    grid: Seq<Seq<char>>,
    record: Seq<((usize, usize), u32)>,
    first: int,
    second: int,
)
    requires
        fits_usize(grid),
        0 <= first < ducks_of(grid, record).len(),
        0 <= second < ducks_of(grid, record).len(),
        first != second,
    ensures
        ducks_of(grid, record)[first].position() != ducks_of(grid, record)[second].position(),
{
    lemma_census(grid, record, grid.len() as int);
    let ducks = ducks_of(grid, record);
    if first < second {
        assert(comes_before(at(ducks[first].position()), at(ducks[second].position())));
    } else {
        assert(comes_before(at(ducks[second].position()), at(ducks[first].position())));
    }
}

/// Whether no duck is shown on a cell that `duck` covers besides its anchor.
pub open spec fn stands_alone(grid: Seq<Seq<char>>, duck: Actor) -> bool {
    match duck {
        Actor::Single(_) => true,
        Actor::Multi(d) => {
            &&& !shows_duck(grid, d.logic_position.0 as int, d.logic_position.1 + 1)
            &&& !shows_duck(grid, d.logic_position.0 + 1, d.logic_position.1 as int)
            &&& !shows_duck(grid, d.logic_position.0 + 1, d.logic_position.1 + 1)
        },
    }
}

/// What a move that changes something does to the grid, whatever the kind of
/// the duck: the grid keeps its shape, the duck comes to rest on cells of
/// the grid, and the other ducks are spared.
pub proof fn lemma_move_spares_others(duck: Actor, direction: Direction, grid: Seq<Seq<char>>)
    requires
        duck.slide_end(direction, grid) != at(duck.position()),
        stands_alone(grid, duck),
    ensures
        same_shape(grid, duck.grid_after_slide(direction, grid)),
        in_bounds(grid, duck.slide_end(direction, grid).0, duck.slide_end(direction, grid).1),
        duck.is_big() ==> block_in_bounds(
            grid,
            duck.slide_end(direction, grid).0,
            duck.slide_end(direction, grid).1,
        ),
        spares_others(
            grid,
            duck.grid_after_slide(direction, grid),
            at(duck.position()),
            duck.slide_end(direction, grid),
        ),
        shows_no_new_duck(
            grid,
            duck.grid_after_slide(direction, grid),
            at(duck.position()),
            duck.slide_end(direction, grid),
        ),
{
    match duck {
        Actor::Single(d) => {
            lemma_slide_spares_others(d, direction, grid);
        },
        Actor::Multi(d) => {
            lemma_big_slide_spares_others(d, direction, grid);
        },
    }
}

/// On a tidy grid a duck that moves is shown at its anchor and has its cells
/// to itself.
proof fn lemma_tidy_duck_stands_alone(session: SessionView, actor: int, direction: Direction)
    requires
        session.wf(),
        fits_usize(session.grid),
        session.moves(actor, direction),
        tidy(session.grid),
    ensures
        stands_alone(session.grid, session.ducks[actor]),
        session.ducks[actor].is_big() ==> anchors_big_duck(
            session.grid,
            session.ducks[actor].position().0 as int,
            session.ducks[actor].position().1 as int,
        ),
{
    let grid = session.grid;
    let mover = session.ducks[actor];
    let (r, c) = at(mover.position());
    lemma_census(grid, session.sums.last(), grid.len() as int);
    assert(duck_at(grid, session.sums.last(), r, c) == Some(mover));
    match mover {
        Actor::Single(_) => {},
        Actor::Multi(duck) => {
            assert(duck.can_move);
            assert(anchors_big_duck(grid, r, c));
        },
    }
}

/// A tidy grid stays tidy: where every duck has its cells to itself before
/// a move, every duck has them to itself after it.
pub proof fn lemma_move_keeps_tidy(session: SessionView, actor: int, direction: Direction)
    requires
        session.wf(),
        fits_usize(session.grid),
        tidy(session.grid),
    ensures
        tidy(session.moved(actor, direction).grid),
{
    if session.moves(actor, direction) {
        lemma_tidy_duck_stands_alone(session, actor, direction);
        match session.ducks[actor] {
            Actor::Single(duck) => {
                lemma_slide_keeps_tidy(duck, direction, session.grid);
            },
            Actor::Multi(duck) => {
                lemma_big_slide_keeps_tidy(duck, direction, session.grid);
            },
        }
    }
}

/// After a move, the cell of every other duck shows that duck as before.
proof fn lemma_other_duck_is_shown(
    session: SessionView,
    actor: int,
    direction: Direction,
    other: int,
)
    requires
        session.wf(),
        fits_usize(session.grid),
        session.moves(actor, direction),
        stands_alone(session.grid, session.ducks[actor]),
        0 <= other < session.ducks.len(),
        other != actor,
    ensures
        in_bounds(
            session.moved(actor, direction).grid,
            session.ducks[other].position().0 as int,
            session.ducks[other].position().1 as int,
        ),
        duck_at(
            session.moved(actor, direction).grid,
            session.moved(actor, direction).sums.last(),
            session.ducks[other].position().0 as int,
            session.ducks[other].position().1 as int,
        ) == Some(session.ducks[other]),
{
    let grid = session.grid;
    let record = session.sums.last();
    let ducks = session.ducks;
    let mover = ducks[actor];
    let duck = ducks[other];
    let end = mover.slide_end(direction, grid);
    let after = mover.grid_after_slide(direction, grid);
    let updated = ducks.update(actor, session.moved_duck(actor, direction));
    let (r, c) = at(duck.position());
    lemma_census(grid, record, grid.len() as int);
    assert(duck_at(grid, record, r, c) == Some(duck));
    lemma_ducks_apart(grid, record, other, actor);
    lemma_move_spares_others(mover, direction, grid);
    assert(shows_duck(grid, r, c));
    assert(after[r][c] == grid[r][c] && (r, c) != end);
    assert forall|i: int| 0 <= i < updated.len() && i != other implies (
    #[trigger] updated[i]).position() != duck.position() by {
        if i != actor {
            lemma_ducks_apart(grid, record, i, other);
        }
    }
    if duck.is_big() {
        lemma_record_finds(updated, other);
    } else {
        lemma_record_misses(updated, duck.position());
    }
    assert(block_in_bounds(after, r, c) == block_in_bounds(grid, r, c));
}

/// After a move, the cell where the moved duck came to rest shows that duck.
proof fn lemma_moved_duck_is_shown(session: SessionView, actor: int, direction: Direction)
    requires
        session.wf(),
        fits_usize(session.grid),
        session.moves(actor, direction),
        stands_alone(session.grid, session.ducks[actor]),
    ensures
        at(session.moved_duck(actor, direction).position()) == session.ducks[actor].slide_end(
            direction,
            session.grid,
        ),
        in_bounds(
            session.moved(actor, direction).grid,
            session.moved_duck(actor, direction).position().0 as int,
            session.moved_duck(actor, direction).position().1 as int,
        ),
        duck_at(
            session.moved(actor, direction).grid,
            session.moved(actor, direction).sums.last(),
            session.moved_duck(actor, direction).position().0 as int,
            session.moved_duck(actor, direction).position().1 as int,
        ) == Some(session.moved_duck(actor, direction)),
        forall|i: int|
            0 <= i < session.ducks.len() && i != actor ==> (#[trigger] session.ducks[i]).position()
                != session.moved_duck(actor, direction).position(),
{
    let grid = session.grid;
    let record = session.sums.last();
    let ducks = session.ducks;
    let mover = ducks[actor];
    let start = at(mover.position());
    let end = mover.slide_end(direction, grid);
    let after = mover.grid_after_slide(direction, grid);
    let moved = session.moved_duck(actor, direction);
    let updated = ducks.update(actor, moved);
    lemma_census(grid, record, grid.len() as int);
    assert(duck_at(grid, record, start.0, start.1) == Some(mover));
    lemma_move_spares_others(mover, direction, grid);
    assert(at(moved.position()) == end);
    assert forall|i: int|
        0 <= i < ducks.len() && i != actor implies (#[trigger] ducks[i]).position()
        != moved.position() by {
        let (r, c) = at(ducks[i].position());
        lemma_ducks_apart(grid, record, i, actor);
        assert(duck_at(grid, record, r, c) == Some(ducks[i]));
        assert(shows_duck(grid, r, c));
    }
    assert forall|i: int| 0 <= i < updated.len() && i != actor implies (
    #[trigger] updated[i]).position() != moved.position() by {
        assert(updated[i] == ducks[i]);
    }
    match mover {
        Actor::Single(d) => {
            lemma_slide_spares_others(d, direction, grid);
            lemma_record_misses(updated, moved.position());
        },
        Actor::Multi(d) => {
            lemma_big_slide_spares_others(d, direction, grid);
            lemma_record_finds(updated, actor);
            assert(block_in_bounds(after, end.0, end.1));
        },
    }
}

/// A move changes the moved duck only: every other duck of the session is
/// among its ducks after the move, as it was before. This holds on a tidy
/// grid.
pub proof fn lemma_other_ducks_stay(
    session: SessionView,
    actor: int,
    direction: Direction,
    other: int,
)
    requires
        session.wf(),
        fits_usize(session.grid),
        session.moves(actor, direction),
        tidy(session.grid),
        0 <= other < session.ducks.len(),
        other != actor,
    ensures
        session.moved(actor, direction).ducks.contains(session.ducks[other]),
{
    lemma_tidy_duck_stands_alone(session, actor, direction);
    let after = session.moved(actor, direction);
    let (r, c) = at(session.ducks[other].position());
    lemma_other_duck_is_shown(session, actor, direction, other);
    lemma_grid_holds(after.grid, after.sums.last(), after.grid.len() as int, r, c);
}

/// The moved duck is among the ducks of the session after the move, at the
/// cell where it came to rest, with what it has eaten and whether it can
/// still move. This holds on a tidy grid.
pub proof fn lemma_moved_duck_is_listed(session: SessionView, actor: int, direction: Direction)
    requires
        session.wf(),
        fits_usize(session.grid),
        session.moves(actor, direction),
        tidy(session.grid),
    ensures
        session.moved(actor, direction).ducks.contains(session.moved_duck(actor, direction)),
{
    lemma_tidy_duck_stands_alone(session, actor, direction);
    let after = session.moved(actor, direction);
    let (r, c) = at(session.moved_duck(actor, direction).position());
    lemma_moved_duck_is_shown(session, actor, direction);
    lemma_grid_holds(after.grid, after.sums.last(), after.grid.len() as int, r, c);
}

/// No duck appears with a move: every duck of the session after the move is
/// the moved duck or one of the other ducks as it was before. This holds on
/// a tidy grid.
pub proof fn lemma_no_duck_appears(
    session: SessionView,
    actor: int,
    direction: Direction,
    index: int,
)
    requires
        session.wf(),
        fits_usize(session.grid),
        session.moves(actor, direction),
        tidy(session.grid),
        0 <= index < session.moved(actor, direction).ducks.len(),
    ensures
        session.ducks.update(actor, session.moved_duck(actor, direction)).contains(
            session.moved(actor, direction).ducks[index],
        ),
{
    lemma_tidy_duck_stands_alone(session, actor, direction);
    let grid = session.grid;
    let record = session.sums.last();
    let ducks = session.ducks;
    let mover = ducks[actor];
    let start = at(mover.position());
    let end = mover.slide_end(direction, grid);
    let after = session.moved(actor, direction);
    let moved = session.moved_duck(actor, direction);
    let updated = ducks.update(actor, moved);
    let duck = after.ducks[index];
    let (r, c) = at(duck.position());
    lemma_move_spares_others(mover, direction, grid);
    lemma_census(after.grid, after.sums.last(), after.grid.len() as int);
    assert(duck_at(after.grid, after.sums.last(), r, c) == Some(duck));
    assert(shows_duck(after.grid, r, c));
    lemma_moved_duck_is_shown(session, actor, direction);
    if (r, c) == end {
        assert(duck == moved);
        assert(updated[actor] == duck);
    } else {
        assert(after.grid[r][c] == grid[r][c] && (r, c) != start);
        assert(block_in_bounds(after.grid, r, c) == block_in_bounds(grid, r, c));
        assert(duck_at(grid, record, r, c) is Some);
        let old = duck_at(grid, record, r, c)->Some_0;
        lemma_grid_holds(grid, record, grid.len() as int, r, c);
        let j = choose|j: int| 0 <= j < ducks.len() && ducks[j] == old;
        lemma_census(grid, record, grid.len() as int);
        assert(duck_at(grid, record, start.0, start.1) == Some(mover));
        assert(at(old.position()) == (r, c));
        assert(j != actor);
        lemma_other_duck_is_shown(session, actor, direction, j);
        assert(duck == ducks[j]);
        assert(updated[j] == duck);
    }
}

/// A move changes one duck: the ducks of the session after the move are the
/// ducks before it with the moved duck in its new state, each of them once,
/// though not always in the same order. This holds on a tidy grid.
pub proof fn lemma_move_changes_one_duck(session: SessionView, actor: int, direction: Direction)
    requires
        session.wf(),
        fits_usize(session.grid),
        session.moves(actor, direction),
        tidy(session.grid),
    ensures
        session.moved(actor, direction).ducks.no_duplicates(),
        session.ducks.update(actor, session.moved_duck(actor, direction)).no_duplicates(),
        session.moved(actor, direction).ducks.to_set() == session.ducks.update(
            actor,
            session.moved_duck(actor, direction),
        ).to_set(),
        session.moved(actor, direction).ducks.len() == session.ducks.len(),
{
    lemma_tidy_duck_stands_alone(session, actor, direction);
    let grid = session.grid;
    let record = session.sums.last();
    let ducks = session.ducks;
    let after = session.moved(actor, direction);
    let moved = session.moved_duck(actor, direction);
    let updated = ducks.update(actor, moved);
    lemma_move_spares_others(ducks[actor], direction, grid);
    lemma_moved_duck_is_shown(session, actor, direction);
    assert forall|i: int, j: int| 0 <= i < after.ducks.len() && 0 <= j < after.ducks.len() && i
        != j implies after.ducks[i] != after.ducks[j] by {
        lemma_ducks_apart(after.grid, after.sums.last(), i, j);
    }
    assert forall|i: int, j: int| 0 <= i < updated.len() && 0 <= j < updated.len() && i
        != j implies updated[i] != updated[j] by {
        if i != actor && j != actor {
            lemma_ducks_apart(grid, record, i, j);
        }
    }
    assert forall|duck: Actor| after.ducks.contains(duck) <==> updated.contains(duck) by {
        if after.ducks.contains(duck) {
            let i = choose|i: int| 0 <= i < after.ducks.len() && after.ducks[i] == duck;
            lemma_no_duck_appears(session, actor, direction, i);
        }
        if updated.contains(duck) {
            let i = choose|i: int| 0 <= i < updated.len() && updated[i] == duck;
            if i == actor {
                lemma_moved_duck_is_listed(session, actor, direction);
            } else {
                lemma_other_ducks_stay(session, actor, direction, i);
            }
        }
    }
    assert(after.ducks.to_set() =~= updated.to_set());
    after.ducks.unique_seq_to_set();
    updated.unique_seq_to_set();
}

} // verus!
