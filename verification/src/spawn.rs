//! The ducks of a grid: which duck each symbol stands for, and the record of
//! what the big ducks have eaten, which the symbols alone do not tell.
use crate::level::{in_bounds, Level, SymbolType};
use crate::movement::block_fits;
use crate::player::{at, Actor, BigDuck, CommonDuck, Duck, BIG_BELLY, COMMON_BELLY};
use crate::slide::block_in_bounds;
use vstd::prelude::*;

verus! {

/// What the first entry of `record` for `position` says, if there is one.
pub open spec fn recorded(record: Seq<((usize, usize), u32)>, position: (usize, usize)) -> Option<
    u32,
>
    decreases record.len(),
{
    if record.len() == 0 {
        None
    } else if record[0].0 == position {
        Some(record[0].1)
    } else {
        recorded(record.drop_first(), position)
    }
}

/// The record of `ducks`: for each big duck among them, in their order, its
/// anchor and the bread it has eaten.
pub open spec fn bread_sums(ducks: Seq<Actor>) -> Seq<((usize, usize), u32)>
    decreases ducks.len(),
{
    if ducks.len() == 0 {
        Seq::empty()
    } else {
        let rest = bread_sums(ducks.drop_last());
        match ducks.last() {
            Actor::Multi(duck) => rest.push((duck.logic_position, duck.bread_sum)),
            Actor::Single(_) => rest,
        }
    }
}

/// A common duck at `position` that has eaten `bread`.
pub open spec fn common_duck(position: (usize, usize), bread: u32, can_move: bool) -> Actor {
    Actor::Single(
        CommonDuck {
            logic_position: position,
            can_move,
            bread_sum: bread,
            belly_capacity: COMMON_BELLY,
        },
    )
}

/// A big duck anchored at `position` that has eaten `bread`.
pub open spec fn big_duck(position: (usize, usize), bread: u32, can_move: bool) -> Actor {
    Actor::Multi(
        BigDuck {
            logic_position: position,
            can_move,
            bread_sum: bread,
            belly_capacity: BIG_BELLY,
        },
    )
}

/// The duck that the symbol at `(row, col)` stands for, if it stands for
/// one. A common duck has eaten what its symbol says. A big duck that is
/// not stuffed has eaten what `record` says of its anchor, and nothing where
/// the record is silent or says that it is stuffed. A duck in the water is a
/// big one where `record` knows its anchor. An anchor of a big duck counts
/// only where the grid has all four cells of the duck, and a cell outside
/// the grid holds no duck.
pub open spec fn duck_at(
    grid: Seq<Seq<char>>,
    record: Seq<((usize, usize), u32)>,
    row: int,
    col: int,
) -> Option<Actor> {
    let symbol = grid[row][col];
    let position = (row as usize, col as usize);
    let fits = block_in_bounds(grid, row, col);
    if !in_bounds(grid, row, col) {
        None
    } else if symbol == 'D' || symbol == 'O' {
        Some(common_duck(position, 0, true))
    } else if symbol == 'Q' {
        Some(common_duck(position, COMMON_BELLY, true))
    } else if symbol == 'P' {
        if fits && recorded(record, position) is Some {
            Some(big_duck(position, BIG_BELLY, false))
        } else {
            Some(common_duck(position, COMMON_BELLY, false))
        }
    } else if (symbol == 'g' || symbol == '&') && fits {
        match recorded(record, position) {
            Some(bread) if bread < BIG_BELLY => Some(big_duck(position, bread, true)),
            _ => Some(big_duck(position, 0, true)),
        }
    } else if (symbol == 'G' || symbol == '$') && fits {
        Some(big_duck(position, BIG_BELLY, true))
    } else {
        None
    }
}

/// The ducks on the first `cols` cells of row `row`, from left to right.
pub open spec fn row_ducks(
    grid: Seq<Seq<char>>,
    record: Seq<((usize, usize), u32)>,
    row: int,
    cols: int,
) -> Seq<Actor>
    decreases cols,
{
    if cols <= 0 {
        Seq::empty()
    } else {
        let rest = row_ducks(grid, record, row, cols - 1);
        match duck_at(grid, record, row, cols - 1) {
            Some(duck) => rest.push(duck),
            None => rest,
        }
    }
}

/// The ducks on the first `rows` rows of `grid`, row by row from the top.
pub open spec fn grid_ducks(
    grid: Seq<Seq<char>>,
    record: Seq<((usize, usize), u32)>,
    rows: int,
) -> Seq<Actor>
    decreases rows,
{
    if rows <= 0 {
        Seq::empty()
    } else {
        grid_ducks(grid, record, rows - 1) + row_ducks(
            grid,
            record,
            rows - 1,
            grid[rows - 1].len() as int,
        )
    }
}

/// All the ducks of `grid`, row by row from the top and from left to right
/// in each row.
pub open spec fn ducks_of(grid: Seq<Seq<char>>, record: Seq<((usize, usize), u32)>) -> Seq<Actor> {
    grid_ducks(grid, record, grid.len() as int)
}

/// Whether `duck` stands on `grid`: the grid has its anchor cell, and all
/// four cells of a big duck.
pub open spec fn stands_on(grid: Seq<Seq<char>>, duck: Actor) -> bool {
    match duck {
        Actor::Single(d) => in_bounds(grid, d.logic_position.0 as int, d.logic_position.1 as int),
        Actor::Multi(d) => block_in_bounds(
            grid,
            d.logic_position.0 as int,
            d.logic_position.1 as int,
        ),
    }
}

/// Every duck among the first `cols` cells of a row stands on the grid.
pub proof fn lemma_row_ducks_stand(
    grid: Seq<Seq<char>>,
    record: Seq<((usize, usize), u32)>,
    row: int,
    cols: int,
)
    requires
        0 <= row < grid.len(),
        cols <= grid[row].len() <= usize::MAX,
        grid.len() <= usize::MAX,
    ensures
        forall|i: int|
            0 <= i < row_ducks(grid, record, row, cols).len() ==> stands_on(
                grid,
                #[trigger] row_ducks(grid, record, row, cols)[i],
            ),
    decreases cols,
{
    if cols > 0 {
        lemma_row_ducks_stand(grid, record, row, cols - 1);
        let rest = row_ducks(grid, record, row, cols - 1);
        let all = row_ducks(grid, record, row, cols);
        assert forall|i: int| 0 <= i < all.len() implies stands_on(grid, #[trigger] all[i]) by {
            if i < rest.len() {
                assert(all[i] == rest[i]);
            }
        }
    }
}

/// Every duck of a grid stands on it. For a big
/// duck, the grid has its anchor, the cell to the right, the cell below and
/// the cell across.
pub proof fn lemma_ducks_stand(
    grid: Seq<Seq<char>>,
    record: Seq<((usize, usize), u32)>,
    rows: int,
)
    requires
        rows <= grid.len() <= usize::MAX,
        forall|r: int| 0 <= r < grid.len() ==> (#[trigger] grid[r]).len() <= usize::MAX,
    ensures
        forall|i: int|
            0 <= i < grid_ducks(grid, record, rows).len() ==> stands_on(
                grid,
                #[trigger] grid_ducks(grid, record, rows)[i],
            ),
    decreases rows,
{
    if rows > 0 {
        lemma_ducks_stand(grid, record, rows - 1);
        lemma_row_ducks_stand(grid, record, rows - 1, grid[rows - 1].len() as int);
        let above = grid_ducks(grid, record, rows - 1);
        let row = row_ducks(grid, record, rows - 1, grid[rows - 1].len() as int);
        let all = grid_ducks(grid, record, rows);
        assert forall|i: int| 0 <= i < all.len() implies stands_on(grid, #[trigger] all[i]) by {
            if i < above.len() {
                assert(all[i] == above[i]);
            } else {
                assert(all[i] == row[i - above.len()]);
            }
        }
    }
}

/// What `record` says of `position`: the bread in its first entry for it.
pub fn find_bread_sum(record: &Vec<((usize, usize), u32)>, position: (usize, usize)) -> (found:
    Option<u32>)
    ensures
        found == recorded(record@, position),
{
    let mut i: usize = 0;
    proof {
        assert(record@.skip(0) =~= record@);
    }
    while i < record.len()
        invariant
            i <= record.len(),
            recorded(record@, position) == recorded(record@.skip(i as int), position),
        decreases record.len() - i,
    {
        let entry = record[i];
        if entry.0.0 == position.0 && entry.0.1 == position.1 {
            return Some(entry.1);
        }
        assert(record@.skip(i as int).drop_first() =~= record@.skip(i + 1));
        i += 1;
    }
    None
}

/// Records what the big ducks among `ducks` have eaten.
pub fn bread_sum_record(ducks: &Vec<Actor>) -> (record: Vec<((usize, usize), u32)>)
    ensures
        record@ == bread_sums(ducks@),
{
    let mut record: Vec<((usize, usize), u32)> = Vec::new();
    let mut i: usize = 0;
    while i < ducks.len()
        invariant
            i <= ducks.len(),
            record@ == bread_sums(ducks@.take(i as int)),
        decreases ducks.len() - i,
    {
        assert(ducks@.take(i + 1).drop_last() =~= ducks@.take(i as int));
        if let Actor::Multi(duck) = ducks[i] {
            record.push((duck.get_logic_position(), duck.get_bread_sum()));
        }
        i += 1;
    }
    assert(ducks@.take(i as int) =~= ducks@);
    record
}

/// The duck that the symbol at `position` stands for, if it stands for one.
pub fn spawn_duck(
    level: &Level,
    record: &Vec<((usize, usize), u32)>,
    position: (usize, usize),
) -> (duck: Option<Actor>)
    ensures
        duck == duck_at(level@, record@, position.0 as int, position.1 as int),
{
    let symbol = match level.get(position) {
        Ok(symbol) => symbol,
        Err(_) => {
            return None;
        },
    };
    let kind = match SymbolType::from_symbol(symbol) {
        Some(kind) => kind,
        None => {
            return None;
        },
    };
    match kind {
        SymbolType::DuckOnIce | SymbolType::DuckOnBreakingIce => Some(
            Actor::Single(
                CommonDuck {
                    logic_position: position,
                    can_move: true,
                    bread_sum: 0,
                    belly_capacity: COMMON_BELLY,
                },
            ),
        ),
        SymbolType::StuffedDuckOnIce => Some(
            Actor::Single(
                CommonDuck {
                    logic_position: position,
                    can_move: true,
                    bread_sum: COMMON_BELLY,
                    belly_capacity: COMMON_BELLY,
                },
            ),
        ),
        SymbolType::DuckOnWater => {
            if block_fits(level, position) && find_bread_sum(record, position).is_some() {
                Some(
                    Actor::Multi(
                        BigDuck {
                            logic_position: position,
                            can_move: false,
                            bread_sum: BIG_BELLY,
                            belly_capacity: BIG_BELLY,
                        },
                    ),
                )
            } else {
                Some(
                    Actor::Single(
                        CommonDuck {
                            logic_position: position,
                            can_move: false,
                            bread_sum: COMMON_BELLY,
                            belly_capacity: COMMON_BELLY,
                        },
                    ),
                )
            }
        },
        SymbolType::BigDuckOnIce | SymbolType::BigDuckOnBreakingIce => {
            if block_fits(level, position) {
                let bread = match find_bread_sum(record, position) {
                    Some(bread) => if bread < BIG_BELLY {
                        bread
                    } else {
                        0
                    },
                    None => 0,
                };
                Some(
                    Actor::Multi(
                        BigDuck {
                            logic_position: position,
                            can_move: true,
                            bread_sum: bread,
                            belly_capacity: BIG_BELLY,
                        },
                    ),
                )
            } else {
                None
            }
        },
        SymbolType::StuffedBigDuckOnIce | SymbolType::StuffedBigDuckOnBreakingIce => {
            if block_fits(level, position) {
                Some(
                    Actor::Multi(
                        BigDuck {
                            logic_position: position,
                            can_move: true,
                            bread_sum: BIG_BELLY,
                            belly_capacity: BIG_BELLY,
                        },
                    ),
                )
            } else {
                None
            }
        },
        _ => None,
    }
}

/// All the ducks of `level`, row by row from the top and from left to right
/// in each row, with what `record` says the big ducks have eaten.
pub fn spawn_ducks(level: &Level, record: &Vec<((usize, usize), u32)>) -> (ducks: Vec<Actor>)
    ensures
        ducks@ == ducks_of(level@, record@),
{
    let mut ducks: Vec<Actor> = Vec::new();
    let mut r: usize = 0;
    while r < level.0.len()
        invariant
            r <= level.0.len(),
            ducks@ == grid_ducks(level@, record@, r as int),
        decreases level.0.len() - r,
    {
        let ghost above = ducks@;
        let mut c: usize = 0;
        assert(above + row_ducks(level@, record@, r as int, 0) =~= above);
        while c < level.0[r].len()
            invariant
                r < level.0.len(),
                c <= level@[r as int].len(),
                ducks@ == above + row_ducks(level@, record@, r as int, c as int),
            decreases level@[r as int].len() - c,
        {
            let ghost left = row_ducks(level@, record@, r as int, c as int);
            if let Some(duck) = spawn_duck(level, record, (r, c)) {
                ducks.push(duck);
                assert(above + left.push(duck) =~= (above + left).push(duck));
            }
            c += 1;
        }
        r += 1;
    }
    ducks
}

/// The index of the first duck among `ducks` whose anchor is at
/// `logic_position`, if there is one.
pub fn get_entity_on_logic_position(logic_position: (usize, usize), ducks: &Vec<Actor>) -> (found:
    Option<usize>)
    ensures
        match found {
            Some(index) => index < ducks@.len() && ducks@[index as int].position() == logic_position
                && forall|i: int| 0 <= i < index ==> ducks@[i].position() != logic_position,
            None => forall|i: int| 0 <= i < ducks@.len() ==> ducks@[i].position() != logic_position,
        },
{
    let mut index: usize = 0;
    while index < ducks.len()
        invariant
            index <= ducks.len(),
            forall|i: int| 0 <= i < index ==> ducks@[i].position() != logic_position,
        decreases ducks.len() - index,
    {
        let position = ducks[index].get_logic_position();
        if position.0 == logic_position.0 && position.1 == logic_position.1 {
            return Some(index);
        }
        index += 1;
    }
    None
}

} // verus!
