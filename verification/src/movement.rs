//! The slide: how a duck moves over the grid, what it eats and where it
//! falls through, and how the grid shows it afterwards.
use crate::level::{grid_bread, in_bounds, put, Level, SymbolType};
use crate::player::{at, fed, is_full, Actor, BigDuck, CommonDuck, Duck};
use crate::slide::{
    ahead, anchors_big_duck, big_can_step, big_halts_at, big_slide, block_bread, block_breaking,
    block_in_bounds, can_enter, cells_ahead, eaten, fed_on_block, ground_under, halts_on,
    in_big_duck, is_open_ice, is_wall_or_edge, lemma_big_slide_stays, lemma_free_big_slide,
    lemma_free_slide, lemma_put_no_bread, lemma_slide_stays, reaches, room, settled, shake_wave,
    slide, sunk, symbol_allows, vacated,
};
use crate::utils::Direction;
use vstd::prelude::*;

verus! {

/// The cell one step from `position` in `direction`, if its indices can be
/// named; `Idle` has none.
pub fn step(position: (usize, usize), direction: Direction) -> (next: Option<(usize, usize)>)
    ensures
        match next {
            Some(cell) => direction != Direction::Idle && at(cell) == (
                position.0 + direction.row_delta(),
                position.1 + direction.col_delta(),
            ),
            None => direction == Direction::Idle || position.0 + direction.row_delta() < 0
                || position.0 + direction.row_delta() > usize::MAX || position.1
                + direction.col_delta() < 0 || position.1 + direction.col_delta() > usize::MAX,
        },
{
    let (r, c) = position;
    match direction {
        Direction::Up => if r > 0 {
            Some((r - 1, c))
        } else {
            None
        },
        Direction::Down => if r < usize::MAX {
            Some((r + 1, c))
        } else {
            None
        },
        Direction::Left => if c > 0 {
            Some((r, c - 1))
        } else {
            None
        },
        Direction::Right => if c < usize::MAX {
            Some((r, c + 1))
        } else {
            None
        },
        Direction::Idle => None,
    }
}

/// Whether `duck` may step on a cell that shows `symbol`.
pub fn is_valid_move<D: Duck>(symbol: char, duck: &D) -> (valid: bool)
    ensures
        valid == symbol_allows(symbol, is_full(duck)),
{
    symbol != SymbolType::Wall.get_symbol() && symbol != SymbolType::DuckOnIce.get_symbol()
        && symbol != SymbolType::DuckOnWater.get_symbol()
        && symbol != SymbolType::DuckOnBreakingIce.get_symbol()
        && symbol != SymbolType::StuffedDuckOnIce.get_symbol() && (!duck.is_stuffed() || symbol
        != SymbolType::BreadOnIce.get_symbol())
}

/// What happens to `duck` on the cell it has just entered, which showed
/// `symbol`: it eats bread, and it falls through breaking ice if it is
/// stuffed. Says whether either stopped the slide.
pub fn collide_with_object<D: Duck>(symbol: char, duck: &mut D) -> (halted: bool)
    ensures
        halted == halts_on(symbol, is_full(old(duck))),
        final(duck).position() == old(duck).position(),
        final(duck).belly() == old(duck).belly(),
        final(duck).is_big() == old(duck).is_big(),
        final(duck).bread() == if symbol == 'B' {
            fed(old(duck).bread(), old(duck).belly())
        } else {
            old(duck).bread()
        },
        final(duck).movable() == if symbol == '*' && is_full(old(duck)) {
            false
        } else {
            old(duck).movable()
        },
{
    if symbol == SymbolType::BreadOnIce.get_symbol() {
        duck.eat_bread();
        return true;
    }
    if symbol == SymbolType::BreakingIce.get_symbol() && duck.is_stuffed() {
        duck.set_can_move(false);
        return true;
    }
    false
}

/// Whether a big duck is anchored at `position`.
fn is_big_duck_anchor(level: &Level, position: (usize, usize)) -> (found: bool)
    ensures
        found == anchors_big_duck(level@, position.0 as int, position.1 as int),
{
    match level.get(position) {
        Ok(symbol) => symbol == SymbolType::BigDuckOnIce.get_symbol() || symbol
            == SymbolType::StuffedBigDuckOnIce.get_symbol() || symbol
            == SymbolType::BigDuckOnBreakingIce.get_symbol() || symbol
            == SymbolType::StuffedBigDuckOnBreakingIce.get_symbol(),
        Err(_) => false,
    }
}

/// Whether `position` is one of the four cells of a big duck.
pub fn is_in_big_duck(level: &Level, position: (usize, usize)) -> (covered: bool)
    ensures
        covered == in_big_duck(level@, position.0 as int, position.1 as int),
{
    let (r, c) = position;
    is_big_duck_anchor(level, (r, c)) || (c > 0 && is_big_duck_anchor(level, (r, c - 1))) || (r > 0
        && is_big_duck_anchor(level, (r - 1, c))) || (r > 0 && c > 0 && is_big_duck_anchor(
        level,
        (r - 1, c - 1),
    ))
}

/// Whether `duck` may step on `target`.
pub fn may_enter<D: Duck>(level: &Level, target: (usize, usize), duck: &D) -> (free: bool)
    ensures
        free == can_enter(level@, target.0 as int, target.1 as int, is_full(duck)),
{
    match level.get(target) {
        Ok(symbol) => is_valid_move(symbol, duck) && !is_in_big_duck(level, target),
        Err(_) => false,
    }
}

impl CommonDuck {
    /// The symbol that shows this duck on a cell that showed `landed` before
    /// the duck came.
    pub open spec fn symbol_on(self, landed: char) -> char {
        if !self.can_move {
            'P'
        } else if landed == '*' {
            'O'
        } else if self.bread_sum == self.belly_capacity {
            'Q'
        } else {
            'D'
        }
    }

    /// Whether a slide of this duck on `grid` is declined: the duck is stuck,
    /// or the grid has no cell at its position.
    pub open spec fn declines(self, grid: Seq<Seq<char>>) -> bool {
        !self.can_move || !in_bounds(
            grid,
            self.logic_position.0 as int,
            self.logic_position.1 as int,
        )
    }

    /// Where a slide in `direction` on `grid` ends.
    pub open spec fn slide_end(self, direction: Direction, grid: Seq<Seq<char>>) -> (int, int) {
        let (r, c) = at(self.logic_position);
        if self.declines(grid) {
            (r, c)
        } else {
            slide(vacated(grid, r, c), r, c, direction, self.bread_sum == self.belly_capacity)
        }
    }

    /// The duck after a slide in `direction` on `grid`, but for its position,
    /// which the slide leaves to the caller.
    pub open spec fn after_slide(self, direction: Direction, grid: Seq<Seq<char>>) -> CommonDuck {
        let (r, c) = at(self.logic_position);
        let end = self.slide_end(direction, grid);
        if end == (r, c) {
            self
        } else {
            let landed = vacated(grid, r, c)[end.0][end.1];
            CommonDuck {
                logic_position: self.logic_position,
                can_move: !(landed == '*' && self.bread_sum == self.belly_capacity),
                bread_sum: if landed == 'B' {
                    fed(self.bread_sum, self.belly_capacity)
                } else {
                    self.bread_sum
                },
                belly_capacity: self.belly_capacity,
            }
        }
    }

    /// The grid after a slide in `direction` on `grid`: the cell that the
    /// duck left shows the ground under it, the cell where it came to rest
    /// shows the duck.
    pub open spec fn grid_after_slide(self, direction: Direction, grid: Seq<Seq<char>>) -> Seq<
        Seq<char>,
    > {
        let (r, c) = at(self.logic_position);
        let end = self.slide_end(direction, grid);
        if end == (r, c) {
            grid
        } else {
            let ground = vacated(grid, r, c);
            put(
                ground,
                end.0,
                end.1,
                self.after_slide(direction, grid).symbol_on(ground[end.0][end.1]),
            )
        }
    }
}

/// Lets `duck` slide over `level` in `direction` until something stops it,
/// and returns the cell where it comes to rest. The duck eats and may get
/// stuck on the way, and the grid shows it at its new cell; the position of
/// the duck itself is left for the caller to set. A duck that is stuck or
/// stands outside the grid is not moved.
pub fn slip(duck: &mut CommonDuck, direction: Direction, level: &mut Level) -> (end: (
    usize,
    usize,
))
    ensures
        at(end) == old(duck).slide_end(direction, old(level)@),
        *final(duck) == old(duck).after_slide(direction, old(level)@),
        final(level)@ == old(duck).grid_after_slide(direction, old(level)@),
{
    let start = duck.get_logic_position();
    if !duck.can_move() {
        return start;
    }
    let here = match level.get(start) {
        Ok(symbol) => symbol,
        Err(_) => {
            return start;
        },
    };
    let ground = if here == SymbolType::DuckOnBreakingIce.get_symbol() || here
        == SymbolType::BigDuckOnBreakingIce.get_symbol() || here
        == SymbolType::StuffedBigDuckOnBreakingIce.get_symbol() {
        SymbolType::BreakingIce.get_symbol()
    } else {
        SymbolType::Ice.get_symbol()
    };
    let _ = level.set(start, ground);
    let ghost before = *duck;
    let ghost full = before.bread_sum == before.belly_capacity;
    let ghost bare = level@;
    let mut position = start;
    let mut sliding = true;
    while sliding
        invariant
            level@ == bare,
            full == (before.bread_sum == before.belly_capacity),
            before.can_move,
            in_bounds(bare, position.0 as int, position.1 as int),
            sliding && position != start ==> !halts_on(
                bare[position.0 as int][position.1 as int],
                full,
            ),
            reaches(at(start), at(position), direction),
            duck.logic_position == before.logic_position,
            duck.belly_capacity == before.belly_capacity,
            sliding ==> *duck == before && slide(
                bare,
                start.0 as int,
                start.1 as int,
                direction,
                full,
            ) == slide(bare, position.0 as int, position.1 as int, direction, full),
            !sliding ==> at(position) == slide(
                bare,
                start.0 as int,
                start.1 as int,
                direction,
                full,
            ),
            !sliding && position == start ==> *duck == before,
            !sliding && position != start ==> ({
                let landed = bare[position.0 as int][position.1 as int];
                &&& duck.can_move == !(landed == '*' && full)
                &&& duck.bread_sum == if landed == 'B' {
                    fed(before.bread_sum, before.belly_capacity)
                } else {
                    before.bread_sum
                }
            }),
        decreases
                room(bare, position.0 as int, position.1 as int, direction) + if sliding {
                    1int
                } else {
                    0int
                },
    {
        sliding = false;
        let ghost from = position;
        if let Some(next) = step(position, direction) {
            if may_enter(level, next, duck) {
                position = next;
                let symbol = match level.get(position) {
                    Ok(symbol) => symbol,
                    Err(_) => ground,
                };
                if !collide_with_object(symbol, duck) {
                    sliding = true;
                    assert(*duck == before);
                }
            } else {
                assert(!can_enter(bare, next.0 as int, next.1 as int, full));
            }
        } else {
            assert(bare.len() == level.0.len());
            assert(bare[from.0 as int].len() == level.0[from.0 as int].len());
            assert(direction != Direction::Idle ==> !can_enter(
                bare,
                from.0 + direction.row_delta(),
                from.1 + direction.col_delta(),
                full,
            ));
        }
    }
    if position.0 == start.0 && position.1 == start.1 {
        let _ = level.set(start, here);
        assert(level@ =~~= old(level)@);
        return start;
    }
    let landed = match level.get(position) {
        Ok(symbol) => symbol,
        Err(_) => ground,
    };
    let symbol = if !duck.can_move() {
        SymbolType::DuckOnWater.get_symbol()
    } else if landed == SymbolType::BreakingIce.get_symbol() {
        SymbolType::DuckOnBreakingIce.get_symbol()
    } else if duck.is_stuffed() {
        SymbolType::StuffedDuckOnIce.get_symbol()
    } else {
        SymbolType::DuckOnIce.get_symbol()
    };
    let _ = level.set(position, symbol);
    position
}

impl BigDuck {
    /// The symbol that shows the anchor of this duck on a cell that showed
    /// `landed` before the duck came.
    pub open spec fn symbol_on(self, landed: char) -> char {
        if !self.can_move {
            'P'
        } else if landed == '*' {
            if self.bread_sum == self.belly_capacity {
                '$'
            } else {
                '&'
            }
        } else if self.bread_sum == self.belly_capacity {
            'G'
        } else {
            'g'
        }
    }

    /// Whether a slide of this duck on `grid` is declined: the duck is stuck,
    /// or the grid lacks one of its four cells.
    pub open spec fn declines(self, grid: Seq<Seq<char>>) -> bool {
        !self.can_move || !block_in_bounds(
            grid,
            self.logic_position.0 as int,
            self.logic_position.1 as int,
        )
    }

    /// Where a slide in `direction` on `grid` ends.
    pub open spec fn slide_end(self, direction: Direction, grid: Seq<Seq<char>>) -> (int, int) {
        let (r, c) = at(self.logic_position);
        if self.declines(grid) {
            (r, c)
        } else {
            big_slide(vacated(grid, r, c), r, c, direction, self.bread_sum == self.belly_capacity)
        }
    }

    /// The duck after a slide in `direction` on `grid`, but for its position,
    /// which the slide leaves to the caller.
    pub open spec fn after_slide(self, direction: Direction, grid: Seq<Seq<char>>) -> BigDuck {
        let (r, c) = at(self.logic_position);
        let end = self.slide_end(direction, grid);
        if end == (r, c) {
            self
        } else {
            let ground = vacated(grid, r, c);
            BigDuck {
                logic_position: self.logic_position,
                can_move: !(block_bread(ground, end.0, end.1) == 0 && self.bread_sum
                    == self.belly_capacity && block_breaking(ground, end.0, end.1)),
                bread_sum: fed_on_block(
                    ground,
                    end.0,
                    end.1,
                    self.bread_sum,
                    self.belly_capacity,
                ),
                belly_capacity: self.belly_capacity,
            }
        }
    }

    /// The grid after a slide in `direction` on `grid`: the cell that the
    /// anchor left shows the ground under it; where the duck came to rest,
    /// the bread is eaten and the anchor shows the duck, or the duck has
    /// sunk.
    pub open spec fn grid_after_slide(self, direction: Direction, grid: Seq<Seq<char>>) -> Seq<
        Seq<char>,
    > {
        let (r, c) = at(self.logic_position);
        let end = self.slide_end(direction, grid);
        if end == (r, c) {
            grid
        } else {
            let ground = vacated(grid, r, c);
            let duck = self.after_slide(direction, grid);
            if duck.can_move {
                settled(ground, end.0, end.1, duck.symbol_on(ground[end.0][end.1]))
            } else {
                sunk(ground, end.0, end.1)
            }
        }
    }
}

/// Whether the grid has the four cells of a big duck anchored at `position`.
pub fn block_fits(level: &Level, position: (usize, usize)) -> (fits: bool)
    ensures
        fits == block_in_bounds(level@, position.0 as int, position.1 as int),
{
    let (r, c) = position;
    if r == usize::MAX || c == usize::MAX {
        assert(level@.len() == level.0.len());
        assert(in_bounds(level@, r as int, c as int) ==> level@[r as int].len()
            == level.0[r as int].len());
        return false;
    }
    level.get((r, c)).is_ok() && level.get((r, c + 1)).is_ok() && level.get((r + 1, c)).is_ok()
        && level.get((r + 1, c + 1)).is_ok()
}

/// Whether `position` holds `symbol`.
fn shows(level: &Level, position: (usize, usize), symbol: char) -> (found: bool)
    ensures
        found == (in_bounds(level@, position.0 as int, position.1 as int)
            && level@[position.0 as int][position.1 as int] == symbol),
{
    match level.get(position) {
        Ok(there) => there == symbol,
        Err(_) => false,
    }
}

/// Whether a big duck anchored at `position` may take one step in
/// `direction`.
fn big_may_step(
    level: &Level,
    position: (usize, usize),
    direction: Direction,
    duck: &BigDuck,
) -> (free: bool)
    requires
        position.0 < usize::MAX,
        position.1 < usize::MAX,
    ensures
        free == big_can_step(
            level@,
            position.0 as int,
            position.1 as int,
            direction,
            is_full(duck),
        ),
{
    let mut probe = *duck;
    probe.set_logic_position(position);
    proof {
        assert(level@.len() == level.0.len());
        assert(forall|r: int| 0 <= r < level@.len() ==> level@[r].len() == level.0[r].len());
    }
    match probe.get_edge_positions(direction) {
        Some((first, second)) => match (step(first, direction), step(second, direction)) {
            (Some(a), Some(b)) => may_enter(level, a, duck) && may_enter(level, b, duck),
            _ => false,
        },
        None => false,
    }
}

/// Lets `duck` eat the bread that lies on the four cells of a big duck
/// anchored at `position`, and says whether there was any.
fn eat_on_block(level: &Level, position: (usize, usize), duck: &mut BigDuck) -> (ate: bool)
    requires
        position.0 < usize::MAX,
        position.1 < usize::MAX,
    ensures
        ate == (block_bread(level@, position.0 as int, position.1 as int) > 0),
        final(duck).bread_sum == fed_on_block(
            level@,
            position.0 as int,
            position.1 as int,
            old(duck).bread_sum,
            old(duck).belly_capacity,
        ),
        final(duck).logic_position == old(duck).logic_position,
        final(duck).can_move == old(duck).can_move,
        final(duck).belly_capacity == old(duck).belly_capacity,
{
    let (r, c) = position;
    let bread = SymbolType::BreadOnIce.get_symbol();
    let mut ate = false;
    if shows(level, (r, c), bread) {
        duck.eat_bread();
        ate = true;
    }
    if shows(level, (r, c + 1), bread) {
        duck.eat_bread();
        ate = true;
    }
    if shows(level, (r + 1, c), bread) {
        duck.eat_bread();
        ate = true;
    }
    if shows(level, (r + 1, c + 1), bread) {
        duck.eat_bread();
        ate = true;
    }
    ate
}

/// Whether all four cells of a big duck anchored at `position` are breaking
/// ice.
fn block_is_breaking(level: &Level, position: (usize, usize)) -> (breaking: bool)
    requires
        position.0 < usize::MAX,
        position.1 < usize::MAX,
    ensures
        breaking == block_breaking(level@, position.0 as int, position.1 as int),
{
    let (r, c) = position;
    let ice = SymbolType::BreakingIce.get_symbol();
    shows(level, (r, c), ice) && shows(level, (r, c + 1), ice) && shows(level, (r + 1, c), ice)
        && shows(level, (r + 1, c + 1), ice)
}

/// Leaves plain ice at `position` where it holds bread.
fn clear_bread(level: &mut Level, position: (usize, usize))
    ensures
        final(level)@ == eaten(old(level)@, position.0 as int, position.1 as int),
{
    if shows(level, position, SymbolType::BreadOnIce.get_symbol()) {
        let _ = level.set(position, SymbolType::Ice.get_symbol());
    }
}

/// Shows on the grid a big duck that has come to rest at `position`: where
/// it can still move, the bread under it is eaten and its anchor shows it;
/// where it cannot, it has sunk.
fn settle_big(level: &mut Level, position: (usize, usize), duck: &BigDuck)
    requires
        block_in_bounds(old(level)@, position.0 as int, position.1 as int),
    ensures
        final(level)@ == if duck.can_move {
            settled(
                old(level)@,
                position.0 as int,
                position.1 as int,
                duck.symbol_on(old(level)@[position.0 as int][position.1 as int]),
            )
        } else {
            sunk(old(level)@, position.0 as int, position.1 as int)
        },
{
    let (r, c) = position;
    proof {
        assert(level@.len() == level.0.len());
        assert(level@[r as int].len() == level.0[r as int].len());
    }
    if duck.can_move() {
        let landed = match level.get(position) {
            Ok(symbol) => symbol,
            Err(_) => SymbolType::Ice.get_symbol(),
        };
        let full = duck.is_stuffed();
        let symbol = if landed == SymbolType::BreakingIce.get_symbol() {
            if full {
                SymbolType::StuffedBigDuckOnBreakingIce.get_symbol()
            } else {
                SymbolType::BigDuckOnBreakingIce.get_symbol()
            }
        } else if full {
            SymbolType::StuffedBigDuckOnIce.get_symbol()
        } else {
            SymbolType::BigDuckOnIce.get_symbol()
        };
        clear_bread(level, (r, c + 1));
        clear_bread(level, (r + 1, c));
        clear_bread(level, (r + 1, c + 1));
        let _ = level.set(position, symbol);
    } else {
        let _ = level.set(position, SymbolType::DuckOnWater.get_symbol());
        let _ = level.set((r, c + 1), SymbolType::BrokenIce.get_symbol());
        let _ = level.set((r + 1, c), SymbolType::BrokenIce.get_symbol());
        let _ = level.set((r + 1, c + 1), SymbolType::BrokenIce.get_symbol());
    }
}

/// Lets the big duck `duck` slide over `level` in `direction` until
/// something stops it, and returns the cell where its anchor comes to rest.
/// All four cells move by one row or column with each step. The duck eats
/// and may get stuck on the way, and the grid shows it at its new place; the
/// position of the duck itself is left for the caller to set. A duck that is
/// stuck, or one of whose cells lies outside the grid, is not moved.
pub fn slip_big(duck: &mut BigDuck, direction: Direction, level: &mut Level) -> (end: (
    usize,
    usize,
))
    ensures
        at(end) == old(duck).slide_end(direction, old(level)@),
        *final(duck) == old(duck).after_slide(direction, old(level)@),
        final(level)@ == old(duck).grid_after_slide(direction, old(level)@),
{
    let start = duck.get_logic_position();
    if !duck.can_move() || !block_fits(level, start) {
        return start;
    }
    let here = match level.get(start) {
        Ok(symbol) => symbol,
        Err(_) => {
            return start;
        },
    };
    let ground = if here == SymbolType::DuckOnBreakingIce.get_symbol() || here
        == SymbolType::BigDuckOnBreakingIce.get_symbol() || here
        == SymbolType::StuffedBigDuckOnBreakingIce.get_symbol() {
        SymbolType::BreakingIce.get_symbol()
    } else {
        SymbolType::Ice.get_symbol()
    };
    let _ = level.set(start, ground);
    let ghost before = *duck;
    let ghost full = before.bread_sum == before.belly_capacity;
    let ghost bare = level@;
    let mut position = start;
    let mut sliding = true;
    while sliding
        invariant
            level@ == bare,
            full == (before.bread_sum == before.belly_capacity),
            before.can_move,
            block_in_bounds(bare, position.0 as int, position.1 as int),
            reaches(at(start), at(position), direction),
            duck.logic_position == before.logic_position,
            duck.belly_capacity == before.belly_capacity,
            sliding && position != start ==> !big_halts_at(
                bare,
                position.0 as int,
                position.1 as int,
                full,
            ),
            sliding ==> *duck == before && big_slide(
                bare,
                start.0 as int,
                start.1 as int,
                direction,
                full,
            ) == big_slide(bare, position.0 as int, position.1 as int, direction, full),
            !sliding ==> at(position) == big_slide(
                bare,
                start.0 as int,
                start.1 as int,
                direction,
                full,
            ),
            !sliding && position == start ==> *duck == before,
            !sliding && position != start ==> duck.can_move == !(block_bread(
                bare,
                position.0 as int,
                position.1 as int,
            ) == 0 && full && block_breaking(bare, position.0 as int, position.1 as int))
                && duck.bread_sum == fed_on_block(
                bare,
                position.0 as int,
                position.1 as int,
                before.bread_sum,
                before.belly_capacity,
            ),
        decreases
                room(bare, position.0 as int, position.1 as int, direction) + if sliding {
                    1int
                } else {
                    0int
                },
    {
        sliding = false;
        proof {
            assert(bare.len() == level.0.len());
            assert(bare[position.0 as int].len() == level.0[position.0 as int].len());
        }
        if big_may_step(level, position, direction, duck) {
            if let Some(next) = step(position, direction) {
                position = next;
                if eat_on_block(level, position, duck) {
                } else if duck.is_stuffed() && block_is_breaking(level, position) {
                    duck.set_can_move(false);
                } else {
                    sliding = true;
                    assert(*duck == before);
                }
            }
        }
    }
    if position.0 == start.0 && position.1 == start.1 {
        let _ = level.set(start, here);
        assert(level@ =~~= old(level)@);
        return start;
    }
    settle_big(level, position, duck);
    position
}

/// The ducks that a duck pushes against when it comes to rest at `position`
/// after a move in `direction`: the cells beyond it that show a common duck,
/// one after the other, up to the first cell that shows none. Reads the grid
/// and changes nothing.
pub fn shake_in_direction(level: &Level, position: (usize, usize), direction: Direction) -> (wave:
    Vec<(usize, usize)>)
    ensures
        wave@ == shake_wave(level@, position.0 as int, position.1 as int, direction),
{
    let mut wave: Vec<(usize, usize)> = Vec::new();
    let mut cell = position;
    let mut looking = true;
    proof {
        assert(wave@ + shake_wave(level@, position.0 as int, position.1 as int, direction)
            =~= shake_wave(level@, position.0 as int, position.1 as int, direction));
    }
    while looking
        invariant
            looking ==> shake_wave(level@, position.0 as int, position.1 as int, direction)
                == wave@ + shake_wave(level@, cell.0 as int, cell.1 as int, direction),
            !looking ==> shake_wave(level@, position.0 as int, position.1 as int, direction)
                == wave@,
        decreases
                (if room(level@, cell.0 as int, cell.1 as int, direction) > 0 {
                    room(level@, cell.0 as int, cell.1 as int, direction)
                } else {
                    0int
                }) + if looking {
                    1int
                } else {
                    0int
                },
    {
        looking = false;
        let ghost from = cell;
        let ghost found = wave@;
        proof {
            assert(level@.len() == level.0.len());
            assert(in_bounds(level@, from.0 as int, from.1 as int) ==> level@[from.0 as int].len()
                == level.0[from.0 as int].len());
        }
        if let Some(next) = step(cell, direction) {
            if let Ok(symbol) = level.get(next) {
                if symbol == SymbolType::DuckOnBreakingIce.get_symbol() || symbol
                    == SymbolType::DuckOnIce.get_symbol() || symbol
                    == SymbolType::DuckOnWater.get_symbol() || symbol
                    == SymbolType::StuffedDuckOnIce.get_symbol() {
                    wave.push(next);
                    cell = next;
                    looking = true;
                    assert(wave@ + shake_wave(level@, next.0 as int, next.1 as int, direction)
                        =~= found + (seq![next] + shake_wave(
                        level@,
                        next.0 as int,
                        next.1 as int,
                        direction,
                    )));
                }
            }
        }
        if !looking {
            assert(shake_wave(level@, from.0 as int, from.1 as int, direction) =~= Seq::<
                (usize, usize),
            >::empty());
            assert(found + Seq::<(usize, usize)>::empty() =~= found);
        }
    }
    wave
}

/// The slide of a common duck leaves no more bread on the grid than there
/// was.
pub proof fn lemma_slide_eats(duck: CommonDuck, direction: Direction, grid: Seq<Seq<char>>)
    ensures
        grid_bread(duck.grid_after_slide(direction, grid)) <= grid_bread(grid),
{
    let (r, c) = at(duck.logic_position);
    let end = duck.slide_end(direction, grid);
    if end != (r, c) {
        let ground = vacated(grid, r, c);
        lemma_put_no_bread(grid, r, c, ground_under(grid[r][c]));
        lemma_slide_stays(ground, r, c, direction, duck.bread_sum == duck.belly_capacity);
        lemma_put_no_bread(
            ground,
            end.0,
            end.1,
            duck.after_slide(direction, grid).symbol_on(ground[end.0][end.1]),
        );
    }
}

/// The slide of a big duck leaves no more bread on the grid than there was.
pub proof fn lemma_big_slide_eats(duck: BigDuck, direction: Direction, grid: Seq<Seq<char>>)
    ensures
        grid_bread(duck.grid_after_slide(direction, grid)) <= grid_bread(grid),
{
    let (r, c) = at(duck.logic_position);
    let end = duck.slide_end(direction, grid);
    if end != (r, c) {
        let ground = vacated(grid, r, c);
        lemma_put_no_bread(grid, r, c, ground_under(grid[r][c]));
        lemma_big_slide_stays(ground, r, c, direction, duck.bread_sum == duck.belly_capacity);
        let after = duck.after_slide(direction, grid);
        if after.can_move {
            let first = eaten(ground, end.0, end.1 + 1);
            if first != ground {
                lemma_put_no_bread(ground, end.0, end.1 + 1, '#');
            }
            let second = eaten(first, end.0 + 1, end.1);
            if second != first {
                lemma_put_no_bread(first, end.0 + 1, end.1, '#');
            }
            let third = eaten(second, end.0 + 1, end.1 + 1);
            if third != second {
                lemma_put_no_bread(second, end.0 + 1, end.1 + 1, '#');
            }
            lemma_put_no_bread(third, end.0, end.1, after.symbol_on(ground[end.0][end.1]));
        } else {
            let first = put(ground, end.0, end.1, 'P');
            lemma_put_no_bread(ground, end.0, end.1, 'P');
            let second = put(first, end.0, end.1 + 1, '^');
            lemma_put_no_bread(first, end.0, end.1 + 1, '^');
            let third = put(second, end.0 + 1, end.1, '^');
            lemma_put_no_bread(second, end.0 + 1, end.1, '^');
            lemma_put_no_bread(third, end.0 + 1, end.1 + 1, '^');
        }
    }
}

impl Actor {
    /// This duck with its anchor at `position`.
    pub open spec fn placed_at(self, position: (usize, usize)) -> Actor {
        match self {
            Actor::Single(duck) => Actor::Single(
                CommonDuck {
                    logic_position: position,
                    can_move: duck.can_move,
                    bread_sum: duck.bread_sum,
                    belly_capacity: duck.belly_capacity,
                },
            ),
            Actor::Multi(duck) => Actor::Multi(
                BigDuck {
                    logic_position: position,
                    can_move: duck.can_move,
                    bread_sum: duck.bread_sum,
                    belly_capacity: duck.belly_capacity,
                },
            ),
        }
    }

    /// Where a slide in `direction` on `grid` ends.
    pub open spec fn slide_end(self, direction: Direction, grid: Seq<Seq<char>>) -> (int, int) {
        match self {
            Actor::Single(duck) => duck.slide_end(direction, grid),
            Actor::Multi(duck) => duck.slide_end(direction, grid),
        }
    }

    /// The duck after a slide in `direction` on `grid`, but for its position.
    pub open spec fn after_slide(self, direction: Direction, grid: Seq<Seq<char>>) -> Actor {
        match self {
            Actor::Single(duck) => Actor::Single(duck.after_slide(direction, grid)),
            Actor::Multi(duck) => Actor::Multi(duck.after_slide(direction, grid)),
        }
    }

    /// The grid after a slide in `direction` on `grid`.
    pub open spec fn grid_after_slide(self, direction: Direction, grid: Seq<Seq<char>>) -> Seq<
        Seq<char>,
    > {
        match self {
            Actor::Single(duck) => duck.grid_after_slide(direction, grid),
            Actor::Multi(duck) => duck.grid_after_slide(direction, grid),
        }
    }
}

/// Lets `actor` slide over `level` in `direction`, each kind of duck by its
/// own rules, and returns the cell where its anchor comes to rest.
pub fn slip_actor(actor: &mut Actor, direction: Direction, level: &mut Level) -> (end: (
    usize,
    usize,
))
    ensures
        at(end) == old(actor).slide_end(direction, old(level)@),
        *final(actor) == old(actor).after_slide(direction, old(level)@),
        final(level)@ == old(actor).grid_after_slide(direction, old(level)@),
        grid_bread(final(level)@) <= grid_bread(old(level)@),
{
    match actor {
        Actor::Single(duck) => {
            proof {
                lemma_slide_eats(*duck, direction, level@);
            }
            slip(duck, direction, level)
        },
        Actor::Multi(duck) => {
            proof {
                lemma_big_slide_eats(*duck, direction, level@);
            }
            slip_big(duck, direction, level)
        },
    }
}

/// A common duck that can move, in front of `steps` cells of open ice that
/// end at a wall or at the edge of the grid, comes to rest on the last of
/// them, next to the wall and never inside it. A duck that cannot move stays
/// where it is.
pub proof fn lemma_duck_slides_to_the_edge(
    duck: CommonDuck,
    direction: Direction,
    grid: Seq<Seq<char>>,
    steps: nat,
)
    requires
        direction != Direction::Idle,
        !duck.declines(grid) || steps == 0,
        forall|k: int|
            1 <= k <= steps ==> is_open_ice(
                grid,
                #[trigger] ahead(
                    duck.logic_position.0 as int,
                    duck.logic_position.1 as int,
                    direction,
                    k,
                ).0,
                ahead(duck.logic_position.0 as int, duck.logic_position.1 as int, direction, k).1,
            ),
        is_wall_or_edge(
            grid,
            ahead(
                duck.logic_position.0 as int,
                duck.logic_position.1 as int,
                direction,
                steps as int + 1,
            ).0,
            ahead(
                duck.logic_position.0 as int,
                duck.logic_position.1 as int,
                direction,
                steps as int + 1,
            ).1,
        ),
    ensures
        duck.slide_end(direction, grid) == ahead(
            duck.logic_position.0 as int,
            duck.logic_position.1 as int,
            direction,
            steps as int,
        ),
{
    let (r, c) = at(duck.logic_position);
    let bare = vacated(grid, r, c);
    if !duck.declines(grid) {
        assert forall|k: int| 1 <= k <= steps implies is_open_ice(
            bare,
            #[trigger] ahead(r, c, direction, k).0,
            ahead(r, c, direction, k).1,
        ) by {
            let cell = ahead(r, c, direction, k);
            assert(is_open_ice(grid, cell.0, cell.1));
        }
        lemma_free_slide(bare, r, c, direction, duck.bread_sum == duck.belly_capacity, steps);
    }
}

/// A big duck that can move and has no bread under it, in front of `steps`
/// pairs of cells of open ice that end at a wall or at the edge of the grid,
/// comes to rest after `steps` steps, next to the wall and never inside it.
/// A duck that cannot move stays where it is.
pub proof fn lemma_big_duck_slides_to_the_edge(
    duck: BigDuck,
    direction: Direction,
    grid: Seq<Seq<char>>,
    steps: nat,
)
    requires
        direction != Direction::Idle,
        !duck.declines(grid) || steps == 0,
        block_bread(grid, duck.logic_position.0 as int, duck.logic_position.1 as int) == 0,
        forall|k: int|
            0 <= k < steps ==> {
                let from = #[trigger] ahead(
                    duck.logic_position.0 as int,
                    duck.logic_position.1 as int,
                    direction,
                    k,
                );
                let (a, b) = cells_ahead(from.0, from.1, direction);
                is_open_ice(grid, a.0, a.1) && is_open_ice(grid, b.0, b.1)
            },
        ({
            let from = ahead(
                duck.logic_position.0 as int,
                duck.logic_position.1 as int,
                direction,
                steps as int,
            );
            let (a, b) = cells_ahead(from.0, from.1, direction);
            is_wall_or_edge(grid, a.0, a.1) || is_wall_or_edge(grid, b.0, b.1)
        }),
    ensures
        duck.slide_end(direction, grid) == ahead(
            duck.logic_position.0 as int,
            duck.logic_position.1 as int,
            direction,
            steps as int,
        ),
{
    let (r, c) = at(duck.logic_position);
    let bare = vacated(grid, r, c);
    if !duck.declines(grid) {
        assert forall|k: int| 0 <= k < steps implies {
            let from = #[trigger] ahead(r, c, direction, k);
            let (a, b) = cells_ahead(from.0, from.1, direction);
            is_open_ice(bare, a.0, a.1) && is_open_ice(bare, b.0, b.1)
        } by {
            let from = ahead(r, c, direction, k);
            let (a, b) = cells_ahead(from.0, from.1, direction);
            assert(is_open_ice(grid, a.0, a.1) && is_open_ice(grid, b.0, b.1));
        }
        lemma_free_big_slide(bare, r, c, direction, duck.bread_sum == duck.belly_capacity, steps);
    }
}

} // verus!
