//! The ducks: what every duck can do, the common duck of one cell and the
//! big duck of two by two cells.
use crate::utils::Direction;
use vstd::prelude::*;

verus! {

/// Bread that fills a common duck.
pub const COMMON_BELLY: u32 = 1;

/// Bread that fills a big duck.
pub const BIG_BELLY: u32 = 4;

/// The cells that a duck with its anchor at `position` covers, the anchor
/// first: the anchor alone, or with it the cell to the right, the cell below
/// and the cell across.
pub open spec fn cells_of(position: (usize, usize), big: bool) -> Seq<(usize, usize)> {
    let (r, c) = position;
    if big {
        seq![
            (r, c),
            (r, (c + 1) as usize),
            ((r + 1) as usize, c),
            ((r + 1) as usize, (c + 1) as usize),
        ]
    } else {
        seq![(r, c)]
    }
}

/// Whether the cells of a duck with its anchor at `position` can be named:
/// none lies beyond the largest index.
pub open spec fn can_name_cells(position: (usize, usize), big: bool) -> bool {
    !big || (position.0 < usize::MAX && position.1 < usize::MAX)
}

/// The cells that `duck` covers, the anchor first.
pub open spec fn occupied<D: Duck>(duck: &D) -> Seq<(usize, usize)> {
    cells_of(duck.position(), duck.is_big())
}

/// What every duck can do.
pub trait Duck {
    /// The anchor cell, as row and column.
    spec fn position(&self) -> (usize, usize);

    /// Bread eaten so far.
    spec fn bread(&self) -> u32;

    /// Bread after which the duck is stuffed.
    spec fn belly(&self) -> u32;

    /// Whether the duck can still be moved.
    spec fn movable(&self) -> bool;

    /// Whether the duck covers two by two cells, and not one.
    spec fn is_big(&self) -> bool;

    fn get_logic_position(&self) -> (p: (usize, usize))
        ensures
            p == self.position(),
    ;

    fn get_bread_sum(&self) -> (n: u32)
        ensures
            n == self.bread(),
    ;

    fn is_stuffed(&self) -> (b: bool)
        ensures
            b == (self.bread() == self.belly()),
    ;

    fn can_move(&self) -> (b: bool)
        ensures
            b == self.movable(),
    ;

    /// The cells that the duck covers, the anchor first.
    fn get_occupied_positions(&self) -> (cells: Vec<(usize, usize)>)
        requires
            can_name_cells(self.position(), self.is_big()),
        ensures
            cells@ == cells_of(self.position(), self.is_big()),
    ;

    fn set_logic_position(&mut self, position: (usize, usize))
        ensures
            final(self).position() == position,
            final(self).bread() == old(self).bread(),
            final(self).belly() == old(self).belly(),
            final(self).movable() == old(self).movable(),
            final(self).is_big() == old(self).is_big(),
    ;

    fn set_can_move(&mut self, can_move: bool)
        ensures
            final(self).movable() == can_move,
            final(self).position() == old(self).position(),
            final(self).bread() == old(self).bread(),
            final(self).belly() == old(self).belly(),
            final(self).is_big() == old(self).is_big(),
    ;

    /// Eats one bread. A stuffed duck stays as it is.
    fn eat_bread(&mut self)
        ensures
            final(self).bread() == fed(old(self).bread(), old(self).belly()),
            final(self).position() == old(self).position(),
            final(self).belly() == old(self).belly(),
            final(self).movable() == old(self).movable(),
            final(self).is_big() == old(self).is_big(),
    ;
}

/// A duck of one cell.
#[derive(Clone, Copy, PartialEq, Eq, Debug)]
pub struct CommonDuck {
    pub logic_position: (usize, usize),
    /// A stuffed duck on breaking ice falls into the water and moves no more.
    pub can_move: bool,
    pub bread_sum: u32,
    pub belly_capacity: u32,
}

impl Duck for CommonDuck {
    open spec fn position(&self) -> (usize, usize) {
        self.logic_position
    }

    open spec fn bread(&self) -> u32 {
        self.bread_sum
    }

    open spec fn belly(&self) -> u32 {
        self.belly_capacity
    }

    open spec fn movable(&self) -> bool {
        self.can_move
    }

    open spec fn is_big(&self) -> bool {
        false
    }

    fn get_logic_position(&self) -> (p: (usize, usize)) {
        self.logic_position
    }

    fn get_bread_sum(&self) -> (n: u32) {
        self.bread_sum
    }

    fn is_stuffed(&self) -> (b: bool) {
        self.bread_sum == self.belly_capacity
    }

    fn can_move(&self) -> (b: bool) {
        self.can_move
    }

    fn get_occupied_positions(&self) -> (cells: Vec<(usize, usize)>) {
        let mut cells: Vec<(usize, usize)> = Vec::new();
        cells.push(self.logic_position);
        assert(cells@ =~= cells_of(self.logic_position, false));
        cells
    }

    fn set_logic_position(&mut self, position: (usize, usize)) {
        self.logic_position = position;
    }

    fn set_can_move(&mut self, can_move: bool) {
        self.can_move = can_move;
    }

    fn eat_bread(&mut self) {
        if self.bread_sum < self.belly_capacity {
            self.bread_sum += 1;
        }
    }
}

/// A duck of two by two cells. Its anchor is the upper left one.
#[derive(Clone, Copy, PartialEq, Eq, Debug)]
pub struct BigDuck {
    pub logic_position: (usize, usize),
    /// A stuffed duck whose four cells are breaking ice falls into the water
    /// and moves no more.
    pub can_move: bool,
    pub bread_sum: u32,
    pub belly_capacity: u32,
}

impl Duck for BigDuck {
    open spec fn position(&self) -> (usize, usize) {
        self.logic_position
    }

    open spec fn bread(&self) -> u32 {
        self.bread_sum
    }

    open spec fn belly(&self) -> u32 {
        self.belly_capacity
    }

    open spec fn movable(&self) -> bool {
        self.can_move
    }

    open spec fn is_big(&self) -> bool {
        true
    }

    fn get_logic_position(&self) -> (p: (usize, usize)) {
        self.logic_position
    }

    fn get_bread_sum(&self) -> (n: u32) {
        self.bread_sum
    }

    fn is_stuffed(&self) -> (b: bool) {
        self.bread_sum == self.belly_capacity
    }

    fn can_move(&self) -> (b: bool) {
        self.can_move
    }

    fn get_occupied_positions(&self) -> (cells: Vec<(usize, usize)>) {
        let (r, c) = self.logic_position;
        let mut cells: Vec<(usize, usize)> = Vec::new();
        cells.push((r, c));
        cells.push((r, c + 1));
        cells.push((r + 1, c));
        cells.push((r + 1, c + 1));
        assert(cells@ =~= cells_of(self.logic_position, true));
        cells
    }

    fn set_logic_position(&mut self, position: (usize, usize)) {
        self.logic_position = position;
    }

    fn set_can_move(&mut self, can_move: bool) {
        self.can_move = can_move;
    }

    fn eat_bread(&mut self) {
        if self.bread_sum < self.belly_capacity {
            self.bread_sum += 1;
        }
    }
}

impl BigDuck {
    /// The two cells of the duck that lead a move in `direction`: the upper
    /// two for `Up`, the left two for `Left`, and so on. `Idle` leads nowhere.
    pub open spec fn edge(self, direction: Direction) -> Option<((usize, usize), (usize, usize))> {
        let (r, c) = self.logic_position;
        let r1 = (r + 1) as usize;
        let c1 = (c + 1) as usize;
        match direction {
            Direction::Up => Some(((r, c), (r, c1))),
            Direction::Down => Some(((r1, c), (r1, c1))),
            Direction::Left => Some(((r, c), (r1, c))),
            Direction::Right => Some(((r, c1), (r1, c1))),
            Direction::Idle => None,
        }
    }

    pub fn get_edge_positions(&self, direction: Direction) -> (cells: Option<
        ((usize, usize), (usize, usize)),
    >)
        requires
            can_name_cells(self.logic_position, true),
        ensures
            cells == self.edge(direction),
    {
        let (r, c) = self.logic_position;
        match direction {
            Direction::Up => Some(((r, c), (r, c + 1))),
            Direction::Down => Some(((r + 1, c), (r + 1, c + 1))),
            Direction::Left => Some(((r, c), (r + 1, c))),
            Direction::Right => Some(((r, c + 1), (r + 1, c + 1))),
            Direction::Idle => None,
        }
    }
}

/// A duck of either kind.
#[derive(Clone, Copy, PartialEq, Eq, Debug)]
pub enum Actor {
    Single(CommonDuck),
    Multi(BigDuck),
}

impl Duck for Actor {
    open spec fn position(&self) -> (usize, usize) {
        match self {
            Actor::Single(d) => d.position(),
            Actor::Multi(d) => d.position(),
        }
    }

    open spec fn bread(&self) -> u32 {
        match self {
            Actor::Single(d) => d.bread(),
            Actor::Multi(d) => d.bread(),
        }
    }

    open spec fn belly(&self) -> u32 {
        match self {
            Actor::Single(d) => d.belly(),
            Actor::Multi(d) => d.belly(),
        }
    }

    open spec fn movable(&self) -> bool {
        match self {
            Actor::Single(d) => d.movable(),
            Actor::Multi(d) => d.movable(),
        }
    }

    open spec fn is_big(&self) -> bool {
        self is Multi
    }

    fn get_logic_position(&self) -> (p: (usize, usize)) {
        match self {
            Actor::Single(d) => d.get_logic_position(),
            Actor::Multi(d) => d.get_logic_position(),
        }
    }

    fn get_bread_sum(&self) -> (n: u32) {
        match self {
            Actor::Single(d) => d.get_bread_sum(),
            Actor::Multi(d) => d.get_bread_sum(),
        }
    }

    fn is_stuffed(&self) -> (b: bool) {
        match self {
            Actor::Single(d) => d.is_stuffed(),
            Actor::Multi(d) => d.is_stuffed(),
        }
    }

    fn can_move(&self) -> (b: bool) {
        match self {
            Actor::Single(d) => d.can_move(),
            Actor::Multi(d) => d.can_move(),
        }
    }

    fn get_occupied_positions(&self) -> (cells: Vec<(usize, usize)>) {
        match self {
            Actor::Single(d) => d.get_occupied_positions(),
            Actor::Multi(d) => d.get_occupied_positions(),
        }
    }

    fn set_logic_position(&mut self, position: (usize, usize)) {
        match self {
            Actor::Single(d) => d.set_logic_position(position),
            Actor::Multi(d) => d.set_logic_position(position),
        }
    }

    fn set_can_move(&mut self, can_move: bool) {
        match self {
            Actor::Single(d) => d.set_can_move(can_move),
            Actor::Multi(d) => d.set_can_move(can_move),
        }
    }

    fn eat_bread(&mut self) {
        match self {
            Actor::Single(d) => d.eat_bread(),
            Actor::Multi(d) => d.eat_bread(),
        }
    }
}

/// Whether `duck` has eaten all the bread it can hold.
pub open spec fn is_full<D: Duck>(duck: &D) -> bool {
    duck.bread() == duck.belly()
}

/// Bread eaten by a duck that has eaten `bread`, holds `belly` and is offered
/// one bread more.
pub open spec fn fed(bread: u32, belly: u32) -> u32 {
    if bread < belly {
        (bread + 1) as u32
    } else {
        bread
    }
}

/// A position as a pair of integers.
pub open spec fn at(position: (usize, usize)) -> (int, int) {
    (position.0 as int, position.1 as int)
}

} // verus!
