//! The level grid, its symbols, the bread on it, the table of levels and the
//! stacks of the history.
use crate::text::split_lines;
use crate::utils::Stack;
use vstd::prelude::*;
use vstd::string::StringExecFns;

verus! {

/// What can go wrong while a level is loaded or a cell is reached.
#[derive(Clone, Copy, PartialEq, Eq, Structural, Debug)]
pub enum GameError {
    /// The level table has no level under the index asked for.
    FailToLoadLevels,
    /// The level text is empty.
    ParseError,
    /// A position lies outside the grid.
    OutOfBounds,
}

impl GameError {
    /// The text of the message, as a sequence of characters.
    pub open spec fn message_text(self) -> Seq<char> {
        match self {
            GameError::FailToLoadLevels => "Fail to load level!"@,
            GameError::ParseError => "Level text is empty!"@,
            GameError::OutOfBounds => "Position outside the level!"@,
        }
    }

    /// A message for the player.
    pub fn message(&self) -> (text: String)
        ensures
            text@ == self.message_text(),
    {
        match self {
            GameError::FailToLoadLevels => String::from_str("Fail to load level!"),
            GameError::ParseError => String::from_str("Level text is empty!"),
            GameError::OutOfBounds => String::from_str("Position outside the level!"),
        }
    }
}

/// The meaning of a symbol of the grid.
#[derive(Clone, Copy, PartialEq, Eq, Structural, Debug)]
pub enum SymbolType {
    /// `@`: nothing passes.
    Wall,
    /// `#`: plain ice.
    Ice,
    /// `^`: open water where ice broke.
    BrokenIce,
    /// `D`: a duck on ice that has not eaten.
    DuckOnIce,
    /// `Q`: a stuffed duck on ice.
    StuffedDuckOnIce,
    /// `B`: bread lying on ice.
    BreadOnIce,
    /// `*`: weakened ice, which breaks under a stuffed duck.
    BreakingIce,
    /// `P`: a stuffed duck that fell into the water and stays there.
    DuckOnWater,
    /// `O`: a duck on weakened ice.
    DuckOnBreakingIce,
    /// `g`: the anchor cell of a big duck that is not stuffed.
    BigDuckOnIce,
    /// `G`: the anchor cell of a stuffed big duck.
    StuffedBigDuckOnIce,
    /// `&`: the anchor cell of a big duck on weakened ice.
    BigDuckOnBreakingIce,
    /// `$`: the anchor cell of a stuffed big duck on weakened ice.
    StuffedBigDuckOnBreakingIce,
}

/// Whether `c` is one of the thirteen symbols of a grid.
pub open spec fn in_alphabet(c: char) -> bool {
    c == '@' || c == '#' || c == '^' || c == 'D' || c == 'Q' || c == 'B' || c == '*' || c == 'P'
        || c == 'O' || c == 'g' || c == 'G' || c == '&' || c == '$'
}

impl SymbolType {
    /// The character that stands for this symbol in a grid.
    pub open spec fn symbol(self) -> char {
        match self {
            SymbolType::Wall => '@',
            SymbolType::Ice => '#',
            SymbolType::BrokenIce => '^',
            SymbolType::DuckOnIce => 'D',
            SymbolType::StuffedDuckOnIce => 'Q',
            SymbolType::BreadOnIce => 'B',
            SymbolType::BreakingIce => '*',
            SymbolType::DuckOnWater => 'P',
            SymbolType::DuckOnBreakingIce => 'O',
            SymbolType::BigDuckOnIce => 'g',
            SymbolType::StuffedBigDuckOnIce => 'G',
            SymbolType::BigDuckOnBreakingIce => '&',
            SymbolType::StuffedBigDuckOnBreakingIce => '$',
        }
    }

    pub fn get_symbol(self) -> (c: char)
        ensures
            c == self.symbol(),
    {
        match self {
            SymbolType::Wall => '@',
            SymbolType::Ice => '#',
            SymbolType::BrokenIce => '^',
            SymbolType::DuckOnIce => 'D',
            SymbolType::StuffedDuckOnIce => 'Q',
            SymbolType::BreadOnIce => 'B',
            SymbolType::BreakingIce => '*',
            SymbolType::DuckOnWater => 'P',
            SymbolType::DuckOnBreakingIce => 'O',
            SymbolType::BigDuckOnIce => 'g',
            SymbolType::StuffedBigDuckOnIce => 'G',
            SymbolType::BigDuckOnBreakingIce => '&',
            SymbolType::StuffedBigDuckOnBreakingIce => '$',
        }
    }

    /// The symbol that `c` stands for, if it belongs to the alphabet.
    pub fn from_symbol(c: char) -> (r: Option<SymbolType>)
        ensures
            match r {
                Some(s) => s.symbol() == c,
                None => !in_alphabet(c),
            },
    {
        match c {
            '@' => Some(SymbolType::Wall),
            '#' => Some(SymbolType::Ice),
            '^' => Some(SymbolType::BrokenIce),
            'D' => Some(SymbolType::DuckOnIce),
            'Q' => Some(SymbolType::StuffedDuckOnIce),
            'B' => Some(SymbolType::BreadOnIce),
            '*' => Some(SymbolType::BreakingIce),
            'P' => Some(SymbolType::DuckOnWater),
            'O' => Some(SymbolType::DuckOnBreakingIce),
            'g' => Some(SymbolType::BigDuckOnIce),
            'G' => Some(SymbolType::StuffedBigDuckOnIce),
            '&' => Some(SymbolType::BigDuckOnBreakingIce),
            '$' => Some(SymbolType::StuffedBigDuckOnBreakingIce),
            _ => None,
        }
    }
}

/// The grid of one level: rows of symbols, which may differ in length.
pub struct Level(pub Vec<Vec<char>>);

/// The rows of a grid as sequences of symbols.
pub open spec fn grid_view(rows: Vec<Vec<char>>) -> Seq<Seq<char>> {
    Seq::new(rows@.len(), |i: int| rows@[i]@)
}

/// Whether `(row, col)` names a cell of `grid`.
pub open spec fn in_bounds(grid: Seq<Seq<char>>, row: int, col: int) -> bool {
    0 <= row < grid.len() && 0 <= col < grid[row].len()
}

/// `grid` with the cell at `(row, col)` holding `symbol`.
pub open spec fn put(grid: Seq<Seq<char>>, row: int, col: int, symbol: char) -> Seq<Seq<char>> {
    grid.update(row, grid[row].update(col, symbol))
}

/// Number of bread symbols in `row`.
pub open spec fn row_bread(row: Seq<char>) -> nat
    decreases row.len(),
{
    if row.len() == 0 {
        0
    } else {
        row_bread(row.drop_last()) + if row.last() == 'B' {
            1nat
        } else {
            0nat
        }
    }
}

/// Number of bread symbols in `grid`.
pub open spec fn grid_bread(grid: Seq<Seq<char>>) -> nat
    decreases grid.len(),
{
    if grid.len() == 0 {
        0
    } else {
        grid_bread(grid.drop_last()) + row_bread(grid.last())
    }
}

/// A prefix of a row holds no more bread than the row.
pub proof fn lemma_row_bread_prefix(row: Seq<char>, n: int)
    requires
        0 <= n <= row.len(),
    ensures
        row_bread(row.take(n)) <= row_bread(row),
    decreases row.len(),
{
    if n == row.len() {
        assert(row.take(n) =~= row);
    } else {
        lemma_row_bread_prefix(row.drop_last(), n);
        assert(row.drop_last().take(n) =~= row.take(n));
    }
}

/// The first rows of a grid hold no more bread than the grid.
pub proof fn lemma_grid_bread_prefix(grid: Seq<Seq<char>>, n: int)
    requires
        0 <= n <= grid.len(),
    ensures
        grid_bread(grid.take(n)) <= grid_bread(grid),
    decreases grid.len(),
{
    if n == grid.len() {
        assert(grid.take(n) =~= grid);
    } else {
        lemma_grid_bread_prefix(grid.drop_last(), n);
        assert(grid.drop_last().take(n) =~= grid.take(n));
    }
}

/// Writing one symbol changes the bread of a row by what left and what came.
pub proof fn lemma_row_bread_update(row: Seq<char>, col: int, symbol: char)
    requires
        0 <= col < row.len(),
    ensures
        row_bread(row.update(col, symbol)) + (if row[col] == 'B' {
            1nat
        } else {
            0nat
        }) == row_bread(row) + (if symbol == 'B' {
            1nat
        } else {
            0nat
        }),
    decreases row.len(),
{
    let next = row.update(col, symbol);
    if col == row.len() - 1 {
        assert(next.drop_last() =~= row.drop_last());
    } else {
        lemma_row_bread_update(row.drop_last(), col, symbol);
        assert(next.drop_last() =~= row.drop_last().update(col, symbol));
    }
}

/// Writing one symbol changes the bread of a grid by what left and what came.
pub proof fn lemma_grid_bread_put(grid: Seq<Seq<char>>, row: int, col: int, symbol: char)
    requires
        in_bounds(grid, row, col),
    ensures
        grid_bread(put(grid, row, col, symbol)) + (if grid[row][col] == 'B' {
            1nat
        } else {
            0nat
        }) == grid_bread(grid) + (if symbol == 'B' {
            1nat
        } else {
            0nat
        }),
    decreases grid.len(),
{
    let next = put(grid, row, col, symbol);
    if row == grid.len() - 1 {
        assert(next.drop_last() =~= grid.drop_last());
        lemma_row_bread_update(grid[row], col, symbol);
    } else {
        lemma_grid_bread_put(grid.drop_last(), row, col, symbol);
        assert(next.drop_last() =~= put(grid.drop_last(), row, col, symbol));
    }
}

/// Copies `rows` cell by cell.
pub fn copy_rows(rows: &Vec<Vec<char>>) -> (copy: Vec<Vec<char>>)
    ensures
        grid_view(copy) == grid_view(*rows),
{
    let mut copy: Vec<Vec<char>> = Vec::new();
    let mut r: usize = 0;
    while r < rows.len()
        invariant
            r <= rows.len(),
            copy.len() == r,
            forall|i: int| 0 <= i < r ==> copy@[i]@ == rows@[i]@,
        decreases rows.len() - r,
    {
        let mut row: Vec<char> = Vec::new();
        let mut c: usize = 0;
        while c < rows[r].len()
            invariant
                r < rows.len(),
                c <= rows@[r as int].len(),
                row@ == rows@[r as int]@.take(c as int),
            decreases rows@[r as int].len() - c,
        {
            row.push(rows[r][c]);
            assert(row@ =~= rows@[r as int]@.take(c + 1));
            c += 1;
        }
        assert(row@ =~= rows@[r as int]@);
        copy.push(row);
        r += 1;
    }
    assert(grid_view(copy) =~= grid_view(*rows));
    copy
}

impl View for Level {
    type V = Seq<Seq<char>>;

    open spec fn view(&self) -> Seq<Seq<char>> {
        grid_view(self.0)
    }
}

impl Level {
    /// A copy of the grid that shares nothing with it.
    pub fn snapshot(&self) -> (copy: Level)
        ensures
            copy@ == self@,
    {
        Level(copy_rows(&self.0))
    }

    /// Counts the bread that is left in the grid.
    pub fn count_bread(&self) -> (n: usize)
        requires
            grid_bread(self@) <= usize::MAX,
        ensures
            n == grid_bread(self@),
    {
        let mut n: usize = 0;
        let mut r: usize = 0;
        while r < self.0.len()
            invariant
                r <= self.0.len(),
                n == grid_bread(self@.take(r as int)),
                grid_bread(self@) <= usize::MAX,
            decreases self.0.len() - r,
        {
            let mut c: usize = 0;
            let ghost before = n;
            proof {
                assert(self@.take(r + 1).drop_last() =~= self@.take(r as int));
                lemma_grid_bread_prefix(self@, r + 1);
            }
            while c < self.0[r].len()
                invariant
                    r < self.0.len(),
                    c <= self@[r as int].len(),
                    n == before + row_bread(self@[r as int].take(c as int)),
                    before + row_bread(self@[r as int]) <= usize::MAX,
                decreases self@[r as int].len() - c,
            {
                proof {
                    assert(self@[r as int].take(c + 1).drop_last() =~= self@[r as int].take(
                        c as int,
                    ));
                    lemma_row_bread_prefix(self@[r as int], c + 1);
                }
                if self.0[r][c] == 'B' {
                    n += 1;
                }
                c += 1;
            }
            assert(self@[r as int].take(c as int) =~= self@[r as int]);
            r += 1;
        }
        assert(self@.take(r as int) =~= self@);
        n
    }

    /// The symbol at `position`, or `OutOfBounds` where the grid has no such
    /// cell.
    pub fn get(&self, position: (usize, usize)) -> (r: Result<char, GameError>)
        ensures
            in_bounds(self@, position.0 as int, position.1 as int) ==> r == Ok::<char, GameError>(
                self@[position.0 as int][position.1 as int],
            ),
            !in_bounds(self@, position.0 as int, position.1 as int) ==> r == Err::<char, GameError>(
                GameError::OutOfBounds,
            ),
    {
        if position.0 < self.0.len() && position.1 < self.0[position.0].len() {
            Ok(self.0[position.0][position.1])
        } else {
            Err(GameError::OutOfBounds)
        }
    }

    /// Writes `symbol` at `position`, or fails with `OutOfBounds` and leaves
    /// the grid as it was.
    pub fn set(&mut self, position: (usize, usize), symbol: char) -> (r: Result<(), GameError>)
        ensures
            in_bounds(old(self)@, position.0 as int, position.1 as int) ==> r is Ok && final(self)@
                == put(old(self)@, position.0 as int, position.1 as int, symbol),
            !in_bounds(old(self)@, position.0 as int, position.1 as int) ==> r == Err::<
                (),
                GameError,
            >(GameError::OutOfBounds) && final(self)@ == old(self)@,
    {
        if position.0 < self.0.len() && position.1 < self.0[position.0].len() {
            self.0[position.0][position.1] = symbol;
            assert(self@ =~= put(old(self)@, position.0 as int, position.1 as int, symbol));
            Ok(())
        } else {
            Err(GameError::OutOfBounds)
        }
    }
}

/// The level texts of the game, the first level first.
pub struct Levels {
    pub levels: Vec<&'static str>,
}

impl Levels {
    pub fn new(levels: Vec<&'static str>) -> (table: Levels)
        ensures
            table.levels == levels,
    {
        Levels { levels }
    }

    /// The level texts as sequences of characters.
    pub open spec fn texts(&self) -> Seq<Seq<char>> {
        Seq::new(self.levels@.len(), |i: int| self.levels@[i]@)
    }
}

/// Whether `texts` holds a level under the index `index`, counted from 1,
/// and its text is not empty.
pub open spec fn can_load(texts: Seq<Seq<char>>, index: int) -> bool {
    1 <= index <= texts.len() && texts[index - 1].len() > 0
}

/// Reads the grid of the level with the index `level_index`, counted from 1.
/// Fails with `FailToLoadLevels` where the table has no such level, and
/// with `ParseError` where its text is empty.
pub fn load_level(level_index: usize, levels: &Levels) -> (r: Result<Level, GameError>)
    ensures
        !(1 <= level_index <= levels.texts().len()) ==> r == Err::<Level, GameError>(
            GameError::FailToLoadLevels,
        ),
        1 <= level_index <= levels.texts().len() && levels.texts()[level_index - 1].len() == 0
            ==> r == Err::<Level, GameError>(GameError::ParseError),
        can_load(levels.texts(), level_index as int) ==> r is Ok && r->Ok_0@ == split_lines(
            levels.texts()[level_index - 1],
        ) && grid_bread(r->Ok_0@) <= usize::MAX,
{
    if level_index == 0 || level_index > levels.levels.len() {
        return Err(GameError::FailToLoadLevels);
    }
    Level::parse(levels.levels[level_index - 1])
}

/// The grids of a level, oldest first; the last one is the grid as it is
/// now.
pub struct LevelStack(pub Stack<Vec<Vec<char>>>);

impl Default for LevelStack {
    fn default() -> (stack: LevelStack)
        ensures
            stack.grids() == Seq::<Seq<Seq<char>>>::empty(),
    {
        let stack = LevelStack(Stack::new());
        assert(stack.grids() =~= Seq::<Seq<Seq<char>>>::empty());
        stack
    }
}

impl LevelStack {
    /// The grids on the stack, from the bottom to the top.
    pub open spec fn grids(&self) -> Seq<Seq<Seq<char>>> {
        Seq::new(self.0@.len(), |i: int| grid_view(self.0@[i]))
    }

    /// Puts a copy of `level` on the stack.
    pub fn save(&mut self, level: &Level)
        ensures
            final(self).grids() == old(self).grids().push(level@),
    {
        let copy = level.snapshot();
        self.0.push(copy.0);
        assert(self.grids() =~= old(self).grids().push(level@));
    }

    /// Takes the top grid off the stack, if there is one.
    pub fn discard(&mut self)
        ensures
            old(self).grids().len() > 0 ==> final(self).grids() == old(self).grids().drop_last(),
            old(self).grids().len() == 0 ==> final(self).grids() == old(self).grids(),
    {
        let _ = self.0.pop();
        assert(old(self).grids().len() > 0 ==> self.grids() =~= old(self).grids().drop_last());
        assert(old(self).grids().len() == 0 ==> self.grids() =~= old(self).grids());
    }

    /// A copy of the top grid, if there is one.
    pub fn top(&self) -> (level: Option<Level>)
        ensures
            self.grids().len() == 0 ==> level is None,
            self.grids().len() > 0 ==> level is Some && level->Some_0@ == self.grids().last(),
    {
        match self.0.peek() {
            Some(rows) => Some(Level(copy_rows(rows))),
            None => None,
        }
    }
}

/// What the big ducks had eaten at each grid of the level stack: one record
/// for each grid, oldest first.
pub struct BreadSumRecordStack(pub Stack<Vec<((usize, usize), u32)>>);

impl Default for BreadSumRecordStack {
    fn default() -> (stack: BreadSumRecordStack)
        ensures
            stack.records() == Seq::<Seq<((usize, usize), u32)>>::empty(),
    {
        let stack = BreadSumRecordStack(Stack::new());
        assert(stack.records() =~= Seq::<Seq<((usize, usize), u32)>>::empty());
        stack
    }
}

impl BreadSumRecordStack {
    /// The records on the stack, from the bottom to the top.
    pub open spec fn records(&self) -> Seq<Seq<((usize, usize), u32)>> {
        Seq::new(self.0@.len(), |i: int| self.0@[i]@)
    }

    /// Puts `record` on the stack.
    pub fn save(&mut self, record: Vec<((usize, usize), u32)>)
        ensures
            final(self).records() == old(self).records().push(record@),
    {
        self.0.push(record);
        assert(self.records() =~= old(self).records().push(record@));
    }

    /// Takes the top record off the stack, if there is one.
    pub fn discard(&mut self)
        ensures
            old(self).records().len() > 0 ==> final(self).records() == old(
                self,
            ).records().drop_last(),
            old(self).records().len() == 0 ==> final(self).records() == old(self).records(),
    {
        let _ = self.0.pop();
        assert(old(self).records().len() > 0 ==> self.records() =~= old(
            self,
        ).records().drop_last());
        assert(old(self).records().len() == 0 ==> self.records() =~= old(self).records());
    }
}

/// The index of the level that is played, counted from 1.
pub struct CurrentLevelIndex(pub usize);

impl Default for CurrentLevelIndex {
    fn default() -> (index: CurrentLevelIndex)
        ensures
            index.0 == 1,
    {
        CurrentLevelIndex(1)
    }
}

/// The bread that lay on the grid when the level was loaded.
pub struct TotalBreadCount(pub usize);

impl Default for TotalBreadCount {
    fn default() -> (count: TotalBreadCount)
        ensures
            count.0 == 0,
    {
        TotalBreadCount(0)
    }
}

/// The bread that is left on the grid.
pub struct BreadCount(pub usize);

impl Default for BreadCount {
    fn default() -> (count: BreadCount)
        ensures
            count.0 == 1,
    {
        BreadCount(1)
    }
}

} // verus!
