//! A game in progress: the grid, the ducks on it, the bread that is left and
//! the history that `undo` walks back.
use crate::census::fits_usize;
use crate::level::{
    can_load, grid_bread, in_bounds, load_level, BreadCount, BreadSumRecordStack,
    CurrentLevelIndex, GameError, Level, LevelStack, Levels, TotalBreadCount,
};
use crate::movement::{lemma_big_slide_eats, lemma_slide_eats, shake_in_direction, slip_actor};
use crate::player::{at, can_name_cells, is_full, occupied, Actor, Duck};
use crate::slide::shake_wave;
use crate::spawn::{
    bread_sum_record, bread_sums, ducks_of, lemma_ducks_stand, spawn_ducks, stands_on,
};
use crate::text::split_lines;
use crate::utils::Direction;
use vstd::prelude::*;

verus! {

/// A session as plain values.
pub struct SessionView {
    /// The level texts, the first level first.
    pub texts: Seq<Seq<char>>,
    /// The grid as it is now.
    pub grid: Seq<Seq<char>>,
    /// The ducks, in the order of their indices.
    pub ducks: Seq<Actor>,
    /// The bread that is left.
    pub bread: nat,
    /// The bread that lay on the grid when the level was loaded.
    pub total: nat,
    /// The grids since the level was loaded, oldest first.
    pub history: Seq<Seq<Seq<char>>>,
    /// For each grid of the history, what the big ducks had eaten.
    pub sums: Seq<Seq<((usize, usize), u32)>>,
    /// The index of the level, counted from 1.
    pub index: nat,
}

impl SessionView {
    /// What holds of every session: the history ends with the grid as it is
    /// now and holds a record for each grid; the ducks are those of the grid;
    /// the bread that is left is the bread on the grid and was never more
    /// than at the start of the level; the level is one of the table.
    pub open spec fn wf(self) -> bool {
        &&& can_load(self.texts, self.index as int)
        &&& self.history.len() == self.sums.len()
        &&& self.history.len() >= 1
        &&& self.history[0] == split_lines(self.texts[self.index - 1])
        &&& self.history.last() == self.grid
        &&& self.ducks == ducks_of(self.grid, self.sums.last())
        &&& self.bread == grid_bread(self.grid)
        &&& self.total == grid_bread(self.history[0])
        &&& forall|i: int|
            0 <= i < self.history.len() ==> grid_bread(#[trigger] self.history[i]) <= self.total
    }

    /// The session right after the level `index` of `texts` was loaded.
    pub open spec fn loaded(texts: Seq<Seq<char>>, index: int) -> SessionView {
        let grid = split_lines(texts[index - 1]);
        SessionView {
            texts,
            grid,
            ducks: ducks_of(grid, Seq::empty()),
            bread: grid_bread(grid),
            total: grid_bread(grid),
            history: seq![grid],
            sums: seq![Seq::empty()],
            index: index as nat,
        }
    }

    /// Whether a move of the duck `actor` in `direction` changes anything:
    /// there is such a duck and its slide ends on another cell.
    pub open spec fn moves(self, actor: int, direction: Direction) -> bool {
        0 <= actor < self.ducks.len() && self.ducks[actor].slide_end(direction, self.grid) != at(
            self.ducks[actor].position(),
        )
    }

    /// The duck `actor` after it was moved in `direction`: at the cell where
    /// its slide ends, with what it has eaten then and whether it can still
    /// move.
    pub open spec fn moved_duck(self, actor: int, direction: Direction) -> Actor {
        let duck = self.ducks[actor];
        let end = duck.slide_end(direction, self.grid);
        duck.after_slide(direction, self.grid).placed_at((end.0 as usize, end.1 as usize))
    }

    /// The session after the duck `actor` was moved in `direction`. Where the
    /// move changes nothing the session stays as it is. Else the grid is the
    /// one after the slide, the ducks are those of the new grid, and both are
    /// added to the history.
    pub open spec fn moved(self, actor: int, direction: Direction) -> SessionView {
        if !self.moves(actor, direction) {
            self
        } else {
            let grid = self.ducks[actor].grid_after_slide(direction, self.grid);
            let record = bread_sums(self.ducks.update(actor, self.moved_duck(actor, direction)));
            SessionView {
                texts: self.texts,
                grid,
                ducks: ducks_of(grid, record),
                bread: grid_bread(grid),
                total: self.total,
                history: self.history.push(grid),
                sums: self.sums.push(record),
                index: self.index,
            }
        }
    }

    /// The session after the last move was taken back. Where the history
    /// holds no earlier grid the session stays as it is.
    pub open spec fn undone(self) -> SessionView {
        if self.history.len() < 2 || self.sums.len() < 2 {
            self
        } else {
            let history = self.history.drop_last();
            let sums = self.sums.drop_last();
            SessionView {
                texts: self.texts,
                grid: history.last(),
                ducks: ducks_of(history.last(), sums.last()),
                bread: grid_bread(history.last()),
                total: self.total,
                history,
                sums,
                index: self.index,
            }
        }
    }
}

/// A move, taken back, leaves the session as it was before the move: the
/// grid, every duck with its position and the bread it has eaten, the bread
/// that is left, and the history. A move that changes nothing leaves nothing
/// to take back, so this holds of it only where no earlier move is left in
/// the history.
pub proof fn lemma_undo_round_trip(session: SessionView, actor: int, direction: Direction)
    requires
        session.wf(),
        session.moves(actor, direction) || session.history.len() == 1,
    ensures
        session.moved(actor, direction).undone() == session,
{
    if session.moves(actor, direction) {
        let after = session.moved(actor, direction);
        assert(after.history.drop_last() =~= session.history);
        assert(after.sums.drop_last() =~= session.sums);
    }
}

/// A move leaves no more bread than there was, and keeps what holds of
/// every session.
pub proof fn lemma_move_keeps_bread_down(session: SessionView, actor: int, direction: Direction)
    requires
        session.wf(),
    ensures
        session.moved(actor, direction).wf(),
        session.moved(actor, direction).bread <= session.bread,
{
    if session.moves(actor, direction) {
        let duck = session.ducks[actor];
        match duck {
            Actor::Single(d) => {
                lemma_slide_eats(d, direction, session.grid);
            },
            Actor::Multi(d) => {
                lemma_big_slide_eats(d, direction, session.grid);
            },
        }
        let after = session.moved(actor, direction);
        assert forall|i: int| 0 <= i < after.history.len() implies grid_bread(
            #[trigger] after.history[i],
        ) <= after.total by {
            if i < session.history.len() {
                assert(after.history[i] == session.history[i]);
            }
        }
    }
}

/// Taking a move back keeps what holds of every session.
pub proof fn lemma_undo_keeps_wf(session: SessionView)
    requires
        session.wf(),
    ensures
        session.undone().wf(),
{
    if session.history.len() >= 2 {
        let back = session.undone();
        assert forall|i: int| 0 <= i < back.history.len() implies grid_bread(
            #[trigger] back.history[i],
        ) <= back.total by {
            assert(back.history[i] == session.history[i]);
        }
        assert(back.history[0] == session.history[0]);
    }
}

/// The grid of a session is no larger than indices can tell.
pub proof fn lemma_session_fits(session: Session)
    ensures
        fits_usize(session@.grid),
{
    let grid = session.level@;
    assert(grid.len() == session.level.0.len());
    assert forall|r: int| 0 <= r < grid.len() implies (#[trigger] grid[r]).len() <= usize::MAX by {
        assert(grid[r].len() == session.level.0[r].len());
    }
}

/// Every duck of a session stands on its grid. The four cells of a big duck
/// are its anchor, the cell to the right, the cell below and the cell
/// across, and the grid has all of them.
pub proof fn lemma_footprints_contained(session: Session, actor: int)
    requires
        session.wf(),
        0 <= actor < session@.ducks.len(),
    ensures
        stands_on(session@.grid, session@.ducks[actor]),
        can_name_cells(session@.ducks[actor].position(), session@.ducks[actor].is_big()),
        forall|i: int|
            0 <= i < occupied(&session@.ducks[actor]).len() ==> in_bounds(
                session@.grid,
                (#[trigger] occupied(&session@.ducks[actor])[i]).0 as int,
                occupied(&session@.ducks[actor])[i].1 as int,
            ),
        session@.ducks[actor].is_big() ==> ({
            let cells = occupied(&session@.ducks[actor]);
            let (r, c) = at(session@.ducks[actor].position());
            &&& cells.len() == 4
            &&& at(cells[0]) == (r, c)
            &&& at(cells[1]) == (r, c + 1)
            &&& at(cells[2]) == (r + 1, c)
            &&& at(cells[3]) == (r + 1, c + 1)
        }),
{
    let grid = session.level@;
    lemma_session_fits(session);
    lemma_ducks_stand(grid, session@.sums.last(), grid.len() as int);
    assert(stands_on(grid, session.ducks@[actor]));
    match session.ducks@[actor] {
        Actor::Single(duck) => {},
        Actor::Multi(duck) => {
            let (r, c) = duck.logic_position;
            assert(grid[r as int].len() == session.level.0[r as int].len());
        },
    }
}

/// What a move did.
pub struct MoveOutcome {
    /// The anchor of the duck before the move.
    pub old_position: (usize, usize),
    /// The anchor of the duck after the move.
    pub new_position: (usize, usize),
    /// The duck after the move: where it is, what it has eaten and whether
    /// it can still move.
    pub duck: Actor,
    /// Whether bread left the grid.
    pub ate_bread: bool,
    /// Whether the duck fell through the ice: it could move and cannot any
    /// more.
    pub became_stuck: bool,
    /// Whether the duck ate its fill with this move.
    pub became_stuffed: bool,
    /// Whether the last bread was eaten with this move.
    pub won: bool,
    /// The common ducks that the duck pushed against, nearest first.
    pub shake_wave: Vec<(usize, usize)>,
}

impl MoveOutcome {
    /// Whether this is what moving the duck `actor` of `before` in
    /// `direction` did.
    pub open spec fn describes(
        self,
        before: SessionView,
        actor: int,
        direction: Direction,
    ) -> bool {
        let duck = before.ducks[actor];
        let after = before.moved(actor, direction);
        let end = duck.slide_end(direction, before.grid);
        let fed = duck.after_slide(direction, before.grid);
        &&& self.old_position == duck.position()
        &&& at(self.new_position) == end
        &&& self.duck == fed.placed_at(self.new_position)
        &&& self.ate_bread == (after.bread < before.bread)
        &&& self.became_stuck == (duck.movable() && !fed.movable())
        &&& self.became_stuffed == (!is_full(&duck) && is_full(&fed))
        &&& self.won == (before.bread > 0 && after.bread == 0)
        &&& self.shake_wave@ == if before.moves(actor, direction) {
            shake_wave(after.grid, end.0, end.1, direction)
        } else {
            Seq::empty()
        }
    }
}

/// A game in progress. Its parts change through its methods only, which
/// keep them in step with each other.
pub struct Session {
    levels: Levels,
    level: Level,
    ducks: Vec<Actor>,
    bread_count: BreadCount,
    total_bread_count: TotalBreadCount,
    level_stack: LevelStack,
    bread_sum_record_stack: BreadSumRecordStack,
    current_level_index: CurrentLevelIndex,
}

impl View for Session {
    type V = SessionView;

    closed spec fn view(&self) -> SessionView {
        SessionView {
            texts: self.levels.texts(),
            grid: self.level@,
            ducks: self.ducks@,
            bread: self.bread_count.0 as nat,
            total: self.total_bread_count.0 as nat,
            history: self.level_stack.grids(),
            sums: self.bread_sum_record_stack.records(),
            index: self.current_level_index.0 as nat,
        }
    }
}

impl Session {
    /// What holds of every session between two calls.
    pub open spec fn wf(&self) -> bool {
        self@.wf()
    }

    /// Starts a game with the first level of `levels`. Fails as `load_level`
    /// does for the index 1.
    pub fn new(levels: Levels) -> (r: Result<Session, GameError>)
        ensures
            levels.texts().len() == 0 ==> r == Err::<Session, GameError>(
                GameError::FailToLoadLevels,
            ),
            levels.texts().len() > 0 && levels.texts()[0].len() == 0 ==> r == Err::<
                Session,
                GameError,
            >(GameError::ParseError),
            can_load(levels.texts(), 1) ==> r is Ok && r->Ok_0.wf() && r->Ok_0@
                == SessionView::loaded(levels.texts(), 1),
    {
        let level = match load_level(1, &levels) {
            Ok(level) => level,
            Err(error) => {
                return Err(error);
            },
        };
        let mut session = Session {
            levels,
            level: Level(Vec::new()),
            ducks: Vec::new(),
            bread_count: BreadCount::default(),
            total_bread_count: TotalBreadCount::default(),
            level_stack: LevelStack::default(),
            bread_sum_record_stack: BreadSumRecordStack::default(),
            current_level_index: CurrentLevelIndex::default(),
        };
        session.enter(level, 1);
        Ok(session)
    }

    /// Makes `level`, the grid of the level `index`, the grid of this
    /// session: counts its bread, finds its ducks and starts a new history.
    fn enter(&mut self, level: Level, index: usize)
        requires
            can_load(old(self).levels.texts(), index as int),
            level@ == split_lines(old(self).levels.texts()[index - 1]),
            grid_bread(level@) <= usize::MAX,
        ensures
            final(self).wf(),
            final(self)@ == SessionView::loaded(old(self).levels.texts(), index as int),
    {
        self.level_stack.0.clear();
        self.bread_sum_record_stack.0.clear();
        let bread = level.count_bread();
        let record: Vec<((usize, usize), u32)> = Vec::new();
        self.ducks = spawn_ducks(&level, &record);
        self.level_stack.save(&level);
        self.bread_sum_record_stack.save(record);
        self.level = level;
        self.bread_count = BreadCount(bread);
        self.total_bread_count = TotalBreadCount(bread);
        self.current_level_index = CurrentLevelIndex(index);
        proof {
            let view = SessionView::loaded(old(self).levels.texts(), index as int);
            assert(self@.history =~= view.history);
            assert(self@.sums =~= view.sums);
        }
    }

    /// Moves the duck with the index `actor_id` in `direction` and says what
    /// that did. `None` is returned where there is no such duck. A duck that
    /// is stuck, a move with no direction and a duck that is blocked at once
    /// change nothing; the outcome then has the old position as the new one.
    /// After a move that changes something the ducks are listed anew, row by
    /// row: the index of a duck may change, its anchor tells it apart.
    pub fn apply_move(&mut self, actor_id: usize, direction: Direction) -> (outcome: Option<
        MoveOutcome,
    >)
        requires
            old(self).wf(),
        ensures
            final(self).wf(),
            final(self)@ == old(self)@.moved(actor_id as int, direction),
            final(self)@.bread <= old(self)@.bread,
            outcome is None <==> actor_id >= old(self)@.ducks.len(),
            outcome is Some ==> outcome->Some_0.describes(old(self)@, actor_id as int, direction),
    {
        if actor_id >= self.ducks.len() {
            return None;
        }
        proof {
            lemma_move_keeps_bread_down(self@, actor_id as int, direction);
        }
        let mut duck = self.ducks[actor_id];
        let old_position = duck.get_logic_position();
        let could_move = duck.can_move();
        let was_full = duck.is_stuffed();
        let new_position = slip_actor(&mut duck, direction, &mut self.level);
        if new_position.0 == old_position.0 && new_position.1 == old_position.1 {
            assert(self.level@ == old(self).level@);
            return Some(
                MoveOutcome {
                    old_position,
                    new_position,
                    duck,
                    ate_bread: false,
                    became_stuck: false,
                    became_stuffed: false,
                    won: false,
                    shake_wave: Vec::new(),
                },
            );
        }
        let can_move = duck.can_move();
        let full = duck.is_stuffed();
        duck.set_logic_position(new_position);
        self.ducks[actor_id] = duck;
        let record = bread_sum_record(&self.ducks);
        self.ducks = spawn_ducks(&self.level, &record);
        let before = self.bread_count.0;
        let bread = self.level.count_bread();
        self.bread_count = BreadCount(bread);
        self.level_stack.save(&self.level);
        self.bread_sum_record_stack.save(record);
        let shake_wave = shake_in_direction(&self.level, new_position, direction);
        proof {
            let view = old(self)@.moved(actor_id as int, direction);
            assert(new_position == (at(new_position).0 as usize, at(new_position).1 as usize));
            assert(self@.history =~= view.history);
            assert(self@.sums =~= view.sums);
        }
        Some(
            MoveOutcome {
                old_position,
                new_position,
                duck,
                ate_bread: bread < before,
                became_stuck: could_move && !can_move,
                became_stuffed: !was_full && full,
                won: before > 0 && bread == 0,
                shake_wave,
            },
        )
    }

    /// Takes the last move back: the grid, the ducks and the bread that is
    /// left are again what they were before it. Returns `false`, and changes
    /// nothing, where no move is left to take back.
    pub fn undo(&mut self) -> (undone: bool)
        requires
            old(self).wf(),
        ensures
            final(self).wf(),
            undone == (old(self)@.history.len() >= 2),
            final(self)@ == old(self)@.undone(),
    {
        if self.level_stack.0.size() < 2 {
            return false;
        }
        proof {
            lemma_undo_keeps_wf(self@);
        }
        self.level_stack.discard();
        self.bread_sum_record_stack.discard();
        let level = match self.level_stack.top() {
            Some(level) => level,
            None => {
                return false;
            },
        };
        let ducks = match self.bread_sum_record_stack.0.peek() {
            Some(record) => spawn_ducks(&level, record),
            None => {
                return false;
            },
        };
        assert(grid_bread(level@) <= old(self)@.total) by {
            assert(level@ == old(self)@.history[old(self)@.history.len() - 2]);
        }
        let bread = level.count_bread();
        self.level = level;
        self.ducks = ducks;
        self.bread_count = BreadCount(bread);
        true
    }

    /// Goes to the level `delta` levels on, or back where `delta` is
    /// negative, and starts it afresh. Where the table has no such level the
    /// call fails with `FailToLoadLevels`, where its text is empty with
    /// `ParseError`; the session then stays as it is.
    pub fn change_level(&mut self, delta: i32) -> (r: Result<(), GameError>)
        requires
            old(self).wf(),
        ensures
            final(self).wf(),
            can_load(old(self)@.texts, old(self)@.index + delta) ==> r is Ok && final(self)@
                == SessionView::loaded(old(self)@.texts, old(self)@.index + delta),
            !can_load(old(self)@.texts, old(self)@.index + delta) ==> r is Err && final(self)@
                == old(self)@,
            !(1 <= old(self)@.index + delta <= old(self)@.texts.len()) ==> r == Err::<
                (),
                GameError,
            >(GameError::FailToLoadLevels),
            1 <= old(self)@.index + delta <= old(self)@.texts.len() && !can_load(
                old(self)@.texts,
                old(self)@.index + delta,
            ) ==> r == Err::<(), GameError>(GameError::ParseError),
    {
        let index = self.current_level_index.0;
        assert(self.levels.texts().len() == self.levels.levels.len());
        let target = if delta >= 0 {
            let steps = delta as usize;
            if index > usize::MAX - steps {
                return Err(GameError::FailToLoadLevels);
            }
            index + steps
        } else {
            let steps = (-(delta as i64)) as usize;
            if steps >= index {
                return Err(GameError::FailToLoadLevels);
            }
            index - steps
        };
        match load_level(target, &self.levels) {
            Ok(level) => {
                self.enter(level, target);
                Ok(())
            },
            Err(error) => Err(error),
        }
    }

    /// Starts the level afresh.
    pub fn restart_level(&mut self)
        requires
            old(self).wf(),
        ensures
            final(self).wf(),
            final(self)@ == SessionView::loaded(old(self)@.texts, old(self)@.index as int),
    {
        let index = self.current_level_index.0;
        if let Ok(level) = load_level(index, &self.levels) {
            self.enter(level, index);
        }
    }

    /// The ducks, in the order of their indices: row by row from the top and
    /// from left to right in each row.
    pub fn ducks(&self) -> (ducks: &Vec<Actor>)
        ensures
            ducks@ == self@.ducks,
    {
        &self.ducks
    }

    /// The index of the level that is played, counted from 1.
    pub fn level_index(&self) -> (index: usize)
        ensures
            index == self@.index,
    {
        self.current_level_index.0
    }

    /// The number of levels in the table.
    pub fn level_count(&self) -> (count: usize)
        ensures
            count == self@.texts.len(),
    {
        self.levels.levels.len()
    }

    /// The number of grids in the history, the grid as it is now included.
    pub fn history_len(&self) -> (len: usize)
        ensures
            len == self@.history.len(),
    {
        self.level_stack.0.size()
    }

    /// The bread that is left on the grid.
    pub fn remaining_bread(&self) -> (bread: usize)
        ensures
            bread == self@.bread,
    {
        self.bread_count.0
    }

    /// The bread that lay on the grid when the level was loaded.
    pub fn total_bread(&self) -> (bread: usize)
        ensures
            bread == self@.total,
    {
        self.total_bread_count.0
    }

    /// Whether the level is won: no bread is left.
    pub fn is_won(&self) -> (won: bool)
        ensures
            won == (self@.bread == 0),
    {
        self.bread_count.0 == 0
    }

    /// A copy of the grid as it is now.
    pub fn grid_snapshot(&self) -> (grid: Level)
        ensures
            grid@ == self@.grid,
    {
        self.level.snapshot()
    }
}

} // verus!
