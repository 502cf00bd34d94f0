//! Level text: one row of the grid per line.
use crate::level::{grid_bread, grid_view, row_bread, GameError, Level};
use vstd::prelude::*;

verus! {

/// Number of characters in front of the first line feed of `text`, or the
/// length of `text` where it holds none.
pub open spec fn first_break(text: Seq<char>) -> nat
    decreases text.len(),
{
    if text.len() == 0 || text[0] == '\n' {
        0
    } else {
        1 + first_break(text.drop_first())
    }
}

/// `line` without the carriage return at its end, if it has one.
pub open spec fn strip_return(line: Seq<char>) -> Seq<char> {
    if line.len() > 0 && line.last() == '\r' {
        line.drop_last()
    } else {
        line
    }
}

/// The lines of `text`. A line ends at a line feed, or at a carriage return
/// directly followed by one; neither belongs to the line. What follows the
/// last line feed is a line of its own unless it is empty.
pub open spec fn split_lines(text: Seq<char>) -> Seq<Seq<char>>
    decreases text.len(),
{
    if text.len() == 0 {
        Seq::empty()
    } else {
        let k = first_break(text);
        if k >= text.len() {
            seq![text]
        } else {
            seq![strip_return(text.take(k as int))] + split_lines(text.skip(k as int + 1))
        }
    }
}

/// The rows of `grid` with a line feed between each two.
pub open spec fn join_lines(grid: Seq<Seq<char>>) -> Seq<char>
    decreases grid.len(),
{
    if grid.len() == 0 {
        Seq::empty()
    } else if grid.len() == 1 {
        grid[0]
    } else {
        join_lines(grid.drop_last()) + seq!['\n'] + grid.last()
    }
}

/// Whether the text written for `grid` reads back as `grid`: there is a row,
/// no row holds a line feed, no row but the last ends in a carriage return,
/// and the last row is not empty.
pub open spec fn keeps_its_lines(grid: Seq<Seq<char>>) -> bool {
    &&& grid.len() > 0
    &&& forall|r: int, c: int| 0 <= r < grid.len() && 0 <= c < grid[r].len() ==> grid[r][c] != '\n'
    &&& forall|r: int| 0 <= r < grid.len() - 1 && grid[r].len() > 0 ==> grid[r].last() != '\r'
    &&& grid.last().len() > 0
}

/// `first_break` is the place of the first line feed.
pub proof fn lemma_first_break(text: Seq<char>, k: int)
    requires
        0 <= k <= text.len(),
        forall|j: int| 0 <= j < k ==> text[j] != '\n',
        k == text.len() || text[k] == '\n',
    ensures
        first_break(text) == k,
    decreases k,
{
    if k > 0 {
        lemma_first_break(text.drop_first(), k - 1);
    }
}

/// A row holds no more bread than cells.
pub proof fn lemma_row_bread_bound(row: Seq<char>)
    ensures
        row_bread(row) <= row.len(),
    decreases row.len(),
{
    if row.len() > 0 {
        lemma_row_bread_bound(row.drop_last());
    }
}

/// The text of a grid of two rows or more is its first row, a line feed, and
/// the text of the other rows.
pub proof fn lemma_join_lines_front(grid: Seq<Seq<char>>)
    requires
        grid.len() >= 2,
    ensures
        join_lines(grid) == grid[0] + seq!['\n'] + join_lines(grid.drop_first()),
    decreases grid.len(),
{
    if grid.len() == 2 {
        assert(grid.drop_last() =~= seq![grid[0]]);
        assert(grid.drop_first() =~= seq![grid[1]]);
        assert(join_lines(grid.drop_last()) == grid[0]);
        assert(join_lines(grid.drop_first()) == grid[1]);
    } else {
        lemma_join_lines_front(grid.drop_last());
        assert(grid.drop_last().drop_first() =~= grid.drop_first().drop_last());
        assert(join_lines(grid) =~= grid[0] + seq!['\n'] + join_lines(grid.drop_first()));
    }
}

/// The text of a grid is empty only where every row is.
pub proof fn lemma_join_lines_len(grid: Seq<Seq<char>>)
    requires
        grid.len() > 0,
    ensures
        join_lines(grid).len() >= grid.last().len(),
    decreases grid.len(),
{
}

/// The text written for a grid that keeps its lines reads back as that grid,
/// and is not empty.
pub proof fn lemma_round_trip(grid: Seq<Seq<char>>)
    requires
        keeps_its_lines(grid),
    ensures
        join_lines(grid).len() > 0,
        split_lines(join_lines(grid)) == grid,
    decreases grid.len(),
{
    let text = join_lines(grid);
    lemma_join_lines_len(grid);
    if grid.len() == 1 {
        lemma_first_break(text, text.len() as int);
        assert(seq![text] =~= grid);
    } else {
        let rest = grid.drop_first();
        let tail = join_lines(rest);
        lemma_join_lines_front(grid);
        lemma_round_trip(rest);
        let k = grid[0].len() as int;
        lemma_first_break(text, k);
        assert(text.take(k) =~= grid[0]);
        assert(text.skip(k + 1) =~= tail);
        assert(seq![grid[0]] + rest =~= grid);
    }
}

/// `String::push` appends the character to the string and changes nothing
/// else of it.
pub assume_specification[ String::push ](s: &mut String, ch: char)
    ensures
        final(s)@ == old(s)@.push(ch),
;

impl Level {
    /// Reads a grid from level text, one row per line. Fails with
    /// `ParseError` on an empty text and on no other.
    pub fn parse(text: &str) -> (r: Result<Level, GameError>)
        ensures
            text@.len() == 0 ==> r == Err::<Level, GameError>(GameError::ParseError),
            text@.len() > 0 ==> r is Ok && r->Ok_0@ == split_lines(text@) && grid_bread(r->Ok_0@)
                <= usize::MAX,
    {
        let total = text.unicode_len();
        if total == 0 {
            return Err(GameError::ParseError);
        }
        let mut rows: Vec<Vec<char>> = Vec::new();
        let mut row: Vec<char> = Vec::new();
        let ghost start: int = 0;
        proof {
            assert(text@.skip(0) =~= text@);
            assert(grid_view(rows) + split_lines(text@) =~= split_lines(text@));
        }
        for ch in it: text.chars()
            invariant
                it.seq() == text@,
                0 <= start <= it.index(),
                row@ == text@.subrange(start, it.index()),
                forall|j: int| start <= j < it.index() ==> text@[j] != '\n',
                split_lines(text@) == grid_view(rows) + split_lines(text@.skip(start)),
                grid_bread(grid_view(rows)) + row@.len() <= it.index(),
        {
            let ghost i = it.index();
            if ch == '\n' {
                let n = row.len();
                proof {
                    let tail = text@.skip(start);
                    lemma_first_break(tail, i - start);
                    assert(tail.take(i - start) =~= row@);
                    assert(tail.skip(i - start + 1) =~= text@.skip(i + 1));
                }
                let ghost line = row@;
                if n > 0 && row[n - 1] == '\r' {
                    row.pop();
                }
                assert(row@ == strip_return(line));
                proof {
                    lemma_row_bread_bound(row@);
                    let next = grid_view(rows).push(row@);
                    assert(next.drop_last() =~= grid_view(rows));
                    assert(seq![row@] + split_lines(text@.skip(i + 1)) =~= split_lines(
                        text@.skip(start),
                    ));
                    assert(grid_view(rows) + (seq![row@] + split_lines(text@.skip(i + 1))) =~= next
                        + split_lines(text@.skip(i + 1)));
                }
                let ghost before = grid_view(rows);
                let ghost kept = row@;
                rows.push(row);
                assert(grid_view(rows) =~= before.push(kept));
                row = Vec::new();
                proof {
                    start = i + 1;
                }
            } else {
                row.push(ch);
            }
        }
        let ghost tail = text@.skip(start);
        if row.len() > 0 {
            proof {
                lemma_first_break(tail, tail.len() as int);
                assert(tail =~= row@);
                lemma_row_bread_bound(row@);
                assert(grid_view(rows).push(row@).drop_last() =~= grid_view(rows));
            }
            let ghost before = grid_view(rows);
            let ghost kept = row@;
            rows.push(row);
            assert(grid_view(rows) =~= before.push(kept));
            assert(before + seq![kept] =~= before.push(kept));
        } else {
            assert(tail.len() == 0);
            assert(grid_view(rows) + Seq::<Seq<char>>::empty() =~= grid_view(rows));
        }
        Ok(Level(rows))
    }

    /// Writes the grid as level text: its rows with a line feed between each
    /// two.
    pub fn serialize(&self) -> (text: String)
        ensures
            text@ == join_lines(self@),
    {
        let mut text = String::new();
        let mut r: usize = 0;
        while r < self.0.len()
            invariant
                r <= self.0.len(),
                text@ == join_lines(self@.take(r as int)),
            decreases self.0.len() - r,
        {
            if r > 0 {
                text.push('\n');
            }
            let ghost head = text@;
            let mut c: usize = 0;
            while c < self.0[r].len()
                invariant
                    r < self.0.len(),
                    c <= self@[r as int].len(),
                    text@ == head + self@[r as int].take(c as int),
                decreases self@[r as int].len() - c,
            {
                text.push(self.0[r][c]);
                assert(self@[r as int].take(c + 1) =~= self@[r as int].take(c as int).push(
                    self@[r as int][c as int],
                ));
                c += 1;
            }
            proof {
                let grid = self@.take(r + 1);
                assert(self@[r as int].take(c as int) =~= self@[r as int]);
                assert(grid.drop_last() =~= self@.take(r as int));
                if r == 0 {
                    assert(head + self@[0] =~= self@[0]);
                }
            }
            r += 1;
        }
        assert(self@.take(r as int) =~= self@);
        text
    }
}

} // verus!
