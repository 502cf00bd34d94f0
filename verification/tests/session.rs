use quack_on_ice::level::{GameError, Level, Levels};
use quack_on_ice::player::{Actor, BigDuck, CommonDuck, Duck};
use quack_on_ice::session::Session;
use quack_on_ice::spawn::{
    bread_sum_record, find_bread_sum, get_entity_on_logic_position, spawn_duck, spawn_ducks,
};
use quack_on_ice::utils::Direction;

fn rows(level: &Level) -> Vec<String> {
    level.0.iter().map(|row| row.iter().collect()).collect()
}

fn start(text: &'static str) -> Session {
    Session::new(Levels::new(vec![text])).unwrap()
}

fn duck(position: (usize, usize), bread: u32, can_move: bool) -> Actor {
    Actor::Single(CommonDuck {
        logic_position: position,
        can_move,
        bread_sum: bread,
        belly_capacity: 1,
    })
}

fn big(position: (usize, usize), bread: u32, can_move: bool) -> Actor {
    Actor::Multi(BigDuck {
        logic_position: position,
        can_move,
        bread_sum: bread,
        belly_capacity: 4,
    })
}

#[test]
fn duck_slides_to_the_bread_and_wins() {
    let mut session = start("@@@@@\n@D#B@\n@@@@@");
    assert_eq!(*session.ducks(), vec![duck((1, 1), 0, true)]);
    assert_eq!(session.remaining_bread(), 1);
    assert_eq!(session.total_bread(), 1);
    assert!(!session.is_won());
    let outcome = session.apply_move(0, Direction::Right).unwrap();
    assert_eq!(outcome.old_position, (1, 1));
    assert_eq!(outcome.new_position, (1, 3));
    assert_eq!(outcome.duck, duck((1, 3), 1, true));
    assert!(outcome.ate_bread);
    assert!(outcome.became_stuffed);
    assert!(!outcome.became_stuck);
    assert!(outcome.won);
    assert_eq!(outcome.shake_wave, Vec::new());
    assert_eq!(session.remaining_bread(), 0);
    assert_eq!(session.total_bread(), 1);
    assert!(session.is_won());
    assert_eq!(*session.ducks(), vec![duck((1, 3), 1, true)]);
    assert_eq!(rows(&session.grid_snapshot()), vec!["@@@@@", "@##Q@", "@@@@@"]);
}

#[test]
fn duck_under_a_wall_does_not_move_up() {
    let mut session = start("@@@@@\n@D#B@\n@@@@@");
    let outcome = session.apply_move(0, Direction::Up).unwrap();
    assert_eq!(outcome.old_position, (1, 1));
    assert_eq!(outcome.new_position, (1, 1));
    assert_eq!(outcome.duck, duck((1, 1), 0, true));
    assert!(!outcome.ate_bread);
    assert!(!outcome.became_stuffed);
    assert!(!outcome.became_stuck);
    assert!(!outcome.won);
    assert_eq!(session.remaining_bread(), 1);
    assert_eq!(*session.ducks(), vec![duck((1, 1), 0, true)]);
    assert_eq!(rows(&session.grid_snapshot()), vec!["@@@@@", "@D#B@", "@@@@@"]);
    assert_eq!(session.history_len(), 1);
    assert!(!session.undo());
}

#[test]
fn big_duck_is_stuffed_after_one_move_over_four_breads() {
    let mut session = start("####\n#gBB\n##BB\n####");
    assert_eq!(*session.ducks(), vec![big((1, 1), 0, true)]);
    assert_eq!(session.total_bread(), 4);
    let outcome = session.apply_move(0, Direction::Right).unwrap();
    assert_eq!(outcome.new_position, (1, 2));
    assert_eq!(outcome.duck, big((1, 2), 4, true));
    assert!(outcome.ate_bread);
    assert!(outcome.became_stuffed);
    assert!(outcome.won);
    assert_eq!(*session.ducks(), vec![big((1, 2), 4, true)]);
    assert!(session.ducks()[0].is_stuffed());
    assert_eq!(session.remaining_bread(), 0);
    assert_eq!(rows(&session.grid_snapshot()), vec!["####", "##G#", "####", "####"]);
}

#[test]
fn move_of_a_duck_that_is_not_there_is_refused() {
    let mut session = start("@D#B@");
    assert!(session.apply_move(1, Direction::Right).is_none());
    assert!(session.apply_move(usize::MAX, Direction::Right).is_none());
    assert_eq!(rows(&session.grid_snapshot()), vec!["@D#B@"]);
    assert_eq!(session.history_len(), 1);
}

#[test]
fn move_without_direction_changes_nothing() {
    let mut session = start("@D#B@");
    let outcome = session.apply_move(0, Direction::Idle).unwrap();
    assert_eq!(outcome.new_position, (0, 1));
    assert_eq!(rows(&session.grid_snapshot()), vec!["@D#B@"]);
    assert_eq!(session.history_len(), 1);
}

#[test]
fn bread_never_grows_with_moves() {
    let mut session = start("@@@@@@@\n@D#B#B@\n@#####@\n@B##D#@\n@@@@@@@");
    let mut left = session.remaining_bread();
    assert_eq!(left, 3);
    let moves = [
        (0, Direction::Right),
        (0, Direction::Down),
        (1, Direction::Left),
        (1, Direction::Up),
        (0, Direction::Left),
        (1, Direction::Right),
        (0, Direction::Up),
        (1, Direction::Down),
    ];
    for (actor, direction) in moves {
        let actor = actor.min(session.ducks().len() - 1);
        session.apply_move(actor, direction).unwrap();
        assert!(session.remaining_bread() <= left);
        assert_eq!(session.remaining_bread(), session.grid_snapshot().count_bread());
        assert_eq!(session.is_won(), session.remaining_bread() == 0);
        assert_eq!(session.total_bread(), 3);
        left = session.remaining_bread();
    }
}

#[test]
fn won_is_told_once() {
    let mut session = start("@D#B##@");
    let first = session.apply_move(0, Direction::Right).unwrap();
    assert!(first.won);
    let second = session.apply_move(0, Direction::Right).unwrap();
    assert_eq!(second.new_position, (0, 5));
    assert!(!second.won);
    assert!(session.is_won());
}

#[test]
fn undo_gives_back_grid_ducks_and_bread() {
    let mut session = start("@@@@@@\n@D#B#@\n@##Q#@\n@@@@@@");
    let ducks = session.ducks().clone();
    let grid = rows(&session.grid_snapshot());
    let outcome = session.apply_move(0, Direction::Right).unwrap();
    assert_eq!(outcome.new_position, (1, 3));
    assert_eq!(session.remaining_bread(), 0);
    assert_eq!(session.history_len(), 2);
    assert!(session.undo());
    assert_eq!(*session.ducks(), ducks);
    assert_eq!(rows(&session.grid_snapshot()), grid);
    assert_eq!(session.remaining_bread(), 1);
    assert_eq!(session.total_bread(), 1);
    assert!(!session.is_won());
    assert_eq!(session.history_len(), 1);
    assert!(!session.undo());
    assert_eq!(rows(&session.grid_snapshot()), grid);
}

#[test]
fn undo_gives_back_what_a_big_duck_had_eaten() {
    let mut session = start("#######\ng##B#B#\n#######");
    let first = session.apply_move(0, Direction::Right).unwrap();
    assert_eq!(first.new_position, (1, 2));
    assert_eq!(*session.ducks(), vec![big((1, 2), 1, true)]);
    let ducks = session.ducks().clone();
    let grid = rows(&session.grid_snapshot());
    let second = session.apply_move(0, Direction::Right).unwrap();
    assert_eq!(second.new_position, (1, 4));
    assert_eq!(*session.ducks(), vec![big((1, 4), 2, true)]);
    assert_eq!(session.remaining_bread(), 0);
    assert!(session.undo());
    assert_eq!(*session.ducks(), ducks);
    assert_eq!(rows(&session.grid_snapshot()), grid);
    assert_eq!(session.remaining_bread(), 1);
    assert!(session.undo());
    assert_eq!(*session.ducks(), vec![big((1, 0), 0, true)]);
    assert_eq!(rows(&session.grid_snapshot()), vec!["#######", "g##B#B#", "#######"]);
    assert_eq!(session.remaining_bread(), 2);
    assert!(!session.undo());
}

#[test]
fn stuck_duck_is_told_and_moves_no_more() {
    let mut session = start("@Q#*#@");
    let outcome = session.apply_move(0, Direction::Right).unwrap();
    assert_eq!(outcome.new_position, (0, 3));
    assert!(outcome.became_stuck);
    assert!(!outcome.became_stuffed);
    assert!(!outcome.ate_bread);
    assert_eq!(*session.ducks(), vec![duck((0, 3), 1, false)]);
    assert_eq!(rows(&session.grid_snapshot()), vec!["@##P#@"]);
    let again = session.apply_move(0, Direction::Left).unwrap();
    assert_eq!(again.new_position, (0, 3));
    assert!(!again.became_stuck);
    assert_eq!(rows(&session.grid_snapshot()), vec!["@##P#@"]);
    assert_eq!(session.history_len(), 2);
}

#[test]
fn sunk_big_duck_stays_a_big_duck() {
    let mut session = start("G#**#\n##**#\nD####");
    assert_eq!(*session.ducks(), vec![big((0, 0), 4, true), duck((2, 0), 0, true)]);
    let outcome = session.apply_move(0, Direction::Right).unwrap();
    assert!(outcome.became_stuck);
    assert_eq!(rows(&session.grid_snapshot()), vec!["##P^#", "##^^#", "D####"]);
    assert_eq!(*session.ducks(), vec![big((0, 2), 4, false), duck((2, 0), 0, true)]);
    session.apply_move(1, Direction::Right).unwrap();
    assert_eq!(*session.ducks(), vec![big((0, 2), 4, false), duck((2, 4), 0, true)]);
    assert!(session.undo());
    assert_eq!(*session.ducks(), vec![big((0, 2), 4, false), duck((2, 0), 0, true)]);
    assert!(session.undo());
    assert_eq!(*session.ducks(), vec![big((0, 0), 4, true), duck((2, 0), 0, true)]);
}

#[test]
fn every_big_duck_stays_on_the_grid() {
    let mut session = start("#######\n#g###B#\n#######\n###D###\n#######");
    let moves = [
        Direction::Right,
        Direction::Down,
        Direction::Left,
        Direction::Up,
        Direction::Right,
        Direction::Down,
    ];
    for direction in moves {
        let index = session.ducks().iter().position(|d| matches!(d, Actor::Multi(_))).unwrap();
        session.apply_move(index, direction).unwrap();
        let grid = session.grid_snapshot();
        for d in session.ducks() {
            let cells = d.get_occupied_positions();
            for cell in &cells {
                assert!(grid.get(*cell).is_ok());
            }
            if let Actor::Multi(_) = d {
                let (r, c) = d.get_logic_position();
                assert_eq!(cells, vec![(r, c), (r, c + 1), (r + 1, c), (r + 1, c + 1)]);
            }
        }
    }
}

#[test]
fn moved_duck_pushes_a_wave_through_its_neighbours() {
    let mut session = start("@D##DQ@");
    let outcome = session.apply_move(0, Direction::Right).unwrap();
    assert_eq!(outcome.new_position, (0, 3));
    assert_eq!(outcome.shake_wave, vec![(0, 4), (0, 5)]);
}

#[test]
fn ducks_are_found_row_by_row() {
    let level = Level::parse("Q#D\n#g#\n###\nOP$#\n####").unwrap();
    let record = vec![((1, 1), 3), ((3, 2), 1)];
    assert_eq!(
        spawn_ducks(&level, &record),
        vec![
            duck((0, 0), 1, true),
            duck((0, 2), 0, true),
            big((1, 1), 3, true),
            duck((3, 0), 0, true),
            duck((3, 1), 1, false),
            big((3, 2), 4, true),
        ]
    );
    assert_eq!(
        spawn_ducks(&level, &Vec::new()),
        vec![
            duck((0, 0), 1, true),
            duck((0, 2), 0, true),
            big((1, 1), 0, true),
            duck((3, 0), 0, true),
            duck((3, 1), 1, false),
            big((3, 2), 4, true),
        ]
    );
}

#[test]
fn one_cell_holds_one_duck_or_none() {
    let level = Level::parse("Q#g\n###\n#D").unwrap();
    let record = Vec::new();
    assert_eq!(spawn_duck(&level, &record, (0, 0)), Some(duck((0, 0), 1, true)));
    assert_eq!(spawn_duck(&level, &record, (0, 1)), None);
    assert_eq!(spawn_duck(&level, &record, (0, 2)), None);
    assert_eq!(spawn_duck(&level, &record, (2, 1)), Some(duck((2, 1), 0, true)));
    assert_eq!(spawn_duck(&level, &record, (2, 2)), None);
    assert_eq!(spawn_duck(&level, &record, (7, 0)), None);
}

#[test]
fn anchor_of_a_big_duck_without_room_is_no_duck() {
    let level = Level::parse("##g\n###\n#G#").unwrap();
    assert_eq!(spawn_ducks(&level, &Vec::new()), Vec::new());
}

#[test]
fn record_holds_the_big_ducks_only() {
    let ducks = vec![duck((0, 0), 1, true), big((1, 1), 3, true), big((4, 4), 4, false)];
    let record = bread_sum_record(&ducks);
    assert_eq!(record, vec![((1, 1), 3), ((4, 4), 4)]);
    assert_eq!(find_bread_sum(&record, (1, 1)), Some(3));
    assert_eq!(find_bread_sum(&record, (4, 4)), Some(4));
    assert_eq!(find_bread_sum(&record, (0, 0)), None);
    assert_eq!(find_bread_sum(&vec![((1, 1), 2), ((1, 1), 3)], (1, 1)), Some(2));
}

#[test]
fn new_session_needs_a_first_level() {
    assert!(matches!(Session::new(Levels::new(Vec::new())), Err(GameError::FailToLoadLevels)));
    assert!(matches!(Session::new(Levels::new(vec![""])), Err(GameError::ParseError)));
}

#[test]
fn change_level_goes_on_and_back() {
    let mut session = Session::new(Levels::new(vec!["@DB@", "@D#B@\n@B###", "@Q@"])).unwrap();
    assert_eq!(session.level_count(), 3);
    assert_eq!(session.level_index(), 1);
    assert_eq!(session.change_level(1), Ok(()));
    assert_eq!(session.level_index(), 2);
    assert_eq!(session.remaining_bread(), 2);
    assert_eq!(session.total_bread(), 2);
    assert_eq!(*session.ducks(), vec![duck((0, 1), 0, true)]);
    assert_eq!(session.change_level(1), Ok(()));
    assert_eq!(session.level_index(), 3);
    assert!(session.is_won());
    assert_eq!(session.change_level(-2), Ok(()));
    assert_eq!(session.level_index(), 1);
    assert_eq!(rows(&session.grid_snapshot()), vec!["@DB@"]);
}

#[test]
fn change_level_outside_the_table_leaves_the_session() {
    let mut session = Session::new(Levels::new(vec!["@D#B@", "", "@Q@"])).unwrap();
    session.apply_move(0, Direction::Right).unwrap();
    for delta in [-1, 3, -5, i32::MAX, i32::MIN] {
        assert_eq!(session.change_level(delta), Err(GameError::FailToLoadLevels));
        assert_eq!(session.level_index(), 1);
        assert_eq!(rows(&session.grid_snapshot()), vec!["@##Q@"]);
        assert_eq!(session.history_len(), 2);
    }
    assert_eq!(session.change_level(1), Err(GameError::ParseError));
    assert_eq!(session.level_index(), 1);
    assert_eq!(session.change_level(0), Ok(()));
    assert_eq!(rows(&session.grid_snapshot()), vec!["@D#B@"]);
}

#[test]
fn loading_a_level_starts_a_new_history() {
    let mut session = Session::new(Levels::new(vec!["@D#B#@", "@Q#@"])).unwrap();
    session.apply_move(0, Direction::Right).unwrap();
    session.apply_move(0, Direction::Right).unwrap();
    assert_eq!(session.history_len(), 3);
    session.change_level(1).unwrap();
    assert_eq!(session.history_len(), 1);
    assert!(!session.undo());
    assert_eq!(rows(&session.grid_snapshot()), vec!["@Q#@"]);
}

#[test]
fn restart_brings_the_bread_back() {
    let mut session = start("@D#B#@");
    session.apply_move(0, Direction::Right).unwrap();
    assert_eq!(session.remaining_bread(), 0);
    session.restart_level();
    assert_eq!(session.remaining_bread(), 1);
    assert_eq!(session.total_bread(), 1);
    assert!(!session.is_won());
    assert_eq!(*session.ducks(), vec![duck((0, 1), 0, true)]);
    assert_eq!(rows(&session.grid_snapshot()), vec!["@D#B#@"]);
    assert!(!session.undo());
}

#[test]
fn level_without_bread_is_won_at_once() {
    let session = start("@D##@");
    assert!(session.is_won());
    assert_eq!(session.total_bread(), 0);
}

#[test]
fn duck_is_found_by_its_anchor() {
    let ducks = vec![duck((0, 0), 1, true), big((1, 1), 3, true), duck((4, 4), 0, true)];
    assert_eq!(get_entity_on_logic_position((0, 0), &ducks), Some(0));
    assert_eq!(get_entity_on_logic_position((1, 1), &ducks), Some(1));
    assert_eq!(get_entity_on_logic_position((4, 4), &ducks), Some(2));
    assert_eq!(get_entity_on_logic_position((1, 2), &ducks), None);
    assert_eq!(get_entity_on_logic_position((0, 0), &Vec::new()), None);
}

#[test]
fn moved_duck_is_found_at_its_new_anchor() {
    let mut session = start("@@@@@@\n@##D#@\n@D###@\n@@@@@@");
    let chosen = get_entity_on_logic_position((2, 1), session.ducks()).unwrap();
    assert_eq!(chosen, 1);
    let outcome = session.apply_move(chosen, Direction::Up).unwrap();
    assert_eq!(outcome.new_position, (1, 1));
    let chosen = get_entity_on_logic_position(outcome.new_position, session.ducks()).unwrap();
    assert_eq!(chosen, 0);
    assert_eq!(session.ducks()[chosen], duck((1, 1), 0, true));
    assert_eq!(rows(&session.grid_snapshot()), vec!["@@@@@@", "@D#D#@", "@####@", "@@@@@@"]);
}

#[test]
fn move_changes_one_duck() {
    let mut session = start("@@@@@@@@\n@D#B##Q@\n@######@\n@#g##*#@\n@####O#@\n@@@@@@@@");
    let before = session.ducks().clone();
    assert_eq!(before.len(), 4);
    let chosen = get_entity_on_logic_position((3, 2), &before).unwrap();
    let outcome = session.apply_move(chosen, Direction::Up).unwrap();
    assert_eq!(outcome.new_position, (1, 2));
    assert_eq!(outcome.duck, big((1, 2), 1, true));
    let after = session.ducks().clone();
    assert_eq!(after.len(), before.len());
    assert!(after.contains(&outcome.duck));
    for (index, duck) in before.iter().enumerate() {
        if index != chosen {
            assert!(after.contains(duck));
        }
    }
    for duck in after.iter() {
        assert!(*duck == outcome.duck || before.contains(duck));
    }
    assert_eq!(
        rows(&session.grid_snapshot()),
        vec!["@@@@@@@@", "@Dg###Q@", "@######@", "@####*#@", "@####O#@", "@@@@@@@@"]
    );
}

fn is_tidy(grid: &[String]) -> bool {
    let symbol = |r: usize, c: usize| grid.get(r).and_then(|row| row.chars().nth(c));
    let shows_duck = |r: usize, c: usize| matches!(symbol(r, c), Some(s) if "DQOPgG&$".contains(s));
    for (r, row) in grid.iter().enumerate() {
        for (c, s) in row.chars().enumerate() {
            if "gG&$".contains(s)
                && (shows_duck(r, c + 1) || shows_duck(r + 1, c) || shows_duck(r + 1, c + 1))
            {
                return false;
            }
        }
    }
    true
}

#[test]
fn every_duck_keeps_its_cells_to_itself() {
    let mut session = start("@@@@@@@@\n@D####g@\n@#B####@\n@##g#*#@\n@####Q#@\n@@@@@@@@");
    assert!(is_tidy(&rows(&session.grid_snapshot())));
    let directions = [Direction::Left, Direction::Down, Direction::Right, Direction::Up];
    for round in 0..12 {
        let actor = round % session.ducks().len();
        session.apply_move(actor, directions[round % 4]).unwrap();
        assert!(is_tidy(&rows(&session.grid_snapshot())));
        assert_eq!(session.ducks().len(), 4);
    }
}
