use quack_on_ice::level::Level;
use quack_on_ice::movement::{
    block_fits, collide_with_object, is_in_big_duck, is_valid_move, may_enter, shake_in_direction,
    slip, slip_big, step,
};
use quack_on_ice::player::{Actor, BigDuck, CommonDuck, Duck};
use quack_on_ice::utils::Direction;

fn grid(text: &str) -> Level {
    Level::parse(text).unwrap()
}

fn rows(level: &Level) -> Vec<String> {
    level.0.iter().map(|row| row.iter().collect()).collect()
}

fn duck(position: (usize, usize), bread: u32) -> CommonDuck {
    CommonDuck { logic_position: position, can_move: true, bread_sum: bread, belly_capacity: 1 }
}

fn big(position: (usize, usize), bread: u32) -> BigDuck {
    BigDuck { logic_position: position, can_move: true, bread_sum: bread, belly_capacity: 4 }
}

#[test]
fn common_duck_covers_its_cell() {
    let d = duck((2, 3), 0);
    assert_eq!(d.get_logic_position(), (2, 3));
    assert_eq!(d.get_occupied_positions(), vec![(2, 3)]);
    assert_eq!(d.get_bread_sum(), 0);
    assert!(!d.is_stuffed());
    assert!(d.can_move());
}

#[test]
fn big_duck_covers_two_by_two_cells() {
    let d = big((2, 3), 0);
    assert_eq!(d.get_occupied_positions(), vec![(2, 3), (2, 4), (3, 3), (3, 4)]);
    assert_eq!(Actor::Multi(d).get_occupied_positions(), vec![(2, 3), (2, 4), (3, 3), (3, 4)]);
    assert_eq!(Actor::Single(duck((1, 1), 0)).get_occupied_positions(), vec![(1, 1)]);
}

#[test]
fn big_duck_leads_with_the_edge_that_faces_the_move() {
    let d = big((2, 3), 0);
    assert_eq!(d.get_edge_positions(Direction::Up), Some(((2, 3), (2, 4))));
    assert_eq!(d.get_edge_positions(Direction::Down), Some(((3, 3), (3, 4))));
    assert_eq!(d.get_edge_positions(Direction::Left), Some(((2, 3), (3, 3))));
    assert_eq!(d.get_edge_positions(Direction::Right), Some(((2, 4), (3, 4))));
    assert_eq!(d.get_edge_positions(Direction::Idle), None);
}

#[test]
fn eating_stops_at_the_belly() {
    let mut d = duck((0, 0), 0);
    d.eat_bread();
    assert_eq!(d.get_bread_sum(), 1);
    assert!(d.is_stuffed());
    d.eat_bread();
    assert_eq!(d.get_bread_sum(), 1);
    let mut b = big((0, 0), 2);
    b.eat_bread();
    assert_eq!(b.get_bread_sum(), 3);
    assert!(!b.is_stuffed());
    b.eat_bread();
    assert!(b.is_stuffed());
    b.eat_bread();
    assert_eq!(b.get_bread_sum(), 4);
}

#[test]
fn setters_change_one_thing() {
    let mut d = Actor::Single(duck((1, 1), 1));
    d.set_logic_position((4, 5));
    d.set_can_move(false);
    assert_eq!(d.get_logic_position(), (4, 5));
    assert!(!d.can_move());
    assert_eq!(d.get_bread_sum(), 1);
    let mut b = Actor::Multi(big((1, 1), 3));
    b.set_logic_position((2, 2));
    b.eat_bread();
    assert_eq!(b, Actor::Multi(big((2, 2), 4)));
}

#[test]
fn step_goes_one_cell() {
    assert_eq!(step((3, 3), Direction::Up), Some((2, 3)));
    assert_eq!(step((3, 3), Direction::Down), Some((4, 3)));
    assert_eq!(step((3, 3), Direction::Left), Some((3, 2)));
    assert_eq!(step((3, 3), Direction::Right), Some((3, 4)));
    assert_eq!(step((3, 3), Direction::Idle), None);
    assert_eq!(step((0, 3), Direction::Up), None);
    assert_eq!(step((3, 0), Direction::Left), None);
    assert_eq!(step((usize::MAX, 0), Direction::Down), None);
    assert_eq!(step((0, usize::MAX), Direction::Right), None);
}

#[test]
fn valid_moves_by_symbol() {
    let hungry = duck((0, 0), 0);
    let full = duck((0, 0), 1);
    for symbol in ['#', '^', '*', 'B', 'g', ' '] {
        assert!(is_valid_move(symbol, &hungry));
    }
    for symbol in ['@', 'D', 'Q', 'O', 'P'] {
        assert!(!is_valid_move(symbol, &hungry));
        assert!(!is_valid_move(symbol, &full));
    }
    assert!(!is_valid_move('B', &full));
    assert!(is_valid_move('*', &full));
    assert!(is_valid_move('#', &full));
}

#[test]
fn collision_with_bread_feeds_and_stops() {
    let mut d = duck((0, 0), 0);
    assert!(collide_with_object('B', &mut d));
    assert_eq!(d, duck((0, 0), 1));
}

#[test]
fn collision_with_breaking_ice_strands_a_stuffed_duck_only() {
    let mut hungry = duck((0, 0), 0);
    assert!(!collide_with_object('*', &mut hungry));
    assert_eq!(hungry, duck((0, 0), 0));
    let mut full = duck((0, 0), 1);
    assert!(collide_with_object('*', &mut full));
    assert!(!full.can_move());
    assert_eq!(full.get_bread_sum(), 1);
    let mut other = duck((0, 0), 1);
    assert!(!collide_with_object('#', &mut other));
    assert_eq!(other, duck((0, 0), 1));
}

#[test]
fn cells_of_a_big_duck_are_found_from_its_anchor() {
    let level = grid("####\n#g##\n####\n####");
    for cell in [(1, 1), (1, 2), (2, 1), (2, 2)] {
        assert!(is_in_big_duck(&level, cell));
    }
    for cell in [(0, 0), (0, 1), (1, 0), (1, 3), (3, 1), (3, 3), (2, 3), (3, 2), (9, 9)] {
        assert!(!is_in_big_duck(&level, cell));
    }
    assert!(!may_enter(&level, (1, 2), &duck((1, 3), 0)));
    assert!(may_enter(&level, (1, 3), &duck((0, 3), 0)));
    assert!(!may_enter(&level, (1, 4), &duck((1, 3), 0)));
}

#[test]
fn block_fits_where_the_grid_has_all_four_cells() {
    let level = grid("###\n##\n###");
    assert!(block_fits(&level, (0, 0)));
    assert!(!block_fits(&level, (0, 1)));
    assert!(block_fits(&level, (1, 0)));
    assert!(!block_fits(&level, (2, 0)));
    assert!(!block_fits(&level, (usize::MAX, 0)));
    assert!(!block_fits(&level, (0, usize::MAX)));
}

#[test]
fn slide_runs_to_the_wall() {
    let mut level = grid("@@@@@@@\n@D####@\n@@@@@@@");
    let mut d = duck((1, 1), 0);
    assert_eq!(slip(&mut d, Direction::Right, &mut level), (1, 5));
    assert_eq!(rows(&level), vec!["@@@@@@@", "@####D@", "@@@@@@@"]);
    assert_eq!(d, duck((1, 1), 0));
}

#[test]
fn slide_runs_to_the_edge_of_the_grid() {
    for (direction, end, picture) in [
        (Direction::Up, (0, 2), vec!["##D##", "#####", "#####", "#####"]),
        (Direction::Down, (3, 2), vec!["#####", "#####", "#####", "##D##"]),
        (Direction::Left, (1, 0), vec!["#####", "D####", "#####", "#####"]),
        (Direction::Right, (1, 4), vec!["#####", "####D", "#####", "#####"]),
    ] {
        let mut level = grid("#####\n##D##\n#####\n#####");
        let mut d = duck((1, 2), 0);
        assert_eq!(slip(&mut d, direction, &mut level), end);
        assert_eq!(rows(&level), picture);
    }
}

#[test]
fn slide_stops_where_a_row_is_shorter() {
    let mut level = grid("#D##\n####\n#\n####");
    let mut d = duck((0, 1), 0);
    assert_eq!(slip(&mut d, Direction::Down, &mut level), (1, 1));
    assert_eq!(rows(&level), vec!["####", "#D##", "#", "####"]);
}

#[test]
fn slide_with_no_direction_changes_nothing() {
    let mut level = grid("@D##@");
    let mut d = duck((0, 1), 0);
    assert_eq!(slip(&mut d, Direction::Idle, &mut level), (0, 1));
    assert_eq!(rows(&level), vec!["@D##@"]);
}

#[test]
fn blocked_duck_stays() {
    let mut level = grid("@@@\n@D@\n@@@");
    for direction in [Direction::Up, Direction::Down, Direction::Left, Direction::Right] {
        let mut d = duck((1, 1), 0);
        assert_eq!(slip(&mut d, direction, &mut level), (1, 1));
        assert_eq!(rows(&level), vec!["@@@", "@D@", "@@@"]);
        assert_eq!(d, duck((1, 1), 0));
    }
}

#[test]
fn bread_is_eaten_and_stops_the_slide() {
    let mut level = grid("@D#B##@");
    let mut d = duck((0, 1), 0);
    assert_eq!(slip(&mut d, Direction::Right, &mut level), (0, 3));
    assert_eq!(rows(&level), vec!["@##Q##@"]);
    assert_eq!(d, duck((0, 1), 1));
}

#[test]
fn stuffed_duck_stops_in_front_of_bread() {
    let mut level = grid("@Q##B@");
    let mut d = duck((0, 1), 1);
    assert_eq!(slip(&mut d, Direction::Right, &mut level), (0, 3));
    assert_eq!(rows(&level), vec!["@##QB@"]);
    assert_eq!(level.count_bread(), 1);
}

#[test]
fn hungry_duck_slides_over_breaking_ice() {
    let mut level = grid("@D*#*#@");
    let mut d = duck((0, 1), 0);
    assert_eq!(slip(&mut d, Direction::Right, &mut level), (0, 5));
    assert_eq!(rows(&level), vec!["@#*#*D@"]);
    assert!(d.can_move());
}

#[test]
fn hungry_duck_rests_on_breaking_ice_and_leaves_it_whole() {
    let mut level = grid("@D#*@");
    let mut d = duck((0, 1), 0);
    assert_eq!(slip(&mut d, Direction::Right, &mut level), (0, 3));
    assert_eq!(rows(&level), vec!["@##O@"]);
    d.set_logic_position((0, 3));
    assert_eq!(slip(&mut d, Direction::Left, &mut level), (0, 1));
    assert_eq!(rows(&level), vec!["@D#*@"]);
}

#[test]
fn stuffed_duck_falls_through_breaking_ice() {
    let mut level = grid("@Q#*#@");
    let mut d = duck((0, 1), 1);
    assert_eq!(slip(&mut d, Direction::Right, &mut level), (0, 3));
    assert_eq!(rows(&level), vec!["@##P#@"]);
    assert!(!d.can_move());
    assert_eq!(d.get_bread_sum(), 1);
}

#[test]
fn stuck_duck_is_not_moved() {
    let mut level = grid("@#P#@");
    let mut d = duck((0, 2), 1);
    d.set_can_move(false);
    assert_eq!(slip(&mut d, Direction::Left, &mut level), (0, 2));
    assert_eq!(slip(&mut d, Direction::Right, &mut level), (0, 2));
    assert_eq!(rows(&level), vec!["@#P#@"]);
}

#[test]
fn duck_outside_the_grid_is_not_moved() {
    let mut level = grid("@##@");
    let mut d = duck((3, 1), 0);
    assert_eq!(slip(&mut d, Direction::Up, &mut level), (3, 1));
    assert_eq!(rows(&level), vec!["@##@"]);
    let mut b = big((0, 2), 0);
    assert_eq!(slip_big(&mut b, Direction::Left, &mut level), (0, 2));
    assert_eq!(rows(&level), vec!["@##@"]);
}

#[test]
fn other_ducks_block_the_way() {
    for other in ['D', 'Q', 'O', 'P'] {
        let text = format!("@D##{}#@", other);
        let mut level = grid(&text);
        let mut d = duck((0, 1), 0);
        assert_eq!(slip(&mut d, Direction::Right, &mut level), (0, 3));
        assert_eq!(rows(&level), vec![format!("@##D{}#@", other)]);
    }
}

#[test]
fn big_duck_blocks_the_way_with_all_four_cells() {
    let mut level = grid("######\nD##g##\n######\n######");
    let mut d = duck((1, 0), 0);
    assert_eq!(slip(&mut d, Direction::Right, &mut level), (1, 2));
    let mut level = grid("D#####\n######\n####g#\n######");
    let mut d = duck((0, 0), 0);
    assert_eq!(slip(&mut d, Direction::Down, &mut level), (3, 0));
    let mut level = grid("####D#\n######\n###g##\n######");
    let mut d = duck((0, 4), 0);
    assert_eq!(slip(&mut d, Direction::Down, &mut level), (1, 4));
    let mut level = grid("######\n######\n###g##\n#####D");
    let mut d = duck((3, 5), 0);
    assert_eq!(slip(&mut d, Direction::Left, &mut level), (3, 5));
    assert_eq!(rows(&level), vec!["######", "######", "###g##", "#####D"]);
}

#[test]
fn big_duck_slides_with_all_four_cells() {
    let mut level = grid("######\n#g####\n######\n######");
    let mut b = big((1, 1), 0);
    assert_eq!(slip_big(&mut b, Direction::Right, &mut level), (1, 4));
    assert_eq!(rows(&level), vec!["######", "####g#", "######", "######"]);
    b.set_logic_position((1, 4));
    assert_eq!(slip_big(&mut b, Direction::Down, &mut level), (2, 4));
    assert_eq!(rows(&level), vec!["######", "######", "####g#", "######"]);
    b.set_logic_position((2, 4));
    assert_eq!(slip_big(&mut b, Direction::Left, &mut level), (2, 0));
    b.set_logic_position((2, 0));
    assert_eq!(slip_big(&mut b, Direction::Up, &mut level), (0, 0));
    assert_eq!(rows(&level), vec!["g#####", "######", "######", "######"]);
}

#[test]
fn big_duck_stops_where_one_cell_ahead_is_blocked() {
    let mut level = grid("######\n#g####\n####@#\n######");
    let mut b = big((1, 1), 0);
    assert_eq!(slip_big(&mut b, Direction::Right, &mut level), (1, 2));
    assert_eq!(rows(&level), vec!["######", "##g###", "####@#", "######"]);
    let mut level = grid("######\n#g##D#\n######\n######");
    let mut b = big((1, 1), 0);
    assert_eq!(slip_big(&mut b, Direction::Right, &mut level), (1, 2));
    let mut level = grid("#####\n#g###\n###\n#####");
    let mut b = big((1, 1), 0);
    assert_eq!(slip_big(&mut b, Direction::Right, &mut level), (1, 1));
    assert_eq!(rows(&level), vec!["#####", "#g###", "###", "#####"]);
}

#[test]
fn big_ducks_block_each_other() {
    let mut level = grid("#######\ng####g#\n#######");
    let mut b = big((1, 0), 0);
    assert_eq!(slip_big(&mut b, Direction::Right, &mut level), (1, 3));
    assert_eq!(rows(&level), vec!["#######", "###g#g#", "#######"]);
    let mut level = grid("g######\n#####G#\n#######");
    let mut b = big((0, 0), 0);
    assert_eq!(slip_big(&mut b, Direction::Right, &mut level), (0, 3));
}

#[test]
fn big_duck_eats_every_bread_under_it_in_one_step() {
    let mut level = grid("####\n#gBB\n##BB\n####");
    let mut b = big((1, 1), 0);
    assert_eq!(slip_big(&mut b, Direction::Right, &mut level), (1, 2));
    assert_eq!(b.get_bread_sum(), 4);
    assert!(b.is_stuffed());
    assert!(b.can_move());
    assert_eq!(rows(&level), vec!["####", "##G#", "####", "####"]);
    assert_eq!(level.count_bread(), 0);
}

#[test]
fn big_duck_eats_one_bread_and_stops() {
    let mut level = grid("######\ng###B#\n######");
    let mut b = big((1, 0), 2);
    assert_eq!(slip_big(&mut b, Direction::Right, &mut level), (1, 3));
    assert_eq!(b.get_bread_sum(), 3);
    assert_eq!(rows(&level), vec!["######", "###g##", "######"]);
    b.set_logic_position((1, 3));
    assert_eq!(slip_big(&mut b, Direction::Right, &mut level), (1, 4));
}

#[test]
fn stuffed_big_duck_stops_in_front_of_bread() {
    let mut level = grid("#####\nG###B\n#####");
    let mut b = big((1, 0), 4);
    assert_eq!(slip_big(&mut b, Direction::Right, &mut level), (1, 2));
    assert_eq!(rows(&level), vec!["#####", "##G#B", "#####"]);
}

#[test]
fn stuffed_big_duck_sinks_where_all_four_cells_break() {
    let mut level = grid("G#**#\n##**#");
    let mut b = big((0, 0), 4);
    assert_eq!(slip_big(&mut b, Direction::Right, &mut level), (0, 2));
    assert!(!b.can_move());
    assert_eq!(rows(&level), vec!["##P^#", "##^^#"]);
    b.set_logic_position((0, 2));
    assert_eq!(slip_big(&mut b, Direction::Right, &mut level), (0, 2));
    assert_eq!(rows(&level), vec!["##P^#", "##^^#"]);
}

#[test]
fn stuffed_big_duck_slides_on_where_only_some_cells_break() {
    let mut level = grid("G#**#\n##*##");
    let mut b = big((0, 0), 4);
    assert_eq!(slip_big(&mut b, Direction::Right, &mut level), (0, 3));
    assert!(b.can_move());
    assert_eq!(rows(&level), vec!["##*$#", "##*##"]);
    b.set_logic_position((0, 3));
    assert_eq!(slip_big(&mut b, Direction::Left, &mut level), (0, 0));
    assert_eq!(rows(&level), vec!["G#**#", "##*##"]);
}

#[test]
fn hungry_big_duck_rests_on_breaking_ice() {
    let mut level = grid("g#**\n##**");
    let mut b = big((0, 0), 1);
    assert_eq!(slip_big(&mut b, Direction::Right, &mut level), (0, 2));
    assert!(b.can_move());
    assert_eq!(rows(&level), vec!["##&*", "##**"]);
}

#[test]
fn shake_wave_collects_the_ducks_in_a_row() {
    let level = grid("@#DOQP#D@");
    assert_eq!(
        shake_in_direction(&level, (0, 1), Direction::Right),
        vec![(0, 2), (0, 3), (0, 4), (0, 5)]
    );
    assert_eq!(shake_in_direction(&level, (0, 6), Direction::Right), vec![(0, 7)]);
    assert_eq!(
        shake_in_direction(&level, (0, 6), Direction::Left),
        vec![(0, 5), (0, 4), (0, 3), (0, 2)]
    );
    assert_eq!(shake_in_direction(&level, (0, 0), Direction::Right), Vec::new());
    assert_eq!(shake_in_direction(&level, (0, 2), Direction::Up), Vec::new());
    assert_eq!(shake_in_direction(&level, (0, 1), Direction::Idle), Vec::new());
}

#[test]
fn shake_wave_runs_along_a_column_to_the_edge() {
    let level = grid("D\nQ\nD\n#\nD");
    assert_eq!(shake_in_direction(&level, (3, 0), Direction::Up), vec![(2, 0), (1, 0), (0, 0)]);
    assert_eq!(shake_in_direction(&level, (3, 0), Direction::Down), vec![(4, 0)]);
    assert_eq!(rows(&level), vec!["D", "Q", "D", "#", "D"]);
}
