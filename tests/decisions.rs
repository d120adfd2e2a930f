use battlesnake::{
    decide_move, end, get_move, in_bounds, manhattan_distance, safe_moves, select_away,
    select_toward, start,
};
use battlesnake::{Battlesnake, Board, Coord, Game, Move};

fn c(x: u32, y: u32) -> Coord {
    Coord { x, y }
}

fn snake(id: &str, body: Vec<Coord>) -> Battlesnake {
    Battlesnake {
        id: id.to_string(),
        name: id.to_string(),
        health: 100,
        head: body[0],
        length: body.len() as u32,
        body,
        ..Default::default()
    }
}

fn board(width: u32, height: u32, food: Vec<Coord>, snakes: Vec<Battlesnake>) -> Board {
    Board {
        width,
        height,
        food,
        snakes,
        ..Default::default()
    }
}

#[test]
fn in_bounds_edges() {
    let b = board(3, 5, vec![], vec![]);
    assert!(in_bounds(&b, &c(2, 4)));
    assert!(!in_bounds(&b, &c(3, 0)));
    assert!(!in_bounds(&b, &c(0, 5)));
    assert!(!in_bounds(&board(0, 0, vec![], vec![]), &c(0, 0)));
}

#[test]
fn distance_symmetric_and_zero() {
    let a = c(7, 2);
    let b = c(1, 9);
    assert_eq!(manhattan_distance(&a, &b), 13);
    assert_eq!(manhattan_distance(&b, &a), 13);
    assert_eq!(manhattan_distance(&a, &a), 0);
}

#[test]
fn distance_of_far_corners() {
    let a = c(0, 0);
    let b = c(u32::MAX, u32::MAX);
    assert_eq!(manhattan_distance(&a, &b), 2 * (u32::MAX as u64));
}

#[test]
fn select_ties_take_first() {
    let target = c(2, 2);
    let coords = vec![c(2, 3), c(3, 2), c(0, 0), c(4, 4)];
    assert_eq!(select_toward(&coords, &target), &coords[0]);
    assert_eq!(select_away(&coords, &target), &coords[2]);
}

#[test]
fn round_trip_every_direction() {
    let you = snake("you", vec![c(4, 7)]);
    for m in Move::all() {
        let coord = m.to_coord(&you).unwrap();
        assert_eq!(Move::from_coord(&you, &coord), Some(m));
    }
}

#[test]
fn no_move_onto_own_head() {
    let you = snake("you", vec![c(3, 3)]);
    assert_eq!(Move::from_coord(&you, &c(3, 3)), None);
}

#[test]
fn no_move_to_far_or_diagonal_cells() {
    let you = snake("you", vec![c(3, 3)]);
    assert_eq!(Move::from_coord(&you, &c(4, 4)), None);
    assert_eq!(Move::from_coord(&you, &c(2, 2)), None);
    assert_eq!(Move::from_coord(&you, &c(3, 5)), None);
    assert_eq!(Move::from_coord(&you, &c(1, 3)), None);
}

#[test]
fn no_coord_below_zero() {
    let you = snake("you", vec![c(0, 6)]);
    assert_eq!(Move::Left.to_coord(&you), None);
    let you = snake("you", vec![c(6, 0)]);
    assert_eq!(Move::Down.to_coord(&you), None);
}

#[test]
fn no_coord_past_the_largest_value() {
    let you = snake("you", vec![c(u32::MAX, u32::MAX)]);
    assert_eq!(Move::Up.to_coord(&you), None);
    assert_eq!(Move::Right.to_coord(&you), None);
    assert_eq!(Move::Left.to_coord(&you), Some(c(u32::MAX - 1, u32::MAX)));
}

#[test]
fn all_directions_once() {
    let all = Move::all();
    assert_eq!(all, vec![Move::Left, Move::Right, Move::Up, Move::Down]);
    for m in [Move::Left, Move::Right, Move::Up, Move::Down] {
        assert_eq!(all.iter().filter(|x| **x == m).count(), 1);
    }
}

#[test]
fn direction_names() {
    assert_eq!(Move::Left.as_str(), "left");
    assert_eq!(Move::Right.as_str(), "right");
    assert_eq!(Move::Up.as_str(), "up");
    assert_eq!(Move::Down.as_str(), "down");
}

#[test]
fn safe_moves_skip_edges_and_bodies() {
    let you = snake("you", vec![c(0, 1), c(0, 2)]);
    let other = snake("other", vec![c(1, 3), c(1, 2), c(1, 1)]);
    let b = board(3, 3, vec![], vec![you.clone(), other]);
    assert_eq!(safe_moves(&b, &you), vec![c(0, 0)]);
}

#[test]
fn empty_board_decision_is_in_bounds() {
    let you = snake("you", vec![c(5, 5)]);
    let b = board(11, 11, vec![], vec![you.clone()]);
    for pick in 0..8 {
        let m = decide_move(&b, &you, pick);
        let cell = m.to_coord(&you).unwrap();
        assert!(in_bounds(&b, &cell));
    }
    assert_eq!(decide_move(&b, &you, 0), Move::Left);
    assert_eq!(decide_move(&b, &you, 1), Move::Right);
    assert_eq!(decide_move(&b, &you, 2), Move::Up);
    assert_eq!(decide_move(&b, &you, 3), Move::Down);
    assert_eq!(decide_move(&b, &you, 6), Move::Up);
}

#[test]
fn surrounded_falls_back_to_left() {
    let you = snake("you", vec![c(5, 5)]);
    let a = snake("a", vec![c(4, 5), c(4, 6), c(5, 6)]);
    let b2 = snake("b", vec![c(6, 5), c(6, 4), c(5, 4)]);
    let b = board(11, 11, vec![], vec![you.clone(), a, b2]);
    assert!(safe_moves(&b, &you).is_empty());
    assert_eq!(decide_move(&b, &you, 0), Move::Left);
    assert_eq!(decide_move(&b, &you, 3), Move::Left);
    assert_eq!(get_move(&Game::default(), &0, &b, &you), Move::Left);
}

#[test]
fn growth_goes_for_food_when_closer() {
    let you = snake("you", vec![c(5, 5), c(5, 4)]);
    let other = snake("other", vec![c(0, 10), c(0, 9), c(0, 8)]);
    let b = board(11, 11, vec![c(8, 5)], vec![you.clone(), other]);
    for pick in 0..3 {
        assert_eq!(decide_move(&b, &you, pick), Move::Right);
    }
}

#[test]
fn growth_flees_when_enemy_is_closer_to_food() {
    let you = snake("you", vec![c(5, 5), c(5, 4)]);
    let other = snake("other", vec![c(1, 5), c(1, 4), c(1, 3)]);
    let b = board(11, 11, vec![c(2, 5)], vec![you.clone(), other]);
    for pick in 0..3 {
        assert_eq!(decide_move(&b, &you, pick), Move::Right);
    }
}

#[test]
fn growth_alone_keeps_the_baseline() {
    let you = snake("you", vec![c(5, 5)]);
    let b = board(11, 11, vec![c(5, 9)], vec![you.clone()]);
    assert_eq!(decide_move(&b, &you, 0), Move::Left);
    assert_eq!(decide_move(&b, &you, 3), Move::Down);
}

#[test]
fn dominant_hunts_the_nearest_head() {
    let you = snake("you", vec![c(5, 5), c(5, 6), c(5, 7), c(5, 8)]);
    let near = snake("near", vec![c(2, 5)]);
    let far = snake("far", vec![c(10, 0)]);
    let b = board(11, 11, vec![], vec![near, you.clone(), far]);
    for pick in 0..3 {
        assert_eq!(decide_move(&b, &you, pick), Move::Left);
    }
}

#[test]
fn defensive_flees_the_nearest_head() {
    let you = snake("you", vec![c(5, 5), c(5, 4), c(5, 3)]);
    let other = snake("other", vec![c(5, 7), c(5, 8), c(5, 9), c(5, 10)]);
    let b = board(11, 11, vec![], vec![you.clone(), other]);
    for pick in 0..3 {
        assert_eq!(decide_move(&b, &you, pick), Move::Left);
    }
}

#[test]
fn equal_sizes_keep_the_baseline() {
    let you = snake("you", vec![c(5, 5), c(5, 4)]);
    let other = snake("other", vec![c(0, 0), c(1, 0)]);
    let b = board(11, 11, vec![], vec![you.clone(), other]);
    assert_eq!(decide_move(&b, &you, 0), Move::Left);
    assert_eq!(decide_move(&b, &you, 1), Move::Right);
    assert_eq!(decide_move(&b, &you, 2), Move::Up);
}

#[test]
fn random_draw_varies_and_stays_safe() {
    let you = snake("you", vec![c(5, 5)]);
    let b = board(11, 11, vec![], vec![you.clone()]);
    let game = Game::default();
    let mut seen = Vec::new();
    for turn in 0..200u32 {
        let m = get_move(&game, &turn, &b, &you);
        assert!(in_bounds(&b, &m.to_coord(&you).unwrap()));
        if !seen.contains(&m) {
            seen.push(m);
        }
    }
    assert!(seen.len() > 1);
}

#[test]
fn lifecycle_hooks_do_nothing() {
    let you = snake("you", vec![c(1, 1)]);
    let b = board(11, 11, vec![], vec![you.clone()]);
    start(&Game::default(), &0, &b, &you);
    end(&Game::default(), &5, &b, &you);
}
