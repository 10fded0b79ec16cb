use std::rc::Rc;
use tictactoe::gamefield::{Axis, Field, GameField, GameState, MoveError, Point};
use tictactoe::player::Player;

#[test]
fn point_to_index() {
    let test_values: Vec<(usize, usize, usize)> = vec![(0, 0, 0), (0, 1, 3), (1, 0, 1)];
    for i in test_values.into_iter() {
        let (x, y, expected) = i;
        let point = Point(x, y);
        let actual = point.to_index(3);
        assert!(
            actual == expected,
            "Failed for ({}, {}) -> {} but got {}",
            x,
            y,
            expected,
            actual
        );
    }
}

#[test]
fn invalid_coordinates_should_err() {
    let game_field: GameField = Default::default();

    {
        let point = Point::new(0, 99);
        let result = game_field.by_point(&point);
        assert!(result.is_err());
    }
    {
        let point = Point::new(5, 0);
        let result = game_field.by_point(&point);
        assert!(result.is_err());
    }
}

#[test]
fn marking_same_point_twice_should_err() {
    let player = Rc::new(Player::new("Hello", 'H'));
    let mut game_field: GameField = Default::default();
    assert!(game_field.mark(player.clone(), Point::new(0, 0)).is_ok());
    assert!(game_field.mark(player.clone(), Point::new(0, 0)).is_err());
}

#[test]
fn rows_columns_diagonals_should_win() {
    let testdata = [
        [(0, 0), (1, 0), (2, 0)],
        [(0, 0), (0, 1), (0, 2)],
        [(0, 0), (1, 1), (2, 2)],
        [(0, 2), (1, 1), (2, 0)],
    ];
    for testrun in testdata.iter() {
        let player = Rc::new(Player::new("Hello", 'H'));
        let mut game_field: GameField = Default::default();
        for coords in testrun {
            game_field
                .mark(player.clone(), Point::new(coords.0, coords.1))
                .expect("Could not mark a location?");
        }
        match game_field.state() {
            GameState::WON(wonby) => {
                assert_eq!(player.sign, wonby.sign);
            }
            _ => {
                panic!("Game is not in a won state for coords {:?}", testrun);
            }
        }
    }
}

#[test]
fn marking_all_fields_should_tie() {
    let players: Vec<_> = [("Hello", 'X'), ("Bye", 'O')]
        .iter()
        .map(|(name, sign)| Player::new(name, *sign))
        .map(Rc::new)
        .collect();

    let marks = ['O', 'X', 'O', 'X', 'X', 'O', 'O', 'O', 'X'];
    let mut game_field: GameField = Default::default();
    for (i, char) in marks.iter().enumerate() {
        let player = players.iter().find(|p| p.sign == *char).unwrap();
        game_field
            .mark(player.clone(), Point::from_index(i, 3))
            .expect("Could not mark a location?");
    }
    assert_eq!(game_field.state(), GameState::TIE);
}

#[test]
fn index_round_trip_on_a_wide_board() {
    for y in 0..4usize {
        for x in 0..5usize {
            let i = Point::new(x, y).to_index(5);
            assert_eq!(i, y * 5 + x);
            assert_eq!(Point::from_index(i, 5), Point(x, y));
        }
    }
    assert_eq!(Point::from_index(13, 5), Point(3, 2));
}

#[test]
fn by_point_reports_axis_and_max() {
    let game_field = GameField::new(4, 2, 2);
    assert_eq!(
        game_field.by_point(&Point::new(4, 0)).unwrap_err(),
        MoveError::OutOfBounds { axis: Axis::X, given: 4, max: 3 }
    );
    assert_eq!(
        game_field.by_point(&Point::new(1, 7)).unwrap_err(),
        MoveError::OutOfBounds { axis: Axis::Y, given: 7, max: 1 }
    );
    assert_eq!(game_field.by_point(&Point::new(3, 1)), Ok(&Field::EMPTY));
}

#[test]
fn out_of_bounds_mark_leaves_board_unchanged() {
    let player = Rc::new(Player::new("Hello", 'H'));
    let mut game_field: GameField = Default::default();
    // (5, 0) has flat index 5 on a 3-wide board, but lies off the board.
    assert_eq!(
        game_field.mark(player.clone(), Point::new(5, 0)),
        Err(MoveError::OutOfBounds { axis: Axis::X, given: 5, max: 2 })
    );
    assert_eq!(
        game_field.mark(player.clone(), Point::new(0, 3)),
        Err(MoveError::OutOfBounds { axis: Axis::Y, given: 3, max: 2 })
    );
    assert!(game_field.fields().iter().all(|f| *f == Field::EMPTY));
    assert_eq!(game_field.state(), GameState::OPEN);
}

#[test]
fn occupied_cell_keeps_its_owner() {
    let first = Rc::new(Player::new("Hello", 'H'));
    let second = Rc::new(Player::new("Bye", 'B'));
    let mut game_field: GameField = Default::default();
    assert_eq!(game_field.mark(first.clone(), Point::new(1, 2)), Ok(()));
    assert_eq!(
        game_field.mark(second.clone(), Point::new(1, 2)),
        Err(MoveError::CellOccupied)
    );
    match game_field.by_point(&Point::new(1, 2)) {
        Ok(Field::OWNED(p)) => assert_eq!(p.sign, 'H'),
        _ => panic!("cell lost its owner"),
    }
    assert_eq!(game_field.fields()[7], Field::OWNED(first));
}

#[test]
fn runs_win_on_a_larger_board() {
    let runs: [[(usize, usize); 3]; 4] = [
        [(1, 2), (2, 2), (3, 2)],
        [(3, 0), (3, 1), (3, 2)],
        [(1, 1), (2, 2), (3, 3)],
        [(3, 1), (2, 2), (1, 3)],
    ];
    for run in runs.iter() {
        let player = Rc::new(Player::new("Bye", 'O'));
        let mut game_field = GameField::new(5, 4, 3);
        for (x, y) in run.iter() {
            assert_eq!(game_field.mark(player.clone(), Point::new(*x, *y)), Ok(()));
        }
        match game_field.state() {
            GameState::WON(p) => {
                assert_eq!(p.sign, 'O');
                assert_eq!(p.name, "Bye");
            }
            other => panic!("not won for {:?}: {:?}", run, other),
        }
    }
}

#[test]
fn short_run_or_mixed_owners_do_not_win() {
    let x = Rc::new(Player::new("Hello", 'X'));
    let o = Rc::new(Player::new("Bye", 'O'));
    let mut game_field = GameField::new(4, 4, 3);
    game_field.mark(x.clone(), Point::new(0, 0)).unwrap();
    game_field.mark(x.clone(), Point::new(1, 0)).unwrap();
    game_field.mark(o.clone(), Point::new(2, 0)).unwrap();
    game_field.mark(x.clone(), Point::new(3, 0)).unwrap();
    assert_eq!(game_field.state(), GameState::OPEN);
}

#[test]
fn win_count_beyond_board_never_wins() {
    let x = Rc::new(Player::new("Hello", 'X'));
    let mut game_field = GameField::new(2, 2, 3);
    for i in 0..4 {
        game_field.mark(x.clone(), Point::from_index(i, 2)).unwrap();
    }
    assert_eq!(game_field.state(), GameState::TIE);
}

#[test]
fn first_run_in_scan_order_wins() {
    let x = Rc::new(Player::new("Hello", 'X'));
    let o = Rc::new(Player::new("Bye", 'O'));
    let mut game_field = GameField::new(3, 3, 3);
    for i in 3..6 {
        game_field.mark(o.clone(), Point::from_index(i, 3)).unwrap();
    }
    for i in 6..9 {
        game_field.mark(x.clone(), Point::from_index(i, 3)).unwrap();
    }
    match game_field.state() {
        GameState::WON(p) => assert_eq!(p.sign, 'O'),
        other => panic!("not won: {:?}", other),
    }
}

#[test]
fn new_board_is_empty_and_open() {
    let game_field = GameField::new(4, 3, 2);
    assert_eq!(game_field.fields().len(), 12);
    assert_eq!(game_field.row_size(), 4);
    assert_eq!(game_field.column_size(), 3);
    assert_eq!(game_field.win_count(), 2);
    assert_eq!(game_field.state(), GameState::OPEN);
    assert_eq!(Field::default(), Field::EMPTY);
}
