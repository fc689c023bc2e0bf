use quarto::game::ArrayBase;
use quarto::game::Game;
use quarto::game::GameError;
use quarto::game::Player;
use quarto::game::Status;
use quarto::piece::Piece;

fn occupied(game: &Game) -> usize {
    let mut n = 0;
    for x in 0..4 {
        for y in 0..4 {
            if game.field.get((x, y)).is_some() {
                n += 1;
            }
        }
    }
    n
}

fn in_hand(game: &Game) -> usize {
    match game.status {
        Status::Move { .. } => 1,
        _ => 0,
    }
}

// A win consumes the hand-off piece the moment it is declared, so a `Won`
// state accounts for one piece fewer.
fn expected_total(game: &Game) -> usize {
    match game.status {
        Status::Won { .. } => 15,
        _ => 16,
    }
}

#[test]
fn test_move_unmove() {
    let mut game = Game::new(Player::PlayerOne);
    let post_unmove = game.field;
    game.initial_move(game.remaining_pieces()[0]).unwrap();
    game.do_move((0, 0), game.remaining_pieces()[1]).unwrap();
    assert_ne!(post_unmove, game.field);
    game.unmove((0, 0));
    assert_eq!(post_unmove, game.field);
}

#[test]
fn test_new_game_shape() {
    let game = Game::new(Player::PlayerTwo);
    assert!(game.running());
    assert!(game.is_initial_move());
    assert_eq!(game.player(), Player::PlayerTwo);
    assert_eq!(game.winner(), None);
    assert_eq!(game.next_piece(), None);
    assert_eq!(game.remaining_pieces().len(), 16);
    assert_eq!(game.round(), 1);
    assert_eq!(occupied(&game), 0);
}

#[test]
fn test_illegal_transition_errors() {
    let mut game = Game::new(Player::PlayerOne);
    // no piece has been handed over yet: do_move is out of phase
    let p = game.remaining_pieces()[0];
    assert_eq!(game.do_move((0, 0), p), Err(GameError::IllegalTransition));
    game.initial_move(p).unwrap();
    // and now the initial hand-off is out of phase
    let q = game.remaining_pieces()[0];
    assert_eq!(game.initial_move(q), Err(GameError::IllegalTransition));
}

#[test]
fn test_unknown_piece_errors_leave_game_unchanged() {
    let mut game = Game::new(Player::PlayerOne);
    let p = game.remaining_pieces()[0];
    game.initial_move(p).unwrap();
    // `p` was already handed over, so it is no longer remaining
    let before_field = game.field;
    let before_rem = game.remaining_pieces().clone();
    let before_status = game.status;
    assert_eq!(game.do_move((1, 1), p), Err(GameError::UnknownPiece));
    assert_eq!(game.field, before_field);
    assert_eq!(game.remaining_pieces(), &before_rem);
    assert_eq!(game.status, before_status);

    let mut fresh = Game::new(Player::PlayerOne);
    // a non-canonical piece value is never remaining
    assert_eq!(
        fresh.initial_move(Piece { properties: 0 }),
        Err(GameError::UnknownPiece)
    );
    assert!(fresh.is_initial_move());
}

#[test]
fn test_cell_occupied_error() {
    let mut game = Game::new(Player::PlayerOne);
    game.initial_move(game.remaining_pieces()[0]).unwrap();
    game.do_move((2, 2), game.remaining_pieces()[0]).unwrap();
    let q = game.remaining_pieces()[0];
    assert_eq!(game.do_move((2, 2), q), Err(GameError::CellOccupied));
}

// Piece conservation: the remaining pieces, the forced piece of a `Move`
// phase and the occupied cells account for 16 pieces at every step (15
// once a win has consumed the final hand-off).
#[test]
fn test_piece_accounting_through_a_game() {
    let mut game = Game::new(Player::PlayerOne);
    assert_eq!(game.remaining_pieces().len() + in_hand(&game) + occupied(&game), 16);
    game.initial_move(game.remaining_pieces()[5]).unwrap();
    assert_eq!(game.remaining_pieces().len() + in_hand(&game) + occupied(&game), 16);
    let spots = [(0, 0), (1, 2), (3, 3), (2, 1), (0, 3), (3, 0)];
    for &pos in &spots {
        if !game.running() {
            break;
        }
        let q = game.remaining_pieces()[0];
        game.do_move(pos, q).unwrap();
        assert_eq!(
            game.remaining_pieces().len() + in_hand(&game) + occupied(&game),
            expected_total(&game)
        );
    }
}

// The round number: 1 before any placement, and advancing one round for
// every two placements.
#[test]
fn test_round_advances_every_two_placements() {
    let mut game = Game::new(Player::PlayerOne);
    assert_eq!(game.round(), 1);
    game.initial_move(game.remaining_pieces()[0]).unwrap();
    assert_eq!(game.round(), 1);
    let spots = [(0, 0), (1, 0), (2, 0), (0, 1)];
    let expected_after = [2, 2, 3, 3];
    for (i, &pos) in spots.iter().enumerate() {
        let q = game.remaining_pieces()[1];
        game.do_move(pos, q).unwrap();
        assert_eq!(game.round(), expected_after[i]);
    }
}

#[test]
fn test_do_move_win_sets_winner() {
    // three light-tall-like pieces on the top row, then the fourth:
    // canonical pieces 8..12 all share the high attribute bit
    let mut game = Game::new(Player::PlayerOne);
    let p8 = Piece::with_props_props(8);
    let p9 = Piece::with_props_props(9);
    let p10 = Piece::with_props_props(10);
    let p11 = Piece::with_props_props(11);
    let p0 = Piece::with_props_props(0);
    game.initial_move(p8).unwrap();
    // PlayerTwo places p8, hands p9
    game.do_move((0, 0), p9).unwrap();
    // PlayerOne places p9, hands p10
    game.do_move((0, 1), p10).unwrap();
    // PlayerTwo places p10, hands p0
    game.do_move((0, 2), p0).unwrap();
    // PlayerOne places p0 off the row, hands p11
    game.do_move((3, 0), p11).unwrap();
    // PlayerTwo completes the top row with p11
    let mover = game.player();
    game.do_move((0, 3), Piece::with_props_props(1)).unwrap();
    assert_eq!(game.status, Status::Won { winner: mover });
    assert!(!game.running());
    assert_eq!(game.winner(), Some(mover));
}

#[test]
fn test_based_and_unbased() {
    assert_eq!(ArrayBase::Zero.based(3), 3);
    assert_eq!(ArrayBase::One.based(3), 4);
    assert_eq!(ArrayBase::Zero.unbased(3), 3);
    assert_eq!(ArrayBase::One.unbased(4), 3);
    // wrapping is deliberate: no panic on the edges
    assert_eq!(ArrayBase::One.based(usize::MAX), 0);
    assert_eq!(ArrayBase::One.unbased(0), usize::MAX);
}
