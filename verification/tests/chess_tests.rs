use chess_bft::chess::{Color, GameState, PieceKind, Position};
use chess_bft::errors::AppError;

#[test]
fn test_initial_game_state() {
    let white_player = "Alice".to_string();
    let black_player = "Bob".to_string();
    let game_state = GameState::new(white_player.clone(), black_player.clone());

    assert_eq!(game_state.turn, Color::White);

    assert_eq!(game_state.white_player, white_player);
    assert_eq!(game_state.black_player, black_player);
}

#[test]
fn test_pawn_valid_move() {
    let mut game_state = GameState::new("Alice".to_string(), "Bob".to_string());

    let from = Position { x: 1, y: 0 };
    let to = Position { x: 3, y: 0 };

    assert!(game_state.validate_move(&from, &to).is_ok());

    game_state.turn = Color::Black;
    let from_black = Position { x: 6, y: 0 };
    let to_invalid = Position { x: 5, y: 0 };

    assert!(game_state.validate_move(&from_black, &to_invalid).is_ok());
}

#[test]
fn test_rook_invalid_move() {
    let game_state = GameState::new("Alice".to_string(), "Bob".to_string());

    let from = Position { x: 0, y: 0 };
    let to = Position { x: 2, y: 2 };
    assert!(game_state.validate_move(&from, &to).is_err());
}

#[test]
fn test_turn_logic() {
    let mut game_state = GameState::new("Alice".to_string(), "Bob".to_string());

    game_state.turn = Color::White;

    let from = Position { x: 1, y: 0 };
    let to = Position { x: 2, y: 0 };
    println!("{:?}", game_state.validate_move(&from, &to));
    assert!(game_state.validate_move(&from, &to).is_ok());

    game_state.turn = Color::Black;
    let from_black = Position { x: 6, y: 0 };
    let to_black = Position { x: 5, y: 0 };
    assert!(game_state.validate_move(&from_black, &to_black).is_ok());
}

#[test]
fn test_pawn_open_applies_move() {
    let mut game = GameState::new("A".to_string(), "B".to_string());

    let from = Position { x: 1, y: 0 };
    let to = Position { x: 3, y: 0 };
    assert!(game.validate_move(&from, &to).is_ok());
    assert!(game.apply_move(from, to).is_ok());

    assert!(game.board.rows[1].cells[0].piece.is_none());
    let moved = game.board.rows[3].cells[0].piece.expect("pawn moved");
    assert_eq!(moved.color, Color::White);
    assert_eq!(moved.kind, PieceKind::Pawn);
    assert_eq!(game.turn, Color::Black);
}

#[test]
fn test_illegal_move_leaves_game_unchanged() {
    let mut game = GameState::new("A".to_string(), "B".to_string());

    let from = Position { x: 0, y: 0 };
    let to = Position { x: 2, y: 2 };
    let res = game.apply_move(from, to);
    assert!(matches!(res, Err(AppError::InternalGameError(_))));

    // The rook is still on its square and the turn did not flip.
    let rook = game.board.rows[0].cells[0].piece.expect("rook stays");
    assert_eq!(rook.kind, PieceKind::Rook);
    assert!(game.board.rows[2].cells[2].piece.is_none());
    assert_eq!(game.turn, Color::White);
}

#[test]
fn test_turn_flips_back_and_forth() {
    let mut game = GameState::new("A".to_string(), "B".to_string());
    assert_eq!(game.turn, Color::White);

    assert!(game.apply_move(Position { x: 1, y: 0 }, Position { x: 2, y: 0 }).is_ok());
    assert_eq!(game.turn, Color::Black);

    assert!(game.apply_move(Position { x: 6, y: 0 }, Position { x: 5, y: 0 }).is_ok());
    assert_eq!(game.turn, Color::White);
}

#[test]
fn test_knight_moves() {
    let game = GameState::new("A".to_string(), "B".to_string());

    // White knight from b1: an L-shape to a3 or c3 is legal.
    assert!(game.validate_move(&Position { x: 0, y: 1 }, &Position { x: 2, y: 0 }).is_ok());
    assert!(game.validate_move(&Position { x: 0, y: 1 }, &Position { x: 2, y: 2 }).is_ok());
    // A straight hop is not.
    assert!(game.validate_move(&Position { x: 0, y: 1 }, &Position { x: 2, y: 1 }).is_err());
}

#[test]
fn test_bishop_blocked_by_own_pawn() {
    let game = GameState::new("A".to_string(), "B".to_string());

    // The bishop on c1 cannot slide through the pawn on b2.
    assert!(game.validate_move(&Position { x: 0, y: 2 }, &Position { x: 2, y: 0 }).is_err());
}

#[test]
fn test_pawn_double_and_capture_rules() {
    let mut game = GameState::new("A".to_string(), "B".to_string());

    // A double step is only legal from the initial rank.
    assert!(game.validate_move(&Position { x: 1, y: 4 }, &Position { x: 3, y: 4 }).is_ok());
    assert!(game.apply_move(Position { x: 1, y: 4 }, Position { x: 3, y: 4 }).is_ok());
    assert!(game.apply_move(Position { x: 6, y: 3 }, Position { x: 4, y: 3 }).is_ok());

    // Now the white pawn on e4 may capture the black pawn on d5 diagonally,
    // but may not capture straight ahead.
    assert!(game.validate_move(&Position { x: 3, y: 4 }, &Position { x: 4, y: 3 }).is_ok());
    assert!(game.validate_move(&Position { x: 3, y: 4 }, &Position { x: 4, y: 4 }).is_ok());
    assert!(game.apply_move(Position { x: 3, y: 4 }, Position { x: 4, y: 3 }).is_ok());
    let capturer = game.board.rows[4].cells[3].piece.expect("capture landed");
    assert_eq!(capturer.color, Color::White);
}

#[test]
fn test_wrong_turn_is_rejected() {
    let game = GameState::new("A".to_string(), "B".to_string());

    // White to move: a black pawn may not move yet.
    let res = game.validate_move(&Position { x: 6, y: 0 }, &Position { x: 5, y: 0 });
    assert!(matches!(res, Err(AppError::InternalGameError(_))));
}

#[test]
fn test_validator_is_deterministic() {
    let game = GameState::new("A".to_string(), "B".to_string());
    let from = Position { x: 1, y: 3 };
    let to = Position { x: 3, y: 3 };

    let first = game.validate_move(&from, &to).is_ok();
    for _ in 0..10 {
        assert_eq!(game.validate_move(&from, &to).is_ok(), first);
    }
}

#[test]
fn test_error_messages() {
    assert_eq!(AppError::NoLeaderError.message(), "No leader found");
    assert_eq!(AppError::InvalidQcError.message(), "Quorum certificate invalid");
    assert_eq!(
        AppError::StartGameError("already in game".to_string()).message(),
        "Failed to start the game: already in game"
    );
}
