use chess_bft::chess::Position;
use chess_bft::encoding::signature_message;
use chess_bft::engine::App;
use chess_bft::errors::AppError;
use chess_bft::types::{compute_block_hash, Hash256, Transaction};

fn tx_with_players(white: &str, black: &str) -> Transaction {
    Transaction {
        white_player: white.to_string(),
        black_player: black.to_string(),
        action: (Position { x: 1, y: 0 }, Position { x: 3, y: 0 }),
        signature: String::new(),
        pub_key: String::new(),
    }
}

#[test]
fn test_signature_message_canonical() {
    let tx = tx_with_players("ab", "cd");
    assert_eq!(
        signature_message(&tx),
        "{\"whitePlayer\":\"ab\",\"blackPlayer\":\"cd\",\"action\":[{\"x\":1,\"y\":0},{\"x\":3,\"y\":0}]}"
    );
}

#[test]
fn test_signature_message_escapes() {
    let tx = tx_with_players("a\"b\\c\nd", "e\u{0001}f");
    assert_eq!(
        signature_message(&tx),
        "{\"whitePlayer\":\"a\\\"b\\\\c\\nd\",\"blackPlayer\":\"e\\u0001f\",\"action\":[{\"x\":1,\"y\":0},{\"x\":3,\"y\":0}]}"
    );
}

#[test]
fn test_block_hash_matches_keccak_of_canonical_json() {
    // The canonical block JSON, written out by hand for a known block, must
    // hash to exactly what the library computes.
    let tx = tx_with_players("ab", "cd");
    let computed = compute_block_hash(5, &Hash256::zero(), &tx);

    let zeros = "00".repeat(32);
    let json = format!(
        "{{\"view_n\":5,\"previous_block_hash\":\"0x{}\",\"tx\":{{\"white_player\":\"ab\",\"black_player\":\"cd\",\"action\":[{{\"x\":1,\"y\":0}},{{\"x\":3,\"y\":0}}],\"signature\":\"\",\"pub_key\":\"\"}}}}",
        zeros
    );
    let expected = alloy_primitives::keccak256(json.as_bytes());
    assert_eq!(computed.bytes, expected.to_vec());
}

#[test]
fn test_no_leader_on_empty_peer_set() {
    let app = App::new(0);
    assert!(matches!(app.get_current_leader(), Err(AppError::NoLeaderError)));
}

#[test]
fn test_out_of_range_move_rejected() {
    let mut app = App::new(0);
    app.start_game_if_possible(chess_bft::types::StartRequest {
        white_player: "A".to_string(),
        black_player: "B".to_string(),
    })
    .unwrap();

    let mut tx = tx_with_players("A", "B");
    tx.action = (Position { x: 1, y: 0 }, Position { x: 9, y: 0 });
    assert!(matches!(app.is_valid_tx(&tx), Err(AppError::InvalidTransactionError(_))));
}
