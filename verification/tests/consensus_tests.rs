use chess_bft::chess::{Color, Position};
use chess_bft::encoding::signature_message;
use chess_bft::engine::App;
use chess_bft::errors::AppError;
use chess_bft::types::{
    compute_block_hash, Block, BlockBuilder, Commit, Hash256, QuorumCertificate, StartRequest,
    Transaction,
};

use sha2::Digest;

fn peers() -> Vec<String> {
    vec!["P0".to_string(), "P1".to_string(), "P2".to_string(), "P3".to_string()]
}

fn plain_tx(white: &str, black: &str, from: (u32, u32), to: (u32, u32)) -> Transaction {
    Transaction {
        white_player: white.to_string(),
        black_player: black.to_string(),
        action: (Position { x: from.0, y: from.1 }, Position { x: to.0, y: to.1 }),
        signature: String::new(),
        pub_key: String::new(),
    }
}

/// A deterministic key pair for tests: the public key in compressed hex.
fn test_keypair(seed: u8) -> (libsecp256k1::SecretKey, String) {
    let mut bytes = [seed; 32];
    bytes[0] = 1;
    let secret = libsecp256k1::SecretKey::parse(&bytes).expect("valid secret");
    let public = libsecp256k1::PublicKey::from_secret_key(&secret);
    (secret, hex::encode(public.serialize_compressed()))
}

/// Signs the canonical message of a transaction with the given secret key.
fn sign_tx(tx: &mut Transaction, secret: &libsecp256k1::SecretKey) {
    let message = signature_message(tx);
    let digest = sha2::Sha256::digest(message.as_bytes());
    let msg = libsecp256k1::Message::parse_slice(&digest).expect("32-byte digest");
    let (signature, _) = libsecp256k1::sign(&msg, secret);
    tx.signature = hex::encode(signature.serialize());
}

fn nonzero_hash() -> Hash256 {
    let mut bytes = vec![0u8; 32];
    bytes[0] = 1;
    Hash256::from_bytes(bytes)
}

#[test]
fn test_leader_rotation() {
    let now: i64 = 1_000_000;
    let mut app = App::new(now);
    app.set_connected_peers(peers());

    assert_eq!(app.get_current_leader().unwrap(), "P0");

    // Simulate a stale view with a committed chain.
    app.latest_block_hash = nonzero_hash();
    app.latest_timestamp = now - 11;
    app.update_view_if_needed(now);

    assert_eq!(app.view_n, 1);
    assert_eq!(app.get_current_leader().unwrap(), "P1");
}

#[test]
fn test_view_pinned_before_first_commit() {
    let now: i64 = 1_000_000;
    let mut app = App::new(now);
    app.set_connected_peers(peers());

    // The chain is empty (all-zero latest hash): no rotation however stale.
    app.latest_timestamp = now - 100;
    app.update_view_if_needed(now);
    assert_eq!(app.view_n, 0);

    // And with a committed chain but a fresh timestamp: no rotation either.
    app.latest_block_hash = nonzero_hash();
    app.latest_timestamp = now - 5;
    app.update_view_if_needed(now);
    assert_eq!(app.view_n, 0);
}

#[test]
fn test_quorum_threshold() {
    let now: i64 = 0;
    let mut app = App::new(now);
    app.set_connected_peers(peers());

    let h = nonzero_hash();
    app.record_vote(&h, &"P0".to_string());
    app.record_vote(&h, &"P1".to_string());
    app.record_vote(&h, &"P2".to_string());

    let qc_good = QuorumCertificate {
        block_hash: nonzero_hash(),
        signature: vec!["P0".to_string(), "P1".to_string(), "P2".to_string()],
    };
    assert!(app.is_valid_qc(&qc_good).is_ok());

    let qc_small = QuorumCertificate {
        block_hash: nonzero_hash(),
        signature: vec!["P0".to_string(), "P1".to_string()],
    };
    assert!(matches!(app.is_valid_qc(&qc_small), Err(AppError::InvalidQcError)));
}

#[test]
fn test_votes_deduplicate_and_sort() {
    let mut app = App::new(0);
    app.set_connected_peers(peers());

    let h = nonzero_hash();
    // Out of order, with repeats, and one identity outside the peer set.
    app.record_vote(&h, &"P2".to_string());
    app.record_vote(&h, &"P0".to_string());
    app.record_vote(&h, &"P2".to_string());
    app.record_vote(&h, &"P1".to_string());
    app.record_vote(&h, &"P0".to_string());
    app.record_vote(&h, &"Mallory".to_string());

    let list = app.state_votes.votes_list(&h);
    assert_eq!(list, vec!["P0".to_string(), "P1".to_string(), "P2".to_string()]);
    assert_eq!(app.state_votes.count(&h), 3);
}

#[test]
fn test_hash_stability() {
    let tx = plain_tx("A", "B", (1, 0), (3, 0));

    let mut builder1 = BlockBuilder::default().with_view_n(0).with_previous_block_hash(
        Hash256::zero(),
    );
    builder1.add_tx(&tx);
    let b1 = builder1.build();

    let mut builder2 = BlockBuilder::default().with_view_n(0).with_previous_block_hash(
        Hash256::zero(),
    );
    builder2.add_tx(&tx);
    let b2 = builder2.build();

    // Whatever the clocks said, the hashes agree byte for byte.
    assert_eq!(b1.hash.bytes, b2.hash.bytes);
    assert_eq!(b1.hash.bytes.len(), 32);

    // And the hash really depends on the transaction.
    let other = plain_tx("A", "B", (1, 1), (3, 1));
    let h3 = compute_block_hash(0, &Hash256::zero(), &other);
    assert_ne!(h3.bytes, b1.hash.bytes);
}

#[test]
fn test_builder_counts_transactions() {
    let mut builder = BlockBuilder::default();
    assert_eq!(builder.tx_size(), 0);
    let tx = plain_tx("A", "B", (1, 0), (2, 0));
    builder.add_tx(&tx);
    assert_eq!(builder.tx_size(), 1);
}

#[test]
fn test_start_game_twice_fails() {
    let mut app = App::new(0);
    let req = StartRequest { white_player: "A".to_string(), black_player: "B".to_string() };
    assert!(app.start_game_if_possible(req.clone()).is_ok());
    let res = app.start_game_if_possible(req);
    assert!(matches!(res, Err(AppError::StartGameError(_))));
}

fn block_with_qc(tx: Transaction, voters: &[&str]) -> Block {
    let hash = compute_block_hash(0, &Hash256::zero(), &tx);
    let qc = QuorumCertificate {
        block_hash: hash.clone(),
        signature: voters.iter().map(|v| v.to_string()).collect(),
    };
    Block {
        view_n: 0,
        previous_block_hash: Hash256::zero(),
        tx,
        timestamp: 42,
        hash,
        qc: Some(qc),
    }
}

#[test]
fn test_commit_block_applies_move() {
    let mut app = App::new(0);
    app.set_connected_peers(peers());
    app.start_game_if_possible(StartRequest {
        white_player: "A".to_string(),
        black_player: "B".to_string(),
    })
    .unwrap();

    let tx = plain_tx("A", "B", (1, 0), (3, 0));
    let block = block_with_qc(tx, &["P0", "P1", "P2"]);
    for p in ["P0", "P1", "P2"] {
        app.record_vote(&block.hash, &p.to_string());
    }

    assert!(app.commit_block(&block).is_ok());

    // The chain advanced.
    assert_eq!(app.latest_block_hash.bytes, block.hash.bytes);
    assert_eq!(app.latest_timestamp, 42);

    // And the game advanced.
    let game = app.db.get(&"A:B".to_string()).expect("game exists");
    assert!(game.board.rows[1].cells[0].piece.is_none());
    assert!(game.board.rows[3].cells[0].piece.is_some());
    assert_eq!(game.turn, Color::Black);
}

#[test]
fn test_commit_block_rejects_thin_quorum() {
    let mut app = App::new(0);
    app.set_connected_peers(peers());
    app.start_game_if_possible(StartRequest {
        white_player: "A".to_string(),
        black_player: "B".to_string(),
    })
    .unwrap();

    let tx = plain_tx("A", "B", (1, 0), (3, 0));
    let block = block_with_qc(tx, &["P0", "P1"]);
    for p in ["P0", "P1"] {
        app.record_vote(&block.hash, &p.to_string());
    }

    let res = app.commit_block(&block);
    assert!(matches!(res, Err(AppError::InvalidQcError)));

    // Nothing moved.
    let game = app.db.get(&"A:B".to_string()).expect("game exists");
    assert!(game.board.rows[1].cells[0].piece.is_some());
    assert_eq!(game.turn, Color::White);
    assert_eq!(app.latest_block_hash.bytes, Hash256::zero().bytes);
}

#[test]
fn test_commit_block_rolls_back_on_illegal_move() {
    let mut app = App::new(0);
    app.set_connected_peers(peers());
    app.start_game_if_possible(StartRequest {
        white_player: "A".to_string(),
        black_player: "B".to_string(),
    })
    .unwrap();

    // A fully certified block whose move is illegal: the rook cannot move
    // diagonally.
    let tx = plain_tx("A", "B", (0, 0), (2, 2));
    let block = block_with_qc(tx, &["P0", "P1", "P2"]);
    for p in ["P0", "P1", "P2"] {
        app.record_vote(&block.hash, &p.to_string());
    }

    let res = app.commit_block(&block);
    assert!(matches!(res, Err(AppError::InvalidTransactionError(_))));

    // The database is exactly as before.
    let game = app.db.get(&"A:B".to_string()).expect("game exists");
    assert!(game.board.rows[0].cells[0].piece.is_some());
    assert!(game.board.rows[2].cells[2].piece.is_none());
    assert_eq!(game.turn, Color::White);
    assert_eq!(app.latest_block_hash.bytes, Hash256::zero().bytes);
}

#[test]
fn test_commit_block_rejects_wrong_hash() {
    let mut app = App::new(0);
    app.set_connected_peers(peers());
    app.start_game_if_possible(StartRequest {
        white_player: "A".to_string(),
        black_player: "B".to_string(),
    })
    .unwrap();

    let tx = plain_tx("A", "B", (1, 0), (3, 0));
    let mut block = block_with_qc(tx, &["P0", "P1", "P2"]);
    for p in ["P0", "P1", "P2"] {
        app.record_vote(&block.hash, &p.to_string());
    }
    // Tamper with the recorded hash: votes and the certificate still refer
    // to it, but the canonical hash no longer matches.
    let mut tampered = block.hash.bytes.clone();
    tampered[0] ^= 0xff;
    block.hash = Hash256::from_bytes(tampered.clone());
    let mut qc = block.qc.take().unwrap();
    qc.block_hash = Hash256::from_bytes(tampered);
    block.qc = Some(qc);
    for p in ["P0", "P1", "P2"] {
        app.record_vote(&block.hash, &p.to_string());
    }

    let res = app.commit_block(&block);
    assert!(matches!(res, Err(AppError::BlockValidationError(_))));
}

#[test]
fn test_signature_validation() {
    let (white_secret, white_hex) = test_keypair(7);
    let (_black_secret, black_hex) = test_keypair(9);

    let mut app = App::new(0);
    app.start_game_if_possible(StartRequest {
        white_player: white_hex.clone(),
        black_player: black_hex.clone(),
    })
    .unwrap();

    let mut tx = plain_tx(&white_hex, &black_hex, (1, 0), (3, 0));
    tx.pub_key = white_hex.clone();
    sign_tx(&mut tx, &white_secret);

    assert!(app.is_valid_tx(&tx).is_ok());
    // Checking the same transaction again yields the same verdict.
    assert!(app.is_valid_tx(&tx).is_ok());

    // A tampered signature is rejected.
    let mut bad = tx.clone();
    let mut sig_bytes = hex::decode(&bad.signature).unwrap();
    sig_bytes[5] ^= 0x01;
    bad.signature = hex::encode(sig_bytes);
    assert!(matches!(app.is_valid_tx(&bad), Err(AppError::InvalidTransactionError(_))));

    // Odd-length hex is rejected outright.
    let mut odd = tx.clone();
    odd.signature.push('a');
    assert!(matches!(app.is_valid_tx(&odd), Err(AppError::InvalidTransactionError(_))));
}

#[test]
fn test_wrong_player_signature_rejected() {
    let (white_secret, white_hex) = test_keypair(7);
    let (black_secret, black_hex) = test_keypair(9);

    let mut app = App::new(0);
    app.start_game_if_possible(StartRequest {
        white_player: white_hex.clone(),
        black_player: black_hex.clone(),
    })
    .unwrap();

    // White's turn, but the transaction is signed and keyed by black.
    let mut tx = plain_tx(&white_hex, &black_hex, (1, 0), (3, 0));
    tx.pub_key = black_hex.clone();
    sign_tx(&mut tx, &black_secret);
    assert!(app.is_valid_tx(&tx).is_err());

    // With turn = white, a black piece move signed by black fails too.
    let mut tx2 = plain_tx(&white_hex, &black_hex, (6, 0), (5, 0));
    tx2.pub_key = black_hex.clone();
    sign_tx(&mut tx2, &black_secret);
    assert!(app.is_valid_tx(&tx2).is_err());

    let _ = white_secret;
}

#[test]
fn test_leader_pipeline_commits_block() {
    let (white_secret, white_hex) = test_keypair(7);
    let (_black_secret, black_hex) = test_keypair(9);

    let mut app = App::new(0);
    app.set_connected_peers(peers());
    app.set_local_peer_id("P0".to_string());
    app.start_game_if_possible(StartRequest {
        white_player: white_hex.clone(),
        black_player: black_hex.clone(),
    })
    .unwrap();

    let mut tx = plain_tx(&white_hex, &black_hex, (1, 0), (3, 0));
    tx.pub_key = white_hex.clone();
    sign_tx(&mut tx, &white_secret);

    // The leader builds the proposal and records its own vote.
    let block = app.handle_proposal(&tx).unwrap().expect("leader proposes");
    assert_eq!(block.view_n, 0);
    assert_eq!(block.previous_block_hash.bytes, Hash256::zero().bytes);
    assert_eq!(app.state_votes.count(&block.hash), 1);

    // Two replicas say yes: the threshold (3 of 4) is reached and the
    // leader commits.
    let c1 = Commit { decision: true, block: block.clone() };
    let r1 = app.handle_decision(c1, &"P1".to_string()).unwrap();
    assert!(r1.is_none());

    let c2 = Commit { decision: true, block: block.clone() };
    let committed = app.handle_decision(c2, &"P2".to_string()).unwrap().expect("commit happens");

    let qc = committed.qc.as_ref().expect("certificate attached");
    assert_eq!(qc.block_hash.bytes, block.hash.bytes);
    assert_eq!(
        qc.signature,
        vec!["P0".to_string(), "P1".to_string(), "P2".to_string()]
    );

    assert_eq!(app.view_n, 1);
    assert_eq!(app.latest_block_hash.bytes, block.hash.bytes);
    let key = format!("{}:{}", white_hex, black_hex);
    let game = app.db.get(&key).expect("game exists");
    assert_eq!(game.turn, Color::Black);
}

#[test]
fn test_replica_approves_and_commits_chain() {
    // A non-leader replica follows two views: quorum, then commit, twice.
    let (white_secret, white_hex) = test_keypair(7);
    let (black_secret, black_hex) = test_keypair(9);

    let mut app = App::new(0);
    app.set_connected_peers(peers());
    app.set_local_peer_id("P3".to_string());
    app.start_game_if_possible(StartRequest {
        white_player: white_hex.clone(),
        black_player: black_hex.clone(),
    })
    .unwrap();

    // View 0, leader P0: white opens.
    let mut tx1 = plain_tx(&white_hex, &black_hex, (1, 0), (3, 0));
    tx1.pub_key = white_hex.clone();
    sign_tx(&mut tx1, &white_secret);
    let h1 = compute_block_hash(0, &Hash256::zero(), &tx1);
    let b1 = Block {
        view_n: 0,
        previous_block_hash: Hash256::zero(),
        tx: tx1,
        timestamp: 10,
        hash: h1.clone(),
        qc: None,
    };

    let c = app.handle_quorum(b1.clone(), &"P0".to_string());
    assert!(c.decision);

    let mut committed1 = b1;
    for p in ["P0", "P1"] {
        app.record_vote(&h1, &p.to_string());
    }
    committed1.qc = Some(QuorumCertificate {
        block_hash: h1.clone(),
        signature: app.state_votes.votes_list(&h1),
    });
    assert!(app.handle_commit(&committed1, &"P0".to_string()).is_ok());
    assert_eq!(app.view_n, 1);
    assert_eq!(app.latest_block_hash.bytes, h1.bytes);

    // View 1, leader P1: black answers; the block chains onto the first.
    let mut tx2 = plain_tx(&white_hex, &black_hex, (6, 0), (4, 0));
    tx2.pub_key = black_hex.clone();
    sign_tx(&mut tx2, &black_secret);
    let h2 = compute_block_hash(1, &h1, &tx2);
    let b2 = Block {
        view_n: 1,
        previous_block_hash: h1.clone(),
        tx: tx2,
        timestamp: 20,
        hash: h2.clone(),
        qc: None,
    };

    let c2 = app.handle_quorum(b2.clone(), &"P1".to_string());
    assert!(c2.decision);

    let mut committed2 = b2;
    for p in ["P0", "P1"] {
        app.record_vote(&h2, &p.to_string());
    }
    committed2.qc = Some(QuorumCertificate {
        block_hash: h2.clone(),
        signature: app.state_votes.votes_list(&h2),
    });
    assert!(app.handle_commit(&committed2, &"P1".to_string()).is_ok());
    assert_eq!(app.view_n, 2);
    assert_eq!(app.latest_block_hash.bytes, h2.bytes);

    // Chain linearity, concretely: the second block pointed at the first.
    assert_eq!(committed2.previous_block_hash.bytes, h1.bytes);
    assert_eq!(committed1.previous_block_hash.bytes, Hash256::zero().bytes);
}

#[test]
fn test_quorum_rejects_wrong_view_and_leader() {
    let mut app = App::new(0);
    app.set_connected_peers(peers());
    app.set_local_peer_id("P3".to_string());
    app.start_game_if_possible(StartRequest {
        white_player: "A".to_string(),
        black_player: "B".to_string(),
    })
    .unwrap();

    let tx = plain_tx("A", "B", (1, 0), (3, 0));
    let h = compute_block_hash(0, &Hash256::zero(), &tx);
    let good = Block {
        view_n: 0,
        previous_block_hash: Hash256::zero(),
        tx,
        timestamp: 0,
        hash: h,
        qc: None,
    };

    // Wrong sender: P1 is not the leader of view 0.
    let c = app.handle_quorum(good.clone(), &"P1".to_string());
    assert!(!c.decision);

    // Wrong view.
    let mut wrong_view = good.clone();
    wrong_view.view_n = 5;
    let c2 = app.handle_quorum(wrong_view, &"P0".to_string());
    assert!(!c2.decision);

    // Unsigned transaction: even the right leader's block is refused.
    let c3 = app.handle_quorum(good, &"P0".to_string());
    assert!(!c3.decision);
}

#[test]
fn test_commit_ignores_stale_view() {
    let mut app = App::new(0);
    app.set_connected_peers(peers());
    app.view_n = 3;

    let tx = plain_tx("A", "B", (1, 0), (3, 0));
    let h = compute_block_hash(0, &Hash256::zero(), &tx);
    let stale = Block {
        view_n: 0,
        previous_block_hash: Hash256::zero(),
        tx,
        timestamp: 0,
        hash: h,
        qc: None,
    };

    // A commit for a past view is silently dropped.
    assert!(app.handle_commit(&stale, &"P0".to_string()).is_ok());
    assert_eq!(app.view_n, 3);
    assert_eq!(app.latest_block_hash.bytes, Hash256::zero().bytes);
}
