//! The consensus engine: one node's state and the handlers of the
//! leader-based three-phase protocol that drives it.
//!
//! The engine is a plain value: every handler is a function from state and
//! event to new state and the message to publish, so the surrounding runtime
//! only performs I/O and hands events in.

use vstd::prelude::*;

use crate::chess::GameState;
use crate::crypto::{hex_decode, secp256k1_check, sha256_chars, sha256_of};
use crate::db::{db_get, db_wf, game_after_move, match_key, tx_applies, tx_game_key, GameDb};
use crate::encoding::{hex_decode_spec, hex_ok, sig_message_chars, sig_message_json};
use crate::errors::AppError;
use crate::types::{
    block_hash_spec, compute_block_hash, hash_wf, zero_hash, Block, BlockBuilder, BlockView, Commit,
    Hash256, QcView, QuorumCertificate, StartRequest, Transaction, TxView,
};
use crate::votes::{contains_str, count_matching, votes_for, votes_wf, VoteStore};

verus! {

/// The fixed size of the peer set.
pub const PEERS: u32 = 4;

/// Seconds without a commit after which the view rotates.
pub const VIEW_N_ROT_INTERVAL: u64 = 10;

/// A transaction's signature verifies: both hex fields decode, and the
/// secp256k1 verdict over the SHA-256 digest of the canonical message is
/// positive. A pure function of the transaction, so checking it twice gives
/// the same answer.
pub open spec fn signature_valid(t: TxView) -> bool {
    &&& hex_ok(t.signature)
    &&& hex_ok(t.pub_key)
    &&& crate::crypto::secp256k1_verdict(
        sha256_of(sig_message_json(t)),
        hex_decode_spec(t.signature),
        hex_decode_spec(t.pub_key),
    )
}

/// The key holder whose turn it is: the white player's key on white's turn,
/// the black player's on black's.
pub open spec fn turn_authority_ok(g: crate::chess::GameView, t: TxView) -> bool {
    t.pub_key == (if g.turn is White {
        g.white_player
    } else {
        g.black_player
    })
}

/// A transaction is valid against a database: its match exists, the move is
/// on the board and legal, the signature verifies, and it is signed by the
/// player whose turn it is.
pub open spec fn tx_valid(v: Seq<(Seq<char>, crate::chess::GameView)>, t: TxView) -> bool {
    &&& tx_applies(v, t)
    &&& signature_valid(t)
    &&& turn_authority_ok(db_get(v, tx_game_key(t))->Some_0, t)
}

/// One node of the consensus network.
#[derive(Debug)]
pub struct App {
    pub view_n: u64,
    pub latest_block_hash: Hash256,
    pub latest_timestamp: i64,
    pub state_votes: VoteStore,
    pub db: GameDb,
    pub connected_peers: Vec<String>,
    pub local_peer_id: Option<String>,
}

impl App {
    /// A well-formed node: a 32-byte latest hash, a well-formed vote store
    /// and database, at most `PEERS` peers, and every recorded voter a
    /// member of the peer set.
    pub open spec fn wf(&self) -> bool {
        &&& hash_wf(self.latest_block_hash@)
        &&& votes_wf(self.state_votes@)
        &&& db_wf(self.db@)
        &&& self.connected_peers.deep_view().len() <= PEERS as int
        &&& forall|h: Seq<u8>, x: Seq<char>|
            #[trigger] votes_for(self.state_votes@, h).contains(x)
                ==> self.connected_peers.deep_view().contains(x)
    }

    /// The index of the current view's leader in the peer list.
    pub open spec fn leader_index(&self) -> int {
        self.view_n as int % (PEERS as int)
    }

    /// Whether the peer list is long enough to name a leader.
    pub open spec fn has_leader(&self) -> bool {
        self.leader_index() < self.connected_peers.deep_view().len()
    }

    /// The current view's leader: the peer at `view_n mod N`.
    pub open spec fn leader_of(&self) -> Seq<char> {
        self.connected_peers.deep_view()[self.leader_index()]
    }

    /// A proposal is approved exactly when it is for the current view, from
    /// the current leader, chained onto the latest committed hash, carries
    /// its own canonical hash, and holds a valid transaction.
    pub open spec fn approve_ok(&self, b: BlockView, src: Seq<char>) -> bool {
        &&& b.view_n as int == self.view_n as int
        &&& self.has_leader()
        &&& src == self.leader_of()
        &&& b.previous_block_hash == self.latest_block_hash@
        &&& b.hash == block_hash_spec(b.view_n, b.previous_block_hash, b.tx)
        &&& tx_valid(self.db@, b.tx)
    }

    /// A certificate is valid exactly when the votes this node itself
    /// recorded for the certified hash intersect the certificate's voter
    /// list in more than 2N/3 identities.
    pub open spec fn qc_valid(&self, qc: QcView) -> bool {
        count_matching(votes_for(self.state_votes@, qc.block_hash), qc.signature) > (2 * PEERS as int)
            / 3
    }

    /// A block commits exactly when it carries a valid certificate for its
    /// own hash, its hash is the canonical one, and its transaction's move
    /// applies to the local database.
    pub open spec fn commit_acceptable(&self, b: BlockView) -> bool {
        &&& b.qc is Some
        &&& self.qc_valid(b.qc->Some_0)
        &&& b.hash == block_hash_spec(b.view_n, b.previous_block_hash, b.tx)
        &&& b.qc->Some_0.block_hash == b.hash
        &&& tx_applies(self.db@, b.tx)
    }

    /// A fresh node: view 0, the genesis hash, the given clock reading, and
    /// nothing else.
    pub fn new(now: i64) -> (a: App)
        ensures
            a.wf(),
            a.view_n == 0,
            a.latest_block_hash@ == zero_hash(),
            a.latest_timestamp == now,
            a.state_votes@ =~= Seq::<(Seq<u8>, Seq<Seq<char>>)>::empty(),
            a.db@ =~= Seq::<(Seq<char>, crate::chess::GameView)>::empty(),
            a.connected_peers.deep_view() =~= Seq::<Seq<char>>::empty(),
            a.local_peer_id is None,
    {
        let a = App {
            view_n: 0,
            latest_block_hash: Hash256::zero(),
            latest_timestamp: now,
            state_votes: VoteStore::new(),
            db: GameDb::new(),
            connected_peers: Vec::new(),
            local_peer_id: None,
        };
        proof {
            assert(a.connected_peers.deep_view() =~= Seq::<Seq<char>>::empty());
        }
        a
    }

    /// Names this node on the network.
    pub fn set_local_peer_id(&mut self, id: String)
        requires
            old(self).wf(),
        ensures
            final(self).wf(),
            final(self).local_peer_id == Some(id),
            final(self).view_n == old(self).view_n,
            final(self).latest_block_hash == old(self).latest_block_hash,
            final(self).latest_timestamp == old(self).latest_timestamp,
            final(self).state_votes == old(self).state_votes,
            final(self).db == old(self).db,
            final(self).connected_peers == old(self).connected_peers,
    {
        self.local_peer_id = Some(id);
    }

    /// Fixes the peer set at bootstrap, before any vote is recorded: the
    /// sorted list of all N identities, this node's included.
    pub fn set_connected_peers(&mut self, peers: Vec<String>)
        requires
            old(self).wf(),
            peers.deep_view().len() <= PEERS as int,
            old(self).state_votes@.len() == 0,
        ensures
            final(self).wf(),
            final(self).connected_peers == peers,
            final(self).view_n == old(self).view_n,
            final(self).latest_block_hash == old(self).latest_block_hash,
            final(self).latest_timestamp == old(self).latest_timestamp,
            final(self).state_votes == old(self).state_votes,
            final(self).db == old(self).db,
            final(self).local_peer_id == old(self).local_peer_id,
    {
        self.connected_peers = peers;
        proof {
            assert forall|h: Seq<u8>, x: Seq<char>|
                #[trigger] votes_for(self.state_votes@, h).contains(x) implies self
                .connected_peers.deep_view().contains(x) by {
                assert(votes_for(self.state_votes@, h).len() == 0);
            }
        }
    }

    /// The current leader: the peer at `view_n mod N` in the connected-peer
    /// list, or `NoLeaderError` when the list is too short.
    pub fn get_current_leader(&self) -> (r: Result<String, AppError>)
        ensures
            match r {
                Ok(s) => self.has_leader() && s@ == self.leader_of(),
                Err(e) => !self.has_leader() && e matches AppError::NoLeaderError,
            },
    {
        let idx = (self.view_n % (PEERS as u64)) as usize;
        if idx < self.connected_peers.len() {
            let s = self.connected_peers.get(idx).unwrap().clone();
            proof {
                assert(self.connected_peers.deep_view()[idx as int]
                    == self.connected_peers@[idx as int]@);
            }
            Ok(s)
        } else {
            Err(AppError::NoLeaderError)
        }
    }

    /// Records that `peer` approved `h` — if `peer` belongs to the peer
    /// set; an unknown identity changes nothing.
    pub fn record_vote(&mut self, h: &Hash256, peer: &String)
        requires
            old(self).wf(),
        ensures
            final(self).wf(),
            old(self).connected_peers.deep_view().contains(peer@) ==> {
                &&& forall|x: Seq<char>|
                    votes_for(final(self).state_votes@, h@).contains(x) <==> (votes_for(
                        old(self).state_votes@,
                        h@,
                    ).contains(x) || x == peer@)
                &&& forall|h2: Seq<u8>|
                    h2 != h@ ==> votes_for(final(self).state_votes@, h2) == votes_for(
                        old(self).state_votes@,
                        h2,
                    )
                &&& votes_for(final(self).state_votes@, h@).len() <= votes_for(
                    old(self).state_votes@,
                    h@,
                ).len() + 1
            },
            !old(self).connected_peers.deep_view().contains(peer@) ==> final(self).state_votes
                == old(self).state_votes,
            final(self).view_n == old(self).view_n,
            final(self).latest_block_hash == old(self).latest_block_hash,
            final(self).latest_timestamp == old(self).latest_timestamp,
            final(self).db == old(self).db,
            final(self).connected_peers == old(self).connected_peers,
            final(self).local_peer_id == old(self).local_peer_id,
    {
        if contains_str(&self.connected_peers, peer) {
            let ghost v0 = self.state_votes@;
            self.state_votes.record(h, peer);
            proof {
                assert forall|h2: Seq<u8>, x: Seq<char>|
                    #[trigger] votes_for(self.state_votes@, h2).contains(x) implies self
                    .connected_peers.deep_view().contains(x) by {
                    if h2 == h@ {
                        assert(votes_for(v0, h2).contains(x) || x == peer@);
                    } else {
                        assert(votes_for(self.state_votes@, h2) == votes_for(v0, h2));
                    }
                }
            }
        }
    }

    /// Accepts a certificate exactly when this node's own recorded votes
    /// for the certified hash intersect the certificate's voters in more
    /// than 2N/3 identities.
    pub fn is_valid_qc(&self, qc: &QuorumCertificate) -> (r: Result<(), AppError>)
        ensures
            r is Ok <==> self.qc_valid(qc@),
            r is Err ==> r matches Err(AppError::InvalidQcError),
    {
        let n = self.state_votes.count_matching_in(&qc.block_hash, &qc.signature);
        if n > 2 * (PEERS as usize) / 3 {
            Ok(())
        } else {
            Err(AppError::InvalidQcError)
        }
    }

    /// Verifies a transaction's signature: the canonical message is
    /// digested with SHA-256 and checked as a secp256k1 signature under the
    /// transaction's public key.
    pub fn validate_signature(&self, tx: &Transaction) -> (r: Result<(), AppError>)
        ensures
            r is Ok <==> signature_valid(tx@),
            r is Err ==> r matches Err(AppError::InvalidTransactionError(_)),
    {
        let message = sig_message_chars(tx);
        let digest = sha256_chars(&message);
        let signature = match hex_decode(tx.signature.as_str()) {
            Some(v) => v,
            None => {
                return Err(AppError::InvalidTransactionError(String::from_str("invalid hex")));
            },
        };
        let key = match hex_decode(tx.pub_key.as_str()) {
            Some(v) => v,
            None => {
                return Err(AppError::InvalidTransactionError(String::from_str("invalid hex")));
            },
        };
        if secp256k1_check(&digest, &signature, &key) {
            Ok(())
        } else {
            Err(AppError::InvalidTransactionError(String::from_str("invalid signature")))
        }
    }

    /// Validates a client transaction: the match exists, the move is legal,
    /// the signature verifies, and the signer is the player whose turn it
    /// is.
    pub fn is_valid_tx(&self, tx: &Transaction) -> (r: Result<(), AppError>)
        requires
            self.wf(),
        ensures
            r is Ok <==> tx_valid(self.db@, tx@),
            (r matches Err(AppError::InternalGameError(_))) <==> ({
                let t = tx@;
                &&& crate::chess::pos_in_range(t.from.x as int, t.from.y as int)
                &&& crate::chess::pos_in_range(t.to.x as int, t.to.y as int)
                &&& db_get(self.db@, tx_game_key(t)) is Some
                &&& !tx_applies(self.db@, t)
            }),
            r is Err ==> (r matches Err(AppError::InternalGameError(_)) || r matches Err(
                AppError::InvalidTransactionError(_),
            )),
    {
        let from = tx.action.0;
        let to = tx.action.1;
        if !(from.x < 8 && from.y < 8 && to.x < 8 && to.y < 8) {
            return Err(AppError::InvalidTransactionError(String::from_str("invalid position")));
        }
        let key = match_key(&tx.white_player, &tx.black_player);
        let game = match self.db.get(&key) {
            Some(g) => g,
            None => {
                return Err(AppError::InvalidTransactionError(String::from_str("no such game")));
            },
        };
        proof {
            crate::db::lemma_db_get_wf(self.db@, key@);
        }
        if let Err(e) = game.validate_move(&from, &to) {
            return Err(e);
        }
        if let Err(e) = self.validate_signature(tx) {
            return Err(e);
        }
        let expected = if game.turn == crate::chess::Color::White {
            &game.white_player
        } else {
            &game.black_player
        };
        if !(tx.pub_key == *expected) {
            return Err(AppError::InvalidTransactionError(String::from_str("invalid turn")));
        }
        Ok(())
    }

    /// Judges a proposed block: accepted exactly when it is for this view,
    /// from the current leader, chained onto the latest committed hash,
    /// canonically hashed, and carrying a valid transaction.
    pub fn approve_proposal(&self, proposal: &Block, source: &String) -> (r: Result<(), AppError>)
        requires
            self.wf(),
        ensures
            r is Ok <==> self.approve_ok(proposal@, source@),
            (r matches Err(AppError::NoLeaderError)) <==> (proposal@.view_n as int
                == self.view_n as int && !self.has_leader()),
            r is Err ==> (r matches Err(AppError::NoLeaderError) || r matches Err(
                AppError::BlockValidationError(_),
            )),
    {
        if (proposal.view_n as u64) != self.view_n {
            return Err(AppError::BlockValidationError(String::from_str("invalid view")));
        }
        let leader = match self.get_current_leader() {
            Ok(l) => l,
            Err(e) => {
                return Err(e);
            },
        };
        if !(*source == leader) {
            return Err(AppError::BlockValidationError(String::from_str("incorrect leader")));
        }
        if !(self.latest_block_hash == proposal.previous_block_hash) {
            return Err(AppError::BlockValidationError(String::from_str("invalid block")));
        }
        let expected = compute_block_hash(
            proposal.view_n,
            &proposal.previous_block_hash,
            &proposal.tx,
        );
        if !(expected == proposal.hash) {
            return Err(AppError::BlockValidationError(String::from_str("invalid block")));
        }
        if let Err(e) = self.is_valid_tx(&proposal.tx) {
            return Err(AppError::BlockValidationError(e.message()));
        }
        Ok(())
    }

    /// Commits a block: requires a valid certificate for the block's own
    /// canonical hash, then applies the move. A failed commit leaves the
    /// whole node state — the database above all — exactly as it was.
    pub fn commit_block(&mut self, block: &Block) -> (r: Result<(), AppError>)
        requires
            old(self).wf(),
        ensures
            final(self).wf(),
            r is Ok <==> old(self).commit_acceptable(block@),
            r is Ok ==> {
                &&& final(self).latest_block_hash@ == block@.hash
                &&& final(self).latest_timestamp == block@.timestamp
                &&& forall|k2: Seq<char>|
                    db_get(final(self).db@, k2) == (if k2 == tx_game_key(block@.tx) {
                        Some(
                            game_after_move(
                                db_get(old(self).db@, tx_game_key(block@.tx))->Some_0,
                                block@.tx.from,
                                block@.tx.to,
                            ),
                        )
                    } else {
                        db_get(old(self).db@, k2)
                    })
            },
            r is Err ==> final(self).db@ == old(self).db@ && final(self).latest_block_hash == old(
                self,
            ).latest_block_hash && final(self).latest_timestamp == old(self).latest_timestamp,
            (r matches Err(AppError::InvalidQcError)) <==> !(block@.qc is Some && old(self).qc_valid(block@.qc->Some_0)),
            (r matches Err(AppError::BlockValidationError(_))) <==> (block@.qc is Some && old(
                self,
            ).qc_valid(block@.qc->Some_0) && !(block@.hash == block_hash_spec(
                block@.view_n,
                block@.previous_block_hash,
                block@.tx,
            ) && block@.qc->Some_0.block_hash == block@.hash && db_get(
                old(self).db@,
                tx_game_key(block@.tx),
            ) is Some)),
            (r matches Err(AppError::InvalidTransactionError(_))) <==> (block@.qc is Some && old(
                self,
            ).qc_valid(block@.qc->Some_0) && block@.hash == block_hash_spec(
                block@.view_n,
                block@.previous_block_hash,
                block@.tx,
            ) && block@.qc->Some_0.block_hash == block@.hash && db_get(
                old(self).db@,
                tx_game_key(block@.tx),
            ) is Some && !tx_applies(old(self).db@, block@.tx)),
            final(self).view_n == old(self).view_n,
            final(self).state_votes == old(self).state_votes,
            final(self).connected_peers == old(self).connected_peers,
            final(self).local_peer_id == old(self).local_peer_id,
    {
        let qc = match &block.qc {
            Some(qc) => qc,
            None => {
                return Err(AppError::InvalidQcError);
            },
        };
        if let Err(e) = self.is_valid_qc(qc) {
            return Err(e);
        }
        let expected = compute_block_hash(block.view_n, &block.previous_block_hash, &block.tx);
        if !(expected == block.hash) || !(qc.block_hash == block.hash) {
            return Err(AppError::BlockValidationError(String::from_str("invalid block")));
        }
        match self.db.apply_tx(&block.tx) {
            Ok(()) => {},
            Err(e) => {
                return Err(e);
            },
        }
        self.latest_block_hash = block.hash.clone();
        self.latest_timestamp = block.timestamp;
        Ok(())
    }

    /// Opens a match for the two players, unless one is already filed under
    /// the same key.
    pub fn start_game_if_possible(&mut self, r: StartRequest) -> (res: Result<(), AppError>)
        requires
            old(self).wf(),
        ensures
            final(self).wf(),
            res is Ok <==> db_get(
                old(self).db@,
                crate::db::match_key_spec(r.white_player@, r.black_player@),
            ) is None,
            res is Ok ==> forall|k2: Seq<char>|
                db_get(final(self).db@, k2) == (if k2 == crate::db::match_key_spec(
                    r.white_player@,
                    r.black_player@,
                ) {
                    Some(
                        crate::chess::GameView {
                            white_player: r.white_player@,
                            black_player: r.black_player@,
                            turn: crate::chess::Color::White,
                            board: crate::chess::initial_board(),
                        },
                    )
                } else {
                    db_get(old(self).db@, k2)
                }),
            res is Err ==> *final(self) == *old(self),
            res is Err ==> res matches Err(AppError::StartGameError(_)),
            final(self).view_n == old(self).view_n,
            final(self).latest_block_hash == old(self).latest_block_hash,
            final(self).latest_timestamp == old(self).latest_timestamp,
            final(self).state_votes == old(self).state_votes,
            final(self).connected_peers == old(self).connected_peers,
            final(self).local_peer_id == old(self).local_peer_id,
    {
        let key = match_key(&r.white_player, &r.black_player);
        if self.db.contains_key(&key) {
            return Err(AppError::StartGameError(String::from_str("already in game")));
        }
        let game = GameState::new(r.white_player, r.black_player);
        self.db.insert_new(key, game);
        Ok(())
    }

    /// Rotates the view when at least `VIEW_N_ROT_INTERVAL` seconds have
    /// passed since the last commit or rotation — but only once the chain
    /// holds at least one committed block.
    pub fn update_view_if_needed(&mut self, now: i64)
        requires
            old(self).wf(),
            old(self).view_n < u64::MAX,
        ensures
            final(self).wf(),
            ({
                let rotate = old(self).latest_block_hash@ != zero_hash() && now
                    - old(self).latest_timestamp >= VIEW_N_ROT_INTERVAL as int;
                if rotate {
                    final(self).view_n == old(self).view_n + 1 && final(self).latest_timestamp
                        == now
                } else {
                    final(self).view_n == old(self).view_n && final(self).latest_timestamp == old(self).latest_timestamp
                }
            }),
            final(self).latest_block_hash == old(self).latest_block_hash,
            final(self).state_votes == old(self).state_votes,
            final(self).db == old(self).db,
            final(self).connected_peers == old(self).connected_peers,
            final(self).local_peer_id == old(self).local_peer_id,
    {
        let elapsed_enough = self.latest_timestamp <= i64::MAX - (VIEW_N_ROT_INTERVAL as i64)
            && now >= self.latest_timestamp + (VIEW_N_ROT_INTERVAL as i64);
        if elapsed_enough && !self.latest_block_hash.is_zero() {
            self.view_n = self.view_n + 1;
            self.latest_timestamp = now;
        }
    }

    /// Validates a transaction and, when it is valid, builds the block that
    /// proposes it — chained onto the latest committed hash, for the
    /// current view — and records this node's own yes-vote for it.
    pub fn broadcast_block(&mut self, tx: &Transaction) -> (r: Result<Block, AppError>)
        requires
            old(self).wf(),
            old(self).local_peer_id is Some,
            old(self).view_n <= u32::MAX,
        ensures
            final(self).wf(),
            r is Ok <==> tx_valid(old(self).db@, tx@),
            r is Err ==> *final(self) == *old(self),
            match r {
                Ok(b) => {
                    &&& b@.view_n as int == old(self).view_n as int
                    &&& b@.previous_block_hash == old(self).latest_block_hash@
                    &&& b@.tx == tx@
                    &&& b@.hash == block_hash_spec(b@.view_n, b@.previous_block_hash, b@.tx)
                    &&& b@.qc is None
                    &&& old(self).connected_peers.deep_view().contains(
                        old(self).local_peer_id->Some_0@,
                    ) ==> (forall|x: Seq<char>|
                        votes_for(final(self).state_votes@, b@.hash).contains(x) <==> (votes_for(
                            old(self).state_votes@,
                            b@.hash,
                        ).contains(x) || x == old(self).local_peer_id->Some_0@))
                    &&& !old(self).connected_peers.deep_view().contains(
                        old(self).local_peer_id->Some_0@,
                    ) ==> final(self).state_votes == old(self).state_votes
                },
                Err(_) => true,
            },
            final(self).view_n == old(self).view_n,
            final(self).latest_block_hash == old(self).latest_block_hash,
            final(self).latest_timestamp == old(self).latest_timestamp,
            final(self).db == old(self).db,
            final(self).connected_peers == old(self).connected_peers,
            final(self).local_peer_id == old(self).local_peer_id,
    {
        if let Err(e) = self.is_valid_tx(tx) {
            return Err(e);
        }
        let mut builder = BlockBuilder::default().with_previous_block_hash(
            self.latest_block_hash.clone(),
        ).with_view_n(self.view_n as u32);
        builder.add_tx(tx);
        let block = builder.build();
        let local = match &self.local_peer_id {
            Some(l) => l.clone(),
            None => {
                return Err(AppError::UnknownError);
            },
        };
        self.record_vote(&block.hash, &local);
        Ok(block)
    }

    /// On a start request from the bus: opens the match locally.
    pub fn handle_start(&mut self, r: StartRequest) -> (res: Result<(), AppError>)
        requires
            old(self).wf(),
        ensures
            final(self).wf(),
            res is Ok <==> db_get(
                old(self).db@,
                crate::db::match_key_spec(r.white_player@, r.black_player@),
            ) is None,
            res is Err ==> *final(self) == *old(self),
    {
        self.start_game_if_possible(r)
    }

    /// On a forwarded transaction: only the current leader reacts, by
    /// building and returning the block to publish on the quorum topic.
    pub fn handle_proposal(&mut self, tx: &Transaction) -> (r: Result<Option<Block>, AppError>)
        requires
            old(self).wf(),
            old(self).local_peer_id is Some,
            old(self).view_n <= u32::MAX,
        ensures
            final(self).wf(),
            !old(self).has_leader() ==> (r matches Err(AppError::NoLeaderError) && *final(self)
                == *old(self)),
            (old(self).has_leader() && old(self).leader_of() != old(self).local_peer_id->Some_0@) ==> (r matches Ok(None) && *final(self) == *old(self)),
            (old(self).has_leader() && old(self).leader_of() == old(self).local_peer_id->Some_0@) ==> ((r matches Ok(Some(_))) <==> tx_valid(
                old(self).db@,
                tx@,
            )),
            match r {
                Ok(Some(b)) => {
                    &&& b@.view_n as int == old(self).view_n as int
                    &&& b@.previous_block_hash == old(self).latest_block_hash@
                    &&& b@.tx == tx@
                    &&& b@.hash == block_hash_spec(b@.view_n, b@.previous_block_hash, b@.tx)
                    &&& b@.qc is None
                },
                _ => true,
            },
    {
        let leader = match self.get_current_leader() {
            Ok(l) => l,
            Err(e) => {
                return Err(e);
            },
        };
        let is_leader = match &self.local_peer_id {
            Some(l) => *l == leader,
            None => false,
        };
        if is_leader {
            match self.broadcast_block(tx) {
                Ok(b) => Ok(Some(b)),
                Err(e) => Err(e),
            }
        } else {
            Ok(None)
        }
    }

    /// On a quorum request: judges the proposal and answers with this
    /// node's decision; a yes also records this node's own vote.
    pub fn handle_quorum(&mut self, block: Block, source: &String) -> (c: Commit)
        requires
            old(self).wf(),
            old(self).local_peer_id is Some,
        ensures
            final(self).wf(),
            c.decision == old(self).approve_ok(block@, source@),
            c.block == block,
            !c.decision ==> *final(self) == *old(self),
            (c.decision && old(self).connected_peers.deep_view().contains(
                old(self).local_peer_id->Some_0@,
            )) ==> {
                &&& forall|x: Seq<char>|
                    votes_for(final(self).state_votes@, block@.hash).contains(x) <==> (votes_for(
                        old(self).state_votes@,
                        block@.hash,
                    ).contains(x) || x == old(self).local_peer_id->Some_0@)
                &&& forall|h2: Seq<u8>|
                    h2 != block@.hash ==> votes_for(final(self).state_votes@, h2) == votes_for(
                        old(self).state_votes@,
                        h2,
                    )
            },
            !(c.decision && old(self).connected_peers.deep_view().contains(
                old(self).local_peer_id->Some_0@,
            )) ==> final(self).state_votes == old(self).state_votes,
            final(self).view_n == old(self).view_n,
            final(self).latest_block_hash == old(self).latest_block_hash,
            final(self).db == old(self).db,
            final(self).connected_peers == old(self).connected_peers,
            final(self).local_peer_id == old(self).local_peer_id,
    {
        let decision = match self.approve_proposal(&block, source) {
            Ok(()) => true,
            Err(_) => false,
        };
        if decision {
            let local = match &self.local_peer_id {
                Some(l) => l.clone(),
                None => {
                    return Commit { decision: false, block };
                },
            };
            self.record_vote(&block.hash, &local);
        }
        Commit { decision, block }
    }

    /// The leader's commit check: when the decided block is for the current
    /// view and has gathered more than 2N/3 recorded yes-votes, attaches
    /// the certificate — the ascending list of those voters — advances the
    /// view past the block's, commits it locally, and hands it back for the
    /// commit topic.
    pub fn handle_commitment(&mut self, commit: Commit) -> (r: Result<Option<Block>, AppError>)
        requires
            old(self).wf(),
        ensures
            final(self).wf(),
            ({
                let acts = commit.block@.view_n as int == old(self).view_n as int && votes_for(
                    old(self).state_votes@,
                    commit.block@.hash,
                ).len() > (2 * PEERS as int) / 3;
                &&& (!acts ==> (r matches Ok(None) && *final(self) == *old(self)))
                &&& (acts ==> !(r matches Ok(None)))
                &&& (acts ==> final(self).view_n == commit.block@.view_n + 1)
                &&& (acts ==> ({
                    let qcv = QcView {
                        block_hash: commit.block@.hash,
                        signature: votes_for(old(self).state_votes@, commit.block@.hash),
                    };
                    let bv = BlockView { qc: Some(qcv), ..commit.block@ };
                    &&& ((r matches Ok(Some(_))) <==> old(self).commit_acceptable_at(bv))
                    &&& (r matches Ok(Some(b)) ==> b@ == bv)
                    &&& (r matches Ok(Some(_)) ==> final(self).latest_block_hash@
                        == commit.block@.hash && final(self).latest_timestamp
                        == commit.block@.timestamp)
                    &&& (r is Err ==> final(self).db@ == old(self).db@
                        && final(self).latest_block_hash == old(self).latest_block_hash)
                }))
                &&& (acts ==> final(self).state_votes == old(self).state_votes)
            }),
            final(self).connected_peers == old(self).connected_peers,
            final(self).local_peer_id == old(self).local_peer_id,
    {
        let threshold_met = self.state_votes.count(&commit.block.hash) > 2 * (PEERS as usize) / 3;
        if !((commit.block.view_n as u64) == self.view_n && threshold_met) {
            return Ok(None);
        }
        let mut b = commit.block;
        let sigs = self.state_votes.votes_list(&b.hash);
        let qc = QuorumCertificate::default().with_block_hash(b.hash.clone()).with_signature(sigs);
        b.qc = Some(qc);
        self.view_n = (b.view_n as u64) + 1;
        match self.commit_block(&b) {
            Ok(()) => Ok(Some(b)),
            Err(e) => Err(e),
        }
    }

    /// `commit_acceptable`, read off a state whose view may already have
    /// advanced: the commit check does not look at the view.
    pub open spec fn commit_acceptable_at(&self, b: BlockView) -> bool {
        &&& b.qc is Some
        &&& count_matching(votes_for(self.state_votes@, b.qc->Some_0.block_hash), b.qc->Some_0.signature)
            > (2 * PEERS as int) / 3
        &&& b.hash == block_hash_spec(b.view_n, b.previous_block_hash, b.tx)
        &&& b.qc->Some_0.block_hash == b.hash
        &&& tx_applies(self.db@, b.tx)
    }

    /// On a decision message: a yes-vote is recorded for its sender, and
    /// the current leader additionally runs the commit check.
    pub fn handle_decision(&mut self, commit: Commit, source: &String) -> (r: Result<
        Option<Block>,
        AppError,
    >)
        requires
            old(self).wf(),
        ensures
            final(self).wf(),
            final(self).connected_peers == old(self).connected_peers,
            final(self).local_peer_id == old(self).local_peer_id,
            r matches Ok(Some(b)) ==> {
                &&& final(self).latest_block_hash@ == b@.hash
                &&& final(self).view_n == b@.view_n + 1
                &&& b@.qc is Some
                &&& count_matching(
                    votes_for(final(self).state_votes@, b@.qc->Some_0.block_hash),
                    b@.qc->Some_0.signature,
                ) > (2 * PEERS as int) / 3
            },
            r matches Ok(None) ==> final(self).db == old(self).db && final(self).latest_block_hash
                == old(self).latest_block_hash,
            (commit.decision && old(self).connected_peers.deep_view().contains(source@)) ==> {
                &&& forall|x: Seq<char>|
                    votes_for(final(self).state_votes@, commit.block@.hash).contains(x) <==> (
                    votes_for(old(self).state_votes@, commit.block@.hash).contains(x) || x
                        == source@)
                &&& forall|h2: Seq<u8>|
                    h2 != commit.block@.hash ==> votes_for(final(self).state_votes@, h2)
                        == votes_for(old(self).state_votes@, h2)
            },
            !(commit.decision && old(self).connected_peers.deep_view().contains(source@))
                ==> final(self).state_votes == old(self).state_votes,
    {
        if commit.decision {
            self.record_vote(&commit.block.hash, source);
        }
        let leader = match self.get_current_leader() {
            Ok(l) => l,
            Err(e) => {
                return Err(e);
            },
        };
        let is_leader = match &self.local_peer_id {
            Some(l) => *l == leader,
            None => false,
        };
        if is_leader {
            self.handle_commitment(commit)
        } else {
            Ok(None)
        }
    }

    /// On a commit message: accepted only for the current view and from
    /// the current leader; then the view advances past the block's and the
    /// block is committed locally.
    pub fn handle_commit(&mut self, block: &Block, source: &String) -> (r: Result<(), AppError>)
        requires
            old(self).wf(),
        ensures
            final(self).wf(),
            final(self).connected_peers == old(self).connected_peers,
            final(self).local_peer_id == old(self).local_peer_id,
            (block@.view_n as int != old(self).view_n as int) ==> (r is Ok && *final(self) == *old(self)),
            (block@.view_n as int == old(self).view_n as int && !old(self).has_leader()) ==> (r
                matches Err(AppError::NoLeaderError) && *final(self) == *old(self)),
            (block@.view_n as int == old(self).view_n as int && old(self).has_leader() && source@
                != old(self).leader_of()) ==> (r is Ok && *final(self) == *old(self)),
            ({
                let acting = block@.view_n as int == old(self).view_n as int && old(self).has_leader() && source@ == old(self).leader_of();
                acting ==> {
                    &&& final(self).view_n == block@.view_n + 1
                    &&& (r is Ok <==> old(self).commit_acceptable(block@))
                    &&& (r is Ok ==> final(self).latest_block_hash@ == block@.hash && final(self).latest_timestamp == block@.timestamp)
                    &&& (r is Err ==> final(self).db@ == old(self).db@)
                }
            }),
    {
        if (block.view_n as u64) == self.view_n {
            let leader = match self.get_current_leader() {
                Ok(l) => l,
                Err(e) => {
                    return Err(e);
                },
            };
            if leader == *source {
                self.view_n = (block.view_n as u64) + 1;
                return self.commit_block(block);
            }
        }
        Ok(())
    }
}

} // verus!
