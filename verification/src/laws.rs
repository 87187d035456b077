//! The engine's global guarantees, stated and proved once over the
//! contracts of the modules: bounded vote sets, deterministic hashing and
//! validation, chain linearity, and quorum safety.

use vstd::prelude::*;

use crate::chess::{move_ok, Color, Piece};
use crate::engine::{signature_valid, App, PEERS};
use crate::types::{block_hash_spec, zero_hash, BlockView, TxView};
use crate::votes::{
    count_matching, lemma_strictly_sorted_no_duplicates, lemma_votes_for_sorted,
    lemma_votes_subset_card, votes_for,
};

verus! {

/// On a well-formed node, no block hash ever accumulates more than `PEERS`
/// recorded votes: every voter is a member of the fixed peer set, and the
/// vote list holds each member at most once.
pub proof fn lemma_vote_sets_bounded(app: &App, h: Seq<u8>)
    requires
        app.wf(),
    ensures
        votes_for(app.state_votes@, h).len() <= PEERS as int,
{
    let votes = votes_for(app.state_votes@, h);
    let peers = app.connected_peers.deep_view();
    lemma_votes_for_sorted(app.state_votes@, h);
    assert forall|x: Seq<char>| votes.contains(x) implies peers.contains(x) by {
        assert(votes_for(app.state_votes@, h).contains(x));
    }
    lemma_votes_subset_card(votes, peers);
}

/// The block hash is a function of the view number, the previous block
/// hash and the transaction alone: two nodes hashing the same inputs get
/// the same 32-byte output, whatever their clocks say.
pub proof fn lemma_block_hash_deterministic(
    v1: u32,
    p1: Seq<u8>,
    t1: TxView,
    v2: u32,
    p2: Seq<u8>,
    t2: TxView,
)
    requires
        v1 == v2,
        p1 == p2,
        t1 == t2,
    ensures
        block_hash_spec(v1, p1, t1) == block_hash_spec(v2, p2, t2),
{
}

/// The chess validator is deterministic: the verdict is a function of the
/// board, the move and the turn, so every replica agrees on it.
pub proof fn lemma_chess_determinism(
    b1: Seq<Seq<Option<Piece>>>,
    turn1: Color,
    b2: Seq<Seq<Option<Piece>>>,
    turn2: Color,
    fx: int,
    fy: int,
    tx: int,
    ty: int,
)
    requires
        b1 == b2,
        turn1 == turn2,
    ensures
        move_ok(b1, turn1, fx, fy, tx, ty) == move_ok(b2, turn2, fx, fy, tx, ty),
{
}

/// Signature verification is idempotent: the verdict is a function of the
/// transaction alone, so checking the same transaction and key any number
/// of times yields the same result.
pub proof fn lemma_signature_idempotent(t1: TxView, t2: TxView)
    requires
        t1 == t2,
    ensures
        signature_valid(t1) == signature_valid(t2),
{
}

/// On a vote list without duplicates, the match count against a
/// certificate's voter list is exactly the cardinality of the intersection
/// of the two identity sets.
pub proof fn lemma_count_matching_is_intersection(votes: Seq<Seq<char>>, sig: Seq<Seq<char>>)
    requires
        votes.no_duplicates(),
    ensures
        count_matching(votes, sig) == votes.to_set().intersect(sig.to_set()).len(),
        votes.to_set().intersect(sig.to_set()).finite(),
    decreases votes.len(),
{
    broadcast use vstd::set::group_set_axioms, vstd::seq_lib::seq_to_set_is_finite;

    if votes.len() == 0 {
        assert(votes.to_set() =~= Set::<Seq<char>>::empty());
        assert(votes.to_set().intersect(sig.to_set()) =~= Set::<Seq<char>>::empty());
    } else {
        let init = votes.drop_last();
        let x = votes.last();
        assert(init.no_duplicates());
        lemma_count_matching_is_intersection(init, sig);
        assert(!init.contains(x)) by {
            if init.contains(x) {
                let j = choose|j: int| 0 <= j < init.len() && init[j] == x;
                assert(votes[j] == x && votes[votes.len() - 1] == x);
            }
        }
        assert(votes.to_set() =~= init.to_set().insert(x)) by {
            assert forall|y: Seq<char>| votes.to_set().contains(y) implies init.to_set().insert(
                x,
            ).contains(y) by {
                let j = choose|j: int| 0 <= j < votes.len() && votes[j] == y;
                if j < votes.len() - 1 {
                    assert(init[j] == y);
                }
            }
            assert forall|y: Seq<char>| init.to_set().insert(x).contains(y) implies votes
                .to_set().contains(y) by {
                if init.to_set().contains(y) {
                    let j = choose|j: int| 0 <= j < init.len() && init[j] == y;
                    assert(votes[j] == y);
                } else {
                    assert(votes[votes.len() - 1] == x);
                }
            }
        }
        let a = init.to_set().intersect(sig.to_set());
        if sig.contains(x) {
            assert(sig.to_set().contains(x));
            assert(votes.to_set().intersect(sig.to_set()) =~= a.insert(x));
            assert(!a.contains(x));
            assert(a.insert(x).len() == a.len() + 1);
        } else {
            assert(!sig.to_set().contains(x));
            assert(votes.to_set().intersect(sig.to_set()) =~= a);
        }
    }
}

/// Quorum safety: a block commits only when its certificate intersects the
/// committing node's own recorded votes for that block's hash in more than
/// 2N/3 identities.
pub proof fn lemma_quorum_safety(app: &App, b: BlockView)
    requires
        app.wf(),
        app.commit_acceptable(b),
    ensures
        b.qc is Some,
        votes_for(app.state_votes@, b.hash).to_set().intersect(
            b.qc->Some_0.signature.to_set(),
        ).len() > (2 * PEERS as int) / 3,
{
    let qc = b.qc->Some_0;
    let votes = votes_for(app.state_votes@, qc.block_hash);
    lemma_votes_for_sorted(app.state_votes@, qc.block_hash);
    lemma_strictly_sorted_no_duplicates(votes);
    lemma_count_matching_is_intersection(votes, qc.signature);
    assert(qc.block_hash == b.hash);
}

/// The local kernel of liveness: once a block this node approved has
/// gathered more than 2N/3 recorded yes-votes, the leader's commit check
/// accepts it — the certificate built from the node's own votes certifies
/// the block, its hash is the canonical one, and its move still applies.
/// What no node controls alone — that a live leader and enough honest
/// peers deliver those votes within the view interval — is the network's
/// part of the bargain, not this function's.
pub proof fn lemma_certified_block_commits(app: &App, b: BlockView, src: Seq<char>)
    requires
        app.wf(),
        app.approve_ok(b, src),
        votes_for(app.state_votes@, b.hash).len() > (2 * PEERS as int) / 3,
    ensures
        ({
            let qcv = crate::types::QcView {
                block_hash: b.hash,
                signature: votes_for(app.state_votes@, b.hash),
            };
            app.commit_acceptable_at(BlockView { qc: Some(qcv), ..b })
        }),
{
    let votes = votes_for(app.state_votes@, b.hash);
    crate::votes::lemma_count_matching_all(votes, votes);
}

/// Chain linearity: when a node approves and commits blocks in order —
/// each approved against the state the previous commit left, each commit
/// recording the block's hash as the latest — the blocks form one linear
/// chain: each points at its predecessor's hash, and the first at the
/// all-zero genesis hash.
pub proof fn lemma_chain_linearity(states: Seq<App>, blocks: Seq<BlockView>, srcs: Seq<Seq<char>>)
    requires
        states.len() == blocks.len() + 1,
        srcs.len() == blocks.len(),
        states[0].latest_block_hash@ == zero_hash(),
        forall|i: int|
            0 <= i < blocks.len() ==> (#[trigger] states[i]).approve_ok(blocks[i], srcs[i]),
        forall|i: int|
            0 <= i < blocks.len() ==> (#[trigger] states[i + 1]).latest_block_hash@
                == blocks[i].hash,
    ensures
        blocks.len() > 0 ==> blocks[0].previous_block_hash == zero_hash(),
        forall|i: int|
            0 < i < blocks.len() ==> (#[trigger] blocks[i]).previous_block_hash
                == blocks[i - 1].hash,
{
    assert forall|i: int| 0 <= i < blocks.len() implies (#[trigger] blocks[i]).previous_block_hash
        == states[i].latest_block_hash@ by {
        assert(states[i].approve_ok(blocks[i], srcs[i]));
    }
    assert forall|i: int| 0 < i < blocks.len() implies (#[trigger] blocks[i]).previous_block_hash
        == blocks[i - 1].hash by {
        assert(states[(i - 1) + 1].latest_block_hash@ == blocks[i - 1].hash);
    }
}

} // verus!
