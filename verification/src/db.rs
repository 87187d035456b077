//! The in-memory game database: match keys to game states, with the
//! guarantee that a failed move leaves the database exactly as it was.

use vstd::prelude::*;

use crate::chess::{
    board_after_move, game_wf, move_ok, other_color, pos_in_range, GameState, GameView, Position,
};
use crate::errors::AppError;
use crate::types::{Transaction, TxView};

verus! {

use vstd::string::StringExecFns;

/// The key a match is filed under: `"{white}:{black}"`, order significant.
pub open spec fn match_key_spec(w: Seq<char>, b: Seq<char>) -> Seq<char> {
    w + ":"@ + b
}

/// The key of the match a transaction belongs to.
pub open spec fn tx_game_key(t: TxView) -> Seq<char> {
    match_key_spec(t.white_player, t.black_player)
}

/// Builds the key a match is filed under.
pub fn match_key(white: &String, black: &String) -> (k: String)
    ensures
        k@ == match_key_spec(white@, black@),
{
    let mut k = white.clone();
    k.append(":");
    k.append(black.as_str());
    k
}

/// The in-memory database: one entry per match key.
#[derive(Debug)]
pub struct GameDb {
    pub entries: Vec<(String, GameState)>,
}

impl View for GameDb {
    type V = Seq<(Seq<char>, GameView)>;

    open spec fn view(&self) -> Seq<(Seq<char>, GameView)> {
        self.entries@.map(|i: int, e: (String, GameState)| (e.0@, e.1@))
    }
}

/// The game filed under `k`: the first matching entry, or none.
pub open spec fn db_get(v: Seq<(Seq<char>, GameView)>, k: Seq<char>) -> Option<GameView>
    decreases v.len(),
{
    if v.len() == 0 {
        None
    } else if v[0].0 == k {
        Some(v[0].1)
    } else {
        db_get(v.drop_first(), k)
    }
}

/// A well-formed database: one entry per key, every game on an 8x8 board.
pub open spec fn db_wf(v: Seq<(Seq<char>, GameView)>) -> bool {
    &&& forall|i: int, j: int| 0 <= i < j < v.len() ==> (#[trigger] v[i]).0 != (#[trigger] v[j]).0
    &&& forall|i: int| 0 <= i < v.len() ==> game_wf((#[trigger] v[i]).1)
}

/// The game after a legal move: the piece moved, the source cleared, the
/// turn flipped, the players unchanged.
pub open spec fn game_after_move(g: GameView, from: Position, to: Position) -> GameView {
    GameView {
        white_player: g.white_player,
        black_player: g.black_player,
        turn: other_color(g.turn),
        board: board_after_move(g.board, from.x as int, from.y as int, to.x as int, to.y as int),
    }
}

/// A transaction's move applies: its match exists, its squares are on the
/// board, and the move is legal in that game.
pub open spec fn tx_applies(v: Seq<(Seq<char>, GameView)>, t: TxView) -> bool {
    &&& db_get(v, tx_game_key(t)) is Some
    &&& pos_in_range(t.from.x as int, t.from.y as int)
    &&& pos_in_range(t.to.x as int, t.to.y as int)
    &&& {
        let g = db_get(v, tx_game_key(t))->Some_0;
        move_ok(g.board, g.turn, t.from.x as int, t.from.y as int, t.to.x as int, t.to.y as int)
    }
}

/// Every game a well-formed database hands out is well-formed.
pub proof fn lemma_db_get_wf(v: Seq<(Seq<char>, GameView)>, k: Seq<char>)
    requires
        forall|i: int| 0 <= i < v.len() ==> game_wf((#[trigger] v[i]).1),
        db_get(v, k) is Some,
    ensures
        game_wf(db_get(v, k)->Some_0),
    decreases v.len(),
{
    if v.len() > 0 && v[0].0 != k {
        assert forall|i: int| 0 <= i < v.drop_first().len() implies game_wf(
            (#[trigger] v.drop_first()[i]).1,
        ) by {
            assert(v.drop_first()[i] == v[i + 1]);
        }
        lemma_db_get_wf(v.drop_first(), k);
    }
}

/// The first matching entry is what `db_get` returns.
proof fn lemma_db_get_index(v: Seq<(Seq<char>, GameView)>, k: Seq<char>, i: int)
    requires
        0 <= i < v.len(),
        v[i].0 == k,
        forall|j: int| 0 <= j < i ==> (#[trigger] v[j]).0 != k,
    ensures
        db_get(v, k) == Some(v[i].1),
    decreases i,
{
    if i > 0 {
        assert forall|j: int| 0 <= j < i - 1 implies (#[trigger] v.drop_first()[j]).0 != k by {
            assert(v.drop_first()[j] == v[j + 1]);
        }
        assert(v.drop_first()[i - 1] == v[i]);
        lemma_db_get_index(v.drop_first(), k, i - 1);
    }
}

/// A key with no entry has no game.
proof fn lemma_db_get_absent(v: Seq<(Seq<char>, GameView)>, k: Seq<char>)
    requires
        forall|j: int| 0 <= j < v.len() ==> (#[trigger] v[j]).0 != k,
    ensures
        db_get(v, k) is None,
    decreases v.len(),
{
    if v.len() > 0 {
        assert forall|j: int| 0 <= j < v.drop_first().len() implies (#[trigger] v.drop_first()[j]).0
            != k by {
            assert(v.drop_first()[j] == v[j + 1]);
        }
        lemma_db_get_absent(v.drop_first(), k);
    }
}

/// Replacing the game at one entry changes only that key's lookup.
proof fn lemma_db_get_update(v: Seq<(Seq<char>, GameView)>, i: int, val: GameView, k2: Seq<char>)
    requires
        0 <= i < v.len(),
        forall|p: int, q: int| 0 <= p < q < v.len() ==> (#[trigger] v[p]).0 != (#[trigger] v[q]).0,
    ensures
        db_get(v.update(i, (v[i].0, val)), k2) == (if v[i].0 == k2 {
            Some(val)
        } else {
            db_get(v, k2)
        }),
    decreases v.len(),
{
    let w = v.update(i, (v[i].0, val));
    if i == 0 {
        if v[0].0 != k2 {
            assert(w.drop_first() =~= v.drop_first());
        }
    } else {
        assert(w[0] == v[0]);
        if v[0].0 == k2 {
            assert(v[i].0 != k2);
        } else {
            assert forall|p: int, q: int|
                0 <= p < q < v.drop_first().len() implies (#[trigger] v.drop_first()[p]).0 != (
            #[trigger] v.drop_first()[q]).0 by {
                assert(v.drop_first()[p] == v[p + 1] && v.drop_first()[q] == v[q + 1]);
            }
            assert(v.drop_first()[i - 1] == v[i]);
            lemma_db_get_update(v.drop_first(), i - 1, val, k2);
            assert(w.drop_first() =~= v.drop_first().update(i - 1, (v[i].0, val)));
        }
    }
}

/// Appending an entry for a fresh key changes only that key's lookup.
proof fn lemma_db_get_push(v: Seq<(Seq<char>, GameView)>, e: (Seq<char>, GameView), k2: Seq<char>)
    requires
        forall|j: int| 0 <= j < v.len() ==> (#[trigger] v[j]).0 != e.0,
    ensures
        db_get(v.push(e), k2) == (if e.0 == k2 {
            Some(e.1)
        } else {
            db_get(v, k2)
        }),
    decreases v.len(),
{
    if v.len() == 0 {
        assert(v.push(e)[0] == e);
        if e.0 != k2 {
            assert(v.push(e).drop_first() =~= Seq::<(Seq<char>, GameView)>::empty());
            assert(db_get(Seq::<(Seq<char>, GameView)>::empty(), k2) is None);
        }
    } else {
        assert(v.push(e)[0] == v[0]);
        if v[0].0 != k2 {
            assert forall|j: int| 0 <= j < v.drop_first().len() implies (
            #[trigger] v.drop_first()[j]).0 != e.0 by {
                assert(v.drop_first()[j] == v[j + 1]);
            }
            lemma_db_get_push(v.drop_first(), e, k2);
            assert(v.push(e).drop_first() =~= v.drop_first().push(e));
        } else {
            assert(v[0].0 != e.0);
        }
    }
}

impl GameDb {
    /// An empty database.
    pub fn new() -> (r: GameDb)
        ensures
            r@ =~= Seq::<(Seq<char>, GameView)>::empty(),
            db_wf(r@),
    {
        GameDb { entries: Vec::new() }
    }

    /// The position of the entry for `key`, if one exists.
    fn find(&self, key: &String) -> (r: Option<usize>)
        ensures
            match r {
                Some(i) => i < self@.len() && self@[i as int].0 == key@ && forall|j: int|
                    0 <= j < i ==> (#[trigger] self@[j]).0 != key@,
                None => forall|j: int| 0 <= j < self@.len() ==> (#[trigger] self@[j]).0 != key@,
            },
    {
        let mut i: usize = 0;
        while i < self.entries.len()
            invariant
                i <= self@.len(),
                self@.len() == self.entries@.len(),
                forall|j: int| 0 <= j < i ==> (#[trigger] self@[j]).0 != key@,
            decreases self@.len() - i,
        {
            proof {
                assert(self@[i as int].0 == self.entries@[i as int].0@);
            }
            if self.entries.get(i).unwrap().0 == *key {
                return Some(i);
            }
            i = i + 1;
        }
        None
    }

    /// The game filed under `key`, if one exists.
    pub fn get(&self, key: &String) -> (r: Option<&GameState>)
        ensures
            match r {
                Some(g) => db_get(self@, key@) == Some(g@),
                None => db_get(self@, key@) is None,
            },
    {
        match self.find(key) {
            Some(i) => {
                proof {
                    lemma_db_get_index(self@, key@, i as int);
                    assert(self@[i as int].1 == self.entries@[i as int].1@);
                }
                Some(&self.entries.get(i).unwrap().1)
            },
            None => {
                proof {
                    lemma_db_get_absent(self@, key@);
                }
                None
            },
        }
    }

    /// Whether a match is filed under `key`.
    pub fn contains_key(&self, key: &String) -> (r: bool)
        ensures
            r == (db_get(self@, key@) is Some),
    {
        match self.get(key) {
            Some(_) => true,
            None => false,
        }
    }

    /// Files a fresh match under `key`.
    pub fn insert_new(&mut self, key: String, game: GameState)
        requires
            db_wf(old(self)@),
            db_get(old(self)@, key@) is None,
            game_wf(game@),
        ensures
            db_wf(final(self)@),
            forall|k2: Seq<char>|
                db_get(final(self)@, k2) == (if k2 == key@ {
                    Some(game@)
                } else {
                    db_get(old(self)@, k2)
                }),
    {
        let ghost v0 = self@;
        proof {
            assert forall|j: int| 0 <= j < v0.len() implies (#[trigger] v0[j]).0 != key@ by {
                if v0[j].0 == key@ {
                    lemma_db_get_index(v0, key@, j);
                }
            }
        }
        let ghost gv = game@;
        let ghost k0 = key@;
        self.entries.push((key, game));
        proof {
            let v1 = self@;
            assert(v1 =~= v0.push((k0, gv)));
            assert forall|k2: Seq<char>| true implies db_get(v1, k2) == (if k2 == k0 {
                Some(gv)
            } else {
                db_get(v0, k2)
            }) by {
                lemma_db_get_push(v0, (k0, gv), k2);
            }
            assert forall|i: int, j: int| 0 <= i < j < v1.len() implies (#[trigger] v1[i]).0 != (
            #[trigger] v1[j]).0 by {
                if j < v0.len() {
                    assert(v1[i] == v0[i] && v1[j] == v0[j]);
                } else {
                    assert(v1[i] == v0[i]);
                }
            }
        }
    }

    /// Applies a transaction's move to its match. A missing match or an
    /// illegal move is an error, and then the database is exactly as it was.
    pub fn apply_tx(&mut self, tx: &Transaction) -> (r: Result<(), AppError>)
        requires
            db_wf(old(self)@),
        ensures
            db_wf(final(self)@),
            r is Ok <==> tx_applies(old(self)@, tx@),
            r is Ok ==> forall|k2: Seq<char>|
                db_get(final(self)@, k2) == (if k2 == tx_game_key(tx@) {
                    Some(
                        game_after_move(
                            db_get(old(self)@, tx_game_key(tx@))->Some_0,
                            tx@.from,
                            tx@.to,
                        ),
                    )
                } else {
                    db_get(old(self)@, k2)
                }),
            r is Err ==> final(self)@ == old(self)@,
            r is Err ==> (if db_get(old(self)@, tx_game_key(tx@)) is None {
                r matches Err(AppError::BlockValidationError(_))
            } else {
                r matches Err(AppError::InvalidTransactionError(_))
            }),
    {
        let ghost v0 = self@;
        let key = match_key(&tx.white_player, &tx.black_player);
        let i = match self.find(&key) {
            Some(i) => i,
            None => {
                proof {
                    lemma_db_get_absent(v0, key@);
                }
                return Err(AppError::BlockValidationError(String::from_str("no such game")));
            },
        };
        proof {
            lemma_db_get_index(v0, key@, i as int);
        }
        let from = tx.action.0;
        let to = tx.action.1;
        if !(from.x < 8 && from.y < 8 && to.x < 8 && to.y < 8) {
            return Err(AppError::InvalidTransactionError(String::from_str("invalid position")));
        }
        let ghost g0 = v0[i as int].1;
        let entry = &mut self.entries[i];
        proof {
            assert(g0 == entry.1@);
        }
        let res = entry.1.apply_move(from, to);
        match res {
            Ok(()) => {
                proof {
                    let v1 = self@;
                    assert(v1 =~= v0.update(i as int, (key@, game_after_move(g0, from, to))));
                    assert forall|k2: Seq<char>| true implies db_get(v1, k2) == (if k2 == key@ {
                        Some(game_after_move(g0, from, to))
                    } else {
                        db_get(v0, k2)
                    }) by {
                        lemma_db_get_update(v0, i as int, game_after_move(g0, from, to), k2);
                    }
                    assert forall|j: int| 0 <= j < v1.len() implies game_wf(
                        (#[trigger] v1[j]).1,
                    ) by {
                        if j != i {
                            assert(v1[j] == v0[j]);
                        }
                    }
                }
                Ok(())
            },
            Err(e) => {
                proof {
                    assert(self@ =~= v0);
                }
                Err(AppError::InvalidTransactionError(e.message()))
            },
        }
    }
}

} // verus!
