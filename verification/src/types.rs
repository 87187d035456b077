//! The data carried by the consensus protocol: hashes, transactions, blocks,
//! quorum certificates and the start request.

use vstd::prelude::*;

use crate::chess::Position;

verus! {

/// A 32-byte hash value, such as a block hash.
#[derive(Debug)]
pub struct Hash256 {
    pub bytes: Vec<u8>,
}

impl View for Hash256 {
    type V = Seq<u8>;

    open spec fn view(&self) -> Seq<u8> {
        self.bytes@
    }
}

/// A hash value holds exactly 32 bytes.
pub open spec fn hash_wf(h: Seq<u8>) -> bool {
    h.len() == 32
}

/// The all-zero hash: the implicit genesis block.
pub open spec fn zero_hash() -> Seq<u8> {
    Seq::new(32, |i: int| 0u8)
}

impl Hash256 {
    /// The all-zero hash.
    pub fn zero() -> (r: Hash256)
        ensures
            r@ == zero_hash(),
            hash_wf(r@),
    {
        let mut bytes: Vec<u8> = Vec::new();
        let mut i: usize = 0;
        while i < 32
            invariant
                i <= 32,
                bytes@ =~= Seq::new(i as nat, |j: int| 0u8),
            decreases 32 - i,
        {
            bytes.push(0u8);
            i = i + 1;
        }
        proof {
            assert(bytes@ =~= zero_hash());
        }
        Hash256 { bytes }
    }

    /// A hash from its 32 bytes.
    pub fn from_bytes(bytes: Vec<u8>) -> (r: Hash256)
        requires
            bytes@.len() == 32,
        ensures
            r@ == bytes@,
            hash_wf(r@),
    {
        Hash256 { bytes }
    }

    /// Whether this is the all-zero genesis hash.
    pub fn is_zero(&self) -> (r: bool)
        requires
            hash_wf(self@),
        ensures
            r == (self@ == zero_hash()),
    {
        let mut i: usize = 0;
        while i < 32
            invariant
                i <= 32,
                hash_wf(self@),
                forall|j: int| 0 <= j < i ==> self@[j] == 0u8,
            decreases 32 - i,
        {
            if *self.bytes.get(i).unwrap() != 0u8 {
                proof {
                    assert(self@[i as int] != zero_hash()[i as int]);
                }
                return false;
            }
            i = i + 1;
        }
        proof {
            assert(self@ =~= zero_hash());
        }
        true
    }
}

impl Clone for Hash256 {
    /// A clone holds the same bytes.
    fn clone(&self) -> (r: Self)
        ensures
            r@ == self@,
    {
        let mut bytes: Vec<u8> = Vec::new();
        let mut i: usize = 0;
        while i < self.bytes.len()
            invariant
                i <= self.bytes@.len(),
                bytes@ =~= self.bytes@.take(i as int),
            decreases self.bytes@.len() - i,
        {
            bytes.push(*self.bytes.get(i).unwrap());
            proof {
                assert(bytes@ =~= self.bytes@.take(i + 1));
            }
            i = i + 1;
        }
        proof {
            assert(bytes@ =~= self.bytes@);
        }
        Hash256 { bytes }
    }
}

impl PartialEq for Hash256 {
    /// Two hashes are equal when their bytes are.
    fn eq(&self, other: &Self) -> (r: bool) {
        if self.bytes.len() != other.bytes.len() {
            return false;
        }
        let mut i: usize = 0;
        while i < self.bytes.len()
            invariant
                i <= self.bytes@.len(),
                self.bytes@.len() == other.bytes@.len(),
                forall|j: int| 0 <= j < i ==> self.bytes@[j] == other.bytes@[j],
            decreases self.bytes@.len() - i,
        {
            if *self.bytes.get(i).unwrap() != *other.bytes.get(i).unwrap() {
                return false;
            }
            i = i + 1;
        }
        proof {
            assert(self.bytes@ =~= other.bytes@);
        }
        true
    }
}

impl vstd::std_specs::cmp::PartialEqSpecImpl for Hash256 {
    open spec fn obeys_eq_spec() -> bool {
        true
    }

    open spec fn eq_spec(&self, other: &Self) -> bool {
        self.bytes@ == other.bytes@
    }
}

/// A copy of a list of identity strings, character for character.
pub fn clone_string_vec(v: &Vec<String>) -> (r: Vec<String>)
    ensures
        r.deep_view() =~= v.deep_view(),
        r@.len() == v@.len(),
{
    let mut out: Vec<String> = Vec::new();
    let mut i: usize = 0;
    while i < v.len()
        invariant
            i <= v@.len(),
            out@.len() == i,
            forall|j: int| 0 <= j < i ==> #[trigger] out@[j]@ == v@[j]@,
        decreases v@.len() - i,
    {
        let item = v.get(i).unwrap().clone();
        out.push(item);
        i = i + 1;
    }
    proof {
        assert forall|j: int| 0 <= j < v@.len() implies out.deep_view()[j] == v.deep_view()[j] by {
            assert(out@[j]@ == v@[j]@);
        }
        assert(out.deep_view() =~= v.deep_view());
    }
    out
}

/// A signed chess move: the match it belongs to, the move, and the player's
/// signature over the canonical message.
#[derive(Debug)]
pub struct Transaction {
    pub white_player: String,
    pub black_player: String,
    pub action: (Position, Position),
    pub signature: String,
    pub pub_key: String,
}

/// The mathematical value of a transaction.
pub struct TxView {
    pub white_player: Seq<char>,
    pub black_player: Seq<char>,
    pub from: Position,
    pub to: Position,
    pub signature: Seq<char>,
    pub pub_key: Seq<char>,
}

impl View for Transaction {
    type V = TxView;

    open spec fn view(&self) -> TxView {
        TxView {
            white_player: self.white_player@,
            black_player: self.black_player@,
            from: self.action.0,
            to: self.action.1,
            signature: self.signature@,
            pub_key: self.pub_key@,
        }
    }
}

impl Clone for Transaction {
    /// A clone carries the same fields.
    fn clone(&self) -> (r: Self)
        ensures
            r == *self,
    {
        Transaction {
            white_player: self.white_player.clone(),
            black_player: self.black_player.clone(),
            action: self.action,
            signature: self.signature.clone(),
            pub_key: self.pub_key.clone(),
        }
    }
}

/// Evidence that a supermajority approved a block hash: the hash and the
/// identities that voted yes.
#[derive(Debug)]
pub struct QuorumCertificate {
    pub block_hash: Hash256,
    pub signature: Vec<String>,
}

/// The mathematical value of a quorum certificate.
pub struct QcView {
    pub block_hash: Seq<u8>,
    pub signature: Seq<Seq<char>>,
}

impl View for QuorumCertificate {
    type V = QcView;

    open spec fn view(&self) -> QcView {
        QcView { block_hash: self.block_hash@, signature: self.signature.deep_view() }
    }
}

impl Clone for QuorumCertificate {
    /// A clone carries the same hash and the same voter identities.
    fn clone(&self) -> (r: Self)
        ensures
            r@.block_hash == self@.block_hash,
            r@.signature =~= self@.signature,
    {
        let signature = clone_string_vec(&self.signature);
        QuorumCertificate { block_hash: self.block_hash.clone(), signature }
    }
}

impl Default for QuorumCertificate {
    /// An empty certificate: the zero hash and no voters.
    fn default() -> (r: Self)
        ensures
            r@.block_hash == zero_hash(),
            r@.signature =~= Seq::<Seq<char>>::empty(),
    {
        QuorumCertificate { block_hash: Hash256::zero(), signature: Vec::new() }
    }
}

impl QuorumCertificate {
    /// The same certificate for another block hash.
    pub fn with_block_hash(self, block_hash: Hash256) -> (r: Self)
        ensures
            r@.block_hash == block_hash@,
            r@.signature == self@.signature,
    {
        Self { block_hash, ..self }
    }

    /// The same certificate with another voter set.
    pub fn with_signature(self, signature: Vec<String>) -> (r: Self)
        ensures
            r@.signature == signature.deep_view(),
            r@.block_hash == self@.block_hash,
    {
        Self { signature, ..self }
    }
}

/// One record of the chain: a view number, the previous block's hash, the
/// transaction it commits, an advisory timestamp, the block's own hash, and
/// the quorum certificate once one was gathered.
#[derive(Debug)]
pub struct Block {
    pub view_n: u32,
    pub previous_block_hash: Hash256,
    pub tx: Transaction,
    pub timestamp: i64,
    pub hash: Hash256,
    pub qc: Option<QuorumCertificate>,
}

/// The mathematical value of a block.
pub struct BlockView {
    pub view_n: u32,
    pub previous_block_hash: Seq<u8>,
    pub tx: TxView,
    pub timestamp: i64,
    pub hash: Seq<u8>,
    pub qc: Option<QcView>,
}

impl View for Block {
    type V = BlockView;

    open spec fn view(&self) -> BlockView {
        BlockView {
            view_n: self.view_n,
            previous_block_hash: self.previous_block_hash@,
            tx: self.tx@,
            timestamp: self.timestamp,
            hash: self.hash@,
            qc: match self.qc {
                Some(qc) => Some(qc@),
                None => None,
            },
        }
    }
}

impl Clone for Block {
    /// A clone carries the same fields.
    fn clone(&self) -> (r: Self)
        ensures
            r@.view_n == self@.view_n,
            r@.previous_block_hash == self@.previous_block_hash,
            r@.tx == self@.tx,
            r@.timestamp == self@.timestamp,
            r@.hash == self@.hash,
            match (r@.qc, self@.qc) {
                (Some(a), Some(b)) => a.block_hash == b.block_hash && a.signature =~= b.signature,
                (None, None) => true,
                _ => false,
            },
    {
        Block {
            view_n: self.view_n,
            previous_block_hash: self.previous_block_hash.clone(),
            tx: self.tx.clone(),
            timestamp: self.timestamp,
            hash: self.hash.clone(),
            qc: match &self.qc {
                Some(qc) => Some(qc.clone()),
                None => None,
            },
        }
    }
}

/// The hash of a block: keccak-256 of the canonical JSON of the view number,
/// the previous block hash and the transaction — and of nothing else, so two
/// peers with identical inputs compute identical hashes whatever their
/// clocks say.
pub open spec fn block_hash_spec(view_n: u32, prev: Seq<u8>, t: TxView) -> Seq<u8> {
    crate::crypto::keccak256_of(crate::encoding::canonical_block_json(view_n, prev, t))
}

/// Computes the hash a block with these fields must carry.
pub fn compute_block_hash(view_n: u32, prev: &Hash256, tx: &Transaction) -> (h: Hash256)
    ensures
        h@ == block_hash_spec(view_n, prev@, tx@),
        hash_wf(h@),
{
    let json = crate::encoding::block_canonical_chars(view_n, prev, tx);
    let bytes = crate::crypto::keccak256_chars(&json);
    Hash256::from_bytes(bytes)
}

/// The empty default transaction, as the genesis block carries.
pub open spec fn default_tx_view() -> TxView {
    TxView {
        white_player: Seq::empty(),
        black_player: Seq::empty(),
        from: Position { x: 0, y: 0 },
        to: Position { x: 0, y: 0 },
        signature: Seq::empty(),
        pub_key: Seq::empty(),
    }
}

impl Default for Transaction {
    /// The empty transaction: empty players, a move from the origin to the
    /// origin, no signature.
    fn default() -> (r: Self)
        ensures
            r@ == default_tx_view(),
    {
        let r = Transaction {
            white_player: String::new(),
            black_player: String::new(),
            action: (Position { x: 0, y: 0 }, Position { x: 0, y: 0 }),
            signature: String::new(),
            pub_key: String::new(),
        };
        r
    }
}

/// Accumulates the hashed fields of a block and stamps the rest.
#[derive(Debug)]
pub struct BlockBuilder {
    pub view_n: u32,
    pub previous_block_hash: Hash256,
    pub tx: Option<Transaction>,
}

impl Default for BlockBuilder {
    /// A builder for view 0 on the genesis hash, with no transaction yet.
    fn default() -> (r: Self)
        ensures
            r.view_n == 0,
            r.previous_block_hash@ == zero_hash(),
            r.tx is None,
    {
        BlockBuilder { view_n: 0, previous_block_hash: Hash256::zero(), tx: None }
    }
}

impl BlockBuilder {
    /// The same builder for another view.
    pub fn with_view_n(self, view_n: u32) -> (r: Self)
        ensures
            r.view_n == view_n,
            r.previous_block_hash == self.previous_block_hash,
            r.tx == self.tx,
    {
        Self { view_n, ..self }
    }

    /// The same builder chaining onto another previous block hash.
    pub fn with_previous_block_hash(self, previous_block_hash: Hash256) -> (r: Self)
        ensures
            r.previous_block_hash == previous_block_hash,
            r.view_n == self.view_n,
            r.tx == self.tx,
    {
        Self { previous_block_hash, ..self }
    }

    /// Sets the transaction the block will carry.
    pub fn add_tx(&mut self, tx: &Transaction)
        ensures
            match final(self).tx {
                Some(t) => t@ == tx@,
                None => false,
            },
            final(self).view_n == old(self).view_n,
            final(self).previous_block_hash == old(self).previous_block_hash,
    {
        self.tx = Some(tx.clone());
    }

    /// How many transactions the builder holds: zero or one.
    pub fn tx_size(&self) -> (r: usize)
        ensures
            r == (if self.tx is Some {
                1int
            } else {
                0int
            }),
    {
        if self.tx.is_some() {
            1
        } else {
            0
        }
    }

    /// Produces the block: the accumulated fields, the advisory wall-clock
    /// timestamp, the canonical hash over view, previous hash and
    /// transaction, and no certificate yet.
    pub fn build(self) -> (r: Block)
        ensures
            r@.view_n == self.view_n,
            r@.previous_block_hash == self.previous_block_hash@,
            r@.tx == (match self.tx {
                Some(t) => t@,
                None => default_tx_view(),
            }),
            r@.hash == block_hash_spec(self.view_n, self.previous_block_hash@, r@.tx),
            r@.qc is None,
            hash_wf(r@.hash),
    {
        let tx = match self.tx {
            Some(t) => t,
            None => Transaction::default(),
        };
        let hash = compute_block_hash(self.view_n, &self.previous_block_hash, &tx);
        Block {
            view_n: self.view_n,
            previous_block_hash: self.previous_block_hash,
            tx,
            timestamp: crate::crypto::now_unix_seconds(),
            hash,
            qc: None,
        }
    }
}

/// A replica's vote on a proposed block.
#[derive(Debug)]
pub struct Commit {
    pub decision: bool,
    pub block: Block,
}

/// A request to open a match between two players.
#[derive(Debug, Clone)]
pub struct StartRequest {
    pub white_player: String,
    pub black_player: String,
}

impl StartRequest {
    /// The same request with another white player.
    pub fn with_white_player(self, white_player: String) -> (r: Self)
        ensures
            r.white_player@ == white_player@,
            r.black_player@ == self.black_player@,
    {
        Self { white_player, ..self }
    }

    /// The same request with another black player.
    pub fn with_black_player(self, black_player: String) -> (r: Self)
        ensures
            r.black_player@ == black_player@,
            r.white_player@ == self.white_player@,
    {
        Self { black_player, ..self }
    }
}

} // verus!
