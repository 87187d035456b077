//! Vote accounting: identity ordering and the per-hash vote sets.

use vstd::prelude::*;

use crate::types::Hash256;

verus! {

use vstd::std_specs::iter::IteratorSpec;

broadcast use vstd::utf8::char_is_scalar, vstd::utf8::char_u32_cast;

/// Lexicographic order on identity strings, by code point.
pub open spec fn str_lt(a: Seq<char>, b: Seq<char>) -> bool
    decreases a.len(),
{
    if b.len() == 0 {
        false
    } else if a.len() == 0 {
        true
    } else if a[0] != b[0] {
        (a[0] as u32) < (b[0] as u32)
    } else {
        str_lt(a.drop_first(), b.drop_first())
    }
}

/// No string precedes itself.
pub proof fn lemma_str_lt_irrefl(a: Seq<char>)
    ensures
        !str_lt(a, a),
    decreases a.len(),
{
    if a.len() > 0 {
        lemma_str_lt_irrefl(a.drop_first());
    }
}

/// Any two strings compare: one precedes the other, or they are equal.
pub proof fn lemma_str_lt_total(a: Seq<char>, b: Seq<char>)
    ensures
        str_lt(a, b) || str_lt(b, a) || a == b,
    decreases a.len(),
{
    if a.len() == 0 && b.len() == 0 {
        assert(a =~= b);
    } else if a.len() > 0 && b.len() > 0 {
        if a[0] == b[0] {
            lemma_str_lt_total(a.drop_first(), b.drop_first());
            if a.drop_first() == b.drop_first() {
                assert forall|j: int| 0 <= j < a.len() implies a[j] == b[j] by {
                    if j > 0 {
                        assert(a[j] == a.drop_first()[j - 1]);
                        assert(b[j] == b.drop_first()[j - 1]);
                    }
                }
                assert(a =~= b);
            }
        } else {
            vstd::utf8::char_u32_cast(a[0], a[0] as u32);
            vstd::utf8::char_u32_cast(b[0], b[0] as u32);
            assert((a[0] as u32) != (b[0] as u32));
        }
    }
}

/// The order is transitive.
pub proof fn lemma_str_lt_trans(a: Seq<char>, b: Seq<char>, c: Seq<char>)
    requires
        str_lt(a, b),
        str_lt(b, c),
    ensures
        str_lt(a, c),
    decreases a.len(),
{
    if a.len() > 0 && b.len() > 0 && c.len() > 0 {
        if a[0] == b[0] && b[0] == c[0] {
            lemma_str_lt_trans(a.drop_first(), b.drop_first(), c.drop_first());
        }
    }
}

/// Decides whether `a` precedes `b` in the identity order.
pub fn str_less_than(a: &str, b: &str) -> (r: bool)
    ensures
        r == str_lt(a@, b@),
{
    let mut ia = a.chars();
    let mut ib = b.chars();
    loop
        invariant
            str_lt(a@, b@) == str_lt(ia.remaining(), ib.remaining()),
            ia.decrease() is Some,
            ib.decrease() is Some,
        decreases ia.decrease()->0,
    {
        let ghost ra0 = ia.remaining();
        let ghost rb0 = ib.remaining();
        let na = ia.next();
        let nb = ib.next();
        match (na, nb) {
            (None, None) => {
                proof {
                    assert(ra0.len() == 0 && rb0.len() == 0);
                }
                return false;
            },
            (None, Some(_)) => {
                proof {
                    assert(ra0.len() == 0 && rb0.len() > 0);
                }
                return true;
            },
            (Some(_), None) => {
                proof {
                    assert(rb0.len() == 0);
                }
                return false;
            },
            (Some(c1), Some(c2)) => {
                if c1 != c2 {
                    proof {
                        assert(ra0[0] == c1 && rb0[0] == c2);
                        assert(str_lt(ra0, rb0) == ((c1 as u32) < (c2 as u32)));
                    }
                    let v1 = c1 as u32;
                    let v2 = c2 as u32;
                    return v1 < v2;
                }
                proof {
                    assert(ra0[0] == c1 && rb0[0] == c2);
                    assert(str_lt(ra0, rb0) == str_lt(ra0.drop_first(), rb0.drop_first()));
                }
            },
        }
    }
}

/// A strictly ascending list of identities: sorted and free of duplicates.
pub open spec fn strictly_sorted(v: Seq<Seq<char>>) -> bool {
    forall|i: int, j: int| 0 <= i < j < v.len() ==> str_lt(#[trigger] v[i], #[trigger] v[j])
}

/// A strictly ascending list has no duplicates.
pub proof fn lemma_strictly_sorted_no_duplicates(v: Seq<Seq<char>>)
    requires
        strictly_sorted(v),
    ensures
        v.no_duplicates(),
{
    assert forall|i: int, j: int| 0 <= i < v.len() && 0 <= j < v.len() && i != j implies v[i]
        != v[j] by {
        if i < j {
            lemma_str_lt_irrefl(v[i]);
        } else {
            lemma_str_lt_irrefl(v[j]);
        }
    }
}

/// Whether a list of identity strings holds `s`.
pub fn contains_str(v: &Vec<String>, s: &String) -> (r: bool)
    ensures
        r == v.deep_view().contains(s@),
{
    let mut i: usize = 0;
    while i < v.len()
        invariant
            i <= v@.len(),
            forall|j: int| 0 <= j < i ==> v.deep_view()[j] != s@,
        decreases v@.len() - i,
    {
        if *v.get(i).unwrap() == *s {
            proof {
                assert(v.deep_view()[i as int] == s@);
            }
            return true;
        }
        proof {
            assert(v.deep_view()[i as int] == v@[i as int]@);
        }
        i = i + 1;
    }
    proof {
        if v.deep_view().contains(s@) {
            let j = choose|j: int| 0 <= j < v.deep_view().len() && v.deep_view()[j] == s@;
            assert(v.deep_view()[j] != s@);
        }
    }
    false
}

/// The first position whose entry does not precede `s` in a strictly
/// ascending list.
fn lower_bound(v: &Vec<String>, s: &String) -> (i: usize)
    ensures
        i <= v@.len(),
        forall|j: int| 0 <= j < i ==> str_lt(#[trigger] v.deep_view()[j], s@),
        i < v@.len() ==> !str_lt(v.deep_view()[i as int], s@),
{
    let mut i: usize = 0;
    while i < v.len()
        invariant
            i <= v@.len(),
            forall|j: int| 0 <= j < i ==> str_lt(#[trigger] v.deep_view()[j], s@),
        decreases v@.len() - i,
    {
        let e = v.get(i).unwrap();
        if !str_less_than(e.as_str(), s.as_str()) {
            proof {
                assert(v.deep_view()[i as int] == v@[i as int]@);
            }
            return i;
        }
        proof {
            assert(v.deep_view()[i as int] == v@[i as int]@);
        }
        i = i + 1;
    }
    i
}

/// Inserts `s` into a strictly ascending list, keeping it strictly
/// ascending; a string already present is left alone.
pub fn sorted_insert(v: &mut Vec<String>, s: &String)
    requires
        strictly_sorted(old(v).deep_view()),
    ensures
        strictly_sorted(final(v).deep_view()),
        forall|x: Seq<char>|
            final(v).deep_view().contains(x) <==> (old(v).deep_view().contains(x) || x == s@),
        final(v).deep_view().len() <= old(v).deep_view().len() + 1,
{
    let ghost dv0 = v.deep_view();
    let i = lower_bound(v, s);
    if i < v.len() && *v.get(i).unwrap() == *s {
        proof {
            assert(dv0.contains(s@)) by {
                assert(dv0[i as int] == v@[i as int]@);
                assert(dv0[i as int] == s@);
            }
        }
        return ;
    }
    proof {
        if i < dv0.len() {
            assert(dv0[i as int] == v@[i as int]@);
            assert(!str_lt(dv0[i as int], s@) && dv0[i as int] != s@);
            lemma_str_lt_total(dv0[i as int], s@);
            assert(str_lt(s@, dv0[i as int]));
        }
    }
    v.insert(i, s.clone());
    proof {
        let dv1 = v.deep_view();
        assert forall|j: int| 0 <= j < dv1.len() implies dv1[j] == (if j < i {
            dv0[j]
        } else if j == i {
            s@
        } else {
            dv0[j - 1]
        }) by {
            assert(dv1[j] == v@[j]@);
            if j < i {
                assert(v@[j] == old(v)@[j]);
                assert(dv0[j] == old(v)@[j]@);
            } else if j > i {
                assert(v@[j] == old(v)@[j - 1]);
                assert(dv0[j - 1] == old(v)@[j - 1]@);
            }
        }
        assert forall|p: int, q: int| 0 <= p < q < dv1.len() implies str_lt(
            #[trigger] dv1[p],
            #[trigger] dv1[q],
        ) by {
            if q < i {
                assert(str_lt(dv0[p], dv0[q]));
            } else if p > i {
                assert(str_lt(dv0[p - 1], dv0[q - 1]));
            } else if q == i {
                assert(str_lt(dv0[p], s@));
            } else if p == i {
                if q == i + 1 {
                    assert(str_lt(s@, dv0[i as int]));
                } else {
                    lemma_str_lt_trans(s@, dv0[i as int], dv0[q - 1]);
                }
            } else {
                assert(p < i && q > i);
                assert(str_lt(dv0[p], dv0[q - 1]));
            }
        }
        assert forall|x: Seq<char>| dv1.contains(x) implies (dv0.contains(x) || x == s@) by {
            let j = choose|j: int| 0 <= j < dv1.len() && dv1[j] == x;
            if j < i {
                assert(dv0[j] == x);
            } else if j > i {
                assert(dv0[j - 1] == x);
            }
        }
        assert forall|x: Seq<char>| dv0.contains(x) || x == s@ implies dv1.contains(x) by {
            if dv0.contains(x) {
                let j = choose|j: int| 0 <= j < dv0.len() && dv0[j] == x;
                if j < i {
                    assert(dv1[j] == x);
                } else {
                    assert(dv1[j + 1] == x);
                }
            } else {
                assert(dv1[i as int] == s@);
            }
        }
    }
}

/// The votes recorded per block hash: for each hash, the strictly ascending
/// list of peer identities that approved it.
#[derive(Debug)]
pub struct VoteStore {
    pub entries: Vec<(Hash256, Vec<String>)>,
}

impl View for VoteStore {
    type V = Seq<(Seq<u8>, Seq<Seq<char>>)>;

    open spec fn view(&self) -> Seq<(Seq<u8>, Seq<Seq<char>>)> {
        self.entries@.map(|i: int, e: (Hash256, Vec<String>)| (e.0@, e.1.deep_view()))
    }
}

/// The identities recorded for hash `h`: the first matching entry, or none.
pub open spec fn votes_for(v: Seq<(Seq<u8>, Seq<Seq<char>>)>, h: Seq<u8>) -> Seq<Seq<char>>
    decreases v.len(),
{
    if v.len() == 0 {
        Seq::empty()
    } else if v[0].0 == h {
        v[0].1
    } else {
        votes_for(v.drop_first(), h)
    }
}

/// A well-formed store: one entry per hash, each vote list strictly
/// ascending.
pub open spec fn votes_wf(v: Seq<(Seq<u8>, Seq<Seq<char>>)>) -> bool {
    &&& forall|i: int, j: int| 0 <= i < j < v.len() ==> (#[trigger] v[i]).0 != (#[trigger] v[j]).0
    &&& forall|i: int| 0 <= i < v.len() ==> strictly_sorted((#[trigger] v[i]).1)
}

/// The first matching entry is what `votes_for` returns.
proof fn lemma_votes_for_index(v: Seq<(Seq<u8>, Seq<Seq<char>>)>, h: Seq<u8>, i: int)
    requires
        0 <= i < v.len(),
        v[i].0 == h,
        forall|j: int| 0 <= j < i ==> (#[trigger] v[j]).0 != h,
    ensures
        votes_for(v, h) == v[i].1,
    decreases i,
{
    if i > 0 {
        assert forall|j: int| 0 <= j < i - 1 implies (#[trigger] v.drop_first()[j]).0 != h by {
            assert(v.drop_first()[j] == v[j + 1]);
        }
        assert(v.drop_first()[i - 1] == v[i]);
        lemma_votes_for_index(v.drop_first(), h, i - 1);
    }
}

/// A hash with no entry has no votes.
proof fn lemma_votes_for_absent(v: Seq<(Seq<u8>, Seq<Seq<char>>)>, h: Seq<u8>)
    requires
        forall|j: int| 0 <= j < v.len() ==> (#[trigger] v[j]).0 != h,
    ensures
        votes_for(v, h) == Seq::<Seq<char>>::empty(),
    decreases v.len(),
{
    if v.len() > 0 {
        assert forall|j: int| 0 <= j < v.drop_first().len() implies (#[trigger] v.drop_first()[j]).0
            != h by {
            assert(v.drop_first()[j] == v[j + 1]);
        }
        lemma_votes_for_absent(v.drop_first(), h);
    }
}

/// Replacing the list at one entry changes only that hash's votes.
proof fn lemma_votes_for_update(
    v: Seq<(Seq<u8>, Seq<Seq<char>>)>,
    i: int,
    val: Seq<Seq<char>>,
    h2: Seq<u8>,
)
    requires
        0 <= i < v.len(),
        forall|p: int, q: int| 0 <= p < q < v.len() ==> (#[trigger] v[p]).0 != (#[trigger] v[q]).0,
    ensures
        votes_for(v.update(i, (v[i].0, val)), h2) == (if v[i].0 == h2 {
            val
        } else {
            votes_for(v, h2)
        }),
    decreases v.len(),
{
    let w = v.update(i, (v[i].0, val));
    if i == 0 {
        if v[0].0 != h2 {
            assert(w.drop_first() =~= v.drop_first());
        }
    } else {
        assert(w[0] == v[0]);
        if v[0].0 == h2 {
            assert(v[i].0 != h2);
        } else {
            assert forall|p: int, q: int|
                0 <= p < q < v.drop_first().len() implies (#[trigger] v.drop_first()[p]).0 != (
            #[trigger] v.drop_first()[q]).0 by {
                assert(v.drop_first()[p] == v[p + 1] && v.drop_first()[q] == v[q + 1]);
            }
            assert(v.drop_first()[i - 1] == v[i]);
            lemma_votes_for_update(v.drop_first(), i - 1, val, h2);
            assert(w.drop_first() =~= v.drop_first().update(i - 1, (v[i].0, val)));
        }
    }
}

/// Appending an entry for a fresh hash changes only that hash's votes.
proof fn lemma_votes_for_push(
    v: Seq<(Seq<u8>, Seq<Seq<char>>)>,
    e: (Seq<u8>, Seq<Seq<char>>),
    h2: Seq<u8>,
)
    requires
        forall|j: int| 0 <= j < v.len() ==> (#[trigger] v[j]).0 != e.0,
    ensures
        votes_for(v.push(e), h2) == (if e.0 == h2 {
            e.1
        } else {
            votes_for(v, h2)
        }),
    decreases v.len(),
{
    if v.len() == 0 {
        assert(v.push(e)[0] == e);
        if e.0 != h2 {
            assert(v.push(e).drop_first() =~= Seq::<(Seq<u8>, Seq<Seq<char>>)>::empty());
            assert(votes_for(Seq::<(Seq<u8>, Seq<Seq<char>>)>::empty(), h2)
                == Seq::<Seq<char>>::empty());
        }
    } else {
        assert(v.push(e)[0] == v[0]);
        if v[0].0 != h2 {
            assert forall|j: int| 0 <= j < v.drop_first().len() implies (
            #[trigger] v.drop_first()[j]).0 != e.0 by {
                assert(v.drop_first()[j] == v[j + 1]);
            }
            lemma_votes_for_push(v.drop_first(), e, h2);
            assert(v.push(e).drop_first() =~= v.drop_first().push(e));
        } else {
            assert(v[0].0 != e.0);
        }
    }
}

/// Whatever hash is asked for, a well-formed store hands out a strictly
/// ascending vote list.
pub proof fn lemma_votes_for_sorted(v: Seq<(Seq<u8>, Seq<Seq<char>>)>, h: Seq<u8>)
    requires
        forall|i: int| 0 <= i < v.len() ==> strictly_sorted((#[trigger] v[i]).1),
    ensures
        strictly_sorted(votes_for(v, h)),
    decreases v.len(),
{
    if v.len() > 0 && v[0].0 != h {
        assert forall|i: int| 0 <= i < v.drop_first().len() implies strictly_sorted(
            (#[trigger] v.drop_first()[i]).1,
        ) by {
            assert(v.drop_first()[i] == v[i + 1]);
        }
        lemma_votes_for_sorted(v.drop_first(), h);
    }
}

/// How many of the recorded voters also stand in `sig`.
pub open spec fn count_matching(votes: Seq<Seq<char>>, sig: Seq<Seq<char>>) -> int
    decreases votes.len(),
{
    if votes.len() == 0 {
        0int
    } else {
        count_matching(votes.drop_last(), sig) + (if sig.contains(votes.last()) {
            1int
        } else {
            0int
        })
    }
}

/// When every recorded voter stands in `sig`, the count is the whole list.
pub proof fn lemma_count_matching_all(votes: Seq<Seq<char>>, sig: Seq<Seq<char>>)
    requires
        forall|x: Seq<char>| votes.contains(x) ==> sig.contains(x),
    ensures
        count_matching(votes, sig) == votes.len(),
    decreases votes.len(),
{
    if votes.len() > 0 {
        assert(sig.contains(votes.last())) by {
            assert(votes.contains(votes.last()));
        }
        assert forall|x: Seq<char>| votes.drop_last().contains(x) implies sig.contains(x) by {
            let j = choose|j: int| 0 <= j < votes.drop_last().len() && votes.drop_last()[j] == x;
            assert(votes[j] == x);
        }
        lemma_count_matching_all(votes.drop_last(), sig);
    }
}

impl VoteStore {
    /// An empty store.
    pub fn new() -> (r: VoteStore)
        ensures
            r@ =~= Seq::<(Seq<u8>, Seq<Seq<char>>)>::empty(),
            votes_wf(r@),
    {
        VoteStore { entries: Vec::new() }
    }

    /// The position of the entry for `h`, if one exists.
    fn find(&self, h: &Hash256) -> (r: Option<usize>)
        ensures
            match r {
                Some(i) => i < self@.len() && self@[i as int].0 == h@ && forall|j: int|
                    0 <= j < i ==> (#[trigger] self@[j]).0 != h@,
                None => forall|j: int| 0 <= j < self@.len() ==> (#[trigger] self@[j]).0 != h@,
            },
    {
        let mut i: usize = 0;
        while i < self.entries.len()
            invariant
                i <= self@.len(),
                self@.len() == self.entries@.len(),
                forall|j: int| 0 <= j < i ==> (#[trigger] self@[j]).0 != h@,
            decreases self@.len() - i,
        {
            proof {
                assert(self@[i as int].0 == self.entries@[i as int].0@);
            }
            if self.entries.get(i).unwrap().0 == *h {
                return Some(i);
            }
            i = i + 1;
        }
        None
    }

    /// Records that `peer` approved `h`: set insertion into that hash's
    /// votes, which every other hash keeps untouched.
    pub fn record(&mut self, h: &Hash256, peer: &String)
        requires
            votes_wf(old(self)@),
        ensures
            votes_wf(final(self)@),
            forall|x: Seq<char>|
                votes_for(final(self)@, h@).contains(x) <==> (votes_for(old(self)@, h@).contains(x)
                    || x == peer@),
            forall|h2: Seq<u8>| h2 != h@ ==> votes_for(final(self)@, h2) == votes_for(old(self)@, h2),
            votes_for(final(self)@, h@).len() <= votes_for(old(self)@, h@).len() + 1,
    {
        let ghost v0 = self@;
        match self.find(h) {
            Some(i) => {
                proof {
                    lemma_votes_for_index(v0, h@, i as int);
                }
                let entry = &mut self.entries[i];
                proof {
                    assert(v0[i as int].1 == old(self).entries@[i as int].1.deep_view());
                }
                sorted_insert(&mut entry.1, peer);
                proof {
                    let v1 = self@;
                    assert(self.entries@ =~= old(self).entries@.update(
                        i as int,
                        (old(self).entries@[i as int].0, self.entries@[i as int].1),
                    ));
                    assert(v1 =~= v0.update(i as int, (h@, self.entries@[i as int].1.deep_view())));
                    assert(v0[i as int].0 == h@);
                    assert forall|h2: Seq<u8>| true implies votes_for(v1, h2) == (if h@ == h2 {
                        self.entries@[i as int].1.deep_view()
                    } else {
                        votes_for(v0, h2)
                    }) by {
                        lemma_votes_for_update(
                            v0,
                            i as int,
                            self.entries@[i as int].1.deep_view(),
                            h2,
                        );
                    }
                    assert forall|k: int| 0 <= k < v1.len() implies strictly_sorted(
                        (#[trigger] v1[k]).1,
                    ) by {
                        if k != i {
                            assert(v1[k] == v0[k]);
                        }
                    }
                }
            },
            None => {
                proof {
                    lemma_votes_for_absent(v0, h@);
                }
                let mut fresh: Vec<String> = Vec::new();
                fresh.push(peer.clone());
                proof {
                    assert(fresh.deep_view() =~= seq![peer@]);
                }
                self.entries.push((h.clone(), fresh));
                proof {
                    let v1 = self@;
                    assert(v1 =~= v0.push((h@, seq![peer@])));
                    assert forall|h2: Seq<u8>| true implies votes_for(v1, h2) == (if h@ == h2 {
                        seq![peer@]
                    } else {
                        votes_for(v0, h2)
                    }) by {
                        lemma_votes_for_push(v0, (h@, seq![peer@]), h2);
                    }
                    assert forall|k: int| 0 <= k < v1.len() implies strictly_sorted(
                        (#[trigger] v1[k]).1,
                    ) by {
                        if k < v0.len() {
                            assert(v1[k] == v0[k]);
                        } else {
                            assert(v1[k].1 =~= seq![peer@]);
                        }
                    }
                    assert(votes_for(v1, h@) == seq![peer@]);
                    assert(votes_for(v1, h@).contains(peer@)) by {
                        assert(seq![peer@][0] == peer@);
                    }
                    assert forall|x: Seq<char>| votes_for(v1, h@).contains(x) implies x
                        == peer@ by {
                        let idx = choose|idx: int|
                            0 <= idx < seq![peer@].len() && seq![peer@][idx] == x;
                        assert(seq![peer@][idx] == peer@);
                    }
                }
            },
        }
    }

    /// How many identities are recorded for `h`.
    pub fn count(&self, h: &Hash256) -> (n: usize)
        ensures
            n == votes_for(self@, h@).len(),
    {
        match self.find(h) {
            Some(i) => {
                proof {
                    lemma_votes_for_index(self@, h@, i as int);
                    assert(self@[i as int].1 == self.entries@[i as int].1.deep_view());
                }
                self.entries.get(i).unwrap().1.len()
            },
            None => {
                proof {
                    lemma_votes_for_absent(self@, h@);
                }
                0
            },
        }
    }

    /// How many identities recorded for `h` also stand in `sig`.
    pub fn count_matching_in(&self, h: &Hash256, sig: &Vec<String>) -> (n: usize)
        ensures
            n == count_matching(votes_for(self@, h@), sig.deep_view()),
    {
        let i = match self.find(h) {
            Some(i) => i,
            None => {
                proof {
                    lemma_votes_for_absent(self@, h@);
                }
                return 0;
            },
        };
        proof {
            lemma_votes_for_index(self@, h@, i as int);
            assert(self@[i as int].1 == self.entries@[i as int].1.deep_view());
        }
        let list = &self.entries.get(i).unwrap().1;
        let ghost ldv = list.deep_view();
        let mut n: usize = 0;
        let mut k: usize = 0;
        while k < list.len()
            invariant
                k <= list@.len(),
                ldv == list.deep_view(),
                ldv.len() == list@.len(),
                n == count_matching(ldv.take(k as int), sig.deep_view()),
                n <= k,
            decreases list@.len() - k,
        {
            proof {
                assert(ldv.take(k + 1).drop_last() =~= ldv.take(k as int));
                assert(ldv.take(k + 1).last() == ldv[k as int]);
                assert(ldv[k as int] == list@[k as int]@);
            }
            if contains_str(sig, list.get(k).unwrap()) {
                n = n + 1;
            }
            k = k + 1;
        }
        proof {
            assert(ldv.take(ldv.len() as int) =~= ldv);
        }
        n
    }

    /// A copy of the identities recorded for `h`, in ascending order.
    pub fn votes_list(&self, h: &Hash256) -> (r: Vec<String>)
        ensures
            r.deep_view() == votes_for(self@, h@),
    {
        match self.find(h) {
            Some(i) => {
                proof {
                    lemma_votes_for_index(self@, h@, i as int);
                    assert(self@[i as int].1 == self.entries@[i as int].1.deep_view());
                }
                let r = crate::types::clone_string_vec(&self.entries.get(i).unwrap().1);
                r
            },
            None => {
                proof {
                    lemma_votes_for_absent(self@, h@);
                }
                let r: Vec<String> = Vec::new();
                proof {
                    assert(r.deep_view() =~= Seq::<Seq<char>>::empty());
                }
                r
            },
        }
    }
}

/// A strictly ascending vote list whose members all come from the peer list
/// is no longer than the peer list.
pub proof fn lemma_votes_subset_card(votes: Seq<Seq<char>>, peers: Seq<Seq<char>>)
    requires
        strictly_sorted(votes),
        forall|x: Seq<char>| votes.contains(x) ==> peers.contains(x),
    ensures
        votes.len() <= peers.len(),
{
    broadcast use vstd::seq_lib::seq_to_set_is_finite;

    lemma_strictly_sorted_no_duplicates(votes);
    votes.unique_seq_to_set();
    peers.lemma_cardinality_of_set();
    assert(votes.to_set().subset_of(peers.to_set())) by {
        assert forall|x: Seq<char>| votes.to_set().contains(x) implies peers.to_set().contains(
            x,
        ) by {
            assert(votes.contains(x));
            assert(peers.contains(x));
        }
    }
    vstd::set_lib::lemma_len_subset(votes.to_set(), peers.to_set());
}


} // verus!
