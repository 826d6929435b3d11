//! The token store: a mapping from session token to session.
//!
//! The store is the only mutable shared state in the core. Its mathematical
//! model is a [`Map`] from the token's text to the session it denotes; every
//! operation's contract is stated against that map. Inserting overwrites any
//! session already held under the same token text, looking up or removing an
//! absent token reports [`ErrorKind::InvalidToken`].

use vstd::prelude::*;

use crate::error::ErrorKind;
use crate::role::Role;
use crate::token::Token;

verus! {

broadcast use vstd::map::group_map_axioms, vstd::set::group_set_axioms, vstd::seq::group_seq_axioms;

/// The value a live token resolves to: who authenticated, with which role,
/// and when the token was issued. The role is the one fetched at
/// authentication time; later role changes are not observed by the session
/// until re-authentication.
#[derive(Copy, Clone, Eq, PartialEq, Structural, Debug)]
pub struct Session {
    /// The id of the authenticated user.
    pub user_id: u32,
    /// The role the user held when the token was issued.
    pub role: Role,
    /// Seconds since the Unix epoch at issue time.
    pub issued_at: i64,
}

/// A store of sessions keyed by token.
pub struct TokenStore {
    entries: Vec<(Token, Session)>,
}

/// No two entries carry the same token text.
spec fn keys_distinct(s: Seq<(Token, Session)>) -> bool {
    forall|i: int, j: int| 0 <= i < j < s.len() ==> s[i].0@ != s[j].0@
}

/// The mapping that a sequence of entries denotes; a later entry for the
/// same key overrides an earlier one.
spec fn map_of(s: Seq<(Token, Session)>) -> Map<Seq<char>, Session>
    decreases s.len(),
{
    if s.len() == 0 {
        Map::empty()
    } else {
        map_of(s.drop_last()).insert(s.last().0@, s.last().1)
    }
}

/// A key is in the mapping exactly when some entry carries it.
proof fn lemma_map_of_contains(s: Seq<(Token, Session)>, k: Seq<char>)
    ensures
        map_of(s).contains_key(k) <==> exists|i: int| 0 <= i < s.len() && s[i].0@ == k,
    decreases s.len(),
{
    if s.len() > 0 {
        lemma_map_of_contains(s.drop_last(), k);
        if s.last().0@ == k {
            assert(s[s.len() - 1].0@ == k);
        } else if map_of(s).contains_key(k) {
            let i = choose|i: int| 0 <= i < s.drop_last().len() && s.drop_last()[i].0@ == k;
            assert(s[i].0@ == k);
        } else if exists|i: int| 0 <= i < s.len() && s[i].0@ == k {
            let i = choose|i: int| 0 <= i < s.len() && s[i].0@ == k;
            assert(s.drop_last()[i].0@ == k);
        }
    }
}

/// With distinct keys, each entry's key resolves to that entry's session.
proof fn lemma_map_of_index(s: Seq<(Token, Session)>, i: int)
    requires
        keys_distinct(s),
        0 <= i < s.len(),
    ensures
        map_of(s).contains_key(s[i].0@),
        map_of(s)[s[i].0@] == s[i].1,
    decreases s.len(),
{
    if i == s.len() - 1 {
    } else {
        assert(keys_distinct(s.drop_last()));
        assert(s.drop_last()[i] == s[i]);
        lemma_map_of_index(s.drop_last(), i);
        assert(s[i].0@ != s.last().0@);
    }
}

/// With distinct keys, the mapping has exactly one element per entry.
proof fn lemma_map_of_dom(s: Seq<(Token, Session)>)
    requires
        keys_distinct(s),
    ensures
        map_of(s).dom().finite(),
        map_of(s).dom().len() == s.len(),
    decreases s.len(),
{
    if s.len() == 0 {
        assert(map_of(s).dom() =~= Set::<Seq<char>>::empty());
    } else {
        assert(keys_distinct(s.drop_last()));
        lemma_map_of_dom(s.drop_last());
        lemma_map_of_contains(s.drop_last(), s.last().0@);
        assert forall|i: int| 0 <= i < s.drop_last().len() implies s.drop_last()[i].0@
            != s.last().0@ by {
            assert(s.drop_last()[i] == s[i]);
        }
        assert(!map_of(s.drop_last()).contains_key(s.last().0@));
        assert(map_of(s).dom() =~= map_of(s.drop_last()).dom().insert(s.last().0@));
    }
}

/// Appending an entry inserts its key into the mapping.
proof fn lemma_map_of_push(s: Seq<(Token, Session)>, t: Seq<char>, sess: Session, e: (
    Token,
    Session,
))
    requires
        e.0@ == t,
        e.1 == sess,
    ensures
        map_of(s.push(e)) == map_of(s).insert(t, sess),
{
    assert(s.push(e).drop_last() =~= s);
    assert(s.push(e).last() == e);
}

/// Removing the entry at `i` removes its key from the mapping.
proof fn lemma_map_of_remove(s: Seq<(Token, Session)>, i: int)
    requires
        keys_distinct(s),
        0 <= i < s.len(),
    ensures
        map_of(s.remove(i)) =~= map_of(s).remove(s[i].0@),
    decreases s.len(),
{
    let k = s[i].0@;
    if i == s.len() - 1 {
        assert(s.remove(i) =~= s.drop_last());
        lemma_map_of_contains(s.drop_last(), k);
        assert forall|j: int| 0 <= j < s.drop_last().len() implies s.drop_last()[j].0@ != k by {
            assert(s.drop_last()[j] == s[j]);
        }
        assert(!map_of(s.drop_last()).contains_key(k));
        assert(map_of(s.drop_last()).insert(k, s.last().1).remove(k) =~= map_of(s.drop_last()));
    } else {
        let t = s.remove(i);
        assert(t.len() == s.len() - 1);
        assert(t.last() == s.last());
        assert(t.drop_last() =~= s.drop_last().remove(i));
        assert(keys_distinct(s.drop_last()));
        assert(s.drop_last()[i] == s[i]);
        lemma_map_of_remove(s.drop_last(), i);
        assert(s.last().0@ != k);
        assert(map_of(s.drop_last()).remove(k).insert(s.last().0@, s.last().1)
            =~= map_of(s.drop_last()).insert(s.last().0@, s.last().1).remove(k));
    }
}

/// Removing an entry keeps the remaining keys distinct.
proof fn lemma_distinct_remove(s: Seq<(Token, Session)>, i: int)
    requires
        keys_distinct(s),
        0 <= i < s.len(),
    ensures
        keys_distinct(s.remove(i)),
{
    assert forall|a: int, b: int|
        0 <= a < b < s.remove(i).len() implies s.remove(i)[a].0@ != s.remove(i)[b].0@ by {
        let a0 = if a < i {
            a
        } else {
            a + 1
        };
        let b0 = if b < i {
            b
        } else {
            b + 1
        };
        assert(s.remove(i)[a] == s[a0]);
        assert(s.remove(i)[b] == s[b0]);
    }
}

impl View for TokenStore {
    type V = Map<Seq<char>, Session>;

    closed spec fn view(&self) -> Map<Seq<char>, Session> {
        map_of(self.entries@)
    }
}

impl TokenStore {
    /// The store's internal entries never repeat a token text, so the
    /// entries and the map they denote are in one-to-one correspondence.
    pub closed spec fn wf(self) -> bool {
        keys_distinct(self.entries@)
    }

    /// An empty store.
    pub fn new() -> (s: TokenStore)
        ensures
            s.wf(),
            s@ == Map::<Seq<char>, Session>::empty(),
    {
        TokenStore { entries: Vec::new() }
    }

    /// The index of the entry carrying this token's text, if any.
    fn find_index(&self, token: &Token) -> (r: Option<usize>)
        ensures
            match r {
                Some(i) => 0 <= i < self.entries@.len() && self.entries@[i as int].0@ == token@,
                None => forall|j: int| 0 <= j < self.entries@.len() ==> self.entries@[j].0@
                    != token@,
            },
    {
        let n = self.entries.len();
        let mut i: usize = 0;
        while i < n
            invariant
                n == self.entries@.len(),
                0 <= i <= n,
                forall|j: int| 0 <= j < i ==> self.entries@[j].0@ != token@,
            decreases n - i,
        {
            if self.entries[i].0.same_as(token) {
                return Some(i);
            }
            i += 1;
        }
        None
    }

    /// Record `session` under `token`. Always succeeds; a session already
    /// held under the same token text is overwritten.
    pub fn insert(&mut self, token: Token, session: Session)
        requires
            old(self).wf(),
        ensures
            final(self).wf(),
            final(self)@ == old(self)@.insert(token@, session),
    {
        let found = self.find_index(&token);
        let ghost pre = self.entries@;
        match found {
            Some(i) => {
                proof {
                    lemma_map_of_remove(pre, i as int);
                    lemma_distinct_remove(pre, i as int);
                }
                self.entries.remove(i);
                proof {
                    assert forall|j: int|
                        0 <= j < self.entries@.len() implies self.entries@[j].0@ != token@ by {
                        let j0 = if j < i as int {
                            j
                        } else {
                            j + 1
                        };
                        assert(self.entries@[j] == pre[j0]);
                    }
                }
            },
            None => {},
        }
        let ghost mid = self.entries@;
        proof {
            lemma_map_of_push(mid, token@, session, (token, session));
        }
        self.entries.push((token, session));
        proof {
            assert forall|a: int, b: int|
                0 <= a < b < self.entries@.len() implies self.entries@[a].0@
                != self.entries@[b].0@ by {
                if b < mid.len() {
                    assert(self.entries@[a] == mid[a]);
                    assert(self.entries@[b] == mid[b]);
                } else {
                    assert(self.entries@[a] == mid[a]);
                    assert(self.entries@[b].0@ == token@);
                }
            }
            if found is Some {
                assert(map_of(mid) =~= old(self)@.remove(token@));
                assert(old(self)@.remove(token@).insert(token@, session) =~= old(self)@.insert(
                    token@,
                    session,
                ));
            } else {
                assert(mid =~= pre);
            }
            assert(final(self)@ =~= old(self)@.insert(token@, session));
        }
    }

    /// The session a token resolves to, or `InvalidToken` if none does.
    pub fn lookup(&self, token: &Token) -> (r: Result<Session, ErrorKind>)
        requires
            self.wf(),
        ensures
            match r {
                Ok(s) => self@.contains_key(token@) && s == self@[token@],
                Err(e) => e == ErrorKind::InvalidToken && !self@.contains_key(token@),
            },
    {
        match self.find_index(token) {
            Some(i) => {
                proof {
                    lemma_map_of_index(self.entries@, i as int);
                }
                Ok(self.entries[i].1)
            },
            None => {
                proof {
                    lemma_map_of_contains(self.entries@, token@);
                }
                Err(ErrorKind::InvalidToken)
            },
        }
    }

    /// Drop the session a token resolves to; removing an absent token is
    /// reported as `InvalidToken`, not silently ignored.
    pub fn remove(&mut self, token: &Token) -> (r: Result<(), ErrorKind>)
        requires
            old(self).wf(),
        ensures
            final(self).wf(),
            match r {
                Ok(()) => old(self)@.contains_key(token@) && final(self)@ == old(self)@.remove(
                    token@,
                ),
                Err(e) => e == ErrorKind::InvalidToken && !old(self)@.contains_key(token@)
                    && *final(self) == *old(self),
            },
    {
        let ghost pre = self.entries@;
        match self.find_index(token) {
            Some(i) => {
                proof {
                    lemma_map_of_contains(pre, token@);
                    lemma_map_of_remove(pre, i as int);
                    lemma_distinct_remove(pre, i as int);
                }
                self.entries.remove(i);
                proof {
                    assert(final(self)@ =~= old(self)@.remove(token@));
                }
                Ok(())
            },
            None => {
                proof {
                    lemma_map_of_contains(pre, token@);
                }
                Err(ErrorKind::InvalidToken)
            },
        }
    }

    /// How many live sessions the store holds.
    pub fn len(&self) -> (n: usize)
        requires
            self.wf(),
        ensures
            n == self@.dom().len(),
    {
        proof {
            lemma_map_of_dom(self.entries@);
        }
        self.entries.len()
    }
}

/// The domain of a well-formed store's map is finite, so counting arguments
/// (such as one entry per successful authentication) are meaningful.
pub proof fn lemma_store_dom_finite(s: TokenStore)
    requires
        s.wf(),
    ensures
        s@.dom().finite(),
{
    lemma_map_of_dom(s.entries@);
}

} // verus!
