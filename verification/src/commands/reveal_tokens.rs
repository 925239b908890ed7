//! One-use tokens for revealing a password: the password is handed over
//! once, in exchange for a token, and then forgotten.
use vstd::prelude::*;
use crate::commands::ids::new_uuid_string;
use crate::error::{is_rng_error, CypheriaError};
use crate::text::{clone_string, str_eq};

verus! {

/// Passwords waiting to be revealed, by token. No token occurs twice.
pub struct RevealStore(pub Vec<(String, String)>);

/// The map from token to password that a list of pairs stands for.
pub open spec fn pair_map(pairs: Seq<(String, String)>) -> Map<Seq<char>, Seq<char>> {
    Map::new(
        |t: Seq<char>| exists|i: int| 0 <= i < pairs.len() && (#[trigger] pairs[i]).0@ == t,
        |t: Seq<char>| pairs[choose|i: int| 0 <= i < pairs.len() && (#[trigger] pairs[i]).0@ == t].1@,
    )
}

/// No token occurs twice in the list.
pub open spec fn unique_tokens(pairs: Seq<(String, String)>) -> bool {
    forall|i: int, j: int| 0 <= i < j < pairs.len() ==> (#[trigger] pairs[i]).0@ != (#[trigger] pairs[j]).0@
}

proof fn lemma_pair_map_value(pairs: Seq<(String, String)>, k: int)
    requires
        unique_tokens(pairs),
        0 <= k < pairs.len(),
    ensures
        pair_map(pairs).contains_key(pairs[k].0@),
        pair_map(pairs)[pairs[k].0@] == pairs[k].1@,
{
    let t = pairs[k].0@;
    assert(pair_map(pairs).contains_key(t));
    let c = choose|i: int| 0 <= i < pairs.len() && (#[trigger] pairs[i]).0@ == t;
    if c != k {
        if c < k {
            assert(pairs[c].0@ != pairs[k].0@);
        } else {
            assert(pairs[k].0@ != pairs[c].0@);
        }
    }
}

proof fn lemma_pair_map_push(pairs: Seq<(String, String)>, p: (String, String))
    requires
        unique_tokens(pairs),
        forall|k: int| 0 <= k < pairs.len() ==> (#[trigger] pairs[k]).0@ != p.0@,
    ensures
        unique_tokens(pairs.push(p)),
        pair_map(pairs.push(p)) == pair_map(pairs).insert(p.0@, p.1@),
{
    let s2 = pairs.push(p);
    assert forall|a: int, b: int| 0 <= a < b < s2.len() implies (#[trigger] s2[a]).0@ != (#[trigger] s2[b]).0@ by {
        assert(s2[a] == pairs[a]);
        if b < pairs.len() {
            assert(s2[b] == pairs[b]);
        }
    }
    let m = pair_map(pairs).insert(p.0@, p.1@);
    assert forall|t: Seq<char>| #[trigger] pair_map(s2).contains_key(t) <==> m.contains_key(t) by {
        if t == p.0@ {
            assert(s2[pairs.len() as int].0@ == t);
        } else {
            if m.contains_key(t) {
                let k = choose|k: int| 0 <= k < pairs.len() && (#[trigger] pairs[k]).0@ == t;
                assert(s2[k] == pairs[k]);
            }
            if pair_map(s2).contains_key(t) {
                let k = choose|k: int| 0 <= k < s2.len() && (#[trigger] s2[k]).0@ == t;
                assert(k < pairs.len());
                assert(s2[k] == pairs[k]);
            }
        }
    }
    assert forall|t: Seq<char>| #[trigger] pair_map(s2).contains_key(t) implies pair_map(s2)[t] == m[t] by {
        if t == p.0@ {
            lemma_pair_map_value(s2, pairs.len() as int);
        } else {
            let k = choose|k: int| 0 <= k < s2.len() && (#[trigger] s2[k]).0@ == t;
            assert(k < pairs.len());
            assert(s2[k] == pairs[k]);
            lemma_pair_map_value(s2, k);
            lemma_pair_map_value(pairs, k);
        }
    }
    assert(pair_map(s2) =~= m);
}

proof fn lemma_pair_map_set(pairs: Seq<(String, String)>, i: int, p: (String, String))
    requires
        unique_tokens(pairs),
        0 <= i < pairs.len(),
        pairs[i].0@ == p.0@,
    ensures
        unique_tokens(pairs.update(i, p)),
        pair_map(pairs.update(i, p)) == pair_map(pairs).insert(p.0@, p.1@),
{
    let s2 = pairs.update(i, p);
    assert forall|a: int, b: int| 0 <= a < b < s2.len() implies (#[trigger] s2[a]).0@ != (#[trigger] s2[b]).0@ by {
        assert(pairs[a].0@ != pairs[b].0@);
    }
    let m = pair_map(pairs).insert(p.0@, p.1@);
    assert forall|t: Seq<char>| #[trigger] pair_map(s2).contains_key(t) <==> m.contains_key(t) by {
        if t == p.0@ {
            assert(s2[i].0@ == t);
        } else {
            if m.contains_key(t) {
                let k = choose|k: int| 0 <= k < pairs.len() && (#[trigger] pairs[k]).0@ == t;
                assert(s2[k] == pairs[k]);
            }
            if pair_map(s2).contains_key(t) {
                let k = choose|k: int| 0 <= k < s2.len() && (#[trigger] s2[k]).0@ == t;
                assert(s2[k] == pairs[k]);
            }
        }
    }
    assert forall|t: Seq<char>| #[trigger] pair_map(s2).contains_key(t) implies pair_map(s2)[t] == m[t] by {
        if t == p.0@ {
            lemma_pair_map_value(s2, i);
        } else {
            let k = choose|k: int| 0 <= k < s2.len() && (#[trigger] s2[k]).0@ == t;
            assert(s2[k] == pairs[k]);
            lemma_pair_map_value(s2, k);
            lemma_pair_map_value(pairs, k);
        }
    }
    assert(pair_map(s2) =~= m);
}

proof fn lemma_pair_map_remove(pairs: Seq<(String, String)>, i: int)
    requires
        unique_tokens(pairs),
        0 <= i < pairs.len(),
    ensures
        unique_tokens(pairs.remove(i)),
        pair_map(pairs.remove(i)) == pair_map(pairs).remove(pairs[i].0@),
{
    let s2 = pairs.remove(i);
    assert forall|a: int, b: int| 0 <= a < b < s2.len() implies (#[trigger] s2[a]).0@ != (#[trigger] s2[b]).0@ by {
        let a0 = if a < i { a } else { a + 1 };
        let b0 = if b < i { b } else { b + 1 };
        assert(s2[a] == pairs[a0]);
        assert(s2[b] == pairs[b0]);
        assert(pairs[a0].0@ != pairs[b0].0@);
    }
    let m = pair_map(pairs).remove(pairs[i].0@);
    assert forall|t: Seq<char>| #[trigger] pair_map(s2).contains_key(t) <==> m.contains_key(t) by {
        if m.contains_key(t) {
            let k = choose|k: int| 0 <= k < pairs.len() && (#[trigger] pairs[k]).0@ == t;
            assert(k != i);
            let k1 = if k < i { k } else { k - 1 };
            assert(s2[k1] == pairs[k]);
        }
        if pair_map(s2).contains_key(t) {
            let k = choose|k: int| 0 <= k < s2.len() && (#[trigger] s2[k]).0@ == t;
            let k0 = if k < i { k } else { k + 1 };
            assert(s2[k] == pairs[k0]);
            if k0 < i {
                assert(pairs[k0].0@ != pairs[i].0@);
            } else {
                assert(pairs[i].0@ != pairs[k0].0@);
            }
        }
    }
    assert forall|t: Seq<char>| #[trigger] pair_map(s2).contains_key(t) implies pair_map(s2)[t] == m[t] by {
        let k = choose|k: int| 0 <= k < s2.len() && (#[trigger] s2[k]).0@ == t;
        let k0 = if k < i { k } else { k + 1 };
        assert(s2[k] == pairs[k0]);
        lemma_pair_map_value(s2, k);
        lemma_pair_map_value(pairs, k0);
    }
    assert(pair_map(s2) =~= m);
}

impl RevealStore {
    /// The password waiting under each token.
    pub open spec fn contents(&self) -> Map<Seq<char>, Seq<char>> {
        pair_map(self.0@)
    }

    /// No token occurs twice.
    pub open spec fn wf(&self) -> bool {
        unique_tokens(self.0@)
    }

    pub fn new() -> (s: Self)
        ensures
            s.wf(),
            s.contents() == Map::<Seq<char>, Seq<char>>::empty(),
    {
        let s = RevealStore(Vec::new());
        assert(s.contents() =~= Map::<Seq<char>, Seq<char>>::empty());
        s
    }

    fn position(&self, token: &str) -> (r: Option<usize>)
        ensures
            r matches Some(i) ==> i < self.0@.len() && self.0@[i as int].0@ == token@,
            r is None ==> forall|i: int| 0 <= i < self.0@.len() ==> (#[trigger] self.0@[i]).0@ != token@,
    {
        let n = self.0.len();
        for i in 0..n
            invariant
                n == self.0@.len(),
                forall|j: int| 0 <= j < i ==> (#[trigger] self.0@[j]).0@ != token@,
        {
            if str_eq(self.0[i].0.as_str(), token) {
                return Some(i);
            }
        }
        None
    }

    /// Stores `password` under a fresh random token and returns the token.
    /// A token that is already in use has its password replaced. When the
    /// operating system cannot supply random bytes for a token, nothing is
    /// stored and the random-source error is returned.
    pub fn store(&mut self, password: String) -> (r: Result<String, CypheriaError>)
        requires
            old(self).wf(),
        ensures
            final(self).wf(),
            r matches Ok(token) ==> final(self).contents() == old(self).contents().insert(token@, password@),
            r matches Err(e) ==> is_rng_error(e) && final(self).contents() == old(self).contents(),
    {
        let token = new_uuid_string()?;
        let ghost before = self.0@;
        let pair = (clone_string(&token), password);
        match self.position(token.as_str()) {
            Some(i) => {
                proof {
                    lemma_pair_map_set(before, i as int, pair);
                }
                self.0.set(i, pair);
            },
            None => {
                proof {
                    lemma_pair_map_push(before, pair);
                }
                self.0.push(pair);
            },
        }
        Ok(token)
    }

    /// Hands out the password stored under `token` and forgets it; nothing
    /// for an unknown or already used token.
    pub fn consume(&mut self, token: &str) -> (r: Option<String>)
        requires
            old(self).wf(),
        ensures
            final(self).wf(),
            match old(self).contents().get(token@) {
                Some(p) => r matches Some(s) && s@ == p,
                None => r is None,
            },
            final(self).contents() == old(self).contents().remove(token@),
    {
        let ghost before = self.0@;
        match self.position(token) {
            Some(i) => {
                proof {
                    lemma_pair_map_remove(before, i as int);
                    lemma_pair_map_value(before, i as int);
                }
                let (_t, password) = self.0.remove(i);
                Some(password)
            },
            None => {
                proof {
                    assert(!old(self).contents().contains_key(token@));
                    assert(old(self).contents().remove(token@) =~= old(self).contents());
                }
                None
            },
        }
    }
}

impl Default for RevealStore {
    fn default() -> (s: Self)
        ensures
            s.wf(),
            s.contents() == Map::<Seq<char>, Seq<char>>::empty(),
    {
        Self::new()
    }
}

/// A token hands out its password once: consuming a token that `store`
/// just returned gives the stored password, and consuming it again gives
/// nothing.
pub proof fn lemma_token_single_use(
    before: Map<Seq<char>, Seq<char>>,
    token: Seq<char>,
    password: Seq<char>,
)
    ensures
        before.insert(token, password).get(token) == Some(password),
        before.insert(token, password).remove(token).get(token) is None,
{
}

} // verus!
