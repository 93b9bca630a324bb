//! The configured tokens and the exchanges that list each.
use vstd::prelude::*;

use crate::text::{eq_ignore_ascii_case, same_ignoring_ascii_case, same_text, upper_of, uppercase};

verus! {

/// Exchanges that list a token.
#[derive(Debug, Clone)]
pub struct TokenExchanges {
    pub exchanges: Vec<String>,
}

/// The configured tokens, by name, in the order they were added.
#[derive(Debug)]
pub struct TokensConfig {
    tokens: Vec<(String, TokenExchanges)>,
}

/// Whether a configured name matches `t` without regard to ASCII case.
pub open spec fn loosely_named(s: Seq<(String, TokenExchanges)>, i: int, t: Seq<char>) -> bool {
    same_ignoring_ascii_case(s[i].0@, t)
}

/// Whether some configured name is exactly `t`.
pub open spec fn has_exact(s: Seq<(String, TokenExchanges)>, t: Seq<char>) -> bool {
    exists|i: int| 0 <= i < s.len() && #[trigger] s[i].0@ == t
}

/// The position `get_exchanges` answers from for `t`: the exact name if there
/// is one, else the first name equal to `t` without regard to ASCII case.
pub open spec fn answers_at(s: Seq<(String, TokenExchanges)>, t: Seq<char>, i: int) -> bool {
    &&& 0 <= i < s.len()
    &&& if has_exact(s, t) {
        s[i].0@ == t
    } else {
        loosely_named(s, i, t) && forall|j: int| 0 <= j < i ==> !loosely_named(s, j, t)
    }
}

proof fn lemma_exact_is_loose(t: Seq<char>)
    ensures
        same_ignoring_ascii_case(t, t),
{
}

impl TokensConfig {
    /// The configured tokens with their exchanges, in order.
    pub closed spec fn entries(&self) -> Seq<(String, TokenExchanges)> {
        self.tokens@
    }

    /// Names are distinct.
    pub open spec fn wf(&self) -> bool {
        forall|i: int, j: int|
            0 <= i < self.entries().len() && 0 <= j < self.entries().len() && i != j
                ==> #[trigger] self.entries()[i].0@ != #[trigger] self.entries()[j].0@
    }

    /// No tokens configured.
    pub fn new() -> (r: Self)
        ensures
            r.wf(),
            r.entries().len() == 0,
    {
        TokensConfig { tokens: Vec::new() }
    }

    /// Configures `name` with `exchanges`, replacing an entry of the same name
    /// in place, or adding one at the end.
    pub fn insert(&mut self, name: String, exchanges: TokenExchanges)
        requires
            old(self).wf(),
        ensures
            final(self).wf(),
            has_exact(old(self).entries(), name@) ==> exists|i: int|
                0 <= i < old(self).entries().len() && old(self).entries()[i].0@ == name@
                    && final(self).entries() == old(self).entries().update(i, (final(self).entries()[i].0, exchanges)),
            !has_exact(old(self).entries(), name@) ==> final(self).entries() == old(self).entries().push(
                (name, exchanges),
            ),
    {
        let mut i: usize = 0;
        while i < self.tokens.len()
            invariant
                self.tokens@ == old(self).entries(),
                old(self).wf(),
                i <= self.tokens@.len(),
                forall|j: int| 0 <= j < i ==> self.tokens@[j].0@ != name@,
            decreases self.tokens@.len() - i,
        {
            if same_text(self.tokens[i].0.as_str(), name.as_str()) {
                let n = self.tokens[i].0.clone();
                let ghost before = self.tokens@;
                self.tokens.set(i, (n, exchanges));
                proof {
                    assert(before[i as int].0@ == name@);
                    assert(self.tokens@ == before.update(i as int, (self.tokens@[i as int].0, exchanges)));
                    assert forall|a: int, b: int|
                        0 <= a < self.tokens@.len() && 0 <= b < self.tokens@.len() && a != b
                            implies #[trigger] self.tokens@[a].0@ != #[trigger] self.tokens@[b].0@ by {
                        assert(self.tokens@[a].0@ == before[a].0@);
                        assert(self.tokens@[b].0@ == before[b].0@);
                    }
                }
                return;
            }
            i = i + 1;
        }
        self.tokens.push((name, exchanges));
    }

    /// All configured token names, in order.
    pub fn get_tokens(&self) -> (r: Vec<String>)
        ensures
            r@.len() == self.entries().len(),
            forall|i: int| 0 <= i < r@.len() ==> #[trigger] r@[i]@ == self.entries()[i].0@,
    {
        let mut r: Vec<String> = Vec::new();
        let mut i: usize = 0;
        while i < self.tokens.len()
            invariant
                i <= self.tokens@.len(),
                r@.len() == i,
                forall|j: int| 0 <= j < i ==> #[trigger] r@[j]@ == self.tokens@[j].0@,
            decreases self.tokens@.len() - i,
        {
            r.push(self.tokens[i].0.clone());
            i = i + 1;
        }
        r
    }

    /// The ticker used in remote calls for `token`: the token in upper case.
    pub fn get_ticker(token: &str) -> (r: String)
        ensures
            r@ == upper_of(token@),
    {
        uppercase(token)
    }

    /// The exchanges of `token`: those of the entry named exactly `token` if
    /// there is one, else those of the first entry whose name equals it without
    /// regard to ASCII case; `None` when no name matches either way.
    pub fn get_exchanges(&self, token: &str) -> (r: Option<&Vec<String>>)
        requires
            self.wf(),
        ensures
            match r {
                Some(v) => exists|i: int| answers_at(self.entries(), token@, i) && *v == self.entries()[i].1.exchanges,
                None => forall|i: int| 0 <= i < self.entries().len() ==> !loosely_named(self.entries(), i, token@),
            },
    {
        let mut i: usize = 0;
        while i < self.tokens.len()
            invariant
                i <= self.tokens@.len(),
                forall|j: int| 0 <= j < i ==> self.tokens@[j].0@ != token@,
            decreases self.tokens@.len() - i,
        {
            if same_text(self.tokens[i].0.as_str(), token) {
                proof {
                    assert(self.entries()[i as int].0@ == token@);
                    assert(has_exact(self.entries(), token@));
                    assert(answers_at(self.entries(), token@, i as int));
                }
                return Some(&self.tokens[i].1.exchanges);
            }
            i = i + 1;
        }
        assert(!has_exact(self.entries(), token@));
        let mut k: usize = 0;
        while k < self.tokens.len()
            invariant
                k <= self.tokens@.len(),
                !has_exact(self.entries(), token@),
                forall|j: int| 0 <= j < k ==> !loosely_named(self.tokens@, j, token@),
            decreases self.tokens@.len() - k,
        {
            if eq_ignore_ascii_case(self.tokens[k].0.as_str(), token) {
                assert(answers_at(self.entries(), token@, k as int));
                return Some(&self.tokens[k].1.exchanges);
            }
            k = k + 1;
        }
        None
    }

    /// Whether some configured name equals `token`, exactly or without regard
    /// to ASCII case.
    pub fn has_token(&self, token: &str) -> (r: bool)
        ensures
            r == exists|i: int| 0 <= i < self.entries().len() && loosely_named(self.entries(), i, token@),
    {
        let mut k: usize = 0;
        while k < self.tokens.len()
            invariant
                k <= self.tokens@.len(),
                forall|j: int| 0 <= j < k ==> !loosely_named(self.tokens@, j, token@),
            decreases self.tokens@.len() - k,
        {
            if same_text(self.tokens[k].0.as_str(), token) || eq_ignore_ascii_case(self.tokens[k].0.as_str(), token) {
                proof {
                    lemma_exact_is_loose(token@);
                }
                assert(loosely_named(self.entries(), k as int, token@));
                return true;
            }
            k = k + 1;
        }
        false
    }
}

} // verus!
