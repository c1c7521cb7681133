//! A named collection of credentials with a selection policy.

use vstd::prelude::*;
use rand::seq::SliceRandom;
use crate::services::token::models::{TokenInfo, TokenInfoView, TokenStatus};
use crate::text::strings_view;

verus! {

/// The values of a list of credentials.
pub open spec fn tokens_view(s: Seq<TokenInfo>) -> Seq<TokenInfoView> {
    Seq::new(s.len(), |i: int| s[i]@)
}

/// Whether some credential of the list has the given secret.
pub open spec fn spec_has_token(tokens: Seq<TokenInfoView>, token: Seq<char>) -> bool {
    exists|i: int| 0 <= i < tokens.len() && tokens[i].token == token
}

/// Whether `i` is the position of the first credential with the given secret.
pub open spec fn spec_first_match(tokens: Seq<TokenInfoView>, token: Seq<char>, i: int) -> bool {
    &&& 0 <= i < tokens.len()
    &&& tokens[i].token == token
    &&& forall|j: int| 0 <= j < i ==> tokens[j].token != token
}

/// Whether no two credentials of the list have the same secret.
pub open spec fn spec_unique(tokens: Seq<TokenInfoView>) -> bool {
    forall|i: int, j: int| 0 <= i < j < tokens.len() ==> tokens[i].token != tokens[j].token
}

/// The list with one more credential, unless one with its secret is there
/// already: then the list stays as it is.
pub open spec fn spec_add(tokens: Seq<TokenInfoView>, token: TokenInfoView) -> Seq<TokenInfoView> {
    if spec_has_token(tokens, token.token) {
        tokens
    } else {
        tokens.push(token)
    }
}

/// Adding a credential keeps the secrets of a list apart.
pub proof fn lemma_add_unique(tokens: Seq<TokenInfoView>, token: TokenInfoView)
    requires
        spec_unique(tokens),
    ensures
        spec_unique(spec_add(tokens, token)),
        spec_has_token(spec_add(tokens, token), token.token),
{
    let after = spec_add(tokens, token);
    if !spec_has_token(tokens, token.token) {
        assert(after[tokens.len() as int].token == token.token);
        assert forall|i: int, j: int| 0 <= i < j < after.len() implies after[i].token
            != after[j].token by {
            assert(after[i] == tokens[i]);
            if j < tokens.len() {
                assert(after[j] == tokens[j]);
            }
        }
    }
}

/// In a list that holds each secret once, a credential with a given
/// secret is the first with it, and the only one.
pub proof fn lemma_unique_match(tokens: Seq<TokenInfoView>, token: Seq<char>, i: int)
    requires
        spec_unique(tokens),
        0 <= i < tokens.len(),
        tokens[i].token == token,
    ensures
        spec_first_match(tokens, token, i),
        forall|j: int| 0 <= j < tokens.len() && tokens[j].token == token ==> j == i,
{
}

/// What is left of a list that holds each secret once, when some of its
/// credentials are taken out, holds each secret once, and holds no
/// credential that the list did not hold.
pub proof fn lemma_filter_unique(tokens: Seq<TokenInfoView>, keep: spec_fn(TokenInfoView) -> bool)
    requires
        spec_unique(tokens),
    ensures
        spec_unique(tokens.filter(keep)),
        forall|k: int|
            0 <= k < tokens.filter(keep).len() ==> spec_has_token(
                tokens,
                #[trigger] tokens.filter(keep)[k].token,
            ),
    decreases tokens.len(),
{
    reveal(Seq::filter);
    if tokens.len() > 0 {
        let shorter = tokens.drop_last();
        let rest = shorter.filter(keep);
        assert forall|i: int, j: int| 0 <= i < j < shorter.len() implies shorter[i].token
            != shorter[j].token by {
            assert(shorter[i] == tokens[i] && shorter[j] == tokens[j]);
        }
        lemma_filter_unique(shorter, keep);
        let after = tokens.filter(keep);
        assert forall|k: int| 0 <= k < rest.len() implies spec_has_token(
            tokens,
            #[trigger] rest[k].token,
        ) by {
            assert(spec_has_token(shorter, rest[k].token));
            let w = choose|w: int| 0 <= w < shorter.len() && shorter[w].token == rest[k].token;
            assert(tokens[w].token == rest[k].token);
        }
        if keep(tokens.last()) {
            assert(after == rest.push(tokens.last()));
            assert(tokens[tokens.len() - 1].token == tokens.last().token);
            assert forall|i: int, j: int| 0 <= i < j < after.len() implies after[i].token
                != after[j].token by {
                if j < rest.len() {
                    assert(after[i] == rest[i] && after[j] == rest[j]);
                } else {
                    assert(after[i] == rest[i]);
                    assert(spec_has_token(shorter, rest[i].token));
                    let w = choose|w: int| 0 <= w < shorter.len() && shorter[w].token
                        == rest[i].token;
                    assert(tokens[w].token != tokens[tokens.len() - 1].token);
                }
            }
            assert forall|k: int| 0 <= k < after.len() implies spec_has_token(
                tokens,
                #[trigger] after[k].token,
            ) by {
                if k < rest.len() {
                    assert(after[k] == rest[k]);
                }
            }
        } else {
            assert(after == rest);
        }
    }
}

/// The test that keeps every credential but those with the given secret.
pub open spec fn spec_other_than(token: Seq<char>) -> spec_fn(TokenInfoView) -> bool {
    |t: TokenInfoView| t.token != token
}

/// Whether `i` is the position of a credential that selection may return:
/// available, and with no available credential holding more quota.
pub open spec fn spec_selectable(tokens: Seq<TokenInfoView>, i: int) -> bool {
    &&& 0 <= i < tokens.len()
    &&& tokens[i].is_available()
    &&& forall|j: int| 0 <= j < tokens.len() && tokens[j].is_available() ==> tokens[j].quota
        <= tokens[i].quota
}

/// Whether some credential of the list is available.
pub open spec fn spec_any_available(tokens: Seq<TokenInfoView>) -> bool {
    exists|i: int| 0 <= i < tokens.len() && tokens[i].is_available()
}

/// Number of credentials of the list in the given status.
pub open spec fn spec_count_status(tokens: Seq<TokenInfoView>, status: TokenStatus) -> nat
    decreases tokens.len(),
{
    if tokens.len() == 0 {
        0
    } else {
        spec_count_status(tokens.drop_last(), status) + if tokens.last().status == status {
            1nat
        } else {
            0nat
        }
    }
}

/// Sum of the quotas of the list.
pub open spec fn spec_total_quota(tokens: Seq<TokenInfoView>) -> int
    decreases tokens.len(),
{
    if tokens.len() == 0 {
        0
    } else {
        spec_total_quota(tokens.drop_last()) + tokens.last().quota
    }
}

/// The secrets of the credentials for which a quota query is due at `now`, in order.
pub open spec fn spec_due_tokens(
    tokens: Seq<TokenInfoView>,
    interval_hours: int,
    now: int,
) -> Seq<Seq<char>>
    decreases tokens.len(),
{
    if tokens.len() == 0 {
        Seq::empty()
    } else {
        let rest = spec_due_tokens(tokens.drop_last(), interval_hours, now);
        if tokens.last().need_refresh(interval_hours, now) {
            rest.push(tokens.last().token)
        } else {
            rest
        }
    }
}

/// The list after a reset of every credential.
pub open spec fn spec_reset_all(tokens: Seq<TokenInfoView>) -> Seq<TokenInfoView> {
    Seq::new(tokens.len(), |i: int| tokens[i].reset())
}

/// Whether the figures are those of the list.
pub open spec fn spec_stats_of(stats: TokenPoolStats, tokens: Seq<TokenInfoView>) -> bool {
    &&& stats.total == tokens.len()
    &&& stats.active == spec_count_status(tokens, TokenStatus::Active)
    &&& stats.disabled == spec_count_status(tokens, TokenStatus::Disabled)
    &&& stats.expired == spec_count_status(tokens, TokenStatus::Expired)
    &&& stats.cooling == spec_count_status(tokens, TokenStatus::Cooling)
    &&& stats.total_quota == spec_total_quota(tokens)
}

/// Aggregate figures of a pool.
#[derive(Debug, Clone, Copy, PartialEq, Eq, Structural)]
pub struct TokenPoolStats {
    pub total: usize,
    pub active: usize,
    pub disabled: usize,
    pub expired: usize,
    pub cooling: usize,
    pub total_quota: i128,
}

impl Default for TokenPoolStats {
    fn default() -> (r: Self)
        ensures
            r == (TokenPoolStats {
                total: 0,
                active: 0,
                disabled: 0,
                expired: 0,
                cooling: 0,
                total_quota: 0,
            }),
    {
        TokenPoolStats { total: 0, active: 0, disabled: 0, expired: 0, cooling: 0, total_quota: 0 }
    }
}

/// A named collection of credentials, each secret held once.
#[derive(Debug)]
pub struct TokenPool {
    pub name: String,
    tokens: Vec<TokenInfo>,
}

/// The mathematical value of a pool.
pub struct TokenPoolView {
    pub name: Seq<char>,
    pub tokens: Seq<TokenInfoView>,
}

impl View for TokenPool {
    type V = TokenPoolView;

    closed spec fn view(&self) -> TokenPoolView {
        TokenPoolView { name: self.name@, tokens: tokens_view(self.tokens@) }
    }
}

/// `SliceRandom::choose` with the thread's generator: one element of the
/// slice picked at random, or nothing when the slice is empty.
#[verifier::external_body]
fn choose_position(candidates: &Vec<usize>) -> (r: Option<usize>)
    ensures
        candidates.len() == 0 ==> r is None,
        candidates.len() > 0 ==> r is Some && candidates@.contains(r->0),
{
    candidates.choose(&mut rand::thread_rng()).copied()
}

impl Clone for TokenPool {
    fn clone(&self) -> (r: Self)
        ensures
            r@ == self@,
    {
        TokenPool { name: self.name.clone(), tokens: self.list() }
    }
}

impl TokenPool {
    /// The pool's name.
    pub fn name(&self) -> (r: &String)
        ensures
            r@ == self@.name,
    {
        &self.name
    }

    /// An empty pool with the given name.
    pub fn new(name: &str) -> (r: Self)
        ensures
            r@.name == name@,
            r@.tokens == Seq::<TokenInfoView>::empty(),
            spec_unique(r@.tokens),
    {
        let r = TokenPool { name: name.to_owned(), tokens: Vec::new() };
        assert(tokens_view(r.tokens@) =~= Seq::empty());
        r
    }

    /// Adds a credential. A pool holds each secret once: a credential whose
    /// secret the pool holds already is not added, and the one that is
    /// there stays as it is.
    pub fn add(&mut self, token: TokenInfo)
        ensures
            final(self)@.name == old(self)@.name,
            final(self)@.tokens == spec_add(old(self)@.tokens, token@),
            spec_unique(old(self)@.tokens) ==> spec_unique(final(self)@.tokens),
    {
        proof {
            if spec_unique(self@.tokens) {
                lemma_add_unique(self@.tokens, token@);
            }
        }
        if self.position(token.token.as_str()).is_some() {
            return ;
        }
        self.tokens.push(token);
        assert(tokens_view(self.tokens@) =~= tokens_view(old(self).tokens@).push(token@));
    }

    /// Removes the credential with the given secret, keeping the others in
    /// order, and says whether there was one.
    pub fn remove(&mut self, token: &str) -> (removed: bool)
        ensures
            final(self)@.name == old(self)@.name,
            final(self)@.tokens == old(self)@.tokens.filter(spec_other_than(token@)),
            removed == spec_has_token(old(self)@.tokens, token@),
            spec_unique(old(self)@.tokens) ==> spec_unique(final(self)@.tokens),
    {
        let ghost before = tokens_view(self.tokens@);
        let ghost keep = spec_other_than(token@);
        proof {
            if spec_unique(before) {
                lemma_filter_unique(before, keep);
            }
        }
        let wanted = token.to_owned();
        let mut removed = false;
        let mut i: usize = 0;
        let ghost mut k: int = 0;
        proof {
            reveal(Seq::filter);
            assert(before.take(0).filter(keep) =~= Seq::empty());
            assert(tokens_view(self.tokens@).take(0) =~= Seq::empty());
            assert(tokens_view(self.tokens@).skip(0) =~= before.skip(0));
        }
        while i < self.tokens.len()
            invariant
                self.name == old(self).name,
                wanted@ == token@,
                keep == spec_other_than(token@),
                before == tokens_view(old(self).tokens@),
                0 <= i <= k <= before.len(),
                i <= self.tokens.len(),
                self.tokens.len() - i == before.len() - k,
                tokens_view(self.tokens@).take(i as int) == before.take(k).filter(keep),
                tokens_view(self.tokens@).skip(i as int) == before.skip(k),
                removed == spec_has_token(before.take(k), token@),
            decreases self.tokens.len() - i,
        {
            let ghost cur = tokens_view(self.tokens@);
            proof {
                assert(cur[i as int] == cur.skip(i as int)[0]);
                assert(before[k] == before.skip(k)[0]);
                assert(before.take(k + 1).drop_last() =~= before.take(k));
                assert(before.take(k + 1).last() == before[k]);
                assert(cur[i as int] == before[k]);
                assert(keep(before[k]) == (before[k].token != token@));
                assert(before.take(k + 1) =~= before.take(k).push(before[k]));
                before.take(k).lemma_filter_push(before[k], keep);
                assert(before.take(k + 1).filter(keep) == if keep(before[k]) {
                    before.take(k).filter(keep).push(before[k])
                } else {
                    before.take(k).filter(keep)
                });
            }
            if self.tokens[i].token == wanted {
                self.tokens.remove(i);
                removed = true;
                proof {
                    let now = tokens_view(self.tokens@);
                    assert(now.take(i as int) =~= cur.take(i as int));
                    assert(now.skip(i as int) =~= cur.skip(i as int).skip(1));
                    assert(before.skip(k).skip(1) =~= before.skip(k + 1));
                    assert(before.take(k + 1)[k].token == token@);
                    k = k + 1;
                }
            } else {
                proof {
                    assert(cur.take(i + 1) =~= cur.take(i as int).push(cur[i as int]));
                    assert(cur.skip(i + 1) =~= cur.skip(i as int).skip(1));
                    assert(before.skip(k).skip(1) =~= before.skip(k + 1));
                    let shorter = before.take(k);
                    let longer = before.take(k + 1);
                    if spec_has_token(longer, token@) {
                        let w = choose|w: int| 0 <= w < longer.len() && longer[w].token == token@;
                        assert(shorter[w].token == token@);
                    }
                    if spec_has_token(shorter, token@) {
                        let w = choose|w: int| 0 <= w < shorter.len() && shorter[w].token == token@;
                        assert(longer[w].token == token@);
                    }
                    k = k + 1;
                }
                i += 1;
            }
        }
        proof {
            assert(before.take(k) =~= before);
            assert(tokens_view(self.tokens@).take(i as int) =~= tokens_view(self.tokens@));
        }
        removed
    }

    /// Position of the credential with the given secret, if there is one.
    pub fn position(&self, token: &str) -> (r: Option<usize>)
        ensures
            r is Some <==> spec_has_token(self@.tokens, token@),
            r matches Some(i) ==> spec_first_match(self@.tokens, token@, i as int),
    {
        let wanted = token.to_owned();
        let mut i: usize = 0;
        while i < self.tokens.len()
            invariant
                i <= self.tokens.len(),
                wanted@ == token@,
                forall|j: int| 0 <= j < i ==> tokens_view(self.tokens@)[j].token != token@,
            decreases self.tokens.len() - i,
        {
            if self.tokens[i].token == wanted {
                assert(tokens_view(self.tokens@)[i as int].token == token@);
                return Some(i);
            }
            i += 1;
        }
        None
    }

    /// A copy of the credential with the given secret, if there is one.
    pub fn get(&self, token: &str) -> (r: Option<TokenInfo>)
        ensures
            r is Some <==> spec_has_token(self@.tokens, token@),
            r matches Some(t) ==> exists|i: int|
                spec_first_match(self@.tokens, token@, i) && t@ == self@.tokens[i],
    {
        match self.position(token) {
            Some(i) => {
                let t = self.tokens[i].clone();
                assert(spec_first_match(self@.tokens, token@, i as int) && t@
                    == self@.tokens[i as int]);
                Some(t)
            },
            None => None,
        }
    }

    /// The credential with the given secret, for changing in place. The
    /// pool afterwards differs from the pool before in that credential
    /// only; it holds each secret once as long as the secret is left as it is.
    pub fn get_mut(&mut self, token: &str) -> (r: Option<&mut TokenInfo>)
        ensures
            r is Some <==> spec_has_token(old(self)@.tokens, token@),
            final(self)@.name == old(self)@.name,
            match r {
                Some(t) => exists|i: int|
                    spec_first_match(old(self)@.tokens, token@, i) && *t == old(self).token_at(i)
                        && final(self)@.tokens == old(self)@.tokens.update(i, (*final(t))@),
                None => final(self)@.tokens == old(self)@.tokens,
            },
    {
        match self.position(token) {
            Some(i) => {
                let t = &mut self.tokens[i];
                proof {
                    let idx = i as int;
                    assert(spec_first_match(old(self)@.tokens, token@, idx));
                    assert(*t == old(self).token_at(idx));
                    assert(tokens_view(old(self).tokens@.update(idx, *final(t))) =~= tokens_view(
                        old(self).tokens@,
                    ).update(idx, (*final(t))@));
                }
                Some(t)
            },
            None => None,
        }
    }

    /// The credential stored at position `i`.
    pub closed spec fn token_at(&self, i: int) -> TokenInfo {
        self.tokens@[i]
    }

    /// The stored credential at a position has the value that the view gives there.
    pub proof fn lemma_token_at(&self, i: int)
        requires
            0 <= i < self@.tokens.len(),
        ensures
            self.token_at(i)@ == self@.tokens[i],
    {
    }

    /// Copies of all credentials, in order.
    pub fn list(&self) -> (r: Vec<TokenInfo>)
        ensures
            tokens_view(r@) == self@.tokens,
    {
        let mut out: Vec<TokenInfo> = Vec::new();
        let mut i: usize = 0;
        while i < self.tokens.len()
            invariant
                i <= self.tokens.len(),
                out.len() == i,
                forall|j: int| 0 <= j < i ==> out[j]@ == self.tokens[j]@,
            decreases self.tokens.len() - i,
        {
            out.push(self.tokens[i].clone());
            i += 1;
        }
        assert(tokens_view(out@) =~= tokens_view(self.tokens@));
        out
    }

    /// Number of credentials.
    pub fn count(&self) -> (n: usize)
        ensures
            n == self@.tokens.len(),
    {
        self.tokens.len()
    }

    /// Positions of the credentials that selection may return, in ascending order.
    pub fn candidates(&self) -> (r: Vec<usize>)
        ensures
            forall|k: int| 0 <= k < r.len() ==> spec_selectable(self@.tokens, #[trigger] r[k] as int),
            forall|i: int| spec_selectable(self@.tokens, i) ==> r@.contains(i as usize),
            forall|a: int, b: int| 0 <= a < b < r.len() ==> r[a] < r[b],
            r.len() == 0 <==> !spec_any_available(self@.tokens),
    {
        let ghost tv = tokens_view(self.tokens@);
        let mut found = false;
        let mut best: i32 = 0;
        let mut i: usize = 0;
        while i < self.tokens.len()
            invariant
                i <= self.tokens.len(),
                tv == tokens_view(self.tokens@),
                found <==> exists|j: int| 0 <= j < i && tv[j].is_available(),
                found ==> exists|j: int| 0 <= j < i && tv[j].is_available() && tv[j].quota == best,
                forall|j: int| 0 <= j < i && tv[j].is_available() ==> tv[j].quota <= best,
            decreases self.tokens.len() - i,
        {
            if self.tokens[i].is_available() {
                assert(tv[i as int].is_available());
                if !found || self.tokens[i].quota > best {
                    best = self.tokens[i].quota;
                    found = true;
                }
            }
            i += 1;
        }
        let mut out: Vec<usize> = Vec::new();
        if !found {
            assert(!spec_any_available(tv));
            return out;
        }
        let mut i: usize = 0;
        while i < self.tokens.len()
            invariant
                i <= self.tokens.len(),
                tv == tokens_view(self.tokens@),
                tv == self@.tokens,
                forall|j: int| 0 <= j < tv.len() && tv[j].is_available() ==> tv[j].quota <= best,
                forall|k: int| 0 <= k < out.len() ==> spec_selectable(tv, #[trigger] out[k] as int)
                    && out[k] < i,
                forall|j: int| 0 <= j < i && spec_selectable(tv, j) ==> out@.contains(j as usize),
                forall|a: int, b: int| 0 <= a < b < out.len() ==> out[a] < out[b],
                exists|j: int| 0 <= j < tv.len() && tv[j].is_available() && tv[j].quota == best,
                out.len() == 0 <==> !exists|j: int|
                    0 <= j < i && tv[j].is_available() && tv[j].quota == best,
            decreases self.tokens.len() - i,
        {
            if self.tokens[i].is_available() && self.tokens[i].quota == best {
                let ghost prev = out@;
                out.push(i);
                proof {
                    assert(tv[i as int].is_available() && tv[i as int].quota == best);
                    assert(spec_selectable(tv, i as int));
                    assert forall|j: int| 0 <= j < i + 1 && spec_selectable(tv, j) implies out@.contains(
                        j as usize,
                    ) by {
                        if j < i {
                            let w = choose|w: int| 0 <= w < prev.len() && prev[w] == j as usize;
                            assert(out@[w] == j as usize);
                        } else {
                            assert(out@[out.len() - 1] == j as usize);
                        }
                    }
                }
            } else {
                proof {
                    if spec_selectable(tv, i as int) {
                        let w = choose|j: int|
                            0 <= j < tv.len() && tv[j].is_available() && tv[j].quota == best;
                        assert(tv[w].quota <= tv[i as int].quota);
                    }
                }
            }
            i += 1;
        }
        proof {
            assert(spec_any_available(tv));
            assert forall|j: int| spec_selectable(tv, j) implies out@.contains(j as usize) by {}
        }
        out
    }

    /// One of the credentials that are Active with quota left and hold the
    /// most quota among those, picked at random; nothing when no credential
    /// is available.
    pub fn select(&self) -> (r: Option<TokenInfo>)
        ensures
            r is Some <==> spec_any_available(self@.tokens),
            r matches Some(t) ==> exists|i: int|
                spec_selectable(self@.tokens, i) && t@ == self@.tokens[i],
    {
        let candidates = self.candidates();
        match choose_position(&candidates) {
            Some(i) => {
                let w = Ghost(choose|w: int| 0 <= w < candidates.len() && candidates[w] == i);
                assert(spec_selectable(self@.tokens, candidates[w@] as int));
                let t = self.tokens[i].clone();
                assert(t@ == self@.tokens[i as int]);
                Some(t)
            },
            None => None,
        }
    }

    /// Resets every credential.
    pub fn reset_all(&mut self)
        ensures
            final(self)@.name == old(self)@.name,
            final(self)@.tokens == spec_reset_all(old(self)@.tokens),
            spec_unique(old(self)@.tokens) ==> spec_unique(final(self)@.tokens),
    {
        let ghost before = tokens_view(self.tokens@);
        let mut i: usize = 0;
        while i < self.tokens.len()
            invariant
                i <= self.tokens.len(),
                self.name == old(self).name,
                before == tokens_view(old(self).tokens@),
                self.tokens.len() == before.len(),
                forall|j: int| 0 <= j < i ==> tokens_view(self.tokens@)[j] == before[j].reset(),
                forall|j: int| i <= j < before.len() ==> tokens_view(self.tokens@)[j] == before[j],
            decreases self.tokens.len() - i,
        {
            let ghost cur = tokens_view(self.tokens@);
            self.tokens[i].reset();
            proof {
                let now = tokens_view(self.tokens@);
                assert(now[i as int] == cur[i as int].reset());
                assert forall|j: int| 0 <= j < before.len() && j != i implies now[j] == cur[j] by {}
            }
            i += 1;
        }
        assert(tokens_view(self.tokens@) =~= spec_reset_all(before));
        assert forall|j: int| 0 <= j < before.len() implies spec_reset_all(before)[j].token
            == before[j].token by {}
    }

    /// The secrets of the credentials for which a quota query is due at `now`, in order.
    pub fn due_tokens(&self, interval_hours: i64, now: i64) -> (r: Vec<String>)
        ensures
            strings_view(r@) == spec_due_tokens(self@.tokens, interval_hours as int, now as int),
    {
        let ghost tv = tokens_view(self.tokens@);
        let mut out: Vec<String> = Vec::new();
        let mut i: usize = 0;
        assert(tv.take(0) =~= Seq::empty());
        assert(strings_view(out@) =~= Seq::empty());
        while i < self.tokens.len()
            invariant
                i <= self.tokens.len(),
                tv == tokens_view(self.tokens@),
                strings_view(out@) == spec_due_tokens(
                    tv.take(i as int),
                    interval_hours as int,
                    now as int,
                ),
            decreases self.tokens.len() - i,
        {
            proof {
                assert(tv.take(i + 1).drop_last() =~= tv.take(i as int));
                assert(tv.take(i + 1).last() == tv[i as int]);
            }
            if self.tokens[i].need_refresh_at(interval_hours, now) {
                let ghost prev = strings_view(out@);
                out.push(self.tokens[i].token.clone());
                assert(strings_view(out@) =~= prev.push(tv[i as int].token));
            }
            i += 1;
        }
        assert(tv.take(i as int) =~= tv);
        out
    }

    /// Aggregate figures: how many credentials there are, how many in each
    /// status, and the sum of their quotas.
    pub fn stats(&self) -> (r: TokenPoolStats)
        ensures
            spec_stats_of(r, self@.tokens),
    {
        let ghost tv = tokens_view(self.tokens@);
        let mut stats = TokenPoolStats::default();
        stats.total = self.tokens.len();
        let mut i: usize = 0;
        assert(tv.take(0) =~= Seq::empty());
        while i < self.tokens.len()
            invariant
                i <= self.tokens.len(),
                tv == tokens_view(self.tokens@),
                stats.total == self.tokens.len(),
                stats.active == spec_count_status(tv.take(i as int), TokenStatus::Active),
                stats.disabled == spec_count_status(tv.take(i as int), TokenStatus::Disabled),
                stats.expired == spec_count_status(tv.take(i as int), TokenStatus::Expired),
                stats.cooling == spec_count_status(tv.take(i as int), TokenStatus::Cooling),
                stats.total_quota == spec_total_quota(tv.take(i as int)),
                stats.active <= i,
                stats.disabled <= i,
                stats.expired <= i,
                stats.cooling <= i,
                -(i as int) * 0x8000_0000 <= stats.total_quota <= (i as int) * 0x8000_0000,
            decreases self.tokens.len() - i,
        {
            proof {
                assert(tv.take(i + 1).drop_last() =~= tv.take(i as int));
                assert(tv.take(i + 1).last() == tv[i as int]);
                assert(tv[i as int].quota == self.tokens[i as int].quota);
                assert(tv[i as int].status == self.tokens[i as int].status);
            }
            stats.total_quota = stats.total_quota + (self.tokens[i].quota as i128);
            match self.tokens[i].status {
                TokenStatus::Active => {
                    stats.active = stats.active + 1;
                },
                TokenStatus::Disabled => {
                    stats.disabled = stats.disabled + 1;
                },
                TokenStatus::Expired => {
                    stats.expired = stats.expired + 1;
                },
                TokenStatus::Cooling => {
                    stats.cooling = stats.cooling + 1;
                },
            }
            i += 1;
        }
        assert(tv.take(i as int) =~= tv);
        stats
    }
}

} // verus!
