//! The owner of all pools: finds a credential by its secret, whatever pool
//! it lives in, and applies consumption, failures and quota reports to it.

use vstd::prelude::*;
use crate::common::clock::now_millis;
use crate::services::token::models::{
    lemma_apply_keeps_token,
    raw_token, spec_clamp_quota, spec_raw_token, spec_token_from_record, token_from_record, EffortType, TokenInfo, TokenInfoView, TokenOp, TokenOpView, TokenRecord,
};
use crate::services::token::pool::{
    spec_any_available, spec_due_tokens, spec_first_match, spec_has_token, spec_other_than,
    spec_add, spec_reset_all, spec_selectable, spec_unique, spec_stats_of, tokens_view, TokenPool, TokenPoolStats,
    TokenPoolView,
};
use crate::text::{str_eq, strings_view};

verus! {

/// The values of a list of pools.
pub open spec fn pools_view(s: Seq<TokenPool>) -> Seq<TokenPoolView> {
    Seq::new(s.len(), |i: int| s[i]@)
}

/// Whether `p` is the position of the pool with the given name.
pub open spec fn spec_pool_named(pools: Seq<TokenPoolView>, name: Seq<char>, p: int) -> bool {
    &&& 0 <= p < pools.len()
    &&& pools[p].name == name
    &&& forall|q: int| 0 <= q < p ==> pools[q].name != name
}

/// Whether some pool has the given name.
pub open spec fn spec_has_pool(pools: Seq<TokenPoolView>, name: Seq<char>) -> bool {
    exists|p: int| 0 <= p < pools.len() && pools[p].name == name
}

/// Whether `p` is the position of the first pool that holds the given secret.
pub open spec fn spec_first_pool(pools: Seq<TokenPoolView>, token: Seq<char>, p: int) -> bool {
    &&& 0 <= p < pools.len()
    &&& spec_has_token(pools[p].tokens, token)
    &&& forall|q: int| 0 <= q < p ==> !spec_has_token(pools[q].tokens, token)
}

/// Whether some pool holds the given secret.
pub open spec fn spec_known(pools: Seq<TokenPoolView>, token: Seq<char>) -> bool {
    exists|p: int| 0 <= p < pools.len() && spec_has_token(pools[p].tokens, token)
}

/// Where the given secret is found: the first pool that holds it, and the
/// first position in that pool.
pub open spec fn spec_locate(pools: Seq<TokenPoolView>, token: Seq<char>) -> Option<(int, int)> {
    if spec_known(pools, token) {
        let p = choose|p: int| spec_first_pool(pools, token, p);
        let i = choose|i: int| spec_first_match(pools[p].tokens, token, i);
        Some((p, i))
    } else {
        None
    }
}

/// The credential with the given secret, as the manager finds it.
pub open spec fn spec_find(pools: Seq<TokenPoolView>, token: Seq<char>) -> Option<TokenInfoView> {
    match spec_locate(pools, token) {
        Some((p, i)) => Some(pools[p].tokens[i]),
        None => None,
    }
}

/// The pools with the credential that has the given secret replaced by
/// `new`; if no pool holds the secret, the pools as they are.
pub open spec fn spec_replace(
    pools: Seq<TokenPoolView>,
    token: Seq<char>,
    new: TokenInfoView,
) -> Seq<TokenPoolView> {
    match spec_locate(pools, token) {
        Some((p, i)) => pools.update(
            p,
            TokenPoolView { tokens: pools[p].tokens.update(i, new), ..pools[p] },
        ),
        None => pools,
    }
}

/// No two pools have the same name.
pub open spec fn spec_names_unique(pools: Seq<TokenPoolView>) -> bool {
    forall|a: int, b: int| 0 <= a < b < pools.len() ==> pools[a].name != pools[b].name
}

/// Pool names are unique, and each pool holds each secret once.
pub open spec fn spec_pools_wf(pools: Seq<TokenPoolView>) -> bool {
    &&& spec_names_unique(pools)
    &&& forall|p: int| 0 <= p < pools.len() ==> spec_unique(#[trigger] pools[p].tokens)
}

/// Whether two lists of pools have the same names and the same secrets at
/// the same places.
pub open spec fn spec_same_secrets(a: Seq<TokenPoolView>, b: Seq<TokenPoolView>) -> bool {
    &&& a.len() == b.len()
    &&& forall|p: int|
        0 <= p < a.len() ==> (#[trigger] a[p]).name == b[p].name && a[p].tokens.len()
            == b[p].tokens.len()
    &&& forall|p: int, i: int|
        0 <= p < a.len() && 0 <= i < a[p].tokens.len() ==> (#[trigger] a[p].tokens[i]).token
            == b[p].tokens[i].token
}

/// Pools with the same names and secrets are well formed together.
pub proof fn lemma_same_secrets_wf(a: Seq<TokenPoolView>, b: Seq<TokenPoolView>)
    requires
        spec_same_secrets(a, b),
    ensures
        spec_pools_wf(a) == spec_pools_wf(b),
{
    if spec_pools_wf(a) {
        assert forall|x: int, y: int| 0 <= x < y < b.len() implies b[x].name != b[y].name by {
            assert(a[x].name == b[x].name && a[y].name == b[y].name);
        }
        assert forall|p: int| 0 <= p < b.len() implies spec_unique(#[trigger] b[p].tokens) by {
            assert(spec_unique(a[p].tokens));
            assert forall|i: int, j: int| 0 <= i < j < b[p].tokens.len() implies b[p].tokens[i].token
                != b[p].tokens[j].token by {
                assert(a[p].tokens[i].token == b[p].tokens[i].token);
                assert(a[p].tokens[j].token == b[p].tokens[j].token);
            }
        }
    }
    if spec_pools_wf(b) {
        assert forall|x: int, y: int| 0 <= x < y < a.len() implies a[x].name != a[y].name by {
            assert(a[x].name == b[x].name && a[y].name == b[y].name);
        }
        assert forall|p: int| 0 <= p < a.len() implies spec_unique(#[trigger] a[p].tokens) by {
            assert(a[p].name == b[p].name);
            assert(spec_unique(b[p].tokens));
            assert forall|i: int, j: int| 0 <= i < j < a[p].tokens.len() implies a[p].tokens[i].token
                != a[p].tokens[j].token by {
                assert(a[p].tokens[i].token == b[p].tokens[i].token);
                assert(a[p].tokens[j].token == b[p].tokens[j].token);
            }
        }
    }
}

/// The first position of a secret in a list is unique.
pub proof fn lemma_first_match_unique(tokens: Seq<TokenInfoView>, token: Seq<char>, i: int, j: int)
    requires
        spec_first_match(tokens, token, i),
        spec_first_match(tokens, token, j),
    ensures
        i == j,
{
}

/// A list that holds a secret has a first position for it.
pub proof fn lemma_first_match_exists(tokens: Seq<TokenInfoView>, token: Seq<char>, k: int)
    requires
        0 <= k < tokens.len(),
        tokens[k].token == token,
    ensures
        exists|i: int| spec_first_match(tokens, token, i),
    decreases k,
{
    if exists|j: int| 0 <= j < k && tokens[j].token == token {
        let j = choose|j: int| 0 <= j < k && tokens[j].token == token;
        lemma_first_match_exists(tokens, token, j);
    } else {
        assert(spec_first_match(tokens, token, k));
    }
}

/// The first pool that holds a secret is unique, and so is the place where
/// the manager finds the secret.
pub proof fn lemma_locate(pools: Seq<TokenPoolView>, token: Seq<char>, p: int, i: int)
    requires
        spec_first_pool(pools, token, p),
        spec_first_match(pools[p].tokens, token, i),
    ensures
        spec_locate(pools, token) == Some((p, i)),
{
    assert(spec_known(pools, token));
    let q = choose|q: int| spec_first_pool(pools, token, q);
    assert(q == p);
    let i2 = choose|i2: int| spec_first_match(pools[p].tokens, token, i2);
    lemma_first_match_unique(pools[p].tokens, token, i, i2);
}

/// The pool with the given name, if there is one.
pub open spec fn spec_pool(pools: Seq<TokenPoolView>, name: Seq<char>) -> Option<TokenPoolView> {
    if spec_has_pool(pools, name) {
        Some(pools[choose|p: int| spec_pool_named(pools, name, p)])
    } else {
        None
    }
}

/// The position of a pool with a given name is unique.
pub proof fn lemma_pool_named(pools: Seq<TokenPoolView>, name: Seq<char>, p: int)
    requires
        spec_pool_named(pools, name, p),
    ensures
        spec_has_pool(pools, name),
        spec_pool(pools, name) == Some(pools[p]),
        (choose|q: int| spec_pool_named(pools, name, q)) == p,
{
    let q = choose|q: int| spec_pool_named(pools, name, q);
    assert(q == p);
}

/// The pools with the one of the given name replaced, or added at the end
/// if there was none.
pub open spec fn spec_put_pool(pools: Seq<TokenPoolView>, pool: TokenPoolView) -> Seq<TokenPoolView> {
    if spec_has_pool(pools, pool.name) {
        pools.update(choose|p: int| spec_pool_named(pools, pool.name, p), pool)
    } else {
        pools.push(pool)
    }
}

/// The credentials that a list of stored records stands for when read at
/// `now`, in order; a record without a secret stands for none, and so
/// does one with the secret of a record before it.
pub open spec fn spec_tokens_from_records(recs: Seq<TokenRecord>, now: int) -> Seq<TokenInfoView>
    decreases recs.len(),
{
    if recs.len() == 0 {
        Seq::empty()
    } else {
        let rest = spec_tokens_from_records(recs.drop_last(), now);
        match spec_token_from_record(recs.last(), now) {
            Some(t) => spec_add(rest, t),
            None => rest,
        }
    }
}

/// The secrets of all credentials of the pools for which a quota query is
/// due at `now`, pool by pool.
pub open spec fn spec_due_in(pools: Seq<TokenPoolView>, interval_hours: int, now: int) -> Seq<Seq<char>>
    decreases pools.len(),
{
    if pools.len() == 0 {
        Seq::empty()
    } else {
        spec_due_in(pools.drop_last(), interval_hours, now) + spec_due_tokens(
            pools.last().tokens,
            interval_hours,
            now,
        )
    }
}

/// A secret as it is written, without surrounding white space and without
/// any leading `sso=`.
pub open spec fn spec_sanitize(token: Seq<char>) -> Seq<char> {
    spec_raw_token(crate::text::spec_trim(token))
}

/// The secrets of a list of credentials as they are written, in order.
pub open spec fn spec_sanitized(tokens: Seq<TokenInfoView>) -> Seq<Seq<char>>
    decreases tokens.len(),
{
    if tokens.len() == 0 {
        Seq::empty()
    } else {
        spec_sanitized(tokens.drop_last()).push(spec_sanitize(tokens.last().token))
    }
}

/// The secrets of all credentials as they are written, pool by pool.
pub open spec fn spec_all_sanitized(pools: Seq<TokenPoolView>) -> Seq<Seq<char>>
    decreases pools.len(),
{
    if pools.len() == 0 {
        Seq::empty()
    } else {
        spec_all_sanitized(pools.drop_last()) + spec_sanitized(pools.last().tokens)
    }
}

/// The texts of a list that are not empty, each where it is first met.
pub open spec fn spec_distinct(texts: Seq<Seq<char>>) -> Seq<Seq<char>>
    decreases texts.len(),
{
    if texts.len() == 0 {
        Seq::empty()
    } else {
        let rest = spec_distinct(texts.drop_last());
        if texts.last().len() > 0 && !rest.contains(texts.last()) {
            rest.push(texts.last())
        } else {
            rest
        }
    }
}

/// A secret as it is written, without surrounding white space and without
/// any leading `sso=`.
pub fn sanitize(token: &str) -> (r: String)
    ensures
        r@ == spec_sanitize(token@),
{
    let trimmed = crate::text::trim(token);
    raw_token(trimmed.as_str())
}

/// A pool as it is stored: its name and its records.
#[derive(Debug)]
pub struct PoolRecord {
    pub name: String,
    pub tokens: Vec<TokenRecord>,
}

/// The pools that a stored document stands for when read at `now`: one for
/// each name, a later entry replacing an earlier one of the same name.
pub open spec fn spec_pools_from_records(data: Seq<PoolRecord>, now: int) -> Seq<TokenPoolView>
    decreases data.len(),
{
    if data.len() == 0 {
        Seq::empty()
    } else {
        spec_put_pool(
            spec_pools_from_records(data.drop_last(), now),
            TokenPoolView {
                name: data.last().name@,
                tokens: spec_tokens_from_records(data.last().tokens@, now),
            },
        )
    }
}

/// Putting a pool keeps names unique.
pub proof fn lemma_put_pool_unique(pools: Seq<TokenPoolView>, pool: TokenPoolView)
    requires
        spec_names_unique(pools),
    ensures
        spec_names_unique(spec_put_pool(pools, pool)),
{
    if spec_has_pool(pools, pool.name) {
        let p = choose|p: int| spec_pool_named(pools, pool.name, p);
        let w = choose|w: int| 0 <= w < pools.len() && pools[w].name == pool.name;
        lemma_pool_named_exists(pools, pool.name, w);
    }
}

/// A list with a pool of a given name has a first position for it.
pub proof fn lemma_pool_named_exists(pools: Seq<TokenPoolView>, name: Seq<char>, k: int)
    requires
        0 <= k < pools.len(),
        pools[k].name == name,
    ensures
        exists|p: int| spec_pool_named(pools, name, p),
    decreases k,
{
    if exists|j: int| 0 <= j < k && pools[j].name == name {
        let j = choose|j: int| 0 <= j < k && pools[j].name == name;
        lemma_pool_named_exists(pools, name, j);
    } else {
        assert(spec_pool_named(pools, name, k));
    }
}

/// What a quota query for one credential brought.
#[derive(Debug, Clone, Copy, PartialEq, Eq, Structural)]
pub enum RefreshOutcome {
    /// The query answered with this much quota left.
    Remaining(i64),
    /// The query answered without a figure.
    NoFigure,
    /// The query failed.
    Failed,
}

/// The answer to the quota query for one credential.
#[derive(Debug)]
pub struct RefreshReport {
    pub token: String,
    pub outcome: RefreshOutcome,
}

/// Counts of one resync run.
#[derive(Debug, Clone, Copy, PartialEq, Eq, Structural)]
pub struct RefreshStats {
    pub checked: usize,
    pub refreshed: usize,
    pub recovered: usize,
    pub expired: usize,
}

/// A reported quota cut down to 32 bits.
pub open spec fn spec_reported_quota(remaining: i64) -> int {
    (remaining as i32) as int
}

/// The state of the manager.
#[derive(Debug)]
pub struct TokenManager {
    pools: Vec<TokenPool>,
    initialized: bool,
    last_reload_at: i64,
}

/// The mathematical value of the manager.
pub struct TokenManagerView {
    pub pools: Seq<TokenPoolView>,
    pub initialized: bool,
    pub last_reload_at: int,
}

impl View for TokenManager {
    type V = TokenManagerView;

    closed spec fn view(&self) -> TokenManagerView {
        TokenManagerView {
            pools: pools_view(self.pools@),
            initialized: self.initialized,
            last_reload_at: self.last_reload_at as int,
        }
    }
}

impl TokenManagerView {
    /// Pool names are unique, and each pool holds each secret once.
    pub open spec fn wf(self) -> bool {
        spec_pools_wf(self.pools)
    }

    /// The manager with the credential that has the given secret replaced.
    pub open spec fn with_token(self, token: Seq<char>, new: TokenInfoView) -> TokenManagerView {
        TokenManagerView { pools: spec_replace(self.pools, token, new), ..self }
    }

    /// The credential with the given secret.
    pub open spec fn find(self, token: Seq<char>) -> Option<TokenInfoView> {
        spec_find(self.pools, token)
    }

    /// The manager after the credential with the given secret, if any, is changed.
    pub open spec fn apply(self, raw: Seq<char>, op: TokenOpView) -> TokenManagerView {
        match self.find(raw) {
            Some(t) => self.with_token(raw, t.apply(op)),
            None => self,
        }
    }

    /// The manager after one operation is charged at `now` to the credential
    /// written as `token`.
    pub open spec fn consume(self, token: Seq<char>, effort: EffortType, now: int) -> TokenManagerView {
        self.apply(spec_raw_token(token), TokenOpView::Consume(effort, now))
    }

    /// The manager after a failure at `now` is reported for the credential
    /// written as `token`.
    pub open spec fn record_fail(
        self,
        token: Seq<char>,
        status_code: int,
        reason: Seq<char>,
        now: int,
    ) -> TokenManagerView {
        self.apply(spec_raw_token(token), TokenOpView::RecordFail(status_code, reason, now))
    }

    /// The manager after the credential written as `token` is reset.
    pub open spec fn reset_token(self, token: Seq<char>) -> TokenManagerView {
        self.apply(spec_raw_token(token), TokenOpView::Reset)
    }

    /// The manager after a tag is added to the credential written as `token`.
    pub open spec fn add_tag(self, token: Seq<char>, tag: Seq<char>) -> TokenManagerView {
        self.apply(spec_raw_token(token), TokenOpView::AddTag(tag))
    }

    /// The manager after the assets of the credential written as `token`
    /// were cleared at `now`.
    pub open spec fn mark_asset_clear(self, token: Seq<char>, now: int) -> TokenManagerView {
        self.apply(spec_raw_token(token), TokenOpView::MarkAssetClear(now))
    }

    /// Whether the credential written as `token` is known.
    pub open spec fn knows(self, token: Seq<char>) -> bool {
        self.find(spec_raw_token(token)) is Some
    }

    /// The manager after a credential with the secret written as `token`
    /// is added at `now` to the pool of the given name, which is created if
    /// it is missing. Nothing changes if the pool holds the secret already.
    pub open spec fn add(self, token: Seq<char>, pool_name: Seq<char>, now: int) -> TokenManagerView {
        let raw = spec_raw_token(token);
        let fresh = TokenInfoView::fresh(raw, now);
        match spec_pool(self.pools, pool_name) {
            Some(pool) => if spec_has_token(pool.tokens, raw) {
                self
            } else {
                TokenManagerView {
                    pools: spec_put_pool(
                        self.pools,
                        TokenPoolView { tokens: pool.tokens.push(fresh), ..pool },
                    ),
                    ..self
                }
            },
            None => TokenManagerView {
                pools: self.pools.push(TokenPoolView { name: pool_name, tokens: seq![fresh] }),
                ..self
            },
        }
    }

    /// Whether adding the secret written as `token` to the pool of the given name adds anything.
    pub open spec fn can_add(self, token: Seq<char>, pool_name: Seq<char>) -> bool {
        match spec_pool(self.pools, pool_name) {
            Some(pool) => !spec_has_token(pool.tokens, spec_raw_token(token)),
            None => true,
        }
    }

    /// The manager after the credential with the secret written as `token`
    /// is taken out of the first pool that holds it.
    pub open spec fn remove(self, token: Seq<char>) -> TokenManagerView {
        let raw = spec_raw_token(token);
        if spec_known(self.pools, raw) {
            let p = choose|p: int| spec_first_pool(self.pools, raw, p);
            TokenManagerView {
                pools: self.pools.update(
                    p,
                    TokenPoolView {
                        tokens: self.pools[p].tokens.filter(spec_other_than(raw)),
                        ..self.pools[p]
                    },
                ),
                ..self
            }
        } else {
            self
        }
    }

    /// The manager after a reset of every credential.
    pub open spec fn reset_all(self) -> TokenManagerView {
        TokenManagerView {
            pools: Seq::new(
                self.pools.len(),
                |p: int|
                    TokenPoolView {
                        tokens: spec_reset_all(self.pools[p].tokens),
                        ..self.pools[p]
                    },
            ),
            ..self
        }
    }

    /// Whether a reload is due at `now`: the interval is positive and at
    /// least that much time has passed since the last reload.
    pub open spec fn reload_due(self, interval_ms: int, now: int) -> bool {
        interval_ms > 0 && now - self.last_reload_at >= interval_ms
    }

    /// The manager after its pools are replaced by a stored document read at `now`.
    pub open spec fn reloaded(data: Seq<PoolRecord>, now: int) -> TokenManagerView {
        TokenManagerView {
            pools: spec_pools_from_records(data, now),
            initialized: true,
            last_reload_at: now,
        }
    }

    /// The manager after a quota report for the credential written as
    /// `token`: the report is applied if there is one; without one the
    /// fallback effort is charged if that is asked for.
    pub open spec fn sync_usage(
        self,
        token: Seq<char>,
        remaining: Option<i64>,
        fallback_effort: EffortType,
        consume_on_fail: bool,
        is_usage: bool,
        now: int,
    ) -> TokenManagerView {
        match remaining {
            Some(r) => self.apply(
                spec_raw_token(token),
                TokenOpView::Sync(spec_reported_quota(r), is_usage, now),
            ),
            None => if consume_on_fail {
                self.consume(token, fallback_effort, now)
            } else {
                self
            },
        }
    }

    /// The secrets of all credentials for which a quota query is due at
    /// `now`, pool by pool.
    pub open spec fn due_tokens(self, interval_hours: int, now: int) -> Seq<Seq<char>> {
        spec_due_in(self.pools, interval_hours, now)
    }

    /// The manager after the answer to one scheduled quota query.
    pub open spec fn refresh_one(self, token: Seq<char>, outcome: RefreshOutcome, now: int) -> TokenManagerView {
        match outcome {
            RefreshOutcome::Remaining(r) => self.apply(
                token,
                TokenOpView::Refresh(spec_reported_quota(r), now),
            ),
            RefreshOutcome::NoFigure => self,
            RefreshOutcome::Failed => self.apply(token, TokenOpView::RefreshFailed(now)),
        }
    }

    /// Whether the answer brings the credential back from zero quota.
    pub open spec fn recovers(self, token: Seq<char>, outcome: RefreshOutcome) -> bool {
        outcome matches RefreshOutcome::Remaining(r) && self.find(token) matches Some(t) && t.quota
            == 0 && spec_clamp_quota(spec_reported_quota(r)) > 0
    }

    /// Whether the answer expires the credential.
    pub open spec fn expires(self, token: Seq<char>, outcome: RefreshOutcome) -> bool {
        outcome is Failed && self.find(token) is Some
    }

    /// The manager after the answers to a run of scheduled quota queries, first to last.
    pub open spec fn refresh_all(self, reports: Seq<RefreshReport>, now: int) -> TokenManagerView
        decreases reports.len(),
    {
        if reports.len() == 0 {
            self
        } else {
            self.refresh_all(reports.drop_last(), now).refresh_one(
                reports.last().token@,
                reports.last().outcome,
                now,
            )
        }
    }

    /// Number of credentials that the run brought back from zero quota.
    pub open spec fn recovered_count(self, reports: Seq<RefreshReport>, now: int) -> nat
        decreases reports.len(),
    {
        if reports.len() == 0 {
            0
        } else {
            self.recovered_count(reports.drop_last(), now) + if self.refresh_all(
                reports.drop_last(),
                now,
            ).recovers(reports.last().token@, reports.last().outcome) {
                1nat
            } else {
                0nat
            }
        }
    }

    /// Number of credentials that the run expired.
    pub open spec fn expired_count(self, reports: Seq<RefreshReport>, now: int) -> nat
        decreases reports.len(),
    {
        if reports.len() == 0 {
            0
        } else {
            self.expired_count(reports.drop_last(), now) + if self.refresh_all(
                reports.drop_last(),
                now,
            ).expires(reports.last().token@, reports.last().outcome) {
                1nat
            } else {
                0nat
            }
        }
    }

    /// Whether the counters of the credential with the given secret, if
    /// any, have room for the change.
    pub open spec fn fits(self, raw: Seq<char>, op: TokenOpView) -> bool {
        self.find(raw) matches Some(t) ==> t.fits(op)
    }
}

/// After a secret is added to a pool, the pool holds it: adding it again
/// adds nothing and changes nothing. A pool never comes to hold a secret
/// twice by adding.
pub proof fn lemma_add_once(
    v: TokenManagerView,
    token: Seq<char>,
    pool_name: Seq<char>,
    now: int,
    later: int,
)
    requires
        v.wf(),
    ensures
        v.add(token, pool_name, now).wf(),
        !v.add(token, pool_name, now).can_add(token, pool_name),
        v.add(token, pool_name, now).add(token, pool_name, later) == v.add(token, pool_name, now),
{
    let raw = spec_raw_token(token);
    let fresh = TokenInfoView::fresh(raw, now);
    let after = v.add(token, pool_name, now);
    match spec_pool(v.pools, pool_name) {
        Some(pool) => {
            let p = choose|p: int| spec_pool_named(v.pools, pool_name, p);
            let w = choose|w: int| 0 <= w < v.pools.len() && v.pools[w].name == pool_name;
            lemma_pool_named_exists(v.pools, pool_name, w);
            if spec_has_token(pool.tokens, raw) {
                assert(after == v);
            } else {
                let grown = TokenPoolView { tokens: pool.tokens.push(fresh), ..pool };
                lemma_put_pool_unique(v.pools, grown);
                assert(after.pools == v.pools.update(p, grown));
                assert(spec_pool_named(after.pools, pool_name, p));
                lemma_pool_named(after.pools, pool_name, p);
                assert(grown.tokens[pool.tokens.len() as int].token == raw);
            }
        },
        None => {
            let made = TokenPoolView { name: pool_name, tokens: seq![fresh] };
            assert(after.pools == v.pools.push(made));
            let p = v.pools.len() as int;
            assert(spec_pool_named(after.pools, pool_name, p)) by {
                assert forall|q: int| 0 <= q < p implies after.pools[q].name != pool_name by {
                    assert(after.pools[q] == v.pools[q]);
                }
            }
            lemma_pool_named(after.pools, pool_name, p);
            assert(made.tokens[0].token == raw);
            assert(spec_names_unique(after.pools)) by {
                assert forall|a: int, b: int| 0 <= a < b < after.pools.len() implies after.pools[a].name
                    != after.pools[b].name by {
                    if b < p {
                        assert(after.pools[a] == v.pools[a] && after.pools[b] == v.pools[b]);
                    } else {
                        assert(after.pools[a] == v.pools[a]);
                    }
                }
            }
        },
    }
}

impl TokenManager {
    /// A manager without pools, not yet loaded, whose last reload is `now`.
    pub fn new_at(now: i64) -> (r: Self)
        ensures
            r@ == (TokenManagerView {
                pools: Seq::empty(),
                initialized: false,
                last_reload_at: now as int,
            }),
            r@.wf(),
    {
        let r = TokenManager { pools: Vec::new(), initialized: false, last_reload_at: now };
        assert(pools_view(r.pools@) =~= Seq::empty());
        r
    }

    /// A manager without pools, not yet loaded.
    pub fn new() -> (r: Self)
        ensures
            r@.pools == Seq::<TokenPoolView>::empty(),
            !r@.initialized,
            r@.wf(),
    {
        TokenManager::new_at(now_millis())
    }

    /// The pools, in the order in which they were created.
    pub fn pools(&self) -> (r: &Vec<TokenPool>)
        ensures
            pools_view(r@) == self@.pools,
    {
        &self.pools
    }

    /// Whether the pools were loaded.
    pub fn is_initialized(&self) -> (r: bool)
        ensures
            r == self@.initialized,
    {
        self.initialized
    }

    /// Time of the last reload.
    pub fn last_reload_at(&self) -> (r: i64)
        ensures
            r == self@.last_reload_at,
    {
        self.last_reload_at
    }

    /// Position of the pool with the given name.
    pub fn pool_index(&self, name: &str) -> (r: Option<usize>)
        ensures
            r is Some <==> spec_has_pool(self@.pools, name@),
            r matches Some(p) ==> spec_pool_named(self@.pools, name@, p as int),
    {
        let mut p: usize = 0;
        while p < self.pools.len()
            invariant
                p <= self.pools.len(),
                forall|q: int| 0 <= q < p ==> pools_view(self.pools@)[q].name != name@,
            decreases self.pools.len() - p,
        {
            if str_eq(self.pools[p].name().as_str(), name) {
                assert(pools_view(self.pools@)[p as int].name == name@);
                return Some(p);
            }
            p += 1;
        }
        None
    }

    /// Position of the first pool that holds the given secret.
    fn pool_of(&self, raw: &str) -> (r: Option<usize>)
        ensures
            r is Some <==> spec_known(self@.pools, raw@),
            r matches Some(p) ==> spec_first_pool(self@.pools, raw@, p as int),
    {
        let mut p: usize = 0;
        while p < self.pools.len()
            invariant
                p <= self.pools.len(),
                forall|q: int|
                    0 <= q < p ==> !spec_has_token(pools_view(self.pools@)[q].tokens, raw@),
            decreases self.pools.len() - p,
        {
            if self.pools[p].position(raw).is_some() {
                assert(spec_has_token(pools_view(self.pools@)[p as int].tokens, raw@));
                return Some(p);
            }
            p += 1;
        }
        None
    }

    /// Applies one change to the credential with the given secret, and
    /// says whether some pool holds it.
    pub fn apply(&mut self, raw: &str, op: &TokenOp) -> (found: bool)
        requires
            old(self)@.fits(raw@, op@),
        ensures
            found == old(self)@.find(raw@) is Some,
            final(self)@ == old(self)@.apply(raw@, op@),
            final(self)@.wf() == old(self)@.wf(),
    {
        match self.pool_of(raw) {
            Some(p) => {
                let ghost before = pools_view(self.pools@);
                let ghost before_pool = self.pools[p as int];
                proof {
                    let k = choose|k: int|
                        0 <= k < before_pool@.tokens.len() && before_pool@.tokens[k].token == raw@;
                    lemma_first_match_exists(before_pool@.tokens, raw@, k);
                }
                let ghost i = choose|i: int| spec_first_match(before_pool@.tokens, raw@, i);
                proof {
                    assert(before[p as int] == before_pool@);
                    lemma_locate(before, raw@, p as int, i);
                }
                match self.pools[p].get_mut(raw) {
                    Some(t) => {
                        proof {
                            before_pool.lemma_token_at(i);
                            let j = choose|j: int|
                                spec_first_match(before_pool@.tokens, raw@, j) && *t
                                    == before_pool.token_at(j);
                            lemma_first_match_unique(before_pool@.tokens, raw@, i, j);
                        }
                        t.apply(op);
                    },
                    None => {},
                }
                proof {
                    let after_pool = self.pools[p as int];
                    let j = choose|j: int|
                        spec_first_match(before_pool@.tokens, raw@, j) && after_pool@.tokens
                            == before_pool@.tokens.update(
                            j,
                            #[trigger] before_pool@.tokens[j].apply(op@),
                        );
                    lemma_first_match_unique(before_pool@.tokens, raw@, i, j);
                    assert(pools_view(self.pools@) =~= before.update(p as int, after_pool@));
                    assert(after_pool@.name == before_pool@.name);
                    assert forall|q: int| 0 <= q < before.len() implies pools_view(
                        self.pools@,
                    )[q].name == before[q].name by {}
                    assert(after_pool@ == (TokenPoolView {
                        tokens: before_pool@.tokens.update(i, before_pool@.tokens[i].apply(op@)),
                        ..before_pool@
                    }));
                    lemma_apply_keeps_token(before_pool@.tokens[i], op@);
                    assert(spec_same_secrets(before, pools_view(self.pools@)));
                    lemma_same_secrets_wf(before, pools_view(self.pools@));
                }
                true
            },
            None => false,
        }
    }

    /// A copy of the credential written as `token`, if some pool holds it.
    pub fn find(&self, token: &str) -> (r: Option<TokenInfo>)
        ensures
            r is Some <==> self@.find(spec_raw_token(token@)) is Some,
            r matches Some(t) ==> self@.find(spec_raw_token(token@)) == Some(t@),
    {
        let raw = raw_token(token);
        self.find_raw(raw.as_str())
    }

    /// Charges one operation of the given effort to the credential written
    /// as `token_str`, and says whether some pool holds it.
    pub fn consume(&mut self, token_str: &str, effort: EffortType) -> (found: bool)
        requires
            old(self)@.find(spec_raw_token(token_str@)) matches Some(t) ==> t.consume_fits(effort),
        ensures
            found == old(self)@.knows(token_str@),
            exists|now: int| final(self)@ == #[trigger] old(self)@.consume(token_str@, effort, now),
            final(self)@.wf() == old(self)@.wf(),
    {
        let raw = raw_token(token_str);
        let now = now_millis();
        let found = self.apply(raw.as_str(), &TokenOp::Consume(effort, now));
        assert(self@ == old(self)@.consume(token_str@, effort, now as int));
        found
    }

    /// Reports a failure with the given status code for the credential
    /// written as `token_str`, and says whether some pool holds it.
    pub fn record_fail(&mut self, token_str: &str, status_code: u16, reason: &str) -> (found: bool)
        requires
            old(self)@.find(spec_raw_token(token_str@)) matches Some(t) ==> t.fail_fits(
                status_code as int,
            ),
        ensures
            found == old(self)@.knows(token_str@),
            exists|now: int|
                final(self)@ == #[trigger] old(self)@.record_fail(
                    token_str@,
                    status_code as int,
                    reason@,
                    now,
                ),
            final(self)@.wf() == old(self)@.wf(),
    {
        let raw = raw_token(token_str);
        let now = now_millis();
        let found = self.apply(
            raw.as_str(),
            &TokenOp::RecordFail(status_code, reason.to_owned(), now),
        );
        assert(self@ == old(self)@.record_fail(
            token_str@,
            status_code as int,
            reason@,
            now as int,
        ));
        found
    }

    /// Resets the credential written as `token_str`, and says whether some
    /// pool holds it.
    pub fn reset_token(&mut self, token_str: &str) -> (found: bool)
        ensures
            found == old(self)@.knows(token_str@),
            final(self)@ == old(self)@.reset_token(token_str@),
            final(self)@.wf() == old(self)@.wf(),
    {
        let raw = raw_token(token_str);
        self.apply(raw.as_str(), &TokenOp::Reset)
    }

    /// Whether the credential written as `token` is known and carries the tag.
    pub fn has_tag(&self, token: &str, tag: &str) -> (r: bool)
        ensures
            r == (self@.find(spec_raw_token(token@)) matches Some(t) && t.tags.contains(tag@)),
    {
        match self.find(token) {
            Some(t) => t.has_tag(tag),
            None => false,
        }
    }

    /// Adds a tag to the credential written as `token`, unless it carries
    /// it already, and says whether some pool holds the credential.
    pub fn add_tag(&mut self, token: &str, tag: &str) -> (found: bool)
        ensures
            found == old(self)@.knows(token@),
            final(self)@ == old(self)@.add_tag(token@, tag@),
            final(self)@.wf() == old(self)@.wf(),
    {
        let raw = raw_token(token);
        self.apply(raw.as_str(), &TokenOp::AddTag(tag.to_owned()))
    }

    /// Stamps the current time as the time at which the assets of the
    /// credential written as `token` were cleared, and says whether some
    /// pool holds it.
    pub fn mark_asset_clear(&mut self, token: &str) -> (found: bool)
        ensures
            found == old(self)@.knows(token@),
            exists|now: int| final(self)@ == #[trigger] old(self)@.mark_asset_clear(token@, now),
            final(self)@.wf() == old(self)@.wf(),
    {
        let raw = raw_token(token);
        let now = now_millis();
        let found = self.apply(raw.as_str(), &TokenOp::MarkAssetClear(now));
        assert(self@ == old(self)@.mark_asset_clear(token@, now as int));
        found
    }
    /// One of the most-quota available credentials of the pool with the
    /// given name, without any leading `sso=`; nothing when there is no such
    /// pool or no credential of it is available.
    pub fn get_token(&self, pool_name: &str) -> (r: Option<String>)
        ensures
            r is Some <==> (spec_pool(self@.pools, pool_name@) matches Some(pool)
                && spec_any_available(pool.tokens)),
            r matches Some(s) ==> exists|i: int|
                spec_selectable(spec_pool(self@.pools, pool_name@)->0.tokens, i) && s@
                    == spec_raw_token(spec_pool(self@.pools, pool_name@)->0.tokens[i].token),
    {
        match self.pool_index(pool_name) {
            Some(p) => {
                proof {
                    lemma_pool_named(self@.pools, pool_name@, p as int);
                }
                match self.pools[p].select() {
                    Some(t) => Some(raw_token(t.token.as_str())),
                    None => None,
                }
            },
            None => None,
        }
    }

    /// Copies of the credentials of the pool with the given name; none when
    /// there is no such pool.
    pub fn get_pool_tokens(&self, pool_name: &str) -> (r: Vec<TokenInfo>)
        ensures
            tokens_view(r@) == match spec_pool(self@.pools, pool_name@) {
                Some(pool) => pool.tokens,
                None => Seq::empty(),
            },
    {
        match self.pool_index(pool_name) {
            Some(p) => {
                proof {
                    lemma_pool_named(self@.pools, pool_name@, p as int);
                }
                self.pools[p].list()
            },
            None => {
                let r: Vec<TokenInfo> = Vec::new();
                assert(tokens_view(r@) =~= Seq::empty());
                r
            },
        }
    }

    /// The aggregate figures of each pool, with its name, in the order of the pools.
    pub fn get_stats(&self) -> (r: Vec<(String, TokenPoolStats)>)
        ensures
            r.len() == self@.pools.len(),
            forall|p: int|
                0 <= p < r.len() ==> (#[trigger] r[p]).0@ == self@.pools[p].name && spec_stats_of(
                    r[p].1,
                    self@.pools[p].tokens,
                ),
    {
        let mut out: Vec<(String, TokenPoolStats)> = Vec::new();
        let mut p: usize = 0;
        while p < self.pools.len()
            invariant
                p <= self.pools.len(),
                out.len() == p,
                forall|q: int|
                    0 <= q < p ==> (#[trigger] out[q]).0@ == pools_view(self.pools@)[q].name
                        && spec_stats_of(out[q].1, pools_view(self.pools@)[q].tokens),
            decreases self.pools.len() - p,
        {
            let name = self.pools[p].name().clone();
            let stats = self.pools[p].stats();
            out.push((name, stats));
            p += 1;
        }
        out
    }

    /// Adds a fresh credential with the secret written as `token`, created
    /// at `now`, to the pool of the given name, which is created if it is
    /// missing. Returns false, and changes nothing, if the pool holds the
    /// secret already.
    pub fn add_at(&mut self, token: &str, pool_name: &str, now: i64) -> (added: bool)
        requires
            old(self)@.wf(),
        ensures
            added == old(self)@.can_add(token@, pool_name@),
            final(self)@ == old(self)@.add(token@, pool_name@, now as int),
            final(self)@.wf(),
    {
        let raw = raw_token(token);
        let ghost before = pools_view(self.pools@);
        match self.pool_index(pool_name) {
            Some(p) => {
                proof {
                    lemma_pool_named(before, pool_name@, p as int);
                }
                if self.pools[p].position(raw.as_str()).is_some() {
                    return false;
                }
                let ghost before_pool = before[p as int];
                self.pools[p].add(TokenInfo::new_at(raw, now));
                proof {
                    let after_pool = pools_view(self.pools@)[p as int];
                    assert(after_pool == (TokenPoolView {
                        tokens: before_pool.tokens.push(TokenInfoView::fresh(raw@, now as int)),
                        ..before_pool
                    }));
                    assert(pools_view(self.pools@) =~= before.update(p as int, after_pool));
                    assert(spec_put_pool(before, after_pool) == before.update(p as int, after_pool));
                    lemma_put_pool_unique(before, after_pool);
                }
                true
            },
            None => {
                let mut pool = TokenPool::new(pool_name);
                pool.add(TokenInfo::new_at(raw, now));
                let ghost pv = pool@;
                self.pools.push(pool);
                proof {
                    assert(pv.tokens =~= seq![TokenInfoView::fresh(raw@, now as int)]);
                    assert(pools_view(self.pools@) =~= before.push(pv));
                    assert(spec_put_pool(before, pv) == before.push(pv));
                    lemma_put_pool_unique(before, pv);
                }
                true
            },
        }
    }

    /// Adds a fresh credential with the secret written as `token` to the
    /// pool of the given name, which is created if it is missing. Returns
    /// false, and changes nothing, if the pool holds the secret already.
    pub fn add(&mut self, token: &str, pool_name: &str) -> (added: bool)
        requires
            old(self)@.wf(),
        ensures
            added == old(self)@.can_add(token@, pool_name@),
            exists|now: int| final(self)@ == #[trigger] old(self)@.add(token@, pool_name@, now),
            final(self)@.wf(),
    {
        let now = now_millis();
        let added = self.add_at(token, pool_name, now);
        assert(self@ == old(self)@.add(token@, pool_name@, now as int));
        added
    }

    /// Takes the credential with the secret written as `token` out of the
    /// first pool that holds it, and says whether there was one.
    pub fn remove(&mut self, token: &str) -> (removed: bool)
        ensures
            removed == old(self)@.knows(token@),
            final(self)@ == old(self)@.remove(token@),
            old(self)@.wf() ==> final(self)@.wf(),
    {
        let raw = raw_token(token);
        let ghost before = pools_view(self.pools@);
        match self.pool_of(raw.as_str()) {
            Some(p) => {
                let removed = self.pools[p].remove(raw.as_str());
                proof {
                    let q = choose|q: int| spec_first_pool(before, raw@, q);
                    assert(q == p);
                    let after_pool = pools_view(self.pools@)[p as int];
                    assert(pools_view(self.pools@) =~= before.update(p as int, after_pool));
                    assert(after_pool == (TokenPoolView {
                        tokens: before[p as int].tokens.filter(spec_other_than(raw@)),
                        ..before[p as int]
                    }));
                    assert forall|q: int| 0 <= q < before.len() implies pools_view(
                        self.pools@,
                    )[q].name == before[q].name by {}
                }
                removed
            },
            None => false,
        }
    }

    /// Resets every credential.
    pub fn reset_all(&mut self)
        ensures
            final(self)@ == old(self)@.reset_all(),
            final(self)@.wf() == old(self)@.wf(),
    {
        let ghost before = pools_view(self.pools@);
        let mut p: usize = 0;
        while p < self.pools.len()
            invariant
                p <= self.pools.len(),
                self.initialized == old(self).initialized,
                self.last_reload_at == old(self).last_reload_at,
                before == pools_view(old(self).pools@),
                self.pools.len() == before.len(),
                forall|q: int|
                    0 <= q < p ==> pools_view(self.pools@)[q] == old(self)@.reset_all().pools[q],
                forall|q: int| p <= q < before.len() ==> pools_view(self.pools@)[q] == before[q],
            decreases self.pools.len() - p,
        {
            self.pools[p].reset_all();
            p += 1;
        }
        assert(pools_view(self.pools@) =~= old(self)@.reset_all().pools);
        assert forall|q: int| 0 <= q < before.len() implies pools_view(self.pools@)[q].name
            == before[q].name by {}
        proof {
            assert(spec_same_secrets(before, pools_view(self.pools@)));
            lemma_same_secrets_wf(before, pools_view(self.pools@));
        }
    }

    /// Whether a reload is due at `now`.
    pub fn reload_due(&self, interval_ms: i64, now: i64) -> (r: bool)
        ensures
            r == self@.reload_due(interval_ms as int, now as int),
    {
        interval_ms > 0 && (now as i128) - (self.last_reload_at as i128) >= (interval_ms as i128)
    }

    /// Replaces the pools by a stored document read at `now`.
    pub fn reload_from(&mut self, data: &Vec<PoolRecord>, now: i64)
        ensures
            final(self)@ == TokenManagerView::reloaded(data@, now as int),
            final(self)@.wf(),
    {
        let mut built = TokenManager { pools: Vec::new(), initialized: true, last_reload_at: now };
        let mut d: usize = 0;
        proof {
            assert(data@.take(0) =~= Seq::empty());
            assert(pools_view(built.pools@) =~= Seq::empty());
        }
        while d < data.len()
            invariant
                d <= data.len(),
                built.initialized,
                built.last_reload_at == now,
                pools_view(built.pools@) == spec_pools_from_records(data@.take(d as int), now as int),
                spec_pools_wf(pools_view(built.pools@)),
            decreases data.len() - d,
        {
            let ghost before = pools_view(built.pools@);
            let pool = pool_from_record(&data[d], now);
            let ghost pv = pool@;
            proof {
                assert(data@.take(d + 1).drop_last() =~= data@.take(d as int));
                assert(data@.take(d + 1).last() == data@[d as int]);
                lemma_put_pool_unique(before, pv);
            }
            match built.pool_index(pool.name().as_str()) {
                Some(p) => {
                    proof {
                        lemma_pool_named(before, pv.name, p as int);
                    }
                    built.pools.set(p, pool);
                    assert(pools_view(built.pools@) =~= before.update(p as int, pv));
                },
                None => {
                    built.pools.push(pool);
                    assert(pools_view(built.pools@) =~= before.push(pv));
                },
            }
            proof {
                let after = pools_view(built.pools@);
                assert forall|q: int| 0 <= q < after.len() implies spec_unique(
                    #[trigger] after[q].tokens,
                ) by {
                    if after[q] != pv {
                        assert(after[q] == before[q]);
                    }
                }
            }
            d += 1;
        }
        assert(data@.take(d as int) =~= data@);
        *self = built;
    }

    /// Replaces the pools by a stored document read at `now`, unless the
    /// pools were loaded before.
    pub fn load_from(&mut self, data: &Vec<PoolRecord>, now: i64)
        ensures
            final(self)@ == if old(self)@.initialized {
                old(self)@
            } else {
                TokenManagerView::reloaded(data@, now as int)
            },
            old(self)@.wf() ==> final(self)@.wf(),
    {
        if self.initialized {
            return ;
        }
        self.reload_from(data, now);
    }

    /// Applies the outcome of a quota query for the credential written as
    /// `token_str`: `remaining` is the figure that the query brought, if it
    /// brought one. Returns whether the credential is known and was changed.
    pub fn sync_usage(
        &mut self,
        token_str: &str,
        remaining: Option<i64>,
        fallback_effort: EffortType,
        consume_on_fail: bool,
        is_usage: bool,
    ) -> (synced: bool)
        requires
            old(self)@.find(spec_raw_token(token_str@)) matches Some(t) ==> if remaining is Some {
                t.success_fits(is_usage)
            } else {
                consume_on_fail ==> t.consume_fits(fallback_effort)
            },
        ensures
            synced == (old(self)@.knows(token_str@) && (remaining is Some || consume_on_fail)),
            exists|now: int|
                final(self)@ == #[trigger] old(self)@.sync_usage(
                    token_str@,
                    remaining,
                    fallback_effort,
                    consume_on_fail,
                    is_usage,
                    now,
                ),
            final(self)@.wf() == old(self)@.wf(),
    {
        let raw = raw_token(token_str);
        let now = now_millis();
        let synced = match remaining {
            Some(r) => {
                let quota = #[verifier::truncate] (r as i32);
                self.apply(raw.as_str(), &TokenOp::Sync(quota, is_usage, now))
            },
            None => {
                if consume_on_fail {
                    self.apply(raw.as_str(), &TokenOp::Consume(fallback_effort, now))
                } else {
                    false
                }
            },
        };
        assert(self@ == old(self)@.sync_usage(
            token_str@,
            remaining,
            fallback_effort,
            consume_on_fail,
            is_usage,
            now as int,
        ));
        synced
    }

    /// The secrets of all credentials for which a quota query is due at
    /// `now`, pool by pool.
    pub fn due_tokens(&self, interval_hours: i64, now: i64) -> (r: Vec<String>)
        ensures
            strings_view(r@) == self@.due_tokens(interval_hours as int, now as int),
    {
        let ghost pv = pools_view(self.pools@);
        let mut out: Vec<String> = Vec::new();
        let mut p: usize = 0;
        proof {
            assert(pv.take(0) =~= Seq::empty());
            assert(strings_view(out@) =~= Seq::empty());
        }
        while p < self.pools.len()
            invariant
                p <= self.pools.len(),
                pv == pools_view(self.pools@),
                strings_view(out@) == spec_due_in(pv.take(p as int), interval_hours as int, now as int),
            decreases self.pools.len() - p,
        {
            let mut due = self.pools[p].due_tokens(interval_hours, now);
            let ghost prev = strings_view(out@);
            let ghost extra = strings_view(due@);
            proof {
                assert(pv.take(p + 1).drop_last() =~= pv.take(p as int));
                assert(pv.take(p + 1).last() == pv[p as int]);
            }
            out.append(&mut due);
            assert(strings_view(out@) =~= prev + extra);
            p += 1;
        }
        assert(pv.take(p as int) =~= pv);
        out
    }

    /// Applies the answer to one scheduled quota query at `now`, and says
    /// whether it brought the credential back from zero quota and whether it
    /// expired it.
    pub fn refresh_one(&mut self, token: &str, outcome: RefreshOutcome, now: i64) -> (r: (bool, bool))
        ensures
            final(self)@ == old(self)@.refresh_one(token@, outcome, now as int),
            r.0 == old(self)@.recovers(token@, outcome),
            r.1 == old(self)@.expires(token@, outcome),
            final(self)@.wf() == old(self)@.wf(),
    {
        match outcome {
            RefreshOutcome::Remaining(remaining) => {
                let quota = #[verifier::truncate] (remaining as i32);
                let was_empty = match self.find_raw(token) {
                    Some(t) => t.quota == 0,
                    None => false,
                };
                self.apply(token, &TokenOp::Refresh(quota, now));
                (was_empty && quota > 0, false)
            },
            RefreshOutcome::NoFigure => (false, false),
            RefreshOutcome::Failed => {
                let found = self.apply(token, &TokenOp::RefreshFailed(now));
                (false, found)
            },
        }
    }

    /// Applies the answers to a run of scheduled quota queries at `now`,
    /// first to last, and counts what they did.
    pub fn refresh_all(&mut self, reports: &Vec<RefreshReport>, now: i64) -> (stats: RefreshStats)
        ensures
            final(self)@ == old(self)@.refresh_all(reports@, now as int),
            stats.checked == reports.len(),
            stats.refreshed == reports.len(),
            stats.recovered == old(self)@.recovered_count(reports@, now as int),
            stats.expired == old(self)@.expired_count(reports@, now as int),
            final(self)@.wf() == old(self)@.wf(),
    {
        let mut recovered: usize = 0;
        let mut expired: usize = 0;
        let mut k: usize = 0;
        assert(reports@.take(0) =~= Seq::empty());
        while k < reports.len()
            invariant
                k <= reports.len(),
                self@ == old(self)@.refresh_all(reports@.take(k as int), now as int),
                recovered == old(self)@.recovered_count(reports@.take(k as int), now as int),
                expired == old(self)@.expired_count(reports@.take(k as int), now as int),
                recovered <= k,
                expired <= k,
                self@.wf() == old(self)@.wf(),
            decreases reports.len() - k,
        {
            proof {
                assert(reports@.take(k + 1).drop_last() =~= reports@.take(k as int));
                assert(reports@.take(k + 1).last() == reports@[k as int]);
            }
            let (rec, exp) = self.refresh_one(reports[k].token.as_str(), reports[k].outcome, now);
            if rec {
                recovered += 1;
            }
            if exp {
                expired += 1;
            }
            k += 1;
        }
        assert(reports@.take(k as int) =~= reports@);
        RefreshStats { checked: reports.len(), refreshed: reports.len(), recovered, expired }
    }

    /// The secrets of all credentials, pool by pool, each as it is written
    /// when white space around it and any leading `sso=` are taken off;
    /// without the empty ones, and each only once, where it is first met.
    pub fn all_tokens(&self) -> (r: Vec<String>)
        ensures
            strings_view(r@) == spec_distinct(spec_all_sanitized(self@.pools)),
    {
        let ghost pv = pools_view(self.pools@);
        let mut out: Vec<String> = Vec::new();
        let mut p: usize = 0;
        proof {
            assert(pv.take(0) =~= Seq::empty());
            assert(strings_view(out@) =~= Seq::empty());
        }
        while p < self.pools.len()
            invariant
                p <= self.pools.len(),
                pv == pools_view(self.pools@),
                strings_view(out@) == spec_distinct(spec_all_sanitized(pv.take(p as int))),
            decreases self.pools.len() - p,
        {
            let tokens = self.pools[p].list();
            let ghost tv = tokens_view(tokens@);
            let ghost done = spec_all_sanitized(pv.take(p as int));
            let mut i: usize = 0;
            proof {
                assert(pv.take(p + 1).drop_last() =~= pv.take(p as int));
                assert(pv.take(p + 1).last() == pv[p as int]);
                assert(tv.take(0) =~= Seq::empty());
                assert(done + spec_sanitized(tv.take(0)) =~= done);
            }
            while i < tokens.len()
                invariant
                    i <= tokens.len(),
                    tv == tokens_view(tokens@),
                    strings_view(out@) == spec_distinct(done + spec_sanitized(tv.take(i as int))),
                decreases tokens.len() - i,
            {
                let raw = sanitize(tokens[i].token.as_str());
                proof {
                    assert(tv.take(i + 1).drop_last() =~= tv.take(i as int));
                    assert(tv.take(i + 1).last() == tv[i as int]);
                    let sofar = done + spec_sanitized(tv.take(i as int));
                    let next = done + spec_sanitized(tv.take(i + 1));
                    assert(next =~= sofar.push(raw@));
                    assert(next.drop_last() =~= sofar);
                }
                if !raw.as_str().is_empty() {
                    let mut seen = false;
                    let mut k: usize = 0;
                    while k < out.len()
                        invariant
                            k <= out.len(),
                            seen <==> exists|j: int| 0 <= j < k && strings_view(out@)[j] == raw@,
                        decreases out.len() - k,
                    {
                        if str_eq(out[k].as_str(), raw.as_str()) {
                            assert(strings_view(out@)[k as int] == raw@);
                            seen = true;
                        }
                        k += 1;
                    }
                    if !seen {
                        let ghost prev = strings_view(out@);
                        out.push(raw);
                        assert(strings_view(out@) =~= prev.push(raw@));
                    }
                }
                i += 1;
            }
            assert(tv.take(i as int) =~= tv);
            p += 1;
        }
        assert(pv.take(p as int) =~= pv);
        out
    }

    /// A copy of the credential with exactly the given secret, if some pool holds it.
    pub fn find_raw(&self, raw: &str) -> (r: Option<TokenInfo>)
        ensures
            r is Some <==> self@.find(raw@) is Some,
            r matches Some(t) ==> self@.find(raw@) == Some(t@),
    {
        match self.pool_of(raw) {
            Some(p) => {
                let r = self.pools[p].get(raw);
                proof {
                    let pv = pools_view(self.pools@);
                    let i = choose|i: int|
                        spec_first_match(pv[p as int].tokens, raw@, i) && r->0@
                            == pv[p as int].tokens[i];
                    lemma_locate(pv, raw@, p as int, i);
                }
                r
            },
            None => None,
        }
    }
}

/// The pool that a stored pool stands for when read at `now`.
pub fn pool_from_record(rec: &PoolRecord, now: i64) -> (pool: TokenPool)
    ensures
        pool@.name == rec.name@,
        pool@.tokens == spec_tokens_from_records(rec.tokens@, now as int),
        spec_unique(pool@.tokens),
{
    let mut pool = TokenPool::new(rec.name.as_str());
    let mut i: usize = 0;
    assert(rec.tokens@.take(0) =~= Seq::empty());
    while i < rec.tokens.len()
        invariant
            i <= rec.tokens.len(),
            pool@.name == rec.name@,
            pool@.tokens == spec_tokens_from_records(rec.tokens@.take(i as int), now as int),
            spec_unique(pool@.tokens),
        decreases rec.tokens.len() - i,
    {
        proof {
            assert(rec.tokens@.take(i + 1).drop_last() =~= rec.tokens@.take(i as int));
            assert(rec.tokens@.take(i + 1).last() == rec.tokens@[i as int]);
        }
        match token_from_record(&rec.tokens[i], now) {
            Some(t) => {
                pool.add(t);
            },
            None => {},
        }
        i += 1;
    }
    assert(rec.tokens@.take(i as int) =~= rec.tokens@);
    pool
}

} // verus!
