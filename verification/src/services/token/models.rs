//! A credential: one shared secret with a depletable quota.

use vstd::prelude::*;
use crate::common::clock::now_millis;
use crate::text::{
    clone_opt_string, clone_strings, opt_chars, spec_trim_start_matches, str_eq, strings_view,
    trim_start_matches,
};

verus! {

/// Lifecycle state of a credential.
#[derive(Debug, Clone, Copy, PartialEq, Eq, Structural)]
pub enum TokenStatus {
    Active,
    Disabled,
    Expired,
    Cooling,
}

/// How expensive one operation is.
#[derive(Debug, Clone, Copy, PartialEq, Eq, Structural)]
pub enum EffortType {
    Low,
    High,
}

/// Quota that a fresh or reset credential starts with.
pub const DEFAULT_QUOTA: i32 = 80;

/// Number of consecutive authentication failures after which a credential expires.
pub const FAIL_THRESHOLD: i32 = 5;

/// The only status code that counts against a credential: an authentication rejection.
pub const AUTH_FAILURE_STATUS: u16 = 401;

/// Quota charged for one operation of the given effort.
pub open spec fn spec_effort_cost(effort: EffortType) -> int {
    match effort {
        EffortType::Low => 1,
        EffortType::High => 4,
    }
}

/// Quota charged for one operation of the given effort.
pub fn effort_cost(effort: &EffortType) -> (cost: i32)
    ensures
        cost == spec_effort_cost(*effort),
{
    match effort {
        EffortType::Low => 1,
        EffortType::High => 4,
    }
}

/// One credential.
#[derive(Debug)]
pub struct TokenInfo {
    pub token: String,
    pub status: TokenStatus,
    pub quota: i32,
    pub created_at: i64,
    pub last_used_at: Option<i64>,
    pub use_count: i32,
    pub fail_count: i32,
    pub last_fail_at: Option<i64>,
    pub last_fail_reason: Option<String>,
    pub last_sync_at: Option<i64>,
    pub tags: Vec<String>,
    pub note: String,
    pub last_asset_clear_at: Option<i64>,
}

/// The mathematical value of a credential: strings as character sequences,
/// counters and times as unbounded integers.
pub struct TokenInfoView {
    pub token: Seq<char>,
    pub status: TokenStatus,
    pub quota: int,
    pub created_at: int,
    pub last_used_at: Option<int>,
    pub use_count: int,
    pub fail_count: int,
    pub last_fail_at: Option<int>,
    pub last_fail_reason: Option<Seq<char>>,
    pub last_sync_at: Option<int>,
    pub tags: Seq<Seq<char>>,
    pub note: Seq<char>,
    pub last_asset_clear_at: Option<int>,
}

/// An optional time as an optional integer.
pub open spec fn opt_int(o: Option<i64>) -> Option<int> {
    match o {
        Some(t) => Some(t as int),
        None => None,
    }
}

impl View for TokenInfo {
    type V = TokenInfoView;

    open spec fn view(&self) -> TokenInfoView {
        TokenInfoView {
            token: self.token@,
            status: self.status,
            quota: self.quota as int,
            created_at: self.created_at as int,
            last_used_at: opt_int(self.last_used_at),
            use_count: self.use_count as int,
            fail_count: self.fail_count as int,
            last_fail_at: opt_int(self.last_fail_at),
            last_fail_reason: opt_chars(self.last_fail_reason),
            last_sync_at: opt_int(self.last_sync_at),
            tags: strings_view(self.tags@),
            note: self.note@,
            last_asset_clear_at: opt_int(self.last_asset_clear_at),
        }
    }
}

impl Clone for TokenInfo {
    fn clone(&self) -> (r: Self)
        ensures
            r@ == self@,
    {
        TokenInfo {
            token: self.token.clone(),
            status: self.status,
            quota: self.quota,
            created_at: self.created_at,
            last_used_at: self.last_used_at,
            use_count: self.use_count,
            fail_count: self.fail_count,
            last_fail_at: self.last_fail_at,
            last_fail_reason: clone_opt_string(&self.last_fail_reason),
            last_sync_at: self.last_sync_at,
            tags: clone_strings(&self.tags),
            note: self.note.clone(),
            last_asset_clear_at: self.last_asset_clear_at,
        }
    }
}

/// The status a credential settles in once its quota is known: Cooling at
/// zero; back to Active from Cooling or Expired when quota is left; otherwise
/// unchanged.
pub open spec fn spec_resolve_status(status: TokenStatus, quota: int) -> TokenStatus {
    if quota == 0 {
        TokenStatus::Cooling
    } else if status == TokenStatus::Cooling || status == TokenStatus::Expired {
        TokenStatus::Active
    } else {
        status
    }
}

/// What one operation of the given effort actually takes from a quota.
pub open spec fn spec_actual_cost(quota: int, effort: EffortType) -> int {
    if spec_effort_cost(effort) <= quota {
        spec_effort_cost(effort)
    } else {
        quota
    }
}

/// Quota left after taking `actual` from it, never below zero.
pub open spec fn spec_quota_after(quota: int, actual: int) -> int {
    if quota - actual >= 0 {
        quota - actual
    } else {
        0
    }
}

/// A credential clamped at zero quota.
pub open spec fn spec_clamp_quota(quota: int) -> int {
    if quota >= 0 {
        quota
    } else {
        0
    }
}

impl TokenInfoView {
    /// A fresh credential created at `now`.
    pub open spec fn fresh(token: Seq<char>, now: int) -> TokenInfoView {
        TokenInfoView {
            token,
            status: TokenStatus::Active,
            quota: DEFAULT_QUOTA as int,
            created_at: now,
            last_used_at: None,
            use_count: 0,
            fail_count: 0,
            last_fail_at: None,
            last_fail_reason: None,
            last_sync_at: None,
            tags: Seq::empty(),
            note: Seq::empty(),
            last_asset_clear_at: None,
        }
    }

    /// Usable for a new operation: Active with quota left.
    pub open spec fn is_available(self) -> bool {
        self.status == TokenStatus::Active && self.quota > 0
    }

    /// The credential after one operation of the given effort at time `now`.
    pub open spec fn consume(self, effort: EffortType, now: int) -> TokenInfoView {
        let actual = spec_actual_cost(self.quota, effort);
        let quota = spec_quota_after(self.quota, actual);
        TokenInfoView {
            last_used_at: Some(now),
            use_count: self.use_count + actual,
            quota,
            fail_count: 0,
            last_fail_reason: None,
            status: spec_resolve_status(self.status, quota),
            ..self
        }
    }

    /// The credential after its quota is overwritten by an authoritative value.
    pub open spec fn update_quota(self, new_quota: int) -> TokenInfoView {
        let quota = spec_clamp_quota(new_quota);
        TokenInfoView { quota, status: spec_resolve_status(self.status, quota), ..self }
    }

    /// The credential after a manual reset.
    pub open spec fn reset(self) -> TokenInfoView {
        TokenInfoView {
            quota: DEFAULT_QUOTA as int,
            status: TokenStatus::Active,
            fail_count: 0,
            last_fail_reason: None,
            ..self
        }
    }

    /// The credential after a failure with the given status code is reported.
    pub open spec fn record_fail(self, status_code: int, reason: Seq<char>, now: int) -> TokenInfoView {
        if status_code != AUTH_FAILURE_STATUS {
            self
        } else {
            TokenInfoView {
                fail_count: self.fail_count + 1,
                last_fail_at: Some(now),
                last_fail_reason: Some(reason),
                status: if self.fail_count + 1 >= FAIL_THRESHOLD {
                    TokenStatus::Expired
                } else {
                    self.status
                },
                ..self
            }
        }
    }

    /// The credential after a success is reported.
    pub open spec fn record_success(self, is_usage: bool, now: int) -> TokenInfoView {
        TokenInfoView {
            fail_count: 0,
            last_fail_at: None,
            last_fail_reason: None,
            use_count: if is_usage {
                self.use_count + 1
            } else {
                self.use_count
            },
            last_used_at: if is_usage {
                Some(now)
            } else {
                self.last_used_at
            },
            status: if self.quota == 0 {
                TokenStatus::Cooling
            } else {
                TokenStatus::Active
            },
            ..self
        }
    }

    /// Whether a quota query is due at `now`: the credential is Cooling and
    /// was never synced, or was last synced more than `interval_hours` ago.
    pub open spec fn need_refresh(self, interval_hours: int, now: int) -> bool {
        self.status == TokenStatus::Cooling && match self.last_sync_at {
            None => true,
            Some(t) => now - t > interval_hours * 3600 * 1000,
        }
    }

    /// Whether the use counter has room for one operation of the given effort.
    pub open spec fn consume_fits(self, effort: EffortType) -> bool {
        i32::MIN <= self.use_count + spec_actual_cost(self.quota, effort) <= i32::MAX
    }

    /// Whether the failure counter has room for a failure with the given status code.
    pub open spec fn fail_fits(self, status_code: int) -> bool {
        status_code == AUTH_FAILURE_STATUS ==> self.fail_count < i32::MAX
    }

    /// Whether the use counter has room for a success; only a use counts.
    pub open spec fn success_fits(self, is_usage: bool) -> bool {
        is_usage ==> self.use_count < i32::MAX
    }

    /// The credential with the tag added, unless it carries it already.
    pub open spec fn add_tag(self, tag: Seq<char>) -> TokenInfoView {
        if self.tags.contains(tag) {
            self
        } else {
            TokenInfoView { tags: self.tags.push(tag), ..self }
        }
    }

    /// The credential after a quota query at `now`.
    pub open spec fn mark_synced(self, now: int) -> TokenInfoView {
        TokenInfoView { last_sync_at: Some(now), ..self }
    }
}

impl TokenInfo {
    /// A fresh credential created at `now`.
    pub fn new_at(token: String, now: i64) -> (r: Self)
        ensures
            r@ == TokenInfoView::fresh(token@, now as int),
    {
        let r = TokenInfo {
            token,
            status: TokenStatus::Active,
            quota: DEFAULT_QUOTA,
            created_at: now,
            last_used_at: None,
            use_count: 0,
            fail_count: 0,
            last_fail_at: None,
            last_fail_reason: None,
            last_sync_at: None,
            tags: Vec::new(),
            note: String::new(),
            last_asset_clear_at: None,
        };
        assert(strings_view(r.tags@) =~= Seq::empty());
        r
    }

    /// A fresh credential created now.
    pub fn new(token: String) -> (r: Self)
        ensures
            r@ == TokenInfoView::fresh(token@, r.created_at as int),
    {
        let now = now_millis();
        TokenInfo::new_at(token, now)
    }

    /// Usable for a new operation: Active with quota left.
    pub fn is_available(&self) -> (r: bool)
        ensures
            r == self@.is_available(),
    {
        self.status == TokenStatus::Active && self.quota > 0
    }

    /// Charges one operation of the given effort at time `now` and returns
    /// what was actually taken.
    pub fn consume_at(&mut self, effort: &EffortType, now: i64) -> (actual: i32)
        requires
            old(self)@.consume_fits(*effort),
        ensures
            actual == spec_actual_cost(old(self).quota as int, *effort),
            final(self)@ == old(self)@.consume(*effort, now as int),
            final(self).quota >= 0,
            old(self).quota >= 0 ==> final(self).quota == old(self).quota - actual
                && final(self).quota <= old(self).quota,
    {
        let cost = effort_cost(effort);
        let actual = if cost <= self.quota {
            cost
        } else {
            self.quota
        };
        self.last_used_at = Some(now);
        self.use_count = self.use_count + actual;
        self.quota = if self.quota - actual >= 0 {
            self.quota - actual
        } else {
            0
        };
        self.fail_count = 0;
        self.last_fail_reason = None;
        if self.quota == 0 {
            self.status = TokenStatus::Cooling;
        } else if self.status == TokenStatus::Cooling || self.status == TokenStatus::Expired {
            self.status = TokenStatus::Active;
        }
        actual
    }

    /// Charges one operation of the given effort at time `now`, if the use
    /// counter has room for what is taken, and returns what was taken; a
    /// credential whose counter has no room is left as it is. Whatever the
    /// credential holds, its quota is not negative afterwards if it was not
    /// before, and never higher.
    pub fn try_consume_at(&mut self, effort: &EffortType, now: i64) -> (actual: Option<i32>)
        ensures
            actual is Some == old(self)@.consume_fits(*effort),
            actual matches Some(taken) ==> taken == spec_actual_cost(old(self).quota as int, *effort),
            final(self)@ == if old(self)@.consume_fits(*effort) {
                old(self)@.consume(*effort, now as int)
            } else {
                old(self)@
            },
            old(self).quota >= 0 ==> 0 <= final(self).quota <= old(self).quota,
    {
        let cost = effort_cost(effort);
        let taken = if cost <= self.quota {
            cost
        } else {
            self.quota
        };
        let sum: i64 = self.use_count as i64 + taken as i64;
        if sum < i32::MIN as i64 || sum > i32::MAX as i64 {
            return None;
        }
        Some(self.consume_at(effort, now))
    }

    /// Charges one operation of the given effort now and returns what was
    /// actually taken. Everything but the time of use is determined.
    pub fn consume(&mut self, effort: &EffortType) -> (actual: i32)
        requires
            old(self)@.consume_fits(*effort),
        ensures
            actual == spec_actual_cost(old(self).quota as int, *effort),
            final(self).last_used_at is Some,
            final(self)@ == old(self)@.consume(*effort, final(self).last_used_at->0 as int),
            final(self).quota >= 0,
            old(self).quota >= 0 ==> final(self).quota == old(self).quota - actual
                && final(self).quota <= old(self).quota,
    {
        let now = now_millis();
        self.consume_at(effort, now)
    }

    /// Overwrites the quota with an authoritative value; a negative value counts as zero.
    pub fn update_quota(&mut self, new_quota: i32)
        ensures
            final(self)@ == old(self)@.update_quota(new_quota as int),
            final(self).quota >= 0,
    {
        self.quota = if new_quota >= 0 {
            new_quota
        } else {
            0
        };
        if self.quota == 0 {
            self.status = TokenStatus::Cooling;
        } else if self.status == TokenStatus::Cooling || self.status == TokenStatus::Expired {
            self.status = TokenStatus::Active;
        }
    }

    /// Manual reset: full quota, Active, no failures on record.
    pub fn reset(&mut self)
        ensures
            final(self)@ == old(self)@.reset(),
            final(self).quota == DEFAULT_QUOTA,
            final(self).status == TokenStatus::Active,
            final(self).fail_count == 0,
    {
        self.quota = DEFAULT_QUOTA;
        self.status = TokenStatus::Active;
        self.fail_count = 0;
        self.last_fail_reason = None;
    }

    /// Reports a failure with the given status code at time `now`. Only an
    /// authentication rejection counts.
    pub fn record_fail_at(&mut self, status_code: u16, reason: &str, now: i64)
        requires
            old(self)@.fail_fits(status_code as int),
        ensures
            final(self)@ == old(self)@.record_fail(status_code as int, reason@, now as int),
    {
        if status_code != AUTH_FAILURE_STATUS {
            return ;
        }
        self.fail_count = self.fail_count + 1;
        self.last_fail_at = Some(now);
        self.last_fail_reason = Some(reason.to_owned());
        if self.fail_count >= FAIL_THRESHOLD {
            self.status = TokenStatus::Expired;
        }
    }

    /// Reports a failure with the given status code now. Only an
    /// authentication rejection counts; any other code changes nothing.
    pub fn record_fail(&mut self, status_code: u16, reason: &str)
        requires
            old(self)@.fail_fits(status_code as int),
        ensures
            status_code != AUTH_FAILURE_STATUS ==> final(self)@ == old(self)@,
            status_code == AUTH_FAILURE_STATUS ==> final(self).last_fail_at is Some
                && final(self)@ == old(self)@.record_fail(
                status_code as int,
                reason@,
                final(self).last_fail_at->0 as int,
            ),
    {
        if status_code != AUTH_FAILURE_STATUS {
            return ;
        }
        let now = now_millis();
        self.record_fail_at(status_code, reason, now);
    }

    /// Reports a success at time `now`; `is_usage` says whether it was a use of the credential.
    pub fn record_success_at(&mut self, is_usage: bool, now: i64)
        requires
            old(self)@.success_fits(is_usage),
        ensures
            final(self)@ == old(self)@.record_success(is_usage, now as int),
    {
        self.fail_count = 0;
        self.last_fail_at = None;
        self.last_fail_reason = None;
        if is_usage {
            self.use_count = self.use_count + 1;
            self.last_used_at = Some(now);
        }
        if self.quota == 0 {
            self.status = TokenStatus::Cooling;
        } else {
            self.status = TokenStatus::Active;
        }
    }

    /// Reports a success now; `is_usage` says whether it was a use of the credential.
    pub fn record_success(&mut self, is_usage: bool)
        requires
            old(self)@.success_fits(is_usage),
        ensures
            !is_usage ==> final(self)@ == old(self)@.record_success(false, 0),
            is_usage ==> final(self).last_used_at is Some && final(self)@ == old(self)@.record_success(true, final(self).last_used_at->0 as int),
    {
        if is_usage {
            let now = now_millis();
            self.record_success_at(true, now);
        } else {
            self.record_success_at(false, 0);
        }
    }

    /// Whether a quota query is due at `now`.
    pub fn need_refresh_at(&self, interval_hours: i64, now: i64) -> (r: bool)
        ensures
            r == self@.need_refresh(interval_hours as int, now as int),
    {
        if self.status != TokenStatus::Cooling {
            return false;
        }
        match self.last_sync_at {
            None => true,
            Some(t) => {
                let interval_ms: i128 = (interval_hours as i128) * 3_600_000;
                assert(interval_ms == interval_hours * 3600 * 1000);
                (now as i128) - (t as i128) > interval_ms
            },
        }
    }

    /// Whether a quota query is due now. A credential that is not Cooling
    /// never is; one that was never synced always is.
    pub fn need_refresh(&self, interval_hours: i64) -> (r: bool)
        ensures
            exists|now: int| r == #[trigger] self@.need_refresh(interval_hours as int, now),
            self.status != TokenStatus::Cooling ==> !r,
            self.status == TokenStatus::Cooling && self.last_sync_at is None ==> r,
    {
        let now = now_millis();
        let r = self.need_refresh_at(interval_hours, now);
        assert(r == self@.need_refresh(interval_hours as int, now as int));
        r
    }

    /// Stamps the time of the last quota query.
    pub fn mark_synced_at(&mut self, now: i64)
        ensures
            final(self)@ == old(self)@.mark_synced(now as int),
    {
        self.last_sync_at = Some(now);
    }

    /// Stamps the time of the last quota query with the current time.
    pub fn mark_synced(&mut self)
        ensures
            final(self).last_sync_at is Some,
            final(self)@ == old(self)@.mark_synced(final(self).last_sync_at->0 as int),
    {
        let now = now_millis();
        self.mark_synced_at(now);
    }

    /// Whether the credential carries the given tag.
    pub fn has_tag(&self, tag: &str) -> (r: bool)
        ensures
            r == self@.tags.contains(tag@),
    {
        let mut i: usize = 0;
        while i < self.tags.len()
            invariant
                i <= self.tags.len(),
                forall|j: int| 0 <= j < i ==> strings_view(self.tags@)[j] != tag@,
            decreases self.tags.len() - i,
        {
            if str_eq(self.tags[i].as_str(), tag) {
                assert(strings_view(self.tags@)[i as int] == tag@);
                return true;
            }
            i += 1;
        }
        false
    }

    /// Adds the tag unless the credential carries it already, and says
    /// whether it was added.
    pub fn add_tag(&mut self, tag: &str) -> (added: bool)
        ensures
            added == !old(self)@.tags.contains(tag@),
            final(self)@ == old(self)@.add_tag(tag@),
    {
        if self.has_tag(tag) {
            return false;
        }
        self.tags.push(tag.to_owned());
        assert(strings_view(self.tags@) =~= strings_view(old(self).tags@).push(tag@));
        true
    }

    /// Stamps the time at which the credential's assets were last cleared.
    pub fn mark_asset_clear_at(&mut self, now: i64)
        ensures
            final(self)@ == old(self)@.mark_asset_clear(now as int),
    {
        self.last_asset_clear_at = Some(now);
    }
}

/// A credential as it is stored: every attribute but the secret may be missing.
#[derive(Debug)]
pub struct TokenRecord {
    pub token: Option<String>,
    pub status: Option<String>,
    pub quota: Option<i64>,
    pub created_at: Option<i64>,
    pub last_used_at: Option<i64>,
    pub use_count: Option<i64>,
    pub fail_count: Option<i64>,
    pub last_fail_at: Option<i64>,
    pub last_fail_reason: Option<String>,
    pub last_sync_at: Option<i64>,
    pub tags: Option<Vec<String>>,
    pub note: Option<String>,
    pub last_asset_clear_at: Option<i64>,
}

/// The prefix under which a secret may be written, and which is not part of it.
pub open spec fn spec_sso_prefix() -> Seq<char> {
    "sso="@
}

/// The secret without any leading `sso=`.
pub open spec fn spec_raw_token(token: Seq<char>) -> Seq<char> {
    spec_trim_start_matches(token, spec_sso_prefix())
}

/// The secret without any leading `sso=`.
pub fn raw_token(token: &str) -> (r: String)
    ensures
        r@ == spec_raw_token(token@),
{
    trim_start_matches(token, "sso=")
}

/// The status that a stored word stands for; anything unknown is Active.
pub open spec fn spec_parse_status(word: Seq<char>) -> TokenStatus {
    if word == "disabled"@ {
        TokenStatus::Disabled
    } else if word == "expired"@ {
        TokenStatus::Expired
    } else if word == "cooling"@ {
        TokenStatus::Cooling
    } else {
        TokenStatus::Active
    }
}

/// The status that a stored word stands for; anything unknown is Active.
pub fn parse_status(word: &str) -> (r: TokenStatus)
    ensures
        r == spec_parse_status(word@),
{
    if str_eq(word, "disabled") {
        TokenStatus::Disabled
    } else if str_eq(word, "expired") {
        TokenStatus::Expired
    } else if str_eq(word, "cooling") {
        TokenStatus::Cooling
    } else {
        TokenStatus::Active
    }
}

/// The word under which a status is stored.
pub open spec fn spec_status_word(status: TokenStatus) -> Seq<char> {
    match status {
        TokenStatus::Active => "active"@,
        TokenStatus::Disabled => "disabled"@,
        TokenStatus::Expired => "expired"@,
        TokenStatus::Cooling => "cooling"@,
    }
}

/// The word under which a status is stored is read back as that status.
pub proof fn lemma_status_word_parses_back(status: TokenStatus)
    ensures
        spec_parse_status(spec_status_word(status)) == status,
{
    reveal_strlit("active");
    reveal_strlit("disabled");
    reveal_strlit("expired");
    reveal_strlit("cooling");
    assert("active"@.len() == 6 && "disabled"@.len() == 8 && "expired"@.len() == 7
        && "cooling"@.len() == 7);
    assert("expired"@[0] == 'e' && "cooling"@[0] == 'c');
}

/// The word under which a status is stored.
pub fn status_word(status: TokenStatus) -> (r: String)
    ensures
        r@ == spec_status_word(status),
{
    match status {
        TokenStatus::Active => "active".to_owned(),
        TokenStatus::Disabled => "disabled".to_owned(),
        TokenStatus::Expired => "expired".to_owned(),
        TokenStatus::Cooling => "cooling".to_owned(),
    }
}

/// A stored counter cut down to 32 bits, or the default where it is missing.
pub open spec fn spec_counter(stored: Option<i64>, default: i32) -> int {
    match stored {
        Some(n) => (n as i32) as int,
        None => default as int,
    }
}

/// The credential that a stored record stands for when read at `now`:
/// nothing without a secret; otherwise the stored attributes, each missing
/// one replaced by its default, and a stored quota below zero by zero.
pub open spec fn spec_token_from_record(rec: TokenRecord, now: int) -> Option<TokenInfoView> {
    if rec.token is None || rec.token->0@.len() == 0 {
        None
    } else {
        Some(
            TokenInfoView {
                token: spec_raw_token(rec.token->0@),
                status: match rec.status {
                    Some(w) => spec_parse_status(w@),
                    None => TokenStatus::Active,
                },
                quota: spec_clamp_quota(spec_counter(rec.quota, DEFAULT_QUOTA)),
                created_at: match rec.created_at {
                    Some(t) => t as int,
                    None => now,
                },
                last_used_at: opt_int(rec.last_used_at),
                use_count: spec_counter(rec.use_count, 0),
                fail_count: spec_counter(rec.fail_count, 0),
                last_fail_at: opt_int(rec.last_fail_at),
                last_fail_reason: opt_chars(rec.last_fail_reason),
                last_sync_at: opt_int(rec.last_sync_at),
                tags: match rec.tags {
                    Some(t) => strings_view(t@),
                    None => Seq::empty(),
                },
                note: match rec.note {
                    Some(n) => n@,
                    None => Seq::empty(),
                },
                last_asset_clear_at: opt_int(rec.last_asset_clear_at),
            },
        )
    }
}

/// A stored counter cut down to 32 bits, or the default where it is missing.
fn counter(stored: Option<i64>, default: i32) -> (r: i32)
    ensures
        r == spec_counter(stored, default),
{
    match stored {
        Some(n) => #[verifier::truncate] (n as i32),
        None => default,
    }
}

/// A quota of at least zero: the number itself, or zero in place of a
/// negative one.
fn clamp_quota(quota: i32) -> (r: i32)
    ensures
        r == spec_clamp_quota(quota as int),
{
    if quota >= 0 {
        quota
    } else {
        0
    }
}

/// The credential that a stored record stands for when read at `now`.
pub fn token_from_record(rec: &TokenRecord, now: i64) -> (r: Option<TokenInfo>)
    ensures
        r is Some <==> spec_token_from_record(*rec, now as int) is Some,
        r matches Some(t) ==> Some(t@) == spec_token_from_record(*rec, now as int),
        r matches Some(t) ==> t.quota >= 0,
{
    let token = match &rec.token {
        Some(t) => t,
        None => {
            return None;
        },
    };
    if token.as_str().is_empty() {
        return None;
    }
    let tags = match &rec.tags {
        Some(t) => clone_strings(t),
        None => Vec::new(),
    };
    assert(rec.tags is None ==> strings_view(tags@) =~= Seq::empty());
    let t = TokenInfo {
        token: raw_token(token.as_str()),
        status: match &rec.status {
            Some(w) => parse_status(w.as_str()),
            None => TokenStatus::Active,
        },
        quota: clamp_quota(counter(rec.quota, DEFAULT_QUOTA)),
        created_at: match rec.created_at {
            Some(t) => t,
            None => now,
        },
        last_used_at: rec.last_used_at,
        use_count: counter(rec.use_count, 0),
        fail_count: counter(rec.fail_count, 0),
        last_fail_at: rec.last_fail_at,
        last_fail_reason: clone_opt_string(&rec.last_fail_reason),
        last_sync_at: rec.last_sync_at,
        tags,
        note: match &rec.note {
            Some(n) => n.clone(),
            None => String::new(),
        },
        last_asset_clear_at: rec.last_asset_clear_at,
    };
    Some(t)
}

/// The record under which a credential is stored.
pub fn record_from_token(t: &TokenInfo) -> (rec: TokenRecord)
    ensures
        rec.token is Some && rec.token->0@ == t@.token,
        rec.status is Some && rec.status->0@ == spec_status_word(t.status),
        rec.status is Some && spec_parse_status(rec.status->0@) == t.status,
        rec.quota == Some(t.quota as i64),
        rec.created_at == Some(t.created_at),
        rec.last_used_at == t.last_used_at,
        rec.use_count == Some(t.use_count as i64),
        rec.fail_count == Some(t.fail_count as i64),
        rec.last_fail_at == t.last_fail_at,
        opt_chars(rec.last_fail_reason) == t@.last_fail_reason,
        rec.last_sync_at == t.last_sync_at,
        rec.tags is Some && strings_view(rec.tags->0@) == t@.tags,
        rec.note is Some && rec.note->0@ == t@.note,
        rec.last_asset_clear_at == t.last_asset_clear_at,
{
    proof {
        lemma_status_word_parses_back(t.status);
    }
    TokenRecord {
        token: Some(t.token.clone()),
        status: Some(status_word(t.status)),
        quota: Some(t.quota as i64),
        created_at: Some(t.created_at),
        last_used_at: t.last_used_at,
        use_count: Some(t.use_count as i64),
        fail_count: Some(t.fail_count as i64),
        last_fail_at: t.last_fail_at,
        last_fail_reason: clone_opt_string(&t.last_fail_reason),
        last_sync_at: t.last_sync_at,
        tags: Some(clone_strings(&t.tags)),
        note: Some(t.note.clone()),
        last_asset_clear_at: t.last_asset_clear_at,
    }
}

/// One change to a credential.
#[derive(Debug)]
pub enum TokenOp {
    /// Charge one operation of the given effort at the given time.
    Consume(EffortType, i64),
    /// Overwrite the quota with an authoritative value.
    UpdateQuota(i32),
    /// Report a failure: status code, reason, time.
    RecordFail(u16, String, i64),
    /// Report a success: whether it was a use, and the time.
    RecordSuccess(bool, i64),
    /// Manual reset.
    Reset,
    /// Add a tag.
    AddTag(String),
    /// Stamp the time at which assets were cleared.
    MarkAssetClear(i64),
    /// Stamp the time of a quota query.
    MarkSynced(i64),
    /// Declare the credential Expired.
    Expire,
    /// An authoritative quota report taken as a success: the quota, whether
    /// the success was a use, and the time.
    Sync(i32, bool, i64),
    /// The answer to a scheduled quota query: the quota and the time.
    Refresh(i32, i64),
    /// A scheduled quota query that failed at the given time.
    RefreshFailed(i64),
}

/// The mathematical value of a change to a credential.
pub enum TokenOpView {
    Consume(EffortType, int),
    UpdateQuota(int),
    RecordFail(int, Seq<char>, int),
    RecordSuccess(bool, int),
    Reset,
    AddTag(Seq<char>),
    MarkAssetClear(int),
    MarkSynced(int),
    Expire,
    Sync(int, bool, int),
    Refresh(int, int),
    RefreshFailed(int),
}

impl View for TokenOp {
    type V = TokenOpView;

    open spec fn view(&self) -> TokenOpView {
        match *self {
            TokenOp::Consume(effort, now) => TokenOpView::Consume(effort, now as int),
            TokenOp::UpdateQuota(quota) => TokenOpView::UpdateQuota(quota as int),
            TokenOp::RecordFail(code, reason, now) => TokenOpView::RecordFail(
                code as int,
                reason@,
                now as int,
            ),
            TokenOp::RecordSuccess(is_usage, now) => TokenOpView::RecordSuccess(
                is_usage,
                now as int,
            ),
            TokenOp::Reset => TokenOpView::Reset,
            TokenOp::AddTag(tag) => TokenOpView::AddTag(tag@),
            TokenOp::MarkAssetClear(now) => TokenOpView::MarkAssetClear(now as int),
            TokenOp::MarkSynced(now) => TokenOpView::MarkSynced(now as int),
            TokenOp::Expire => TokenOpView::Expire,
            TokenOp::Sync(quota, is_usage, now) => TokenOpView::Sync(
                quota as int,
                is_usage,
                now as int,
            ),
            TokenOp::Refresh(quota, now) => TokenOpView::Refresh(quota as int, now as int),
            TokenOp::RefreshFailed(now) => TokenOpView::RefreshFailed(now as int),
        }
    }
}

impl TokenInfoView {
    /// The credential after its assets were cleared at `now`.
    pub open spec fn mark_asset_clear(self, now: int) -> TokenInfoView {
        TokenInfoView { last_asset_clear_at: Some(now), ..self }
    }

    /// The credential declared Expired.
    pub open spec fn expire(self) -> TokenInfoView {
        TokenInfoView { status: TokenStatus::Expired, ..self }
    }

    /// The credential after the change.
    pub open spec fn apply(self, op: TokenOpView) -> TokenInfoView {
        match op {
            TokenOpView::Consume(effort, now) => self.consume(effort, now),
            TokenOpView::UpdateQuota(quota) => self.update_quota(quota),
            TokenOpView::RecordFail(code, reason, now) => self.record_fail(code, reason, now),
            TokenOpView::RecordSuccess(is_usage, now) => self.record_success(is_usage, now),
            TokenOpView::Reset => self.reset(),
            TokenOpView::AddTag(tag) => self.add_tag(tag),
            TokenOpView::MarkAssetClear(now) => self.mark_asset_clear(now),
            TokenOpView::MarkSynced(now) => self.mark_synced(now),
            TokenOpView::Expire => self.expire(),
            TokenOpView::Sync(quota, is_usage, now) => self.update_quota(quota).record_success(
                is_usage,
                now,
            ),
            TokenOpView::Refresh(quota, now) => self.update_quota(quota).mark_synced(now),
            TokenOpView::RefreshFailed(now) => self.expire().mark_synced(now),
        }
    }

    /// Whether the counters have room for the change.
    pub open spec fn fits(self, op: TokenOpView) -> bool {
        match op {
            TokenOpView::Consume(effort, _) => self.consume_fits(effort),
            TokenOpView::RecordFail(code, _, _) => self.fail_fits(code),
            TokenOpView::RecordSuccess(is_usage, _) => self.success_fits(is_usage),
            TokenOpView::Sync(_, is_usage, _) => self.success_fits(is_usage),
            _ => true,
        }
    }
}

impl TokenInfo {
    /// Applies one change.
    pub fn apply(&mut self, op: &TokenOp)
        requires
            old(self)@.fits(op@),
        ensures
            final(self)@ == old(self)@.apply(op@),
            final(self)@.token == old(self)@.token,
    {
        match op {
            TokenOp::Consume(effort, now) => {
                self.consume_at(effort, *now);
            },
            TokenOp::UpdateQuota(quota) => {
                self.update_quota(*quota);
            },
            TokenOp::RecordFail(code, reason, now) => {
                self.record_fail_at(*code, reason.as_str(), *now);
            },
            TokenOp::RecordSuccess(is_usage, now) => {
                self.record_success_at(*is_usage, *now);
            },
            TokenOp::Reset => {
                self.reset();
            },
            TokenOp::AddTag(tag) => {
                self.add_tag(tag.as_str());
            },
            TokenOp::MarkAssetClear(now) => {
                self.mark_asset_clear_at(*now);
            },
            TokenOp::MarkSynced(now) => {
                self.mark_synced_at(*now);
            },
            TokenOp::Expire => {
                self.status = TokenStatus::Expired;
            },
            TokenOp::Sync(quota, is_usage, now) => {
                self.update_quota(*quota);
                self.record_success_at(*is_usage, *now);
            },
            TokenOp::Refresh(quota, now) => {
                self.update_quota(*quota);
                self.mark_synced_at(*now);
            },
            TokenOp::RefreshFailed(now) => {
                self.status = TokenStatus::Expired;
                self.mark_synced_at(*now);
            },
        }
    }
}

/// One step of quota accounting: an operation charged at some time, or an
/// authoritative overwrite.
pub enum QuotaStep {
    Consume(EffortType, int),
    UpdateQuota(int),
}

impl TokenInfoView {
    /// The credential after one step of quota accounting.
    pub open spec fn step(self, step: QuotaStep) -> TokenInfoView {
        match step {
            QuotaStep::Consume(effort, now) => self.consume(effort, now),
            QuotaStep::UpdateQuota(new_quota) => self.update_quota(new_quota),
        }
    }

    /// The credential after a sequence of steps, applied first to last.
    pub open spec fn run(self, steps: Seq<QuotaStep>) -> TokenInfoView
        decreases steps.len(),
    {
        if steps.len() == 0 {
            self
        } else {
            self.run(steps.drop_last()).step(steps.last())
        }
    }

    /// The credential after one authentication failure for each entry of
    /// `fails`, a reason and a time, reported first to last.
    pub open spec fn fail_each(self, fails: Seq<(Seq<char>, int)>) -> TokenInfoView
        decreases fails.len(),
    {
        if fails.len() == 0 {
            self
        } else {
            self.fail_each(fails.drop_last()).record_fail(
                AUTH_FAILURE_STATUS as int,
                fails.last().0,
                fails.last().1,
            )
        }
    }
}

/// No change gives a credential another secret.
pub proof fn lemma_apply_keeps_token(v: TokenInfoView, op: TokenOpView)
    ensures
        v.apply(op).token == v.token,
{
}

/// Quota is never negative after a step of quota accounting, whatever the
/// credential held before.
pub proof fn lemma_step_quota_nonnegative(v: TokenInfoView, step: QuotaStep)
    ensures
        v.step(step).quota >= 0,
{
}

/// After any sequence of consumptions and quota overwrites, quota is not
/// negative: for a non-empty sequence whatever the credential held before,
/// and for the empty one if it was not negative to begin with.
pub proof fn lemma_quota_never_negative(v: TokenInfoView, steps: Seq<QuotaStep>)
    requires
        steps.len() > 0 || v.quota >= 0,
    ensures
        v.run(steps).quota >= 0,
{
    if steps.len() > 0 {
        lemma_step_quota_nonnegative(v.run(steps.drop_last()), steps.last());
    }
}

/// Consumption never leaves quota below zero and never raises it,
/// whatever the counters of the credential hold.
pub proof fn lemma_consume_never_raises(v: TokenInfoView, effort: EffortType, now: int)
    requires
        v.quota >= 0,
    ensures
        0 <= v.consume(effort, now).quota <= v.quota,
        v.consume(effort, now).quota == v.quota - spec_actual_cost(v.quota, effort),
{
}

/// A credential whose quota is zero after a step of quota accounting is
/// Cooling, and one that was Active with quota left afterwards is still Active.
pub proof fn lemma_step_status(v: TokenInfoView, step: QuotaStep)
    ensures
        v.step(step).quota == 0 ==> v.step(step).status == TokenStatus::Cooling,
        v.step(step).quota > 0 && v.status == TokenStatus::Active ==> v.step(step).status
            == TokenStatus::Active,
{
}

/// An operation never takes more than its cost, never more than the quota
/// that is there, and exactly its cost when that much is left.
pub proof fn lemma_actual_cost_clamped(quota: int, effort: EffortType)
    requires
        quota >= 0,
    ensures
        0 <= spec_actual_cost(quota, effort) <= spec_effort_cost(effort),
        spec_actual_cost(quota, effort) <= quota,
        quota >= spec_effort_cost(effort) ==> spec_actual_cost(quota, effort) == spec_effort_cost(
            effort,
        ),
        spec_quota_after(quota, spec_actual_cost(quota, effort)) == quota - spec_actual_cost(
            quota,
            effort,
        ),
{
}

/// Resetting always gives full quota, Active and no failures, and resetting
/// twice is the same as resetting once.
pub proof fn lemma_reset_idempotent(v: TokenInfoView)
    ensures
        v.reset().quota == DEFAULT_QUOTA,
        v.reset().status == TokenStatus::Active,
        v.reset().fail_count == 0,
        v.reset().reset() == v.reset(),
{
}

/// A failure that is not an authentication rejection changes nothing.
pub proof fn lemma_other_failures_ignored(
    v: TokenInfoView,
    status_code: int,
    reason: Seq<char>,
    now: int,
)
    requires
        status_code != AUTH_FAILURE_STATUS,
    ensures
        v.record_fail(status_code, reason, now) == v,
{
}

/// Authentication failures in a row raise the failure count by their
/// number, and expire the credential once the count reaches the threshold.
pub proof fn lemma_fail_each_count(v: TokenInfoView, fails: Seq<(Seq<char>, int)>)
    ensures
        v.fail_each(fails).fail_count == v.fail_count + fails.len(),
        fails.len() > 0 && v.fail_count + fails.len() >= FAIL_THRESHOLD ==> v.fail_each(
            fails,
        ).status == TokenStatus::Expired,
    decreases fails.len(),
{
    if fails.len() > 0 {
        lemma_fail_each_count(v, fails.drop_last());
    }
}

/// Five authentication failures in a row expire a credential, whatever its
/// status and whatever the reasons and times reported.
pub proof fn lemma_five_auth_failures_expire(v: TokenInfoView, fails: Seq<(Seq<char>, int)>)
    requires
        v.fail_count >= 0,
        fails.len() == 5,
    ensures
        v.fail_each(fails).status == TokenStatus::Expired,
{
    lemma_fail_each_count(v, fails);
}

} // verus!
