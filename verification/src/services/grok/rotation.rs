//! Scored rotation: an alternate way of picking a credential, by a daily
//! call budget and by how long ago each credential was last used.
//!
//! Usage is kept per fingerprint of a secret, never per secret. Times are
//! milliseconds since the Unix epoch; zero stands for "never".

use vstd::prelude::*;
use vstd::utf8::encode_utf8;
use sha1::{Digest, Sha1};
use crate::common::clock::now_millis;
use crate::services::token::manager::{sanitize, spec_sanitize};
use crate::text::{opt_chars, str_chars, str_eq, string_from_range, strings_view};

verus! {

/// Length of the rolling window after which daily counts start afresh.
pub const RESET_INTERVAL_MS: i64 = 86_400_000;

/// Number of characters of a fingerprint.
pub const KEY_HASH_LEN: usize = 12;

/// Idle time, in milliseconds, that earns one tenth of a point of recency.
pub const SCORE_UNIT_MS: i64 = 600_000;

/// Idle time, in milliseconds, beyond which recency earns no more.
pub const SCORE_CAP_MS: i64 = 6_000_000;

/// The SHA-1 digest of the bytes, written as lower-case hexadecimal digits.
pub uninterp spec fn spec_sha1_hex(data: Seq<u8>) -> Seq<char>;

/// `Sha1::new`, `update` and `finalize`, printed with `{:x}`: the SHA-1
/// digest of the bytes as hexadecimal digits. The digest has 20 bytes, so
/// there are 40 digits.
#[verifier::external_body]
pub(crate) fn sha1_hex(data: &[u8]) -> (r: String)
    ensures
        r@ == spec_sha1_hex(data@),
        r@.len() == 40,
{
    let mut hasher = Sha1::new();
    hasher.update(data);
    format!("{:x}", hasher.finalize())
}

/// The fingerprint of a secret: the first twelve digits of its SHA-1 digest.
pub open spec fn spec_key_hash(token: Seq<char>) -> Seq<char> {
    spec_sha1_hex(encode_utf8(token)).take(KEY_HASH_LEN as int)
}

/// The fingerprint of a secret: the first twelve digits of its SHA-1 digest.
pub fn key_hash(token: &str) -> (r: String)
    ensures
        r@ == spec_key_hash(token@),
        r@.len() == KEY_HASH_LEN,
{
    let full = sha1_hex(token.as_bytes());
    let digits = str_chars(full.as_str());
    string_from_range(&digits, 0, KEY_HASH_LEN)
}

/// A secret as it is written, without surrounding white space and without
/// any leading `sso=`.
pub fn sanitize_token(token: &str) -> (r: String)
    ensures
        r@ == spec_sanitize(token@),
{
    sanitize(token)
}

/// What is known of the use of one credential.
#[derive(Debug, Clone, Copy, PartialEq, Eq, Structural)]
pub struct KeyUsage {
    /// Calls within the current window.
    pub count: i32,
    /// Time of the last call; zero if there was none.
    pub last_used: i64,
    /// Time at which the credential was first seen.
    pub first_used: i64,
    /// Set when a call failed, until a call succeeds or the window ends.
    pub failed: bool,
    /// Whether the one-time age verification was made; zero if not.
    pub age_verified: i32,
}

/// The usage of a credential first seen at `now`.
pub open spec fn spec_new_usage(now: i64) -> KeyUsage {
    KeyUsage { count: 0, last_used: 0, first_used: now, failed: false, age_verified: 0 }
}

impl KeyUsage {
    /// The usage of a credential first seen at `now`.
    pub fn new_at(now: i64) -> (r: Self)
        ensures
            r == spec_new_usage(now),
    {
        KeyUsage { count: 0, last_used: 0, first_used: now, failed: false, age_verified: 0 }
    }

    /// The usage at the start of a new window.
    pub open spec fn spec_reset(self) -> KeyUsage {
        KeyUsage { count: 0, failed: false, ..self }
    }

    /// Calls left within the daily limit.
    pub open spec fn spec_remaining(self, daily_limit: int) -> int {
        if daily_limit - self.count > 0 {
            daily_limit - self.count
        } else {
            0
        }
    }

    /// Idle time that counts towards the score: the time since the last
    /// call, capped; the cap itself if there was no call.
    pub open spec fn spec_idle(self, now: int) -> int {
        if self.last_used == 0 {
            SCORE_CAP_MS as int
        } else if now - self.last_used < SCORE_CAP_MS {
            now - self.last_used
        } else {
            SCORE_CAP_MS as int
        }
    }

    /// The score of a credential, in units of one 600 000th: the calls left
    /// times one plus a tenth of the idle minutes, at most ten.
    pub open spec fn spec_score(self, daily_limit: int, now: int) -> int {
        self.spec_remaining(daily_limit) * (SCORE_UNIT_MS + self.spec_idle(now))
    }

    /// Whether the credential may be picked: not failed, and with calls left.
    pub open spec fn spec_usable(self, daily_limit: int) -> bool {
        !self.failed && self.count < daily_limit
    }

    /// Executable form of [`KeyUsage::spec_score`].
    pub fn score(&self, daily_limit: i32, now: i64) -> (r: i128)
        ensures
            r == self.spec_score(daily_limit as int, now as int),
    {
        let left: i128 = (daily_limit as i128) - (self.count as i128);
        let remaining: i128 = if left > 0 {
            left
        } else {
            0
        };
        let since: i128 = (now as i128) - (self.last_used as i128);
        let idle: i128 = if self.last_used == 0 {
            SCORE_CAP_MS as i128
        } else if since < SCORE_CAP_MS as i128 {
            since
        } else {
            SCORE_CAP_MS as i128
        };
        let factor: i128 = SCORE_UNIT_MS as i128 + idle;
        assert(-0x1_0000_0000_0000_0000_0000_0000 <= remaining * factor
            <= 0x1_0000_0000_0000_0000_0000_0000) by (nonlinear_arith)
            requires
                0 <= remaining <= 0x1_0000_0000,
                -0x1_0000_0000_0000_0000 <= factor <= 0x1_0000_0000_0000_0000,
        ;
        remaining * factor
    }
}

/// The usage kept under one fingerprint.
#[derive(Debug)]
pub struct UsageEntry {
    pub key: String,
    pub usage: KeyUsage,
}

/// The map that a list of entries stands for; of two entries with the same
/// key the later counts.
pub open spec fn spec_entries_map(entries: Seq<UsageEntry>) -> Map<Seq<char>, KeyUsage>
    decreases entries.len(),
{
    if entries.len() == 0 {
        Map::empty()
    } else {
        spec_entries_map(entries.drop_last()).insert(entries.last().key@, entries.last().usage)
    }
}

/// Whether `i` is the position of the last entry with the given key.
pub open spec fn spec_last_entry(entries: Seq<UsageEntry>, key: Seq<char>, i: int) -> bool {
    &&& 0 <= i < entries.len()
    &&& entries[i].key@ == key
    &&& forall|j: int| i < j < entries.len() ==> entries[j].key@ != key
}

/// The keys of the map are the keys of the entries.
proof fn lemma_map_dom(entries: Seq<UsageEntry>, key: Seq<char>)
    ensures
        spec_entries_map(entries).dom().contains(key) <==> exists|i: int|
            0 <= i < entries.len() && entries[i].key@ == key,
    decreases entries.len(),
{
    if entries.len() > 0 {
        lemma_map_dom(entries.drop_last(), key);
        if exists|i: int| 0 <= i < entries.len() && entries[i].key@ == key {
            let i = choose|i: int| 0 <= i < entries.len() && entries[i].key@ == key;
            if i < entries.len() - 1 {
                assert(entries.drop_last()[i].key@ == key);
            }
        }
        if spec_entries_map(entries.drop_last()).dom().contains(key) {
            let i = choose|i: int| 0 <= i < entries.len() - 1 && entries.drop_last()[i].key@ == key;
            assert(entries[i].key@ == key);
        }
    }
}

/// The map gives under a key the usage of the last entry with that key.
proof fn lemma_map_lookup(entries: Seq<UsageEntry>, i: int)
    requires
        spec_last_entry(entries, entries[i].key@, i),
    ensures
        spec_entries_map(entries).dom().contains(entries[i].key@),
        spec_entries_map(entries)[entries[i].key@] == entries[i].usage,
    decreases entries.len(),
{
    if i < entries.len() - 1 {
        assert(entries.last().key@ != entries[i].key@);
        lemma_map_lookup(entries.drop_last(), i);
    }
}

/// Replacing the usage of the last entry with a key is an insertion into the map.
proof fn lemma_map_update(entries: Seq<UsageEntry>, i: int, e: UsageEntry)
    requires
        spec_last_entry(entries, e.key@, i),
    ensures
        spec_entries_map(entries.update(i, e)) == spec_entries_map(entries).insert(e.key@, e.usage),
    decreases entries.len(),
{
    let updated = entries.update(i, e);
    if i == entries.len() - 1 {
        assert(updated.drop_last() =~= entries.drop_last());
        assert(spec_entries_map(updated) =~= spec_entries_map(entries).insert(e.key@, e.usage));
    } else {
        assert(entries.last().key@ != e.key@);
        lemma_map_update(entries.drop_last(), i, e);
        assert(updated.drop_last() =~= entries.drop_last().update(i, e));
        assert(spec_entries_map(updated) =~= spec_entries_map(entries).insert(e.key@, e.usage));
    }
}

/// Starting a new window entry by entry starts it in the map.
proof fn lemma_map_reset(entries: Seq<UsageEntry>, fresh: Seq<UsageEntry>)
    requires
        fresh.len() == entries.len(),
        forall|i: int|
            0 <= i < entries.len() ==> fresh[i].key@ == entries[i].key@ && fresh[i].usage
                == entries[i].usage.spec_reset(),
    ensures
        spec_entries_map(fresh) == spec_entries_map(entries).map_values(
            |u: KeyUsage| u.spec_reset(),
        ),
    decreases entries.len(),
{
    let f = |u: KeyUsage| u.spec_reset();
    if entries.len() > 0 {
        lemma_map_reset(entries.drop_last(), fresh.drop_last());
        assert(spec_entries_map(fresh) =~= spec_entries_map(entries).map_values(f));
    } else {
        assert(spec_entries_map(fresh) =~= spec_entries_map(entries).map_values(f));
    }
}

/// The persisted state of the rotation.
#[derive(Debug)]
pub struct RotationStateData {
    last_reset: i64,
    current_index: usize,
    entries: Vec<UsageEntry>,
}

/// The mathematical value of the rotation state: usage by fingerprint.
pub struct RotationStateView {
    pub last_reset: int,
    pub current_index: nat,
    pub usage: Map<Seq<char>, KeyUsage>,
}

impl View for RotationStateData {
    type V = RotationStateView;

    closed spec fn view(&self) -> RotationStateView {
        RotationStateView {
            last_reset: self.last_reset as int,
            current_index: self.current_index as nat,
            usage: spec_entries_map(self.entries@),
        }
    }
}

/// The usage kept under a key, or that of a credential first seen at `now`.
pub open spec fn spec_usage_of(usage: Map<Seq<char>, KeyUsage>, key: Seq<char>, now: i64) -> KeyUsage {
    if usage.dom().contains(key) {
        usage[key]
    } else {
        spec_new_usage(now)
    }
}

/// The map with an entry for every secret of the list; a secret not seen
/// before is first seen at `now`.
pub open spec fn spec_ensure_all(
    usage: Map<Seq<char>, KeyUsage>,
    tokens: Seq<Seq<char>>,
    now: i64,
) -> Map<Seq<char>, KeyUsage>
    decreases tokens.len(),
{
    if tokens.len() == 0 {
        usage
    } else {
        let rest = spec_ensure_all(usage, tokens.drop_last(), now);
        let key = spec_key_hash(tokens.last());
        rest.insert(key, spec_usage_of(rest, key, now))
    }
}

/// The map with the failure flag cleared for every secret of the list.
pub open spec fn spec_clear_failed(
    usage: Map<Seq<char>, KeyUsage>,
    tokens: Seq<Seq<char>>,
    now: i64,
) -> Map<Seq<char>, KeyUsage>
    decreases tokens.len(),
{
    if tokens.len() == 0 {
        usage
    } else {
        let rest = spec_clear_failed(usage, tokens.drop_last(), now);
        let key = spec_key_hash(tokens.last());
        rest.insert(key, KeyUsage { failed: false, ..spec_usage_of(rest, key, now) })
    }
}

/// The test for a secret that may be picked.
pub open spec fn spec_usable_token(
    usage: Map<Seq<char>, KeyUsage>,
    daily_limit: int,
    now: i64,
) -> spec_fn(Seq<char>) -> bool {
    |t: Seq<char>| spec_usage_of(usage, spec_key_hash(t), now).spec_usable(daily_limit)
}

/// The secrets of the list that may be picked, in order.
pub open spec fn spec_available(
    tokens: Seq<Seq<char>>,
    usage: Map<Seq<char>, KeyUsage>,
    daily_limit: int,
    now: i64,
) -> Seq<Seq<char>> {
    tokens.filter(spec_usable_token(usage, daily_limit, now))
}

/// Whether every secret of the list is marked failed.
pub open spec fn spec_all_failed(
    tokens: Seq<Seq<char>>,
    usage: Map<Seq<char>, KeyUsage>,
    now: i64,
) -> bool {
    forall|i: int|
        0 <= i < tokens.len() ==> (#[trigger] spec_usage_of(
            usage,
            spec_key_hash(tokens[i]),
            now,
        )).failed
}

/// The score of a secret.
pub open spec fn spec_token_score(
    usage: Map<Seq<char>, KeyUsage>,
    token: Seq<char>,
    daily_limit: int,
    now: i64,
) -> int {
    spec_usage_of(usage, spec_key_hash(token), now).spec_score(daily_limit, now as int)
}

/// The best score among the first `n` secrets, `n` at least one, with the
/// position of the first secret that has it.
pub open spec fn spec_best(
    tokens: Seq<Seq<char>>,
    usage: Map<Seq<char>, KeyUsage>,
    daily_limit: int,
    now: i64,
    n: int,
) -> (int, int)
    decreases n,
{
    if n <= 1 {
        (spec_token_score(usage, tokens[0], daily_limit, now), 0)
    } else {
        let (best, at) = spec_best(tokens, usage, daily_limit, now, n - 1);
        let score = spec_token_score(usage, tokens[n - 1], daily_limit, now);
        if score > best {
            (score, n - 1)
        } else {
            (best, at)
        }
    }
}

/// What a selection decided.
#[derive(Debug)]
pub struct Selection {
    /// The secret to use, if there is one.
    pub token: Option<String>,
    /// Whether every secret was marked failed and the marks were cleared.
    pub healed: bool,
}

impl RotationStateView {
    /// The state at `now` with respect to the rolling window: unchanged
    /// while no more than the length of the window has passed since the
    /// last reset; after that counts and failure flags are cleared and the
    /// time is kept as that of the last reset. A state that was never
    /// reset has zero for that time.
    pub open spec fn daily_reset(self, now: i64) -> RotationStateView {
        if now - self.last_reset <= RESET_INTERVAL_MS {
            self
        } else {
            RotationStateView {
                last_reset: now as int,
                usage: self.usage.map_values(|u: KeyUsage| u.spec_reset()),
                ..self
            }
        }
    }

    /// The state with the usage under the fingerprint of `token` changed by `f`.
    pub open spec fn change(
        self,
        token: Seq<char>,
        now: i64,
        f: spec_fn(KeyUsage) -> KeyUsage,
    ) -> RotationStateView {
        let key = spec_key_hash(token);
        RotationStateView { usage: self.usage.insert(key, f(spec_usage_of(self.usage, key, now))), ..self }
    }

    /// The state after a failure of `token` is marked at `now`.
    pub open spec fn mark_failed(self, token: Seq<char>, now: i64) -> RotationStateView {
        self.change(token, now, |u: KeyUsage| KeyUsage { failed: true, ..u })
    }

    /// The state after a success of `token` is marked at `now`.
    pub open spec fn mark_success(self, token: Seq<char>, now: i64) -> RotationStateView {
        self.change(token, now, |u: KeyUsage| KeyUsage { failed: false, ..u })
    }

    /// The state after a call with `token` is recorded at `now`.
    pub open spec fn record_usage(self, token: Seq<char>, now: i64) -> RotationStateView {
        self.change(token, now, |u: KeyUsage| KeyUsage { count: (u.count + 1) as i32, last_used: now, ..u })
    }

    /// Whether the count of `token` has room for one more call.
    pub open spec fn can_record_usage(self, token: Seq<char>, now: i64) -> bool {
        spec_usage_of(self.usage, spec_key_hash(token), now).count < i32::MAX
    }

    /// The state after a call with `token` is recorded at `now`, if the
    /// count has room for it; the state as it is otherwise.
    pub open spec fn try_record_usage(self, token: Seq<char>, now: i64) -> RotationStateView {
        if self.can_record_usage(token, now) {
            self.record_usage(token, now)
        } else {
            self
        }
    }

    /// The state after the age verification flag of `token` is set at `now`.
    pub open spec fn set_age_verified(self, token: Seq<char>, verified: i32, now: i64) -> RotationStateView {
        self.change(token, now, |u: KeyUsage| KeyUsage { age_verified: verified, ..u })
    }

    /// The state in which a selection among `tokens` at `now` is made: the
    /// window is checked and every secret has an entry.
    pub open spec fn prepared(self, tokens: Seq<Seq<char>>, now: i64) -> RotationStateView {
        let s = self.daily_reset(now);
        RotationStateView { usage: spec_ensure_all(s.usage, tokens, now), ..s }
    }

    /// Whether a selection among `tokens` at `now` finds every secret
    /// failed, in which case it clears the marks.
    pub open spec fn heals(self, tokens: Seq<Seq<char>>, daily_limit: int, now: i64) -> bool {
        let s = self.prepared(tokens, now);
        spec_available(tokens, s.usage, daily_limit, now).len() == 0 && spec_all_failed(
            tokens,
            s.usage,
            now,
        )
    }

    /// The secret that a selection among `tokens` at `now` gives: among
    /// those that may be picked, the first with the highest score; the
    /// first of all if every secret was marked failed; none otherwise.
    pub open spec fn next_token(self, tokens: Seq<Seq<char>>, daily_limit: int, now: i64) -> Option<Seq<char>> {
        let s = self.prepared(tokens, now);
        let available = spec_available(tokens, s.usage, daily_limit, now);
        if available.len() == 0 {
            if spec_all_failed(tokens, s.usage, now) && tokens.len() > 0 {
                Some(tokens[0])
            } else {
                None
            }
        } else {
            Some(available[spec_best(available, s.usage, daily_limit, now, available.len() as int).1])
        }
    }

    /// The state after a selection among `tokens` at `now`.
    pub open spec fn after_next(self, tokens: Seq<Seq<char>>, daily_limit: int, now: i64) -> RotationStateView {
        let s = self.prepared(tokens, now);
        if self.heals(tokens, daily_limit, now) {
            RotationStateView { usage: spec_clear_failed(s.usage, tokens, now), ..s }
        } else {
            s
        }
    }
}

impl RotationStateData {
    /// An empty state that was never reset.
    pub fn new() -> (r: Self)
        ensures
            r@ == (RotationStateView { last_reset: 0, current_index: 0, usage: Map::empty() }),
    {
        RotationStateData { last_reset: 0, current_index: 0, entries: Vec::new() }
    }

    /// The state with the given stamps and entries; of two entries with the
    /// same key the later counts.
    pub fn from_entries(last_reset: i64, current_index: usize, entries: Vec<UsageEntry>) -> (r: Self)
        ensures
            r@ == (RotationStateView {
                last_reset: last_reset as int,
                current_index: current_index as nat,
                usage: spec_entries_map(entries@),
            }),
    {
        RotationStateData { last_reset, current_index, entries }
    }

    /// Time of the last reset; zero if there was none.
    pub fn last_reset(&self) -> (r: i64)
        ensures
            r == self@.last_reset,
    {
        self.last_reset
    }

    /// A position kept with the state for round-robin use.
    pub fn current_index(&self) -> (r: usize)
        ensures
            r == self@.current_index,
    {
        self.current_index
    }

    /// Copies of all entries; the map they stand for is the usage of the state.
    pub fn entries(&self) -> (r: Vec<UsageEntry>)
        ensures
            spec_entries_map(r@) == self@.usage,
    {
        let mut out: Vec<UsageEntry> = Vec::new();
        let mut i: usize = 0;
        while i < self.entries.len()
            invariant
                i <= self.entries.len(),
                out.len() == i,
                forall|j: int|
                    0 <= j < i ==> out[j].key@ == self.entries[j].key@ && out[j].usage
                        == self.entries[j].usage,
            decreases self.entries.len() - i,
        {
            out.push(UsageEntry { key: self.entries[i].key.clone(), usage: self.entries[i].usage });
            i += 1;
        }
        proof {
            lemma_same_map(self.entries@, out@);
        }
        out
    }

    /// Position of the last entry with the given key.
    fn index_of(&self, key: &str) -> (r: Option<usize>)
        ensures
            r matches Some(i) ==> spec_last_entry(self.entries@, key@, i as int),
            r is None ==> forall|i: int| 0 <= i < self.entries.len() ==> self.entries[i].key@ != key@,
    {
        let mut i: usize = self.entries.len();
        while i > 0
            invariant
                i <= self.entries.len(),
                forall|j: int| i <= j < self.entries.len() ==> self.entries[j].key@ != key@,
            decreases i,
        {
            i -= 1;
            if str_eq(self.entries[i].key.as_str(), key) {
                return Some(i);
            }
        }
        None
    }

    /// The usage kept under the key, if there is an entry for it.
    pub fn usage(&self, key: &str) -> (r: Option<KeyUsage>)
        ensures
            r is Some <==> self@.usage.dom().contains(key@),
            r matches Some(u) ==> u == self@.usage[key@],
    {
        proof {
            lemma_map_dom(self.entries@, key@);
        }
        match self.index_of(key) {
            Some(i) => {
                proof {
                    lemma_map_lookup(self.entries@, i as int);
                }
                Some(self.entries[i].usage)
            },
            None => None,
        }
    }

    /// Puts the usage under the key, replacing what was there.
    pub fn set_usage(&mut self, key: &str, usage: KeyUsage)
        ensures
            final(self)@ == (RotationStateView {
                usage: old(self)@.usage.insert(key@, usage),
                ..old(self)@
            }),
    {
        match self.index_of(key) {
            Some(i) => {
                let entry = UsageEntry { key: key.to_owned(), usage };
                proof {
                    lemma_map_update(self.entries@, i as int, entry);
                }
                self.entries.set(i, entry);
            },
            None => {
                let entry = UsageEntry { key: key.to_owned(), usage };
                proof {
                    assert(self.entries@.push(entry).drop_last() =~= self.entries@);
                }
                self.entries.push(entry);
            },
        }
    }

    /// The usage kept for a secret, or that of a credential first seen at `now`.
    pub fn get_usage_at(&self, token: &str, now: i64) -> (r: KeyUsage)
        ensures
            r == spec_usage_of(self@.usage, spec_key_hash(token@), now),
    {
        let key = key_hash(token);
        match self.usage(key.as_str()) {
            Some(u) => u,
            None => KeyUsage::new_at(now),
        }
    }

    /// Makes sure that there is an entry for the secret; one not seen
    /// before is first seen at `now`.
    pub fn ensure_usage_at(&mut self, token: &str, now: i64) -> (r: KeyUsage)
        ensures
            r == spec_usage_of(old(self)@.usage, spec_key_hash(token@), now),
            final(self)@ == old(self)@.change(token@, now, |u: KeyUsage| u),
    {
        let key = key_hash(token);
        let u = self.get_usage_at(token, now);
        self.set_usage(key.as_str(), u);
        u
    }

    /// Checks the rolling window at `now`.
    pub fn check_daily_reset_at(&mut self, now: i64)
        ensures
            final(self)@ == old(self)@.daily_reset(now),
    {
        if (now as i128) - (self.last_reset as i128) <= RESET_INTERVAL_MS as i128 {
            return ;
        }
        let mut fresh: Vec<UsageEntry> = Vec::new();
        let mut i: usize = 0;
        while i < self.entries.len()
            invariant
                i <= self.entries.len(),
                fresh.len() == i,
                forall|j: int|
                    0 <= j < i ==> fresh[j].key@ == self.entries[j].key@ && fresh[j].usage
                        == self.entries[j].usage.spec_reset(),
            decreases self.entries.len() - i,
        {
            let u = self.entries[i].usage;
            fresh.push(
                UsageEntry {
                    key: self.entries[i].key.clone(),
                    usage: KeyUsage { count: 0, failed: false, ..u },
                },
            );
            i += 1;
        }
        proof {
            lemma_map_reset(self.entries@, fresh@);
        }
        self.entries = fresh;
        self.last_reset = now;
    }

    /// The secrets of the list that may be picked at `now`, in order.
    pub fn get_available_tokens_at(&self, tokens: &Vec<String>, daily_limit: i32, now: i64) -> (r: Vec<String>)
        ensures
            strings_view(r@) == spec_available(
                strings_view(tokens@),
                self@.usage,
                daily_limit as int,
                now,
            ),
    {
        let ghost tv = strings_view(tokens@);
        let ghost usable = spec_usable_token(self@.usage, daily_limit as int, now);
        let mut out: Vec<String> = Vec::new();
        let mut i: usize = 0;
        proof {
            reveal(Seq::filter);
            assert(tv.take(0).filter(usable) =~= Seq::empty());
            assert(strings_view(out@) =~= Seq::empty());
        }
        while i < tokens.len()
            invariant
                i <= tokens.len(),
                tv == strings_view(tokens@),
                usable == spec_usable_token(self@.usage, daily_limit as int, now),
                strings_view(out@) == tv.take(i as int).filter(usable),
            decreases tokens.len() - i,
        {
            let u = self.get_usage_at(tokens[i].as_str(), now);
            proof {
                assert(tv.take(i + 1) =~= tv.take(i as int).push(tv[i as int]));
                tv.take(i as int).lemma_filter_push(tv[i as int], usable);
                assert(usable(tv[i as int]) == u.spec_usable(daily_limit as int));
            }
            if !(u.failed || u.count >= daily_limit) {
                let ghost prev = strings_view(out@);
                out.push(tokens[i].clone());
                assert(strings_view(out@) =~= prev.push(tv[i as int]));
            }
            i += 1;
        }
        assert(tv.take(i as int) =~= tv);
        out
    }

    /// Picks the secret to use next at `now`.
    pub fn get_next_sso_at(&mut self, tokens: &Vec<String>, daily_limit: i32, now: i64) -> (r: Selection)
        ensures
            final(self)@ == old(self)@.after_next(strings_view(tokens@), daily_limit as int, now),
            r.healed == old(self)@.heals(strings_view(tokens@), daily_limit as int, now),
            opt_chars(r.token) == old(self)@.next_token(
                strings_view(tokens@),
                daily_limit as int,
                now,
            ),
    {
        let ghost tv = strings_view(tokens@);
        self.check_daily_reset_at(now);
        let ghost s1 = self@;
        let mut i: usize = 0;
        assert(tv.take(0) =~= Seq::empty());
        while i < tokens.len()
            invariant
                i <= tokens.len(),
                tv == strings_view(tokens@),
                self@.last_reset == s1.last_reset,
                self@.current_index == s1.current_index,
                self@.usage == spec_ensure_all(s1.usage, tv.take(i as int), now),
            decreases tokens.len() - i,
        {
            proof {
                assert(tv.take(i + 1).drop_last() =~= tv.take(i as int));
                assert(tv.take(i + 1).last() == tv[i as int]);
            }
            self.ensure_usage_at(tokens[i].as_str(), now);
            i += 1;
        }
        assert(tv.take(i as int) =~= tv);
        assert(self@ == old(self)@.prepared(tv, now));
        let ghost s2 = self@;
        let available = self.get_available_tokens_at(tokens, daily_limit, now);
        let ghost av = strings_view(available@);
        if available.len() == 0 {
            let mut all_failed = true;
            let mut i: usize = 0;
            while i < tokens.len()
                invariant
                    i <= tokens.len(),
                    tv == strings_view(tokens@),
                    self@ == s2,
                    all_failed <==> forall|j: int|
                        0 <= j < i ==> (#[trigger] spec_usage_of(
                            s2.usage,
                            spec_key_hash(tv[j]),
                            now,
                        )).failed,
                decreases tokens.len() - i,
            {
                let u = self.get_usage_at(tokens[i].as_str(), now);
                assert(u == spec_usage_of(s2.usage, spec_key_hash(tv[i as int]), now));
                if !u.failed {
                    all_failed = false;
                }
                i += 1;
            }
            if !all_failed {
                return Selection { token: None, healed: false };
            }
            let mut i: usize = 0;
            assert(tv.take(0) =~= Seq::empty());
            while i < tokens.len()
                invariant
                    i <= tokens.len(),
                    tv == strings_view(tokens@),
                    self@.last_reset == s2.last_reset,
                    self@.current_index == s2.current_index,
                    self@.usage == spec_clear_failed(s2.usage, tv.take(i as int), now),
                decreases tokens.len() - i,
            {
                proof {
                    assert(tv.take(i + 1).drop_last() =~= tv.take(i as int));
                    assert(tv.take(i + 1).last() == tv[i as int]);
                }
                let key = key_hash(tokens[i].as_str());
                let u = self.get_usage_at(tokens[i].as_str(), now);
                self.set_usage(key.as_str(), KeyUsage { failed: false, ..u });
                i += 1;
            }
            assert(tv.take(i as int) =~= tv);
            let first = if tokens.len() > 0 {
                Some(tokens[0].clone())
            } else {
                None
            };
            return Selection { token: first, healed: true };
        }
        let first = self.get_usage_at(available[0].as_str(), now);
        let mut best: i128 = first.score(daily_limit, now);
        let mut at: usize = 0;
        let mut i: usize = 1;
        while i < available.len()
            invariant
                1 <= i <= available.len(),
                av == strings_view(available@),
                self@ == s2,
                at < available.len(),
                (best as int, at as int) == spec_best(av, s2.usage, daily_limit as int, now, i as int),
            decreases available.len() - i,
        {
            let u = self.get_usage_at(available[i].as_str(), now);
            let score = u.score(daily_limit, now);
            if score > best {
                best = score;
                at = i;
            }
            i += 1;
        }
        Selection { token: Some(available[at].clone()), healed: false }
    }

    /// Picks the secret to use next, now.
    pub fn get_next_sso(&mut self, tokens: &Vec<String>, daily_limit: i32) -> (r: Selection)
        ensures
            exists|now: i64|
                final(self)@ == #[trigger] old(self)@.after_next(
                    strings_view(tokens@),
                    daily_limit as int,
                    now,
                ) && r.healed == old(self)@.heals(strings_view(tokens@), daily_limit as int, now)
                    && opt_chars(r.token) == old(self)@.next_token(
                    strings_view(tokens@),
                    daily_limit as int,
                    now,
                ),
    {
        let now = now_millis();
        let r = self.get_next_sso_at(tokens, daily_limit, now);
        assert(self@ == old(self)@.after_next(strings_view(tokens@), daily_limit as int, now));
        r
    }

    /// Marks a failure of the secret, now.
    pub fn mark_failed(&mut self, token: &str)
        ensures
            exists|now: i64| final(self)@ == #[trigger] old(self)@.mark_failed(token@, now),
    {
        let now = now_millis();
        self.mark_failed_at(token, now);
        assert(self@ == old(self)@.mark_failed(token@, now));
    }

    /// Marks a success of the secret, now.
    pub fn mark_success(&mut self, token: &str)
        ensures
            exists|now: i64| final(self)@ == #[trigger] old(self)@.mark_success(token@, now),
    {
        let now = now_millis();
        self.mark_success_at(token, now);
        assert(self@ == old(self)@.mark_success(token@, now));
    }

    /// Records a call with the secret, now, and says whether it did. A
    /// count that has reached the largest number is left there.
    pub fn record_usage(&mut self, token: &str) -> (recorded: bool)
        ensures
            exists|now: i64|
                final(self)@ == #[trigger] old(self)@.try_record_usage(token@, now) && recorded
                    == old(self)@.can_record_usage(token@, now),
    {
        let now = now_millis();
        if self.get_usage_at(token, now).count < i32::MAX {
            self.record_usage_at(token, now);
            assert(self@ == old(self)@.try_record_usage(token@, now));
            true
        } else {
            assert(self@ == old(self)@.try_record_usage(token@, now));
            false
        }
    }

    /// Sets the age verification flag of the secret, now.
    pub fn set_age_verified(&mut self, token: &str, verified: i32)
        ensures
            exists|now: i64|
                final(self)@ == #[trigger] old(self)@.set_age_verified(token@, verified, now),
    {
        let now = now_millis();
        self.set_age_verified_at(token, verified, now);
        assert(self@ == old(self)@.set_age_verified(token@, verified, now));
    }

    /// Marks a failure of the secret at `now`; the mark stays until a
    /// success or the end of the window.
    pub fn mark_failed_at(&mut self, token: &str, now: i64)
        ensures
            final(self)@ == old(self)@.mark_failed(token@, now),
    {
        let key = key_hash(token);
        let u = self.get_usage_at(token, now);
        self.set_usage(key.as_str(), KeyUsage { failed: true, ..u });
    }

    /// Marks a success of the secret at `now`, clearing a failure mark.
    pub fn mark_success_at(&mut self, token: &str, now: i64)
        ensures
            final(self)@ == old(self)@.mark_success(token@, now),
    {
        let key = key_hash(token);
        let u = self.get_usage_at(token, now);
        self.set_usage(key.as_str(), KeyUsage { failed: false, ..u });
    }

    /// Records a call with the secret at `now`.
    pub fn record_usage_at(&mut self, token: &str, now: i64)
        requires
            old(self)@.can_record_usage(token@, now),
        ensures
            final(self)@ == old(self)@.record_usage(token@, now),
    {
        let key = key_hash(token);
        let u = self.get_usage_at(token, now);
        self.set_usage(key.as_str(), KeyUsage { count: u.count + 1, last_used: now, ..u });
    }

    /// The age verification flag of the secret; zero if it was never set.
    pub fn get_age_verified(&self, token: &str) -> (r: i32)
        ensures
            r == spec_usage_of(self@.usage, spec_key_hash(token@), 0).age_verified,
    {
        self.get_usage_at(token, 0).age_verified
    }

    /// Sets the age verification flag of the secret at `now`.
    pub fn set_age_verified_at(&mut self, token: &str, verified: i32, now: i64)
        ensures
            final(self)@ == old(self)@.set_age_verified(token@, verified, now),
    {
        let key = key_hash(token);
        let u = self.get_usage_at(token, now);
        self.set_usage(key.as_str(), KeyUsage { age_verified: verified, ..u });
    }
}

/// Two lists with the same keys and usages, place by place, stand for the same map.
proof fn lemma_same_map(a: Seq<UsageEntry>, b: Seq<UsageEntry>)
    requires
        a.len() == b.len(),
        forall|i: int| 0 <= i < a.len() ==> a[i].key@ == b[i].key@ && a[i].usage == b[i].usage,
    ensures
        spec_entries_map(a) == spec_entries_map(b),
    decreases a.len(),
{
    if a.len() > 0 {
        lemma_same_map(a.drop_last(), b.drop_last());
    }
}

/// The best score among the first `n` secrets is the score of the secret
/// at the position given and at least the score of each of them, and no
/// secret before that position has it: of secrets with the same score the
/// first is picked.
pub proof fn lemma_best_is_first_highest(
    tokens: Seq<Seq<char>>,
    usage: Map<Seq<char>, KeyUsage>,
    daily_limit: int,
    now: i64,
    n: int,
)
    requires
        1 <= n <= tokens.len(),
    ensures
        ({
            let (best, at) = spec_best(tokens, usage, daily_limit, now, n);
            &&& 0 <= at < n
            &&& spec_token_score(usage, tokens[at], daily_limit, now) == best
            &&& forall|j: int| 0 <= j < n ==> spec_token_score(usage, tokens[j], daily_limit, now) <= best
            &&& forall|j: int| 0 <= j < at ==> spec_token_score(usage, tokens[j], daily_limit, now) < best
        }),
    decreases n,
{
    if n > 1 {
        lemma_best_is_first_highest(tokens, usage, daily_limit, now, n - 1);
    }
}

/// The secret that a selection gives while some secret may be picked is
/// one that may be picked, and none that may be picked scores higher.
pub proof fn lemma_next_is_highest(
    state: RotationStateView,
    tokens: Seq<Seq<char>>,
    daily_limit: int,
    now: i64,
)
    requires
        spec_available(tokens, state.prepared(tokens, now).usage, daily_limit, now).len() > 0,
    ensures
        ({
            let usage = state.prepared(tokens, now).usage;
            let available = spec_available(tokens, usage, daily_limit, now);
            &&& state.next_token(tokens, daily_limit, now) is Some
            &&& available.contains(state.next_token(tokens, daily_limit, now)->0)
            &&& !state.heals(tokens, daily_limit, now)
            &&& forall|j: int|
                0 <= j < available.len() ==> spec_token_score(usage, available[j], daily_limit, now)
                    <= spec_token_score(
                    usage,
                    state.next_token(tokens, daily_limit, now)->0,
                    daily_limit,
                    now,
                )
        }),
{
    let usage = state.prepared(tokens, now).usage;
    let available = spec_available(tokens, usage, daily_limit, now);
    lemma_best_is_first_highest(available, usage, daily_limit, now, available.len() as int);
    let at = spec_best(available, usage, daily_limit, now, available.len() as int).1;
    assert(available[at] == state.next_token(tokens, daily_limit, now)->0);
}

/// A secret that is not marked failed and has used up its daily limit is
/// not picked when it is the only one: the selection gives none, and does
/// so until the window ends or the count is cleared.
pub proof fn lemma_exhausted_single(state: RotationStateView, token: Seq<char>, daily_limit: int, now: i64)
    requires
        now - state.last_reset <= RESET_INTERVAL_MS,
        state.usage.dom().contains(spec_key_hash(token)),
        !state.usage[spec_key_hash(token)].failed,
        state.usage[spec_key_hash(token)].count >= daily_limit,
    ensures
        state.next_token(seq![token], daily_limit, now) is None,
        !state.heals(seq![token], daily_limit, now),
{
    let tokens = seq![token];
    let key = spec_key_hash(token);
    let s = state.prepared(tokens, now);
    assert(tokens.drop_last() =~= Seq::<Seq<char>>::empty());
    assert(spec_ensure_all(state.usage, tokens.drop_last(), now) == state.usage);
    assert(s.usage == state.usage.insert(key, state.usage[key]));
    assert(s.usage =~= state.usage);
    let usable = spec_usable_token(s.usage, daily_limit, now);
    assert(!usable(token));
    reveal(Seq::filter);
    assert(tokens.drop_last().filter(usable) =~= Seq::<Seq<char>>::empty());
    assert(tokens.filter(usable) =~= Seq::<Seq<char>>::empty());
    assert(!spec_usage_of(s.usage, spec_key_hash(tokens[0]), now).failed);
}

/// A secret with calls left that is not marked failed is picked when it is
/// the only one and its score is above the floor.
pub proof fn lemma_usable_single(state: RotationStateView, token: Seq<char>, daily_limit: int, now: i64)
    requires
        now - state.last_reset <= RESET_INTERVAL_MS,
        state.usage.dom().contains(spec_key_hash(token)),
        state.usage[spec_key_hash(token)].spec_usable(daily_limit),
    ensures
        state.next_token(seq![token], daily_limit, now) == Some(token),
{
    let tokens = seq![token];
    let key = spec_key_hash(token);
    let s = state.prepared(tokens, now);
    assert(tokens.drop_last() =~= Seq::<Seq<char>>::empty());
    assert(spec_ensure_all(state.usage, tokens.drop_last(), now) == state.usage);
    assert(s.usage =~= state.usage);
    let usable = spec_usable_token(s.usage, daily_limit, now);
    assert(usable(token));
    reveal(Seq::filter);
    assert(tokens.drop_last().filter(usable) =~= Seq::<Seq<char>>::empty());
    assert(tokens.filter(usable) =~= tokens);
    let available = spec_available(tokens, s.usage, daily_limit, now);
    lemma_best_is_first_highest(available, s.usage, daily_limit, now, 1);
}

/// Once more than the length of the window has passed since the last
/// reset, a selection starts a new window: the time of the selection is
/// that of the last reset, every count kept is zero and no failure flag is
/// set; a secret that had used up its daily limit may be picked again, and
/// is picked when it is the only one.
pub proof fn lemma_new_window(state: RotationStateView, token: Seq<char>, daily_limit: int, now: i64)
    requires
        now - state.last_reset > RESET_INTERVAL_MS,
        daily_limit > 0,
    ensures
        state.next_token(seq![token], daily_limit, now) == Some(token),
        !state.heals(seq![token], daily_limit, now),
        state.after_next(seq![token], daily_limit, now).last_reset == now,
        forall|key: Seq<char>|
            state.after_next(seq![token], daily_limit, now).usage.dom().contains(key) ==> (
            #[trigger] state.after_next(seq![token], daily_limit, now).usage[key]).count == 0 && !state.after_next(
                seq![token],
                daily_limit,
                now,
            ).usage[key].failed,
{
    let tokens = seq![token];
    let key = spec_key_hash(token);
    let r = state.daily_reset(now);
    let s = state.prepared(tokens, now);
    assert(tokens.drop_last() =~= Seq::<Seq<char>>::empty());
    assert(spec_ensure_all(r.usage, tokens.drop_last(), now) == r.usage);
    assert(s.usage == r.usage.insert(key, spec_usage_of(r.usage, key, now)));
    assert forall|k: Seq<char>| s.usage.dom().contains(k) implies (#[trigger] s.usage[k]).count == 0
        && !s.usage[k].failed by {
        if k != key {
            assert(state.usage.dom().contains(k));
        } else if r.usage.dom().contains(key) {
            assert(state.usage.dom().contains(key));
        }
    }
    let usable = spec_usable_token(s.usage, daily_limit, now);
    assert(s.usage.dom().contains(key));
    assert(usable(token));
    reveal(Seq::filter);
    assert(tokens.drop_last().filter(usable) =~= Seq::<Seq<char>>::empty());
    assert(tokens.filter(usable) =~= tokens);
    let available = spec_available(tokens, s.usage, daily_limit, now);
    lemma_best_is_first_highest(available, s.usage, daily_limit, now, 1);
}

} // verus!
