//! Preparing a bulk operation over credentials, and summing up its results.

use vstd::prelude::*;
use crate::text::{
    decimal_u64, spec_decimal_nat, spec_trim, str_chars, str_eq, string_from_range, strings_view,
    trim,
};

verus! {

/// Number of characters above which a secret is shown masked.
pub const MASK_ABOVE: usize = 20;

/// Number of characters that are shown at either end of a masked secret.
pub const MASK_KEEP: usize = 8;

/// The secrets that a request names: the single one, if given, and then
/// those of the list, if given.
pub fn collect_tokens(token: Option<String>, tokens: Option<Vec<String>>) -> (r: Vec<String>)
    ensures
        strings_view(r@) == match token {
            Some(t) => seq![t@],
            None => Seq::empty(),
        } + match tokens {
            Some(list) => strings_view(list@),
            None => Seq::empty(),
        },
{
    let mut out: Vec<String> = Vec::new();
    match token {
        Some(t) => {
            out.push(t);
        },
        None => {},
    }
    let ghost head = strings_view(out@);
    match tokens {
        Some(mut list) => {
            let ghost tail = strings_view(list@);
            out.append(&mut list);
            assert(strings_view(out@) =~= head + tail);
        },
        None => {
            assert(strings_view(out@) =~= head + Seq::empty());
        },
    }
    out
}

/// The secrets of a list as they are worked on: each trimmed, without the
/// empty ones, and without one that repeats the one before it.
pub open spec fn spec_clean_tokens(tokens: Seq<Seq<char>>) -> Seq<Seq<char>>
    decreases tokens.len(),
{
    if tokens.len() == 0 {
        Seq::empty()
    } else {
        let rest = spec_clean_tokens(tokens.drop_last());
        let t = spec_trim(tokens.last());
        if t.len() == 0 || (rest.len() > 0 && rest.last() == t) {
            rest
        } else {
            rest.push(t)
        }
    }
}

/// The secrets of a list as they are worked on.
pub fn clean_tokens(tokens: &Vec<String>) -> (r: Vec<String>)
    ensures
        strings_view(r@) == spec_clean_tokens(strings_view(tokens@)),
{
    let ghost tv = strings_view(tokens@);
    let mut out: Vec<String> = Vec::new();
    let mut i: usize = 0;
    proof {
        assert(tv.take(0) =~= Seq::empty());
        assert(strings_view(out@) =~= Seq::empty());
    }
    while i < tokens.len()
        invariant
            i <= tokens.len(),
            tv == strings_view(tokens@),
            strings_view(out@) == spec_clean_tokens(tv.take(i as int)),
        decreases tokens.len() - i,
    {
        proof {
            assert(tv.take(i + 1).drop_last() =~= tv.take(i as int));
            assert(tv.take(i + 1).last() == tv[i as int]);
        }
        let t = trim(tokens[i].as_str());
        let repeats = out.len() > 0 && str_eq(out[out.len() - 1].as_str(), t.as_str());
        proof {
            if out.len() > 0 {
                assert(strings_view(out@).last() == out[out.len() - 1]@);
            }
        }
        if !t.as_str().is_empty() && !repeats {
            let ghost prev = strings_view(out@);
            out.push(t);
            assert(strings_view(out@) =~= prev.push(t@));
        }
        i += 1;
    }
    assert(tv.take(i as int) =~= tv);
    out
}

/// What of a list of secrets a bulk operation works on.
#[derive(Debug)]
pub struct BatchPlan {
    /// The secrets that are worked on.
    pub tokens: Vec<String>,
    /// Whether some were left out because there were too many.
    pub truncated: bool,
    /// Number of secrets before any were left out.
    pub original_count: usize,
}

/// Plans a bulk operation over the secrets: at most `max_tokens` of them
/// are worked on, the first ones.
pub fn plan_batch(tokens: Vec<String>, max_tokens: usize) -> (r: BatchPlan)
    ensures
        r.original_count == tokens.len(),
        r.truncated == (tokens.len() > max_tokens),
        r.tokens@ == if tokens.len() > max_tokens {
            tokens@.take(max_tokens as int)
        } else {
            tokens@
        },
{
    let original_count = tokens.len();
    let truncated = original_count > max_tokens;
    let mut kept = tokens;
    if truncated {
        kept.truncate(max_tokens);
        assert(kept@ =~= tokens@.take(max_tokens as int));
    }
    BatchPlan { tokens: kept, truncated, original_count }
}

/// The warning that tells that some secrets were left out.
pub open spec fn spec_truncation_warning(max_tokens: usize, original_count: usize) -> Seq<char> {
    "数量超出限制，仅处理前 "@ + spec_decimal_nat(max_tokens as int) + " 个（共 "@ + spec_decimal_nat(
        original_count as int,
    ) + " 个）"@
}

/// The warning that tells that some secrets were left out.
pub fn truncation_warning(max_tokens: usize, original_count: usize) -> (r: String)
    ensures
        r@ == spec_truncation_warning(max_tokens, original_count),
{
    let mut out = "数量超出限制，仅处理前 ".to_owned();
    out.append(decimal_u64(max_tokens as u64).as_str());
    out.append(" 个（共 ");
    out.append(decimal_u64(original_count as u64).as_str());
    out.append(" 个）");
    out
}

/// A text of more than `above` characters by its first `head` and its
/// last `tail` with three dots between; a shorter one whole.
pub open spec fn spec_mask(token: Seq<char>, above: int, head: int, tail: int) -> Seq<char> {
    if token.len() > above {
        token.take(head) + "..."@ + token.skip(token.len() - tail)
    } else {
        token
    }
}

/// Masks a text of more than `above` characters.
fn mask(token: &str, above: usize, head: usize, tail: usize) -> (r: String)
    requires
        head <= above,
        tail <= above,
    ensures
        r@ == spec_mask(token@, above as int, head as int, tail as int),
{
    let chars = str_chars(token);
    if chars.len() > above {
        let mut out = string_from_range(&chars, 0, head);
        out.append("...");
        out.append(string_from_range(&chars, chars.len() - tail, chars.len()).as_str());
        proof {
            assert(chars@.subrange(0, head as int) =~= chars@.take(head as int));
            assert(chars@.subrange(chars.len() - tail, chars.len() as int) =~= chars@.skip(
                chars.len() - tail,
            ));
        }
        out
    } else {
        token.to_owned()
    }
}

/// A secret as it is shown: one of more than twenty characters by its
/// first eight and its last eight with three dots between, any other whole.
pub open spec fn spec_mask_token(token: Seq<char>) -> Seq<char> {
    spec_mask(token, MASK_ABOVE as int, MASK_KEEP as int, MASK_KEEP as int)
}

/// A secret as it is shown.
pub fn mask_token(token: &str) -> (r: String)
    ensures
        r@ == spec_mask_token(token@),
{
    mask(token, MASK_ABOVE, MASK_KEEP, MASK_KEEP)
}

/// A secret as the list of accounts shows it: one of more than
/// twenty-four characters by its first eight and its last sixteen with
/// three dots between, any other whole.
pub open spec fn spec_mask_account(token: Seq<char>) -> Seq<char> {
    spec_mask(token, 24, 8, 16)
}

/// A secret as the list of accounts shows it.
pub fn mask_account(token: &str) -> (r: String)
    ensures
        r@ == spec_mask_account(token@),
{
    mask(token, 24, 8, 16)
}

/// How many items of a bulk operation succeeded and how many failed.
#[derive(Debug, Clone, Copy, PartialEq, Eq, Structural)]
pub struct BatchSummary {
    pub total: usize,
    pub ok: usize,
    pub fail: usize,
}

/// Number of set flags in a list.
pub open spec fn spec_count_true(flags: Seq<bool>) -> nat
    decreases flags.len(),
{
    if flags.len() == 0 {
        0
    } else {
        spec_count_true(flags.drop_last()) + if flags.last() {
            1nat
        } else {
            0nat
        }
    }
}

/// Sums up the outcomes of a bulk operation over `total` items, of which
/// each flag tells whether one succeeded.
pub fn summarize(total: usize, outcomes: &Vec<bool>) -> (r: BatchSummary)
    ensures
        r.total == total,
        r.ok == spec_count_true(outcomes@),
        r.ok + r.fail == outcomes.len(),
{
    let mut ok: usize = 0;
    let mut i: usize = 0;
    assert(outcomes@.take(0) =~= Seq::empty());
    while i < outcomes.len()
        invariant
            i <= outcomes.len(),
            ok == spec_count_true(outcomes@.take(i as int)),
            ok <= i,
        decreases outcomes.len() - i,
    {
        proof {
            assert(outcomes@.take(i + 1).drop_last() =~= outcomes@.take(i as int));
            assert(outcomes@.take(i + 1).last() == outcomes@[i as int]);
        }
        if outcomes[i] {
            ok += 1;
        }
        i += 1;
    }
    assert(outcomes@.take(i as int) =~= outcomes@);
    BatchSummary { total, ok, fail: outcomes.len() - ok }
}

} // verus!
