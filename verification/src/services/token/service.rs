//! The way from a model to a credential.

use vstd::prelude::*;
use crate::common::exceptions::{ApiError, ApiErrorView, ErrorType};
use crate::services::grok::model::{spec_pool_for_model, ModelService};
use crate::services::token::manager::{spec_pool, TokenManager};
use crate::services::token::models::{spec_raw_token, EffortType};
use crate::services::token::pool::{spec_any_available, spec_selectable};

verus! {

/// What a client is told when no credential is available.
pub open spec fn spec_exhausted_message() -> Seq<char> {
    "No available tokens. Please try again later."@
}

/// Credentials for models.
#[derive(Debug, Clone, Copy)]
pub struct TokenService;

impl TokenService {
    /// A credential for a call of the given model: one of the most-quota
    /// available credentials of the pool that serves the model, or the
    /// rate-limit error when that pool has none.
    pub fn get_token_for_model(mgr: &TokenManager, model: &str) -> (r: Result<String, ApiError>)
        ensures
            r is Ok <==> (spec_pool(mgr@.pools, spec_pool_for_model(model@)) matches Some(pool)
                && spec_any_available(pool.tokens)),
            r matches Ok(s) ==> exists|i: int|
                spec_selectable(spec_pool(mgr@.pools, spec_pool_for_model(model@))->0.tokens, i)
                    && s@ == spec_raw_token(
                    spec_pool(mgr@.pools, spec_pool_for_model(model@))->0.tokens[i].token,
                ),
            r matches Err(e) ==> e@ == ApiErrorView::of(
                429,
                spec_exhausted_message(),
                ErrorType::RateLimitError,
                "rate_limit_exceeded"@,
            ),
    {
        let pool = ModelService::pool_for_model(model);
        match mgr.get_token(pool.as_str()) {
            Some(token) => Ok(token),
            None => Err(ApiError::rate_limit("No available tokens. Please try again later.")),
        }
    }

    /// Charges one operation of the given effort to the credential, and
    /// says whether the manager knows it.
    pub fn consume(mgr: &mut TokenManager, token: &str, effort: EffortType) -> (found: bool)
        requires
            old(mgr)@.find(spec_raw_token(token@)) matches Some(t) ==> t.consume_fits(effort),
        ensures
            found == old(mgr)@.knows(token@),
            exists|now: int| final(mgr)@ == #[trigger] old(mgr)@.consume(token@, effort, now),
            final(mgr)@.wf() == old(mgr)@.wf(),
    {
        mgr.consume(token, effort)
    }
}

} // verus!
