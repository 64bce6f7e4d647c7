//! The Codex account record, as far as the gateway and the quota logic read it.
use vstd::prelude::*;

verus! {

/// How an account authenticates against its upstream.
#[derive(Debug, Clone, Copy, PartialEq, Eq, Structural)]
pub enum CodexAuthMode {
    OAuth,
    ApiKey,
}

/// Which kind of upstream an API-key account talks to.
#[derive(Debug, Clone, Copy, PartialEq, Eq, Structural)]
pub enum CodexApiProviderMode {
    OpenAi,
    Custom,
}

/// OAuth tokens of an account.
#[derive(Debug, Clone)]
pub struct CodexTokens {
    pub id_token: String,
    pub access_token: String,
    pub refresh_token: Option<String>,
}

/// Remaining quota of an account, in percent per window.
#[derive(Debug, Clone)]
pub struct CodexQuota {
    pub hourly_percentage: i32,
    pub hourly_reset_time: Option<i64>,
    pub hourly_window_minutes: Option<i64>,
    pub hourly_window_present: Option<bool>,
    pub weekly_percentage: i32,
    pub weekly_reset_time: Option<i64>,
    pub weekly_window_minutes: Option<i64>,
    pub weekly_window_present: Option<bool>,
}

/// An error recorded by the last quota refresh.
#[derive(Debug, Clone)]
pub struct CodexQuotaErrorInfo {
    pub code: Option<String>,
    pub message: String,
    pub timestamp: i64,
}

/// A Codex account.
#[derive(Debug, Clone)]
pub struct CodexAccount {
    pub id: String,
    pub email: String,
    pub tokens: CodexTokens,
    pub auth_mode: CodexAuthMode,
    pub openai_api_key: Option<String>,
    pub api_base_url: Option<String>,
    pub api_provider_mode: Option<CodexApiProviderMode>,
    pub api_provider_id: Option<String>,
    pub api_provider_name: Option<String>,
    pub account_name: Option<String>,
    pub account_id: Option<String>,
    pub plan_type: Option<String>,
    pub auth_file_plan_type: Option<String>,
    pub subscription_active_until: Option<String>,
    pub subscription_query_last_attempt_at: Option<i64>,
    pub subscription_query_next_retry_at: Option<i64>,
    pub subscription_query_last_success_at: Option<i64>,
    pub subscription_query_last_error: Option<String>,
    pub quota: Option<CodexQuota>,
    pub quota_error: Option<CodexQuotaErrorInfo>,
    pub usage_updated_at: Option<i64>,
    pub bound_oauth_account_id: Option<String>,
}

impl CodexAccount {
    /// An OAuth account with the given tokens and nothing else known.
    pub fn new(id: String, email: String, tokens: CodexTokens) -> (r: CodexAccount)
        ensures
            r.id == id,
            r.email == email,
            r.tokens == tokens,
            r.auth_mode == CodexAuthMode::OAuth,
            r.openai_api_key is None,
            r.api_base_url is None,
            r.api_provider_mode is None,
            r.api_provider_id is None,
            r.api_provider_name is None,
            r.account_name is None,
            r.account_id is None,
            r.plan_type is None,
            r.auth_file_plan_type is None,
            r.subscription_active_until is None,
            r.subscription_query_last_attempt_at is None,
            r.subscription_query_next_retry_at is None,
            r.subscription_query_last_success_at is None,
            r.subscription_query_last_error is None,
            r.quota is None,
            r.quota_error is None,
            r.usage_updated_at is None,
            r.bound_oauth_account_id is None,
    {
        CodexAccount {
            id,
            email,
            tokens,
            auth_mode: CodexAuthMode::OAuth,
            openai_api_key: None,
            api_base_url: None,
            api_provider_mode: None,
            api_provider_id: None,
            api_provider_name: None,
            account_name: None,
            account_id: None,
            plan_type: None,
            auth_file_plan_type: None,
            subscription_active_until: None,
            subscription_query_last_attempt_at: None,
            subscription_query_next_retry_at: None,
            subscription_query_last_success_at: None,
            subscription_query_last_error: None,
            quota: None,
            quota_error: None,
            usage_updated_at: None,
            bound_oauth_account_id: None,
        }
    }

    /// An API-key account with empty OAuth tokens.
    pub fn new_api_key(
        id: String,
        email: String,
        api_key: String,
        provider_mode: CodexApiProviderMode,
        api_base_url: Option<String>,
        api_provider_id: Option<String>,
        api_provider_name: Option<String>,
    ) -> (r: CodexAccount)
        ensures
            r.id == id,
            r.email == email,
            r.auth_mode == CodexAuthMode::ApiKey,
            r.openai_api_key == Some(api_key),
            r.api_base_url == api_base_url,
            r.api_provider_mode == Some(provider_mode),
            r.api_provider_id == api_provider_id,
            r.api_provider_name == api_provider_name,
            r.tokens.id_token@ == Seq::<char>::empty(),
            r.tokens.access_token@ == Seq::<char>::empty(),
            r.tokens.refresh_token is None,
            r.account_name is None,
            r.account_id is None,
            r.plan_type is None,
            r.auth_file_plan_type is None,
            r.subscription_active_until is None,
            r.quota is None,
            r.quota_error is None,
            r.bound_oauth_account_id is None,
    {
        CodexAccount {
            id,
            email,
            tokens: CodexTokens {
                id_token: String::new(),
                access_token: String::new(),
                refresh_token: None,
            },
            auth_mode: CodexAuthMode::ApiKey,
            openai_api_key: Some(api_key),
            api_base_url,
            api_provider_mode: Some(provider_mode),
            api_provider_id,
            api_provider_name,
            account_name: None,
            account_id: None,
            plan_type: None,
            auth_file_plan_type: None,
            subscription_active_until: None,
            subscription_query_last_attempt_at: None,
            subscription_query_next_retry_at: None,
            subscription_query_last_success_at: None,
            subscription_query_last_error: None,
            quota: None,
            quota_error: None,
            usage_updated_at: None,
            bound_oauth_account_id: None,
        }
    }

    /// Whether the account authenticates with an API key rather than OAuth.
    pub fn is_api_key_auth(&self) -> (r: bool)
        ensures
            r == (self.auth_mode == CodexAuthMode::ApiKey),
    {
        self.auth_mode == CodexAuthMode::ApiKey
    }
}

} // verus!
