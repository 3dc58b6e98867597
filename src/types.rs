//! Plain records exchanged with the forge, the dashboard and the
//! configuration, with the few computations that belong to them.

use vstd::prelude::*;
use vstd::string::*;

verus! {

/// A forge user as webhooks describe it.
#[derive(Debug, Clone)]
pub struct User {
    pub id: i64,
    pub login: String,
    pub user_type: Option<String>,
}

#[derive(Debug, Clone)]
pub struct Repository {
    pub id: i64,
    pub name: String,
    pub full_name: String,
    pub owner: User,
}

#[derive(Debug, Clone)]
pub struct PullRequest {
    pub number: i64,
    pub title: String,
    pub body: Option<String>,
    pub user: User,
    pub state: String,
    pub merged: Option<bool>,
    pub html_url: String,
}

#[derive(Debug, Clone)]
pub struct Comment {
    pub id: i64,
    pub body: String,
    pub user: User,
    pub html_url: String,
}

#[derive(Debug, Clone)]
pub struct Review {
    pub id: i64,
    pub body: Option<String>,
    pub user: User,
    pub state: String,
    pub html_url: String,
}

#[derive(Debug, Clone)]
pub struct PullRequestReference {
    pub url: String,
}

#[derive(Debug, Clone)]
pub struct Issue {
    pub number: i64,
    pub title: String,
    pub user: User,
    /// Present when the issue is a pull request.
    pub pull_request: Option<PullRequestReference>,
}

/// A `pull_request` delivery.
#[derive(Debug, Clone)]
pub struct PullRequestEvent {
    pub action: String,
    pub number: i64,
    pub pull_request: PullRequest,
    pub repository: Repository,
    pub sender: User,
}

/// An `issue_comment` delivery.
#[derive(Debug, Clone)]
pub struct IssueCommentEvent {
    pub action: String,
    pub issue: Issue,
    pub comment: Comment,
    pub repository: Repository,
    pub sender: User,
}

/// A `pull_request_review` delivery.
#[derive(Debug, Clone)]
pub struct PullRequestReviewEvent {
    pub action: String,
    pub review: Review,
    pub pull_request: PullRequest,
    pub repository: Repository,
    pub sender: User,
}

/// Where the server listens.
#[derive(Debug, Clone)]
pub struct ServerConfig {
    pub host: String,
    pub port: u16,
}

impl Default for ServerConfig {
    fn default() -> (r: ServerConfig)
        ensures
            r.host@ == "127.0.0.1"@,
            r.port == 8080,
    {
        ServerConfig { host: String::from_str("127.0.0.1"), port: 8080 }
    }
}

#[derive(Debug, Clone)]
pub struct DatabaseConfig {
    pub url: String,
    pub max_connections: u32,
}

#[derive(Debug, Clone)]
pub struct GithubConfig {
    pub app_id: u64,
    pub installation_id: u64,
    pub private_key_path: String,
    pub webhook_secret: String,
    pub api_url: Option<String>,
    pub oauth_client_id: String,
    pub oauth_client_secret: String,
    pub oauth_redirect_url: String,
}

/// The maintainer login flow's client settings.
#[derive(Debug, Clone)]
pub struct OAuthConfig {
    pub client_id: String,
    pub client_secret: String,
    pub redirect_url: String,
}

/// Default number of classifications in flight at once.
pub fn default_max_concurrent_llm_evals() -> (r: usize)
    ensures
        r == 10,
{
    10
}

pub fn default_oauth_client_id() -> (r: String)
    ensures
        r@ == Seq::<char>::empty(),
{
    String::new()
}

pub fn default_oauth_client_secret() -> (r: String)
    ensures
        r@ == Seq::<char>::empty(),
{
    String::new()
}

pub fn default_oauth_redirect_url() -> (r: String)
    ensures
        r@ == "http://localhost:8080/auth/callback"@,
{
    String::from_str("http://localhost:8080/auth/callback")
}

/// Default page of a listing.
pub fn default_page() -> (r: i64)
    ensures
        r == 1,
{
    1
}

/// Default page length of a listing.
pub fn default_per_page() -> (r: i64)
    ensures
        r == 20,
{
    20
}

/// Paging of a dashboard listing, with an optional status filter.
#[derive(Debug, Clone)]
pub struct PaginationQuery {
    pub page: i64,
    pub per_page: i64,
    pub status: Option<String>,
}

impl PaginationQuery {
    /// Rows skipped before the page: `(page - 1) * per_page`.
    pub fn offset(&self) -> (r: i64)
        requires
            self.page > i64::MIN,
            i64::MIN <= (self.page - 1) * self.per_page <= i64::MAX,
        ensures
            r == (self.page - 1) * self.per_page,
    {
        (self.page - 1) * self.per_page
    }
}

/// Paging of the event listing, with optional filters.
#[derive(Debug, Clone)]
pub struct EventsFilterQuery {
    pub page: i64,
    pub per_page: i64,
    pub contributor_id: Option<i64>,
    pub event_type: Option<String>,
}

/// One page of a listing.
#[derive(Debug, Clone)]
pub struct PaginatedResponse<T> {
    pub data: Vec<T>,
    pub page: i64,
    pub per_page: i64,
    pub total: i64,
    pub total_pages: i64,
}

impl<T> PaginatedResponse<T> {
    /// A page of `total` rows split `per_page` to a page; the page count
    /// rounds up.
    pub fn new(data: Vec<T>, page: i64, per_page: i64, total: i64) -> (r: PaginatedResponse<T>)
        requires
            per_page > 0,
            total >= 0,
            total + per_page - 1 <= i64::MAX,
        ensures
            r.data == data,
            r.page == page,
            r.per_page == per_page,
            r.total == total,
            r.total_pages == (total + per_page - 1) / (per_page as int),
    {
        let total_pages = (total + (per_page - 1)) / per_page;
        PaginatedResponse { data, page, per_page, total, total_pages }
    }
}

#[derive(Debug, Clone)]
pub struct ContributorResponse {
    pub id: i64,
    pub github_user_id: i64,
    pub username: String,
    pub credit_score: i32,
    pub role: Option<String>,
    pub is_blacklisted: bool,
    pub last_activity: String,
}

#[derive(Debug, Clone)]
pub struct CreditEventResponse {
    pub id: i64,
    pub contributor_id: i64,
    pub event_type: String,
    pub delta: i32,
    pub credit_before: i32,
    pub credit_after: i32,
    pub llm_evaluation: Option<String>,
    pub maintainer_override: Option<String>,
    pub created_at: String,
}

/// A maintainer's replacement delta for a pending evaluation.
#[derive(Debug, Clone)]
pub struct OverrideRequest {
    pub delta: i32,
    pub reason: String,
}

/// A maintainer's manual credit adjustment.
#[derive(Debug, Clone)]
pub struct AdjustCreditRequest {
    pub delta: i32,
    pub reason: String,
}

/// The signed-in maintainer.
#[derive(Debug, Clone)]
pub struct GithubUser {
    pub id: i64,
    pub login: String,
    pub name: Option<String>,
    pub email: Option<String>,
}

/// The query of the login callback.
#[derive(Debug, Clone)]
pub struct AuthCallbackParams {
    pub code: String,
    pub state: String,
}

/// Body of an error reply.
#[derive(Debug, Clone)]
pub struct ErrorResponse {
    pub error: String,
    pub message: String,
}

/// Errors of the policy engine's configuration.
#[derive(Debug, Clone)]
pub enum CoreError {
    InvalidConfig(String),
    InvalidEventType(String),
    InvalidQuality(String),
    CreditCalculationError(String),
}

#[derive(Debug, Clone)]
pub struct DatabaseStatus {
    pub connected: bool,
    pub driver: String,
}

#[derive(Debug, Clone)]
pub struct LlmProviderStatus {
    pub provider: String,
    pub available: bool,
}

/// The health report.
#[derive(Debug, Clone)]
pub struct HealthResponse {
    pub status: String,
    pub version: String,
    pub uptime_seconds: u64,
    pub database: DatabaseStatus,
    pub llm_provider: LlmProviderStatus,
}

impl HealthResponse {
    /// The report for the two probes: `healthy` when both succeed,
    /// `degraded` otherwise.
    pub fn new(version: String, uptime_seconds: u64, database: DatabaseStatus, llm_provider: LlmProviderStatus) -> (r: HealthResponse)
        ensures
            r.status@ == (if database.connected && llm_provider.available { "healthy"@ } else { "degraded"@ }),
            r.version == version,
            r.uptime_seconds == uptime_seconds,
            r.database == database,
            r.llm_provider == llm_provider,
    {
        let status = if database.connected && llm_provider.available {
            String::from_str("healthy")
        } else {
            String::from_str("degraded")
        };
        HealthResponse { status, version, uptime_seconds, database, llm_provider }
    }
}

/// Seconds since `start`, or none when the clock reads earlier.
pub fn uptime_seconds(start: u64, now: u64) -> (r: u64)
    ensures
        r == (if now >= start { now - start } else { 0 }),
{
    if now >= start {
        now - start
    } else {
        0
    }
}

/// Webhook deliveries are not rate limited here: the forge paces them and
/// every one is authenticated.
pub fn webhook_rate_limiter() {
}

/// Dashboard calls are not rate limited here: they require a maintainer
/// session.
pub fn admin_rate_limiter() {
}

} // verus!
