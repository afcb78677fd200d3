//! Plain records: users, GitHub app settings, request logs, proxy routes
//! and deployment jobs.
use vstd::prelude::*;

use crate::ids::{clock_now, fresh_id, timestamp_before, ts_before, Timestamp};
use crate::models::RolloutStrategy;
use crate::text::owned;

verus! {

/// A user account.
#[derive(Debug, Clone)]
pub struct User {
    pub id: u128,
    pub email: String,
    pub password_hash: Option<String>,
    pub github_id: Option<i64>,
    pub github_username: Option<String>,
    pub github_access_token: Option<String>,
    pub is_admin: bool,
    pub created_at: Timestamp,
    pub updated_at: Timestamp,
}

impl User {
    /// A user with an email and password, with the given identifier and
    /// creation time.
    pub fn new_with_password_at(id: u128, email: String, password_hash: String, now: Timestamp) -> (r:
        User)
        ensures
            r.id == id,
            r.email@ == email@,
            r.password_hash.deep_view() == Some(password_hash@),
            r.github_id is None,
            r.github_username is None,
            r.github_access_token is None,
            !r.is_admin,
            r.created_at == now,
            r.updated_at == now,
    {
        User {
            id,
            email,
            password_hash: Some(password_hash),
            github_id: None,
            github_username: None,
            github_access_token: None,
            is_admin: false,
            created_at: now,
            updated_at: now,
        }
    }

    /// A new user who signs in with an email and password.
    pub fn new_with_password(email: String, password_hash: String) -> (r: User)
        ensures
            r.email@ == email@,
            r.password_hash.deep_view() == Some(password_hash@),
            r.github_id is None,
            r.github_username is None,
            r.github_access_token is None,
            !r.is_admin,
            r.created_at == r.updated_at,
    {
        Self::new_with_password_at(fresh_id(), email, password_hash, clock_now())
    }

    /// A user who signs in through GitHub, with the given identifier and
    /// creation time.
    pub fn new_with_github_at(
        id: u128,
        email: String,
        github_id: i64,
        github_username: String,
        now: Timestamp,
    ) -> (r: User)
        ensures
            r.id == id,
            r.email@ == email@,
            r.password_hash is None,
            r.github_id == Some(github_id),
            r.github_username.deep_view() == Some(github_username@),
            r.github_access_token is None,
            !r.is_admin,
            r.created_at == now,
            r.updated_at == now,
    {
        User {
            id,
            email,
            password_hash: None,
            github_id: Some(github_id),
            github_username: Some(github_username),
            github_access_token: None,
            is_admin: false,
            created_at: now,
            updated_at: now,
        }
    }

    /// A new user who signs in through GitHub.
    pub fn new_with_github(email: String, github_id: i64, github_username: String) -> (r: User)
        ensures
            r.email@ == email@,
            r.password_hash is None,
            r.github_id == Some(github_id),
            r.github_username.deep_view() == Some(github_username@),
            r.github_access_token is None,
            !r.is_admin,
            r.created_at == r.updated_at,
    {
        Self::new_with_github_at(fresh_id(), email, github_id, github_username, clock_now())
    }
}

/// An installation of a GitHub app on a user or organisation account.
#[derive(Debug, Clone)]
pub struct GithubInstallation {
    pub id: i64,
    pub account_login: String,
    /// "User" or "Organization".
    pub account_type: String,
    pub repository_count: Option<i32>,
    pub created_at: Timestamp,
}

impl GithubInstallation {
    /// An installation recorded at `now`, with no repository count yet.
    pub fn new_at(id: i64, account_login: String, account_type: String, now: Timestamp) -> (r:
        GithubInstallation)
        ensures
            r.id == id,
            r.account_login@ == account_login@,
            r.account_type@ == account_type@,
            r.repository_count is None,
            r.created_at == now,
    {
        GithubInstallation { id, account_login, account_type, repository_count: None, created_at: now }
    }

    /// An installation recorded now, with no repository count yet.
    pub fn new(id: i64, account_login: String, account_type: String) -> (r: GithubInstallation)
        ensures
            r.id == id,
            r.account_login@ == account_login@,
            r.account_type@ == account_type@,
            r.repository_count is None,
    {
        Self::new_at(id, account_login, account_type, clock_now())
    }
}

/// Settings of a GitHub app; the secrets are stored encrypted.
#[derive(Debug, Clone)]
pub struct GithubAppConfig {
    pub id: u128,
    pub app_id: i64,
    pub app_name: String,
    pub client_id: String,
    pub client_secret: String,
    pub private_key: String,
    pub webhook_secret: String,
    pub html_url: String,
    pub owner_id: u128,
    pub installations: Vec<GithubInstallation>,
    pub created_at: Timestamp,
    pub updated_at: Timestamp,
}

/// Builds a `GithubAppConfig`: the app id, name and owner up front, the
/// other settings one by one (empty unless set).
pub struct GithubAppConfigBuilder {
    app_id: i64,
    app_name: String,
    client_id: String,
    client_secret: String,
    private_key: String,
    webhook_secret: String,
    html_url: String,
    owner_id: u128,
}

impl GithubAppConfigBuilder {
    pub closed spec fn spec_app_id(&self) -> i64 {
        self.app_id
    }

    pub closed spec fn spec_app_name(&self) -> Seq<char> {
        self.app_name@
    }

    pub closed spec fn spec_client_id(&self) -> Seq<char> {
        self.client_id@
    }

    pub closed spec fn spec_client_secret(&self) -> Seq<char> {
        self.client_secret@
    }

    pub closed spec fn spec_private_key(&self) -> Seq<char> {
        self.private_key@
    }

    pub closed spec fn spec_webhook_secret(&self) -> Seq<char> {
        self.webhook_secret@
    }

    pub closed spec fn spec_html_url(&self) -> Seq<char> {
        self.html_url@
    }

    pub closed spec fn spec_owner_id(&self) -> u128 {
        self.owner_id
    }

    /// A builder with the required settings and every other one empty.
    pub fn new(app_id: i64, app_name: &str, owner_id: u128) -> (r: GithubAppConfigBuilder)
        ensures
            r.spec_app_id() == app_id,
            r.spec_app_name() == app_name@,
            r.spec_owner_id() == owner_id,
            r.spec_client_id().len() == 0,
            r.spec_client_secret().len() == 0,
            r.spec_private_key().len() == 0,
            r.spec_webhook_secret().len() == 0,
            r.spec_html_url().len() == 0,
    {
        GithubAppConfigBuilder {
            app_id,
            app_name: owned(app_name),
            client_id: String::new(),
            client_secret: String::new(),
            private_key: String::new(),
            webhook_secret: String::new(),
            html_url: String::new(),
            owner_id,
        }
    }

    /// Sets the client id.
    pub fn client_id(self, client_id: &str) -> (r: GithubAppConfigBuilder)
        ensures
            r.spec_app_id() == self.spec_app_id(),
            r.spec_app_name() == self.spec_app_name(),
            r.spec_client_secret() == self.spec_client_secret(),
            r.spec_private_key() == self.spec_private_key(),
            r.spec_webhook_secret() == self.spec_webhook_secret(),
            r.spec_html_url() == self.spec_html_url(),
            r.spec_owner_id() == self.spec_owner_id(),
            r.spec_client_id() == client_id@,
    {
        GithubAppConfigBuilder { client_id: owned(client_id), ..self }
    }

    /// Sets the client secret.
    pub fn client_secret(self, client_secret: &str) -> (r: GithubAppConfigBuilder)
        ensures
            r.spec_app_id() == self.spec_app_id(),
            r.spec_app_name() == self.spec_app_name(),
            r.spec_client_id() == self.spec_client_id(),
            r.spec_private_key() == self.spec_private_key(),
            r.spec_webhook_secret() == self.spec_webhook_secret(),
            r.spec_html_url() == self.spec_html_url(),
            r.spec_owner_id() == self.spec_owner_id(),
            r.spec_client_secret() == client_secret@,
    {
        GithubAppConfigBuilder { client_secret: owned(client_secret), ..self }
    }

    /// Sets the private key.
    pub fn private_key(self, private_key: &str) -> (r: GithubAppConfigBuilder)
        ensures
            r.spec_app_id() == self.spec_app_id(),
            r.spec_app_name() == self.spec_app_name(),
            r.spec_client_id() == self.spec_client_id(),
            r.spec_client_secret() == self.spec_client_secret(),
            r.spec_webhook_secret() == self.spec_webhook_secret(),
            r.spec_html_url() == self.spec_html_url(),
            r.spec_owner_id() == self.spec_owner_id(),
            r.spec_private_key() == private_key@,
    {
        GithubAppConfigBuilder { private_key: owned(private_key), ..self }
    }

    /// Sets the webhook secret.
    pub fn webhook_secret(self, webhook_secret: &str) -> (r: GithubAppConfigBuilder)
        ensures
            r.spec_app_id() == self.spec_app_id(),
            r.spec_app_name() == self.spec_app_name(),
            r.spec_client_id() == self.spec_client_id(),
            r.spec_client_secret() == self.spec_client_secret(),
            r.spec_private_key() == self.spec_private_key(),
            r.spec_html_url() == self.spec_html_url(),
            r.spec_owner_id() == self.spec_owner_id(),
            r.spec_webhook_secret() == webhook_secret@,
    {
        GithubAppConfigBuilder { webhook_secret: owned(webhook_secret), ..self }
    }

    /// Sets the html url.
    pub fn html_url(self, html_url: &str) -> (r: GithubAppConfigBuilder)
        ensures
            r.spec_app_id() == self.spec_app_id(),
            r.spec_app_name() == self.spec_app_name(),
            r.spec_client_id() == self.spec_client_id(),
            r.spec_client_secret() == self.spec_client_secret(),
            r.spec_private_key() == self.spec_private_key(),
            r.spec_webhook_secret() == self.spec_webhook_secret(),
            r.spec_owner_id() == self.spec_owner_id(),
            r.spec_html_url() == html_url@,
    {
        GithubAppConfigBuilder { html_url: owned(html_url), ..self }
    }

    /// The configuration with the given identifier and creation time.
    pub fn build_at(self, id: u128, now: Timestamp) -> (r: GithubAppConfig)
        ensures
            r.id == id,
            r.app_id == self.spec_app_id(),
            r.app_name@ == self.spec_app_name(),
            r.client_id@ == self.spec_client_id(),
            r.client_secret@ == self.spec_client_secret(),
            r.private_key@ == self.spec_private_key(),
            r.webhook_secret@ == self.spec_webhook_secret(),
            r.html_url@ == self.spec_html_url(),
            r.owner_id == self.spec_owner_id(),
            r.installations@.len() == 0,
            r.created_at == now,
            r.updated_at == now,
    {
        GithubAppConfig {
            id,
            app_id: self.app_id,
            app_name: self.app_name,
            client_id: self.client_id,
            client_secret: self.client_secret,
            private_key: self.private_key,
            webhook_secret: self.webhook_secret,
            html_url: self.html_url,
            owner_id: self.owner_id,
            installations: Vec::new(),
            created_at: now,
            updated_at: now,
        }
    }

    /// The configuration, with a fresh identifier, created now.
    pub fn build(self) -> (r: GithubAppConfig)
        ensures
            r.app_id == self.spec_app_id(),
            r.app_name@ == self.spec_app_name(),
            r.client_id@ == self.spec_client_id(),
            r.client_secret@ == self.spec_client_secret(),
            r.private_key@ == self.spec_private_key(),
            r.webhook_secret@ == self.spec_webhook_secret(),
            r.html_url@ == self.spec_html_url(),
            r.owner_id == self.spec_owner_id(),
            r.installations@.len() == 0,
            r.created_at == r.updated_at,
    {
        let id = fresh_id();
        let now = clock_now();
        self.build_at(id, now)
    }
}

impl GithubAppConfig {
    /// A builder with the required settings.
    pub fn builder(app_id: i64, app_name: &str, owner_id: u128) -> (r: GithubAppConfigBuilder)
        ensures
            r.spec_app_id() == app_id,
            r.spec_app_name() == app_name@,
            r.spec_owner_id() == owner_id,
            r.spec_client_id().len() == 0,
            r.spec_client_secret().len() == 0,
            r.spec_private_key().len() == 0,
            r.spec_webhook_secret().len() == 0,
            r.spec_html_url().len() == 0,
    {
        GithubAppConfigBuilder::new(app_id, app_name, owner_id)
    }
}

/// One request served for a public service.
#[derive(Debug, Clone)]
pub struct HttpRequestLog {
    pub service_id: u128,
    pub app_id: u128,
    pub domain: String,
    pub method: String,
    pub path: String,
    pub status: u16,
    pub upstream: String,
    pub protocol: String,
    pub created_at: Timestamp,
}

impl HttpRequestLog {
    /// A log entry recorded at `now`.
    pub fn new_at(
        service_id: u128,
        app_id: u128,
        domain: String,
        method: String,
        path: String,
        status: u16,
        upstream: String,
        protocol: String,
        now: Timestamp,
    ) -> (r: HttpRequestLog)
        ensures
            r.service_id == service_id,
            r.app_id == app_id,
            r.domain@ == domain@,
            r.method@ == method@,
            r.path@ == path@,
            r.status == status,
            r.upstream@ == upstream@,
            r.protocol@ == protocol@,
            r.created_at == now,
    {
        HttpRequestLog {
            service_id,
            app_id,
            domain,
            method,
            path,
            status,
            upstream,
            protocol,
            created_at: now,
        }
    }

    /// A log entry recorded now.
    pub fn new(
        service_id: u128,
        app_id: u128,
        domain: String,
        method: String,
        path: String,
        status: u16,
        upstream: String,
        protocol: String,
    ) -> (r: HttpRequestLog)
        ensures
            r.service_id == service_id,
            r.app_id == app_id,
            r.domain@ == domain@,
            r.method@ == method@,
            r.path@ == path@,
            r.status == status,
            r.upstream@ == upstream@,
            r.protocol@ == protocol@,
    {
        Self::new_at(
            service_id,
            app_id,
            domain,
            method,
            path,
            status,
            upstream,
            protocol,
            clock_now(),
        )
    }
}

/// A proxy route: requests for `domain` go to the upstream host and port.
#[derive(Debug, Clone)]
pub struct Route {
    pub domain: String,
    pub upstream_host: String,
    pub upstream_port: u16,
    pub ssl_enabled: bool,
}

/// Where the sources of a deployment come from.
#[derive(Debug, Clone)]
pub enum DeploymentSource {
    RemoteGit { url: String, token: Option<String> },
    LocalPath { path: String },
    NoSource,
}

/// A deployment request handed from the api to the worker.
#[derive(Debug, Clone)]
pub struct DeploymentJob {
    pub deployment_id: u128,
    pub app_id: u128,
    pub commit_sha: String,
    pub commit_message: Option<String>,
    pub branch: String,
    pub source: DeploymentSource,
    pub rollout_strategy: RolloutStrategy,
    pub rollback_from_deployment_id: Option<u128>,
}


/// The order in which users are considered for an api key: admins first,
/// then the earliest created.
pub open spec fn api_key_precedes(a: User, b: User) -> bool {
    (a.is_admin && !b.is_admin) || (a.is_admin == b.is_admin && ts_before(a.created_at, b.created_at))
}

/// Index of the user an api key is issued to when no email is given: the
/// first of the users that none precedes.
pub open spec fn is_api_key_choice(users: Seq<User>, i: int) -> bool {
    &&& 0 <= i < users.len()
    &&& forall|j: int| 0 <= j < users.len() ==> !api_key_precedes(#[trigger] users[j], users[i])
    &&& forall|j: int| 0 <= j < i ==> api_key_precedes(users[i], #[trigger] users[j])
}

/// Picks the user an api key is issued to when no email is given; `None`
/// when there are no users.
pub fn select_api_key_user(users: &Vec<User>) -> (r: Option<usize>)
    ensures
        users@.len() == 0 ==> r is None,
        users@.len() > 0 ==> (r matches Some(i) && is_api_key_choice(users@, i as int)),
{
    if users.len() == 0 {
        return None;
    }
    let mut best: usize = 0;
    let mut i: usize = 1;
    while i < users.len()
        invariant
            1 <= i <= users@.len(),
            best < i,
            forall|j: int| 0 <= j < i ==> !api_key_precedes(#[trigger] users@[j], users@[best as int]),
            forall|j: int| 0 <= j < best ==> api_key_precedes(users@[best as int], #[trigger] users@[j]),
        decreases users.len() - i,
    {
        let a = &users[i];
        let b = &users[best];
        let better = (a.is_admin && !b.is_admin) || (a.is_admin == b.is_admin
            && timestamp_before(a.created_at, b.created_at));
        if better {
            proof {
                assert forall|j: int| 0 <= j < i + 1 implies !api_key_precedes(
                    #[trigger] users@[j],
                    users@[i as int],
                ) by {
                    if j < i {
                        lemma_precedes_order(users@[j], users@[i as int], users@[best as int]);
                    }
                }
                assert forall|j: int| 0 <= j < i implies api_key_precedes(
                    users@[i as int],
                    #[trigger] users@[j],
                ) by {
                    if j != best {
                        lemma_precedes_order(users@[best as int], users@[j], users@[j]);
                        lemma_precedes_order(users@[i as int], users@[best as int], users@[j]);
                    }
                }
            }
            best = i;
        }
        i = i + 1;
    }
    Some(best)
}

/// `api_key_precedes` is a strict weak order: transitive, and two users
/// neither of which precedes the other have the same key.
proof fn lemma_precedes_order(a: User, b: User, c: User)
    ensures
        api_key_precedes(a, b) && api_key_precedes(b, c) ==> api_key_precedes(a, c),
        !api_key_precedes(a, b) && !api_key_precedes(b, a) ==> a.is_admin == b.is_admin
            && a.created_at == b.created_at,
{
}

/// Index of the user promoted to admin at startup: when there are users
/// and none is an admin, the earliest created (the first of those created
/// at that instant).
pub open spec fn is_bootstrap_choice(users: Seq<User>, i: int) -> bool {
    &&& 0 <= i < users.len()
    &&& forall|j: int| 0 <= j < users.len() ==> !ts_before(#[trigger] users[j].created_at, users[i].created_at)
    &&& forall|j: int| 0 <= j < i ==> ts_before(users[i].created_at, #[trigger] users[j].created_at)
}

/// Picks the user promoted to admin at startup, if one must be.
pub fn admin_bootstrap_user(users: &Vec<User>) -> (r: Option<usize>)
    ensures
        (users@.len() == 0 || exists|j: int| 0 <= j < users@.len() && #[trigger] users@[j].is_admin)
            ==> r is None,
        !(users@.len() == 0 || exists|j: int| 0 <= j < users@.len() && #[trigger] users@[j].is_admin)
            ==> (r matches Some(i) && is_bootstrap_choice(users@, i as int)),
{
    if users.len() == 0 {
        return None;
    }
    let mut k: usize = 0;
    while k < users.len()
        invariant
            k <= users@.len(),
            forall|j: int| 0 <= j < k ==> !(#[trigger] users@[j]).is_admin,
        decreases users.len() - k,
    {
        if users[k].is_admin {
            return None;
        }
        k = k + 1;
    }
    let mut best: usize = 0;
    let mut i: usize = 1;
    while i < users.len()
        invariant
            1 <= i <= users@.len(),
            best < i,
            forall|j: int| 0 <= j < i ==> !ts_before(#[trigger] users@[j].created_at, users@[best as int].created_at),
            forall|j: int| 0 <= j < best ==> ts_before(users@[best as int].created_at, #[trigger] users@[j].created_at),
        decreases users.len() - i,
    {
        if timestamp_before(users[i].created_at, users[best].created_at) {
            best = i;
        }
        i = i + 1;
    }
    Some(best)
}

} // verus!
