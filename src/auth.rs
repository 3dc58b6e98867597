//! Forge-app credentials and installation tokens. Times are seconds since
//! the Unix epoch, handed in by the caller.

use vstd::prelude::*;
use vstd::string::*;
use crate::text::{decimal_of, decimal_string};

verus! {

/// Seconds before expiry from which a token counts as expiring soon.
pub const REFRESH_MARGIN_SECS: u64 = 300;

/// Lifetime of a freshly issued installation token, in seconds.
pub const TOKEN_LIFETIME_SECS: u64 = 3600;

/// Identity of the forge app: its id and signing key.
#[derive(Clone)]
pub struct GithubAppAuth {
    app_id: i64,
    private_key: String,
}

impl GithubAppAuth {
    pub closed spec fn spec_app_id(&self) -> i64 {
        self.app_id
    }

    pub closed spec fn spec_private_key(&self) -> Seq<char> {
        self.private_key@
    }

    pub fn new(app_id: i64, private_key: String) -> (r: GithubAppAuth)
        ensures
            r.spec_app_id() == app_id,
            r.spec_private_key() == private_key@,
    {
        GithubAppAuth { app_id, private_key }
    }

    pub fn app_id(&self) -> (r: i64)
        ensures
            r == self.spec_app_id(),
    {
        self.app_id
    }

    pub fn private_key(&self) -> (r: &str)
        ensures
            r@ == self.spec_private_key(),
    {
        self.private_key.as_str()
    }

    /// The app's token for time `now`. It names the app and the time; it is
    /// not signed.
    pub fn generate_jwt(&self, now: i64) -> (r: String)
        ensures
            r@ == "PLACEHOLDER_JWT_FOR_APP_"@ + decimal_of(self.spec_app_id() as int) + "_AT_"@
                + decimal_of(now as int),
    {
        let mut s = String::from_str("PLACEHOLDER_JWT_FOR_APP_");
        let id = decimal_string(self.app_id);
        s.append(id.as_str());
        s.append("_AT_");
        let t = decimal_string(now);
        s.append(t.as_str());
        assert(s@ =~= "PLACEHOLDER_JWT_FOR_APP_"@ + decimal_of(self.spec_app_id() as int) + "_AT_"@
            + decimal_of(now as int));
        s
    }
}

/// A token for one installation of the app, with its expiry time.
#[derive(Debug, Clone)]
pub struct InstallationToken {
    token: String,
    expires_at: u64,
}

impl InstallationToken {
    pub closed spec fn spec_token(&self) -> Seq<char> {
        self.token@
    }

    pub closed spec fn spec_expires_at(&self) -> u64 {
        self.expires_at
    }

    pub open spec fn spec_expiring_soon(&self, now: u64) -> bool {
        self.spec_expires_at() < now || self.spec_expires_at() - now < REFRESH_MARGIN_SECS
    }

    pub fn new(token: String, expires_at: u64) -> (r: InstallationToken)
        ensures
            r.spec_token() == token@,
            r.spec_expires_at() == expires_at,
    {
        InstallationToken { token, expires_at }
    }

    pub fn token(&self) -> (r: &str)
        ensures
            r@ == self.spec_token(),
    {
        self.token.as_str()
    }

    /// Expired at `now`.
    pub fn is_expired(&self, now: u64) -> (r: bool)
        ensures
            r == (now >= self.spec_expires_at()),
    {
        now >= self.expires_at
    }

    /// Expired, or expiring within the refresh margin, at `now`.
    pub fn is_expiring_soon(&self, now: u64) -> (r: bool)
        ensures
            r == self.spec_expiring_soon(now),
    {
        if self.expires_at < now {
            true
        } else {
            self.expires_at - now < REFRESH_MARGIN_SECS
        }
    }
}

/// The text of the token issued for an installation.
pub open spec fn issued_token_text(installation_id: i64) -> Seq<char> {
    "ghs_installation_token_for_"@ + decimal_of(installation_id as int)
}

/// Keeps the last installation token and renews it when it nears expiry.
pub struct InstallationTokenManager {
    auth: GithubAppAuth,
    cached_token: Option<InstallationToken>,
}

impl InstallationTokenManager {
    pub closed spec fn spec_cached(&self) -> Option<InstallationToken> {
        self.cached_token
    }

    /// A cached token that is not expiring soon at `now`.
    pub open spec fn cache_fresh(&self, now: u64) -> bool {
        self.spec_cached() is Some && !self.spec_cached()->0.spec_expiring_soon(now)
    }

    pub fn new(auth: GithubAppAuth) -> (r: InstallationTokenManager)
        ensures
            r.spec_cached() is None,
    {
        InstallationTokenManager { auth, cached_token: None }
    }

    /// A valid token at `now`: the cached one while it is not expiring soon,
    /// else a fresh one that lives `TOKEN_LIFETIME_SECS` and is cached.
    pub fn get_token(&mut self, installation_id: i64, now: u64) -> (r: String)
        requires
            now <= u64::MAX - TOKEN_LIFETIME_SECS,
        ensures
            old(self).cache_fresh(now) ==> r@ == old(self).spec_cached()->0.spec_token()
                && final(self).spec_cached() == old(self).spec_cached(),
            !old(self).cache_fresh(now) ==> {
                &&& r@ == issued_token_text(installation_id)
                &&& final(self).spec_cached() matches Some(t) && t.spec_token() == r@
                    && t.spec_expires_at() == now + TOKEN_LIFETIME_SECS
            },
    {
        if let Some(t) = &self.cached_token {
            if !t.is_expiring_soon(now) {
                return String::from_str(t.token());
            }
        }
        let mut value = String::from_str("ghs_installation_token_for_");
        let digits = decimal_string(installation_id);
        value.append(digits.as_str());
        assert(value@ =~= issued_token_text(installation_id));
        let token = InstallationToken::new(value.clone(), now + TOKEN_LIFETIME_SECS);
        self.cached_token = Some(token);
        value
    }

    /// Forget the cached token.
    pub fn clear_cache(&mut self)
        ensures
            final(self).spec_cached() is None,
    {
        self.cached_token = None;
    }
}

} // verus!
