//! OAuth credentials: where tokens are kept and which key a request uses.
use crate::text::{append_vec, chars_of, eq_vec, join_path, path_join, string_of};
use vstd::prelude::*;

verus! {

/// Platform-specific OAuth integrations.
#[derive(Debug, Clone, Default)]
pub struct PlatformIntegrations;

impl PlatformIntegrations {
    /// Refreshes a platform's access token: no platform flow exists yet.
    pub fn refresh_token(&self, _platform: &str, _refresh_token: &str) -> (r: Option<String>)
        ensures
            r is None,
    {
        None
    }
}

/// OAuth credential and token manager.
#[derive(Debug, Clone, Default)]
pub struct OAuthManager {
    pub platforms: PlatformIntegrations,
}

/// Where a token is kept.
#[derive(Debug, Clone, Copy, PartialEq, Eq, Structural)]
pub enum TokenStorage {
    File,
    Keyring,
    Unknown,
}

impl OAuthManager {
    /// Common OAuth headers: none yet.
    pub fn common_headers(&self) -> (r: Vec<(String, String)>)
        ensures
            r@.len() == 0,
    {
        Vec::new()
    }

    /// The storage a configuration names: `file`, `keyring`, or unknown (an
    /// unknown storage gives an empty token).
    pub fn storage_kind(storage: &str) -> (r: TokenStorage)
        ensures
            r == (if storage@ == "file"@ {
                TokenStorage::File
            } else if storage@ == "keyring"@ {
                TokenStorage::Keyring
            } else {
                TokenStorage::Unknown
            }),
    {
        let v = chars_of(storage);
        if eq_vec(&v, &chars_of("file")) {
            TokenStorage::File
        } else if eq_vec(&v, &chars_of("keyring")) {
            TokenStorage::Keyring
        } else {
            TokenStorage::Unknown
        }
    }

    /// The file a `file`-stored token is kept in: `oauth/<key>.token` under
    /// the share directory.
    pub fn token_file(share_dir: &str, key: &str) -> (r: String)
        ensures
            r@ == path_join(path_join(share_dir@, "oauth"@), key@ + ".token"@),
    {
        let d = join_path(share_dir, "oauth");
        let mut f = chars_of(key);
        append_vec(&mut f, &chars_of(".token"));
        join_path(d.as_str(), string_of(&f).as_str())
    }

    /// The API key a request uses: the configured key when there is one,
    /// else the OAuth token when it is not empty, else none.
    pub fn pick_api_key(api_key: &str, oauth_token: Option<String>) -> (r: Option<String>)
        ensures
            api_key@.len() > 0 ==> (r matches Some(k) && k@ == api_key@),
            api_key@.len() == 0 ==> match oauth_token {
                Some(t) => if t@.len() > 0 {
                    r matches Some(k) && k@ == t@
                } else {
                    r is None
                },
                None => r is None,
            },
    {
        if chars_of(api_key).len() > 0 {
            return Some(api_key.to_string());
        }
        match oauth_token {
            Some(t) => {
                if chars_of(t.as_str()).len() > 0 {
                    Some(t)
                } else {
                    None
                }
            },
            None => None,
        }
    }
}

} // verus!
