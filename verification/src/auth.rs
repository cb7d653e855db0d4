//! Authentication records and API key resolution.
//!
//! The credential file itself is read and written outside the library; the
//! parsed records are handed in, and the precedence logic here decides
//! which key a provider call uses.

use vstd::prelude::*;
use crate::text::str_eq;

verus! {

/// A credential as stored for one provider.
#[derive(Debug)]
pub enum AuthCredential {
    ApiKey { key: String },
    OAuth { access_token: String, refresh_token: String, expires: i64 },
}

/// The parsed credential file: provider name to credential.
#[derive(Debug)]
pub struct AuthFile {
    pub entries: Vec<(String, AuthCredential)>,
}

/// The credential stored last for a provider.
pub open spec fn spec_cred_lookup(entries: Seq<(String, AuthCredential)>, p: Seq<char>) -> Option<
    AuthCredential,
>
    decreases entries.len(),
{
    if entries.len() == 0 {
        None
    } else if entries.last().0@ == p {
        Some(entries.last().1)
    } else {
        spec_cred_lookup(entries.drop_last(), p)
    }
}

/// Credentials held in memory, with the path they came from.
#[derive(Debug)]
pub struct AuthStorage {
    path: String,
    entries: Vec<(String, AuthCredential)>,
}

/// The key `api_key` yields for a credential at a given time: an API key
/// directly, an unexpired OAuth access token, nothing otherwise.
pub open spec fn spec_api_key_of(cred: Option<AuthCredential>, now_ms: i64) -> Option<Seq<char>> {
    match cred {
        Some(AuthCredential::ApiKey { key }) => Some(key@),
        Some(AuthCredential::OAuth { access_token, expires, .. }) => if expires > now_ms {
            Some(access_token@)
        } else {
            None
        },
        None => None,
    }
}

impl AuthStorage {
    /// The credential stored last for a provider.
    pub closed spec fn spec_get(&self, p: Seq<char>) -> Option<AuthCredential> {
        spec_cred_lookup(self.entries@, p)
    }

    /// The path the records came from.
    pub closed spec fn spec_path(&self) -> Seq<char> {
        self.path@
    }

    /// Storage over records parsed elsewhere.
    pub fn from_entries(path: &str, entries: Vec<(String, AuthCredential)>) -> (r: Self)
        ensures
            r.spec_path() == path@,
            forall|p: Seq<char>| #[trigger] r.spec_get(p) == spec_cred_lookup(entries@, p),
    {
        AuthStorage { path: path.to_owned(), entries }
    }

    /// Get the raw credential for a provider.
    pub fn get(&self, provider: &str) -> (r: Option<&AuthCredential>)
        ensures
            match r {
                Some(c) => self.spec_get(provider@) == Some(*c),
                None => self.spec_get(provider@) is None,
            },
    {
        let n = self.entries.len();
        let mut i: usize = n;
        proof {
            assert(self.entries@.subrange(0, n as int) =~= self.entries@);
        }
        while i > 0
            invariant
                n == self.entries@.len(),
                i <= n,
                spec_cred_lookup(self.entries@, provider@) == spec_cred_lookup(
                    self.entries@.subrange(0, i as int),
                    provider@,
                ),
            decreases i,
        {
            proof {
                let pre = self.entries@.subrange(0, i as int);
                assert(pre.last() == self.entries@[i - 1]);
                assert(pre.drop_last() =~= self.entries@.subrange(0, i - 1));
            }
            if str_eq(self.entries[i - 1].0.as_str(), provider) {
                return Some(&self.entries[i - 1].1);
            }
            i = i - 1;
        }
        proof {
            assert(self.entries@.subrange(0, 0) =~= Seq::<(String, AuthCredential)>::empty());
        }
        None
    }

    /// The API key for a provider, judged at an explicit time: a stored
    /// key directly, an OAuth access token while it is unexpired.
    pub fn api_key_at(&self, provider: &str, now_ms: i64) -> (r: Option<String>)
        ensures
            match r {
                Some(k) => spec_api_key_of(self.spec_get(provider@), now_ms) == Some(k@),
                None => spec_api_key_of(self.spec_get(provider@), now_ms) is None,
            },
    {
        match self.get(provider) {
            Some(cred) => match cred {
                AuthCredential::ApiKey { key } => Some(crate::policy::copy_string(key)),
                AuthCredential::OAuth { access_token, expires, .. } => {
                    if *expires > now_ms {
                        Some(crate::policy::copy_string(access_token))
                    } else {
                        None
                    }
                },
            },
            None => None,
        }
    }

    /// The API key for a provider, judged now on the wall clock.
    pub fn api_key(&self, provider: &str) -> (r: Option<String>)
        ensures
            exists|now_ms: i64|
                match r {
                    Some(k) => #[trigger] spec_api_key_of(self.spec_get(provider@), now_ms)
                        == Some(k@),
                    None => spec_api_key_of(self.spec_get(provider@), now_ms) is None,
                },
    {
        let now_ms = crate::session::now_timestamp_millis();
        let r = self.api_key_at(provider, now_ms);
        proof {
            assert(match r {
                Some(k) => spec_api_key_of(self.spec_get(provider@), now_ms) == Some(k@),
                None => spec_api_key_of(self.spec_get(provider@), now_ms) is None,
            });
        }
        r
    }

    /// Resolve an API key by precedence: an explicit override first, then
    /// the stored credential, then the provider's environment variable
    /// value as read by the shell.
    pub fn resolve_api_key(
        &self,
        provider: &str,
        override_key: Option<&str>,
        env_value: Option<&str>,
        now_ms: i64,
    ) -> (r: Option<String>)
        ensures
            match override_key {
                Some(k) => (r matches Some(v) && v@ == k@),
                None => match spec_api_key_of(self.spec_get(provider@), now_ms) {
                    Some(k) => (r matches Some(v) && v@ == k),
                    None => match env_value {
                        Some(e) => if e@.len() > 0 {
                            (r matches Some(v) && v@ == e@)
                        } else {
                            r is None
                        },
                        None => r is None,
                    },
                },
            },
    {
        match override_key {
            Some(k) => {
                return Some(k.to_owned());
            },
            None => {},
        }
        match self.api_key_at(provider, now_ms) {
            Some(k) => {
                return Some(k);
            },
            None => {},
        }
        match env_value {
            Some(e) => {
                if crate::text::str_byte_len(e) > 0 {
                    proof {
                        crate::text::lemma_byte_len_nonneg(e@);
                    }
                    Some(e.to_owned())
                } else {
                    proof {
                        crate::text::lemma_byte_len_nonneg(e@);
                    }
                    None
                }
            },
            None => None,
        }
    }
}

/// The environment variable that can hold a provider's API key.
pub open spec fn spec_env_key(p: Seq<char>) -> Option<Seq<char>> {
    if p == "anthropic"@ {
        Some("ANTHROPIC_API_KEY"@)
    } else if p == "openai"@ {
        Some("OPENAI_API_KEY"@)
    } else if p == "google"@ {
        Some("GOOGLE_API_KEY"@)
    } else if p == "google-vertex"@ {
        Some("GOOGLE_CLOUD_API_KEY"@)
    } else if p == "amazon-bedrock"@ {
        Some("AWS_ACCESS_KEY_ID"@)
    } else if p == "azure-openai"@ {
        Some("AZURE_OPENAI_API_KEY"@)
    } else if p == "github-copilot"@ {
        Some("GITHUB_COPILOT_API_KEY"@)
    } else if p == "xai"@ {
        Some("XAI_API_KEY"@)
    } else if p == "groq"@ {
        Some("GROQ_API_KEY"@)
    } else if p == "cerebras"@ {
        Some("CEREBRAS_API_KEY"@)
    } else if p == "openrouter"@ {
        Some("OPENROUTER_API_KEY"@)
    } else if p == "mistral"@ {
        Some("MISTRAL_API_KEY"@)
    } else {
        None
    }
}

/// The environment variable that can hold a provider's API key.
pub fn env_key_for_provider(provider: &str) -> (r: Option<&'static str>)
    ensures
        match r {
            Some(k) => spec_env_key(provider@) == Some(k@),
            None => spec_env_key(provider@) is None,
        },
{
    if str_eq(provider, "anthropic") {
        Some("ANTHROPIC_API_KEY")
    } else if str_eq(provider, "openai") {
        Some("OPENAI_API_KEY")
    } else if str_eq(provider, "google") {
        Some("GOOGLE_API_KEY")
    } else if str_eq(provider, "google-vertex") {
        Some("GOOGLE_CLOUD_API_KEY")
    } else if str_eq(provider, "amazon-bedrock") {
        Some("AWS_ACCESS_KEY_ID")
    } else if str_eq(provider, "azure-openai") {
        Some("AZURE_OPENAI_API_KEY")
    } else if str_eq(provider, "github-copilot") {
        Some("GITHUB_COPILOT_API_KEY")
    } else if str_eq(provider, "xai") {
        Some("XAI_API_KEY")
    } else if str_eq(provider, "groq") {
        Some("GROQ_API_KEY")
    } else if str_eq(provider, "cerebras") {
        Some("CEREBRAS_API_KEY")
    } else if str_eq(provider, "openrouter") {
        Some("OPENROUTER_API_KEY")
    } else if str_eq(provider, "mistral") {
        Some("MISTRAL_API_KEY")
    } else {
        None
    }
}

} // verus!
