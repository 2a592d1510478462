//! Model and application configuration: which backend, model and key the
//! pipeline runs with.

use vstd::prelude::*;

use crate::segments::new_uuid_string;
use crate::segments::now_rfc3339;

verus! {

/// A single saved model configuration.
pub struct ModelConfig {
    pub id: String,
    pub name: String,
    pub api_key: String,
    pub api_provider: String,
    pub model: String,
    pub is_default: bool,
    pub created_at: Option<String>,
    /// Base URL for OpenAI-compatible services.
    pub base_url: Option<String>,
}

impl ModelConfig {
    /// A fresh configuration: new identifier, creation time from the
    /// clock, not the default, no base URL.
    pub fn new(name: String, api_key: String, api_provider: String, model: String) -> (r:
        ModelConfig)
        ensures
            r.name@ == name@,
            r.api_key@ == api_key@,
            r.api_provider@ == api_provider@,
            r.model@ == model@,
            r.is_default == false,
            r.created_at is Some,
            r.base_url is None,
            r.id@.len() == 36,
    {
        ModelConfig {
            id: new_uuid_string(),
            name,
            api_key,
            api_provider,
            model,
            is_default: false,
            created_at: Some(now_rfc3339()),
            base_url: None,
        }
    }
}

/// The application configuration: the saved model configurations and
/// which of them is active.
pub struct AppConfig {
    /// Active model config ID (the first config stands in when unset).
    pub active_model_id: Option<String>,
    pub model_configs: Vec<ModelConfig>,
    /// Default target language for translations.
    pub target_language: String,
    /// Interface language.
    pub interface_language: String,
    /// Backend URL for enhanced features.
    pub backend_url: Option<String>,
    /// Auth token for that backend.
    pub auth_token: Option<String>,
}

/// The interface language used when none is configured.
pub fn default_interface_language() -> (r: String)
    ensures
        r@ == "en"@,
{
    String::from_str("en")
}

impl Default for AppConfig {
    /// An empty configuration: no models, Chinese as the target language,
    /// English interface.
    fn default() -> (r: AppConfig)
        ensures
            r.active_model_id is None,
            r.model_configs@.len() == 0,
            r.target_language@ == "zh-CN"@,
            r.interface_language@ == "en"@,
            r.backend_url is None,
            r.auth_token is None,
    {
        AppConfig {
            active_model_id: None,
            model_configs: Vec::new(),
            target_language: String::from_str("zh-CN"),
            interface_language: default_interface_language(),
            backend_url: None,
            auth_token: None,
        }
    }
}

/// Index of the first configuration with the given id, or `-1`.
pub open spec fn config_index(s: Seq<ModelConfig>, id: Seq<char>) -> int
    decreases s.len(),
{
    if s.len() == 0 {
        -1
    } else if s[0].id@ == id {
        0
    } else {
        let r = config_index(s.drop_first(), id);
        if r < 0 {
            -1
        } else {
            r + 1
        }
    }
}

/// `config_index` finds the first configuration with the id.
pub proof fn lemma_config_index(s: Seq<ModelConfig>, id: Seq<char>)
    ensures
        config_index(s, id) < 0 ==> forall|i: int| 0 <= i < s.len() ==> s[i].id@ != id,
        config_index(s, id) >= 0 ==> 0 <= config_index(s, id) < s.len() && s[config_index(
            s,
            id,
        )].id@ == id,
        config_index(s, id) >= 0 ==> forall|i: int| 0 <= i < config_index(s, id) ==> s[i].id@
            != id,
    decreases s.len(),
{
    if s.len() == 0 {
    } else if s[0].id@ == id {
    } else {
        lemma_config_index(s.drop_first(), id);
        assert(forall|i: int| 1 <= i < s.len() ==> s[i] == s.drop_first()[i - 1]);
    }
}

impl AppConfig {
    /// The first configuration with the given id, if any.
    pub fn get_config(&self, id: &str) -> (r: Option<&ModelConfig>)
        ensures
            match r {
                Some(c) => config_index(self.model_configs@, id@) >= 0 && *c
                    == self.model_configs@[config_index(self.model_configs@, id@)],
                None => config_index(self.model_configs@, id@) < 0,
            },
    {
        proof {
            lemma_config_index(self.model_configs@, id@);
        }
        let n: usize = self.model_configs.len();
        let mut i: usize = 0;
        while i < n
            invariant
                i <= n,
                n == self.model_configs@.len(),
                forall|k: int| 0 <= k < i ==> self.model_configs@[k].id@ != id@,
            decreases n - i,
        {
            if crate::text::str_eq(self.model_configs[i].id.as_str(), id) {
                proof {
                    lemma_config_index(self.model_configs@, id@);
                    let p = config_index(self.model_configs@, id@);
                    assert(p >= 0);
                    assert(!(p < i as int) && !(p > i as int));
                }
                return Some(&self.model_configs[i]);
            }
            i = i + 1;
        }
        None
    }

    /// The active configuration: the one the active id names, or the
    /// first saved configuration when no id is set.
    pub fn get_active_config(&self) -> (r: Option<&ModelConfig>)
        ensures
            match self.active_model_id {
                Some(aid) => match r {
                    Some(c) => config_index(self.model_configs@, aid@) >= 0 && *c
                        == self.model_configs@[config_index(self.model_configs@, aid@)],
                    None => config_index(self.model_configs@, aid@) < 0,
                },
                None => match r {
                    Some(c) => self.model_configs@.len() > 0 && *c == self.model_configs@[0],
                    None => self.model_configs@.len() == 0,
                },
            },
    {
        match &self.active_model_id {
            Some(aid) => self.get_config(aid.as_str()),
            None => {
                if self.model_configs.len() > 0 {
                    Some(&self.model_configs[0])
                } else {
                    None
                }
            },
        }
    }
}

} // verus!
