//! The records that the rest of the crate works on.

use vstd::prelude::*;

verus! {

/// One credential holder: an OAuth token pair with its expiry, an activity
/// flag and the position that decides priority among accounts.
#[derive(Debug)]
pub struct Account {
    pub id: i64,
    pub email: String,
    pub display_name: Option<String>,
    pub photo_url: Option<String>,
    pub access_token: String,
    pub refresh_token: String,
    /// Absolute expiry of the access token, in seconds since the epoch.
    pub expires_at: i64,
    pub is_active: bool,
    pub sort_order: i32,
    pub created_at: i64,
    pub updated_at: i64,
}

/// The text of an optional string.
pub open spec fn text_of(s: Option<String>) -> Option<Seq<char>> {
    match s {
        Some(t) => Some(t@),
        None => None,
    }
}

/// Copies an optional string, keeping its contents.
pub fn clone_opt_string(s: &Option<String>) -> (r: Option<String>)
    ensures
        r == *s,
{
    match s {
        Some(text) => Some(text.clone()),
        None => None,
    }
}

impl Clone for Account {
    fn clone(&self) -> (r: Self)
        ensures
            r == *self,
    {
        Account {
            id: self.id,
            email: self.email.clone(),
            display_name: clone_opt_string(&self.display_name),
            photo_url: clone_opt_string(&self.photo_url),
            access_token: self.access_token.clone(),
            refresh_token: self.refresh_token.clone(),
            expires_at: self.expires_at,
            is_active: self.is_active,
            sort_order: self.sort_order,
            created_at: self.created_at,
            updated_at: self.updated_at,
        }
    }
}

/// Usage counters of one account against its configured limits.
#[derive(Debug, Clone, Copy, PartialEq, Eq, Structural)]
pub struct QuotaInfo {
    pub account_id: i64,
    pub input_quota: i64,
    pub input_used: i64,
    pub output_quota: i64,
    pub output_used: i64,
    pub updated_at: i64,
}

/// One key of the application's key-value settings.
#[derive(Debug)]
pub struct AppConfig {
    pub key: String,
    pub value: String,
}

impl Clone for AppConfig {
    fn clone(&self) -> (r: Self)
        ensures
            r == *self,
    {
        AppConfig { key: self.key.clone(), value: self.value.clone() }
    }
}

/// Totals over the request log.
#[derive(Debug, Clone, Copy, PartialEq, Eq, Structural)]
pub struct LogStats {
    pub total_requests: u64,
    pub success_count: u64,
    pub error_count: u64,
    pub avg_latency_ms: u32,
    pub total_input_tokens: i64,
    pub total_output_tokens: i64,
}

/// The policy by which the scheduler ranks the accounts that could serve.
#[derive(Debug, Clone, Copy, PartialEq, Eq, Structural)]
pub enum SchedulingMode {
    /// Stay with the account that last served the session and model.
    CacheFirst,
    /// Take the account that has used the smallest share of its quota.
    Balanced,
    /// Take the account that answered fastest of late.
    Performance,
}

/// The mode that a configured name stands for, if it names one.
pub open spec fn mode_named(name: Seq<char>) -> Option<SchedulingMode> {
    if name == "cache-first"@ {
        Some(SchedulingMode::CacheFirst)
    } else if name == "balanced"@ {
        Some(SchedulingMode::Balanced)
    } else if name == "performance"@ {
        Some(SchedulingMode::Performance)
    } else {
        None
    }
}

/// The name under which a mode is configured.
pub open spec fn name_of_mode(mode: SchedulingMode) -> Seq<char> {
    match mode {
        SchedulingMode::CacheFirst => "cache-first"@,
        SchedulingMode::Balanced => "balanced"@,
        SchedulingMode::Performance => "performance"@,
    }
}

impl SchedulingMode {
    /// Reads a mode from its configured name.
    pub fn parse(name: &str) -> (mode: Option<SchedulingMode>)
        ensures
            mode == mode_named(name@),
    {
        let given = String::from_str(name);
        if given == String::from_str("cache-first") {
            Some(SchedulingMode::CacheFirst)
        } else if given == String::from_str("balanced") {
            Some(SchedulingMode::Balanced)
        } else if given == String::from_str("performance") {
            Some(SchedulingMode::Performance)
        } else {
            None
        }
    }

    /// The name under which the mode is configured.
    pub fn name(self) -> (name: &'static str)
        ensures
            name@ == name_of_mode(self),
    {
        match self {
            SchedulingMode::CacheFirst => "cache-first",
            SchedulingMode::Balanced => "balanced",
            SchedulingMode::Performance => "performance",
        }
    }
}

/// A mode is read back from its own name.
pub proof fn mode_name_round_trip(mode: SchedulingMode)
    ensures
        mode_named(name_of_mode(mode)) == Some(mode),
{
    reveal_strlit("cache-first");
    reveal_strlit("balanced");
    reveal_strlit("performance");
    assert("cache-first"@.len() == 11);
    assert("balanced"@.len() == 8);
    assert("performance"@.len() == 11);
    assert("performance"@[0] == 'p');
    assert("cache-first"@[0] == 'c');
}

/// How the proxy is set up. There is one such record; it is written by the
/// administration surface and only read here.
#[derive(Debug)]
pub struct ProxyConfig {
    pub id: i64,
    pub enabled: bool,
    pub host: String,
    pub port: u16,
    /// One of "cache-first", "balanced" and "performance".
    pub scheduling_mode: String,
    pub session_stickiness: bool,
    /// The models that may be asked for; every model where this is empty.
    pub allowed_models: Vec<String>,
    /// The key that a request has to present, where one is set.
    pub api_key: Option<String>,
    pub created_at: i64,
    pub updated_at: i64,
}

/// The setup of a proxy that nobody has configured yet.
pub open spec fn is_default_config(c: ProxyConfig) -> bool {
    &&& c.id == 1
    &&& !c.enabled
    &&& c.host@ == "127.0.0.1"@
    &&& c.port == 8094
    &&& c.scheduling_mode@ == "cache-first"@
    &&& c.session_stickiness
    &&& c.allowed_models@.len() == 0
    &&& c.api_key is None
    &&& c.created_at == 0
    &&& c.updated_at == 0
}

impl Default for ProxyConfig {
    fn default() -> (c: Self)
        ensures
            is_default_config(c),
    {
        ProxyConfig {
            id: 1,
            enabled: false,
            host: String::from_str("127.0.0.1"),
            port: 8094,
            scheduling_mode: String::from_str("cache-first"),
            session_stickiness: true,
            allowed_models: Vec::new(),
            api_key: None,
            created_at: 0,
            updated_at: 0,
        }
    }
}

impl ProxyConfig {
    /// The scheduling mode that is configured; the default mode,
    /// cache-first, where the configured name is none of the three.
    pub open spec fn mode_spec(&self) -> SchedulingMode {
        match mode_named(self.scheduling_mode@) {
            Some(mode) => mode,
            None => SchedulingMode::CacheFirst,
        }
    }

    /// The scheduling mode that is configured; cache-first where the
    /// configured name is none of the three.
    pub fn mode(&self) -> (mode: SchedulingMode)
        ensures
            mode == self.mode_spec(),
    {
        match SchedulingMode::parse(self.scheduling_mode.as_str()) {
            Some(mode) => mode,
            None => SchedulingMode::CacheFirst,
        }
    }

    /// `model` may be asked for under this setup.
    pub open spec fn allows_spec(&self, model: Seq<char>) -> bool {
        self.allowed_models@.len() == 0 || exists|i: int|
            0 <= i < self.allowed_models@.len() && (#[trigger] self.allowed_models@[i])@ == model
    }

    /// Whether `model` may be asked for: every model where no list is
    /// configured, else the listed ones.
    pub fn allows(&self, model: &String) -> (ok: bool)
        ensures
            ok == self.allows_spec(model@),
    {
        if self.allowed_models.len() == 0 {
            return true;
        }
        let mut i: usize = 0;
        while i < self.allowed_models.len()
            invariant
                i <= self.allowed_models@.len(),
                forall|j: int| 0 <= j < i ==> (#[trigger] self.allowed_models@[j])@ != model@,
            decreases self.allowed_models@.len() - i,
        {
            if self.allowed_models[i] == *model {
                return true;
            }
            i += 1;
        }
        false
    }
}

/// The record of one proxied request. It is written once, when the request
/// ends, and never changed.
#[derive(Debug)]
pub struct MonitorLog {
    pub id: i64,
    pub timestamp: i64,
    pub method: String,
    pub path: String,
    pub status_code: u16,
    pub latency_ms: u32,
    /// Unset where no account could be selected.
    pub account_email: Option<String>,
    pub model: Option<String>,
    /// Set on success only.
    pub input_tokens: Option<i32>,
    /// Set on success only.
    pub output_tokens: Option<i32>,
    pub error_message: Option<String>,
}

impl Clone for MonitorLog {
    fn clone(&self) -> (r: Self)
        ensures
            r == *self,
    {
        MonitorLog {
            id: self.id,
            timestamp: self.timestamp,
            method: self.method.clone(),
            path: self.path.clone(),
            status_code: self.status_code,
            latency_ms: self.latency_ms,
            account_email: clone_opt_string(&self.account_email),
            model: clone_opt_string(&self.model),
            input_tokens: self.input_tokens,
            output_tokens: self.output_tokens,
            error_message: clone_opt_string(&self.error_message),
        }
    }
}

} // verus!
