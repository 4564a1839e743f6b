//! What is decided when records are read from and written to the database.
//!
//! The statements are run by the caller. A row here holds the plain values
//! of one table row, as the database gives and takes them.

use vstd::prelude::*;
use crate::models::{
    clone_opt_string, is_default_config, mode_named, Account, LogStats, ProxyConfig, SchedulingMode,
};

verus! {

/// The version of the schema that this application works on.
pub const SCHEMA_VERSION: i32 = 1;

/// One row of the accounts table.
#[derive(Debug)]
pub struct AccountRow {
    pub id: i64,
    pub email: String,
    pub display_name: Option<String>,
    pub photo_url: Option<String>,
    pub access_token: String,
    pub refresh_token: String,
    pub expires_at: i64,
    /// Zero for an inactive account, anything else for an active one.
    pub is_active: i32,
    pub sort_order: i32,
    pub created_at: i64,
    pub updated_at: i64,
}

/// The account that a row stands for.
pub open spec fn account_of(row: AccountRow) -> Account {
    Account {
        id: row.id,
        email: row.email,
        display_name: row.display_name,
        photo_url: row.photo_url,
        access_token: row.access_token,
        refresh_token: row.refresh_token,
        expires_at: row.expires_at,
        is_active: row.is_active != 0,
        sort_order: row.sort_order,
        created_at: row.created_at,
        updated_at: row.updated_at,
    }
}

/// Reads an account from its row.
pub fn account_from_row(row: AccountRow) -> (account: Account)
    ensures
        account == account_of(row),
{
    Account {
        id: row.id,
        email: row.email,
        display_name: row.display_name,
        photo_url: row.photo_url,
        access_token: row.access_token,
        refresh_token: row.refresh_token,
        expires_at: row.expires_at,
        is_active: row.is_active != 0,
        sort_order: row.sort_order,
        created_at: row.created_at,
        updated_at: row.updated_at,
    }
}

/// What saving an account does to the table.
#[derive(Debug)]
pub enum SavePlan {
    /// Add this row; the database gives it its id.
    Insert(AccountRow),
    /// Write this row over the one with its id; `created_at` stays as it is
    /// in the table.
    Update(AccountRow),
}

/// The sort order of a new account: one behind the greatest in the table,
/// zero in an empty table, and never more than the greatest number.
pub open spec fn next_order(max_order: Option<i32>) -> i32 {
    match max_order {
        None => 0,
        Some(m) => if m == i32::MAX {
            i32::MAX
        } else {
            (m + 1) as i32
        },
    }
}

/// The row that `account` is saved as at `now`, with sort order `order`
/// and creation time `created_at`.
pub open spec fn row_of(account: Account, order: i32, created_at: i64, now: i64) -> AccountRow {
    AccountRow {
        id: account.id,
        email: account.email,
        display_name: account.display_name,
        photo_url: account.photo_url,
        access_token: account.access_token,
        refresh_token: account.refresh_token,
        expires_at: account.expires_at,
        is_active: if account.is_active {
            1i32
        } else {
            0i32
        },
        sort_order: order,
        created_at: created_at,
        updated_at: now,
    }
}

/// What saving `account` at `now` does. An account with id zero is new: it
/// goes behind the accounts of the table, of which `max_order` is the
/// greatest sort order. Any other id is written over, with the account's
/// own sort order.
pub open spec fn save_plan(account: Account, max_order: Option<i32>, now: i64) -> SavePlan {
    if account.id == 0 {
        SavePlan::Insert(row_of(account, next_order(max_order), now, now))
    } else {
        SavePlan::Update(row_of(account, account.sort_order, account.created_at, now))
    }
}

/// Decides what saving `account` at `now` does to the table, of which
/// `max_order` is the greatest sort order, if it has a row.
pub fn plan_save(account: &Account, max_order: Option<i32>, now: i64) -> (plan: SavePlan)
    ensures
        plan == save_plan(*account, max_order, now),
{
    let is_active: i32 = if account.is_active {
        1
    } else {
        0
    };
    if account.id == 0 {
        let order: i32 = match max_order {
            None => 0,
            Some(m) => if m == i32::MAX {
                i32::MAX
            } else {
                m + 1
            },
        };
        SavePlan::Insert(
            AccountRow {
                id: account.id,
                email: account.email.clone(),
                display_name: clone_opt_string(&account.display_name),
                photo_url: clone_opt_string(&account.photo_url),
                access_token: account.access_token.clone(),
                refresh_token: account.refresh_token.clone(),
                expires_at: account.expires_at,
                is_active,
                sort_order: order,
                created_at: now,
                updated_at: now,
            },
        )
    } else {
        SavePlan::Update(
            AccountRow {
                id: account.id,
                email: account.email.clone(),
                display_name: clone_opt_string(&account.display_name),
                photo_url: clone_opt_string(&account.photo_url),
                access_token: account.access_token.clone(),
                refresh_token: account.refresh_token.clone(),
                expires_at: account.expires_at,
                is_active,
                sort_order: account.sort_order,
                created_at: account.created_at,
                updated_at: now,
            },
        )
    }
}

/// Whether a statement that changed `rows` rows found what it was to
/// change.
pub fn found(rows: usize) -> (yes: bool)
    ensures
        yes == (rows > 0),
{
    rows > 0
}

/// The migrations that bring a database of version `current` up to
/// [`SCHEMA_VERSION`]: the versions above `current`, in ascending order.
pub open spec fn pending(current: i32) -> Seq<i32> {
    if current < 1 {
        seq![1i32]
    } else {
        Seq::empty()
    }
}

/// The migrations that have to be run on a database of version `current`.
pub fn pending_migrations(current: i32) -> (versions: Vec<i32>)
    ensures
        versions@ == pending(current),
        forall|i: int| 0 <= i < versions@.len() ==> current < #[trigger] versions@[i] <= SCHEMA_VERSION,
{
    let mut versions: Vec<i32> = Vec::new();
    if current < 1 {
        versions.push(1);
    }
    proof {
        assert(versions@ =~= pending(current));
    }
    versions
}

/// The statistics of the request log, from what the six queries gave. A
/// query that failed counts as zero.
pub fn stats_from(
    total_requests: Option<u64>,
    success_count: Option<u64>,
    error_count: Option<u64>,
    avg_latency_ms: Option<u32>,
    total_input_tokens: Option<i64>,
    total_output_tokens: Option<i64>,
) -> (stats: LogStats)
    ensures
        stats == (LogStats {
            total_requests: total_requests.unwrap_or(0),
            success_count: success_count.unwrap_or(0),
            error_count: error_count.unwrap_or(0),
            avg_latency_ms: avg_latency_ms.unwrap_or(0),
            total_input_tokens: total_input_tokens.unwrap_or(0),
            total_output_tokens: total_output_tokens.unwrap_or(0),
        }),
{
    LogStats {
        total_requests: total_requests.unwrap_or(0),
        success_count: success_count.unwrap_or(0),
        error_count: error_count.unwrap_or(0),
        avg_latency_ms: avg_latency_ms.unwrap_or(0),
        total_input_tokens: total_input_tokens.unwrap_or(0),
        total_output_tokens: total_output_tokens.unwrap_or(0),
    }
}

/// The row of the proxy configuration table.
#[derive(Debug)]
pub struct ProxyConfigRow {
    pub id: i64,
    pub enabled: i32,
    pub host: String,
    pub port: i32,
    pub scheduling_mode: String,
    pub session_stickiness: i32,
    /// The allowed models, as a JSON list of strings.
    pub allowed_models: String,
    pub api_key: Option<String>,
    pub created_at: i64,
    pub updated_at: i64,
}

/// The texts of a list of strings.
pub open spec fn texts(list: Seq<String>) -> Seq<Seq<char>> {
    list.map_values(|s: String| s@)
}

/// The list of strings that the JSON library reads from `text`; `None`
/// where it does not read one.
pub uninterp spec fn json_string_list(text: Seq<char>) -> Option<Seq<Seq<char>>>;

/// The JSON text that the JSON library writes for a list of strings.
pub uninterp spec fn string_list_json(list: Seq<Seq<char>>) -> Seq<char>;

/// `serde_json::from_str` for a list of strings. The result is what the
/// library reads, and `None` where it reports an error.
#[verifier::external_body]
fn parse_string_list(text: &str) -> (r: Option<Vec<String>>)
    ensures
        match r {
            Some(list) => json_string_list(text@) == Some(texts(list@)),
            None => json_string_list(text@) is None,
        },
{
    serde_json::from_str::<Vec<String>>(text).ok()
}

/// `serde_json::to_string` for a list of strings. The result is what the
/// library writes; the empty text where it reports an error.
#[verifier::external_body]
fn write_string_list(list: &Vec<String>) -> (text: String)
    ensures
        text@ == string_list_json(texts(list@)),
{
    serde_json::to_string(list).unwrap_or_default()
}

/// The port that a stored number stands for: its lowest sixteen bits.
pub open spec fn port_of(stored: i32) -> u16 {
    (stored as int % 65536) as u16
}

/// The port that a stored number stands for.
pub fn port_from(stored: i32) -> (port: u16)
    ensures
        port == port_of(stored),
{
    let low: i32 = stored % 65536;
    if low < 0 {
        (low + 65536) as u16
    } else {
        low as u16
    }
}

/// The allowed models that a stored text stands for: the list that it
/// holds, and no list where it holds none.
pub open spec fn models_of(stored: Seq<char>) -> Seq<Seq<char>> {
    match json_string_list(stored) {
        Some(list) => list,
        None => Seq::empty(),
    }
}

/// The allowed models that were read from a stored text: the list, and an
/// empty one where nothing could be read.
pub fn models_from(read: Option<Vec<String>>) -> (list: Vec<String>)
    ensures
        list@ == match read {
            Some(l) => l@,
            None => Seq::<String>::empty(),
        },
{
    match read {
        Some(l) => l,
        None => Vec::new(),
    }
}

/// `cfg` is the configuration that `row` stands for.
pub open spec fn config_of(cfg: ProxyConfig, row: ProxyConfigRow) -> bool {
    &&& cfg.id == row.id
    &&& cfg.enabled == (row.enabled != 0)
    &&& cfg.host == row.host
    &&& cfg.port == port_of(row.port)
    &&& cfg.scheduling_mode == row.scheduling_mode
    &&& cfg.session_stickiness == (row.session_stickiness != 0)
    &&& texts(cfg.allowed_models@) == models_of(row.allowed_models@)
    &&& cfg.api_key == row.api_key
    &&& cfg.created_at == row.created_at
    &&& cfg.updated_at == row.updated_at
}

/// Reads the proxy configuration from its row.
pub fn proxy_config_from_row(row: ProxyConfigRow) -> (cfg: ProxyConfig)
    ensures
        config_of(cfg, row),
{
    let allowed_models = models_from(parse_string_list(row.allowed_models.as_str()));
    proof {
        assert(texts(Seq::<String>::empty()) =~= Seq::<Seq<char>>::empty());
    }
    ProxyConfig {
        id: row.id,
        enabled: row.enabled != 0,
        host: row.host,
        port: port_from(row.port),
        scheduling_mode: row.scheduling_mode,
        session_stickiness: row.session_stickiness != 0,
        allowed_models,
        api_key: row.api_key,
        created_at: row.created_at,
        updated_at: row.updated_at,
    }
}

/// The proxy configuration that is in force: the stored one, and the
/// default where none is stored, which then has to be stored.
pub fn proxy_config_or_default(row: Option<ProxyConfigRow>) -> (r: (ProxyConfig, bool))
    ensures
        match row {
            Some(stored) => config_of(r.0, stored) && !r.1,
            None => is_default_config(r.0) && r.1,
        },
{
    match row {
        Some(stored) => (proxy_config_from_row(stored), false),
        None => (ProxyConfig::default(), true),
    }
}

/// `row` is what `cfg` is stored as at `now`.
pub open spec fn stored_as(row: ProxyConfigRow, cfg: ProxyConfig, now: i64) -> bool {
    &&& row.id == 1
    &&& row.enabled == if cfg.enabled {
        1i32
    } else {
        0i32
    }
    &&& row.host == cfg.host
    &&& row.port == cfg.port
    &&& row.scheduling_mode == cfg.scheduling_mode
    &&& row.session_stickiness == if cfg.session_stickiness {
        1i32
    } else {
        0i32
    }
    &&& row.allowed_models@ == string_list_json(texts(cfg.allowed_models@))
    &&& row.api_key == cfg.api_key
    &&& row.created_at == now
    &&& row.updated_at == now
}

/// The row that the proxy configuration is stored as at `now`, and `None`
/// for a configuration whose scheduling mode is none of the three names:
/// such a configuration is not stored. There is one row, with id 1; where
/// it exists already, its creation time stays.
pub fn proxy_config_to_row(cfg: &ProxyConfig, now: i64) -> (row: Option<ProxyConfigRow>)
    ensures
        row is Some == mode_named(cfg.scheduling_mode@) is Some,
        row is Some ==> stored_as(row->0, *cfg, now),
        row is Some ==> mode_named(row->0.scheduling_mode@) is Some,
{
    if SchedulingMode::parse(cfg.scheduling_mode.as_str()).is_none() {
        return None;
    }
    Some(
        ProxyConfigRow {
            id: 1,
            enabled: if cfg.enabled {
                1
            } else {
                0
            },
            host: cfg.host.clone(),
            port: cfg.port as i32,
            scheduling_mode: cfg.scheduling_mode.clone(),
            session_stickiness: if cfg.session_stickiness {
                1
            } else {
                0
            },
            allowed_models: write_string_list(&cfg.allowed_models),
            api_key: clone_opt_string(&cfg.api_key),
            created_at: now,
            updated_at: now,
        },
    )
}

/// The default configuration has a mode that is stored.
pub proof fn default_config_is_stored(cfg: ProxyConfig)
    requires
        is_default_config(cfg),
    ensures
        mode_named(cfg.scheduling_mode@) is Some,
{
}

} // verus!
