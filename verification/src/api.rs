//! What the dashboard's endpoints answer: the shapes of the answers, and
//! the status that each outcome gets.

use vstd::prelude::*;
use crate::models::{Account, MonitorLog};

verus! {

/// An account as the dashboard sees it: without its tokens.
#[derive(Debug)]
pub struct AccountResponse {
    pub id: i64,
    pub email: String,
    pub display_name: Option<String>,
    pub photo_url: Option<String>,
    pub is_active: bool,
    pub sort_order: i32,
    pub expires_at: i64,
}

impl vstd::std_specs::convert::FromSpecImpl<Account> for AccountResponse {
    open spec fn obeys_from_spec() -> bool {
        true
    }

    open spec fn from_spec(a: Account) -> Self {
        AccountResponse {
            id: a.id,
            email: a.email,
            display_name: a.display_name,
            photo_url: a.photo_url,
            is_active: a.is_active,
            sort_order: a.sort_order,
            expires_at: a.expires_at,
        }
    }
}

impl From<Account> for AccountResponse {
    fn from(a: Account) -> (r: Self) {
        AccountResponse {
            id: a.id,
            email: a.email,
            display_name: a.display_name,
            photo_url: a.photo_url,
            is_active: a.is_active,
            sort_order: a.sort_order,
            expires_at: a.expires_at,
        }
    }
}

/// What the dashboard sees of `accounts`: each account without its tokens,
/// in the same order.
pub open spec fn shown(accounts: Seq<Account>) -> Seq<AccountResponse> {
    accounts.map_values(|a: Account| <AccountResponse as vstd::std_specs::convert::FromSpec<Account>>::from_spec(a))
}

/// The answer to a request for the list of accounts.
pub fn show_accounts(accounts: Vec<Account>) -> (list: Vec<AccountResponse>)
    ensures
        list@ == shown(accounts@),
{
    let mut list: Vec<AccountResponse> = Vec::new();
    let mut i: usize = 0;
    while i < accounts.len()
        invariant
            i <= accounts@.len(),
            list@ == shown(accounts@.take(i as int)),
        decreases accounts@.len() - i,
    {
        list.push(AccountResponse::from(accounts[i].clone()));
        proof {
            assert(accounts@.take(i + 1) =~= accounts@.take(i as int).push(accounts@[i as int]));
            assert(list@ =~= shown(accounts@.take(i + 1)));
        }
        i += 1;
    }
    proof {
        assert(accounts@.take(accounts@.len() as int) =~= accounts@);
    }
    list
}

/// The request to switch an account on or off.
#[derive(Debug, Clone, Copy, PartialEq, Eq, Structural)]
pub struct ToggleAccountRequest {
    pub is_active: bool,
}

/// Which part of the request log is asked for.
#[derive(Debug, Clone, Copy, PartialEq, Eq, Structural)]
pub struct PaginationParams {
    pub limit: u32,
    pub offset: u32,
}

/// The number of records on a page where the request names none.
pub fn default_limit() -> (limit: u32)
    ensures
        limit == 50,
{
    50
}

impl PaginationParams {
    /// The page that a query asks for: its limit and offset, fifty records
    /// where it names no limit, from the start where it names no offset.
    pub fn from_query(limit: Option<u32>, offset: Option<u32>) -> (p: Self)
        ensures
            p.limit == limit.unwrap_or(50),
            p.offset == offset.unwrap_or(0),
    {
        PaginationParams {
            limit: match limit {
                Some(l) => l,
                None => default_limit(),
            },
            offset: match offset {
                Some(o) => o,
                None => 0,
            },
        }
    }
}

/// One page of the request log.
#[derive(Debug)]
pub struct LogsResponse {
    pub logs: Vec<MonitorLog>,
    pub total: u64,
    pub limit: u32,
    pub offset: u32,
}

impl LogsResponse {
    /// The page that was asked for by `params`, of a log with `total`
    /// records.
    pub fn page(logs: Vec<MonitorLog>, total: u64, params: PaginationParams) -> (r: Self)
        ensures
            r.logs == logs,
            r.total == total,
            r.limit == params.limit,
            r.offset == params.offset,
    {
        LogsResponse { logs, total, limit: params.limit, offset: params.offset }
    }
}

/// The status of an answer that has no content: the deletion was done.
pub const STATUS_NO_CONTENT: u16 = 204;

/// The status of an answer where nothing was found under the given id.
pub const STATUS_NOT_FOUND: u16 = 404;

/// The status that a deletion is answered with: no content where the
/// account was deleted, not found where there was none.
pub fn delete_status(deleted: bool) -> (r: Result<u16, u16>)
    ensures
        r == if deleted {
            Ok::<u16, u16>(STATUS_NO_CONTENT)
        } else {
            Err::<u16, u16>(STATUS_NOT_FOUND)
        },
{
    if deleted {
        Ok(STATUS_NO_CONTENT)
    } else {
        Err(STATUS_NOT_FOUND)
    }
}

/// What a lookup by id is answered with: the account without its tokens,
/// or not found.
pub fn show_account(account: Option<Account>) -> (r: Result<AccountResponse, u16>)
    ensures
        r == match account {
            Some(a) => Ok::<AccountResponse, u16>(
                <AccountResponse as vstd::std_specs::convert::FromSpec<Account>>::from_spec(a),
            ),
            None => Err::<AccountResponse, u16>(STATUS_NOT_FOUND),
        },
{
    match account {
        Some(a) => Ok(AccountResponse::from(a)),
        None => Err(STATUS_NOT_FOUND),
    }
}

} // verus!
