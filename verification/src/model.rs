use vstd::prelude::*;

verus! {

/// Query parameters for listing: free-text query, 1-based page, page size
/// (clamped to 10..=1000), sort column and direction.
pub struct ListOptions {
    pub q: Option<String>,
    pub page: Option<u16>,
    pub per_page: Option<u16>,
    pub sort_by: Option<String>,
    pub ascending: Option<bool>,
}

/// A page of entities together with its pagination echo.
pub struct List<T> {
    pub data: Vec<T>,
    pub pagination: Paginator,
}

/// Echoes the paging that produced a list.
pub struct Paginator {
    pub current_page: u16,
    pub per_page: u16,
    pub total_pages: u16,
    pub total_count: u16,
}

/// Ceiling division.
pub open spec fn ceil_div(a: nat, b: nat) -> nat {
    ((a + b - 1) as int / b as int) as nat
}

/// The page that a request asks for: 1-based, default 1.
pub open spec fn effective_page(page: Option<u16>) -> u16 {
    match page {
        Some(p) => p,
        None => 1u16,
    }
}

/// The page size that a request asks for: default 10, clamped to 10..=1000.
pub open spec fn effective_per_page(per_page: Option<u16>) -> u16 {
    match per_page {
        Some(p) => if p < 10 {
            10u16
        } else if p > 1000 {
            1000u16
        } else {
            p
        },
        None => 10u16,
    }
}

pub fn page_of(options: &ListOptions) -> (r: u16)
    ensures
        r == effective_page(options.page),
{
    match options.page {
        Some(p) => p,
        None => 1,
    }
}

pub fn per_page_of(options: &ListOptions) -> (r: u16)
    ensures
        r == effective_per_page(options.per_page),
        10 <= r <= 1000,
{
    match options.per_page {
        Some(p) => if p < 10 {
            10
        } else if p > 1000 {
            1000
        } else {
            p
        },
        None => 10,
    }
}

impl Paginator {
    /// The paginator for a result set of `total_count` rows: total_pages is
    /// always ceil(total_count / per_page) at the moment of computation.
    pub fn make(current_page: u16, per_page: u16, total_count: u16) -> (r: Paginator)
        requires
            per_page >= 1,
        ensures
            r.current_page == current_page,
            r.per_page == per_page,
            r.total_count == total_count,
            r.total_pages == ceil_div(total_count as nat, per_page as nat),
            r.total_pages <= total_count,
    {
        let pages32: u32 = (total_count as u32 + per_page as u32 - 1) / (per_page as u32);
        proof {
            if total_count == 0 {
                assert(pages32 == 0) by (nonlinear_arith)
                    requires
                        pages32 == (per_page as u32 - 1) as u32 / (per_page as u32),
                        1 <= per_page <= u16::MAX,
                ;
            } else {
                assert(pages32 <= total_count) by (nonlinear_arith)
                    requires
                        pages32 == (total_count as u32 + per_page as u32 - 1) as u32 / (
                        per_page as u32),
                        1 <= per_page <= u16::MAX,
                        1 <= total_count <= u16::MAX,
                ;
            }
        }
        Paginator {
            current_page,
            per_page,
            total_pages: pages32 as u16,
            total_count,
        }
    }
}

// ---------------------------------------------------------------------------
// Entities.
// ---------------------------------------------------------------------------

/// The identity record. Timestamps are epoch seconds; the password hash is
/// opaque and never serialized outward.
pub struct User {
    pub id: i32,
    pub name: String,
    pub email: String,
    pub email_verified_at: Option<i64>,
    pub password: String,
    pub customer_id: Option<i32>,
    pub updated_at: Option<i64>,
    pub created_at: Option<i64>,
    pub remember_token: Option<String>,
}

pub struct UserForCreate {
    pub name: String,
    pub email: String,
    pub hashed_password: String,
}

pub struct UserForUpdate {
    pub name: Option<String>,
    pub email: Option<String>,
    pub hashed_password: Option<String>,
    pub customer_id: Option<String>,
}

pub struct Role {
    pub id: i32,
    pub name: String,
}

pub struct RoleForCreate {
    pub name: String,
}

pub struct Permission {
    pub id: i32,
    pub name: String,
}

pub struct PermissionForCreate {
    pub name: String,
}

} // verus!
