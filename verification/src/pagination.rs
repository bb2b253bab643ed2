//! Pagination: turning a requested page number into an offset/limit pair,
//! and deciding whether previous/next navigation links should render.

use vstd::prelude::*;

use crate::numfmt::{dec_str, int_literal_val, parse_i64, parses_as_i64, u64_to_string};

verus! {

/// The fixed page size.
pub const DEFAULT_LIMIT: u32 = 100;

/// Total entity counts reported by the backend, used to decide whether a
/// further page exists.
pub struct Pagination {
    pub event_count: i64,
    pub location_count: i64,
    pub organizer_count: i64,
}

impl Pagination {
    /// Builds the counts from the stringified integers of a backend reply.
    pub fn from_counts(event_count: &str, location_count: &str, organizer_count: &str) -> (r:
        Option<Pagination>)
        ensures
            r is Some <==> (parses_as_i64(event_count@) && parses_as_i64(location_count@)
                && parses_as_i64(organizer_count@)),
            r matches Some(p) ==> {
                &&& p.event_count as int == int_literal_val(event_count@)
                &&& p.location_count as int == int_literal_val(location_count@)
                &&& p.organizer_count as int == int_literal_val(organizer_count@)
            },
    {
        let e = parse_i64(event_count);
        let l = parse_i64(location_count);
        let o = parse_i64(organizer_count);
        match (e, l, o) {
            (Some(e), Some(l), Some(o)) => Some(
                Pagination { event_count: e, location_count: l, organizer_count: o },
            ),
            _ => None,
        }
    }
}

/// The offset/limit pair handed to a backend query.
pub struct PaginationContext {
    pub limit: u32,
    pub offset: u32,
}

impl Default for PaginationContext {
    /// The first page: offset zero, the fixed page size.
    fn default() -> (r: Self)
        ensures
            r.limit == DEFAULT_LIMIT,
            r.offset == 0,
    {
        PaginationContext { limit: DEFAULT_LIMIT, offset: 0 }
    }
}

/// The page that a request is served as: the requested page when it is at
/// least one, and the first page when it is absent, zero, or clamped.
pub open spec fn effective_page(page: Option<u32>) -> int {
    match page {
        Some(p) => if p >= 1 {
            p as int
        } else {
            1
        },
        None => 1,
    }
}

/// The page number a request is served as: the requested page clamped to a
/// minimum of one, and one when absent.
pub fn effective_page_id(page: Option<u32>) -> (r: u32)
    ensures
        r as int == effective_page(page),
{
    match page {
        Some(p) => if p >= 1 {
            p
        } else {
            1
        },
        None => 1,
    }
}

impl PaginationContext {
    /// The offset/limit pair for a requested page number: a missing or zero
    /// page is served as page one, and the offset skips the earlier pages.
    pub fn for_page(page: Option<u32>) -> (r: Self)
        requires
            effective_page(page) <= 42949673,
        ensures
            r.limit == DEFAULT_LIMIT,
            r.offset == DEFAULT_LIMIT * (effective_page(page) - 1),
    {
        let p: u32 = match page {
            Some(p) => if p >= 1 {
                p
            } else {
                1
            },
            None => 1,
        };
        PaginationContext { limit: DEFAULT_LIMIT, offset: DEFAULT_LIMIT * (p - 1) }
    }

    /// The limit and offset as the decimal strings a query's constraints carry.
    pub fn constraint_strings(&self) -> (r: (String, String))
        ensures
            r.0@ == dec_str(self.limit as nat),
            r.1@ == dec_str(self.offset as nat),
    {
        (u64_to_string(self.limit as u64), u64_to_string(self.offset as u64))
    }
}

/// Truncating integer division, as the navigation arithmetic performs it.
pub open spec fn div_trunc(a: int, b: int) -> int {
    if a >= 0 {
        a / b
    } else {
        -((-a) / b)
    }
}

/// Whether a link to the previous page should render: only away from page one.
pub fn show_previous(page_id: i64) -> (b: bool)
    ensures
        b == (page_id != 1),
{
    page_id != 1
}

/// Whether a link to the next page should render: the link is suppressed as
/// soon as the page number reaches the total count divided by the page size.
pub fn show_next(page_id: i64, count: i64, limit: i64) -> (b: bool)
    requires
        limit >= 1,
    ensures
        b == (page_id < div_trunc(count as int, limit as int)),
{
    let q: i64 = if count >= 0 {
        count / limit
    } else {
        let m = -(count + 1);
        let q0 = m / limit;
        let r0 = m % limit;
        proof {
            vstd::arithmetic::div_mod::lemma_fundamental_div_mod(m as int, limit as int);
        }
        if r0 == limit - 1 {
            proof {
                assert((m + 1) / (limit as int) == q0 + 1) by (nonlinear_arith)
                    requires
                        m == (limit as int) * q0 + (limit - 1),
                        q0 >= 0,
                        limit >= 1,
                ;
            }
            -q0 - 1
        } else {
            proof {
                assert((m + 1) / (limit as int) == q0) by (nonlinear_arith)
                    requires
                        m == (limit as int) * q0 + r0,
                        0 <= r0,
                        r0 < limit - 1,
                        q0 >= 0,
                        limit >= 1,
                ;
            }
            -q0
        }
    };
    page_id < q
}

} // verus!
