//! A minimal client for a paginated search API (NASA's Common Metadata
//! Repository): it builds query URLs from a route and a parameter mapping,
//! and pages through results up to a caller-given limit.

use vstd::prelude::*;

pub mod fetch;
pub mod json;
pub mod query;
pub mod urls;

pub use fetch::Fetch;
pub use query::Query;

verus! {

/// The server-enforced ceiling on the number of records per page.
pub const MAX_PAGE_SIZE: usize = 2000;

pub fn max_page_size() -> (r: usize)
    ensures
        r == MAX_PAGE_SIZE,
{
    MAX_PAGE_SIZE
}

} // verus!
