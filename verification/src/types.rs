//! Shared response shapes for list endpoints.

use vstd::prelude::*;

verus! {

/// Where a page sits in a larger result set.
#[derive(Debug, Clone)]
pub struct Pagination {
    pub page: u32,
    pub per_page: u32,
    pub total: u64,
    pub total_pages: u32,
}

/// One page of results with its position.
#[derive(Debug)]
pub struct PagedResponse<T> {
    pub data: Vec<T>,
    pub pagination: Pagination,
}

} // verus!
