//! Common request/response value types: pagination, filtering.

use vstd::prelude::*;
use crate::shared::pagination::pages_needed;

verus! {

/// A pagination request: pages count from 1.
pub struct PaginationRequest {
    pub page: u32,
    pub page_size: u32,
}

impl core::default::Default for PaginationRequest {
    /// The first page, twenty items at a time.
    fn default() -> (r: PaginationRequest)
        ensures
            r.page == 1,
            r.page_size == 20,
    {
        PaginationRequest { page: 1, page_size: 20 }
    }
}

impl PaginationRequest {
    pub fn new(page: u32, page_size: u32) -> (r: PaginationRequest)
        ensures
            r.page == page,
            r.page_size == page_size,
    {
        PaginationRequest { page, page_size }
    }

    /// The offset of this page's first item.
    pub fn offset(&self) -> (r: u32)
        requires
            self.page >= 1,
            (self.page - 1) * self.page_size <= u32::MAX,
        ensures
            r == (self.page - 1) * self.page_size,
    {
        (self.page - 1) * self.page_size
    }

    /// The number of items per page.
    pub fn limit(&self) -> (r: u32)
        ensures
            r == self.page_size,
    {
        self.page_size
    }
}

/// One page of results, with the grand totals.
pub struct PaginationResponse<T> {
    pub data: Vec<T>,
    pub total: u64,
    pub page: u32,
    pub page_size: u32,
    pub total_pages: u32,
}

impl<T> PaginationResponse<T> {
    /// Wrap one page of data; the page count is derived from the total and
    /// the page size, zero when the page size is zero, saturating at
    /// `u32::MAX`.
    pub fn new(data: Vec<T>, total: u64, page: u32, page_size: u32) -> (r: PaginationResponse<T>)
        ensures
            r.data == data,
            r.total == total,
            r.page == page,
            r.page_size == page_size,
            page_size == 0 ==> r.total_pages == 0,
            page_size > 0 ==> r.total_pages as nat == (if pages_needed(
                total as nat,
                page_size as nat,
            ) > u32::MAX as nat {
                u32::MAX as nat
            } else {
                pages_needed(total as nat, page_size as nat)
            }),
    {
        let total_pages = crate::shared::pagination::calculate_total_pages(total, page_size);
        PaginationResponse { data, total, page, page_size, total_pages }
    }
}

/// The direction results are sorted in.
pub enum SortOrder {
    Asc,
    Desc,
}

/// Common listing filters: a sort key, a direction, and a search needle.
pub struct FilterOptions {
    pub sort_by: Option<String>,
    pub sort_order: SortOrder,
    pub search: Option<String>,
}

impl core::default::Default for FilterOptions {
    /// No sort key, ascending, no search.
    fn default() -> (r: FilterOptions)
        ensures
            r.sort_by is None,
            r.sort_order is Asc,
            r.search is None,
    {
        FilterOptions { sort_by: None, sort_order: SortOrder::Asc, search: None }
    }
}

} // verus!
