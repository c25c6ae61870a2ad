//! Pagination arithmetic: page counts, offsets, page-number validation.

use vstd::prelude::*;
use crate::numerals::u64_to_string;

verus! {

/// How many pages of `size` items hold `total` items: the ceiling of
/// `total / size`.
pub open spec fn pages_needed(total: nat, size: nat) -> nat
    recommends
        size > 0,
{
    total / size + if total % size != 0 {
        1nat
    } else {
        0nat
    }
}

/// Calculate total pages. A page size of zero yields zero pages; a count
/// beyond `u32::MAX` saturates.
pub fn calculate_total_pages(total_items: u64, page_size: u32) -> (r: u32)
    ensures
        page_size == 0 ==> r == 0,
        page_size > 0 ==> r as nat == (if pages_needed(total_items as nat, page_size as nat)
            > u32::MAX as nat {
            u32::MAX as nat
        } else {
            pages_needed(total_items as nat, page_size as nat)
        }),
{
    if page_size == 0 {
        return 0;
    }
    let ps = page_size as u64;
    let extra: u64 = if total_items % ps != 0 {
        1
    } else {
        0
    };
    let q = total_items / ps;
    if q >= u32::MAX as u64 {
        u32::MAX
    } else {
        (q + extra) as u32
    }
}

/// Calculate the item offset of a page: pages count from 1, and page zero
/// is treated as the first page.
pub fn calculate_offset(page: u32, page_size: u32) -> (r: u32)
    requires
        page >= 1 ==> (page - 1) * page_size <= u32::MAX,
    ensures
        page == 0 ==> r == 0,
        page >= 1 ==> r == (page - 1) * page_size,
{
    if page == 0 {
        return 0;
    }
    (page - 1) * page_size
}

/// The message `validate_page` returns when the page is past the end.
pub open spec fn page_message(page: nat, total_pages: nat) -> Seq<char> {
    "Page "@ + crate::numerals::dec_nat(page) + " exceeds total pages "@
        + crate::numerals::dec_nat(total_pages)
}

/// Validate a page number: it must be at least 1, and within the total
/// unless no pages exist at all.
pub fn validate_page(page: u32, total_pages: u32) -> (r: Result<(), String>)
    ensures
        match r {
            Ok(_) => page >= 1 && (page <= total_pages || total_pages == 0),
            Err(m) => {
                if page == 0 {
                    m@ == "Page number must be greater than 0"@
                } else {
                    page > total_pages && total_pages > 0 && m@ == page_message(
                        page as nat,
                        total_pages as nat,
                    )
                }
            },
        },
{
    if page == 0 {
        return Err(String::from_str("Page number must be greater than 0"));
    }
    if page > total_pages && total_pages > 0 {
        let mut m = String::from_str("Page ");
        let page_digits = u64_to_string(page as u64);
        m.append(page_digits.as_str());
        m.append(" exceeds total pages ");
        let total_digits = u64_to_string(total_pages as u64);
        m.append(total_digits.as_str());
        return Err(m);
    }
    Ok(())
}

} // verus!
