use vstd::prelude::*;

verus! {

/// One page of a listing together with the figures that place it in the whole.
#[derive(Debug, Clone)]
pub struct PaginatedResponse<T> {
    pub data: Vec<T>,
    pub pagination: PaginationMeta,
}

/// Where a page stands in a listing.
#[derive(Clone, Copy, Debug, PartialEq, Eq, Structural)]
pub struct PaginationMeta {
    /// How many items the whole listing has.
    pub total: u64,
    /// The number of the page, counted from 1.
    pub page: u64,
    pub per_page: u64,
    pub total_pages: u64,
    pub has_next: bool,
    pub has_prev: bool,
}

/// How many pages of `per_page` items a listing of `total` items has. An empty listing has
/// one page, which is empty.
pub open spec fn page_count(total: int, per_page: int) -> int {
    if total == 0 {
        1
    } else {
        (total + per_page - 1) / per_page
    }
}

/// The figures of page `page` of a listing of `total` items.
pub open spec fn meta_of(total: u64, page: u64, per_page: u64) -> PaginationMeta {
    PaginationMeta {
        total,
        page,
        per_page,
        total_pages: page_count(total as int, per_page as int) as u64,
        has_next: page < page_count(total as int, per_page as int),
        has_prev: page > 1,
    }
}

/// The number of pages is the least number of pages that hold all items, and is never
/// more than the number of items.
pub proof fn lemma_page_count(total: int, per_page: int)
    requires
        total > 0,
        per_page > 0,
    ensures
        page_count(total, per_page) == (total - 1) / per_page + 1,
        1 <= page_count(total, per_page) <= total,
        (page_count(total, per_page) - 1) * per_page < total <= page_count(total, per_page)
            * per_page,
{
    let q: int = (total - 1) / per_page;
    assert(total + per_page - 1 == (total - 1) + per_page);
    assert(((total - 1) + per_page) / per_page == q + 1) by (nonlinear_arith)
        requires
            per_page > 0,
            q == (total - 1) / per_page,
    ;
    assert(q * per_page <= total - 1 < (q + 1) * per_page) by (nonlinear_arith)
        requires
            per_page > 0,
            total - 1 >= 0,
            q == (total - 1) / per_page,
    ;
    assert(0 <= q <= total - 1) by (nonlinear_arith)
        requires
            per_page > 0,
            total - 1 >= 0,
            q == (total - 1) / per_page,
    ;
}

impl<T> PaginatedResponse<T> {
    /// Puts a page together with its figures.
    ///
    /// A listing that has items cannot be cut into pages of no items.
    pub fn new(data: Vec<T>, total: u64, page: u64, per_page: u64) -> (response: Self)
        requires
            total > 0 ==> per_page > 0,
        ensures
            response.data == data,
            response.pagination == meta_of(total, page, per_page),
    {
        let total_pages: u64 = if total == 0 {
            1
        } else {
            proof {
                lemma_page_count(total as int, per_page as int);
            }
            (total - 1) / per_page + 1
        };
        let has_next = page < total_pages;
        let has_prev = page > 1;
        PaginatedResponse {
            data,
            pagination: PaginationMeta { total, page, per_page, total_pages, has_next, has_prev },
        }
    }
}

/// The page and the page size that a client asked for, each of which it may leave out.
#[derive(Clone, Copy, Debug, PartialEq, Eq, Structural)]
pub struct PaginationQuery {
    pub page: Option<u64>,
    pub per_page: Option<u64>,
}

impl PaginationQuery {
    /// The page that the query stands for.
    pub open spec fn spec_page(self) -> u64 {
        match self.page {
            Some(page) => if page < 1 {
                1
            } else {
                page
            },
            None => 1,
        }
    }

    /// The page size that the query stands for.
    pub open spec fn spec_per_page(self) -> u64 {
        match self.per_page {
            Some(per_page) => if per_page < 1 {
                1
            } else if per_page > 100 {
                100
            } else {
                per_page
            },
            None => 10,
        }
    }

    /// The number of the page, counted from 1: the first page where none is given, and
    /// where page 0 is asked for.
    pub fn page(&self) -> (page: u64)
        ensures
            page == self.spec_page(),
            page >= 1,
    {
        match self.page {
            Some(page) => if page < 1 {
                1
            } else {
                page
            },
            None => 1,
        }
    }

    /// The number of items on a page: 10 where none is given, and never less than 1 or
    /// more than 100.
    pub fn per_page(&self) -> (per_page: u64)
        ensures
            per_page == self.spec_per_page(),
            1 <= per_page <= 100,
    {
        match self.per_page {
            Some(per_page) => if per_page < 1 {
                1
            } else if per_page > 100 {
                100
            } else {
                per_page
            },
            None => 10,
        }
    }
}

/// The items of page `page`, counted from 1, of a listing cut into pages of `per_page`
/// items: what lies from item `(page - 1) * per_page` up to, and without, item
/// `page * per_page`, as far as the listing goes.
pub open spec fn page_window<T>(listing: Seq<T>, page: int, per_page: int) -> Seq<T> {
    let start = (page - 1) * per_page;
    let end = page * per_page;
    if start >= listing.len() {
        Seq::empty()
    } else if end >= listing.len() {
        listing.subrange(start, listing.len() as int)
    } else {
        listing.subrange(start, end)
    }
}

/// The positions in a listing of `len` items at which page `page` begins and ends.
pub fn page_bounds(len: usize, page: u64, per_page: u64) -> (bounds: (usize, usize))
    requires
        page >= 1,
        per_page >= 1,
    ensures
        bounds.0 <= bounds.1 <= len,
        bounds.0 == if (page - 1) * per_page >= len {
            len as int
        } else {
            (page - 1) * per_page
        },
        bounds.1 == if page * per_page >= len {
            len as int
        } else {
            page * per_page
        },
{
    let skip: u128 = (page - 1) as u128;
    let size: u128 = per_page as u128;
    assert(skip * size <= 0xffff_ffff_ffff_ffff * 0xffff_ffff_ffff_ffff) by (nonlinear_arith)
        requires
            skip <= 0xffff_ffff_ffff_ffff,
            size <= 0xffff_ffff_ffff_ffff,
    ;
    let start: u128 = skip * size;
    let end: u128 = start + size;
    assert(end == page * per_page) by (nonlinear_arith)
        requires
            end == (page - 1) * per_page + per_page,
    ;
    let first: usize = if start >= len as u128 {
        len
    } else {
        start as usize
    };
    let last: usize = if end >= len as u128 {
        len
    } else {
        end as usize
    };
    (first, last)
}

} // verus!
