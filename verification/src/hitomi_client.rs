use crate::errors::HitomiError;
use vstd::prelude::*;

verus! {

/// Number of comics on a page.
pub const PAGE_SIZE: usize = 25;

/// The answer of the service to a login.
#[derive(Debug)]
pub struct LoginResp {
    pub ret: bool,
    pub html: String,
}

/// The ids of one page and the number of pages.
#[derive(Debug)]
pub struct Page {
    pub total_page: usize,
    pub ids: Vec<i32>,
}

/// Number of pages of 25 that hold `len` ids.
pub open spec fn spec_total_page(len: int) -> int {
    (len + 24) / 25
}

/// Where a page begins among `len` ids.
pub open spec fn spec_page_start(len: int, page_num: int) -> int {
    if (page_num - 1) * 25 < len {
        (page_num - 1) * 25
    } else {
        len
    }
}

/// Where a page ends among `len` ids.
pub open spec fn spec_page_end(len: int, page_num: int) -> int {
    if page_num * 25 < len {
        page_num * 25
    } else {
        len
    }
}

/// The ids of page `page_num`, the first page being 1: up to 25 ids from
/// the place of the page on.
pub open spec fn spec_page_ids(ids: Seq<i32>, page_num: int) -> Seq<i32> {
    ids.subrange(
        spec_page_start(ids.len() as int, page_num),
        spec_page_end(ids.len() as int, page_num),
    )
}

/// Takes one page out of the ids of a search.
pub fn get_page(ids: &[i32], page_num: usize) -> (page: Page)
    requires
        page_num >= 1,
    ensures
        page.total_page == spec_total_page(ids@.len() as int),
        page.ids@ == spec_page_ids(ids@, page_num as int),
{
    let len = ids.len();
    let total_page = len / PAGE_SIZE + if len % PAGE_SIZE == 0 {
        0
    } else {
        1
    };
    let skip = page_num - 1;
    let start = if skip >= len / PAGE_SIZE + 1 {
        len
    } else if skip * PAGE_SIZE < len {
        skip * PAGE_SIZE
    } else {
        len
    };
    let end = if len - start > PAGE_SIZE {
        start + PAGE_SIZE
    } else {
        len
    };
    let mut out: Vec<i32> = Vec::new();
    let mut i: usize = start;
    while i < end
        invariant
            start <= i <= end <= ids@.len(),
            out@ == ids@.subrange(start as int, i as int),
        decreases end - i,
    {
        out.push(ids[i]);
        i += 1;
        assert(out@ =~= ids@.subrange(start as int, i as int));
    }
    Page { total_page, ids: out }
}

/// What the status of an image response means: 200 is good, 503 means that
/// the service gave up after the retries, any other is unexpected.
pub open spec fn spec_img_status(status: u16) -> Result<(), HitomiError> {
    if status == 503 {
        Err(HitomiError::ServiceUnavailable)
    } else if status != 200 {
        Err(HitomiError::UnexpectedStatus)
    } else {
        Ok(())
    }
}

/// Checks the status of the response to an image request.
pub fn get_img_data(status: u16) -> (r: Result<(), HitomiError>)
    ensures
        r == spec_img_status(status),
{
    if status == 503 {
        Err(HitomiError::ServiceUnavailable)
    } else if status != 200 {
        Err(HitomiError::UnexpectedStatus)
    } else {
        Ok(())
    }
}

/// Checks the status of the response to a cover request: any status other
/// than 200 is unexpected.
pub fn get_cover_data(status: u16) -> (r: Result<(), HitomiError>)
    ensures
        r == if status == 200 {
            Ok::<(), HitomiError>(())
        } else {
            Err::<(), HitomiError>(HitomiError::UnexpectedStatus)
        },
{
    if status != 200 {
        Err(HitomiError::UnexpectedStatus)
    } else {
        Ok(())
    }
}

} // verus!
