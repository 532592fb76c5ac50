//! Pages of pending Activities: the request checked before the rows are
//! read, and the page made of the rows read (one more than asked for, to
//! tell whether more follow).

use vstd::prelude::*;
use vstd::utf8::encode_utf8;

use crate::error::{is_validation_of, AppError};
use crate::pending::{
    is_pending_status, page_limit, pending_dto, pending_unreadable, shows_pending, validate_status, ListPendingActivitiesInput,
    PendingActivityDto, PendingActivityPageDto, PendingActivityRecord,
};
use crate::pending_cursor::{cursor_parts, cursor_text, decode_pending_cursor, encode_pending_cursor, url_safe_bytes};

verus! {

/// The page size a request asks for, 50 when it gives none.
pub open spec fn wanted_limit(limit: Option<i32>) -> int {
    match limit {
        Some(l) => l as int,
        None => 50,
    }
}

/// A listing request reads: its page size is between 1 and 100, its status
/// (if any) is a pending status, and its cursor (if any) decodes.
pub open spec fn page_query_ok(input: ListPendingActivitiesInput) -> bool {
    &&& 1 <= wanted_limit(input.limit) <= 100
    &&& input.status matches Some(s) ==> is_pending_status(s@)
    &&& input.cursor matches Some(c) ==> cursor_parts(c@) is Some
}

/// Checks a listing request before any row is read: the page size, then
/// the status, then the cursor, which it decodes into the position to
/// continue after.
pub fn pending_page_query(input: &ListPendingActivitiesInput) -> (query: Result<
    (i64, Option<(String, String, String)>),
    AppError,
>)
    ensures
        match query {
            Ok(q) => page_query_ok(*input) && q.0 == wanted_limit(input.limit) && match input.cursor {
                Some(c) => q.1 matches Some(p) && cursor_parts(c@) == Some((p.0@, p.1@, p.2@)),
                None => q.1 is None,
            },
            Err(e) => !page_query_ok(*input) && (!(1 <= wanted_limit(input.limit) <= 100) ==> is_validation_of(
                e,
                "limit"@,
            )),
        },
{
    let limit = page_limit(input.limit)?;
    match &input.status {
        Some(status) => validate_status(status.as_str())?,
        None => {},
    }
    let cursor = match &input.cursor {
        Some(value) => Some(decode_pending_cursor(value.as_str())?),
        None => None,
    };
    Ok((limit, cursor))
}

/// How many rows a page keeps: the limit, when it is a size at all.
pub open spec fn page_cap(limit: i64) -> int {
    if 0 <= limit <= usize::MAX { limit as int } else { usize::MAX as int }
}

/// The page made of rows read in order, `limit + 1` at most: the first
/// `limit` of them as interface records, whether more follow, and, when
/// they do, the cursor of the last row kept. A row that cannot be shown
/// fails the page.
pub fn pending_page(rows: Vec<PendingActivityRecord>, limit: i64) -> (page: Result<PendingActivityPageDto, AppError>)
    requires
        forall|k: int| 0 <= k < rows@.len() ==> encode_utf8(
            cursor_text((#[trigger] rows@[k]).scheduled_local_date@, rows@[k].created_at@, rows@[k].id@),
        ).len() <= usize::MAX / 2,
    ensures
        ({
            let kept = if rows@.len() > page_cap(limit) { page_cap(limit) } else { rows@.len() as int };
            match page {
                Ok(p) => {
                    &&& p.has_more == (rows@.len() > page_cap(limit))
                    &&& p.items@.len() == kept
                    &&& forall|k: int| 0 <= k < kept ==> shows_pending(rows@[k], #[trigger] p.items@[k])
                    &&& match p.next_cursor {
                        Some(c) => p.has_more && kept > 0 && url_safe_bytes(c@) == Some(
                            encode_utf8(
                                cursor_text(
                                    rows@[kept - 1].scheduled_local_date@,
                                    rows@[kept - 1].created_at@,
                                    rows@[kept - 1].id@,
                                ),
                            ),
                        ),
                        None => !p.has_more || kept == 0,
                    }
                },
                Err(_) => exists|k: int| 0 <= k < kept && pending_unreadable(#[trigger] rows@[k]),
            }
        }),
{
    let cap: usize = if 0 <= limit && (limit as u64) <= (usize::MAX as u64) { limit as usize } else { usize::MAX };
    let has_more = rows.len() > cap;
    let kept: usize = if has_more { cap } else { rows.len() };
    let ghost spec_kept = if rows@.len() > page_cap(limit) { page_cap(limit) } else { rows@.len() as int };
    assert(cap as int == page_cap(limit));
    assert(kept as int == spec_kept);
    let mut items: Vec<PendingActivityDto> = Vec::new();
    let mut k: usize = 0;
    while k < kept
        invariant
            k <= kept <= rows@.len(),
            kept as int == spec_kept,
            spec_kept == (if rows@.len() > page_cap(limit) { page_cap(limit) } else { rows@.len() as int }),
            items@.len() == k,
            forall|j: int| 0 <= j < k ==> shows_pending(rows@[j], #[trigger] items@[j]),
        decreases kept - k,
    {
        match pending_dto(&rows[k]) {
            Ok(item) => items.push(item),
            Err(e) => {
                assert(pending_unreadable(rows@[k as int]));
                return Err(e);
            },
        }
        k = k + 1;
    }
    let next_cursor = if has_more && kept > 0 {
        Some(encode_pending_cursor(&rows[kept - 1]))
    } else {
        None
    };
    Ok(PendingActivityPageDto { items, next_cursor, has_more })
}

} // verus!
