//! `LIMIT page_size OFFSET page * page_size` over a sequence of rows.
use vstd::prelude::*;

verus! {

/// The rows of `s` from position `offset`, at most `limit` of them.
pub open spec fn page_of<T>(s: Seq<T>, offset: int, limit: int) -> Seq<T> {
    let lo = if offset < s.len() { offset } else { s.len() as int };
    let hi = if offset + limit < s.len() { offset + limit } else { s.len() as int };
    s.subrange(lo, hi)
}

/// The offset of page `page` when pages hold `page_size` rows: `None` when
/// either is negative or the product leaves the 64-bit range.
pub fn page_offset(page: i64, page_size: i64) -> (r: Option<i64>)
    ensures
        r is Some <==> (page >= 0 && page_size >= 0 && page * page_size <= i64::MAX),
        r matches Some(off) ==> off == page * page_size,
{
    if page < 0 || page_size < 0 {
        return None;
    }
    if page_size != 0 && page > i64::MAX / page_size {
        proof {
            assert(page * page_size > i64::MAX) by (nonlinear_arith)
                requires page_size > 0, page > i64::MAX / page_size;
        }
        return None;
    }
    proof {
        if page_size != 0 {
            assert(page * page_size <= i64::MAX) by (nonlinear_arith)
                requires page_size > 0, page <= i64::MAX / page_size, page >= 0;
        }
    }
    Some(page * page_size)
}

/// Appending a row to `s` either adds it to the page or leaves the page as it
/// was, according to whether its position falls in the window.
pub proof fn lemma_page_push<T>(s: Seq<T>, x: T, offset: int, limit: int)
    requires
        offset >= 0,
        limit >= 0,
    ensures
        offset <= s.len() < offset + limit ==> page_of(s.push(x), offset, limit) == page_of(s, offset, limit).push(x),
        !(offset <= s.len() < offset + limit) ==> page_of(s.push(x), offset, limit) == page_of(s, offset, limit),
{
    if offset <= s.len() < offset + limit {
        assert(page_of(s.push(x), offset, limit) =~= page_of(s, offset, limit).push(x));
    } else {
        assert(page_of(s.push(x), offset, limit) =~= page_of(s, offset, limit));
    }
}

} // verus!
