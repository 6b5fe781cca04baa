//! Catalog records: goods summaries for the listing, details for one item,
//! and the paging of the listing.
use vstd::prelude::*;
use crate::paging::page_offset;

verus! {

/// One entry of the goods listing.
#[derive(Debug, Clone)]
pub struct GoodsSummary {
    pub id: i32,
    pub goods_name: String,
    pub goods_image: String,
}

/// A page of the goods listing.
#[derive(Debug, Clone, Copy, PartialEq, Eq, Structural)]
pub struct QueryRequest {
    pub page_size: i64,
    pub page: i64,
}

/// A lookup of one item.
#[derive(Debug, Clone, Copy, PartialEq, Eq, Structural)]
pub struct QueryDetailRequest {
    pub goods_id: i32,
}

/// The details of one item; the unit price is in cents.
#[derive(Debug, Clone)]
pub struct GoodsDetail {
    pub id: i32,
    pub goods_name: String,
    pub goods_image: String,
    pub unit_price: i32,
    pub goods_des: String,
    pub inventory_count: i32,
}

impl QueryRequest {
    /// The offset of the requested page: `None` for a negative page or page
    /// size, or when the offset leaves the 64-bit range.
    pub fn offset(&self) -> (r: Option<i64>)
        ensures
            r is Some <==> (self.page >= 0 && self.page_size >= 0 && self.page * self.page_size <= i64::MAX),
            r matches Some(off) ==> off == self.page * self.page_size,
    {
        page_offset(self.page, self.page_size)
    }
}

} // verus!
