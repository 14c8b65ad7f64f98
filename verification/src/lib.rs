//! Normalization and reconciliation engine for manga metadata gathered from
//! heterogeneous scraper sources.
//!
//! The library owns the canonical schema (manga, chapters, pages, sources,
//! genres), the decoder for the packed one-row-per-chapter page encoding, the
//! lookup context that resolves genre and source names, and the scalar
//! reconciliation of a freshly scraped record against a stored one.  All
//! storage and network traffic lives with the caller: functions here take the
//! fetched rows as plain values and hand plain values back.

use vstd::prelude::*;

pub mod context;
pub mod decoder;
pub mod entities;
pub mod mapper;
pub mod reconcile;
pub mod text;

verus! {

/// Errors the engine itself can produce.  Storage and network failures are
/// the calling layer's own error types and never pass through this crate.
#[derive(Debug, Clone, Copy, PartialEq, Eq, Structural)]
pub enum Error {
    /// A packed text field was absent or decoded to no usable page at all.
    TextParseError,
    /// Placeholder for callers that need a neutral value; never produced here.
    NoError,
}

/// A single-column query result arrives wrapped one value per row.
pub struct RowWrapper<T> {
    pub data: T,
}

/// Strips the row wrappers off one fetched column, keeping fetch order.
pub fn unwrap_rows<T>(rows: Vec<RowWrapper<T>>) -> (r: Vec<T>)
    ensures
        r@ == rows@.map_values(|w: RowWrapper<T>| w.data),
{
    let mut rows = rows;
    let ghost all = rows@;
    let mut r: Vec<T> = Vec::new();
    while rows.len() > 0
        invariant
            r@ + rows@.map_values(|w: RowWrapper<T>| w.data) == all.map_values(
                |w: RowWrapper<T>| w.data,
            ),
        decreases rows.len(),
    {
        let w = rows.remove(0);
        r.push(w.data);
        proof {
            assert(r@ + rows@.map_values(|x: RowWrapper<T>| x.data) =~= all.map_values(
                |x: RowWrapper<T>| x.data,
            ));
        }
    }
    proof {
        assert(r@ =~= all.map_values(|w: RowWrapper<T>| w.data));
    }
    r
}

} // verus!
