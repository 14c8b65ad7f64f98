//! Scalar reconciliation of a freshly scraped manga record against the
//! stored one.
//!
//! Exactly five scalar fields are tracked: name, cover URL, last-updated
//! timestamp, status and description.  When all five agree the engine issues
//! nothing; when any differs it issues exactly one update overwriting all
//! five, keyed by the stored entity's id (a deliberate full-overwrite policy
//! rather than per-field patching).  Collection fields (authors, artists,
//! genres, titles, chapters) are deliberately not reconciled here: a generic
//! collection diff is a planned extension, pluggable beside this contract
//! without changing it.

use crate::entities::{MangaTable, MangaV};
use vstd::prelude::*;

verus! {

/// The one parameterized update the engine issues: the five tracked scalar
/// fields, keyed by the stored entity's id.
pub struct MangaUpdate {
    pub manga_id: String,
    pub name: String,
    pub cover_url: String,
    pub last_updated: i64,
    pub status: String,
    pub description: String,
}

pub ghost struct MangaUpdateV {
    pub manga_id: Seq<char>,
    pub name: Seq<char>,
    pub cover_url: Seq<char>,
    pub last_updated: i64,
    pub status: Seq<char>,
    pub description: Seq<char>,
}

impl View for MangaUpdate {
    type V = MangaUpdateV;

    open spec fn view(&self) -> MangaUpdateV {
        MangaUpdateV {
            manga_id: self.manga_id@,
            name: self.name@,
            cover_url: self.cover_url@,
            last_updated: self.last_updated,
            status: self.status@,
            description: self.description@,
        }
    }
}

/// The five tracked scalar fields pairwise agree.
pub open spec fn tracked_equal(a: MangaV, b: MangaV) -> bool {
    &&& a.name == b.name
    &&& a.cover_url == b.cover_url
    &&& a.last_updated == b.last_updated
    &&& a.status == b.status
    &&& a.description == b.description
}

/// The full-overwrite update issued when any tracked field differs: the
/// incoming values under the stored entity's key.
pub open spec fn update_for(stored: MangaV, incoming: MangaV) -> MangaUpdateV {
    MangaUpdateV {
        manga_id: stored.id,
        name: incoming.name,
        cover_url: incoming.cover_url,
        last_updated: incoming.last_updated,
        status: incoming.status,
        description: incoming.description,
    }
}

/// Compares the five tracked scalar fields.
pub fn tracked_fields_equal(stored: &MangaTable, incoming: &MangaTable) -> (r: bool)
    ensures
        r == tracked_equal(stored@, incoming@),
{
    stored.name == incoming.name && stored.cover_url == incoming.cover_url
        && stored.last_updated == incoming.last_updated && stored.status == incoming.status
        && stored.description == incoming.description
}

/// Computes the minimal reconciliation decision: nothing exactly when the
/// five tracked fields agree, otherwise the one full-overwrite update.
pub fn reconcile(stored: &MangaTable, incoming: &MangaTable) -> (r: Option<MangaUpdate>)
    ensures
        r is None <==> tracked_equal(stored@, incoming@),
        r matches Some(u) ==> u@ == update_for(stored@, incoming@),
{
    if tracked_fields_equal(stored, incoming) {
        None
    } else {
        Some(
            MangaUpdate {
                manga_id: stored.id.clone(),
                name: incoming.name.clone(),
                cover_url: incoming.cover_url.clone(),
                last_updated: incoming.last_updated,
                status: incoming.status.clone(),
                description: incoming.description.clone(),
            },
        )
    }
}

/// The stored entity after the store executes an update: the five tracked
/// fields overwritten, everything else kept.
pub open spec fn apply_update_spec(m: MangaV, u: MangaUpdateV) -> MangaV {
    MangaV {
        name: u.name,
        cover_url: u.cover_url,
        last_updated: u.last_updated,
        status: u.status,
        description: u.description,
        ..m
    }
}

/// Applies an update to an in-memory entity, the model of what the issued
/// statement does to the stored row.
pub fn apply_update(stored: MangaTable, u: &MangaUpdate) -> (r: MangaTable)
    ensures
        r@ == apply_update_spec(stored@, u@),
{
    MangaTable {
        name: u.name.clone(),
        cover_url: u.cover_url.clone(),
        last_updated: u.last_updated,
        status: u.status.clone(),
        description: u.description.clone(),
        ..stored
    }
}

/// Once the issued update has been applied to the stored record, a second
/// reconciliation against the same incoming data issues nothing.
pub proof fn lemma_reconcile_converges(stored: MangaV, incoming: MangaV)
    ensures
        tracked_equal(apply_update_spec(stored, update_for(stored, incoming)), incoming),
{
}

} // verus!
