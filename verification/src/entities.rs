//! The canonical schema: manga, chapters, pages, sources and genres, with
//! ghost views over which every contract in this crate is stated.
//!
//! Timestamps are kept as plain integer values (seconds), chapter numbers as
//! strings (some sources number chapters "12.5"), and the source reference as
//! an explicit pending/resolved state so an incomplete entity can never be
//! mistaken for a resolved one.

use vstd::prelude::*;

verus! {

/// One page of a chapter.  Within a chapter the pair (chapter id, page
/// number) is meant to be unique and pages arrive already ordered by page
/// number; both are upstream guarantees, not checked by the decoder.
pub struct PageTable {
    pub id: u32,
    pub chapter_id: String,
    pub url: String,
    pub page_number: u32,
}

pub ghost struct PageV {
    pub id: u32,
    pub chapter_id: Seq<char>,
    pub url: Seq<char>,
    pub page_number: u32,
}

impl View for PageTable {
    type V = PageV;

    open spec fn view(&self) -> PageV {
        PageV {
            id: self.id,
            chapter_id: self.chapter_id@,
            url: self.url@,
            page_number: self.page_number,
        }
    }
}

/// One chapter of a manga with its decoded pages.
pub struct ChapterTable {
    pub chapter_id: String,
    pub chapter_name: String,
    pub chapter_number: String,
    pub updated_at: Option<i64>,
    pub manga_id: String,
    pub last_watch_time: i64,
    pub sequence_number: i32,
    pub pages: Vec<PageTable>,
}

pub ghost struct ChapterV {
    pub chapter_id: Seq<char>,
    pub chapter_name: Seq<char>,
    pub chapter_number: Seq<char>,
    pub updated_at: Option<i64>,
    pub manga_id: Seq<char>,
    pub last_watch_time: i64,
    pub sequence_number: i32,
    pub pages: Seq<PageV>,
}

impl View for ChapterTable {
    type V = ChapterV;

    open spec fn view(&self) -> ChapterV {
        ChapterV {
            chapter_id: self.chapter_id@,
            chapter_name: self.chapter_name@,
            chapter_number: self.chapter_number@,
            updated_at: self.updated_at,
            manga_id: self.manga_id@,
            last_watch_time: self.last_watch_time,
            sequence_number: self.sequence_number,
            pages: self.pages@.map_values(|p: PageTable| p@),
        }
    }
}

/// A registered scraper source.  Lower priority is more authoritative;
/// immutable once loaded into the lookup context.
pub struct SourceTable {
    pub id: String,
    pub name: String,
    pub priority: i32,
}

pub ghost struct SourceV {
    pub id: Seq<char>,
    pub name: Seq<char>,
    pub priority: i32,
}

impl View for SourceTable {
    type V = SourceV;

    open spec fn view(&self) -> SourceV {
        SourceV { id: self.id@, name: self.name@, priority: self.priority }
    }
}

impl SourceTable {
    /// A field-by-field copy.
    pub fn duplicate(&self) -> (r: SourceTable)
        ensures
            r == *self,
    {
        SourceTable { id: self.id.clone(), name: self.name.clone(), priority: self.priority }
    }
}

/// A canonical genre: id plus its normalized (lower-cased, trimmed) name.
pub struct Genre {
    pub id: String,
    pub name: String,
}

pub ghost struct GenreV {
    pub id: Seq<char>,
    pub name: Seq<char>,
}

impl View for Genre {
    type V = GenreV;

    open spec fn view(&self) -> GenreV {
        GenreV { id: self.id@, name: self.name@ }
    }
}

impl Genre {
    /// A field-by-field copy.
    pub fn duplicate(&self) -> (r: Genre)
        ensures
            r == *self,
    {
        Genre { id: self.id.clone(), name: self.name.clone() }
    }
}

/// A manga's source reference: explicitly pending until the mapper has
/// resolved the fetched source name through the lookup context.
pub enum SourceRef {
    Pending,
    Resolved(SourceTable),
}

impl View for SourceRef {
    type V = Option<SourceV>;

    open spec fn view(&self) -> Option<SourceV> {
        match self {
            SourceRef::Pending => None,
            SourceRef::Resolved(s) => Some(s@),
        }
    }
}

/// The canonical manga entity.
pub struct MangaTable {
    pub id: String,
    pub linked_id: String,
    pub is_listed: bool,
    pub name: String,
    pub cover_url: String,
    pub url: String,
    pub last_updated: i64,
    pub status: String,
    pub is_main: bool,
    pub description: String,
    pub last_watch_time: i64,
    pub public_id: String,
    pub is_old: bool,
    pub source: SourceRef,
    pub chapters: Vec<ChapterTable>,
    pub authors: Vec<String>,
    pub artists: Vec<String>,
    pub genres: Vec<Genre>,
    pub titles: Vec<String>,
}

pub ghost struct MangaV {
    pub id: Seq<char>,
    pub linked_id: Seq<char>,
    pub is_listed: bool,
    pub name: Seq<char>,
    pub cover_url: Seq<char>,
    pub url: Seq<char>,
    pub last_updated: i64,
    pub status: Seq<char>,
    pub is_main: bool,
    pub description: Seq<char>,
    pub last_watch_time: i64,
    pub public_id: Seq<char>,
    pub is_old: bool,
    pub source: Option<SourceV>,
    pub chapters: Seq<ChapterV>,
    pub authors: Seq<Seq<char>>,
    pub artists: Seq<Seq<char>>,
    pub genres: Seq<GenreV>,
    pub titles: Seq<Seq<char>>,
}

impl View for MangaTable {
    type V = MangaV;

    open spec fn view(&self) -> MangaV {
        MangaV {
            id: self.id@,
            linked_id: self.linked_id@,
            is_listed: self.is_listed,
            name: self.name@,
            cover_url: self.cover_url@,
            url: self.url@,
            last_updated: self.last_updated,
            status: self.status@,
            is_main: self.is_main,
            description: self.description@,
            last_watch_time: self.last_watch_time,
            public_id: self.public_id@,
            is_old: self.is_old,
            source: self.source@,
            chapters: self.chapters@.map_values(|c: ChapterTable| c@),
            authors: self.authors@.map_values(|s: String| s@),
            artists: self.artists@.map_values(|s: String| s@),
            genres: self.genres@.map_values(|g: Genre| g@),
            titles: self.titles@.map_values(|s: String| s@),
        }
    }
}

impl MangaV {
    /// A completed entity never retains the pending source state.
    pub open spec fn is_complete(self) -> bool {
        self.source is Some
    }
}

} // verus!
