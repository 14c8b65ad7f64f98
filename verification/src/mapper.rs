//! The canonical mapper and fetch assembly: one fetched row plus its
//! sub-fetches become one fully populated manga entity.
//!
//! The caller performs the queries (primary row by URL; titles by linked
//! id; authors, artists and genre names by manga id; source name by the
//! source id captured on the row; chapter rows with packed pages by manga
//! id) and hands their results here as plain values.  This module resolves
//! the genre and source references through the lookup context, decodes the
//! chapters, and assembles the entity; any undecodable chapter row fails the
//! whole fetch, with no partial-entity fallback.

use crate::context::{resolved_genres, Context};
use crate::decoder::{chapter_of_row, chapters_from_rows, row_decodes, ChapterRow, ChapterRowV};
use crate::entities::{MangaTable, MangaV, SourceRef};
use crate::text::views_of;
use crate::Error;
use vstd::prelude::*;

verus! {

/// The scalar columns of the primary manga row, as fetched.  The row carries
/// only a source id; the source name is fetched separately and resolution
/// happens against the name.
pub struct MangaRow {
    pub id: String,
    pub linked_id: String,
    pub is_listed: bool,
    pub name: String,
    pub cover_url: String,
    pub url: String,
    pub last_updated: i64,
    pub status: String,
    pub is_main: bool,
    pub description: String,
    pub last_watch_time: i64,
    pub public_id: String,
    pub is_old: bool,
    pub source_id: String,
}

pub ghost struct MangaRowV {
    pub id: Seq<char>,
    pub linked_id: Seq<char>,
    pub is_listed: bool,
    pub name: Seq<char>,
    pub cover_url: Seq<char>,
    pub url: Seq<char>,
    pub last_updated: i64,
    pub status: Seq<char>,
    pub is_main: bool,
    pub description: Seq<char>,
    pub last_watch_time: i64,
    pub public_id: Seq<char>,
    pub is_old: bool,
    pub source_id: Seq<char>,
}

impl View for MangaRow {
    type V = MangaRowV;

    open spec fn view(&self) -> MangaRowV {
        MangaRowV {
            id: self.id@,
            linked_id: self.linked_id@,
            is_listed: self.is_listed,
            name: self.name@,
            cover_url: self.cover_url@,
            url: self.url@,
            last_updated: self.last_updated,
            status: self.status@,
            is_main: self.is_main,
            description: self.description@,
            last_watch_time: self.last_watch_time,
            public_id: self.public_id@,
            is_old: self.is_old,
            source_id: self.source_id@,
        }
    }
}

/// The entity a primary row stands for before the sub-fetches fill it in:
/// scalars copied, collections empty, source still pending.
pub open spec fn manga_of_row(r: MangaRowV) -> MangaV {
    MangaV {
        id: r.id,
        linked_id: r.linked_id,
        is_listed: r.is_listed,
        name: r.name,
        cover_url: r.cover_url,
        url: r.url,
        last_updated: r.last_updated,
        status: r.status,
        is_main: r.is_main,
        description: r.description,
        last_watch_time: r.last_watch_time,
        public_id: r.public_id,
        is_old: r.is_old,
        source: None,
        chapters: Seq::empty(),
        authors: Seq::empty(),
        artists: Seq::empty(),
        genres: Seq::empty(),
        titles: Seq::empty(),
    }
}

/// A freshly extracted primary row: the still-incomplete entity beside the
/// source id it carries.
pub struct MangaTableWrapper {
    pub contents: MangaTable,
    pub source_id: String,
}

/// The row-to-entity extraction the store's row mapper performs: scalars
/// over, source explicitly pending, collections empty.
pub fn wrap_row(row: MangaRow) -> (r: MangaTableWrapper)
    ensures
        r.contents@ == manga_of_row(row@),
        r.source_id@ == row@.source_id,
        !r.contents@.is_complete(),
{
    let MangaRow {
        id,
        linked_id,
        is_listed,
        name,
        cover_url,
        url,
        last_updated,
        status,
        is_main,
        description,
        last_watch_time,
        public_id,
        is_old,
        source_id,
    } = row;
    let contents = MangaTable {
        id,
        linked_id,
        is_listed,
        name,
        cover_url,
        url,
        last_updated,
        status,
        is_main,
        description,
        last_watch_time,
        public_id,
        is_old,
        source: SourceRef::Pending,
        chapters: Vec::new(),
        authors: Vec::new(),
        artists: Vec::new(),
        genres: Vec::new(),
        titles: Vec::new(),
    };
    proof {
        assert(contents@.chapters =~= Seq::<crate::entities::ChapterV>::empty());
        assert(contents@.authors =~= Seq::<Seq<char>>::empty());
        assert(contents@.artists =~= Seq::<Seq<char>>::empty());
        assert(contents@.genres =~= Seq::<crate::entities::GenreV>::empty());
        assert(contents@.titles =~= Seq::<Seq<char>>::empty());
    }
    MangaTableWrapper { contents, source_id }
}

/// The fully assembled entity of one fetch: row scalars, verbatim string
/// collections, resolved genres, resolved source, decoded chapters.
pub open spec fn assembled_manga(
    row: MangaRowV,
    titles: Seq<Seq<char>>,
    authors: Seq<Seq<char>>,
    artists: Seq<Seq<char>>,
    genre_names: Seq<Seq<char>>,
    source_name: Seq<char>,
    chapter_rows: Seq<ChapterRowV>,
    c: Context,
) -> MangaV {
    MangaV {
        source: Some(c.sources@[source_name]@),
        chapters: chapter_rows.map_values(|r: ChapterRowV| chapter_of_row(r)),
        authors: authors,
        artists: artists,
        genres: resolved_genres(c.genres@, genre_names),
        titles: titles,
        ..manga_of_row(row)
    }
}

/// Assembles one manga entity from everything the per-manga fetch gathered.
/// Titles, authors and artists are copied verbatim in fetch order;
/// unresolved genre names are dropped; the source name must resolve (fetched
/// sources are a closed set, so the caller checks before calling and treats
/// a miss as fatal); any chapter row that does not decode fails the fetch.
pub fn assemble_manga(
    row: MangaRow,
    titles: Vec<String>,
    authors: Vec<String>,
    artists: Vec<String>,
    genre_names: &Vec<String>,
    source_name: &str,
    chapter_rows: &Vec<ChapterRow>,
    c: &Context,
) -> (r: Result<MangaTable, Error>)
    requires
        c.wf(),
        c.sources@.contains_key(source_name@),
    ensures
        match r {
            Ok(m) => {
                &&& forall|k: int|
                    0 <= k < chapter_rows@.len() ==> row_decodes(#[trigger] chapter_rows@[k]@)
                &&& m@ == assembled_manga(
                    row@,
                    views_of(titles@),
                    views_of(authors@),
                    views_of(artists@),
                    views_of(genre_names@),
                    source_name@,
                    chapter_rows@.map_values(|x: ChapterRow| x@),
                    *c,
                )
                &&& m@.is_complete()
            },
            Err(e) => {
                &&& exists|k: int|
                    0 <= k < chapter_rows@.len() && !row_decodes(#[trigger] chapter_rows@[k]@)
                &&& e == Error::TextParseError
            },
        },
{
    let ghost rowv = row@;
    let ghost tv = views_of(titles@);
    let ghost av = views_of(authors@);
    let ghost arv = views_of(artists@);
    let ghost gv = views_of(genre_names@);
    let genres = c.resolve_genres(genre_names);
    let chapters = match chapters_from_rows(chapter_rows) {
        Ok(cs) => cs,
        Err(e) => {
            return Err(e);
        },
    };
    let source = match c.resolve_source(source_name) {
        Some(s) => s.duplicate(),
        None => {
            proof {
                assert(false);
            }
            vstd::pervasive::unreached()
        },
    };
    let MangaRow {
        id,
        linked_id,
        is_listed,
        name,
        cover_url,
        url,
        last_updated,
        status,
        is_main,
        description,
        last_watch_time,
        public_id,
        is_old,
        source_id,
    } = row;
    let m = MangaTable {
        id,
        linked_id,
        is_listed,
        name,
        cover_url,
        url,
        last_updated,
        status,
        is_main,
        description,
        last_watch_time,
        public_id,
        is_old,
        source: SourceRef::Resolved(source),
        chapters,
        authors,
        artists,
        genres,
        titles,
    };
    proof {
        let expect = assembled_manga(
            rowv,
            tv,
            av,
            arv,
            gv,
            source_name@,
            chapter_rows@.map_values(|x: ChapterRow| x@),
            *c,
        );
        assert(m@.titles =~= tv);
        assert(m@.authors =~= av);
        assert(m@.artists =~= arv);
        assert(m@.genres =~= resolved_genres(c.genres@, gv));
        assert(m@.chapters =~= chapter_rows@.map_values(|x: ChapterRow| x@).map_values(
            |r: ChapterRowV| chapter_of_row(r),
        ));
        assert(m@ == expect);
    }
    Ok(m)
}

} // verus!
