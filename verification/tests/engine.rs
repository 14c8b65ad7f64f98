use mangaverse_sql::context::Context;
use mangaverse_sql::decoder::{
    chapter_from_row, chapters_from_rows, decode_pages, encode_pages, ChapterRow,
};
use mangaverse_sql::entities::{Genre, PageTable, SourceRef, SourceTable};
use mangaverse_sql::mapper::{assemble_manga, wrap_row, MangaRow};
use mangaverse_sql::reconcile::{apply_update, reconcile, tracked_fields_equal};
use mangaverse_sql::text::{parse_u32, split_tokens, u32_to_dec};
use mangaverse_sql::{unwrap_rows, Error, RowWrapper};

fn page(id: u32, url: &str, page_number: u32, chapter_id: &str) -> PageTable {
    PageTable {
        id,
        chapter_id: chapter_id.to_string(),
        url: url.to_string(),
        page_number,
    }
}

fn row(source_id: &str) -> MangaRow {
    MangaRow {
        id: "m1".to_string(),
        linked_id: "l1".to_string(),
        is_listed: true,
        name: "Foo".to_string(),
        cover_url: "http://x/cover.png".to_string(),
        url: "http://x/manga".to_string(),
        last_updated: 1000,
        status: "ongoing".to_string(),
        is_main: true,
        description: "a story".to_string(),
        last_watch_time: 5,
        public_id: "p1".to_string(),
        is_old: false,
        source_id: source_id.to_string(),
    }
}

fn chapter_row(chapter_id: &str, all_pages: Option<&str>) -> ChapterRow {
    ChapterRow {
        chapter_id: chapter_id.to_string(),
        chapter_name: "Ch".to_string(),
        chapter_number: "12.5".to_string(),
        updated_at: Some(77),
        manga_id: "m1".to_string(),
        last_watch_time: 3,
        sequence_number: 1,
        all_pages: all_pages.map(|s| s.to_string()),
    }
}

#[test]
fn decode_three_complete_groups() {
    let packed = "1 http://x/a.png 0 c1 2 http://x/b.png 1 c1 3 http://x/c.png 2 c1";
    let pages = decode_pages(packed);
    assert_eq!(pages.len(), 3);
    assert_eq!(pages[0].id, 1);
    assert_eq!(pages[0].url, "http://x/a.png");
    assert_eq!(pages[0].page_number, 0);
    assert_eq!(pages[0].chapter_id, "c1");
    assert_eq!(pages[1].id, 2);
    assert_eq!(pages[1].url, "http://x/b.png");
    assert_eq!(pages[1].page_number, 1);
    assert_eq!(pages[2].id, 3);
    assert_eq!(pages[2].page_number, 2);
}

#[test]
fn decode_keeps_input_order_without_sorting() {
    // Order encodes page order: out-of-order page numbers stay as given.
    let packed = "9 u3 2 c 7 u1 0 c 8 u2 1 c";
    let pages = decode_pages(packed);
    let numbers: Vec<u32> = pages.iter().map(|p| p.page_number).collect();
    assert_eq!(numbers, vec![2, 0, 1]);
}

#[test]
fn decode_drops_incomplete_trailing_group() {
    let packed = "1 u0 0 c1 2 u1 1 c1 3 u2";
    let pages = decode_pages(packed);
    assert_eq!(pages.len(), 2);
    assert_eq!(pages[1].id, 2);
}

#[test]
fn decode_skips_non_numeric_group_but_keeps_others() {
    let packed = "1 u0 0 c1 x u1 1 c1 3 u2 two c1 4 u3 3 c1";
    let pages = decode_pages(packed);
    assert_eq!(pages.len(), 2);
    assert_eq!(pages[0].id, 1);
    assert_eq!(pages[1].id, 4);
    assert_eq!(pages[1].page_number, 3);
}

#[test]
fn decode_handles_extra_whitespace() {
    let packed = "  1   u0\t0\nc1  ";
    let pages = decode_pages(packed);
    assert_eq!(pages.len(), 1);
    assert_eq!(pages[0].id, 1);
    assert_eq!(pages[0].url, "u0");
}

#[test]
fn decode_empty_string_yields_nothing() {
    assert_eq!(decode_pages("").len(), 0);
}

#[test]
fn encode_exact_format() {
    let pages = vec![page(1, "u0", 0, "c1"), page(2, "u1", 1, "c1")];
    assert_eq!(encode_pages(&pages), "1 u0 0 c1 2 u1 1 c1");
}

#[test]
fn encode_decode_round_trip() {
    let pages = vec![
        page(10, "http://x/p1.png", 0, "ch-9"),
        page(11, "http://x/p2.png", 1, "ch-9"),
        page(4294967295, "http://x/p3.png", 2, "ch-9"),
    ];
    let packed = encode_pages(&pages);
    let back = decode_pages(&packed);
    assert_eq!(back.len(), pages.len());
    for (a, b) in back.iter().zip(pages.iter()) {
        assert_eq!(a.id, b.id);
        assert_eq!(a.url, b.url);
        assert_eq!(a.page_number, b.page_number);
        assert_eq!(a.chapter_id, b.chapter_id);
    }
}

#[test]
fn parse_u32_cases() {
    assert_eq!(parse_u32("0"), Some(0));
    assert_eq!(parse_u32("42"), Some(42));
    assert_eq!(parse_u32("4294967295"), Some(4294967295));
    assert_eq!(parse_u32("4294967296"), None);
    assert_eq!(parse_u32(""), None);
    assert_eq!(parse_u32("12.5"), None);
    assert_eq!(parse_u32("-1"), None);
    assert_eq!(parse_u32("two"), None);
}

#[test]
fn u32_to_dec_cases() {
    assert_eq!(u32_to_dec(0), "0");
    assert_eq!(u32_to_dec(7), "7");
    assert_eq!(u32_to_dec(1234), "1234");
    assert_eq!(u32_to_dec(4294967295), "4294967295");
}

#[test]
fn split_tokens_cases() {
    let toks = split_tokens(" a  bb\tccc\n");
    assert_eq!(toks, vec!["a".to_string(), "bb".to_string(), "ccc".to_string()]);
    assert_eq!(split_tokens("").len(), 0);
    assert_eq!(split_tokens("   ").len(), 0);
}

#[test]
fn chapter_row_without_pages_is_a_decode_error() {
    let r = chapter_row("c1", None);
    assert!(matches!(chapter_from_row(&r), Err(Error::TextParseError)));
}

#[test]
fn chapter_row_with_no_parsable_page_is_a_decode_error() {
    let r = chapter_row("c1", Some("x u0 y c1"));
    assert!(matches!(chapter_from_row(&r), Err(Error::TextParseError)));
}

#[test]
fn chapter_row_decodes_scalars_and_pages() {
    let r = chapter_row("c1", Some("1 u0 0 c1 2 u1 1 c1"));
    let c = chapter_from_row(&r).unwrap();
    assert_eq!(c.chapter_id, "c1");
    assert_eq!(c.chapter_number, "12.5");
    assert_eq!(c.updated_at, Some(77));
    assert_eq!(c.sequence_number, 1);
    assert_eq!(c.pages.len(), 2);
    assert_eq!(c.pages[1].url, "u1");
}

#[test]
fn one_bad_chapter_row_fails_the_whole_fetch() {
    let rows = vec![
        chapter_row("c1", Some("1 u0 0 c1")),
        chapter_row("c2", None),
    ];
    assert!(matches!(chapters_from_rows(&rows), Err(Error::TextParseError)));
    let good = vec![
        chapter_row("c1", Some("1 u0 0 c1")),
        chapter_row("c2", Some("2 u1 0 c2")),
    ];
    let cs = chapters_from_rows(&good).unwrap();
    assert_eq!(cs.len(), 2);
    assert_eq!(cs[1].pages[0].id, 2);
}

fn test_context() -> Context {
    let mut c = Context::new();
    c.add_genre(Genre { id: "g1".to_string(), name: "action".to_string() });
    c.add_genre(Genre { id: "g2".to_string(), name: "romance".to_string() });
    c.add_source(SourceTable {
        id: "s1".to_string(),
        name: "mangadino".to_string(),
        priority: 1,
    });
    c
}

#[test]
fn genre_resolution_drops_unknown_keeps_known() {
    let c = test_context();
    let names = vec![
        "action".to_string(),
        "mystery".to_string(),
        "romance".to_string(),
    ];
    let genres = c.resolve_genres(&names);
    let got: Vec<&str> = genres.iter().map(|g| g.name.as_str()).collect();
    assert_eq!(got, vec!["action", "romance"]);
    assert_eq!(genres[0].id, "g1");
}

#[test]
fn genre_resolution_is_idempotent() {
    let c = test_context();
    let names = vec![
        "mystery".to_string(),
        "action".to_string(),
        "romance".to_string(),
        "horror".to_string(),
    ];
    let once = c.resolve_genres(&names);
    let names_again: Vec<String> = once.iter().map(|g| g.name.clone()).collect();
    let again = c.resolve_genres(&names_again);
    assert_eq!(once.len(), again.len());
    for (a, b) in once.iter().zip(again.iter()) {
        assert_eq!(a.id, b.id);
        assert_eq!(a.name, b.name);
    }
}

#[test]
fn genre_lookup_hits_and_misses() {
    let c = test_context();
    assert_eq!(c.resolve_genre("action").unwrap().id, "g1");
    assert!(c.resolve_genre("mystery").is_none());
    assert_eq!(c.resolve_source("mangadino").unwrap().id, "s1");
    assert!(c.resolve_source("nowhere").is_none());
}

fn stored_manga() -> mangaverse_sql::entities::MangaTable {
    let c = test_context();
    let chapters = vec![chapter_row("c1", Some("1 u0 0 c1"))];
    assemble_manga(
        row("s1"),
        vec!["Foo".to_string()],
        vec!["author a".to_string()],
        vec!["artist b".to_string()],
        &vec!["action".to_string()],
        "mangadino",
        &chapters,
        &c,
    )
    .unwrap()
}

#[test]
fn reconcile_is_noop_iff_tracked_fields_equal() {
    let stored = stored_manga();
    let same = stored_manga();
    assert!(tracked_fields_equal(&stored, &same));
    assert!(reconcile(&stored, &same).is_none());

    let mut other = stored_manga();
    other.cover_url = "http://x/new.png".to_string();
    assert!(!tracked_fields_equal(&stored, &other));
    let u = reconcile(&stored, &other).unwrap();
    assert_eq!(u.manga_id, "m1");
    assert_eq!(u.name, "Foo");
    assert_eq!(u.cover_url, "http://x/new.png");
    assert_eq!(u.last_updated, 1000);
    assert_eq!(u.status, "ongoing");
    assert_eq!(u.description, "a story");
}

#[test]
fn reconcile_fires_on_each_tracked_field() {
    let stored = stored_manga();
    for field in 0..5 {
        let mut incoming = stored_manga();
        match field {
            0 => incoming.name = "Bar".to_string(),
            1 => incoming.cover_url = "other".to_string(),
            2 => incoming.last_updated = 2000,
            3 => incoming.status = "completed".to_string(),
            _ => incoming.description = "changed".to_string(),
        }
        assert!(reconcile(&stored, &incoming).is_some());
    }
    // Untracked fields never trigger an update.
    let mut incoming = stored_manga();
    incoming.is_listed = false;
    incoming.last_watch_time = 999;
    assert!(reconcile(&stored, &incoming).is_none());
}

#[test]
fn status_change_updates_once_then_settles() {
    let stored = stored_manga();
    let mut incoming = stored_manga();
    incoming.status = "completed".to_string();
    let u = reconcile(&stored, &incoming).expect("one update expected");
    assert_eq!(u.status, "completed");
    assert_eq!(u.name, "Foo");
    assert_eq!(u.cover_url, stored.cover_url);
    assert_eq!(u.last_updated, stored.last_updated);
    assert_eq!(u.description, stored.description);
    let written = apply_update(stored, &u);
    assert!(reconcile(&written, &incoming).is_none());
}

#[test]
fn assembled_entity_resolves_real_source_not_sentinel() {
    let m = stored_manga();
    match &m.source {
        SourceRef::Resolved(s) => {
            assert_eq!(s.name, "mangadino");
            assert_eq!(s.id, "s1");
            assert_eq!(s.priority, 1);
        }
        SourceRef::Pending => panic!("assembled entity kept the pending source"),
    }
    assert_eq!(m.name, "Foo");
    assert_eq!(m.titles, vec!["Foo".to_string()]);
    assert_eq!(m.authors, vec!["author a".to_string()]);
    assert_eq!(m.artists, vec!["artist b".to_string()]);
    assert_eq!(m.genres.len(), 1);
    assert_eq!(m.genres[0].name, "action");
    assert_eq!(m.chapters.len(), 1);
    assert_eq!(m.chapters[0].pages.len(), 1);
}

#[test]
fn assemble_fails_on_undecodable_chapter() {
    let c = test_context();
    let chapters = vec![chapter_row("c1", None)];
    let r = assemble_manga(
        row("s1"),
        vec![],
        vec![],
        vec![],
        &vec![],
        "mangadino",
        &chapters,
        &c,
    );
    assert!(matches!(r, Err(Error::TextParseError)));
}

#[test]
fn wrapped_row_is_pending_and_carries_source_id() {
    let w = wrap_row(row("s1"));
    assert!(matches!(w.contents.source, SourceRef::Pending));
    assert_eq!(w.source_id, "s1");
    assert_eq!(w.contents.name, "Foo");
    assert!(w.contents.chapters.is_empty());
    assert!(w.contents.titles.is_empty());
}

#[test]
fn normalized_genre_names() {
    assert_eq!(mangaverse_sql::context::normalize_genre_name("  AcTion  "), "action");
    assert_eq!(mangaverse_sql::context::normalize_genre_name("Sci-Fi"), "sci-fi");
    assert_eq!(mangaverse_sql::context::normalize_genre_name(""), "");
}

#[test]
fn unwrap_rows_keeps_order() {
    let rows = vec![
        RowWrapper { data: "a".to_string() },
        RowWrapper { data: "b".to_string() },
    ];
    assert_eq!(unwrap_rows(rows), vec!["a".to_string(), "b".to_string()]);
}
