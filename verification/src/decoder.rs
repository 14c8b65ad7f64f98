//! Decoder for the packed one-row-per-chapter page encoding.
//!
//! To avoid one query per chapter, the store hands back each chapter's pages
//! flattened into a single whitespace-delimited text column: four tokens per
//! page, `page_id url page_number chapter_id`, in page order.  The decoder
//! splits that column, groups tokens four at a time, and parses the numeric
//! fields.  A group whose id or page-number token is not numeric is dropped
//! silently (best effort for one malformed page); a chapter whose packed
//! column is absent, or decodes to no page at all, fails the whole fetch.
//! The encoder exists for building fixtures and round-trip checks.

use crate::entities::{ChapterTable, ChapterV, PageTable, PageV};
use crate::text::{
    dec_str, is_wspace, lemma_dec_str_val, lemma_token_len_exact, parse_u32, parses_to_u32,
    split_tokens, token_len, token_ok, tokens_of, u32_to_dec, views_of,
};
use crate::Error;
use vstd::prelude::*;

verus! {

/// What one 4-token group decodes to: a page when both numeric tokens parse,
/// nothing otherwise.
pub open spec fn page_of_group(
    id: Seq<char>,
    url: Seq<char>,
    pg: Seq<char>,
    ch: Seq<char>,
) -> Option<PageV> {
    match (parses_to_u32(id), parses_to_u32(pg)) {
        (Some(i), Some(n)) => Some(PageV { id: i, chapter_id: ch, url: url, page_number: n }),
        _ => None,
    }
}

/// The pages of a token stream: non-overlapping groups of four in order,
/// unparsable groups dropped, an incomplete trailing group ignored.
pub open spec fn decode_groups(toks: Seq<Seq<char>>) -> Seq<PageV>
    decreases toks.len(),
{
    if toks.len() < 4 {
        Seq::empty()
    } else {
        let rest = decode_groups(toks.skip(4));
        match page_of_group(toks[0], toks[1], toks[2], toks[3]) {
            Some(p) => seq![p] + rest,
            None => rest,
        }
    }
}

/// The pages encoded in one packed text column.
pub open spec fn decode_packed(s: Seq<char>) -> Seq<PageV> {
    decode_groups(tokens_of(s))
}

/// Decodes a packed pages column into its pages, in input order.
pub fn decode_pages(packed: &str) -> (r: Vec<PageTable>)
    ensures
        r@.map_values(|p: PageTable| p@) == decode_packed(packed@),
{
    let toks = split_tokens(packed);
    let ghost tv = views_of(toks@);
    let mut r: Vec<PageTable> = Vec::new();
    let mut i: usize = 0;
    proof {
        assert(tv.skip(0) =~= tv);
        assert(r@.map_values(|p: PageTable| p@) + decode_groups(tv) =~= decode_groups(tv));
    }
    while i < toks.len() && toks.len() - i >= 4
        invariant
            i <= toks.len(),
            tv == views_of(toks@),
            r@.map_values(|p: PageTable| p@) + decode_groups(tv.skip(i as int)) == decode_groups(
                tv,
            ),
        decreases toks.len() - i,
    {
        let id_n = parse_u32(toks[i].as_str());
        let pg_n = parse_u32(toks[i + 2].as_str());
        proof {
            assert(tv.skip(i as int).skip(4) =~= tv.skip(i as int + 4));
            assert(tv.skip(i as int)[0] == toks@[i as int]@);
            assert(tv.skip(i as int)[1] == toks@[i as int + 1]@);
            assert(tv.skip(i as int)[2] == toks@[i as int + 2]@);
            assert(tv.skip(i as int)[3] == toks@[i as int + 3]@);
        }
        match (id_n, pg_n) {
            (Some(idv), Some(pgv)) => {
                let p = PageTable {
                    id: idv,
                    chapter_id: toks[i + 3].clone(),
                    url: toks[i + 1].clone(),
                    page_number: pgv,
                };
                let ghost old_r = r@;
                r.push(p);
                proof {
                    assert(r@.map_values(|q: PageTable| q@) =~= old_r.map_values(
                        |q: PageTable| q@,
                    ).push(p@));
                    assert(old_r.map_values(|q: PageTable| q@).push(p@) + decode_groups(
                        tv.skip(i as int + 4),
                    ) =~= old_r.map_values(|q: PageTable| q@) + decode_groups(tv.skip(i as int)));
                }
            },
            _ => {},
        }
        i = i + 4;
    }
    proof {
        assert(tv.skip(i as int).len() < 4);
        assert(r@.map_values(|p: PageTable| p@) =~= decode_groups(tv));
    }
    r
}

/// A page that the packed format can carry: its url and chapter id are
/// nonempty and free of whitespace.
pub open spec fn page_wf(p: PageV) -> bool {
    token_ok(p.url) && token_ok(p.chapter_id)
}

/// The packed encoding of one page: its four tokens, space-separated.
pub open spec fn encode_page(p: PageV) -> Seq<char> {
    dec_str(p.id as nat) + seq![' '] + p.url + seq![' '] + dec_str(p.page_number as nat) + seq![' ']
        + p.chapter_id
}

/// The packed encoding of a page list, page groups space-separated.
pub open spec fn encode_pages_seq(ps: Seq<PageV>) -> Seq<char>
    decreases ps.len(),
{
    if ps.len() == 0 {
        Seq::empty()
    } else if ps.len() == 1 {
        encode_page(ps[0])
    } else {
        encode_page(ps[0]) + seq![' '] + encode_pages_seq(ps.skip(1))
    }
}

proof fn lemma_encode_push(ps: Seq<PageV>, p: PageV)
    ensures
        ps.len() == 0 ==> encode_pages_seq(ps.push(p)) == encode_page(p),
        ps.len() > 0 ==> encode_pages_seq(ps.push(p)) == encode_pages_seq(ps) + seq![' ']
            + encode_page(p),
    decreases ps.len(),
{
    let e = ps.push(p);
    if ps.len() == 0 {
        assert(e.len() == 1);
        assert(e[0] == p);
    } else {
        lemma_encode_push(ps.skip(1), p);
        assert(e.skip(1) =~= ps.skip(1).push(p));
        assert(e.len() >= 2);
        assert(e[0] == ps[0]);
        if ps.len() == 1 {
            assert(encode_pages_seq(e) == encode_page(ps[0]) + seq![' '] + encode_page(p));
            assert(encode_pages_seq(ps) == encode_page(ps[0]));
        } else {
            assert(encode_pages_seq(e) == encode_page(ps[0]) + seq![' '] + encode_pages_seq(
                ps.skip(1).push(p),
            ));
            assert(encode_pages_seq(ps.skip(1).push(p)) == encode_pages_seq(ps.skip(1))
                + seq![' '] + encode_page(p));
            assert(encode_page(ps[0]) + seq![' '] + (encode_pages_seq(ps.skip(1)) + seq![' ']
                + encode_page(p)) =~= (encode_page(ps[0]) + seq![' '] + encode_pages_seq(
                ps.skip(1),
            )) + seq![' '] + encode_page(p));
        }
    }
}

/// Encodes pages into the packed format, for fixtures and round trips.
pub fn encode_pages(pages: &Vec<PageTable>) -> (r: String)
    ensures
        r@ == encode_pages_seq(pages@.map_values(|p: PageTable| p@)),
{
    let ghost pv = pages@.map_values(|p: PageTable| p@);
    let mut r = String::new();
    let mut i: usize = 0;
    proof {
        assert(pv.take(0) =~= Seq::<PageV>::empty());
    }
    while i < pages.len()
        invariant
            i <= pages.len(),
            pv == pages@.map_values(|p: PageTable| p@),
            r@ == encode_pages_seq(pv.take(i as int)),
        decreases pages.len() - i,
    {
        proof {
            reveal_strlit(" ");
        }
        if i > 0 {
            r.append(" ");
        }
        let id_s = u32_to_dec(pages[i].id);
        let pg_s = u32_to_dec(pages[i].page_number);
        r.append(id_s.as_str());
        r.append(" ");
        r.append(pages[i].url.as_str());
        r.append(" ");
        r.append(pg_s.as_str());
        r.append(" ");
        r.append(pages[i].chapter_id.as_str());
        proof {
            lemma_encode_push(pv.take(i as int), pv[i as int]);
            assert(pv.take(i as int).push(pv[i as int]) =~= pv.take(i as int + 1));
            assert(" "@ =~= seq![' ']);
            if i == 0 {
                assert(r@ =~= encode_page(pv[0]));
            } else {
                assert(r@ =~= encode_pages_seq(pv.take(i as int)) + seq![' '] + encode_page(
                    pv[i as int],
                ));
            }
        }
        i = i + 1;
    }
    proof {
        assert(pv.take(pages@.len() as int) =~= pv);
    }
    r
}

/// One token followed by a whitespace-or-empty remainder splits off whole.
proof fn lemma_tokens_of_token_prefix(t: Seq<char>, rest: Seq<char>)
    requires
        token_ok(t),
        rest.len() == 0 || is_wspace(rest[0]),
    ensures
        tokens_of(t + rest) == seq![t] + tokens_of(rest),
{
    let s = t + rest;
    assert forall|k: int| 0 <= k < t.len() implies !is_wspace(s[k]) by {
        assert(s[k] == t[k]);
    }
    if (t.len() as int) < s.len() {
        assert(s[t.len() as int] == rest[0]);
    }
    lemma_token_len_exact(s, t.len() as int);
    assert(s.take(token_len(s) as int) =~= t);
    assert(s.skip(token_len(s) as int) =~= rest);
}

/// A leading space never changes the token stream.
proof fn lemma_tokens_of_space(rest: Seq<char>)
    ensures
        tokens_of(seq![' '] + rest) == tokens_of(rest),
{
    let s = seq![' '] + rest;
    assert(is_wspace(s[0]));
    assert(s.skip(1) =~= rest);
}

/// The four tokens of one well-formed encoded page.
pub open spec fn page_tokens(p: PageV) -> Seq<Seq<char>> {
    seq![dec_str(p.id as nat), p.url, dec_str(p.page_number as nat), p.chapter_id]
}

proof fn lemma_tokens_of_encode_page(p: PageV, rest: Seq<char>)
    requires
        page_wf(p),
        rest.len() == 0 || is_wspace(rest[0]),
    ensures
        tokens_of(encode_page(p) + rest) == page_tokens(p) + tokens_of(rest),
{
    lemma_dec_str_val(p.id as nat);
    lemma_dec_str_val(p.page_number as nat);
    let s4 = p.chapter_id + rest;
    let s3 = dec_str(p.page_number as nat) + (seq![' '] + s4);
    let s2 = p.url + (seq![' '] + s3);
    let s1 = dec_str(p.id as nat) + (seq![' '] + s2);
    assert(encode_page(p) + rest =~= s1);
    lemma_tokens_of_token_prefix(p.chapter_id, rest);
    lemma_tokens_of_space(s4);
    lemma_tokens_of_token_prefix(dec_str(p.page_number as nat), seq![' '] + s4);
    lemma_tokens_of_space(s3);
    lemma_tokens_of_token_prefix(p.url, seq![' '] + s3);
    lemma_tokens_of_space(s2);
    lemma_tokens_of_token_prefix(dec_str(p.id as nat), seq![' '] + s2);
    assert(tokens_of(s1) =~= page_tokens(p) + tokens_of(rest));
}

/// Every page of the list is well formed.
pub open spec fn pages_wf(ps: Seq<PageV>) -> bool {
    forall|i: int| 0 <= i < ps.len() ==> page_wf(#[trigger] ps[i])
}

/// The token stream of an encoded page list: four tokens per page, in order.
pub open spec fn flat_tokens(ps: Seq<PageV>) -> Seq<Seq<char>>
    decreases ps.len(),
{
    if ps.len() == 0 {
        Seq::empty()
    } else {
        page_tokens(ps[0]) + flat_tokens(ps.skip(1))
    }
}

proof fn lemma_tokens_of_encode(ps: Seq<PageV>)
    requires
        pages_wf(ps),
    ensures
        tokens_of(encode_pages_seq(ps)) == flat_tokens(ps),
    decreases ps.len(),
{
    if ps.len() == 0 {
        assert(tokens_of(Seq::<char>::empty()) =~= Seq::<Seq<char>>::empty());
        assert(flat_tokens(ps) =~= Seq::<Seq<char>>::empty());
    } else if ps.len() == 1 {
        assert(encode_pages_seq(ps) == encode_page(ps[0]));
        assert(encode_page(ps[0]) + Seq::<char>::empty() =~= encode_page(ps[0]));
        lemma_tokens_of_encode_page(ps[0], Seq::<char>::empty());
        assert(tokens_of(Seq::<char>::empty()) =~= Seq::<Seq<char>>::empty());
        assert(flat_tokens(ps.skip(1)) =~= Seq::<Seq<char>>::empty());
        assert(page_tokens(ps[0]) + Seq::<Seq<char>>::empty() =~= page_tokens(ps[0]));
        assert(flat_tokens(ps) =~= page_tokens(ps[0]));
    } else {
        assert(pages_wf(ps.skip(1))) by {
            assert forall|i: int| 0 <= i < ps.skip(1).len() implies page_wf(
                #[trigger] ps.skip(1)[i],
            ) by {
                assert(ps.skip(1)[i] == ps[i + 1]);
            }
        }
        lemma_tokens_of_encode(ps.skip(1));
        let rest = seq![' '] + encode_pages_seq(ps.skip(1));
        assert(encode_pages_seq(ps) =~= encode_page(ps[0]) + rest);
        lemma_tokens_of_encode_page(ps[0], rest);
        lemma_tokens_of_space(encode_pages_seq(ps.skip(1)));
    }
}

proof fn lemma_decode_flat(ps: Seq<PageV>)
    requires
        pages_wf(ps),
    ensures
        decode_groups(flat_tokens(ps)) == ps,
    decreases ps.len(),
{
    if ps.len() == 0 {
        assert(decode_groups(flat_tokens(ps)) =~= ps);
    } else {
        let toks = flat_tokens(ps);
        assert(toks.len() >= 4);
        assert(toks[0] == dec_str(ps[0].id as nat));
        assert(toks[1] == ps[0].url);
        assert(toks[2] == dec_str(ps[0].page_number as nat));
        assert(toks[3] == ps[0].chapter_id);
        lemma_dec_str_val(ps[0].id as nat);
        lemma_dec_str_val(ps[0].page_number as nat);
        assert(parses_to_u32(toks[0]) == Some(ps[0].id));
        assert(parses_to_u32(toks[2]) == Some(ps[0].page_number));
        assert(page_of_group(toks[0], toks[1], toks[2], toks[3]) == Some(ps[0]));
        assert(pages_wf(ps.skip(1))) by {
            assert forall|i: int| 0 <= i < ps.skip(1).len() implies page_wf(
                #[trigger] ps.skip(1)[i],
            ) by {
                assert(ps.skip(1)[i] == ps[i + 1]);
            }
        }
        lemma_decode_flat(ps.skip(1));
        assert(toks.skip(4) =~= flat_tokens(ps.skip(1)));
        assert(seq![ps[0]] + ps.skip(1) =~= ps);
    }
}

/// Round trip: a well-formed page list encoded into the packed format and
/// decoded again comes back exactly, order included.
pub proof fn lemma_encode_decode_round_trip(ps: Seq<PageV>)
    requires
        pages_wf(ps),
    ensures
        decode_packed(encode_pages_seq(ps)) == ps,
{
    lemma_tokens_of_encode(ps);
    lemma_decode_flat(ps);
}

/// A token stream of complete groups that all parse decodes to exactly one
/// page per group, correctly fielded, in input order.
pub proof fn lemma_decode_complete_groups(toks: Seq<Seq<char>>)
    requires
        toks.len() % 4 == 0,
        forall|k: int|
            0 <= k < toks.len() / 4 ==> #[trigger] page_of_group(
                toks[4 * k],
                toks[4 * k + 1],
                toks[4 * k + 2],
                toks[4 * k + 3],
            ) is Some,
    ensures
        decode_groups(toks).len() == toks.len() / 4,
        forall|k: int|
            0 <= k < toks.len() / 4 ==> decode_groups(toks)[k] == #[trigger] page_of_group(
                toks[4 * k],
                toks[4 * k + 1],
                toks[4 * k + 2],
                toks[4 * k + 3],
            ).unwrap(),
    decreases toks.len(),
{
    if toks.len() == 0 {
    } else {
        assert(toks.len() >= 4);
        let rest = toks.skip(4);
        let k0: int = 0;
        assert(page_of_group(toks[4 * k0], toks[4 * k0 + 1], toks[4 * k0 + 2], toks[4 * k0 + 3])
            is Some);
        assert(page_of_group(toks[0], toks[1], toks[2], toks[3]) is Some);
        assert forall|k: int|
            0 <= k < rest.len() / 4 implies #[trigger] page_of_group(
            rest[4 * k],
            rest[4 * k + 1],
            rest[4 * k + 2],
            rest[4 * k + 3],
        ) is Some by {
            assert(rest[4 * k] == toks[4 * (k + 1)]);
            assert(rest[4 * k + 1] == toks[4 * (k + 1) + 1]);
            assert(rest[4 * k + 2] == toks[4 * (k + 1) + 2]);
            assert(rest[4 * k + 3] == toks[4 * (k + 1) + 3]);
            assert(page_of_group(
                toks[4 * (k + 1)],
                toks[4 * (k + 1) + 1],
                toks[4 * (k + 1) + 2],
                toks[4 * (k + 1) + 3],
            ) is Some);
        }
        lemma_decode_complete_groups(rest);
        assert forall|k: int|
            0 <= k < toks.len() / 4 implies decode_groups(toks)[k] == #[trigger] page_of_group(
            toks[4 * k],
            toks[4 * k + 1],
            toks[4 * k + 2],
            toks[4 * k + 3],
        ).unwrap() by {
            if k > 0 {
                assert(decode_groups(toks)[k] == decode_groups(rest)[k - 1]);
                assert(rest[4 * (k - 1)] == toks[4 * k]);
                assert(rest[4 * (k - 1) + 1] == toks[4 * k + 1]);
                assert(rest[4 * (k - 1) + 2] == toks[4 * k + 2]);
                assert(rest[4 * (k - 1) + 3] == toks[4 * k + 3]);
            }
        }
    }
}

/// An incomplete trailing group never contributes pages.
pub proof fn lemma_decode_ignores_incomplete_tail(toks: Seq<Seq<char>>, tail: Seq<Seq<char>>)
    requires
        toks.len() % 4 == 0,
        tail.len() < 4,
    ensures
        decode_groups(toks + tail) == decode_groups(toks),
    decreases toks.len(),
{
    if toks.len() == 0 {
        assert(toks + tail =~= tail);
    } else {
        assert(toks.len() >= 4);
        let s = toks + tail;
        assert(s[0] == toks[0]);
        assert(s[1] == toks[1]);
        assert(s[2] == toks[2]);
        assert(s[3] == toks[3]);
        assert(s.skip(4) =~= toks.skip(4) + tail);
        lemma_decode_ignores_incomplete_tail(toks.skip(4), tail);
    }
}

/// A group whose numeric tokens do not parse is excluded and leaves every
/// other group's decoding untouched.
pub proof fn lemma_decode_skips_bad_group(
    pre: Seq<Seq<char>>,
    bad: Seq<Seq<char>>,
    post: Seq<Seq<char>>,
)
    requires
        pre.len() % 4 == 0,
        bad.len() == 4,
        page_of_group(bad[0], bad[1], bad[2], bad[3]) is None,
    ensures
        decode_groups(pre + bad + post) == decode_groups(pre + post),
    decreases pre.len(),
{
    if pre.len() == 0 {
        let s = pre + bad + post;
        assert(s =~= bad + post);
        assert(s[0] == bad[0]);
        assert(s[1] == bad[1]);
        assert(s[2] == bad[2]);
        assert(s[3] == bad[3]);
        assert(s.skip(4) =~= post);
        assert(pre + post =~= post);
    } else {
        assert(pre.len() >= 4);
        let s = pre + bad + post;
        let t = pre + post;
        assert(s.len() >= 4 && t.len() >= 4);
        assert(s[0] == pre[0] && t[0] == pre[0]);
        assert(s[1] == pre[1] && t[1] == pre[1]);
        assert(s[2] == pre[2] && t[2] == pre[2]);
        assert(s[3] == pre[3] && t[3] == pre[3]);
        assert(s.skip(4) =~= pre.skip(4) + bad + post);
        assert(t.skip(4) =~= pre.skip(4) + post);
        lemma_decode_skips_bad_group(pre.skip(4), bad, post);
    }
}

/// One fetched chapter row: the chapter's scalar columns plus the packed
/// pages column, which the aggregating query leaves absent when no page row
/// matched (a fetch bug, never a legitimate empty chapter).
pub struct ChapterRow {
    pub chapter_id: String,
    pub chapter_name: String,
    pub chapter_number: String,
    pub updated_at: Option<i64>,
    pub manga_id: String,
    pub last_watch_time: i64,
    pub sequence_number: i32,
    pub all_pages: Option<String>,
}

pub ghost struct ChapterRowV {
    pub chapter_id: Seq<char>,
    pub chapter_name: Seq<char>,
    pub chapter_number: Seq<char>,
    pub updated_at: Option<i64>,
    pub manga_id: Seq<char>,
    pub last_watch_time: i64,
    pub sequence_number: i32,
    pub all_pages: Option<Seq<char>>,
}

impl View for ChapterRow {
    type V = ChapterRowV;

    open spec fn view(&self) -> ChapterRowV {
        ChapterRowV {
            chapter_id: self.chapter_id@,
            chapter_name: self.chapter_name@,
            chapter_number: self.chapter_number@,
            updated_at: self.updated_at,
            manga_id: self.manga_id@,
            last_watch_time: self.last_watch_time,
            sequence_number: self.sequence_number,
            all_pages: match self.all_pages {
                Some(s) => Some(s@),
                None => None,
            },
        }
    }
}

/// A row decodes when its packed column is present and yields at least one
/// page.
pub open spec fn row_decodes(r: ChapterRowV) -> bool {
    &&& r.all_pages is Some
    &&& decode_packed(r.all_pages.unwrap()).len() > 0
}

/// The chapter a decodable row stands for.
pub open spec fn chapter_of_row(r: ChapterRowV) -> ChapterV {
    ChapterV {
        chapter_id: r.chapter_id,
        chapter_name: r.chapter_name,
        chapter_number: r.chapter_number,
        updated_at: r.updated_at,
        manga_id: r.manga_id,
        last_watch_time: r.last_watch_time,
        sequence_number: r.sequence_number,
        pages: decode_packed(r.all_pages.unwrap()),
    }
}

/// Reconstructs one chapter from its fetched row; a missing packed column,
/// or one with no decodable page, fails the fetch.
pub fn chapter_from_row(row: &ChapterRow) -> (r: Result<ChapterTable, Error>)
    ensures
        match r {
            Ok(c) => row_decodes(row@) && c@ == chapter_of_row(row@),
            Err(e) => !row_decodes(row@) && e == Error::TextParseError,
        },
{
    match &row.all_pages {
        None => Err(Error::TextParseError),
        Some(packed) => {
            let pages = decode_pages(packed.as_str());
            if pages.len() == 0 {
                proof {
                    assert(decode_packed(packed@).len() == 0);
                }
                Err(Error::TextParseError)
            } else {
                Ok(
                    ChapterTable {
                        chapter_id: row.chapter_id.clone(),
                        chapter_name: row.chapter_name.clone(),
                        chapter_number: row.chapter_number.clone(),
                        updated_at: row.updated_at,
                        manga_id: row.manga_id.clone(),
                        last_watch_time: row.last_watch_time,
                        sequence_number: row.sequence_number,
                        pages,
                    },
                )
            }
        },
    }
}

/// Reconstructs a manga's chapter list from the aggregated fetch; any row
/// that does not decode fails the whole fetch.
pub fn chapters_from_rows(rows: &Vec<ChapterRow>) -> (r: Result<Vec<ChapterTable>, Error>)
    ensures
        match r {
            Ok(cs) => {
                &&& forall|k: int| 0 <= k < rows@.len() ==> row_decodes(#[trigger] rows@[k]@)
                &&& cs@.len() == rows@.len()
                &&& forall|k: int|
                    0 <= k < rows@.len() ==> #[trigger] cs@[k]@ == chapter_of_row(rows@[k]@)
            },
            Err(e) => {
                &&& exists|k: int| 0 <= k < rows@.len() && !row_decodes(#[trigger] rows@[k]@)
                &&& e == Error::TextParseError
            },
        },
{
    let mut out: Vec<ChapterTable> = Vec::new();
    let mut i: usize = 0;
    while i < rows.len()
        invariant
            i <= rows@.len(),
            out@.len() == i,
            forall|k: int|
                0 <= k < i ==> row_decodes(#[trigger] rows@[k]@) && out@[k]@ == chapter_of_row(
                    rows@[k]@,
                ),
        decreases rows@.len() - i,
    {
        match chapter_from_row(&rows[i]) {
            Ok(c) => {
                out.push(c);
            },
            Err(e) => {
                return Err(e);
            },
        }
        i = i + 1;
    }
    Ok(out)
}

} // verus!
