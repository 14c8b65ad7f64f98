//! The lookup context: process-scoped registries mapping normalized genre
//! names and source names to their canonical entities.
//!
//! Built once at startup from the scrapers' output and read-only afterwards.
//! Genre resolution is a pure lookup whose misses are silently dropped (the
//! sources share no genre taxonomy, so an unknown name is expected, never an
//! error); source resolution is expected to hit, since fetched sources form a
//! closed, pre-registered set, and a miss is the caller's configuration bug.

use crate::entities::{Genre, GenreV, SourceTable};
use crate::text::views_of;
use vstd::hash_map::StringHashMap;
use vstd::prelude::*;

verus! {

/// Name for the Unicode-lowercased form of a string, as the standard library
/// computes it; the result depends on the characters alone.
pub uninterp spec fn lower_of(s: Seq<char>) -> Seq<char>;

/// Name for the whitespace-trimmed form of a string, as the standard library
/// computes it; the result depends on the characters alone.
pub uninterp spec fn trimmed_of(s: Seq<char>) -> Seq<char>;

/// Relies on str::to_lowercase: Unicode lowercasing, a function of the
/// characters alone; an empty string stays empty.
#[verifier::external_body]
fn lowercase_str(s: &str) -> (r: String)
    ensures
        r@ == lower_of(s@),
        s@.len() == 0 ==> r@.len() == 0,
{
    s.to_lowercase()
}

/// Relies on str::trim: removes leading and trailing whitespace, a function
/// of the characters alone, never longer than its input.
#[verifier::external_body]
fn trim_str(s: &str) -> (r: &str)
    ensures
        r@ == trimmed_of(s@),
        r@.len() <= s@.len(),
{
    s.trim()
}

/// The normalized form of a scraped genre name: trimmed, then lower-cased.
/// Canonical genre names are registered in this form.
pub fn normalize_genre_name(s: &str) -> (r: String)
    ensures
        r@ == lower_of(trimmed_of(s@)),
{
    lowercase_str(trim_str(s))
}

/// The shared lookup context.  Well-formed when every entry is keyed by its
/// own name, which is how the registries are built.
pub struct Context {
    pub sources: StringHashMap<SourceTable>,
    pub genres: StringHashMap<Genre>,
}

impl Context {
    /// Every registry entry is keyed by its entity's name.
    pub open spec fn wf(&self) -> bool {
        &&& forall|k: Seq<char>|
            self.genres@.contains_key(k) ==> (#[trigger] self.genres@[k]).name@ == k
        &&& forall|k: Seq<char>|
            self.sources@.contains_key(k) ==> (#[trigger] self.sources@[k]).name@ == k
    }

    /// An empty context, for startup and for synthetic test contexts.
    pub fn new() -> (r: Context)
        ensures
            r.genres@ == Map::<Seq<char>, Genre>::empty(),
            r.sources@ == Map::<Seq<char>, SourceTable>::empty(),
            r.wf(),
    {
        Context { sources: StringHashMap::new(), genres: StringHashMap::new() }
    }

    /// Registers a genre under its own name.
    pub fn add_genre(&mut self, g: Genre)
        requires
            old(self).wf(),
        ensures
            final(self).genres@ == old(self).genres@.insert(g.name@, g),
            final(self).sources@ == old(self).sources@,
            final(self).wf(),
    {
        let key = g.name.clone();
        self.genres.insert(key, g);
    }

    /// Registers a source under its own name.
    pub fn add_source(&mut self, s: SourceTable)
        requires
            old(self).wf(),
        ensures
            final(self).sources@ == old(self).sources@.insert(s.name@, s),
            final(self).genres@ == old(self).genres@,
            final(self).wf(),
    {
        let key = s.name.clone();
        self.sources.insert(key, s);
    }

    /// Pure lookup of one normalized genre name; `None` is an expected miss.
    pub fn resolve_genre(&self, name: &str) -> (r: Option<&Genre>)
        ensures
            match r {
                Some(g) => self.genres@.contains_key(name@) && *g == self.genres@[name@],
                None => !self.genres@.contains_key(name@),
            },
    {
        self.genres.get(name)
    }

    /// Lookup of a source by name.  Fetched sources are a closed set, so the
    /// caller treats `None` as a configuration bug and fails loudly.
    pub fn resolve_source(&self, name: &str) -> (r: Option<&SourceTable>)
        ensures
            match r {
                Some(s) => self.sources@.contains_key(name@) && *s == self.sources@[name@],
                None => !self.sources@.contains_key(name@),
            },
    {
        self.sources.get(name)
    }

    /// Maps fetched genre names through the registry, silently dropping
    /// every unresolved name and keeping fetch order.
    pub fn resolve_genres(&self, names: &Vec<String>) -> (r: Vec<Genre>)
        ensures
            r@.map_values(|g: Genre| g@) == resolved_genres(self.genres@, views_of(names@)),
    {
        let ghost nv = views_of(names@);
        let mut r: Vec<Genre> = Vec::new();
        let mut i: usize = 0;
        proof {
            assert(nv.skip(0) =~= nv);
            assert(r@.map_values(|g: Genre| g@) + resolved_genres(self.genres@, nv)
                =~= resolved_genres(self.genres@, nv));
        }
        while i < names.len()
            invariant
                i <= names@.len(),
                nv == views_of(names@),
                r@.map_values(|g: Genre| g@) + resolved_genres(self.genres@, nv.skip(i as int))
                    == resolved_genres(self.genres@, nv),
            decreases names@.len() - i,
        {
            proof {
                assert(nv.skip(i as int)[0] == names@[i as int]@);
                assert(nv.skip(i as int).skip(1) =~= nv.skip(i as int + 1));
            }
            match self.genres.get(names[i].as_str()) {
                Some(g) => {
                    let g2 = g.duplicate();
                    let ghost old_r = r@;
                    r.push(g2);
                    proof {
                        assert(r@.map_values(|q: Genre| q@) =~= old_r.map_values(
                            |q: Genre| q@,
                        ).push(g2@));
                        assert(old_r.map_values(|q: Genre| q@).push(g2@) + resolved_genres(
                            self.genres@,
                            nv.skip(i as int + 1),
                        ) =~= old_r.map_values(|q: Genre| q@) + resolved_genres(
                            self.genres@,
                            nv.skip(i as int),
                        ));
                    }
                },
                None => {},
            }
            i = i + 1;
        }
        proof {
            assert(nv.skip(nv.len() as int) =~= Seq::<Seq<char>>::empty());
            assert(r@.map_values(|g: Genre| g@) =~= resolved_genres(self.genres@, nv));
        }
        r
    }
}

/// What genre resolution yields: the registered genre of each known name, in
/// input order, unknown names dropped.
pub open spec fn resolved_genres(m: Map<Seq<char>, Genre>, names: Seq<Seq<char>>) -> Seq<GenreV>
    decreases names.len(),
{
    if names.len() == 0 {
        Seq::empty()
    } else {
        let rest = resolved_genres(m, names.skip(1));
        if m.contains_key(names[0]) {
            seq![m[names[0]]@] + rest
        } else {
            rest
        }
    }
}

/// The names of a resolved genre list.
pub open spec fn genre_names(gs: Seq<GenreV>) -> Seq<Seq<char>> {
    gs.map_values(|g: GenreV| g.name)
}

/// The registry is keyed by each entry's name.
pub open spec fn registry_wf(m: Map<Seq<char>, Genre>) -> bool {
    forall|k: Seq<char>| m.contains_key(k) ==> (#[trigger] m[k]).name@ == k
}

/// Only known names appear in a resolution's output, and each resolved genre
/// is exactly the registered one.
pub proof fn lemma_resolved_genres_known(m: Map<Seq<char>, Genre>, names: Seq<Seq<char>>)
    requires
        registry_wf(m),
    ensures
        forall|j: int|
            0 <= j < resolved_genres(m, names).len() ==> m.contains_key(
                (#[trigger] resolved_genres(m, names)[j]).name,
            ) && resolved_genres(m, names)[j] == m[resolved_genres(m, names)[j].name]@,
    decreases names.len(),
{
    if names.len() > 0 {
        lemma_resolved_genres_known(m, names.skip(1));
        let res = resolved_genres(m, names);
        let rest = resolved_genres(m, names.skip(1));
        assert forall|j: int| 0 <= j < res.len() implies m.contains_key(
            (#[trigger] res[j]).name,
        ) && res[j] == m[res[j].name]@ by {
            if m.contains_key(names[0]) {
                if j == 0 {
                    assert(res[j] == m[names[0]]@);
                } else {
                    assert(res[j] == rest[j - 1]);
                }
            } else {
                assert(res[j] == rest[j]);
            }
        }
    }
}

/// A known name in the input always appears in the output.
pub proof fn lemma_resolved_genres_total(m: Map<Seq<char>, Genre>, names: Seq<Seq<char>>, i: int)
    requires
        registry_wf(m),
        0 <= i < names.len(),
        m.contains_key(names[i]),
    ensures
        genre_names(resolved_genres(m, names)).contains(names[i]),
    decreases names.len(),
{
    let res = resolved_genres(m, names);
    let rest = resolved_genres(m, names.skip(1));
    if i == 0 {
        assert(res[0] == m[names[0]]@);
        assert(genre_names(res)[0] == names[0]);
    } else {
        assert(names.skip(1)[i - 1] == names[i]);
        lemma_resolved_genres_total(m, names.skip(1), i - 1);
        let j = choose|j: int|
            0 <= j < genre_names(rest).len() && genre_names(rest)[j] == names[i];
        if m.contains_key(names[0]) {
            assert(res[j + 1] == rest[j]);
            assert(genre_names(res)[j + 1] == names[i]);
        } else {
            assert(res[j] == rest[j]);
            assert(genre_names(res)[j] == names[i]);
        }
    }
}

/// Genre resolution is idempotent: resolving the names of an already
/// resolved list reproduces that list exactly.
pub proof fn lemma_resolved_genres_idempotent(m: Map<Seq<char>, Genre>, names: Seq<Seq<char>>)
    requires
        registry_wf(m),
    ensures
        resolved_genres(m, genre_names(resolved_genres(m, names))) == resolved_genres(m, names),
    decreases names.len(),
{
    if names.len() == 0 {
        assert(genre_names(resolved_genres(m, names)) =~= Seq::<Seq<char>>::empty());
    } else {
        lemma_resolved_genres_idempotent(m, names.skip(1));
        let rest = resolved_genres(m, names.skip(1));
        let res = resolved_genres(m, names);
        if m.contains_key(names[0]) {
            let g0 = m[names[0]]@;
            assert(res == seq![g0] + rest);
            assert(genre_names(res) =~= seq![g0.name] + genre_names(rest));
            assert(g0.name == names[0]);
            let ns = genre_names(res);
            assert(ns[0] == names[0]);
            assert(ns.skip(1) =~= genre_names(rest));
            assert(resolved_genres(m, ns) == seq![m[names[0]]@] + resolved_genres(
                m,
                genre_names(rest),
            ));
        } else {
            assert(res == rest);
        }
    }
}

} // verus!
