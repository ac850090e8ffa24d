//! The Nerd Font lens: searches glyph names; picking a glyph copies it.

use vstd::prelude::*;
use crate::{entry_model, Entry, EnterAction, EntryModel};
use vstd::utf8::is_ascii_chars;
use crate::text::{
    ascii_lowered, concatenated, contains, is_substring, lemma_ascii_lowered_idempotent,
    lemma_filter_map_empty, lemma_filter_map_keeps, lemma_filter_map_last, lowercase,
    owned, to_lowercase,
};

verus! {

/// The lens that searches Nerd Font glyphs by name.
pub struct NerdFont {}

/// A glyph as the glyph-name list describes it.
pub struct GlyphValue {
    /// The glyph's name (the key of the list).
    pub name: String,
    /// The glyph itself; may be empty.
    pub char: String,
    /// Its code point in hexadecimal.
    pub code: String,
}

/// A searchable glyph.
pub struct GlyphEntry {
    /// The glyph's lower-cased name.
    pub name: String,
    pub char: String,
    pub code: String,
}

/// The most entries a search returns.
pub const MAX_RESULTS: usize = 50;

/// The searchable glyphs of a glyph list: those with a glyph, named in lower case.
pub open spec fn glyphs_of(values: Seq<GlyphValue>) -> Seq<(Seq<char>, Seq<char>, Seq<char>)>
    decreases values.len(),
{
    if values.len() == 0 {
        seq![]
    } else {
        let rest = glyphs_of(values.drop_last());
        let v = values.last();
        if v.char@.len() > 0 {
            rest.push((lowercase(v.name@), v.char@, v.code@))
        } else {
            rest
        }
    }
}

/// A glyph's name, glyph and code.
pub open spec fn glyph_parts(g: GlyphEntry) -> (Seq<char>, Seq<char>, Seq<char>) {
    (g.name@, g.char@, g.code@)
}

/// The entry for a glyph: titled by its name, showing the glyph, copying it when picked.
pub open spec fn glyph_entry(g: GlyphEntry) -> EntryModel {
    entry_model(g.name@, g.name@, g.char@, g.code@, EnterAction::CopyIcon)
}

/// The entries for the glyphs whose name contains `query` (every glyph for an empty
/// query), in order.
pub open spec fn glyph_matches(glyphs: Seq<GlyphEntry>, query: Seq<char>) -> Seq<EntryModel>
    decreases glyphs.len(),
{
    if glyphs.len() == 0 {
        seq![]
    } else {
        let rest = glyph_matches(glyphs.drop_last(), query);
        if query.len() == 0 || is_substring(query, glyphs.last().name@) {
            rest.push(glyph_entry(glyphs.last()))
        } else {
            rest
        }
    }
}

/// The entries of the Nerd Font lens: the first fifty matches.
pub open spec fn glyph_entries(glyphs: Seq<GlyphEntry>, query: Seq<char>) -> Seq<EntryModel> {
    let m = glyph_matches(glyphs, query);
    if m.len() > MAX_RESULTS {
        m.take(MAX_RESULTS as int)
    } else {
        m
    }
}

/// The matches among the first glyphs start the matches among all of them.
proof fn lemma_matches_prefix(glyphs: Seq<GlyphEntry>, query: Seq<char>, i: int)
    requires
        0 <= i <= glyphs.len(),
    ensures
        glyph_matches(glyphs.take(i), query).len() <= glyph_matches(glyphs, query).len(),
        glyph_matches(glyphs, query).take(glyph_matches(glyphs.take(i), query).len() as int)
            == glyph_matches(glyphs.take(i), query),
    decreases glyphs.len(),
{
    let m = glyph_matches(glyphs, query);
    if i == glyphs.len() {
        assert(glyphs.take(i) == glyphs);
        assert(m.take(m.len() as int) == m);
    } else {
        lemma_matches_prefix(glyphs.drop_last(), query, i);
        assert(glyphs.drop_last().take(i) == glyphs.take(i));
        let rest = glyph_matches(glyphs.drop_last(), query);
        let k = glyph_matches(glyphs.take(i), query).len() as int;
        if m != rest {
            assert(m.take(k) =~= rest.take(k));
        }
    }
}

impl NerdFont {
    /// A new lens.
    pub fn new() -> (r: Self) {
        NerdFont {  }
    }

    /// The lens's name, shown in the tab bar and used as a query prefix.
    pub fn name(&self) -> (r: String)
        ensures
            r@ == "nerdfont"@,
    {
        owned("nerdfont")
    }

    /// The first fifty glyphs in `glyphs` whose name contains the lower-cased `query`.
    pub fn search(&self, glyphs: &Vec<GlyphEntry>, query: String) -> (r: Vec<Entry>)
        ensures
            r.deep_view() == glyph_entries(glyphs@, lowercase(query@)),
            query@.len() == 0 ==> r.deep_view() == glyph_entries(glyphs@, seq![]),
            is_ascii_chars(query@) ==> r.deep_view() == glyph_entries(
                glyphs@,
                ascii_lowered(query@),
            ),
    {
        let q = to_lowercase(query.as_str());
        proof {
            if query@.len() == 0 {
                assert(ascii_lowered(query@) =~= Seq::<char>::empty());
            }
        }
        let mut r: Vec<Entry> = Vec::new();
        let n = glyphs.len();
        let mut i: usize = 0;
        while i < n && r.len() < MAX_RESULTS
            invariant
                n == glyphs@.len(),
                i <= n,
                r.len() <= MAX_RESULTS,
                r.deep_view() == glyph_matches(glyphs@.take(i as int), q@),
            decreases n - i,
        {
            let g = &glyphs[i];
            assert(glyphs@.take(i + 1).drop_last() == glyphs@.take(i as int));
            assert(glyphs@.take(i + 1).last() == glyphs@[i as int]);
            if q.as_str().is_empty() || contains(g.name.as_str(), q.as_str()) {
                let ghost before = r.deep_view();
                r.push(
                    Entry {
                        id: g.name.clone(),
                        title: g.name.clone(),
                        icon: g.char.clone(),
                        meta: g.code.clone(),
                        enter: EnterAction::CopyIcon,
                    },
                );
                assert(r.deep_view() =~= before.push(glyph_entry(glyphs@[i as int])));
            }
            i = i + 1;
        }
        proof {
            lemma_matches_prefix(glyphs@, q@, i as int);
            if i == n {
                assert(glyphs@.take(n as int) == glyphs@);
            }
        }
        r
    }
}

/// The searchable glyphs of a glyph list, in its order.
pub fn build_glyphs(values: Vec<GlyphValue>) -> (r: Vec<GlyphEntry>)
    ensures
        r@.map_values(|g: GlyphEntry| glyph_parts(g)) == glyphs_of(values@),
{
    let mut r: Vec<GlyphEntry> = Vec::new();
    let n = values.len();
    for i in 0..n
        invariant
            n == values@.len(),
            r@.map_values(|g: GlyphEntry| glyph_parts(g)) == glyphs_of(values@.take(i as int)),
    {
        let v = &values[i];
        assert(values@.take(i + 1).drop_last() == values@.take(i as int));
        assert(values@.take(i + 1).last() == values@[i as int]);
        if !v.char.as_str().is_empty() {
            let ghost before = r@;
            r.push(
                GlyphEntry {
                    name: to_lowercase(v.name.as_str()),
                    char: v.char.clone(),
                    code: v.code.clone(),
                },
            );
            assert(r@.map_values(|g: GlyphEntry| glyph_parts(g)) =~= before.map_values(
                |g: GlyphEntry| glyph_parts(g),
            ).push(glyph_parts(r@.last())));
        }
    }
    assert(values@.take(n as int) == values@);
    r
}

/// The directory that caches the glyph list, under the user's cache directory.
pub fn glyphs_dir(cache_dir: &str) -> (r: String)
    ensures
        r@ == cache_dir@ + "/spyglass/nerdfont"@,
{
    concatenated(cache_dir, "/spyglass/nerdfont")
}

/// The cached glyph list, under the user's cache directory.
pub fn glyphs_path(cache_dir: &str) -> (r: String)
    ensures
        r@ == cache_dir@ + "/spyglass/nerdfont"@ + "/glyphnames.json"@,
{
    let dir = glyphs_dir(cache_dir);
    concatenated(dir.as_str(), "/glyphnames.json")
}

/// A search returns at most fifty entries, and every glyph for an empty query up to that.
pub proof fn law_results_are_capped(glyphs: Seq<GlyphEntry>, query: Seq<char>)
    ensures
        glyph_entries(glyphs, query).len() <= MAX_RESULTS,
        glyph_matches(glyphs, query).len() <= MAX_RESULTS ==> glyph_entries(glyphs, query)
            == glyph_matches(glyphs, query),
{
}

/// An empty query matches every glyph, in order (of which a search shows the first fifty).
pub proof fn law_empty_query_matches_all_glyphs(glyphs: Seq<GlyphEntry>)
    ensures
        glyph_matches(glyphs, seq![]) == glyphs.map_values(|g: GlyphEntry| glyph_entry(g)),
    decreases glyphs.len(),
{
    if glyphs.len() > 0 {
        law_empty_query_matches_all_glyphs(glyphs.drop_last());
        assert(glyphs.map_values(|g: GlyphEntry| glyph_entry(g)) =~= glyphs.drop_last().map_values(
            |g: GlyphEntry| glyph_entry(g),
        ).push(glyph_entry(glyphs.last())));
    } else {
        assert(glyphs.map_values(|g: GlyphEntry| glyph_entry(g)) =~= Seq::<EntryModel>::empty());
    }
}

/// For an ASCII query, searching the query and searching its lower-cased form give the
/// same entries: both search with the query's ASCII lowercase.
pub proof fn law_ascii_query_case_is_ignored(glyphs: Seq<GlyphEntry>, query: Seq<char>)
    requires
        is_ascii_chars(query),
    ensures
        is_ascii_chars(ascii_lowered(query)),
        glyph_entries(glyphs, ascii_lowered(ascii_lowered(query))) == glyph_entries(
            glyphs,
            ascii_lowered(query),
        ),
{
    lemma_ascii_lowered_idempotent(query);
}

/// The Nerd Font lens lists the first fifty of the glyphs whose name contains the query
/// (all glyphs for an empty query), in list order: filtering the glyphs by that test and
/// taking each one's entry gives the matches, and a search shows the first
/// `min(50, matches)` of them, so more than fifty matches give exactly fifty entries.
pub proof fn law_glyph_search_shows_first_fifty_matches(glyphs: Seq<GlyphEntry>, query: Seq<char>)
    ensures
        glyph_matches(glyphs, query) == glyphs.filter(
            |g: GlyphEntry| query.len() == 0 || is_substring(query, g.name@),
        ).map_values(|g: GlyphEntry| glyph_entry(g)),
        glyph_entries(glyphs, query) == glyph_matches(glyphs, query).take(
            if glyph_matches(glyphs, query).len() > MAX_RESULTS {
                MAX_RESULTS as int
            } else {
                glyph_matches(glyphs, query).len() as int
            },
        ),
        glyph_matches(glyphs, query).len() > MAX_RESULTS ==> glyph_entries(glyphs, query).len()
            == MAX_RESULTS,
        forall|i: int|
            0 <= i < glyphs.len() && is_substring(query, glyphs[i].name@) ==> glyph_matches(
                glyphs,
                query,
            ).contains(glyph_entry(#[trigger] glyphs[i])),
    decreases glyphs.len(),
{
    let keep = |g: GlyphEntry| query.len() == 0 || is_substring(query, g.name@);
    let f = |g: GlyphEntry| glyph_entry(g);
    if glyphs.len() == 0 {
        lemma_filter_map_empty(glyphs, keep, f);
    } else {
        law_glyph_search_shows_first_fifty_matches(glyphs.drop_last(), query);
        lemma_filter_map_last(glyphs, keep, f);
    }
    let m = glyph_matches(glyphs, query);
    assert(m.take(m.len() as int) == m);
    assert forall|i: int|
        0 <= i < glyphs.len() && is_substring(query, glyphs[i].name@) implies glyph_matches(
        glyphs,
        query,
    ).contains(glyph_entry(#[trigger] glyphs[i])) by {
        lemma_filter_map_keeps(glyphs, keep, f, i);
    }
}

/// The searchable glyphs are exactly the listed glyphs that have a glyph, in list order,
/// each named in lower case.
pub proof fn law_glyphs_are_the_drawable_ones(values: Seq<GlyphValue>)
    ensures
        glyphs_of(values) == values.filter(|v: GlyphValue| v.char@.len() > 0).map_values(
            |v: GlyphValue| (lowercase(v.name@), v.char@, v.code@),
        ),
    decreases values.len(),
{
    let keep = |v: GlyphValue| v.char@.len() > 0;
    let f = |v: GlyphValue| (lowercase(v.name@), v.char@, v.code@);
    if values.len() == 0 {
        lemma_filter_map_empty(values, keep, f);
    } else {
        law_glyphs_are_the_drawable_ones(values.drop_last());
        lemma_filter_map_last(values, keep, f);
    }
}

} // verus!
