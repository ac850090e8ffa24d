//! The clipboard lens: searches the clipboard history that `cliphist list` prints;
//! picking an item copies it again.

use vstd::prelude::*;
use vstd::utf8::{decode_utf8, is_ascii_chars, valid_utf8};
use crate::{entry_model, Entry, EnterAction, EntryModel};
use crate::text::{
    after_sep, ascii_lowered, lemma_filter_map_empty, lemma_filter_map_keeps, lemma_filter_map_last, before_sep, chars_of, lowers_as_ascii, contains, is_substring, lemma_empty_is_substring, lines, lines_of, lowercase, owned,
    push_chars, split_first, string_of_range, to_lowercase,
};

verus! {

/// The lens that searches the clipboard history.
pub struct Clipboard;

/// The most characters of an item that a title shows.
pub const TITLE_CHARS: usize = 20;

/// A title for `s`: `s` itself when it has at most twenty characters, else its first
/// twenty followed by `...`.
pub open spec fn truncated(s: Seq<char>) -> Seq<char> {
    if s.len() <= TITLE_CHARS {
        s
    } else {
        s.take(TITLE_CHARS as int) + "..."@
    }
}

/// Shortens `s` for display as a title.
pub fn truncate(s: &String) -> (r: String)
    ensures
        r@ == truncated(s@),
{
    let cs = chars_of(s.as_str());
    if cs.len() <= TITLE_CHARS {
        s.clone()
    } else {
        let mut r = string_of_range(&cs, 0, TITLE_CHARS);
        push_chars(&mut r, "...");
        r
    }
}

/// What `String::from_utf8_lossy` makes of the given bytes.
pub uninterp spec fn utf8_lossy(bytes: Seq<u8>) -> Seq<char>;

/// Calls `String::from_utf8_lossy`. Valid UTF-8 is decoded as it is, as its documentation
/// says; what replaces invalid sequences is named by `utf8_lossy` and left unsaid here.
#[verifier::external_body]
fn decode_lossy(bytes: &[u8]) -> (r: String)
    ensures
        r@ == utf8_lossy(bytes@),
        valid_utf8(bytes@) ==> r@ == decode_utf8(bytes@),
{
    String::from_utf8_lossy(bytes).into_owned()
}

/// The second tab-separated field of a line (`split('\t').nth(1)`), if it has a tab.
pub open spec fn second_field(line: Seq<char>) -> Option<Seq<char>> {
    match after_sep(line, '\t') {
        Some(rest) => Some(before_sep(rest, '\t')),
        None => None,
    }
}

/// The second field of every line, or nothing if some line has no tab.
pub open spec fn second_fields(lines: Seq<Seq<char>>) -> Option<Seq<Seq<char>>>
    decreases lines.len(),
{
    if lines.len() == 0 {
        Some(seq![])
    } else {
        match (second_fields(lines.drop_last()), second_field(lines.last())) {
            (Some(rest), Some(f)) => Some(rest.push(f)),
            _ => None,
        }
    }
}

/// The entry for a clipboard item.
pub open spec fn item_entry(item: Seq<char>) -> EntryModel {
    entry_model(item, truncated(item), "\u{ed7b}"@, item, EnterAction::CopyMeta)
}

/// The entries for the items whose lower-cased text contains `query`, in order.
pub open spec fn item_matches(items: Seq<Seq<char>>, query: Seq<char>) -> Seq<EntryModel>
    decreases items.len(),
{
    if items.len() == 0 {
        seq![]
    } else {
        let rest = item_matches(items.drop_last(), query);
        if is_substring(query, lowercase(items.last())) {
            rest.push(item_entry(items.last()))
        } else {
            rest
        }
    }
}

/// The entries for the items whose ASCII-lower-cased text contains `query`, in order:
/// what `item_matches` is for ASCII items.
pub open spec fn item_matches_ascii(items: Seq<Seq<char>>, query: Seq<char>) -> Seq<EntryModel>
    decreases items.len(),
{
    if items.len() == 0 {
        seq![]
    } else {
        let rest = item_matches_ascii(items.drop_last(), query);
        if is_substring(query, ascii_lowered(items.last())) {
            rest.push(item_entry(items.last()))
        } else {
            rest
        }
    }
}

/// Every item is ASCII text.
pub open spec fn ascii_items(items: Seq<Seq<char>>) -> bool {
    forall|i: int| 0 <= i < items.len() ==> is_ascii_chars(#[trigger] items[i])
}

/// Where lower-casing each item gives its ASCII lowercase, the two match lists agree.
proof fn lemma_item_matches_ascii(items: Seq<Seq<char>>, query: Seq<char>)
    requires
        forall|i: int| 0 <= i < items.len() ==> lowercase(#[trigger] items[i]) == ascii_lowered(
            items[i],
        ),
    ensures
        item_matches(items, query) == item_matches_ascii(items, query),
    decreases items.len(),
{
    if items.len() > 0 {
        let init = items.drop_last();
        assert forall|i: int| 0 <= i < init.len() implies lowercase(#[trigger] init[i])
            == ascii_lowered(init[i]) by {
            assert(init[i] == items[i]);
        }
        lemma_item_matches_ascii(init, query);
        assert(items.last() == items[items.len() - 1]);
    }
}

/// The items of the history `listing` (the output of `cliphist list`): the second
/// tab-separated field of each of its lines, or nothing when a line has no tab.
pub open spec fn listing_items(listing: Seq<u8>) -> Option<Seq<Seq<char>>> {
    second_fields(lines_of(utf8_lossy(listing)))
}

/// The items of a listing that is valid UTF-8.
pub open spec fn utf8_listing_items(listing: Seq<u8>) -> Option<Seq<Seq<char>>> {
    second_fields(lines_of(decode_utf8(listing)))
}

/// The second tab-separated field of `line`.
pub fn second_field_of(line: &str) -> (r: Option<String>)
    ensures
        r matches Some(f) ==> second_field(line@) == Some(f@),
        r is None ==> second_field(line@) is None,
{
    match split_first(line, '\t').1 {
        Some(rest) => Some(split_first(rest.as_str(), '\t').0),
        None => None,
    }
}

/// The items of the history `listing`, if every line has a tab.
fn items_of(listing: &[u8]) -> (r: Option<Vec<String>>)
    ensures
        r matches Some(v) ==> listing_items(listing@) == Some(v.deep_view()),
        r is None ==> listing_items(listing@) is None,
        valid_utf8(listing@) ==> listing_items(listing@) == utf8_listing_items(listing@),
{
    let text = decode_lossy(listing);
    let ls = lines(text.as_str());
    let n = ls.len();
    let mut items: Vec<String> = Vec::new();
    for i in 0..n
        invariant
            n == ls@.len(),
            ls.deep_view() == lines_of(utf8_lossy(listing@)),
            valid_utf8(listing@) ==> utf8_lossy(listing@) == decode_utf8(listing@),
            second_fields(ls.deep_view().take(i as int)) == Some(items.deep_view()),
            items@.len() == i,
    {
        assert(ls.deep_view().take(i + 1).drop_last() == ls.deep_view().take(i as int));
        assert(ls.deep_view().take(i + 1).last() == ls@[i as int]@);
        match second_field_of(ls[i].as_str()) {
            Some(f) => {
                let ghost before = items.deep_view();
                items.push(f);
                assert(items.deep_view() =~= before.push(items@.last()@));
            },
            None => {
                proof {
                    lemma_missing_field_fails(ls.deep_view(), (i + 1) as int);
                }
                return None;
            },
        }
    }
    assert(ls.deep_view().take(n as int) == ls.deep_view());
    Some(items)
}

/// Whether every line of the history `listing` has a tab, so that it can be searched.
pub fn listing_is_complete(listing: &[u8]) -> (r: bool)
    ensures
        r == (listing_items(listing@) is Some),
        valid_utf8(listing@) ==> r == (utf8_listing_items(listing@) is Some),
{
    items_of(listing).is_some()
}

impl Clipboard {
    /// The lens's name, shown in the tab bar and used as a query prefix.
    pub fn name(&self) -> (r: String)
        ensures
            r@ == "clipboard"@,
    {
        owned("clipboard")
    }

    /// The entries for the history `listing` printed by `cliphist list`, every line of
    /// which has a tab: each line's second tab-separated field is an item, and the items
    /// whose lower-cased text contains `query` are listed.
    pub fn search(&self, listing: &[u8], query: String) -> (r: Vec<Entry>)
        requires
            listing_items(listing@) is Some,
        ensures
            r.deep_view() == item_matches(listing_items(listing@).unwrap(), query@),
            valid_utf8(listing@) ==> r.deep_view() == item_matches(
                utf8_listing_items(listing@).unwrap(),
                query@,
            ),
            ascii_items(listing_items(listing@).unwrap()) ==> r.deep_view() == item_matches_ascii(
                listing_items(listing@).unwrap(),
                query@,
            ),
            valid_utf8(listing@) && ascii_items(utf8_listing_items(listing@).unwrap())
                ==> r.deep_view() == item_matches_ascii(utf8_listing_items(listing@).unwrap(), query@),
    {
        let items = items_of(listing).unwrap();
        let n = items.len();
        let mut r: Vec<Entry> = Vec::new();
        for i in 0..n
            invariant
                n == items@.len(),
                r.deep_view() == item_matches(items.deep_view().take(i as int), query@),
                forall|j: int| 0 <= j < i ==> lowers_as_ascii(#[trigger] items.deep_view()[j]),
        {
            let item = &items[i];
            assert(items.deep_view().take(i + 1).drop_last() == items.deep_view().take(i as int));
            assert(items.deep_view().take(i + 1).last() == items@[i as int]@);
            let lower = to_lowercase(item.as_str());
            assert(lowers_as_ascii(items.deep_view()[i as int]));
            if contains(lower.as_str(), query.as_str()) {
                let ghost before = r.deep_view();
                r.push(
                    Entry {
                        id: item.clone(),
                        title: truncate(item),
                        icon: owned("\u{ed7b}"),
                        meta: item.clone(),
                        enter: EnterAction::CopyMeta,
                    },
                );
                assert(r.deep_view() =~= before.push(item_entry(items@[i as int]@)));
            }
        }
        assert(items.deep_view().take(n as int) == items.deep_view());
        proof {
            if ascii_items(items.deep_view()) {
                assert forall|i: int| 0 <= i < items.deep_view().len() implies lowercase(
                    #[trigger] items.deep_view()[i],
                ) == ascii_lowered(items.deep_view()[i]) by {
                    assert(lowers_as_ascii(items.deep_view()[i]));
                }
                lemma_item_matches_ascii(items.deep_view(), query@);
            }
        }
        r
    }

    /// The search of `listing` for `query` when every line of it has a tab; nothing when
    /// some line has none (a listing that `search` does not take).
    pub fn checked_search(&self, listing: &[u8], query: String) -> (r: Option<Vec<Entry>>)
        ensures
            r is Some <==> listing_items(listing@) is Some,
            r matches Some(v) ==> v.deep_view() == item_matches(
                listing_items(listing@).unwrap(),
                query@,
            ),
            valid_utf8(listing@) ==> (r is Some <==> utf8_listing_items(listing@) is Some),
            valid_utf8(listing@) && r is Some ==> r.unwrap().deep_view() == item_matches(
                utf8_listing_items(listing@).unwrap(),
                query@,
            ),
            valid_utf8(listing@) && r is Some && ascii_items(utf8_listing_items(listing@).unwrap())
                ==> r.unwrap().deep_view() == item_matches_ascii(
                utf8_listing_items(listing@).unwrap(),
                query@,
            ),
    {
        if listing_is_complete(listing) {
            Some(self.search(listing, query))
        } else {
            None
        }
    }
}

/// When one of the first `k` lines has no tab, no line list that starts with them has
/// second fields.
proof fn lemma_missing_field_fails(lines: Seq<Seq<char>>, k: int)
    requires
        0 < k <= lines.len(),
        second_fields(lines.take(k)) is None,
    ensures
        second_fields(lines) is None,
    decreases lines.len(),
{
    if k < lines.len() {
        assert(lines.drop_last().take(k) == lines.take(k));
        lemma_missing_field_fails(lines.drop_last(), k);
    } else {
        assert(lines.take(k) == lines);
    }
}

/// The program and arguments that copy a clipboard entry: `wl-copy` with its `meta`.
pub fn copy_argv(entry: &Entry) -> (r: Vec<String>)
    ensures
        r.deep_view() == seq!["wl-copy"@, entry.meta@],
{
    let mut r: Vec<String> = Vec::new();
    r.push(owned("wl-copy"));
    r.push(entry.meta.clone());
    assert(r.deep_view() =~= seq!["wl-copy"@, entry.meta@]);
    r
}

/// A title shows an item of at most twenty characters whole, and is never longer than
/// twenty characters and the three dots.
pub proof fn law_title_length(s: Seq<char>)
    ensures
        truncated(s).len() <= TITLE_CHARS + 3,
        s.len() <= TITLE_CHARS ==> truncated(s) == s,
        s.len() > TITLE_CHARS ==> truncated(s).take(TITLE_CHARS as int) == s.take(TITLE_CHARS as int),
{
    reveal_strlit("...");
    if s.len() > TITLE_CHARS {
        assert(truncated(s).take(TITLE_CHARS as int) =~= s.take(TITLE_CHARS as int));
    }
}

/// An empty query lists every item of the history, in order.
pub proof fn law_empty_query_lists_all_items(items: Seq<Seq<char>>)
    ensures
        item_matches(items, seq![]) == items.map_values(|i: Seq<char>| item_entry(i)),
    decreases items.len(),
{
    if items.len() > 0 {
        law_empty_query_lists_all_items(items.drop_last());
        lemma_empty_is_substring(lowercase(items.last()));
        assert(items.map_values(|i: Seq<char>| item_entry(i)) =~= items.drop_last().map_values(
            |i: Seq<char>| item_entry(i),
        ).push(item_entry(items.last())));
    } else {
        assert(items.map_values(|i: Seq<char>| item_entry(i)) =~= Seq::<EntryModel>::empty());
    }
}

/// The clipboard lens lists exactly the items whose whole lower-cased text contains the
/// query, each once, in history order (the shortened title plays no part): filtering the
/// items by that test and taking each one's entry gives the matches. In particular, every
/// item whose text contains the query is listed.
pub proof fn law_clipboard_lists_exactly_the_matches(items: Seq<Seq<char>>, query: Seq<char>)
    ensures
        item_matches(items, query) == items.filter(
            |it: Seq<char>| is_substring(query, lowercase(it)),
        ).map_values(|it: Seq<char>| item_entry(it)),
        item_matches_ascii(items, query) == items.filter(
            |it: Seq<char>| is_substring(query, ascii_lowered(it)),
        ).map_values(|it: Seq<char>| item_entry(it)),
        forall|i: int|
            0 <= i < items.len() && is_substring(query, lowercase(items[i])) ==> item_matches(
                items,
                query,
            ).contains(item_entry(#[trigger] items[i])),
    decreases items.len(),
{
    let keep = |it: Seq<char>| is_substring(query, lowercase(it));
    let keep_ascii = |it: Seq<char>| is_substring(query, ascii_lowered(it));
    let f = |it: Seq<char>| item_entry(it);
    if items.len() == 0 {
        lemma_filter_map_empty(items, keep, f);
        lemma_filter_map_empty(items, keep_ascii, f);
    } else {
        law_clipboard_lists_exactly_the_matches(items.drop_last(), query);
        lemma_filter_map_last(items, keep, f);
        lemma_filter_map_last(items, keep_ascii, f);
    }
    assert forall|i: int|
        0 <= i < items.len() && is_substring(query, lowercase(items[i])) implies item_matches(
        items,
        query,
    ).contains(item_entry(#[trigger] items[i])) by {
        lemma_filter_map_keeps(items, keep, f, i);
    }
}

/// A line `id + tab + item`, where neither part holds a tab, optionally followed by a
/// tab and more text, has `item` as its second field; a line without a tab has none.
pub proof fn law_second_field_is_between_tabs(id: Seq<char>, item: Seq<char>, rest: Seq<char>)
    requires
        !id.contains('\t'),
        !item.contains('\t'),
        rest.len() == 0 || rest[0] == '\t',
    ensures
        second_field(id + seq!['\t'] + item + rest) == Some(item),
        second_field(id) is None,
{
    lemma_before_sep_of_run(item, rest, '\t');
    lemma_after_sep_of_run(id, item + rest, '\t');
    assert(id + seq!['\t'] + item + rest == id + seq!['\t'] + (item + rest));
    lemma_after_sep_of_run(id, seq![], '\t');
    assert(after_sep(id + seq!['\t'] + seq![], '\t') == Some(Seq::<char>::empty()));
    lemma_no_sep_after(id, '\t');
}

/// Text without `sep` before a `sep`: what follows the first `sep` is the rest.
proof fn lemma_after_sep_of_run(a: Seq<char>, b: Seq<char>, sep: char)
    requires
        !a.contains(sep),
    ensures
        after_sep(a + seq![sep] + b, sep) == Some(b),
    decreases a.len(),
{
    let s = a + seq![sep] + b;
    if a.len() == 0 {
        assert(s == seq![sep] + b);
        assert(s.drop_first() == b);
    } else {
        assert(!a.drop_first().contains(sep)) by {
            if a.drop_first().contains(sep) {
                let k = choose|k: int| 0 <= k < a.drop_first().len() && a.drop_first()[k] == sep;
                assert(a[k + 1] == sep);
            }
        }
        lemma_after_sep_of_run(a.drop_first(), b, sep);
        assert(s.drop_first() == a.drop_first() + seq![sep] + b);
        assert(s[0] == a[0]);
    }
}

/// Text without `sep` followed by nothing or by a `sep`: all of it comes before the first
/// `sep`.
proof fn lemma_before_sep_of_run(a: Seq<char>, b: Seq<char>, sep: char)
    requires
        !a.contains(sep),
        b.len() == 0 || b[0] == sep,
    ensures
        before_sep(a + b, sep) == a,
    decreases a.len(),
{
    let s = a + b;
    if a.len() == 0 {
        assert(s == b);
        if b.len() > 0 {
            assert(before_sep(b, sep) == Seq::<char>::empty());
        }
    } else {
        assert(!a.drop_first().contains(sep)) by {
            if a.drop_first().contains(sep) {
                let k = choose|k: int| 0 <= k < a.drop_first().len() && a.drop_first()[k] == sep;
                assert(a[k + 1] == sep);
            }
        }
        lemma_before_sep_of_run(a.drop_first(), b, sep);
        assert(s.drop_first() == a.drop_first() + b);
        assert(s[0] == a[0]);
        assert(a == seq![a[0]] + a.drop_first());
    }
}

/// Text without `sep` has nothing after a `sep`.
proof fn lemma_no_sep_after(a: Seq<char>, sep: char)
    requires
        !a.contains(sep),
    ensures
        after_sep(a, sep) is None,
    decreases a.len(),
{
    if a.len() > 0 {
        assert(!a.drop_first().contains(sep)) by {
            if a.drop_first().contains(sep) {
                let k = choose|k: int| 0 <= k < a.drop_first().len() && a.drop_first()[k] == sep;
                assert(a[k + 1] == sep);
            }
        }
        lemma_no_sep_after(a.drop_first(), sep);
    }
}

} // verus!
