//! The launcher's decisions: reading the search box, choosing which lenses to ask, and
//! what a key press does.

use vstd::prelude::*;
use crate::{Entry, EntryModel};
use vstd::utf8::is_ascii_chars;
use crate::text::{
    ascii_lowered, lemma_trimmed_end_ascii,
    after_sep, before_sep, lowercase, push_chars, split_first, to_lowercase, trim, trim_end,
    trimmed, trimmed_end,
};

verus! {

/// `parts` joined with `sep` between each two (`[String]::join`).
pub open spec fn joined(parts: Seq<Seq<char>>, sep: Seq<char>) -> Seq<char>
    decreases parts.len(),
{
    if parts.len() == 0 {
        seq![]
    } else if parts.len() == 1 {
        parts[0]
    } else {
        joined(parts.drop_last(), sep) + sep + parts.last()
    }
}

/// Joins `parts` with `sep` between each two.
pub fn join(parts: &Vec<String>, sep: &str) -> (r: String)
    ensures
        r@ == joined(parts.deep_view(), sep@),
{
    let mut r = String::new();
    let n = parts.len();
    for i in 0..n
        invariant
            n == parts@.len(),
            r@ == joined(parts.deep_view().take(i as int), sep@),
    {
        let ghost prefix = parts.deep_view().take(i + 1);
        assert(prefix.drop_last() == parts.deep_view().take(i as int));
        assert(prefix.last() == parts@[i as int]@);
        if i > 0 {
            push_chars(&mut r, sep);
        } else {
            assert(r@ == Seq::<char>::empty());
        }
        push_chars(&mut r, parts[i].as_str());
    }
    assert(parts.deep_view().take(n as int) == parts.deep_view());
    r
}

/// The query typed into the search box, whose lines are `lines`: the lines joined by
/// spaces, without trailing whitespace, lower-cased.
pub fn normalize_query(lines: &Vec<String>) -> (r: String)
    ensures
        r@ == lowercase(trimmed_end(joined(lines.deep_view(), " "@))),
        is_ascii_chars(joined(lines.deep_view(), " "@)) ==> r@ == ascii_lowered(
            trimmed_end(joined(lines.deep_view(), " "@)),
        ),
{
    let text = join(lines, " ");
    proof {
        if is_ascii_chars(text@) {
            lemma_trimmed_end_ascii(text@);
        }
    }
    let text = trim_end(text.as_str());
    to_lowercase(text.as_str())
}

/// Which lenses a search asks, and with what query.
pub struct SearchPlan {
    /// The name of the only lens to ask, or `None` to ask every lens.
    pub lens: Option<String>,
    /// The query to hand to the lenses.
    pub query: String,
}

/// The lens a query names: the text before its first `#`, when it has one.
pub open spec fn planned_lens(query: Seq<char>) -> Option<Seq<char>> {
    if after_sep(query, '#') is Some {
        Some(before_sep(query, '#'))
    } else {
        None
    }
}

/// The query handed to the lenses: for `lens#text`, `text` up to any further `#`, trimmed;
/// without a `#`, the whole query trimmed.
pub open spec fn planned_query(query: Seq<char>) -> Seq<char> {
    match after_sep(query, '#') {
        Some(rest) => trimmed(before_sep(rest, '#')),
        None => trimmed(query),
    }
}

/// Reads a query: `lens#text` asks only the lens called `lens` with `text`; any other
/// query asks every lens.
pub fn plan_search(query: &str) -> (r: SearchPlan)
    ensures
        r.lens matches Some(l) ==> planned_lens(query@) == Some(l@),
        r.lens is None ==> planned_lens(query@) is None,
        r.query@ == planned_query(query@),
{
    let (lens, rest) = split_first(query, '#');
    match rest {
        Some(rest) => {
            let (text, _) = split_first(rest.as_str(), '#');
            SearchPlan { lens: Some(lens), query: trim(text.as_str()) }
        },
        None => SearchPlan { lens: None, query: trim(query) },
    }
}

impl SearchPlan {
    /// Whether the lens called `lens_name` is asked.
    pub fn asks(&self, lens_name: &String) -> (r: bool)
        ensures
            r == (self.lens matches Some(l) ==> l@ == lens_name@),
    {
        match &self.lens {
            Some(l) => *l == *lens_name,
            None => true,
        }
    }
}

/// A key press that the launcher reacts to.
#[derive(Clone, Copy, Debug, PartialEq, Eq, Structural)]
pub enum Key {
    Esc,
    Up,
    Down,
    Enter,
    /// Any other key; it goes to the search box.
    Other,
}

/// What the launcher does for a key press.
#[derive(Clone, Copy, Debug, PartialEq, Eq, Structural)]
pub enum KeyAction {
    /// Stop running.
    Quit,
    /// Move the selection up.
    SelectPrevious,
    /// Move the selection down.
    SelectNext,
    /// Carry out the enter action of the result at this position, then stop running.
    Activate(usize),
    /// Nothing happens.
    Stay,
    /// Hand the key to the search box.
    Edit,
}

/// What a key press does, given the selected position and the number of results.
pub open spec fn key_outcome(key: Key, selected: Option<usize>, results: usize) -> KeyAction {
    match key {
        Key::Esc => KeyAction::Quit,
        Key::Up => KeyAction::SelectPrevious,
        Key::Down => KeyAction::SelectNext,
        Key::Enter => match selected {
            Some(i) => if i < results {
                KeyAction::Activate(i)
            } else {
                KeyAction::Stay
            },
            None => KeyAction::Stay,
        },
        Key::Other => KeyAction::Edit,
    }
}

/// Decides what a key press does.
pub fn key_action(key: Key, selected: Option<usize>, results: usize) -> (r: KeyAction)
    ensures
        r == key_outcome(key, selected, results),
{
    match key {
        Key::Esc => KeyAction::Quit,
        Key::Up => KeyAction::SelectPrevious,
        Key::Down => KeyAction::SelectNext,
        Key::Enter => match selected {
            Some(i) => if i < results {
                KeyAction::Activate(i)
            } else {
                KeyAction::Stay
            },
            None => KeyAction::Stay,
        },
        Key::Other => KeyAction::Edit,
    }
}

/// Enter only ever activates a result that exists, and only the selected one.
pub proof fn law_activation_targets_selected_result(key: Key, selected: Option<usize>, results: usize)
    ensures
        key_outcome(key, selected, results) matches KeyAction::Activate(i) ==> key == Key::Enter
            && selected == Some(i) && i < results,
{
}

/// A query without `#` asks every lens with the query trimmed; `lens#text` asks only
/// `lens`, with `text` trimmed.
pub proof fn law_plan_of_filtered_query(lens: Seq<char>, text: Seq<char>)
    requires
        !lens.contains('#'),
        !text.contains('#'),
    ensures
        planned_lens(lens + seq!['#'] + text) == Some(lens),
        planned_query(lens + seq!['#'] + text) == trimmed(text),
        planned_lens(text) is None,
        planned_query(text) == trimmed(text),
    decreases lens.len(),
{
    lemma_no_sep(text, '#');
    let q = lens + seq!['#'] + text;
    if lens.len() == 0 {
        assert(q == seq!['#'] + text);
        assert(q.drop_first() == text);
    } else {
        assert(!lens.drop_first().contains('#')) by {
            if lens.drop_first().contains('#') {
                let k = choose|k: int| 0 <= k < lens.drop_first().len() && lens.drop_first()[k] == '#';
                assert(lens[k + 1] == '#');
            }
        }
        law_plan_of_filtered_query(lens.drop_first(), text);
        assert(q.drop_first() == lens.drop_first() + seq!['#'] + text);
        assert(q[0] == lens[0]);
        assert(lens == seq![lens[0]] + lens.drop_first());
    }
}

/// Text without `sep` is all before it and has nothing after it.
proof fn lemma_no_sep(s: Seq<char>, sep: char)
    requires
        !s.contains(sep),
    ensures
        before_sep(s, sep) == s,
        after_sep(s, sep) is None,
    decreases s.len(),
{
    if s.len() > 0 {
        assert(!s.drop_first().contains(sep)) by {
            if s.drop_first().contains(sep) {
                let k = choose|k: int| 0 <= k < s.drop_first().len() && s.drop_first()[k] == sep;
                assert(s[k + 1] == sep);
            }
        }
        lemma_no_sep(s.drop_first(), sep);
        assert(s == seq![s[0]] + s.drop_first());
    }
}

/// One line of the result list: an entry and the lens that gave it.
pub struct SearchResult {
    pub lens_name: String,
    pub entry: Entry,
}

/// The contents of a result: its lens's name and its entry.
pub open spec fn result_model(r: SearchResult) -> (Seq<char>, EntryModel) {
    (r.lens_name@, r.entry@)
}

/// The entries of one lens, each tagged with the lens's name.
pub open spec fn tagged(lens_name: Seq<char>, entries: Seq<EntryModel>) -> Seq<(Seq<char>, EntryModel)> {
    entries.map_values(|e: EntryModel| (lens_name, e))
}

/// The result list for the lenses asked, in the order they were asked: each lens's
/// entries, in its own order, tagged with its name.
pub open spec fn gathered(searched: Seq<(Seq<char>, Seq<EntryModel>)>) -> Seq<(Seq<char>, EntryModel)>
    decreases searched.len(),
{
    if searched.len() == 0 {
        seq![]
    } else {
        gathered(searched.drop_last()) + tagged(searched.last().0, searched.last().1)
    }
}

/// A copy of an entry.
fn copy_entry(e: &Entry) -> (r: Entry)
    ensures
        r@ == e@,
{
    Entry {
        id: e.id.clone(),
        title: e.title.clone(),
        icon: e.icon.clone(),
        meta: e.meta.clone(),
        enter: e.enter,
    }
}

/// The result list of one search: `searched` holds, for each lens asked in tab order, its
/// name and the entries it gave. The list is built anew: nothing of an earlier search
/// remains.
pub fn collect_results(searched: &Vec<(String, Vec<Entry>)>) -> (r: Vec<SearchResult>)
    ensures
        r@.map_values(|x: SearchResult| result_model(x)) == gathered(searched.deep_view()),
{
    let mut r: Vec<SearchResult> = Vec::new();
    let n = searched.len();
    for i in 0..n
        invariant
            n == searched@.len(),
            r@.map_values(|x: SearchResult| result_model(x)) == gathered(
                searched.deep_view().take(i as int),
            ),
    {
        let ghost prefix = searched.deep_view().take(i + 1);
        assert(prefix.drop_last() == searched.deep_view().take(i as int));
        assert(prefix.last() == searched@[i as int].deep_view());
        let name = &searched[i].0;
        let entries = &searched[i].1;
        let ghost start = r@.map_values(|x: SearchResult| result_model(x));
        let m = entries.len();
        for k in 0..m
            invariant
                n == searched@.len(),
                i < n,
                entries == &searched@[i as int].1,
                name == &searched@[i as int].0,
                m == entries@.len(),
                r@.map_values(|x: SearchResult| result_model(x)) == start + tagged(
                    name@,
                    entries.deep_view().take(k as int),
                ),
        {
            let ghost before = r@.map_values(|x: SearchResult| result_model(x));
            r.push(SearchResult { lens_name: name.clone(), entry: copy_entry(&entries[k]) });
            assert(r@.map_values(|x: SearchResult| result_model(x)) =~= before.push(
                (name@, entries@[k as int]@),
            ));
            assert(tagged(name@, entries.deep_view().take(k + 1)) =~= tagged(
                name@,
                entries.deep_view().take(k as int),
            ).push((name@, entries@[k as int]@)));
        }
        assert(entries.deep_view().take(m as int) == entries.deep_view());
    }
    assert(searched.deep_view().take(n as int) == searched.deep_view());
    r
}

/// What each key does: Escape quits, the arrows move the selection, any other key edits
/// the query, and Enter activates the selected result whenever it exists (so the first
/// result, selected at start, is activated by Enter) and does nothing otherwise.
pub proof fn law_keys(selected: Option<usize>, results: usize)
    ensures
        key_outcome(Key::Esc, selected, results) == KeyAction::Quit,
        key_outcome(Key::Up, selected, results) == KeyAction::SelectPrevious,
        key_outcome(Key::Down, selected, results) == KeyAction::SelectNext,
        key_outcome(Key::Other, selected, results) == KeyAction::Edit,
        forall|i: usize| i < results ==> key_outcome(Key::Enter, Some(i), results) == KeyAction::Activate(i),
        forall|i: usize| i >= results ==> key_outcome(Key::Enter, Some(i), results) == KeyAction::Stay,
        key_outcome(Key::Enter, None, results) == KeyAction::Stay,
{
}

} // verus!
