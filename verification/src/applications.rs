//! The applications lens: configured applications, matched fuzzily by name.

use vstd::prelude::*;
use fuzzy_matcher::FuzzyMatcher;
use crate::lens::{Entry, EntryModel};
use crate::text::{
    ascii_lower, concatenated, is_substring, lemma_filter_map_empty, lemma_filter_map_last,
};

verus! {

/// A context action of a configured application.
pub struct AppContext {
    pub name: String,
    pub command: String,
}

/// One configured application.
pub struct AppConfig {
    pub name: String,
    pub icon: String,
    pub command: String,
    pub description: String,
    pub context: Vec<AppContext>,
}

/// The lens that matches configured applications fuzzily.
pub struct ApplicationsLens {
    pub apps: Vec<AppConfig>,
}

/// `c` is an ASCII upper-case letter.
pub open spec fn is_ascii_upper(c: char) -> bool {
    'A' <= c && c <= 'Z'
}

/// The fuzzy matcher compares characters exactly when `case_sensitive`, and otherwise
/// up to ASCII case.
pub open spec fn skim_char_eq(c: char, p: char, case_sensitive: bool) -> bool {
    if case_sensitive {
        c == p
    } else {
        ascii_lower(c) == ascii_lower(p)
    }
}

/// The characters of `pattern` occur in `choice` in order (not necessarily next to each
/// other), each matched to the first fitting character not yet used.
pub open spec fn in_order(choice: Seq<char>, pattern: Seq<char>, case_sensitive: bool) -> bool
    decreases choice.len(),
{
    if pattern.len() == 0 {
        true
    } else if choice.len() == 0 {
        false
    } else if skim_char_eq(choice[0], pattern[0], case_sensitive) {
        in_order(choice.drop_first(), pattern.drop_first(), case_sensitive)
    } else {
        in_order(choice.drop_first(), pattern, case_sensitive)
    }
}

/// Whether the default skim matcher (smart case: case-sensitive exactly when the pattern
/// holds an ASCII upper-case letter) finds `pattern` in `choice`.
pub open spec fn skim_matches(choice: Seq<char>, pattern: Seq<char>) -> bool {
    in_order(choice, pattern, exists|i: int| 0 <= i < pattern.len() && is_ascii_upper(pattern[i]))
}

/// The score that the default skim matcher gives `choice` for `pattern`.
pub uninterp spec fn skim_score(choice: Seq<char>, pattern: Seq<char>) -> i64;

/// Calls `fuzzy_matcher::FuzzyMatcher::fuzzy_match` on a default `SkimMatcherV2`. Its
/// source returns `Some(0)` for an empty pattern; otherwise it returns a score exactly when
/// a first-fit scan finds the pattern's characters in order in the choice (compared
/// exactly when the pattern holds an ASCII capital, else up to ASCII case). The contract
/// states that; the score itself, an alignment score, is named by `skim_score`.
#[verifier::external_body]
fn fuzzy_match(choice: &str, pattern: &str) -> (r: Option<i64>)
    ensures
        r is Some <==> skim_matches(choice@, pattern@),
        r matches Some(s) ==> s == skim_score(choice@, pattern@),
        pattern@.len() == 0 ==> r == Some(0i64),
{
    fuzzy_matcher::skim::SkimMatcherV2::default().fuzzy_match(choice, pattern)
}

/// The entry for an application.
pub open spec fn application_entry(app: AppConfig) -> EntryModel {
    EntryModel {
        id: app.name@,
        title: app.name@,
        icon: app.icon@,
        description: app.description@,
    }
}

/// The entries for the applications whose name the skim matcher matches with `query`.
pub open spec fn application_matches(apps: Seq<AppConfig>, query: Seq<char>) -> Seq<EntryModel>
    decreases apps.len(),
{
    if apps.len() == 0 {
        seq![]
    } else {
        let rest = application_matches(apps.drop_last(), query);
        if skim_matches(apps.last().name@, query) {
            rest.push(application_entry(apps.last()))
        } else {
            rest
        }
    }
}

impl ApplicationsLens {
    /// A lens with no applications.
    pub fn new() -> (r: Self)
        ensures
            r.apps@.len() == 0,
    {
        ApplicationsLens { apps: Vec::new() }
    }

    /// Adds the configurations read from the applications directory, in order.
    pub fn load(&mut self, configs: Vec<AppConfig>)
        ensures
            final(self).apps@ == old(self).apps@ + configs@,
    {
        let mut configs = configs;
        self.apps.append(&mut configs);
    }

    /// The lens's name, shown in the tab bar.
    pub fn name(&self) -> (r: &'static str)
        ensures
            r@ == "Applications"@,
    {
        "Applications"
    }

    /// The entries for the applications whose name fuzzily matches `query`, in order.
    pub fn search(&self, query: &str) -> (r: Vec<Entry>)
        ensures
            r.deep_view() == application_matches(self.apps@, query@),
    {
        let mut r: Vec<Entry> = Vec::new();
        let n = self.apps.len();
        for i in 0..n
            invariant
                n == self.apps@.len(),
                r.deep_view() == application_matches(self.apps@.take(i as int), query@),
        {
            let app = &self.apps[i];
            assert(self.apps@.take(i + 1).drop_last() == self.apps@.take(i as int));
            assert(self.apps@.take(i + 1).last() == self.apps@[i as int]);
            if let Some(_score) = fuzzy_match(app.name.as_str(), query) {
                let ghost before = r.deep_view();
                r.push(
                    Entry {
                        id: app.name.clone(),
                        title: app.name.clone(),
                        icon: app.icon.clone(),
                        description: app.description.clone(),
                    },
                );
                assert(r.deep_view() =~= before.push(application_entry(self.apps@[i as int])));
            }
        }
        assert(self.apps@.take(n as int) == self.apps@);
        r
    }
}

/// The applications directory, `~/.config/spyglass/applications`, under the home
/// directory `home`.
pub fn config_dir(home: &str) -> (r: String)
    ensures
        r@ == home@ + "/.config/spyglass/applications"@,
{
    concatenated(home, "/.config/spyglass/applications")
}

/// An empty query lists every application, in order.
pub proof fn law_empty_query_lists_all_applications(apps: Seq<AppConfig>)
    ensures
        application_matches(apps, seq![]) == apps.map_values(|a: AppConfig| application_entry(a)),
    decreases apps.len(),
{
    if apps.len() > 0 {
        law_empty_query_lists_all_applications(apps.drop_last());
        assert(apps.map_values(|a: AppConfig| application_entry(a)) =~= apps.drop_last().map_values(
            |a: AppConfig| application_entry(a),
        ).push(application_entry(apps.last())));
    } else {
        assert(apps.map_values(|a: AppConfig| application_entry(a)) =~= Seq::<EntryModel>::empty());
    }
}

/// A pattern that occurs in `choice` as a contiguous run at `at` is found in order.
proof fn lemma_run_in_order(choice: Seq<char>, pattern: Seq<char>, at: int, case_sensitive: bool)
    requires
        0 <= at,
        at + pattern.len() <= choice.len(),
        choice.subrange(at, at + pattern.len()) == pattern,
    ensures
        in_order(choice, pattern, case_sensitive),
    decreases choice.len(),
{
    if pattern.len() > 0 {
        assert(choice.subrange(at, at + pattern.len())[0] == pattern[0]);
        let rest = choice.drop_first();
        if skim_char_eq(choice[0], pattern[0], case_sensitive) {
            let tail = pattern.drop_first();
            if at == 0 {
                assert(rest.subrange(0, 0int + tail.len()) =~= tail) by {
                    assert forall|k: int| 0 <= k < tail.len() implies rest.subrange(
                        0,
                        0int + tail.len(),
                    )[k] == tail[k] by {
                        assert(choice.subrange(at, at + pattern.len())[k + 1] == pattern[k + 1]);
                    }
                }
                lemma_run_in_order(rest, tail, 0, case_sensitive);
            } else {
                assert(rest.subrange(at, at + tail.len()) =~= tail) by {
                    assert forall|k: int| 0 <= k < tail.len() implies rest.subrange(
                        at,
                        at + tail.len(),
                    )[k] == tail[k] by {
                        assert(choice.subrange(at, at + pattern.len())[k + 1] == pattern[k + 1]);
                    }
                }
                lemma_run_in_order(rest, tail, at, case_sensitive);
            }
        } else {
            assert(at != 0);
            assert(rest.subrange(at - 1, at - 1 + pattern.len()) =~= pattern) by {
                assert forall|k: int| 0 <= k < pattern.len() implies rest.subrange(
                    at - 1,
                    at - 1 + pattern.len(),
                )[k] == pattern[k] by {
                    assert(choice.subrange(at, at + pattern.len())[k] == pattern[k]);
                }
            }
            lemma_run_in_order(rest, pattern, at - 1, case_sensitive);
        }
    }
}

/// An application whose name contains the query, exactly as typed, is matched.
pub proof fn law_contained_query_matches(name: Seq<char>, query: Seq<char>)
    requires
        is_substring(query, name),
    ensures
        skim_matches(name, query),
{
    let at = choose|i: int|
        0 <= i && i + query.len() <= name.len() && #[trigger] name.subrange(i, i + query.len())
            == query;
    lemma_run_in_order(
        name,
        query,
        at,
        exists|i: int| 0 <= i < query.len() && is_ascii_upper(query[i]),
    );
}

/// The applications lens lists exactly the applications whose name the skim matcher
/// matches with the query, each once, in configuration order: filtering the applications
/// by that test and taking each one's entry gives the result.
pub proof fn law_applications_lists_exactly_the_matches(apps: Seq<AppConfig>, query: Seq<char>)
    ensures
        application_matches(apps, query) == apps.filter(
            |a: AppConfig| skim_matches(a.name@, query),
        ).map_values(|a: AppConfig| application_entry(a)),
    decreases apps.len(),
{
    let keep = |a: AppConfig| skim_matches(a.name@, query);
    let f = |a: AppConfig| application_entry(a);
    if apps.len() == 0 {
        lemma_filter_map_empty(apps, keep, f);
    } else {
        law_applications_lists_exactly_the_matches(apps.drop_last(), query);
        lemma_filter_map_last(apps, keep, f);
    }
}

} // verus!
