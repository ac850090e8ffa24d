//! The apps lens: applications configured one per TOML file; picking one launches it.

use vstd::prelude::*;
use crate::{entry_model, Entry, EnterAction, EntryModel};
use vstd::utf8::is_ascii_chars;
use crate::text::{
    ascii_lowered, chars_of, concatenated, contains, is_substring, lemma_empty_is_substring,
    lemma_filter_map_empty, lemma_filter_map_keeps, lemma_filter_map_last, lowercase,
    lowers_as_ascii, owned, to_lowercase,
};

verus! {

/// The lens that lists the configured applications.
pub struct Apps;

/// One configured application.
pub struct AppConfig {
    /// The application's name.
    pub name: String,
    /// Its icon, typically a Nerd Font glyph or an emoji.
    pub icon: String,
    /// The shell command that launches it.
    pub command: String,
}

/// The entry for an application: titled by its name, launching its command when picked.
pub open spec fn app_entry(app: AppConfig) -> EntryModel {
    entry_model(app.name@, app.name@, app.icon@, app.command@, EnterAction::Launch)
}

/// The entries for the applications whose lower-cased name contains `query`, in order.
pub open spec fn app_matches(apps: Seq<AppConfig>, query: Seq<char>) -> Seq<EntryModel>
    decreases apps.len(),
{
    if apps.len() == 0 {
        seq![]
    } else {
        let rest = app_matches(apps.drop_last(), query);
        if is_substring(query, lowercase(apps.last().name@)) {
            rest.push(app_entry(apps.last()))
        } else {
            rest
        }
    }
}

/// The entries for the applications whose ASCII-lower-cased name contains `query`, in
/// order: what `app_matches` is for applications with ASCII names.
pub open spec fn app_matches_ascii(apps: Seq<AppConfig>, query: Seq<char>) -> Seq<EntryModel>
    decreases apps.len(),
{
    if apps.len() == 0 {
        seq![]
    } else {
        let rest = app_matches_ascii(apps.drop_last(), query);
        if is_substring(query, ascii_lowered(apps.last().name@)) {
            rest.push(app_entry(apps.last()))
        } else {
            rest
        }
    }
}

/// Every application's name is ASCII.
pub open spec fn ascii_names(apps: Seq<AppConfig>) -> bool {
    forall|i: int| 0 <= i < apps.len() ==> is_ascii_chars(#[trigger] apps[i].name@)
}

/// Where lower-casing each name gives its ASCII lowercase, the two match lists agree.
proof fn lemma_app_matches_ascii(apps: Seq<AppConfig>, query: Seq<char>)
    requires
        forall|i: int| 0 <= i < apps.len() ==> lowercase(#[trigger] apps[i].name@) == ascii_lowered(
            apps[i].name@,
        ),
    ensures
        app_matches(apps, query) == app_matches_ascii(apps, query),
    decreases apps.len(),
{
    if apps.len() > 0 {
        let init = apps.drop_last();
        assert forall|i: int| 0 <= i < init.len() implies lowercase(#[trigger] init[i].name@)
            == ascii_lowered(init[i].name@) by {
            assert(init[i] == apps[i]);
        }
        lemma_app_matches_ascii(init, query);
        assert(apps.last() == apps[apps.len() - 1]);
    }
}

/// The command that launches an application entry: its `meta` run by `sh -c`.
pub open spec fn launch_command(meta: Seq<char>) -> Seq<Seq<char>> {
    seq!["sh"@, "-c"@, meta]
}

/// The file `name` is an application configuration: its extension, as `Path::extension`
/// reads it, is `toml`, so it ends in `.toml` with at least one character before the dot.
pub open spec fn is_config_name(name: Seq<char>) -> bool {
    name.len() > 5 && name.skip(name.len() - 5) == ".toml"@
}

impl Apps {
    /// The lens's name, shown in the tab bar and used as a query prefix.
    pub fn name(&self) -> (r: String)
        ensures
            r@ == "apps"@,
    {
        owned("apps")
    }

    /// The entries for the applications in `apps` (as configured when the search runs)
    /// whose lower-cased name contains the lower-cased `query`.
    pub fn search(&self, apps: &Vec<AppConfig>, query: String) -> (r: Vec<Entry>)
        ensures
            r.deep_view() == app_matches(apps@, lowercase(query@)),
            query@.len() == 0 ==> r.deep_view() == apps@.map_values(|a: AppConfig| app_entry(a)),
            is_ascii_chars(query@) && ascii_names(apps@) ==> r.deep_view() == app_matches_ascii(
                apps@,
                ascii_lowered(query@),
            ),
    {
        let ghost typed = query@;
        let query = to_lowercase(query.as_str());
        let mut r: Vec<Entry> = Vec::new();
        let n = apps.len();
        for i in 0..n
            invariant
                n == apps@.len(),
                r.deep_view() == app_matches(apps@.take(i as int), query@),
                forall|j: int| 0 <= j < i ==> lowers_as_ascii(#[trigger] apps@[j].name@),
        {
            let app = &apps[i];
            assert(apps@.take(i + 1).drop_last() == apps@.take(i as int));
            assert(apps@.take(i + 1).last() == apps@[i as int]);
            let lower = to_lowercase(app.name.as_str());
            assert(lowers_as_ascii(app.name@));
            if contains(lower.as_str(), query.as_str()) {
                let ghost before = r.deep_view();
                r.push(
                    Entry {
                        id: app.name.clone(),
                        title: app.name.clone(),
                        icon: app.icon.clone(),
                        meta: app.command.clone(),
                        enter: EnterAction::Launch,
                    },
                );
                assert(r.deep_view() =~= before.push(app_entry(apps@[i as int])));
            }
        }
        assert(apps@.take(n as int) == apps@);
        proof {
            if ascii_names(apps@) {
                assert forall|i: int| 0 <= i < apps@.len() implies lowercase(
                    #[trigger] apps@[i].name@,
                ) == ascii_lowered(apps@[i].name@) by {
                    assert(lowers_as_ascii(apps@[i].name@));
                }
                lemma_app_matches_ascii(apps@, query@);
            }
            if typed.len() == 0 {
                assert(query@ =~= Seq::<char>::empty());
                law_empty_query_lists_all_apps(apps@);
            }
        }
        r
    }
}

/// An empty query lists every configured application, in order.
pub proof fn law_empty_query_lists_all_apps(apps: Seq<AppConfig>)
    ensures
        app_matches(apps, seq![]) == apps.map_values(|a: AppConfig| app_entry(a)),
    decreases apps.len(),
{
    if apps.len() > 0 {
        law_empty_query_lists_all_apps(apps.drop_last());
        lemma_empty_is_substring(lowercase(apps.last().name@));
        assert(apps.map_values(|a: AppConfig| app_entry(a)) =~= apps.drop_last().map_values(
            |a: AppConfig| app_entry(a),
        ).push(app_entry(apps.last())));
    } else {
        assert(apps.map_values(|a: AppConfig| app_entry(a)) =~= Seq::<EntryModel>::empty());
    }
}

/// The program and arguments that launch an application entry.
pub fn launch_argv(entry: &Entry) -> (r: Vec<String>)
    ensures
        r.deep_view() == launch_command(entry.meta@),
{
    let mut r: Vec<String> = Vec::new();
    r.push(owned("sh"));
    r.push(owned("-c"));
    r.push(entry.meta.clone());
    assert(r.deep_view() =~= launch_command(entry.meta@));
    r
}

/// Whether the file called `name` holds an application configuration.
pub fn is_config_file(name: &str) -> (r: bool)
    ensures
        r == is_config_name(name@),
{
    let cs = chars_of(name);
    let n = cs.len();
    proof {
        reveal_strlit(".toml");
    }
    if n <= 5 {
        return false;
    }
    let r = cs[n - 5] == '.' && cs[n - 4] == 't' && cs[n - 3] == 'o' && cs[n - 2] == 'm' && cs[n
        - 1] == 'l';
    if r {
        assert(name@.skip(n - 5) =~= ".toml"@);
    } else {
        assert(name@.skip(n - 5) != ".toml"@) by {
            if name@.skip(n - 5) == ".toml"@ {
                assert(name@.skip(n - 5)[0] == '.');
                assert(name@.skip(n - 5)[1] == 't');
                assert(name@.skip(n - 5)[2] == 'o');
                assert(name@.skip(n - 5)[3] == 'm');
                assert(name@.skip(n - 5)[4] == 'l');
            }
        }
    }
    r
}

/// The directory of application configurations, under the user's configuration directory.
pub fn config_dir(user_config_dir: &str) -> (r: String)
    ensures
        r@ == user_config_dir@ + "/spyglass/applications/"@,
{
    concatenated(user_config_dir, "/spyglass/applications/")
}

/// The apps lens lists exactly the applications whose lower-cased name contains the
/// query, each once, in the order they are configured: filtering the applications by that
/// test and taking each one's entry gives the matches. In particular, every application
/// whose name contains the query is listed.
pub proof fn law_apps_lists_exactly_the_matches(apps: Seq<AppConfig>, query: Seq<char>)
    ensures
        app_matches(apps, query) == apps.filter(
            |a: AppConfig| is_substring(query, lowercase(a.name@)),
        ).map_values(|a: AppConfig| app_entry(a)),
        app_matches_ascii(apps, query) == apps.filter(
            |a: AppConfig| is_substring(query, ascii_lowered(a.name@)),
        ).map_values(|a: AppConfig| app_entry(a)),
        forall|i: int|
            0 <= i < apps.len() && is_substring(query, lowercase(apps[i].name@)) ==> app_matches(
                apps,
                query,
            ).contains(app_entry(#[trigger] apps[i])),
    decreases apps.len(),
{
    let keep = |a: AppConfig| is_substring(query, lowercase(a.name@));
    let keep_ascii = |a: AppConfig| is_substring(query, ascii_lowered(a.name@));
    let f = |a: AppConfig| app_entry(a);
    if apps.len() == 0 {
        lemma_filter_map_empty(apps, keep, f);
        lemma_filter_map_empty(apps, keep_ascii, f);
    } else {
        law_apps_lists_exactly_the_matches(apps.drop_last(), query);
        lemma_filter_map_last(apps, keep, f);
        lemma_filter_map_last(apps, keep_ascii, f);
    }
    assert forall|i: int|
        0 <= i < apps.len() && is_substring(query, lowercase(apps[i].name@)) implies app_matches(
        apps,
        query,
    ).contains(app_entry(#[trigger] apps[i])) by {
        lemma_filter_map_keeps(apps, keep, f, i);
    }
}

} // verus!
