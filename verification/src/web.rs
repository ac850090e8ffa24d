//! The web lens: offers a web search for the query.

use vstd::prelude::*;
use crate::{entry_model, Entry, EnterAction, EntryModel};
use vstd::utf8::encode_utf8;
use crate::text::{concatenated, is_substring, owned, replace_all, replaced};

verus! {

/// The lens that searches the web for the query.
pub struct Web;

/// The entries of the web lens for `query`: one web search for a non-empty query, none
/// for an empty one.
pub open spec fn web_entries(query: Seq<char>) -> Seq<EntryModel> {
    if query.len() == 0 {
        seq![]
    } else {
        seq![entry_model("web_search"@, query, "\u{f0ac}"@, query, EnterAction::OpenWebSearch)]
    }
}

impl Web {
    /// The lens's name, shown in the tab bar and used as a query prefix.
    pub fn name(&self) -> (r: String)
        ensures
            r@ == "web"@,
    {
        owned("web")
    }

    /// A web search for `query`, or nothing when it is empty.
    pub fn search(&self, query: String) -> (r: Vec<Entry>)
        ensures
            r.deep_view() == web_entries(query@),
    {
        let mut r: Vec<Entry> = Vec::new();
        if query.as_str().is_empty() {
            assert(r.deep_view() =~= web_entries(query@));
            r
        } else {
            r.push(
                Entry {
                    id: owned("web_search"),
                    title: query.clone(),
                    icon: owned("\u{f0ac}"),
                    meta: query.clone(),
                    enter: EnterAction::OpenWebSearch,
                },
            );
            assert(r.deep_view() =~= web_entries(query@));
            r
        }
    }
}

/// The bytes that the fragment percent-encode set escapes: the C0 controls, DEL, space,
/// `"`, `<`, `>` and `` ` ``, together with every byte that is not ASCII.
pub open spec fn escaped_in_fragment(b: u8) -> bool {
    b < 0x21 || b >= 0x7f || b == 0x22 || b == 0x3c || b == 0x3e || b == 0x60
}

/// The upper-case hexadecimal digit of `d < 16`.
pub open spec fn hex_digit(d: u8) -> char {
    if d < 10 {
        (d + 48) as char
    } else {
        (d + 55) as char
    }
}

/// How one byte appears in an encoded fragment: `%` and two upper-case hex digits when it
/// is escaped, the byte's own character otherwise.
pub open spec fn fragment_byte(b: u8) -> Seq<char> {
    if escaped_in_fragment(b) {
        seq!['%', hex_digit(b / 16), hex_digit(b % 16)]
    } else {
        seq![b as char]
    }
}

/// The percent-encoding of a run of bytes with the fragment set, byte by byte.
pub open spec fn fragment_encoded(bytes: Seq<u8>) -> Seq<char>
    decreases bytes.len(),
{
    if bytes.len() == 0 {
        seq![]
    } else {
        fragment_encoded(bytes.drop_last()) + fragment_byte(bytes.last())
    }
}

/// Calls `url_escape::encode_fragment`. Its source percent-encodes the UTF-8 bytes of the
/// text with the fragment set: each byte that is not ASCII, or that is a C0 control, DEL,
/// space, `"`, `<`, `>` or `` ` ``, becomes `%` and two upper-case hex digits; every other
/// byte stays as it is. The contract states exactly that.
#[verifier::external_body]
fn encode_fragment(text: &str) -> (r: String)
    ensures
        r@ == fragment_encoded(encode_utf8(text@)),
{
    url_escape::encode_fragment(text).into_owned()
}

/// The URL that a web entry opens: `base_url` with each `%s` replaced by the
/// fragment-encoded query.
pub open spec fn search_url_of(base_url: Seq<char>, query: Seq<u8>) -> Seq<char> {
    replaced(base_url, "%s"@, fragment_encoded(query))
}

/// The URL that a web entry for `query` opens, given the configured `base_url`.
pub fn search_url(base_url: &str, query: &str) -> (r: String)
    ensures
        r@ == search_url_of(base_url@, encode_utf8(query@)),
{
    let encoded = encode_fragment(query);
    proof {
        reveal_strlit("%s");
    }
    replace_all(base_url, "%s", encoded.as_str())
}

/// The program and arguments that carry out a web entry: `xdg-open` with its search URL.
pub fn open_argv(base_url: &str, entry: &Entry) -> (r: Vec<String>)
    ensures
        r.deep_view() == seq!["xdg-open"@, search_url_of(base_url@, encode_utf8(entry.meta@))],
{
    let mut r: Vec<String> = Vec::new();
    r.push(owned("xdg-open"));
    r.push(search_url(base_url, entry.meta.as_str()));
    assert(r.deep_view() =~= seq!["xdg-open"@, search_url_of(base_url@, encode_utf8(entry.meta@))]);
    r
}

/// The directory that holds the web lens's configuration, under the user's configuration
/// directory.
pub fn config_dir(user_config_dir: &str) -> (r: String)
    ensures
        r@ == user_config_dir@ + "/spyglass/web"@,
{
    concatenated(user_config_dir, "/spyglass/web")
}

/// The web lens's configuration file, under the user's configuration directory.
pub fn config_file(user_config_dir: &str) -> (r: String)
    ensures
        r@ == user_config_dir@ + "/spyglass/web"@ + "/config.toml"@,
{
    let dir = config_dir(user_config_dir);
    concatenated(dir.as_str(), "/config.toml")
}

/// A base URL without `%s` is opened as it is, whatever the query.
pub proof fn law_url_without_placeholder(base_url: Seq<char>, query: Seq<u8>)
    requires
        !is_substring("%s"@, base_url),
    ensures
        search_url_of(base_url, query) == base_url,
    decreases base_url.len(),
{
    reveal_strlit("%s");
    let enc = fragment_encoded(query);
    if base_url.len() >= 2 {
        let pat = "%s"@;
        assert(pat.len() == 2);
        assert(base_url.subrange(0, 0int + pat.len()) != pat);
        assert(base_url.take(2) == base_url.subrange(0, 0int + pat.len()));
        let rest = base_url.drop_first();
        assert forall|i: int| 0 <= i && i + 2 <= rest.len() implies #[trigger] rest.subrange(i, i + 2) != "%s"@ by {
            assert(rest.subrange(i, i + 2) == base_url.subrange(i + 1, i + 1 + pat.len()));
        }
        law_url_without_placeholder(rest, query);
        assert(base_url == seq![base_url[0]] + rest);
    }
}

/// A base URL `before + "%s" + after`, where `before` holds no `%`, opens with the
/// encoded query in place of that `%s`.
pub proof fn law_url_substitutes_query(before: Seq<char>, after: Seq<char>, query: Seq<u8>)
    requires
        !before.contains('%'),
    ensures
        search_url_of(before + "%s"@ + after, query) == before + fragment_encoded(query)
            + search_url_of(after, query),
    decreases before.len(),
{
    reveal_strlit("%s");
    let base = before + "%s"@ + after;
    if before.len() == 0 {
        assert(base == "%s"@ + after);
        assert(base.take(2) == "%s"@);
        assert(base.skip(2) == after);
    } else {
        assert(base.take(2) != "%s"@) by {
            assert(base.take(2)[0] == before[0]);
        }
        assert(!before.drop_first().contains('%')) by {
            if before.drop_first().contains('%') {
                let k = choose|k: int| 0 <= k < before.drop_first().len() && before.drop_first()[k] == '%';
                assert(before[k + 1] == '%');
            }
        }
        law_url_substitutes_query(before.drop_first(), after, query);
        assert(base.drop_first() == before.drop_first() + "%s"@ + after);
        assert(base[0] == before[0]);
        assert(before == seq![before[0]] + before.drop_first());
    }
}

/// A web search is offered exactly for a non-empty query: one entry, whose title and
/// `meta` are the query, that opens the web search.
pub proof fn law_web_offers_one_search(query: Seq<char>)
    ensures
        query.len() == 0 ==> web_entries(query).len() == 0,
        query.len() > 0 ==> web_entries(query).len() == 1 && web_entries(query)[0].title == query
            && web_entries(query)[0].meta == query && web_entries(query)[0].enter
            == EnterAction::OpenWebSearch,
{
}

} // verus!
