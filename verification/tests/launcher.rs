use spyglass::launcher::{
    collect_results, join, key_action, normalize_query, plan_search, Key, KeyAction,
};
use spyglass::{Entry, EnterAction};

fn s(x: &str) -> String {
    x.to_string()
}

#[test]
fn query_is_joined_trimmed_and_lower_cased() {
    assert_eq!(normalize_query(&vec![s("Fire"), s("Fox  ")]), "fire fox");
    assert_eq!(normalize_query(&vec![]), "");
    assert_eq!(normalize_query(&vec![s("  A\t")]), "  a");
    assert_eq!(normalize_query(&vec![s("ÀbC"), s("ÉTÉ ")]), "àbc été");
    assert_eq!(join(&vec![s("a"), s("b"), s("c")], ", "), "a, b, c");
}

#[test]
fn a_hash_names_the_lens_to_ask() {
    let p = plan_search("apps#  fire fox ");
    assert_eq!(p.lens, Some(s("apps")));
    assert_eq!(p.query, "fire fox");
    assert!(p.asks(&s("apps")));
    assert!(!p.asks(&s("web")));
    let p = plan_search("a#b#c");
    assert_eq!(p.lens, Some(s("a")));
    assert_eq!(p.query, "b");
    let p = plan_search("#x");
    assert_eq!(p.lens, Some(s("")));
    assert_eq!(p.query, "x");
}

#[test]
fn a_plain_query_asks_every_lens() {
    let p = plan_search("  hello\u{3000}");
    assert_eq!(p.lens, None);
    assert_eq!(p.query, "hello");
    assert!(p.asks(&s("power")));
    assert!(p.asks(&s("")));
}

#[test]
fn keys_decide_the_next_step() {
    assert_eq!(key_action(Key::Esc, Some(0), 3), KeyAction::Quit);
    assert_eq!(key_action(Key::Up, Some(0), 3), KeyAction::SelectPrevious);
    assert_eq!(key_action(Key::Down, None, 0), KeyAction::SelectNext);
    assert_eq!(key_action(Key::Enter, Some(2), 3), KeyAction::Activate(2));
    assert_eq!(key_action(Key::Enter, Some(3), 3), KeyAction::Stay);
    assert_eq!(key_action(Key::Enter, None, 3), KeyAction::Stay);
    assert_eq!(key_action(Key::Other, Some(1), 3), KeyAction::Edit);
}

fn entry(id: &str) -> Entry {
    Entry { id: s(id), title: s(id), icon: s(""), meta: s(id), enter: EnterAction::Nothing }
}

#[test]
fn results_come_in_lens_order() {
    let searched = vec![
        (s("apps"), vec![entry("a1"), entry("a2")]),
        (s("power"), vec![]),
        (s("web"), vec![entry("w1")]),
    ];
    let r = collect_results(&searched);
    let got: Vec<(String, String)> = r.iter().map(|x| (x.lens_name.clone(), x.entry.id.clone())).collect();
    assert_eq!(got, vec![(s("apps"), s("a1")), (s("apps"), s("a2")), (s("web"), s("w1"))]);
    assert!(collect_results(&vec![]).is_empty());
}
