use spyglass::applications::{AppConfig as ApplicationConfig, ApplicationsLens};
use spyglass::apps::{self, AppConfig, Apps};
use spyglass::calc::Calc;
use spyglass::clipboard::{self, truncate, Clipboard};
use spyglass::copy_tool::{first_started, probe_order, ClipboardTool};
use spyglass::dummy::{function, Dummy};
use spyglass::nerdfont::{self, build_glyphs, GlyphEntry, GlyphValue, NerdFont};
use spyglass::power::{self, Power};
use spyglass::process::{pid_of, ProcessTable, Procs};
use spyglass::web::{self, Web};
use spyglass::{Entry, EnterAction};

fn s(x: &str) -> String {
    x.to_string()
}

fn app(name: &str, icon: &str, command: &str) -> AppConfig {
    AppConfig { name: s(name), icon: s(icon), command: s(command) }
}

fn application(name: &str, description: &str) -> ApplicationConfig {
    ApplicationConfig {
        name: s(name),
        icon: s("i"),
        command: s("run"),
        description: s(description),
        context: Vec::new(),
    }
}

fn titles(entries: &[Entry]) -> Vec<String> {
    entries.iter().map(|e| e.title.clone()).collect()
}

#[test]
fn power_lists_three_actions_whatever_the_query() {
    let p = Power;
    assert_eq!(p.name(), "power");
    for q in ["", "reboot", "zzz"] {
        let r = p.search(s(q));
        assert_eq!(r.len(), 3);
        assert_eq!(r[0].id, "poweroff");
        assert_eq!(r[0].title, "Shutdown");
        assert_eq!(r[0].icon, "\u{23fb}");
        assert_eq!(r[0].meta, "poweroff");
        assert_eq!(r[1].id, "reboot");
        assert_eq!(r[1].title, "Reboot");
        assert_eq!(r[1].icon, "\u{f01e}");
        assert_eq!(r[2].id, "suspend");
        assert_eq!(r[2].title, "Suspend");
        assert_eq!(r[2].meta, "suspend");
        assert_eq!(r[2].icon, "\u{23fe}");
        assert!(r.iter().all(|e| e.enter == EnterAction::Systemctl));
    }
    let r = p.search(s(""));
    assert_eq!(power::systemctl_argv(&r[1]), vec![s("systemctl"), s("reboot")]);
}

#[test]
fn web_offers_a_search_for_a_non_empty_query() {
    let w = Web;
    assert_eq!(w.name(), "web");
    assert!(w.search(s("")).is_empty());
    let r = w.search(s("rust lang"));
    assert_eq!(r.len(), 1);
    assert_eq!(r[0].id, "web_search");
    assert_eq!(r[0].title, "rust lang");
    assert_eq!(r[0].meta, "rust lang");
    assert_eq!(r[0].icon, "\u{f0ac}");
    assert_eq!(r[0].enter, EnterAction::OpenWebSearch);
}

#[test]
fn web_url_substitutes_the_encoded_query() {
    assert_eq!(web::search_url("https://e.com/?q=%s", "a b"), "https://e.com/?q=a%20b");
    assert_eq!(web::search_url("https://e.com/?q=%s&r=%s", "x"), "https://e.com/?q=x&r=x");
    assert_eq!(web::search_url("https://e.com/", "x"), "https://e.com/");
    assert_eq!(web::search_url("%s", "\"<>`"), "%22%3C%3E%60");
    assert_eq!(web::search_url("%s", "é"), "%C3%A9");
    assert_eq!(web::search_url("%s", "a#b?c&d"), "a#b?c&d");
    assert_eq!(web::search_url("%%ss", "q"), "%qs");
    let e = Entry { id: s("web_search"), title: s("t"), icon: s(""), meta: s("hi there"), enter: EnterAction::OpenWebSearch };
    assert_eq!(web::open_argv("http://s/%s", &e), vec![s("xdg-open"), s("http://s/hi%20there")]);
    assert_eq!(web::config_file("/home/u/.config"), "/home/u/.config/spyglass/web/config.toml");
    assert_eq!(web::config_dir("/c"), "/c/spyglass/web");
}

#[test]
fn dummy_numbers_the_bytes_of_the_query() {
    let d = Dummy;
    assert_eq!(d.name(), "dummy");
    assert!(d.search("").is_empty());
    let r = d.search("abc");
    assert_eq!(r.len(), 3);
    assert_eq!(r[0].id, "entry no.1");
    assert_eq!(r[2].title, "entry no. 3");
    assert_eq!(r[1].icon, "");
    assert_eq!(r[1].enter, EnterAction::Nothing);
    assert_eq!(d.search("é").len(), 2);
    let long = "x".repeat(12);
    assert_eq!(d.search(&long)[11].id, "entry no.12");
    function();
}

#[test]
fn calc_shows_the_value_of_a_non_empty_query() {
    let c = Calc;
    assert_eq!(c.name(), "calc");
    assert!(c.search(s(""), s("0")).is_empty());
    let r = c.search(s("1+1"), s("2"));
    assert_eq!(r.len(), 1);
    assert_eq!(r[0].id, "calc_result");
    assert_eq!(r[0].title, "2");
    assert_eq!(r[0].meta, "2");
    assert_eq!(r[0].icon, "\u{f1ec}");
    assert_eq!(r[0].enter, EnterAction::CopyIcon);
}

fn table(list: &[(u32, &str)]) -> ProcessTable {
    let mut t = ProcessTable::new();
    for (pid, name) in list {
        t.insert(*pid, s(name));
    }
    t
}

fn procs(n: u32) -> ProcessTable {
    let mut t = ProcessTable::new();
    for i in 0..n {
        t.insert(1000 + i, format!("Proc{}", i));
    }
    t
}

#[test]
fn process_search_filters_by_lower_cased_name() {
    let p = Procs;
    assert_eq!(p.name(), "process");
    let list = table(&[(1, "Firefox"), (42, "bash"), (7, "FIREWALLD")]);
    let r = p.search(&list, s("fire"));
    assert_eq!(titles(&r), vec![s("1Firefox"), s("7FIREWALLD")]);
    assert_eq!(r[0].id, "1");
    assert_eq!(r[1].meta, "7");
    assert_eq!(r[0].icon, "\u{f013}");
    assert_eq!(r[0].enter, EnterAction::Kill);
    // The query itself is not lower-cased.
    assert!(p.search(&list, s("Fire")).is_empty());
}

#[test]
fn process_empty_query_is_capped_at_fifty() {
    let p = Procs;
    let list = procs(60);
    assert_eq!(p.search(&list, s("")).len(), 50);
    assert_eq!(p.search(&list, s("proc")).len(), 60);
    assert_eq!(p.search(&procs(3), s("")).len(), 3);
}

#[test]
fn process_entries_kill_their_process() {
    let p = Procs;
    let list = table(&[(4294967295, "init"), (0, "idle")]);
    let found: Vec<u32> = p.search(&list, s("i")).iter().map(|e| pid_of(e).unwrap()).collect();
    assert_eq!(found, vec![4294967295, 0]);
    let mk = |m: &str| Entry { id: s(""), title: s(""), icon: s(""), meta: s(m), enter: EnterAction::Kill };
    assert_eq!(pid_of(&mk("+12")), Some(12));
    assert_eq!(pid_of(&mk("007")), Some(7));
    assert_eq!(pid_of(&mk("-1")), None);
    assert_eq!(pid_of(&mk("")), None);
    assert_eq!(pid_of(&mk("+")), None);
    assert_eq!(pid_of(&mk("4294967296")), None);
    assert_eq!(pid_of(&mk("12a")), None);
    let ids: Vec<String> = p.search(&procs(60), s("proc")).iter().map(|e| e.id.clone()).collect();
    let mut unique = ids.clone();
    unique.sort();
    unique.dedup();
    assert_eq!(unique.len(), ids.len());
}

#[test]
fn process_table_keeps_one_name_per_id() {
    let p = Procs;
    let t = table(&[(5, "old"), (6, "other"), (5, "new")]);
    let titles: Vec<String> = p.search(&t, s("")).iter().map(|e| e.title.clone()).collect();
    assert_eq!(titles, vec![s("5new"), s("6other")]);
}

#[test]
fn apps_search_ignores_case() {
    let a = Apps;
    assert_eq!(a.name(), "apps");
    let list = vec![app("LibreOffice", "L", "libreoffice & sleep 5"), app("Firefox", "F", "firefox")];
    let r = a.search(&list, s("OFFICE"));
    assert_eq!(r.len(), 1);
    assert_eq!(r[0].id, "LibreOffice");
    assert_eq!(r[0].title, "LibreOffice");
    assert_eq!(r[0].icon, "L");
    assert_eq!(r[0].meta, "libreoffice & sleep 5");
    assert_eq!(r[0].enter, EnterAction::Launch);
    assert_eq!(titles(&a.search(&list, s(""))), vec![s("LibreOffice"), s("Firefox")]);
    assert!(a.search(&list, s("chrome")).is_empty());
    assert_eq!(apps::launch_argv(&r[0]), vec![s("sh"), s("-c"), s("libreoffice & sleep 5")]);
}

#[test]
fn apps_config_files_are_toml() {
    assert!(apps::is_config_file("firefox.toml"));
    assert!(apps::is_config_file("a.b.toml"));
    assert!(!apps::is_config_file(".toml"));
    assert!(!apps::is_config_file("firefox.tom"));
    assert!(!apps::is_config_file("firefox.TOML"));
    assert!(!apps::is_config_file("toml"));
    assert_eq!(apps::config_dir("/home/u/.config"), "/home/u/.config/spyglass/applications/");
}

#[test]
fn applications_match_fuzzily() {
    let mut lens = ApplicationsLens::new();
    assert!(lens.apps.is_empty());
    lens.load(vec![application("LibreOffice", "office suite"), application("Firefox", "browser")]);
    lens.load(vec![application("Files", "file manager")]);
    assert_eq!(lens.apps.len(), 3);
    assert_eq!(lens.name(), "Applications");
    let r = lens.search("lbo");
    assert_eq!(r.len(), 1);
    assert_eq!(r[0].id, "LibreOffice");
    assert_eq!(r[0].title, "LibreOffice");
    assert_eq!(r[0].description, "office suite");
    let fi: Vec<String> = lens.search("fi").iter().map(|e| e.title.clone()).collect();
    assert_eq!(fi, vec![s("LibreOffice"), s("Firefox"), s("Files")]);
    let fir: Vec<String> = lens.search("fir").iter().map(|e| e.title.clone()).collect();
    assert_eq!(fir, vec![s("Firefox")]);
    // A capital in the pattern makes the match case-sensitive.
    assert_eq!(lens.search("FI").len(), 0);
    assert_eq!(lens.search("LO").len(), 1);
    assert_eq!(lens.search("").len(), 3);
    assert!(lens.search("xyz").is_empty());
    assert_eq!(spyglass::applications::config_dir("/home/u"), "/home/u/.config/spyglass/applications");
}

#[test]
fn clipboard_titles_are_truncated() {
    assert_eq!(truncate(&s("short")), "short");
    let twenty = "a".repeat(20);
    assert_eq!(truncate(&twenty), twenty);
    let long = "abcdefghijklmnopqrstuvwxyz";
    assert_eq!(truncate(&s(long)), "abcdefghijklmnopqrst...");
    let wide = "é".repeat(25);
    assert_eq!(truncate(&wide), format!("{}...", "é".repeat(20)));
}

#[test]
fn clipboard_search_reads_the_second_field() {
    let c = Clipboard;
    assert_eq!(c.name(), "clipboard");
    let listing = b"1\tHello World\n2\tbye\textra\r\n3\tA long clipboard entry text\n";
    let r = c.search(listing, s(""));
    assert_eq!(r.len(), 3);
    assert_eq!(r[0].id, "Hello World");
    assert_eq!(r[0].meta, "Hello World");
    assert_eq!(r[1].id, "bye");
    assert_eq!(r[2].title, "A long clipboard ent...");
    assert_eq!(r[2].icon, "\u{ed7b}");
    assert_eq!(r[2].enter, EnterAction::CopyMeta);
    let r = c.search(listing, s("world"));
    assert_eq!(titles(&r), vec![s("Hello World")]);
    assert!(c.search(listing, s("World")).is_empty());
    assert!(clipboard::listing_is_complete(listing));
    assert_eq!(titles(&c.checked_search(listing, s("bye")).unwrap()), vec![s("bye")]);
    assert!(c.checked_search(b"1\tok\nno tab here\n", s("")).is_none());
    assert!(!clipboard::listing_is_complete(b"1\tok\nno tab here\n"));
    assert_eq!(c.search(b"", s("")).len(), 0);
    let r = c.search(b"9\tbad\xffbyte\n", s(""));
    assert_eq!(r[0].id, "bad\u{fffd}byte");
    let r = c.search(b"1\t\n", s(""));
    assert_eq!(r[0].id, "");
    assert_eq!(clipboard::copy_argv(&r[0]), vec![s("wl-copy"), s("")]);
}

fn glyph(name: &str) -> GlyphEntry {
    GlyphEntry { name: s(name), char: s("*"), code: s("f000") }
}

#[test]
fn nerdfont_search_shows_at_most_fifty() {
    let nf = NerdFont::new();
    assert_eq!(nf.name(), "nerdfont");
    let glyphs: Vec<GlyphEntry> = (0..60).map(|i| glyph(&format!("nf-md-icon{}", i))).collect();
    assert_eq!(nf.search(&glyphs, s("")).len(), 50);
    assert_eq!(nf.search(&glyphs, s("ICON5")).len(), 11);
    let r = nf.search(&glyphs, s("icon59"));
    assert_eq!(r.len(), 1);
    assert_eq!(r[0].id, "nf-md-icon59");
    assert_eq!(r[0].icon, "*");
    assert_eq!(r[0].meta, "f000");
    assert_eq!(r[0].enter, EnterAction::CopyIcon);
    assert!(nf.search(&glyphs, s("zzz")).is_empty());
    let upper: Vec<String> = nf.search(&glyphs, s("NF-MD-ICON1")).iter().map(|e| e.id.clone()).collect();
    let lower: Vec<String> = nf.search(&glyphs, s("nf-md-icon1")).iter().map(|e| e.id.clone()).collect();
    assert_eq!(upper, lower);
    assert_eq!(upper.len(), 11);
    assert_eq!(nerdfont::glyphs_path("/c"), "/c/spyglass/nerdfont/glyphnames.json");
    assert_eq!(nerdfont::glyphs_dir("/c"), "/c/spyglass/nerdfont");
}

#[test]
fn nerdfont_glyphs_need_a_glyph_and_get_lower_case_names() {
    let values = vec![
        GlyphValue { name: s("NF-Fa-Home"), char: s("\u{f015}"), code: s("f015") },
        GlyphValue { name: s("nf-empty"), char: s(""), code: s("0") },
        GlyphValue { name: s("nf-x"), char: s("x"), code: s("78") },
    ];
    let g = build_glyphs(values);
    assert_eq!(g.len(), 2);
    assert_eq!(g[0].name, "nf-fa-home");
    assert_eq!(g[0].char, "\u{f015}");
    assert_eq!(g[0].code, "f015");
    assert_eq!(g[1].name, "nf-x");
}

#[test]
fn clipboard_tools_are_tried_in_order() {
    assert_eq!(probe_order(), vec![ClipboardTool::WlCopy, ClipboardTool::Xclip, ClipboardTool::Pbcopy]);
    assert_eq!(ClipboardTool::WlCopy.argv(), vec![s("wl-copy")]);
    assert_eq!(ClipboardTool::Xclip.argv(), vec![s("xclip"), s("-selection"), s("clipboard")]);
    assert_eq!(ClipboardTool::Pbcopy.argv(), vec![s("pbcopy")]);
    assert_eq!(first_started(&vec![true]), Some(ClipboardTool::WlCopy));
    assert_eq!(first_started(&vec![false, true]), Some(ClipboardTool::Xclip));
    assert_eq!(first_started(&vec![false, false, true]), Some(ClipboardTool::Pbcopy));
    assert_eq!(first_started(&vec![false, false, false]), None);
    assert_eq!(first_started(&vec![]), None);
}
