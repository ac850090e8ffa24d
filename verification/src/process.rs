//! The process lens: lists running processes by name; picking one kills it.

use vstd::prelude::*;
use crate::{entry_model, Entry, EnterAction, EntryModel};
use vstd::utf8::is_ascii_chars;
use crate::text::{
    ascii_lowered, lemma_filter_map_empty, lemma_filter_map_keeps, lemma_filter_map_last,
    lowers_as_ascii,
    concatenated, contains, decimal, decimal_string, is_substring, law_decimal_parse_roundtrip,
    lemma_decimal_digits, lemma_empty_is_substring, lowercase, owned, parse_u32, parsed_u32, to_lowercase,
};

verus! {

/// The lens that lists running processes.
pub struct Procs;

/// A running process: its id and its name.
pub struct Process {
    pub pid: u32,
    pub name: String,
}

/// The running processes, keyed by id: no two share an id.
pub struct ProcessTable {
    procs: Vec<Process>,
}

impl View for ProcessTable {
    type V = Seq<Process>;

    /// The processes, in the order they were first inserted.
    closed spec fn view(&self) -> Seq<Process> {
        self.procs@
    }
}

/// `procs` with `p` inserted: it replaces the process with the same id, if there is one,
/// and otherwise comes last.
pub open spec fn inserted(procs: Seq<Process>, p: Process) -> Seq<Process> {
    if exists|i: int| 0 <= i < procs.len() && #[trigger] procs[i].pid == p.pid {
        procs.update(choose|i: int| 0 <= i < procs.len() && #[trigger] procs[i].pid == p.pid, p)
    } else {
        procs.push(p)
    }
}

impl ProcessTable {
    #[verifier::type_invariant]
    spec fn ids_are_distinct(self) -> bool {
        distinct_pids(self.procs@)
    }

    /// An empty table.
    pub fn new() -> (r: Self)
        ensures
            r@ == Seq::<Process>::empty(),
    {
        ProcessTable { procs: Vec::new() }
    }

    /// Records the process `pid` under `name`, replacing any process with that id.
    pub fn insert(&mut self, pid: u32, name: String)
        ensures
            final(self)@ == inserted(old(self)@, Process { pid, name }),
            distinct_pids(final(self)@),
    {
        proof {
            use_type_invariant(&*self);
        }
        let ghost start = self.procs@;
        let mut procs: Vec<Process> = Vec::new();
        std::mem::swap(&mut procs, &mut self.procs);
        let n = procs.len();
        let mut i: usize = 0;
        while i < n && procs[i].pid != pid
            invariant
                procs@ == start,
                n == start.len(),
                i <= n,
                forall|j: int| 0 <= j < i ==> start[j].pid != pid,
            decreases n - i,
        {
            i = i + 1;
        }
        let ghost p = Process { pid, name };
        if i < n {
            assert(start[i as int].pid == pid);
            procs.set(i, Process { pid, name });
            proof {
                let k = choose|k: int| 0 <= k < start.len() && #[trigger] start[k].pid == pid;
                assert(k == i as int) by {
                    if k != i as int {
                        if k < i {
                            assert(start[k].pid != pid);
                        } else {
                            assert(start[i as int].pid != start[k].pid);
                        }
                    }
                }
                assert forall|a: int, b: int| 0 <= a < b < procs@.len() implies #[trigger] procs@[a].pid
                    != #[trigger] procs@[b].pid by {
                    if a == i as int {
                        assert(start[b].pid != start[a].pid);
                    } else if b == i as int {
                        assert(start[a].pid != start[b].pid);
                    } else {
                        assert(start[a].pid != start[b].pid);
                    }
                }
            }
        } else {
            procs.push(Process { pid, name });
            proof {
                assert forall|a: int, b: int| 0 <= a < b < procs@.len() implies #[trigger] procs@[a].pid
                    != #[trigger] procs@[b].pid by {
                    if b == n as int {
                        assert(start[a].pid != pid);
                    } else {
                        assert(start[a].pid != start[b].pid);
                    }
                }
            }
        }
        self.procs = procs;
    }
}

/// The most entries an empty query lists.
pub const EMPTY_QUERY_LIMIT: usize = 50;

/// The entry for a process: its id, titled by id and name, killing the process when picked.
pub open spec fn process_entry(p: Process) -> EntryModel {
    entry_model(
        decimal(p.pid as nat),
        decimal(p.pid as nat) + p.name@,
        "\u{f013}"@,
        decimal(p.pid as nat),
        EnterAction::Kill,
    )
}

/// The entries for the processes whose lower-cased name contains `query`, in order.
pub open spec fn process_matches(procs: Seq<Process>, query: Seq<char>) -> Seq<EntryModel>
    decreases procs.len(),
{
    if procs.len() == 0 {
        seq![]
    } else {
        let rest = process_matches(procs.drop_last(), query);
        if is_substring(query, lowercase(procs.last().name@)) {
            rest.push(process_entry(procs.last()))
        } else {
            rest
        }
    }
}

/// The entries for the processes whose ASCII-lower-cased name contains `query`, in order:
/// what `process_matches` is for processes with ASCII names.
pub open spec fn process_matches_ascii(procs: Seq<Process>, query: Seq<char>) -> Seq<EntryModel>
    decreases procs.len(),
{
    if procs.len() == 0 {
        seq![]
    } else {
        let rest = process_matches_ascii(procs.drop_last(), query);
        if is_substring(query, ascii_lowered(procs.last().name@)) {
            rest.push(process_entry(procs.last()))
        } else {
            rest
        }
    }
}

/// `process_entries` for processes with ASCII names.
pub open spec fn process_entries_ascii(procs: Seq<Process>, query: Seq<char>) -> Seq<EntryModel> {
    let m = process_matches_ascii(procs, query);
    if query.len() == 0 && m.len() > EMPTY_QUERY_LIMIT {
        m.take(EMPTY_QUERY_LIMIT as int)
    } else {
        m
    }
}

/// Every process's name is ASCII.
pub open spec fn ascii_process_names(procs: Seq<Process>) -> bool {
    forall|i: int| 0 <= i < procs.len() ==> is_ascii_chars(#[trigger] procs[i].name@)
}

/// Where lower-casing each name gives its ASCII lowercase, the two match lists agree.
proof fn lemma_process_matches_ascii(procs: Seq<Process>, query: Seq<char>)
    requires
        forall|i: int| 0 <= i < procs.len() ==> lowercase(#[trigger] procs[i].name@) == ascii_lowered(
            procs[i].name@,
        ),
    ensures
        process_matches(procs, query) == process_matches_ascii(procs, query),
    decreases procs.len(),
{
    if procs.len() > 0 {
        let init = procs.drop_last();
        assert forall|i: int| 0 <= i < init.len() implies lowercase(#[trigger] init[i].name@)
            == ascii_lowered(init[i].name@) by {
            assert(init[i] == procs[i]);
        }
        lemma_process_matches_ascii(init, query);
        assert(procs.last() == procs[procs.len() - 1]);
    }
}

/// The entries of the process lens: all matches, but only the first fifty when the query
/// is empty.
pub open spec fn process_entries(procs: Seq<Process>, query: Seq<char>) -> Seq<EntryModel> {
    let m = process_matches(procs, query);
    if query.len() == 0 && m.len() > EMPTY_QUERY_LIMIT {
        m.take(EMPTY_QUERY_LIMIT as int)
    } else {
        m
    }
}

impl Procs {
    /// The lens's name, shown in the tab bar and used as a query prefix.
    pub fn name(&self) -> (r: String)
        ensures
            r@ == "process"@,
    {
        owned("process")
    }

    /// The entries for the processes of `table` (a snapshot of the running processes)
    /// whose lower-cased name contains `query`. No two of them share an id.
    pub fn search(&self, table: &ProcessTable, query: String) -> (r: Vec<Entry>)
        ensures
            r.deep_view() == process_entries(table@, query@),
            distinct_ids(r.deep_view()),
            ascii_process_names(table@) ==> r.deep_view() == process_entries_ascii(table@, query@),
    {
        proof {
            use_type_invariant(table);
            law_distinct_pids_give_distinct_ids(table@, query@);
        }
        let procs = &table.procs;
        let mut r: Vec<Entry> = Vec::new();
        let n = procs.len();
        for i in 0..n
            invariant
                n == procs@.len(),
                procs@ == table@,
                r.deep_view() == process_matches(procs@.take(i as int), query@),
                forall|j: int| 0 <= j < i ==> lowers_as_ascii(#[trigger] procs@[j].name@),
        {
            let p = &procs[i];
            assert(procs@.take(i + 1).drop_last() == procs@.take(i as int));
            assert(procs@.take(i + 1).last() == procs@[i as int]);
            let lower = to_lowercase(p.name.as_str());
            assert(lowers_as_ascii(p.name@));
            if contains(lower.as_str(), query.as_str()) {
                let id = decimal_string(p.pid as u64);
                let ghost before = r.deep_view();
                r.push(
                    Entry {
                        id: id.clone(),
                        title: concatenated(id.as_str(), p.name.as_str()),
                        icon: owned("\u{f013}"),
                        meta: id,
                        enter: EnterAction::Kill,
                    },
                );
                assert(r.deep_view() =~= before.push(process_entry(procs@[i as int])));
            }
        }
        assert(procs@.take(n as int) == procs@);
        proof {
            if ascii_process_names(table@) {
                assert forall|i: int| 0 <= i < procs@.len() implies lowercase(
                    #[trigger] procs@[i].name@,
                ) == ascii_lowered(procs@[i].name@) by {
                    assert(lowers_as_ascii(procs@[i].name@));
                }
                lemma_process_matches_ascii(procs@, query@);
            }
        }
        if query.as_str().is_empty() {
            r.truncate(EMPTY_QUERY_LIMIT);
            assert(r.deep_view() =~= process_entries(table@, query@));
        }
        r
    }
}

/// The id of the process that a process entry kills, read from its `meta` as `u32`.
pub fn pid_of(entry: &Entry) -> (r: Option<u32>)
    ensures
        r == parsed_u32(entry.meta@),
{
    parse_u32(entry.meta.as_str())
}

/// Each entry of the process lens kills one of the listed processes.
proof fn lemma_matches_listed(procs: Seq<Process>, query: Seq<char>, k: int)
    requires
        0 <= k < process_matches(procs, query).len(),
    ensures
        exists|j: int|
            0 <= j < procs.len() && process_matches(procs, query)[k] == process_entry(
                #[trigger] procs[j],
            ),
    decreases procs.len(),
{
    let rest = process_matches(procs.drop_last(), query);
    if k < rest.len() {
        lemma_matches_listed(procs.drop_last(), query, k);
        let j = choose|j: int|
            0 <= j < procs.drop_last().len() && rest[k] == process_entry(
                #[trigger] procs.drop_last()[j],
            );
        assert(procs[j] == procs.drop_last()[j]);
    } else {
        assert(procs[procs.len() - 1] == procs.last());
    }
}

/// Picking an entry of the process lens kills a process of the snapshot it was listed
/// from: its `meta` reads back as that process's id.
pub proof fn law_entry_kills_listed_process(procs: Seq<Process>, query: Seq<char>, k: int)
    requires
        0 <= k < process_entries(procs, query).len(),
    ensures
        exists|j: int|
            0 <= j < procs.len() && parsed_u32(process_entries(procs, query)[k].meta)
                == Some(#[trigger] procs[j].pid),
{
    let m = process_matches(procs, query);
    assert(process_entries(procs, query)[k] == m[k]);
    lemma_matches_listed(procs, query, k);
    let j = choose|j: int| 0 <= j < procs.len() && m[k] == process_entry(#[trigger] procs[j]);
    law_decimal_parse_roundtrip(procs[j].pid);
}

/// An empty query lists at most fifty processes; any other query lists every match.
pub proof fn law_empty_query_is_capped(procs: Seq<Process>, query: Seq<char>)
    ensures
        query.len() == 0 ==> process_entries(procs, query).len() <= EMPTY_QUERY_LIMIT,
        query.len() > 0 ==> process_entries(procs, query) == process_matches(procs, query),
{
}

/// An empty query matches every process, in order (of which the lens shows fifty).
pub proof fn law_empty_query_matches_all_processes(procs: Seq<Process>)
    ensures
        process_matches(procs, seq![]) == procs.map_values(|p: Process| process_entry(p)),
    decreases procs.len(),
{
    if procs.len() > 0 {
        law_empty_query_matches_all_processes(procs.drop_last());
        lemma_empty_is_substring(lowercase(procs.last().name@));
        assert(procs.map_values(|p: Process| process_entry(p)) =~= procs.drop_last().map_values(
            |p: Process| process_entry(p),
        ).push(process_entry(procs.last())));
    } else {
        assert(procs.map_values(|p: Process| process_entry(p)) =~= Seq::<EntryModel>::empty());
    }
}

/// No two of the processes share an id (as in the system's process table).
pub open spec fn distinct_pids(procs: Seq<Process>) -> bool {
    forall|i: int, j: int| 0 <= i < j < procs.len() ==> #[trigger] procs[i].pid != #[trigger] procs[j].pid
}

/// No two of the entries share an id.
pub open spec fn distinct_ids(entries: Seq<EntryModel>) -> bool {
    forall|a: int, b: int| 0 <= a < b < entries.len() ==> #[trigger] entries[a].id != #[trigger] entries[b].id
}

/// Different numbers have different numerals.
proof fn lemma_decimal_injective(n: nat, m: nat)
    requires
        n != m,
    ensures
        decimal(n) != decimal(m),
{
    lemma_decimal_digits(n);
    lemma_decimal_digits(m);
}

/// The matches of processes with distinct ids have distinct ids.
proof fn lemma_matches_distinct(procs: Seq<Process>, query: Seq<char>)
    requires
        distinct_pids(procs),
    ensures
        distinct_ids(process_matches(procs, query)),
    decreases procs.len(),
{
    if procs.len() > 0 {
        let init = procs.drop_last();
        assert(distinct_pids(init)) by {
            assert forall|i: int, j: int| 0 <= i < j < init.len() implies #[trigger] init[i].pid
                != #[trigger] init[j].pid by {
                assert(init[i] == procs[i] && init[j] == procs[j]);
            }
        }
        lemma_matches_distinct(init, query);
        let rest = process_matches(init, query);
        let m = process_matches(procs, query);
        if m != rest {
            assert forall|a: int, b: int| 0 <= a < b < m.len() implies #[trigger] m[a].id
                != #[trigger] m[b].id by {
                if b < rest.len() {
                    assert(m[a] == rest[a] && m[b] == rest[b]);
                } else {
                    assert(m[a] == rest[a]);
                    lemma_matches_listed(init, query, a);
                    let j = choose|j: int|
                        0 <= j < init.len() && rest[a] == process_entry(#[trigger] init[j]);
                    assert(init[j] == procs[j]);
                    assert(procs[j].pid != procs[procs.len() - 1].pid);
                    lemma_decimal_injective(procs[j].pid as nat, procs.last().pid as nat);
                }
            }
        }
    }
}

/// When the listed processes have distinct ids, so do the entries of any search.
pub proof fn law_distinct_pids_give_distinct_ids(procs: Seq<Process>, query: Seq<char>)
    requires
        distinct_pids(procs),
    ensures
        distinct_ids(process_entries(procs, query)),
{
    lemma_matches_distinct(procs, query);
    let m = process_matches(procs, query);
    let e = process_entries(procs, query);
    assert forall|a: int, b: int| 0 <= a < b < e.len() implies #[trigger] e[a].id != #[trigger] e[b].id by {
        assert(e[a] == m[a] && e[b] == m[b]);
    }
}

/// The process lens lists exactly the processes whose lower-cased name contains the query
/// anywhere, each once, in table order: filtering the processes by that test and taking
/// each one's entry gives the matches. For a non-empty query every match is listed; for an
/// empty one (which every process matches) the first fifty are.
pub proof fn law_procs_lists_exactly_the_matches(procs: Seq<Process>, query: Seq<char>)
    ensures
        process_matches(procs, query) == procs.filter(
            |p: Process| is_substring(query, lowercase(p.name@)),
        ).map_values(|p: Process| process_entry(p)),
        process_matches_ascii(procs, query) == procs.filter(
            |p: Process| is_substring(query, ascii_lowered(p.name@)),
        ).map_values(|p: Process| process_entry(p)),
        query.len() > 0 ==> process_entries(procs, query) == process_matches(procs, query),
        query.len() == 0 ==> process_entries(procs, query) == process_matches(procs, query).take(
            if process_matches(procs, query).len() > EMPTY_QUERY_LIMIT {
                EMPTY_QUERY_LIMIT as int
            } else {
                process_matches(procs, query).len() as int
            },
        ),
        forall|i: int|
            0 <= i < procs.len() && query.len() > 0 && is_substring(query, lowercase(procs[i].name@))
                ==> process_entries(procs, query).contains(process_entry(#[trigger] procs[i])),
    decreases procs.len(),
{
    let keep = |p: Process| is_substring(query, lowercase(p.name@));
    let keep_ascii = |p: Process| is_substring(query, ascii_lowered(p.name@));
    let f = |p: Process| process_entry(p);
    if procs.len() == 0 {
        lemma_filter_map_empty(procs, keep, f);
        lemma_filter_map_empty(procs, keep_ascii, f);
    } else {
        law_procs_lists_exactly_the_matches(procs.drop_last(), query);
        lemma_filter_map_last(procs, keep, f);
        lemma_filter_map_last(procs, keep_ascii, f);
    }
    let m = process_matches(procs, query);
    assert(m.take(m.len() as int) == m);
    assert forall|i: int|
        0 <= i < procs.len() && query.len() > 0 && is_substring(query, lowercase(procs[i].name@))
            implies process_entries(procs, query).contains(process_entry(#[trigger] procs[i])) by {
        lemma_filter_map_keeps(procs, keep, f, i);
    }
}

} // verus!
