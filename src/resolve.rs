use vstd::prelude::*;
use crate::slide::Failure;

verus! {

/// One live process as the process listing reports it: its id, and its name
/// where the name could be read.
pub struct ProcessEntry {
    pub pid: u32,
    pub name: Option<String>,
}

/// The process carries exactly the queried name (case-sensitive, whole name).
pub open spec fn entry_matches(entry: ProcessEntry, query: Seq<char>) -> bool {
    entry.name is Some && entry.name->0@ == query
}

/// The test of an entry against the queried name.
pub open spec fn matcher(query: Seq<char>) -> spec_fn(ProcessEntry) -> bool {
    |e: ProcessEntry| entry_matches(e, query)
}

/// The id of an entry.
pub open spec fn pid_of() -> spec_fn(ProcessEntry) -> u32 {
    |e: ProcessEntry| e.pid
}

/// The entries of a listing that carry the queried name, in listing order.
pub open spec fn matching_entries(entries: Seq<ProcessEntry>, query: Seq<char>) -> Seq<ProcessEntry> {
    entries.filter(matcher(query))
}

/// The ids of the entries that carry the queried name, in listing order.
pub open spec fn matching_pids(entries: Seq<ProcessEntry>, query: Seq<char>) -> Seq<u32> {
    matching_entries(entries, query).map_values(pid_of())
}

/// Some entry of the listing with id `pid` carries the queried name.
pub open spec fn pid_matches(entries: Seq<ProcessEntry>, query: Seq<char>, pid: u32) -> bool {
    exists|i: int| 0 <= i < entries.len() && entry_matches(entries[i], query) && entries[i].pid == pid
}

/// No two entries of the listing share an id, as holds of a listing of live processes.
pub open spec fn pids_distinct(entries: Seq<ProcessEntry>) -> bool {
    forall|i: int, j: int|
        0 <= i < entries.len() && 0 <= j < entries.len() && i != j ==> entries[i].pid != entries[j].pid
}

fn contains_pid(pids: &Vec<u32>, pid: u32) -> (r: bool)
    ensures
        r == pids@.contains(pid),
{
    let mut i: usize = 0;
    while i < pids.len()
        invariant
            0 <= i <= pids.len(),
            forall|k: int| 0 <= k < i ==> pids@[k] != pid,
        decreases pids.len() - i,
    {
        if pids[i] == pid {
            return true;
        }
        i = i + 1;
    }
    false
}

fn name_matches(entry: &ProcessEntry, query: &String) -> (r: bool)
    ensures
        r == entry_matches(*entry, query@),
{
    match &entry.name {
        Some(n) => n.eq(query),
        None => false,
    }
}

/// The distinct ids of the processes whose name is exactly `query`, each once,
/// in the order of their first entry in the listing.
pub fn matching_pids_of(entries: &Vec<ProcessEntry>, query: &String) -> (r: Vec<u32>)
    ensures
        r@.no_duplicates(),
        forall|pid: u32| r@.contains(pid) <==> pid_matches(entries@, query@, pid),
        pids_distinct(entries@) ==> r@ == matching_pids(entries@, query@),
{
    let mut r: Vec<u32> = Vec::new();
    let mut i: usize = 0;
    while i < entries.len()
        invariant
            0 <= i <= entries.len(),
            r@.no_duplicates(),
            forall|pid: u32|
                r@.contains(pid) <==> pid_matches(entries@.take(i as int), query@, pid),
            pids_distinct(entries@) ==> r@ == matching_pids(entries@.take(i as int), query@),
        decreases entries.len() - i,
    {
        let ghost prev = entries@.take(i as int);
        let ghost next = entries@.take(i + 1);
        proof {
            reveal(Seq::filter);
        }
        assert(next.drop_last() == prev);
        assert(next.last() == entries@[i as int]);
        let pid = entries[i].pid;
        let ghost r_prev = r@;
        let matched = name_matches(&entries[i], query);
        if matched {
            assert(matching_entries(next, query@) == matching_entries(prev, query@).push(
                entries@[i as int],
            ));
            assert(matching_pids(next, query@) =~= matching_pids(prev, query@).push(pid));
            if !contains_pid(&r, pid) {
                r.push(pid);
            } else {
                proof {
                    if pids_distinct(entries@) {
                        let k = choose|k: int|
                            0 <= k < prev.len() && entry_matches(prev[k], query@) && prev[k].pid == pid;
                        assert(entries@[k] == prev[k]);
                    }
                }
            }
        } else {
            assert(matching_entries(next, query@) == matching_entries(prev, query@));
        }
        assert forall|p: u32| r@.contains(p) <==> pid_matches(next, query@, p) by {
            if r@.contains(p) && !r_prev.contains(p) {
                let k = choose|k: int| 0 <= k < r@.len() && r@[k] == p;
                if k < r_prev.len() {
                    assert(r_prev[k] == p);
                }
                assert(entry_matches(next[i as int], query@) && next[i as int].pid == p);
            }
            if r_prev.contains(p) {
                let k = choose|k: int| 0 <= k < r_prev.len() && r_prev[k] == p;
                assert(r@[k] == p);
            }
            if matched && p == pid && !r_prev.contains(pid) {
                assert(r@[r_prev.len() as int] == pid);
            }
            if pid_matches(next, query@, p) {
                let k = choose|k: int|
                    0 <= k < next.len() && entry_matches(next[k], query@) && next[k].pid == p;
                if k < i {
                    assert(prev[k] == next[k]);
                    assert(pid_matches(prev, query@, p));
                }
            }
            if pid_matches(prev, query@, p) {
                let k = choose|k: int|
                    0 <= k < prev.len() && entry_matches(prev[k], query@) && prev[k].pid == p;
                assert(next[k] == prev[k]);
            }
        }
        i = i + 1;
    }
    assert(entries@.take(entries.len() as int) == entries@);
    r
}

/// Resolves a process name to the processes that carry it. `listing` is the
/// process listing, or `None` when it could not be obtained.
pub fn resolve_by_name(listing: Option<Vec<ProcessEntry>>, query: &String) -> (r: Result<
    Vec<u32>,
    Failure,
>)
    ensures
        listing is None ==> r == Err::<Vec<u32>, Failure>(Failure::EnumerationFailed),
        listing is Some ==> {
            let entries = listing->0@;
            &&& r == Err::<Vec<u32>, Failure>(Failure::TargetNotFound) <==> forall|pid: u32|
                !pid_matches(entries, query@, pid)
            &&& r is Ok ==> {
                &&& r->Ok_0@.no_duplicates()
                &&& forall|pid: u32| r->Ok_0@.contains(pid) <==> pid_matches(entries, query@, pid)
                &&& pids_distinct(entries) ==> r->Ok_0@ == matching_pids(entries, query@)
            }
            &&& r is Err ==> r == Err::<Vec<u32>, Failure>(Failure::TargetNotFound)
        },
{
    match listing {
        None => Err(Failure::EnumerationFailed),
        Some(entries) => {
            let pids = matching_pids_of(&entries, query);
            if pids.len() == 0 {
                assert forall|pid: u32| !pid_matches(entries@, query@, pid) by {
                    assert(!pids@.contains(pid));
                }
                Err(Failure::TargetNotFound)
            } else {
                assert(pids@.contains(pids@[0]));
                Ok(pids)
            }
        },
    }
}

/// An explicit process id is its own, single, target; whether such a process
/// exists shows only when its task handle is requested.
pub fn resolve_by_pid(pid: u32) -> (r: Vec<u32>)
    ensures
        r@ == seq![pid],
{
    let mut r: Vec<u32> = Vec::new();
    r.push(pid);
    r
}

/// Resolving a name gives as many targets as there are live processes of that
/// name, each a distinct id, in listing order.
pub proof fn lemma_one_target_per_match(entries: Seq<ProcessEntry>, query: Seq<char>)
    requires
        pids_distinct(entries),
    ensures
        matching_pids(entries, query).len() == matching_entries(entries, query).len(),
        matching_pids(entries, query).no_duplicates(),
        forall|i: int|
            0 <= i < matching_entries(entries, query).len() ==> matching_pids(entries, query)[i]
                == #[trigger] matching_entries(entries, query)[i].pid,
{
    lemma_filter_pids_distinct(entries, query);
}

proof fn lemma_filter_pids_distinct(entries: Seq<ProcessEntry>, query: Seq<char>)
    requires
        pids_distinct(entries),
    ensures
        matching_pids(entries, query).no_duplicates(),
    decreases entries.len(),
{
    let pred = matcher(query);
    if entries.len() > 0 {
        let rest = entries.drop_last();
        assert(pids_distinct(rest)) by {
            assert forall|i: int, j: int|
                0 <= i < rest.len() && 0 <= j < rest.len() && i != j implies rest[i].pid != rest[j].pid by {
                assert(rest[i] == entries[i] && rest[j] == entries[j]);
            }
        }
        lemma_filter_pids_distinct(rest, query);
        let sub = rest.filter(pred);
        broadcast use vstd::seq_lib::group_filter_ensures;
        reveal(Seq::filter);
        if pred(entries.last()) {
            let full = sub.push(entries.last());
            assert(entries.filter(pred) == full);
            let pids = full.map_values(pid_of());
            assert forall|a: int, b: int| 0 <= a < pids.len() && 0 <= b < pids.len() && a != b
                implies pids[a] != pids[b] by {
                if a < sub.len() && b < sub.len() {
                    assert(pids[a] == matching_pids(rest, query)[a]);
                    assert(pids[b] == matching_pids(rest, query)[b]);
                } else if a < sub.len() {
                    lemma_filter_in_source(rest, pred, a);
                    let k = choose|k: int| 0 <= k < rest.len() && rest[k] == sub[a];
                    assert(entries[k] == rest[k]);
                    assert(entries[entries.len() - 1] == entries.last());
                } else if b < sub.len() {
                    lemma_filter_in_source(rest, pred, b);
                    let k = choose|k: int| 0 <= k < rest.len() && rest[k] == sub[b];
                    assert(entries[k] == rest[k]);
                    assert(entries[entries.len() - 1] == entries.last());
                }
            }
        } else {
            assert(entries.filter(pred) == sub);
        }
    }
}

proof fn lemma_filter_in_source(entries: Seq<ProcessEntry>, pred: spec_fn(ProcessEntry) -> bool, k: int)
    requires
        0 <= k < entries.filter(pred).len(),
    ensures
        exists|j: int| 0 <= j < entries.len() && entries[j] == entries.filter(pred)[k],
    decreases entries.len(),
{
    reveal(Seq::filter);
    let rest = entries.drop_last();
    let sub = rest.filter(pred);
    if k < sub.len() {
        lemma_filter_in_source(rest, pred, k);
        let j = choose|j: int| 0 <= j < rest.len() && rest[j] == sub[k];
        assert(entries[j] == rest[j]);
    } else {
        assert(entries[entries.len() - 1] == entries.filter(pred)[k]);
    }
}

} // verus!
