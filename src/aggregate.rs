use vstd::prelude::*;

use crate::records::{CursorRecord, ProcessRecord};

verus! {

/// Active and idle process counts of one database.
#[derive(Clone, Copy, Debug, PartialEq, Eq, Structural)]
pub struct Stats {
    pub active_processes: u64,
    pub idle_processes: u64,
}

impl Stats {
    /// Both counts zero.
    pub fn new() -> (r: Stats)
        ensures
            r.active_processes == 0,
            r.idle_processes == 0,
    {
        Stats { active_processes: 0, idle_processes: 0 }
    }

    /// Counts one more process, active or idle.
    pub fn increment(&mut self, active: bool)
        requires
            active ==> old(self).active_processes < u64::MAX,
            !active ==> old(self).idle_processes < u64::MAX,
        ensures
            active ==> final(self).active_processes == old(self).active_processes + 1
                && final(self).idle_processes == old(self).idle_processes,
            !active ==> final(self).idle_processes == old(self).idle_processes + 1
                && final(self).active_processes == old(self).active_processes,
    {
        if active {
            self.active_processes = self.active_processes + 1;
        } else {
            self.idle_processes = self.idle_processes + 1;
        }
    }

    /// The number of processes counted.
    pub open spec fn total(self) -> nat {
        (self.active_processes + self.idle_processes) as nat
    }
}

/// The counts of one known database.
#[derive(Debug)]
pub struct DatabaseStats {
    pub name: String,
    pub stats: Stats,
}

/// What correlation and counting found over one run.
#[derive(Debug)]
pub struct Aggregate {
    /// One entry per known database, in order of discovery.
    pub databases: Vec<DatabaseStats>,
    pub total_processes: usize,
    pub ignored: usize,
    pub total_cursors: usize,
}

/// The known names with repeats left out, each where it first occurs.
pub open spec fn distinct_names(names: Seq<Seq<char>>) -> Seq<Seq<char>>
    decreases names.len(),
{
    if names.len() == 0 {
        Seq::empty()
    } else {
        let d = distinct_names(names.drop_last());
        if d.contains(names.last()) {
            d
        } else {
            d.push(names.last())
        }
    }
}

/// The database of the first cursor that process `pid` holds, if any.
pub open spec fn cursor_database(cursors: Seq<CursorRecord>, pid: i32) -> Option<Seq<char>>
    decreases cursors.len(),
{
    if cursors.len() == 0 {
        None
    } else if cursors[0].process_id == pid {
        Some(cursors[0].database@)
    } else {
        cursor_database(cursors.drop_first(), pid)
    }
}

/// The known database a process is counted for: that of its first cursor,
/// when that name is known.
pub open spec fn attributed(p: ProcessRecord, cursors: Seq<CursorRecord>, known: Seq<Seq<char>>) -> Option<
    Seq<char>,
> {
    match cursor_database(cursors, p.id) {
        Some(db) => if known.contains(db) {
            Some(db)
        } else {
            None
        },
        None => None,
    }
}

/// How many of `procs` with the given activity are counted for `name`.
pub open spec fn count_for(
    procs: Seq<ProcessRecord>,
    cursors: Seq<CursorRecord>,
    known: Seq<Seq<char>>,
    name: Seq<char>,
    active: bool,
) -> nat
    decreases procs.len(),
{
    if procs.len() == 0 {
        0
    } else {
        count_for(procs.drop_last(), cursors, known, name, active) + if procs.last().active
            == active && attributed(procs.last(), cursors, known) == Some(name) {
            1nat
        } else {
            0nat
        }
    }
}

/// How many of `procs` are counted for no known database.
pub open spec fn count_ignored(
    procs: Seq<ProcessRecord>,
    cursors: Seq<CursorRecord>,
    known: Seq<Seq<char>>,
) -> nat
    decreases procs.len(),
{
    if procs.len() == 0 {
        0
    } else {
        count_ignored(procs.drop_last(), cursors, known) + if attributed(
            procs.last(),
            cursors,
            known,
        ) is None {
            1nat
        } else {
            0nat
        }
    }
}

proof fn lemma_count_for_bound(
    procs: Seq<ProcessRecord>,
    cursors: Seq<CursorRecord>,
    known: Seq<Seq<char>>,
    name: Seq<char>,
    active: bool,
)
    ensures
        count_for(procs, cursors, known, name, active) <= procs.len(),
        count_ignored(procs, cursors, known) <= procs.len(),
    decreases procs.len(),
{
    if procs.len() > 0 {
        lemma_count_for_bound(procs.drop_last(), cursors, known, name, active);
    }
}

/// A name occurs among the distinct names exactly when it is known, and
/// each distinct name occurs once.
pub proof fn lemma_distinct_names(names: Seq<Seq<char>>)
    ensures
        distinct_names(names).no_duplicates(),
        forall|n: Seq<char>| distinct_names(names).contains(n) <==> names.contains(n),
    decreases names.len(),
{
    if names.len() > 0 {
        let init = names.drop_last();
        lemma_distinct_names(init);
        let d = distinct_names(init);
        assert forall|n: Seq<char>| distinct_names(names).contains(n) <==> names.contains(n) by {
            if names.contains(n) && n != names.last() {
                let k = choose|k: int| 0 <= k < names.len() && names[k] == n;
                assert(init[k] == n);
            }
            if init.contains(n) {
                let k = choose|k: int| 0 <= k < init.len() && init[k] == n;
                assert(names[k] == n);
            }
            if !d.contains(names.last()) {
                assert(d.push(names.last())[d.len() as int] == names.last());
                if d.contains(n) {
                    let k = choose|k: int| 0 <= k < d.len() && d[k] == n;
                    assert(d.push(names.last())[k] == n);
                }
                if d.push(names.last()).contains(n) && n != names.last() {
                    let k = choose|k: int| 0 <= k < d.len() + 1 && d.push(names.last())[k] == n;
                    assert(d[k] == n);
                }
            }
            assert(names[names.len() - 1] == names.last());
        }
    }
}

/// Every known database name has exactly one entry among the distinct names,
/// whether or not any process is counted for it.
pub proof fn lemma_one_entry_per_database(names: Seq<Seq<char>>, name: Seq<char>)
    requires
        names.contains(name),
    ensures
        exists|j: int|
            0 <= j < distinct_names(names).len() && distinct_names(names)[j] == name && forall|
                k: int,
            |
                0 <= k < distinct_names(names).len() && distinct_names(names)[k] == name ==> k
                    == j,
{
    lemma_distinct_names(names);
    let d = distinct_names(names);
    let j = choose|j: int| 0 <= j < d.len() && d[j] == name;
    assert(forall|k: int| 0 <= k < d.len() && d[k] == name ==> k == j);
}

/// The processes counted for the databases of `dbs`, active and idle together.
pub open spec fn counted_for_all(
    procs: Seq<ProcessRecord>,
    cursors: Seq<CursorRecord>,
    known: Seq<Seq<char>>,
    dbs: Seq<Seq<char>>,
) -> nat
    decreases dbs.len(),
{
    if dbs.len() == 0 {
        0
    } else {
        counted_for_all(procs, cursors, known, dbs.drop_last()) + count_for(
            procs,
            cursors,
            known,
            dbs.last(),
            true,
        ) + count_for(procs, cursors, known, dbs.last(), false)
    }
}

/// The sum of the active and idle counts of all entries.
pub open spec fn stats_sum(databases: Seq<DatabaseStats>) -> nat
    decreases databases.len(),
{
    if databases.len() == 0 {
        0
    } else {
        stats_sum(databases.drop_last()) + databases.last().stats.total()
    }
}

proof fn lemma_counted_step(
    procs: Seq<ProcessRecord>,
    cursors: Seq<CursorRecord>,
    known: Seq<Seq<char>>,
    dbs: Seq<Seq<char>>,
)
    requires
        procs.len() > 0,
        dbs.no_duplicates(),
    ensures
        counted_for_all(procs, cursors, known, dbs) == counted_for_all(
            procs.drop_last(),
            cursors,
            known,
            dbs,
        ) + if attributed(procs.last(), cursors, known) matches Some(n) && dbs.contains(n) {
            1nat
        } else {
            0nat
        },
    decreases dbs.len(),
{
    if dbs.len() > 0 {
        let init = dbs.drop_last();
        assert(init.no_duplicates()) by {
            assert forall|a: int, b: int| 0 <= a < b < init.len() implies init[a] != init[b] by {
                assert(dbs[a] == init[a] && dbs[b] == init[b]);
            }
        }
        lemma_counted_step(procs, cursors, known, init);
        let a = attributed(procs.last(), cursors, known);
        if let Some(n) = a {
            if dbs.contains(n) && n != dbs.last() {
                let k = choose|k: int| 0 <= k < dbs.len() && dbs[k] == n;
                assert(init[k] == n);
            }
            if init.contains(n) {
                let k = choose|k: int| 0 <= k < init.len() && init[k] == n;
                assert(dbs[k] == n);
                assert(dbs[dbs.len() - 1] == dbs.last());
            }
        }
    }
}

/// Every process is either counted for exactly one known database or
/// ignored: the counts of all databases and the ignored tally add up to the
/// number of processes.
pub proof fn lemma_counted_plus_ignored(
    procs: Seq<ProcessRecord>,
    cursors: Seq<CursorRecord>,
    names: Seq<Seq<char>>,
)
    ensures
        counted_for_all(procs, cursors, names, distinct_names(names)) + count_ignored(
            procs,
            cursors,
            names,
        ) == procs.len(),
    decreases procs.len(),
{
    lemma_distinct_names(names);
    let dn = distinct_names(names);
    if procs.len() == 0 {
        lemma_counted_zero(procs, cursors, names, dn);
    } else {
        lemma_counted_plus_ignored(procs.drop_last(), cursors, names);
        lemma_counted_step(procs, cursors, names, dn);
    }
}

proof fn lemma_counted_zero(
    procs: Seq<ProcessRecord>,
    cursors: Seq<CursorRecord>,
    known: Seq<Seq<char>>,
    dbs: Seq<Seq<char>>,
)
    requires
        procs.len() == 0,
    ensures
        counted_for_all(procs, cursors, known, dbs) == 0,
    decreases dbs.len(),
{
    if dbs.len() > 0 {
        lemma_counted_zero(procs, cursors, known, dbs.drop_last());
    }
}

proof fn lemma_stats_sum_counted(
    databases: Seq<DatabaseStats>,
    procs: Seq<ProcessRecord>,
    cursors: Seq<CursorRecord>,
    known: Seq<Seq<char>>,
    dbs: Seq<Seq<char>>,
)
    requires
        databases.len() == dbs.len(),
        forall|j: int|
            0 <= j < databases.len() ==> (#[trigger] databases[j]).stats.active_processes
                == count_for(procs, cursors, known, dbs[j], true)
                && databases[j].stats.idle_processes == count_for(
                procs,
                cursors,
                known,
                dbs[j],
                false,
            ),
    ensures
        stats_sum(databases) == counted_for_all(procs, cursors, known, dbs),
    decreases dbs.len(),
{
    if dbs.len() > 0 {
        let n = databases.len() - 1;
        assert forall|j: int| 0 <= j < databases.drop_last().len() implies (
        #[trigger] databases.drop_last()[j]).stats.active_processes == count_for(
            procs,
            cursors,
            known,
            dbs.drop_last()[j],
            true,
        ) && databases.drop_last()[j].stats.idle_processes == count_for(
            procs,
            cursors,
            known,
            dbs.drop_last()[j],
            false,
        ) by {
            assert(databases[j] == databases.drop_last()[j]);
        }
        lemma_stats_sum_counted(databases.drop_last(), procs, cursors, known, dbs.drop_last());
        assert(databases[n] == databases.last());
    }
}

/// The index of the entry named `name`, if any.
fn find_entry(databases: &Vec<DatabaseStats>, name: &String) -> (r: Option<usize>)
    ensures
        r matches Some(j) ==> j < databases@.len() && databases@[j as int].name@ == name@,
        r is None ==> forall|j: int| 0 <= j < databases@.len() ==> databases@[j].name@ != name@,
{
    let mut j: usize = 0;
    while j < databases.len()
        invariant
            j <= databases@.len(),
            forall|k: int| 0 <= k < j ==> databases@[k].name@ != name@,
        decreases databases@.len() - j,
    {
        if databases[j].name == *name {
            return Some(j);
        }
        j = j + 1;
    }
    None
}

/// The index of the first cursor that process `pid` holds, if any.
pub fn find_cursor(cursors: &Vec<CursorRecord>, pid: i32) -> (r: Option<usize>)
    ensures
        r matches Some(k) ==> k < cursors@.len() && cursor_database(cursors@, pid) == Some(
            cursors@[k as int].database@,
        ),
        r is None ==> cursor_database(cursors@, pid) is None,
{
    let mut k: usize = 0;
    assert(cursors@.subrange(0, cursors@.len() as int) =~= cursors@);
    while k < cursors.len()
        invariant
            k <= cursors@.len(),
            cursor_database(cursors@, pid) == cursor_database(
                cursors@.subrange(k as int, cursors@.len() as int),
                pid,
            ),
        decreases cursors@.len() - k,
    {
        let ghost rest = cursors@.subrange(k as int, cursors@.len() as int);
        assert(rest[0] == cursors@[k as int]);
        if cursors[k].process_id == pid {
            return Some(k);
        }
        assert(rest.drop_first() =~= cursors@.subrange(k + 1, cursors@.len() as int));
        k = k + 1;
    }
    None
}

/// Seeds one zero entry per known database, in order of discovery, then
/// counts every process for the database of its first cursor. A process
/// without a cursor, or whose cursor names an unknown database, is ignored.
pub fn aggregate(
    names: &Vec<String>,
    processes: &Vec<ProcessRecord>,
    cursors: &Vec<CursorRecord>,
) -> (r: Aggregate)
    ensures
        r.databases@.len() == distinct_names(names.deep_view()).len(),
        forall|j: int|
            0 <= j < r.databases@.len() ==> (#[trigger] r.databases@[j]).name@ == distinct_names(
                names.deep_view(),
            )[j],
        forall|j: int|
            0 <= j < r.databases@.len() ==> (#[trigger] r.databases@[j]).stats.active_processes
                == count_for(processes@, cursors@, names.deep_view(), r.databases@[j].name@, true)
                && r.databases@[j].stats.idle_processes == count_for(
                processes@,
                cursors@,
                names.deep_view(),
                r.databases@[j].name@,
                false,
            ),
        r.ignored == count_ignored(processes@, cursors@, names.deep_view()),
        r.total_processes == processes@.len(),
        r.total_cursors == cursors@.len(),
        stats_sum(r.databases@) + r.ignored == r.total_processes,
{
    let ghost known = names.deep_view();
    let mut databases: Vec<DatabaseStats> = Vec::new();
    let mut i: usize = 0;
    while i < names.len()
        invariant
            i <= names@.len(),
            known == names.deep_view(),
            databases@.len() == distinct_names(known.take(i as int)).len(),
            forall|j: int|
                0 <= j < databases@.len() ==> (#[trigger] databases@[j]).name@ == distinct_names(
                    known.take(i as int),
                )[j] && databases@[j].stats.active_processes == 0
                    && databases@[j].stats.idle_processes == 0,
        decreases names@.len() - i,
    {
        let ghost d = distinct_names(known.take(i as int));
        assert(known.take(i + 1).drop_last() =~= known.take(i as int));
        assert(known.take(i + 1).last() == names@[i as int]@);
        match find_entry(&databases, &names[i]) {
            Some(j) => {
                assert(d.contains(names@[i as int]@)) by {
                    assert(d[j as int] == names@[i as int]@);
                }
            },
            None => {
                assert(!d.contains(names@[i as int]@)) by {
                    if d.contains(names@[i as int]@) {
                        let k = choose|k: int| 0 <= k < d.len() && d[k] == names@[i as int]@;
                        assert(databases@[k].name@ == d[k]);
                    }
                }
                databases.push(DatabaseStats { name: names[i].clone(), stats: Stats::new() });
            },
        }
        i = i + 1;
    }
    assert(known.take(names@.len() as int) =~= known);
    let ghost dn = distinct_names(known);
    proof {
        lemma_distinct_names(known);
    }
    let mut ignored: usize = 0;
    let mut p: usize = 0;
    while p < processes.len()
        invariant
            p <= processes@.len(),
            known == names.deep_view(),
            dn == distinct_names(known),
            dn.no_duplicates(),
            forall|n: Seq<char>| dn.contains(n) <==> known.contains(n),
            databases@.len() == dn.len(),
            forall|j: int| 0 <= j < databases@.len() ==> (#[trigger] databases@[j]).name@ == dn[j],
            forall|j: int|
                0 <= j < databases@.len() ==> (#[trigger] databases@[j]).stats.active_processes
                    == count_for(processes@.take(p as int), cursors@, known, dn[j], true)
                    && databases@[j].stats.idle_processes == count_for(
                    processes@.take(p as int),
                    cursors@,
                    known,
                    dn[j],
                    false,
                ),
            ignored == count_ignored(processes@.take(p as int), cursors@, known),
        decreases processes@.len() - p,
    {
        let proc = processes[p];
        let ghost prefix = processes@.take(p + 1);
        proof {
            assert(prefix.drop_last() =~= processes@.take(p as int));
            assert(prefix.last() == proc);
            lemma_count_for_bound(processes@.take(p as int), cursors@, known, Seq::empty(), true);
        }
        let mut target: Option<usize> = None;
        match find_cursor(cursors, proc.id) {
            Some(k) => {
                match find_entry(&databases, &cursors[k].database) {
                    Some(j) => {
                        target = Some(j);
                        assert(known.contains(dn[j as int]));
                    },
                    None => {
                        assert(!dn.contains(cursors@[k as int].database@)) by {
                            if dn.contains(cursors@[k as int].database@) {
                                let m = choose|m: int|
                                    0 <= m < dn.len() && dn[m] == cursors@[k as int].database@;
                                assert(databases@[m].name@ == dn[m]);
                            }
                        }
                    },
                }
            },
            None => {},
        }
        match target {
            Some(j) => {
                proof {
                    lemma_count_for_bound(
                        processes@.take(p as int),
                        cursors@,
                        known,
                        dn[j as int],
                        proc.active,
                    );
                    assert(attributed(proc, cursors@, known) == Some(dn[j as int]));
                    let jj = j as int;
                    assert forall|m: int| 0 <= m < dn.len() && m != jj implies dn[m] != dn[jj] by {}
                }
                databases[j].stats.increment(proc.active);
            },
            None => {
                assert(attributed(proc, cursors@, known) is None);
                ignored = ignored + 1;
            },
        }
        p = p + 1;
    }
    assert(processes@.take(processes@.len() as int) =~= processes@);
    proof {
        lemma_stats_sum_counted(databases@, processes@, cursors@, known, dn);
        lemma_counted_plus_ignored(processes@, cursors@, known);
    }
    Aggregate {
        databases,
        total_processes: processes.len(),
        ignored,
        total_cursors: cursors.len(),
    }
}

} // verus!
