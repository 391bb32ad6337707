//! Baseline capture + drift computation.
//!
//! A `Diff` compares a *current* snapshot against a *baseline* and reports the
//! interesting deltas a tripwire cares about:
//!   * `new_processes`            — processes present now but not at baseline,
//!   * `new_external_connections` — external (off-host) connections that have
//!                                  appeared since baseline,
//!   * `orphaned_parents`         — processes whose parent changed / disappeared.

use vstd::prelude::*;
use std::collections::HashMap;
use std::collections::HashSet;
use crate::snapshot::{
    capture, connection_views, external_address, is_external, process_views, Connection,
    ConnectionView, ProcessInfo, ProcessView, Snapshot, SnapshotView,
};

verus! {

broadcast use vstd::std_specs::hash::group_hash_axioms;

/// The delta between a baseline and a current snapshot.
#[derive(Debug, PartialEq, Eq)]
pub struct Diff {
    /// Processes present in `current` but absent from `baseline`, by PID.
    pub new_processes: Vec<ProcessInfo>,
    /// External (off-host) connections present in `current` but not baseline.
    pub new_external_connections: Vec<Connection>,
    /// Processes whose parent PID differs from baseline, or whose baseline
    /// parent no longer exists. Each entry pairs the process with the
    /// (now-stale) baseline parent PID.
    pub orphaned_parents: Vec<OrphanedParent>,
}

/// A process whose parent changed / disappeared between baseline and current.
#[derive(Debug, PartialEq, Eq)]
pub struct OrphanedParent {
    pub pid: u32,
    pub current_parent_pid: u32,
    pub baseline_parent_pid: u32,
    pub name: String,
}

/// The mathematical value of an [`OrphanedParent`].
pub struct OrphanView {
    pub pid: u32,
    pub current_parent_pid: u32,
    pub baseline_parent_pid: u32,
    pub name: Seq<char>,
}

impl View for OrphanedParent {
    type V = OrphanView;

    open spec fn view(&self) -> OrphanView {
        OrphanView {
            pid: self.pid,
            current_parent_pid: self.current_parent_pid,
            baseline_parent_pid: self.baseline_parent_pid,
            name: self.name@,
        }
    }
}

impl Clone for OrphanedParent {
    fn clone(&self) -> (r: Self)
        ensures
            r@ == self@,
    {
        OrphanedParent {
            pid: self.pid,
            current_parent_pid: self.current_parent_pid,
            baseline_parent_pid: self.baseline_parent_pid,
            name: self.name.clone(),
        }
    }
}

/// The views of a sequence of orphan records.
pub open spec fn orphan_views(s: Seq<OrphanedParent>) -> Seq<OrphanView> {
    s.map_values(|o: OrphanedParent| o@)
}

/// The mathematical value of a [`Diff`].
pub struct DiffView {
    pub new_processes: Seq<ProcessView>,
    pub new_external_connections: Seq<ConnectionView>,
    pub orphaned_parents: Seq<OrphanView>,
}

impl View for Diff {
    type V = DiffView;

    open spec fn view(&self) -> DiffView {
        DiffView {
            new_processes: process_views(self.new_processes@),
            new_external_connections: connection_views(self.new_external_connections@),
            orphaned_parents: orphan_views(self.orphaned_parents@),
        }
    }
}

/// Some process of `procs` has pid `pid`.
pub open spec fn has_pid(procs: Seq<ProcessView>, pid: u32) -> bool {
    exists|k: int| 0 <= k < procs.len() && #[trigger] procs[k].pid == pid
}

/// The parent that `procs` records for `pid`: that of the last process with
/// this pid, or `None` when there is none.
pub open spec fn recorded_parent(procs: Seq<ProcessView>, pid: u32) -> Option<u32>
    decreases procs.len(),
{
    if procs.len() == 0 {
        None
    } else if procs.last().pid == pid {
        Some(procs.last().parent_pid)
    } else {
        recorded_parent(procs.drop_last(), pid)
    }
}

/// A process is new to the baseline when the baseline holds no process with
/// its pid.
pub open spec fn new_to(base: SnapshotView) -> spec_fn(ProcessView) -> bool {
    |p: ProcessView| !has_pid(base.processes, p.pid)
}

/// A connection is a new external one when its remote address is external
/// and the baseline holds no connection with the same record.
pub open spec fn new_external_to(base: SnapshotView) -> spec_fn(ConnectionView) -> bool {
    |c: ConnectionView| external_address(c.remote_addr) && !base.connections.contains(c)
}

/// The processes of `procs` whose pid the baseline does not hold, in order.
pub open spec fn new_processes_among(base: SnapshotView, procs: Seq<ProcessView>) -> Seq<
    ProcessView,
> {
    procs.filter(new_to(base))
}

/// The connections of `conns` that are external and that the baseline does
/// not hold as the same record, in order.
pub open spec fn new_external_among(base: SnapshotView, conns: Seq<ConnectionView>) -> Seq<
    ConnectionView,
> {
    conns.filter(new_external_to(base))
}

/// Whether process `p` of the current snapshot is reported as orphaned, and
/// with what record. A known pid is reported when its parent changed since
/// the baseline, or when its baseline parent is a non-root pid absent from
/// the current snapshot. A new pid is reported when its parent is a non-root
/// pid absent from the current snapshot; its baseline parent reads 0.
pub open spec fn orphan_entry(base: SnapshotView, cur: SnapshotView, p: ProcessView) -> Option<
    OrphanView,
> {
    match recorded_parent(base.processes, p.pid) {
        Some(bp) => if p.parent_pid != bp || (bp != 0 && !has_pid(cur.processes, bp)) {
            Some(
                OrphanView {
                    pid: p.pid,
                    current_parent_pid: p.parent_pid,
                    baseline_parent_pid: bp,
                    name: p.name,
                },
            )
        } else {
            None
        },
        None => if p.parent_pid != 0 && !has_pid(cur.processes, p.parent_pid) {
            Some(
                OrphanView {
                    pid: p.pid,
                    current_parent_pid: p.parent_pid,
                    baseline_parent_pid: 0,
                    name: p.name,
                },
            )
        } else {
            None
        },
    }
}

/// The orphan records of the processes `procs`, in order.
pub open spec fn orphans_among(base: SnapshotView, cur: SnapshotView, procs: Seq<ProcessView>) -> Seq<
    OrphanView,
> {
    procs.filter_map(orphan_of(base, cur))
}

/// `orphan_entry` as a function of the process.
pub open spec fn orphan_of(base: SnapshotView, cur: SnapshotView) -> spec_fn(ProcessView) -> Option<
    OrphanView,
> {
    |p: ProcessView| orphan_entry(base, cur, p)
}

/// The drift from `base` to `cur`.
pub open spec fn drift(base: SnapshotView, cur: SnapshotView) -> DiffView {
    DiffView {
        new_processes: new_processes_among(base, cur.processes),
        new_external_connections: new_external_among(base, cur.connections),
        orphaned_parents: orphans_among(base, cur, cur.processes),
    }
}

/// A process with pid `pid` is recorded exactly when some process has it.
pub proof fn lemma_recorded_parent_iff_has_pid(procs: Seq<ProcessView>, pid: u32)
    ensures
        recorded_parent(procs, pid) is Some <==> has_pid(procs, pid),
    decreases procs.len(),
{
    if procs.len() > 0 {
        let rest = procs.drop_last();
        lemma_recorded_parent_iff_has_pid(rest, pid);
        if has_pid(rest, pid) {
            let k = choose|k: int| 0 <= k < rest.len() && #[trigger] rest[k].pid == pid;
            assert(procs[k].pid == pid);
        }
        if has_pid(procs, pid) && procs.last().pid != pid {
            let k = choose|k: int| 0 <= k < procs.len() && #[trigger] procs[k].pid == pid;
            assert(rest[k].pid == pid);
        }
        if procs.last().pid == pid {
            assert(procs[procs.len() - 1].pid == pid);
        }
    }
}

/// `has_pid` over one more process.
proof fn lemma_has_pid_extend(procs: Seq<ProcessView>, i: int, pid: u32)
    requires
        0 <= i < procs.len(),
    ensures
        has_pid(procs.take(i + 1), pid) <==> has_pid(procs.take(i), pid) || procs[i].pid == pid,
{
    let longer = procs.take(i + 1);
    let shorter = procs.take(i);
    if has_pid(longer, pid) {
        let k = choose|k: int| 0 <= k < longer.len() && #[trigger] longer[k].pid == pid;
        if k < i {
            assert(shorter[k].pid == pid);
        }
    }
    if has_pid(shorter, pid) {
        let k = choose|k: int| 0 <= k < shorter.len() && #[trigger] shorter[k].pid == pid;
        assert(longer[k].pid == pid);
    }
    if procs[i].pid == pid {
        assert(longer[i].pid == pid);
    }
}

/// The set of pids of `procs`.
fn pid_set(procs: &Vec<ProcessInfo>) -> (r: HashSet<u32>)
    ensures
        forall|pid: u32| r@.contains(pid) <==> has_pid(process_views(procs@), pid),
{
    let ghost views = process_views(procs@);
    let mut r: HashSet<u32> = HashSet::new();
    let mut i: usize = 0;
    while i < procs.len()
        invariant
            views == process_views(procs@),
            i <= procs.len(),
            forall|pid: u32| r@.contains(pid) <==> has_pid(views.take(i as int), pid),
        decreases procs.len() - i,
    {
        proof {
            assert forall|pid: u32|
                has_pid(views.take(i + 1), pid) <==> has_pid(views.take(i as int), pid)
                    || views[i as int].pid == pid by {
                lemma_has_pid_extend(views, i as int, pid);
            }
        }
        r.insert(procs[i].pid);
        i += 1;
    }
    assert(views.take(procs.len() as int) =~= views);
    r
}

/// The parent recorded for each pid of `procs` (the last one wins).
fn parent_map(procs: &Vec<ProcessInfo>) -> (r: HashMap<u32, u32>)
    ensures
        forall|pid: u32|
            match #[trigger] recorded_parent(process_views(procs@), pid) {
                Some(pp) => r@.contains_key(pid) && r@[pid] == pp,
                None => !r@.contains_key(pid),
            },
{
    let ghost views = process_views(procs@);
    let mut r: HashMap<u32, u32> = HashMap::new();
    let mut i: usize = 0;
    while i < procs.len()
        invariant
            views == process_views(procs@),
            i <= procs.len(),
            forall|pid: u32|
                match #[trigger] recorded_parent(views.take(i as int), pid) {
                    Some(pp) => r@.contains_key(pid) && r@[pid] == pp,
                    None => !r@.contains_key(pid),
                },
        decreases procs.len() - i,
    {
        assert(views.take(i + 1).drop_last() =~= views.take(i as int));
        let ghost before = r@;
        r.insert(procs[i].pid, procs[i].parent_pid);
        proof {
            assert(views.take(i + 1).last() == views[i as int]);
            assert forall|pid: u32|
                match #[trigger] recorded_parent(views.take(i + 1), pid) {
                    Some(pp) => r@.contains_key(pid) && r@[pid] == pp,
                    None => !r@.contains_key(pid),
                } by {
                if pid != procs@[i as int].pid {
                    assert(recorded_parent(views.take(i + 1), pid) == recorded_parent(
                        views.take(i as int),
                        pid,
                    ));
                }
            }
        }
        i += 1;
    }
    assert(views.take(procs.len() as int) =~= views);
    r
}

/// Whether `conns` holds a connection with the same record as `c`.
fn holds_record(conns: &Vec<Connection>, c: &Connection) -> (r: bool)
    ensures
        r == connection_views(conns@).contains(c@),
{
    let ghost views = connection_views(conns@);
    let mut i: usize = 0;
    while i < conns.len()
        invariant
            views == connection_views(conns@),
            i <= conns.len(),
            forall|k: int| 0 <= k < i ==> views[k] != c@,
        decreases conns.len() - i,
    {
        if conns[i].same_record(c) {
            assert(views[i as int] == c@);
            return true;
        }
        i += 1;
    }
    false
}

/// Capture a fresh baseline snapshot of the host from what was enumerated.
pub fn baseline(processes: Vec<ProcessInfo>, connections: Vec<Connection>) -> (r: Snapshot)
    ensures
        r.processes == processes,
        r.connections == connections,
{
    capture(processes, connections)
}

/// Compute the drift from `baseline` to `current`.
///
/// Pure: no I/O, no host access. Identity of a process is its PID; identity of
/// a connection is the whole record (pid + local + remote + state).
pub fn diff(baseline: &Snapshot, current: &Snapshot) -> (d: Diff)
    ensures
        d@ == drift(baseline@, current@),
{
    let ghost base = baseline@;
    let ghost cur = current@;
    let base_pids = pid_set(&baseline.processes);
    let base_parents = parent_map(&baseline.processes);

    // New processes: pid absent from the baseline.
    let mut new_processes: Vec<ProcessInfo> = Vec::new();
    let mut i: usize = 0;
    while i < current.processes.len()
        invariant
            base == baseline@,
            cur == current@,
            i <= current.processes.len(),
            forall|pid: u32| base_pids@.contains(pid) <==> has_pid(base.processes, pid),
            process_views(new_processes@) == new_processes_among(base, cur.processes.take(i as int)),
        decreases current.processes.len() - i,
    {
        let p = &current.processes[i];
        proof {
            reveal_with_fuel(Seq::filter, 1);
            assert(cur.processes.take(i + 1).drop_last() =~= cur.processes.take(i as int));
        }
        if !base_pids.contains(&p.pid) {
            new_processes.push(p.clone());
        }
        i += 1;
        assert(process_views(new_processes@) =~= new_processes_among(
            base,
            cur.processes.take(i as int),
        ));
    }
    assert(cur.processes.take(current.processes.len() as int) =~= cur.processes);

    // New external connections: external, and not the same record as any
    // baseline connection.
    let mut new_external_connections: Vec<Connection> = Vec::new();
    let mut j: usize = 0;
    while j < current.connections.len()
        invariant
            base == baseline@,
            cur == current@,
            j <= current.connections.len(),
            connection_views(new_external_connections@) == new_external_among(
                base,
                cur.connections.take(j as int),
            ),
        decreases current.connections.len() - j,
    {
        let c = &current.connections[j];
        proof {
            reveal_with_fuel(Seq::filter, 1);
            assert(cur.connections.take(j + 1).drop_last() =~= cur.connections.take(j as int));
        }
        if is_external(c.remote_addr.as_str()) && !holds_record(&baseline.connections, c) {
            new_external_connections.push(c.clone());
        }
        j += 1;
        assert(connection_views(new_external_connections@) =~= new_external_among(
            base,
            cur.connections.take(j as int),
        ));
    }
    assert(cur.connections.take(current.connections.len() as int) =~= cur.connections);

    // Orphan detection. A process is "orphaned" (its parent relationship
    // changed / disappeared) in one of two cases:
    //   1. It existed in the baseline but its PARENT changed between baseline
    //      and current (it was reparented), or its baseline parent no longer
    //      exists in the current snapshot.
    //   2. It is a NEW process whose recorded parent is absent from the
    //      CURRENT snapshot (the parent died before the new process spawned,
    //      or was never observed) — a classic spawn-after-parent-exit pattern.
    let cur_pids = pid_set(&current.processes);
    let mut orphaned_parents: Vec<OrphanedParent> = Vec::new();
    let mut k: usize = 0;
    while k < current.processes.len()
        invariant
            base == baseline@,
            cur == current@,
            k <= current.processes.len(),
            forall|pid: u32| base_pids@.contains(pid) <==> has_pid(base.processes, pid),
            forall|pid: u32| cur_pids@.contains(pid) <==> has_pid(cur.processes, pid),
            forall|pid: u32|
                match #[trigger] recorded_parent(base.processes, pid) {
                    Some(pp) => base_parents@.contains_key(pid) && base_parents@[pid] == pp,
                    None => !base_parents@.contains_key(pid),
                },
            orphan_views(orphaned_parents@) == orphans_among(
                base,
                cur,
                cur.processes.take(k as int),
            ),
        decreases current.processes.len() - k,
    {
        let p = &current.processes[k];
        proof {
            assert(cur.processes.take(k + 1).drop_last() =~= cur.processes.take(k as int));
            assert(cur.processes[k as int] == p@);
            lemma_recorded_parent_iff_has_pid(base.processes, p.pid);
        }
        if let Some(found) = base_parents.get(&p.pid) {
            let base_ppid: u32 = *found;
            // Known pid from baseline. A parent of 0 is the system root, which
            // is never enumerated; don't treat it as "missing".
            if (p.parent_pid != base_ppid && !(p.parent_pid == 0 && base_ppid == 0)) || (base_ppid
                != 0 && !cur_pids.contains(&base_ppid)) {
                orphaned_parents.push(
                    OrphanedParent {
                        pid: p.pid,
                        current_parent_pid: p.parent_pid,
                        baseline_parent_pid: base_ppid,
                        name: p.name.clone(),
                    },
                );
            }
        } else if !base_pids.contains(&p.pid) {
            // Brand-new process. A parent of 0 is root; only flag when the
            // parent is a non-root PID that is absent from the current snapshot.
            if p.parent_pid != 0 && !cur_pids.contains(&p.parent_pid) {
                orphaned_parents.push(
                    OrphanedParent {
                        pid: p.pid,
                        current_parent_pid: p.parent_pid,
                        baseline_parent_pid: 0,
                        name: p.name.clone(),
                    },
                );
            }
        }
        k += 1;
        assert(orphan_views(orphaned_parents@) =~= orphans_among(
            base,
            cur,
            cur.processes.take(k as int),
        ));
    }
    assert(cur.processes.take(current.processes.len() as int) =~= cur.processes);

    Diff { new_processes, new_external_connections, orphaned_parents }
}

/// A sequence filtered by a predicate that no element meets is empty.
proof fn lemma_filter_none<A>(s: Seq<A>, pred: spec_fn(A) -> bool)
    requires
        forall|i: int| 0 <= i < s.len() ==> !pred(#[trigger] s[i]),
    ensures
        s.filter(pred).len() == 0,
    decreases s.len(),
{
    reveal_with_fuel(Seq::filter, 1);
    if s.len() > 0 {
        assert forall|i: int| 0 <= i < s.drop_last().len() implies !pred(
            #[trigger] s.drop_last()[i],
        ) by {
            assert(s.drop_last()[i] == s[i]);
        }
        lemma_filter_none(s.drop_last(), pred);
        assert(!pred(s[s.len() - 1]));
    }
}

/// `filter_map` keeps the result of every element that gives one.
proof fn lemma_filter_map_keeps<A, B>(s: Seq<A>, f: spec_fn(A) -> Option<B>, i: int)
    requires
        0 <= i < s.len(),
        f(s[i]) is Some,
    ensures
        s.filter_map(f).contains(f(s[i])->0),
    decreases s.len(),
{
    let rest = s.drop_last();
    if i == s.len() - 1 {
        let out = s.filter_map(f);
        assert(out[out.len() - 1] == f(s[i])->0);
    } else {
        assert(rest[i] == s[i]);
        lemma_filter_map_keeps(rest, f, i);
        let j = choose|j: int| 0 <= j < rest.filter_map(f).len() && rest.filter_map(f)[j] == f(
            s[i],
        )->0;
        match f(s.last()) {
            Some(o) => {
                assert(s.filter_map(f)[j] == rest.filter_map(f)[j]);
            },
            None => {},
        }
    }
}

/// `filter_map` over elements that all give `None` is empty.
proof fn lemma_filter_map_none<A, B>(s: Seq<A>, f: spec_fn(A) -> Option<B>)
    requires
        forall|i: int| 0 <= i < s.len() ==> #[trigger] f(s[i]) is None,
    ensures
        s.filter_map(f).len() == 0,
    decreases s.len(),
{
    if s.len() > 0 {
        assert forall|i: int| 0 <= i < s.drop_last().len() implies #[trigger] f(
            s.drop_last()[i],
        ) is None by {
            assert(s.drop_last()[i] == s[i]);
        }
        lemma_filter_map_none(s.drop_last(), f);
        assert(f(s[s.len() - 1]) is None);
    }
}

/// The parent recorded for a pid is that of some process with this pid.
proof fn lemma_recorded_parent_witness(procs: Seq<ProcessView>, pid: u32)
    requires
        recorded_parent(procs, pid) is Some,
    ensures
        exists|k: int|
            0 <= k < procs.len() && #[trigger] procs[k].pid == pid && procs[k].parent_pid
                == recorded_parent(procs, pid)->0,
    decreases procs.len(),
{
    if procs.last().pid == pid {
        assert(procs[procs.len() - 1].pid == pid);
    } else {
        let rest = procs.drop_last();
        lemma_recorded_parent_witness(rest, pid);
        let k = choose|k: int|
            0 <= k < rest.len() && #[trigger] rest[k].pid == pid && rest[k].parent_pid
                == recorded_parent(rest, pid)->0;
        assert(procs[k].pid == pid);
    }
}

/// A process is reported new exactly when it is a process of the current
/// snapshot whose pid the baseline does not hold.
pub proof fn lemma_new_process_iff(base: SnapshotView, cur: SnapshotView, p: ProcessView)
    ensures
        drift(base, cur).new_processes.contains(p) <==> cur.processes.contains(p) && !has_pid(
            base.processes,
            p.pid,
        ),
{
    let pred = new_to(base);
    let out = cur.processes.filter(pred);
    if out.contains(p) {
        cur.processes.lemma_filter_contains_rev(pred, p);
        let i = choose|i: int| 0 <= i < out.len() && out[i] == p;
        cur.processes.lemma_filter_pred(pred, i);
    }
    if cur.processes.contains(p) && !has_pid(base.processes, p.pid) {
        let i = choose|i: int| 0 <= i < cur.processes.len() && cur.processes[i] == p;
        cur.processes.lemma_filter_contains(pred, i);
    }
}

/// A connection is reported as a new external one exactly when it is a
/// connection of the current snapshot, its remote address is external, and
/// the baseline holds no connection with the same record.
pub proof fn lemma_new_external_iff(base: SnapshotView, cur: SnapshotView, c: ConnectionView)
    ensures
        drift(base, cur).new_external_connections.contains(c) <==> cur.connections.contains(c)
            && external_address(c.remote_addr) && !base.connections.contains(c),
{
    let pred = new_external_to(base);
    let out = cur.connections.filter(pred);
    if out.contains(c) {
        cur.connections.lemma_filter_contains_rev(pred, c);
        let i = choose|i: int| 0 <= i < out.len() && out[i] == c;
        cur.connections.lemma_filter_pred(pred, i);
    }
    if cur.connections.contains(c) && external_address(c.remote_addr)
        && !base.connections.contains(c) {
        let i = choose|i: int| 0 <= i < cur.connections.len() && cur.connections[i] == c;
        cur.connections.lemma_filter_contains(pred, i);
    }
}

/// A process of the current snapshot whose parent differs from the one the
/// baseline recorded for its pid is reported as orphaned, with both parents.
pub proof fn lemma_reparented_is_reported(base: SnapshotView, cur: SnapshotView, i: int)
    requires
        0 <= i < cur.processes.len(),
        recorded_parent(base.processes, cur.processes[i].pid) is Some,
        recorded_parent(base.processes, cur.processes[i].pid)->0 != cur.processes[i].parent_pid,
    ensures
        drift(base, cur).orphaned_parents.contains(
            OrphanView {
                pid: cur.processes[i].pid,
                current_parent_pid: cur.processes[i].parent_pid,
                baseline_parent_pid: recorded_parent(base.processes, cur.processes[i].pid)->0,
                name: cur.processes[i].name,
            },
        ),
{
    lemma_filter_map_keeps(cur.processes, orphan_of(base, cur), i);
}

/// A new process whose parent is a non-root pid absent from the current
/// snapshot is reported as orphaned, with baseline parent 0.
pub proof fn lemma_parentless_spawn_is_reported(base: SnapshotView, cur: SnapshotView, i: int)
    requires
        0 <= i < cur.processes.len(),
        !has_pid(base.processes, cur.processes[i].pid),
        cur.processes[i].parent_pid != 0,
        !has_pid(cur.processes, cur.processes[i].parent_pid),
    ensures
        drift(base, cur).orphaned_parents.contains(
            OrphanView {
                pid: cur.processes[i].pid,
                current_parent_pid: cur.processes[i].parent_pid,
                baseline_parent_pid: 0,
                name: cur.processes[i].name,
            },
        ),
{
    lemma_recorded_parent_iff_has_pid(base.processes, cur.processes[i].pid);
    lemma_filter_map_keeps(cur.processes, orphan_of(base, cur), i);
}

/// Every orphan record belongs to a process of the current snapshot (same
/// pid, name and current parent) whose parent relationship really broke:
/// its parent changed since the baseline, or its baseline parent is a
/// non-root pid gone from the current snapshot, or it is new and its parent
/// is a non-root pid absent from the current snapshot.
pub proof fn lemma_orphan_is_justified(base: SnapshotView, cur: SnapshotView, o: OrphanView)
    requires
        drift(base, cur).orphaned_parents.contains(o),
    ensures
        exists|p: ProcessView|
            #[trigger] cur.processes.contains(p) && p.pid == o.pid && p.name == o.name
                && p.parent_pid == o.current_parent_pid && ({
                ||| has_pid(base.processes, p.pid) && o.baseline_parent_pid
                    == recorded_parent(base.processes, p.pid)->0 && (o.current_parent_pid
                    != o.baseline_parent_pid || (o.baseline_parent_pid != 0 && !has_pid(
                    cur.processes,
                    o.baseline_parent_pid,
                )))
                ||| !has_pid(base.processes, p.pid) && o.baseline_parent_pid == 0
                    && o.current_parent_pid != 0 && !has_pid(cur.processes, o.current_parent_pid)
            }),
{
    let f = orphan_of(base, cur);
    cur.processes.lemma_filter_map_contains(f, o);
    let p = choose|p: ProcessView| #[trigger] cur.processes.contains(p) && f(p) == Some(o);
    lemma_recorded_parent_iff_has_pid(base.processes, p.pid);
}

/// A snapshot compared with itself shows no new process and no new external
/// connection.
pub proof fn lemma_self_drift_has_nothing_new(s: SnapshotView)
    ensures
        drift(s, s).new_processes.len() == 0,
        drift(s, s).new_external_connections.len() == 0,
{
    assert forall|i: int| 0 <= i < s.processes.len() implies !new_to(s)(
        #[trigger] s.processes[i],
    ) by {
        assert(has_pid(s.processes, s.processes[i].pid));
    }
    lemma_filter_none(s.processes, new_to(s));
    assert forall|i: int| 0 <= i < s.connections.len() implies !new_external_to(s)(
        #[trigger] s.connections[i],
    ) by {
        assert(s.connections.contains(s.connections[i]));
    }
    lemma_filter_none(s.connections, new_external_to(s));
}

/// Processes that share a pid share a parent.
pub open spec fn parents_consistent(procs: Seq<ProcessView>) -> bool {
    forall|i: int, j: int|
        0 <= i < procs.len() && 0 <= j < procs.len() && #[trigger] procs[i].pid
            == #[trigger] procs[j].pid ==> procs[i].parent_pid == procs[j].parent_pid
}

/// Every parent pid is the root (0) or the pid of a process of `procs`.
pub open spec fn parents_present(procs: Seq<ProcessView>) -> bool {
    forall|i: int|
        0 <= i < procs.len() ==> #[trigger] procs[i].parent_pid == 0 || has_pid(
            procs,
            procs[i].parent_pid,
        )
}

/// A snapshot compared with itself reports no orphan, provided that
/// processes sharing a pid share a parent and that every parent is the root
/// or present in the snapshot (on other snapshots a dangling parent is
/// reported even against itself).
pub proof fn lemma_self_drift_has_no_orphans(s: SnapshotView)
    requires
        parents_consistent(s.processes),
        parents_present(s.processes),
    ensures
        drift(s, s).orphaned_parents.len() == 0,
{
    let f = orphan_of(s, s);
    assert forall|i: int| 0 <= i < s.processes.len() implies #[trigger] f(s.processes[i]) is None by {
        let p = s.processes[i];
        lemma_recorded_parent_iff_has_pid(s.processes, p.pid);
        assert(s.processes[i].pid == p.pid);
        lemma_recorded_parent_witness(s.processes, p.pid);
    }
    lemma_filter_map_none(s.processes, f);
}

} // verus!
