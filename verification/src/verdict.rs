//! Verdict — classify a [`crate::watch::Diff`] into `OK` / `WARN` / `ALERT`.
//!
//! Rules (deliberately simple and auditable):
//!   * ALERT — any connection in `new_external_connections` whose remote peer
//!     is a *public* (globally-routable, non-RFC1918) address. That is the
//!     exfiltration / C2 signature.
//!   * WARN  — otherwise, if there is any new process that is a child of a
//!     watched PID, or any orphaned (reparented / reparented-to-absent) parent.
//!   * OK    — no notable drift.

use vstd::prelude::*;
use std::collections::HashSet;
use crate::snapshot::{is_public, public_address, Snapshot};
use crate::snapshot::SnapshotView;
use crate::watch::{
    drift, lemma_self_drift_has_no_orphans, lemma_self_drift_has_nothing_new, parents_consistent,
    parents_present, Diff, DiffView,
};

verus! {

broadcast use vstd::std_specs::hash::group_hash_axioms;

/// The severity verdict for a diff.
#[derive(Debug, Clone, Copy, PartialEq, Eq, Structural)]
pub enum Verdict {
    Okay,
    Warn,
    Alert,
}

/// The short tag of each verdict.
pub open spec fn verdict_tag(v: Verdict) -> Seq<char> {
    match v {
        Verdict::Okay => "OK"@,
        Verdict::Warn => "WARN"@,
        Verdict::Alert => "ALERT"@,
    }
}

impl Verdict {
    /// Short tag for compact logging.
    pub fn tag(self) -> (r: &'static str)
        ensures
            r@ == verdict_tag(self),
    {
        match self {
            Verdict::Okay => "OK",
            Verdict::Warn => "WARN",
            Verdict::Alert => "ALERT",
        }
    }
}

/// Configuration that tunes the verdict.
#[derive(Debug)]
pub struct Config {
    /// PIDs whose newly-spawned children warrant a WARN.
    pub watched_pids: Vec<u32>,
}

impl Clone for Config {
    fn clone(&self) -> (r: Self)
        ensures
            r.watched_pids@ == self.watched_pids@,
    {
        let mut watched_pids: Vec<u32> = Vec::new();
        let mut i: usize = 0;
        while i < self.watched_pids.len()
            invariant
                i <= self.watched_pids.len(),
                watched_pids@ == self.watched_pids@.take(i as int),
            decreases self.watched_pids.len() - i,
        {
            watched_pids.push(self.watched_pids[i]);
            i += 1;
            assert(watched_pids@ =~= self.watched_pids@.take(i as int));
        }
        assert(self.watched_pids@.take(self.watched_pids.len() as int) =~= self.watched_pids@);
        Config { watched_pids }
    }
}

impl Default for Config {
    fn default() -> (r: Self)
        ensures
            r.watched_pids@ == Seq::<u32>::empty(),
    {
        Config { watched_pids: Vec::new() }
    }
}

/// Some new external connection of `d` goes to a public address.
pub open spec fn has_public_connection(d: DiffView) -> bool {
    exists|i: int|
        0 <= i < d.new_external_connections.len() && public_address(
            #[trigger] d.new_external_connections[i].remote_addr,
        )
}

/// Some new process of `d` is a child of a watched pid.
pub open spec fn has_watched_child(d: DiffView, watched: Seq<u32>) -> bool {
    exists|i: int|
        0 <= i < d.new_processes.len() && watched.contains(#[trigger] d.new_processes[i].parent_pid)
}

/// The verdict for drift `d` when the pids `watched` are watched.
pub open spec fn verdict_for(d: DiffView, watched: Seq<u32>) -> Verdict {
    if has_public_connection(d) {
        Verdict::Alert
    } else if has_watched_child(d, watched) || d.orphaned_parents.len() > 0 {
        Verdict::Warn
    } else {
        Verdict::Okay
    }
}

/// Classify `diff` using `config`.
///
/// Pure: no I/O. The verdict depends on the drift and the watched pids
/// alone; the two snapshots are accepted for callers that hold them.
pub fn classify(diff: &Diff, baseline: &Snapshot, current: &Snapshot, config: &Config) -> (v:
    Verdict)
    ensures
        v == verdict_for(diff@, config.watched_pids@),
{
    let ghost d = diff@;
    // ALERT: any new external connection to a public (non-private) address.
    let mut i: usize = 0;
    while i < diff.new_external_connections.len()
        invariant
            d == diff@,
            i <= diff.new_external_connections.len(),
            forall|k: int|
                0 <= k < i ==> !public_address(#[trigger] d.new_external_connections[k].remote_addr),
        decreases diff.new_external_connections.len() - i,
    {
        if is_public(diff.new_external_connections[i].remote_addr.as_str()) {
            assert(public_address(d.new_external_connections[i as int].remote_addr));
            return Verdict::Alert;
        }
        i += 1;
    }

    assert(!has_public_connection(d));

    // WARN: a new process that is a child of a watched PID.
    let mut watched: HashSet<u32> = HashSet::new();
    let mut w: usize = 0;
    while w < config.watched_pids.len()
        invariant
            w <= config.watched_pids.len(),
            forall|pid: u32| watched@.contains(pid) <==> config.watched_pids@.take(w as int).contains(pid),
        decreases config.watched_pids.len() - w,
    {
        proof {
            let s = config.watched_pids@;
            assert forall|pid: u32| s.take(w + 1).contains(pid) <==> s.take(w as int).contains(pid)
                || s[w as int] == pid by {
                if s.take(w + 1).contains(pid) {
                    let k = choose|k: int| 0 <= k < w + 1 && #[trigger] s.take(w + 1)[k] == pid;
                    if k < w {
                        assert(s.take(w as int)[k] == pid);
                    }
                }
                if s.take(w as int).contains(pid) {
                    let k = choose|k: int| 0 <= k < w && #[trigger] s.take(w as int)[k] == pid;
                    assert(s.take(w + 1)[k] == pid);
                }
                if s[w as int] == pid {
                    assert(s.take(w + 1)[w as int] == pid);
                }
            }
        }
        watched.insert(config.watched_pids[w]);
        w += 1;
    }
    assert(config.watched_pids@.take(config.watched_pids.len() as int) =~= config.watched_pids@);

    let mut j: usize = 0;
    while j < diff.new_processes.len()
        invariant
            d == diff@,
            !has_public_connection(d),
            j <= diff.new_processes.len(),
            forall|pid: u32| watched@.contains(pid) <==> config.watched_pids@.contains(pid),
            forall|k: int|
                0 <= k < j ==> !config.watched_pids@.contains(
                    #[trigger] d.new_processes[k].parent_pid,
                ),
        decreases diff.new_processes.len() - j,
    {
        if watched.contains(&diff.new_processes[j].parent_pid) {
            assert(config.watched_pids@.contains(d.new_processes[j as int].parent_pid));
            return Verdict::Warn;
        }
        j += 1;
    }

    // WARN: any reparented / orphaned parent.
    if diff.orphaned_parents.len() > 0 {
        return Verdict::Warn;
    }

    Verdict::Okay
}

/// The verdict rules: ALERT exactly when some new external connection is
/// public, whatever else drifted (ALERT takes precedence over WARN); WARN
/// exactly when there is no such connection but a new child of a watched pid
/// or an orphaned parent; OK otherwise.
pub proof fn lemma_verdict_rules(d: DiffView, watched: Seq<u32>)
    ensures
        verdict_for(d, watched) == Verdict::Alert <==> has_public_connection(d),
        verdict_for(d, watched) == Verdict::Warn <==> !has_public_connection(d) && (
        has_watched_child(d, watched) || d.orphaned_parents.len() > 0),
        verdict_for(d, watched) == Verdict::Okay <==> !has_public_connection(d)
            && !has_watched_child(d, watched) && d.orphaned_parents.len() == 0,
{
}

/// A drift with nothing in it is OK, whatever pids are watched.
pub proof fn lemma_empty_drift_is_ok(d: DiffView, watched: Seq<u32>)
    requires
        d.new_processes.len() == 0,
        d.new_external_connections.len() == 0,
        d.orphaned_parents.len() == 0,
    ensures
        verdict_for(d, watched) == Verdict::Okay,
{
}

/// A snapshot compared with itself is OK, whatever pids are watched,
/// provided that processes sharing a pid share a parent and every parent is
/// the root or present in the snapshot.
pub proof fn lemma_self_comparison_is_ok(s: SnapshotView, watched: Seq<u32>)
    requires
        parents_consistent(s.processes),
        parents_present(s.processes),
    ensures
        verdict_for(drift(s, s), watched) == Verdict::Okay,
{
    lemma_self_drift_has_nothing_new(s);
    lemma_self_drift_has_no_orphans(s);
}

/// A new external connection to a public address, at any position of the
/// list, makes the verdict ALERT, whatever else drifted and whatever pids
/// are watched.
pub proof fn lemma_any_public_connection_alerts(d: DiffView, watched: Seq<u32>, i: int)
    requires
        0 <= i < d.new_external_connections.len(),
        public_address(d.new_external_connections[i].remote_addr),
    ensures
        verdict_for(d, watched) == Verdict::Alert,
{
}

/// The verdict is ALERT only when some new external connection goes to a
/// public address.
pub proof fn lemma_alert_needs_public_connection(d: DiffView, watched: Seq<u32>)
    requires
        verdict_for(d, watched) == Verdict::Alert,
    ensures
        exists|i: int|
            0 <= i < d.new_external_connections.len() && public_address(
                #[trigger] d.new_external_connections[i].remote_addr,
            ),
{
}

/// Without a public new external connection, a new process at any position
/// whose parent is any watched pid makes the verdict WARN.
pub proof fn lemma_any_watched_child_warns(d: DiffView, watched: Seq<u32>, j: int, w: int)
    requires
        forall|i: int|
            0 <= i < d.new_external_connections.len() ==> !public_address(
                #[trigger] d.new_external_connections[i].remote_addr,
            ),
        0 <= j < d.new_processes.len(),
        0 <= w < watched.len(),
        watched[w] == d.new_processes[j].parent_pid,
    ensures
        verdict_for(d, watched) == Verdict::Warn,
{
    assert(watched.contains(d.new_processes[j].parent_pid));
}

/// Without a public new external connection, any orphan makes the verdict
/// WARN.
pub proof fn lemma_any_orphan_warns(d: DiffView, watched: Seq<u32>)
    requires
        forall|i: int|
            0 <= i < d.new_external_connections.len() ==> !public_address(
                #[trigger] d.new_external_connections[i].remote_addr,
            ),
        d.orphaned_parents.len() > 0,
    ensures
        verdict_for(d, watched) == Verdict::Warn,
{
}

/// The verdict is OK exactly when no new external connection is public, no
/// new process has a watched parent, and nothing is orphaned.
pub proof fn lemma_okay_exactly_when_quiet(d: DiffView, watched: Seq<u32>)
    ensures
        verdict_for(d, watched) == Verdict::Okay <==> ((forall|i: int|
            0 <= i < d.new_external_connections.len() ==> !public_address(
                #[trigger] d.new_external_connections[i].remote_addr,
            )) && (forall|j: int, w: int|
            0 <= j < d.new_processes.len() && 0 <= w < watched.len() ==> #[trigger] watched[w]
                != #[trigger] d.new_processes[j].parent_pid) && d.orphaned_parents.len() == 0),
{
    if verdict_for(d, watched) != Verdict::Okay && (forall|i: int|
        0 <= i < d.new_external_connections.len() ==> !public_address(
            #[trigger] d.new_external_connections[i].remote_addr,
        )) && d.orphaned_parents.len() == 0 {
        let j = choose|j: int|
            0 <= j < d.new_processes.len() && watched.contains(
                #[trigger] d.new_processes[j].parent_pid,
            );
        let w = choose|w: int| 0 <= w < watched.len() && watched[w] == d.new_processes[j].parent_pid;
        assert(watched[w] == d.new_processes[j].parent_pid);
    }
}

} // verus!
