use pulse::snapshot::{Connection, ProcessInfo, Snapshot};
use pulse::watch::{baseline, diff, OrphanedParent};

fn snap(ts: u64, procs: &[ProcessInfo], conns: &[Connection]) -> Snapshot {
    Snapshot {
        timestamp: ts,
        processes: procs.to_vec(),
        connections: conns.to_vec(),
    }
}

fn p(pid: u32, ppid: u32, name: &str) -> ProcessInfo {
    ProcessInfo {
        pid,
        parent_pid: ppid,
        name: name.to_string(),
    }
}

fn c(pid: u32, local: &str, remote: &str, state: &str) -> Connection {
    Connection {
        pid,
        local_addr: local.to_string(),
        remote_addr: remote.to_string(),
        state: state.to_string(),
    }
}

#[test]
fn new_process_detected() {
    let base = snap(1, &[p(1, 0, "init"), p(2, 1, "shell")], &[]);
    let cur = snap(
        2,
        &[p(1, 0, "init"), p(2, 1, "shell"), p(3, 2, "payload")],
        &[],
    );
    let d = diff(&base, &cur);
    assert_eq!(d.new_processes.len(), 1);
    assert_eq!(d.new_processes[0].pid, 3);
    assert!(d.new_external_connections.is_empty());
    assert!(d.orphaned_parents.is_empty());
}

#[test]
fn existing_process_not_flagged_as_new() {
    let base = snap(1, &[p(1, 0, "init")], &[]);
    let cur = snap(2, &[p(1, 0, "init")], &[]);
    let d = diff(&base, &cur);
    assert!(d.new_processes.is_empty());
}

#[test]
fn new_external_connection_detected() {
    let base = snap(1, &[p(1, 0, "init")], &[c(1, "127.0.0.1:5000", "127.0.0.1:5001", "ESTABLISHED")]);
    let cur = snap(
        2,
        &[p(1, 0, "init")],
        &[
            c(1, "127.0.0.1:5000", "127.0.0.1:5001", "ESTABLISHED"),
            c(1, "192.168.1.7:4444", "8.8.8.8:443", "ESTABLISHED"),
        ],
    );
    let d = diff(&base, &cur);
    assert_eq!(d.new_external_connections.len(), 1);
    assert_eq!(d.new_external_connections[0].remote_addr, "8.8.8.8:443");
}

#[test]
fn local_connection_not_external() {
    let base = snap(1, &[p(1, 0, "init")], &[]);
    let cur = snap(
        2,
        &[p(1, 0, "init")],
        &[c(1, "127.0.0.1:5000", "127.0.0.1:5001", "ESTABLISHED")],
    );
    let d = diff(&base, &cur);
    assert!(d.new_external_connections.is_empty());
}

#[test]
fn listening_socket_not_external() {
    let base = snap(1, &[p(1, 0, "init")], &[]);
    let cur = snap(
        2,
        &[p(1, 0, "init")],
        &[c(1, "0.0.0.0:0", "0.0.0.0:0", "LISTEN")],
    );
    let d = diff(&base, &cur);
    assert!(d.new_external_connections.is_empty());
}

#[test]
fn orphaned_parent_reparent_detected() {
    // PID 3 exists in both snapshots but its parent changed 2 -> 4.
    let base = snap(1, &[p(1, 0, "init"), p(2, 1, "shell"), p(3, 2, "child")], &[]);
    let cur = snap(
        2,
        &[p(1, 0, "init"), p(4, 1, "shell2"), p(3, 4, "child")],
        &[],
    );
    let d = diff(&base, &cur);
    assert_eq!(d.orphaned_parents.len(), 1);
    assert_eq!(d.orphaned_parents[0].pid, 3);
    assert_eq!(d.orphaned_parents[0].baseline_parent_pid, 2);
    assert_eq!(d.orphaned_parents[0].current_parent_pid, 4);
}

#[test]
fn orphaned_parent_parent_gone() {
    // PID 5 is new and its parent (404) does not exist in baseline at all.
    let base = snap(1, &[p(1, 0, "init")], &[]);
    let cur = snap(2, &[p(1, 0, "init"), p(5, 404, "spawn")], &[]);
    let d = diff(&base, &cur);
    assert_eq!(d.orphaned_parents.len(), 1);
    assert_eq!(d.orphaned_parents[0].pid, 5);
    assert_eq!(d.orphaned_parents[0].baseline_parent_pid, 0);
}

#[test]
fn unchanged_no_orphans() {
    let base = snap(1, &[p(1, 0, "init"), p(2, 1, "shell")], &[]);
    let cur = snap(2, &[p(1, 0, "init"), p(2, 1, "shell")], &[]);
    let d = diff(&base, &cur);
    assert!(d.orphaned_parents.is_empty());
}

#[test]
fn baseline_parent_gone_is_orphan() {
    // PID 3 keeps parent 2, but 2 is gone from the current snapshot.
    let base = snap(1, &[p(1, 0, "init"), p(2, 1, "shell"), p(3, 2, "child")], &[]);
    let cur = snap(2, &[p(1, 0, "init"), p(3, 2, "child")], &[]);
    let d = diff(&base, &cur);
    assert_eq!(
        d.orphaned_parents,
        vec![OrphanedParent {
            pid: 3,
            current_parent_pid: 2,
            baseline_parent_pid: 2,
            name: "child".to_string(),
        }]
    );
}

#[test]
fn root_parent_is_never_missing() {
    let base = snap(1, &[p(7, 0, "svc")], &[]);
    let cur = snap(2, &[p(7, 0, "svc"), p(8, 0, "svc2")], &[]);
    let d = diff(&base, &cur);
    assert!(d.orphaned_parents.is_empty());
    assert_eq!(d.new_processes, vec![p(8, 0, "svc2")]);
}

#[test]
fn reparent_to_root_is_orphan() {
    let base = snap(1, &[p(1, 0, "init"), p(2, 1, "shell")], &[]);
    let cur = snap(2, &[p(1, 0, "init"), p(2, 0, "shell")], &[]);
    let d = diff(&base, &cur);
    assert_eq!(d.orphaned_parents.len(), 1);
    assert_eq!(d.orphaned_parents[0].current_parent_pid, 0);
    assert_eq!(d.orphaned_parents[0].baseline_parent_pid, 1);
}

#[test]
fn last_baseline_record_of_a_pid_wins() {
    // The baseline lists pid 3 twice; its later record (parent 1) counts.
    let base = snap(1, &[p(1, 0, "init"), p(3, 9, "old"), p(3, 1, "child")], &[]);
    let cur = snap(2, &[p(1, 0, "init"), p(3, 1, "child")], &[]);
    let d = diff(&base, &cur);
    assert!(d.orphaned_parents.is_empty());
    assert!(d.new_processes.is_empty());
}

#[test]
fn changed_connection_state_is_a_new_record() {
    let base = snap(1, &[], &[c(1, "10.0.0.2:5000", "8.8.8.8:443", "SYN_SENT")]);
    let cur = snap(2, &[], &[c(1, "10.0.0.2:5000", "8.8.8.8:443", "ESTABLISHED")]);
    let d = diff(&base, &cur);
    assert_eq!(d.new_external_connections.len(), 1);
    assert_eq!(d.new_external_connections[0].state, "ESTABLISHED");
}

#[test]
fn new_processes_keep_current_order() {
    let base = snap(1, &[p(1, 0, "init")], &[]);
    let cur = snap(2, &[p(9, 1, "b"), p(1, 0, "init"), p(5, 1, "a")], &[]);
    let d = diff(&base, &cur);
    assert_eq!(d.new_processes, vec![p(9, 1, "b"), p(5, 1, "a")]);
}

#[test]
fn self_diff_is_empty() {
    let s = snap(
        1,
        &[p(1, 0, "init"), p(2, 1, "shell"), p(3, 2, "vim")],
        &[
            c(2, "10.0.0.2:5000", "8.8.8.8:443", "ESTABLISHED"),
            c(3, "127.0.0.1:1", "127.0.0.1:2", "ESTABLISHED"),
        ],
    );
    let d = diff(&s, &s);
    assert!(d.new_processes.is_empty());
    assert!(d.new_external_connections.is_empty());
    assert!(d.orphaned_parents.is_empty());
}

#[test]
fn self_diff_reports_dangling_parent() {
    // Outside the conditions of the self-comparison law: a parent missing
    // from the snapshot is reported even against itself.
    let s = snap(1, &[p(5, 404, "spawn")], &[]);
    let d = diff(&s, &s);
    assert!(d.new_processes.is_empty());
    assert_eq!(d.orphaned_parents.len(), 1);
    assert_eq!(d.orphaned_parents[0].baseline_parent_pid, 404);
}

#[test]
fn baseline_keeps_records() {
    let b = baseline(vec![p(1, 0, "init")], vec![]);
    assert_eq!(b.processes, vec![p(1, 0, "init")]);
    assert!(b.connections.is_empty());
}
