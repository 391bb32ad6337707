use pulse::snapshot::{Connection, ProcessInfo, Snapshot};
use pulse::verdict::{classify, Config, Verdict};
use pulse::watch::{diff, Diff, OrphanedParent};

fn p(pid: u32, ppid: u32, name: &str) -> ProcessInfo {
    ProcessInfo {
        pid,
        parent_pid: ppid,
        name: name.to_string(),
    }
}

fn c(pid: u32, remote: &str) -> Connection {
    Connection {
        pid,
        local_addr: "0.0.0.0:0".to_string(),
        remote_addr: remote.to_string(),
        state: "ESTABLISHED".to_string(),
    }
}

fn diff_with_external(ext: &[Connection]) -> Diff {
    Diff {
        new_processes: vec![],
        new_external_connections: ext.to_vec(),
        orphaned_parents: vec![],
    }
}

#[test]
fn public_external_is_alert() {
    let d = diff_with_external(&[c(1, "8.8.8.8:443")]);
    let v = classify(&d, &Snapshot::default(), &Snapshot::default(), &Config::default());
    assert_eq!(v, Verdict::Alert);
}

#[test]
fn private_external_is_not_alert_alone() {
    // An external (off-host) but RFC1918 connection is not public, so no
    // ALERT by itself. With nothing else it is OK.
    let d = diff_with_external(&[c(1, "10.0.0.5:80")]);
    let v = classify(&d, &Snapshot::default(), &Snapshot::default(), &Config::default());
    assert_eq!(v, Verdict::Okay);
}

#[test]
fn watched_child_is_warn() {
    let d = Diff {
        new_processes: vec![p(9, 4, "child")],
        new_external_connections: vec![],
        orphaned_parents: vec![],
    };
    let v = classify(
        &d,
        &Snapshot::default(),
        &Snapshot::default(),
        &Config {
            watched_pids: vec![4],
        },
    );
    assert_eq!(v, Verdict::Warn);
}

#[test]
fn orphaned_parent_is_warn() {
    let d = Diff {
        new_processes: vec![],
        new_external_connections: vec![],
        orphaned_parents: vec![OrphanedParent {
            pid: 3,
            current_parent_pid: 4,
            baseline_parent_pid: 2,
            name: "child".to_string(),
        }],
    };
    let v = classify(&d, &Snapshot::default(), &Snapshot::default(), &Config::default());
    assert_eq!(v, Verdict::Warn);
}

#[test]
fn clean_diff_is_ok() {
    let d = Diff {
        new_processes: vec![],
        new_external_connections: vec![],
        orphaned_parents: vec![],
    };
    let v = classify(&d, &Snapshot::default(), &Snapshot::default(), &Config::default());
    assert_eq!(v, Verdict::Okay);
}

#[test]
fn alert_takes_precedence_over_warn() {
    // Public external connection AND a watched child: ALERT wins.
    let d = Diff {
        new_processes: vec![p(9, 4, "child")],
        new_external_connections: vec![c(1, "8.8.8.8:443")],
        orphaned_parents: vec![],
    };
    let v = classify(
        &d,
        &Snapshot::default(),
        &Snapshot::default(),
        &Config {
            watched_pids: vec![4],
        },
    );
    assert_eq!(v, Verdict::Alert);
}

#[test]
fn unwatched_child_is_ok() {
    let d = Diff {
        new_processes: vec![p(9, 4, "child")],
        new_external_connections: vec![c(1, "192.168.1.1:80")],
        orphaned_parents: vec![],
    };
    let v = classify(
        &d,
        &Snapshot::default(),
        &Snapshot::default(),
        &Config {
            watched_pids: vec![5, 6],
        },
    );
    assert_eq!(v, Verdict::Okay);
}

#[test]
fn public_connection_anywhere_in_list_alerts() {
    let d = diff_with_external(&[c(1, "10.0.0.5:80"), c(2, "169.254.1.1:1"), c(3, "203.0.113.66:443")]);
    let v = classify(&d, &Snapshot::default(), &Snapshot::default(), &Config::default());
    assert_eq!(v, Verdict::Alert);
}

#[test]
fn verdict_tags() {
    assert_eq!(Verdict::Okay.tag(), "OK");
    assert_eq!(Verdict::Warn.tag(), "WARN");
    assert_eq!(Verdict::Alert.tag(), "ALERT");
}

#[test]
fn snapshot_against_itself_is_ok() {
    let s = Snapshot {
        timestamp: 1,
        processes: vec![p(1, 0, "init"), p(880, 1, "agent"), p(881, 880, "worker")],
        connections: vec![c(880, "8.8.8.8:443")],
    };
    let d = diff(&s, &s);
    let v = classify(&d, &s, &s, &Config { watched_pids: vec![880] });
    assert_eq!(v, Verdict::Okay);
}

#[test]
fn end_to_end_drift_alerts() {
    let base = Snapshot {
        timestamp: 1,
        processes: vec![p(1, 0, "init"), p(880, 1, "agent")],
        connections: vec![],
    };
    let cur = Snapshot {
        timestamp: 2,
        processes: vec![p(1, 0, "init"), p(880, 1, "agent"), p(31337, 880, "implant")],
        connections: vec![c(31337, "203.0.113.66:443")],
    };
    let d = diff(&base, &cur);
    assert_eq!(d.new_processes.len(), 1);
    assert_eq!(d.new_processes[0].pid, 31337);
    assert_eq!(classify(&d, &base, &cur, &Config { watched_pids: vec![880] }), Verdict::Alert);
    let quiet = Snapshot { connections: vec![], ..cur.clone() };
    let d2 = diff(&base, &quiet);
    assert_eq!(classify(&d2, &base, &quiet, &Config { watched_pids: vec![880] }), Verdict::Warn);
    assert_eq!(classify(&d2, &base, &quiet, &Config::default()), Verdict::Okay);
}

#[test]
fn config_default_and_clone() {
    let c = Config::default();
    assert!(c.watched_pids.is_empty());
    let w = Config { watched_pids: vec![4, 5] };
    assert_eq!(w.clone().watched_pids, vec![4, 5]);
}
