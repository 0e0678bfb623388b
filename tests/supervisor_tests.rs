use tunneldash::supervisor::{agent_args, select_protocol, ProcessTable, Protocol, StartPlan};

fn strings(v: &[&str]) -> Vec<String> {
    v.iter().map(|s| s.to_string()).collect()
}

fn start(table: &mut ProcessTable<u32>, host: &str, port: u16, proto: Option<&str>, handle: u32) -> (bool, Result<(), String>) {
    match table.plan_start(host, port, proto) {
        StartPlan::AlreadyRunning => (false, Ok(())),
        StartPlan::Spawn(_) => (true, table.record_start(host.to_string(), Ok(handle))),
    }
}

#[test]
fn start_twice_spawns_once() {
    let mut t: ProcessTable<u32> = ProcessTable::new();
    let (spawned1, r1) = start(&mut t, "db.example.com", 5432, Some("tcp"), 1);
    let (spawned2, r2) = start(&mut t, "db.example.com", 5432, Some("tcp"), 2);
    assert!(spawned1);
    assert!(!spawned2);
    assert_eq!(r1, Ok(()));
    assert_eq!(r2, Ok(()));
    assert_eq!(t.len(), 1);
    assert_eq!(t.handle("db.example.com"), Some(&1));
}

#[test]
fn stop_absent_and_present() {
    let mut t: ProcessTable<u32> = ProcessTable::new();
    assert_eq!(t.stop("nobody.example.com"), None);
    assert_eq!(t.len(), 0);
    start(&mut t, "a.example.com", 2222, None, 7);
    start(&mut t, "b.example.com", 2223, None, 8);
    assert_eq!(t.stop("a.example.com"), Some(7));
    assert!(!t.contains("a.example.com"));
    assert!(t.contains("b.example.com"));
    assert_eq!(t.stop("a.example.com"), None);
    assert_eq!(t.len(), 1);
}

#[test]
fn dedup_across_protocols() {
    let mut t: ProcessTable<u32> = ProcessTable::new();
    let (spawned1, _) = start(&mut t, "h.example.com", 8080, Some("tcp"), 11);
    assert!(spawned1);
    match t.plan_start("h.example.com", 9090, Some("ssh")) {
        StartPlan::AlreadyRunning => {}
        StartPlan::Spawn(_) => panic!("second process planned"),
    }
    assert_eq!(t.handle("h.example.com"), Some(&11));
    assert_eq!(t.len(), 1);
}

#[test]
fn failed_spawn_leaves_table() {
    let mut t: ProcessTable<u32> = ProcessTable::new();
    let r = t.record_start("x.example.com".to_string(), Err("No such file or directory (os error 2)".to_string()));
    assert_eq!(r, Err("No such file or directory (os error 2)".to_string()));
    assert!(!t.contains("x.example.com"));
    assert_eq!(t.len(), 0);
}

#[test]
fn unknown_protocol_falls_back_to_tcp() {
    let quic = agent_args("h.example.com", 8080, Some("quic"));
    let tcp = agent_args("h.example.com", 8080, Some("tcp"));
    assert_eq!(quic, tcp);
    assert_eq!(quic, strings(&["access", "tcp", "--hostname", "h.example.com", "--url", "localhost:8080"]));
    assert_eq!(agent_args("h.example.com", 8080, None), tcp);
    assert_eq!(select_protocol(Some("quic")), Protocol::Tcp);
}

#[test]
fn ssh_arguments() {
    assert_eq!(
        agent_args("ssh.example.com", 22, Some("ssh")),
        strings(&["access", "ssh", "--hostname", "ssh.example.com", "--url", "localhost:22"])
    );
    assert_eq!(select_protocol(Some("ssh")), Protocol::Ssh);
    assert_eq!(select_protocol(Some("SSH")), Protocol::Tcp);
}

#[test]
fn port_edges() {
    assert_eq!(agent_args("h", 0, None)[5], "localhost:0");
    assert_eq!(agent_args("h", 65535, None)[5], "localhost:65535");
    assert_eq!(agent_args("h", 10, None)[5], "localhost:10");
}

#[test]
fn plan_lists_arguments() {
    let t: ProcessTable<u32> = ProcessTable::new();
    match t.plan_start("p.example.com", 3000, Some("ssh")) {
        StartPlan::Spawn(args) => assert_eq!(args, strings(&["access", "ssh", "--hostname", "p.example.com", "--url", "localhost:3000"])),
        StartPlan::AlreadyRunning => panic!("nothing tracked yet"),
    }
}
