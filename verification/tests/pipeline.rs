use server_discover::pipeline::{
    CandidateEvent, DispatchAction, Dispatcher, Orchestrator, RecordStore, ScanCandidate,
};
use server_discover::slp::{ChatStyle, Error, ModernInfo, ServerRecord};

fn candidate(ip: &str) -> ScanCandidate {
    ScanCandidate { ip: ip.to_string(), line: "{}".to_string() }
}

// After all workers report completion, exactly one shutdown sentinel is
// produced: the last completion and no other.
#[test]
fn exactly_one_shutdown() {
    let mut orch = Orchestrator::new(3);
    let sends = [orch.worker_done(), orch.worker_done(), orch.worker_done()];
    assert_eq!(sends, [false, false, true]);
    assert!(orch.shutdown_sent);
}

// The dispatcher does not report completion until every verification task
// it spawned has finished, however slow those tasks are.
#[test]
fn dispatcher_waits_for_slow_tasks() {
    let mut d = Dispatcher::new();
    assert!(matches!(
        d.on_event(CandidateEvent::Discovered(candidate("1.1.1.1"))),
        DispatchAction::Spawn(_)
    ));
    assert!(matches!(
        d.on_event(CandidateEvent::Discovered(candidate("2.2.2.2"))),
        DispatchAction::Spawn(_)
    ));
    assert!(matches!(d.on_event(CandidateEvent::Shutdown), DispatchAction::Drain));
    // the sentinel is in, but two tasks are still in flight
    assert!(!d.run_complete());
    d.task_finished(&Ok(legacy_record("1.1.1.1")));
    assert!(!d.run_complete());
    d.task_finished(&Err(Error::Timeout));
    assert!(d.run_complete());
}

// A verification failure is isolated: it neither stops the dispatcher nor
// touches the sibling task still in flight.
#[test]
fn failed_task_is_isolated() {
    let mut d = Dispatcher::new();
    d.on_event(CandidateEvent::Discovered(candidate("1.1.1.1")));
    d.on_event(CandidateEvent::Discovered(candidate("2.2.2.2")));
    // the first candidate is unreachable
    d.task_finished(&Err(Error::ServerUnreachable));
    assert!(!d.stopped);
    assert_eq!(d.spawned, 2);
    assert_eq!(d.completed, 1);
    // the sibling still completes normally and the run drains as usual
    d.on_event(CandidateEvent::Shutdown);
    assert!(!d.run_complete());
    d.task_finished(&Ok(legacy_record("2.2.2.2")));
    assert!(d.run_complete());
}

fn legacy_record(ip: &str) -> ServerRecord {
    ServerRecord::Legacy {
        ip: ip.to_string(),
        scan_line: "{}".to_string(),
        full_response: "m\u{a7}0\u{a7}20".to_string(),
        motd: "m".to_string(),
        max_players: "20".to_string(),
        current_players: "0".to_string(),
    }
}

fn modern_record(ip: &str) -> ServerRecord {
    server_discover::slp::make_modern_record(
        ip.to_string(),
        "{}".to_string(),
        ModernInfo {
            version: "1.8".to_string(),
            protocol: 47,
            max_players: 20,
            online_players: 0,
            sample: None,
            description_text: "srv".to_string(),
            style: ChatStyle {
                bold: false,
                italic: false,
                underlined: false,
                strikethrough: false,
                obfuscated: false,
            },
            color: None,
            extra: "None".to_string(),
            favicon: None,
            mod_info: "None".to_string(),
            forge_data: "None".to_string(),
        },
    )
}

// Two identical modern records are stored as two independent entries.
#[test]
fn no_deduplication() {
    let mut store = RecordStore::new();
    store.insert(modern_record("3.3.3.3"));
    store.insert(modern_record("3.3.3.3"));
    assert_eq!(store.len(), 2);
    match (&store.records[0], &store.records[1]) {
        (
            ServerRecord::Modern { ip: a, version: va, .. },
            ServerRecord::Modern { ip: b, version: vb, .. },
        ) => {
            assert_eq!(a, b);
            assert_eq!(va, vb);
        }
        _ => panic!("expected two modern records"),
    }
}
