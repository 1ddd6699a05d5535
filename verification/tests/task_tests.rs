use augmcp::tasks::{eta_secs, Phase, TaskManager, TaskProgress};

#[test]
fn begin_is_exclusive_until_a_terminal_transition() {
    let mut mgr = TaskManager::new();
    let key = "/proj".to_string();
    assert!(mgr.begin(&key, 100));
    assert!(!mgr.begin(&key, 101), "a live job must block a second begin");
    assert!(!mgr.begin(&key, 102));
    mgr.finish(&key, 110);
    assert!(mgr.begin(&key, 120), "a finished job must not block a new begin");
    assert!(!mgr.begin(&key, 121));
    mgr.fail(&key, "boom".to_string(), 130);
    assert!(mgr.begin(&key, 140), "a failed job must not block a new begin");
}

#[test]
fn begin_is_independent_per_key() {
    let mut mgr = TaskManager::new();
    assert!(mgr.begin(&"/a".to_string(), 1));
    assert!(mgr.begin(&"/b".to_string(), 1));
    assert!(!mgr.begin(&"/a".to_string(), 2));
}

#[test]
fn abort_succeeds_exactly_once_per_running_job() {
    let rt = tokio::runtime::Runtime::new().unwrap();
    let mut mgr = TaskManager::new();
    let key = "/proj".to_string();
    assert!(mgr.begin(&key, 10));
    let handle = rt.spawn(async {});
    mgr.set_handle(&key, handle);
    assert!(mgr.is_running(&key));
    assert!(mgr.abort(&key, 20));
    assert!(!mgr.is_running(&key));
    assert!(!mgr.abort(&key, 21), "a second abort must fail");
    let record = mgr.get(&key).unwrap();
    assert_eq!(record.phase, Phase::Aborted);
    assert_eq!(record.updated_at, 20);
    // the terminal phase frees the key
    assert!(mgr.begin(&key, 30));
}

#[test]
fn abort_without_a_running_job_fails() {
    let mut mgr = TaskManager::new();
    assert!(!mgr.abort(&"/nothing".to_string(), 5));
    assert!(mgr.begin(&"/proj".to_string(), 5));
    // a progress record alone, with no handle, is not a running job
    assert!(!mgr.abort(&"/proj".to_string(), 6));
    assert!(!mgr.is_running(&"/proj".to_string()));
}

#[test]
fn finish_drops_the_handle_but_keeps_the_record() {
    let rt = tokio::runtime::Runtime::new().unwrap();
    let mut mgr = TaskManager::new();
    let key = "/proj".to_string();
    assert!(mgr.begin(&key, 10));
    mgr.set_handle(&key, rt.spawn(async {}));
    mgr.finish(&key, 42);
    assert!(!mgr.is_running(&key));
    let record = mgr.get(&key).unwrap();
    assert_eq!(record.phase, Phase::Done);
    assert_eq!(record.percent, 100);
    assert_eq!(record.updated_at, 42);
}

#[test]
fn progress_updates_track_phases_totals_and_percent() {
    let mut mgr = TaskManager::new();
    let key = "/proj".to_string();
    assert!(mgr.begin(&key, 1000));
    let started = mgr.get(&key).unwrap();
    assert_eq!(started.phase, Phase::Starting);
    assert_eq!(started.started_at, 1000);

    mgr.set_phase(&key, Phase::Collecting, 1001);
    assert_eq!(mgr.get(&key).unwrap().phase, Phase::Collecting);

    mgr.set_upload_totals(&key, 4, 2, 10, 1002);
    let with_totals = mgr.get(&key).unwrap();
    assert_eq!(with_totals.new_total, 4);
    assert_eq!(with_totals.chunks_total, 2);
    assert_eq!(with_totals.total, 10);

    mgr.on_chunk(&key, 2, 1, 64, 1003);
    let mid = mgr.get(&key).unwrap();
    assert_eq!(mid.phase, Phase::Uploading);
    assert_eq!(mid.uploaded, 2);
    assert_eq!(mid.chunk_index, 1);
    assert_eq!(mid.chunk_bytes, 64);
    assert_eq!(mid.percent, 50);

    mgr.on_chunk(&key, 4, 2, 32, 1004);
    assert_eq!(mgr.get(&key).unwrap().percent, 100);
}

#[test]
fn percent_is_100_when_nothing_was_new() {
    let mut mgr = TaskManager::new();
    let key = "/proj".to_string();
    assert!(mgr.begin(&key, 1));
    mgr.set_upload_totals(&key, 0, 0, 7, 2);
    mgr.on_chunk(&key, 0, 0, 0, 3);
    assert_eq!(mgr.get(&key).unwrap().percent, 100);
}

#[test]
fn updates_for_an_unknown_key_change_nothing() {
    let mut mgr = TaskManager::new();
    mgr.set_phase(&"/ghost".to_string(), Phase::Uploading, 1);
    mgr.on_chunk(&"/ghost".to_string(), 1, 1, 1, 2);
    mgr.finish(&"/ghost".to_string(), 3);
    assert!(mgr.get(&"/ghost".to_string()).is_none());
}

#[test]
fn eta_formula_scenario() {
    let mut p = TaskProgress::new_start(0);
    p.chunk_index = 2;
    p.chunks_total = 5;
    p.started_at = 0;
    p.updated_at = 10;
    // avg = 10 / 2 = 5, eta = 5 * (5 - 2) = 15
    assert_eq!(eta_secs(&p), Some(15));
}

#[test]
fn eta_is_absent_before_the_first_batch() {
    let mut p = TaskProgress::new_start(0);
    p.chunks_total = 5;
    p.updated_at = 10;
    assert_eq!(eta_secs(&p), None);
    let mut q = TaskProgress::new_start(0);
    q.chunk_index = 2;
    q.updated_at = 10;
    assert_eq!(eta_secs(&q), None);
}

#[test]
fn eta_uses_integer_division_of_elapsed_time() {
    let mut p = TaskProgress::new_start(0);
    p.chunk_index = 3;
    p.chunks_total = 4;
    p.started_at = 100;
    p.updated_at = 110;
    // avg = 10 / 3 = 3, eta = 3 * 1 = 3
    assert_eq!(eta_secs(&p), Some(3));
}
