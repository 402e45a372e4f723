use rtsp2flv::session::{Action, Policy, StreamSession, WorkerState};

fn session(now: u64) -> StreamSession {
    StreamSession::new("cam".to_string(), "rtsp://cam".to_string(), "rtmp://relay/cam".to_string(), now)
}

#[test]
fn fresh_session_is_live_and_uncounted() {
    let s = session(42);
    assert_eq!(s.name(), "cam");
    assert_eq!(s.input_url(), "rtsp://cam");
    assert_eq!(s.output_url(), "rtmp://relay/cam");
    assert_eq!(s.last_heartbeat(), 42);
    assert_eq!(s.last_restart_attempt(), 42);
    assert_eq!(s.restart_count(), 0);
    assert_eq!(s.worker(), WorkerState::Active);
    assert!(!s.is_cancelled());
}

#[test]
fn session_is_called_by_its_name_only() {
    let s = session(7);
    assert!(s.is_called(&"cam".to_string()));
    assert!(!s.is_called(&"Cam".to_string()));
    assert!(!s.is_called(&"ca".to_string()));
    assert!(!s.is_called(&"".to_string()));
}

#[test]
fn heartbeat_and_exit_touch_one_field_each() {
    let mut s = session(7);
    s.beat(9);
    assert_eq!(s.last_heartbeat(), 9);
    assert_eq!(s.last_restart_attempt(), 7);
    assert_eq!(s.worker(), WorkerState::Active);
    s.exit();
    assert_eq!(s.worker(), WorkerState::FinishedCrashed);
    assert_eq!(s.last_heartbeat(), 9);
    assert_eq!(s.restart_count(), 0);
    assert_eq!(s.name(), "cam");
}

#[test]
fn tick_before_the_session_began_changes_nothing() {
    let policy = Policy::default();
    let mut actions = Vec::new();
    let s = session(500_000).tick(&policy, 100, &mut actions).unwrap();
    assert!(actions.is_empty());
    assert_eq!(s.last_heartbeat(), 500_000);
    assert_eq!(s.restart_count(), 0);
    let mut crashed = session(500_000);
    crashed.exit();
    let s = crashed.tick(&policy, 100, &mut actions).unwrap();
    assert!(actions.is_empty());
    assert_eq!(s.worker(), WorkerState::FinishedCrashed);
}

#[test]
fn exit_is_clean_only_after_cancellation() {
    let policy = Policy::default();
    let mut actions = Vec::new();
    let mut crashed = session(0);
    crashed.exit();
    assert_eq!(crashed.worker(), WorkerState::FinishedCrashed);
    let mut cancelled = session(0).tick(&policy, 200_000, &mut actions).unwrap();
    assert!(cancelled.is_cancelled());
    cancelled.exit();
    assert_eq!(cancelled.worker(), WorkerState::FinishedClean);
    cancelled.exit();
    assert_eq!(cancelled.worker(), WorkerState::FinishedClean);
}

#[test]
fn tick_appends_to_the_actions_it_is_given() {
    let policy = Policy::default();
    let mut actions = vec![Action::Remove { name: "earlier".to_string() }];
    let kept = session(0).tick(&policy, 120_001, &mut actions);
    assert!(kept.is_some());
    assert_eq!(
        actions,
        vec![Action::Remove { name: "earlier".to_string() }, Action::Cancel { name: "cam".to_string() }]
    );
}

#[test]
fn tick_leaves_a_healthy_session_alone() {
    let policy = Policy::default();
    let mut actions = Vec::new();
    let s = session(0).tick(&policy, 60_000, &mut actions).unwrap();
    assert!(actions.is_empty());
    assert_eq!(s.last_heartbeat(), 0);
    assert_eq!(s.restart_count(), 0);
    assert_eq!(s.worker(), WorkerState::Active);
    assert!(!s.is_cancelled());
}
