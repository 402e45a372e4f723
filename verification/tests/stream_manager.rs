use rtsp2flv::session::{Action, Policy, WorkerState};
use rtsp2flv::stream_manager::{StartDecision, StreamManager};

fn start(m: &mut StreamManager, name: &str, now: u64) -> StartDecision {
    m.start_stream(name.to_string(), format!("rtsp://cam/{}", name), format!("rtmp://relay/live/{}", name), now)
}

fn cancel(name: &str) -> Action {
    Action::Cancel { name: name.to_string() }
}

fn remove(name: &str) -> Action {
    Action::Remove { name: name.to_string() }
}

fn exhausted(name: &str) -> Action {
    Action::Exhausted { name: name.to_string() }
}

fn restart(name: &str) -> Action {
    Action::Restart {
        name: name.to_string(),
        input_url: format!("rtsp://cam/{}", name),
        output_url: format!("rtmp://relay/live/{}", name),
    }
}

#[test]
fn standard_policy_values() {
    let p = Policy::default();
    assert_eq!(p.idle_timeout, 120_000);
    assert_eq!(p.cooldown, 10_000);
    assert_eq!(p.healthy_window, 60_000);
    assert_eq!(p.max_restarts, 5);
    let m = StreamManager::new();
    assert_eq!(m.policy(), p);
    assert_eq!(m.len(), 0);
    assert_eq!(m.clock(), 0);
}

#[test]
fn first_start_creates_a_session() {
    let mut m = StreamManager::new();
    assert_eq!(start(&mut m, "a", 1_000), StartDecision::Spawn);
    assert_eq!(m.len(), 1);
    let s = m.session("a").unwrap();
    assert_eq!(s.name(), "a");
    assert_eq!(s.input_url(), "rtsp://cam/a");
    assert_eq!(s.output_url(), "rtmp://relay/live/a");
    assert_eq!(s.last_heartbeat(), 1_000);
    assert_eq!(s.last_restart_attempt(), 1_000);
    assert_eq!(s.restart_count(), 0);
    assert_eq!(s.worker(), WorkerState::Active);
    assert!(!s.is_cancelled());
    assert!(m.session("b").is_none());
}

#[test]
fn start_of_a_running_stream_only_refreshes_it() {
    let mut m = StreamManager::new();
    assert_eq!(start(&mut m, "a", 1_000), StartDecision::Spawn);
    let again = m.start_stream("a".to_string(), "rtsp://other".to_string(), "rtmp://other".to_string(), 4_000);
    assert_eq!(again, StartDecision::Refresh);
    assert_eq!(m.len(), 1);
    let s = m.session("a").unwrap();
    assert_eq!(s.last_heartbeat(), 4_000);
    assert_eq!(s.last_restart_attempt(), 1_000);
    assert_eq!(s.input_url(), "rtsp://cam/a");
    assert_eq!(s.output_url(), "rtmp://relay/live/a");
    for now in [4_000, 4_001, 9_000] {
        assert_eq!(start(&mut m, "a", now), StartDecision::Refresh);
    }
    assert_eq!(m.len(), 1);
}

#[test]
fn start_replaces_a_finished_session() {
    let mut m = StreamManager::new();
    start(&mut m, "a", 0);
    start(&mut m, "b", 0);
    assert!(m.worker_finished("a"));
    assert_eq!(m.monitor_streams(10_000), vec![restart("a")]);
    assert_eq!(m.session("a").unwrap().restart_count(), 1);
    assert!(m.worker_finished("a"));
    let d = m.start_stream("a".to_string(), "rtsp://new".to_string(), "rtmp://new".to_string(), 12_000);
    assert_eq!(d, StartDecision::Spawn);
    assert_eq!(m.len(), 2);
    let s = m.session("a").unwrap();
    assert_eq!(s.input_url(), "rtsp://new");
    assert_eq!(s.output_url(), "rtmp://new");
    assert_eq!(s.restart_count(), 0);
    assert_eq!(s.last_heartbeat(), 12_000);
    assert_eq!(s.last_restart_attempt(), 12_000);
    assert_eq!(s.worker(), WorkerState::Active);
    assert_eq!(m.session("b").unwrap().last_heartbeat(), 0);
}

#[test]
fn heartbeat_of_an_unknown_stream_is_not_found() {
    let mut m = StreamManager::new();
    assert!(!m.heartbeat("a", 5));
    assert_eq!(m.len(), 0);
    assert_eq!(m.clock(), 0);
    start(&mut m, "a", 10);
    assert!(!m.heartbeat("b", 20));
    assert!(!m.heartbeat("A", 20));
    assert_eq!(m.session("a").unwrap().last_heartbeat(), 10);
    assert_eq!(m.clock(), 10);
}

#[test]
fn heartbeat_refreshes_liveness_and_nothing_else() {
    let mut m = StreamManager::new();
    start(&mut m, "a", 10);
    start(&mut m, "b", 10);
    assert!(m.heartbeat("a", 500));
    let s = m.session("a").unwrap();
    assert_eq!(s.last_heartbeat(), 500);
    assert_eq!(s.last_restart_attempt(), 10);
    assert_eq!(s.restart_count(), 0);
    assert_eq!(s.worker(), WorkerState::Active);
    assert_eq!(m.session("b").unwrap().last_heartbeat(), 10);
    assert_eq!(m.len(), 2);
}

#[test]
fn liveness_never_goes_back() {
    let mut m = StreamManager::new();
    start(&mut m, "a", 1_000);
    assert!(m.heartbeat("a", 5_000));
    assert!(m.heartbeat("a", 2_000));
    assert_eq!(m.session("a").unwrap().last_heartbeat(), 5_000);
    assert_eq!(start(&mut m, "a", 3_000), StartDecision::Refresh);
    assert_eq!(m.session("a").unwrap().last_heartbeat(), 5_000);
    assert_eq!(m.monitor_streams(100), Vec::new());
    assert_eq!(m.clock(), 5_000);
    assert!(m.heartbeat("a", 5_001));
    assert_eq!(m.session("a").unwrap().last_heartbeat(), 5_001);
}

#[test]
fn zombie_answers_heartbeats() {
    let mut m = StreamManager::new();
    start(&mut m, "a", 0);
    assert!(m.worker_finished("a"));
    assert!(m.heartbeat("a", 100));
    assert_eq!(m.session("a").unwrap().worker(), WorkerState::FinishedCrashed);
}

#[test]
fn idle_session_is_cancelled_and_removed_once_finished() {
    let mut m = StreamManager::new();
    start(&mut m, "a", 0);
    assert_eq!(m.monitor_streams(120_000), Vec::new());
    assert!(!m.session("a").unwrap().is_cancelled());
    assert_eq!(m.monitor_streams(120_001), vec![cancel("a")]);
    assert!(m.session("a").unwrap().is_cancelled());
    assert_eq!(m.session("a").unwrap().worker(), WorkerState::Active);
    // Still live: the removal waits.
    assert_eq!(m.monitor_streams(125_001), vec![cancel("a")]);
    assert_eq!(m.len(), 1);
    assert!(m.worker_finished("a"));
    assert_eq!(m.session("a").unwrap().worker(), WorkerState::FinishedClean);
    assert_eq!(m.monitor_streams(130_001), vec![cancel("a"), remove("a")]);
    assert_eq!(m.len(), 0);
    assert!(!m.heartbeat("a", 130_002));
    assert_eq!(m.monitor_streams(135_001), Vec::new());
}

#[test]
fn idle_crashed_session_is_removed_not_restarted() {
    let mut m = StreamManager::new();
    start(&mut m, "a", 0);
    assert!(m.worker_finished("a"));
    assert_eq!(m.monitor_streams(200_000), vec![cancel("a"), remove("a")]);
    assert_eq!(m.len(), 0);
}

#[test]
fn heartbeat_keeps_a_session_from_eviction() {
    let mut m = StreamManager::new();
    start(&mut m, "a", 0);
    for k in 1..10u64 {
        assert!(m.heartbeat("a", k * 100_000));
        assert_eq!(m.monitor_streams(k * 100_000 + 5_000), Vec::new());
    }
    assert_eq!(m.len(), 1);
}

#[test]
fn session_cancelled_for_idleness_is_removed_despite_a_late_heartbeat() {
    let mut m = StreamManager::new();
    start(&mut m, "a", 0);
    assert_eq!(m.monitor_streams(130_000), vec![cancel("a")]);
    assert!(m.heartbeat("a", 131_000));
    assert!(m.worker_finished("a"));
    assert_eq!(m.session("a").unwrap().worker(), WorkerState::FinishedClean);
    // Not a crash: no replacement; marked for removal earlier: removed now.
    assert_eq!(m.monitor_streams(135_000), vec![remove("a")]);
    assert_eq!(m.len(), 0);
    assert!(!m.heartbeat("a", 200_000));
    assert_eq!(start(&mut m, "a", 201_000), StartDecision::Spawn);
    assert!(!m.session("a").unwrap().is_cancelled());
    assert_eq!(m.session("a").unwrap().restart_count(), 0);
}

#[test]
fn cancelled_session_waits_while_its_execution_is_live() {
    let mut m = StreamManager::new();
    start(&mut m, "a", 0);
    assert_eq!(m.monitor_streams(130_000), vec![cancel("a")]);
    assert!(m.heartbeat("a", 131_000));
    // Wanted again and still live: nothing is asked, the mark stays.
    assert_eq!(m.monitor_streams(135_000), Vec::new());
    assert_eq!(m.len(), 1);
    assert!(m.session("a").unwrap().is_cancelled());
    assert_eq!(start(&mut m, "a", 136_000), StartDecision::Refresh);
    assert!(m.session("a").unwrap().is_cancelled());
    assert!(m.worker_finished("a"));
    assert_eq!(m.monitor_streams(140_000), vec![remove("a")]);
    assert_eq!(m.len(), 0);
}

#[test]
fn crashed_session_waits_for_the_cooldown() {
    let mut m = StreamManager::new();
    start(&mut m, "a", 0);
    assert!(m.worker_finished("a"));
    assert_eq!(m.session("a").unwrap().worker(), WorkerState::FinishedCrashed);
    assert_eq!(m.monitor_streams(5_000), Vec::new());
    assert_eq!(m.monitor_streams(9_999), Vec::new());
    assert_eq!(m.session("a").unwrap().restart_count(), 0);
    assert_eq!(m.session("a").unwrap().worker(), WorkerState::FinishedCrashed);
    assert_eq!(m.monitor_streams(10_000), vec![restart("a")]);
    let s = m.session("a").unwrap();
    assert_eq!(s.restart_count(), 1);
    assert_eq!(s.worker(), WorkerState::Active);
    assert_eq!(s.last_heartbeat(), 10_000);
    assert_eq!(s.last_restart_attempt(), 10_000);
    // Crash again at once: the cooldown counts from the restart.
    assert!(m.worker_finished("a"));
    assert_eq!(m.monitor_streams(15_000), Vec::new());
    assert_eq!(m.monitor_streams(19_999), Vec::new());
    assert_eq!(m.monitor_streams(20_000), vec![restart("a")]);
    assert_eq!(m.session("a").unwrap().restart_count(), 2);
}

#[test]
fn session_is_given_up_after_five_restarts() {
    let mut m = StreamManager::new();
    start(&mut m, "a", 0);
    for k in 1..=5u64 {
        assert!(m.worker_finished("a"));
        assert_eq!(m.monitor_streams(k * 10_000), vec![restart("a")]);
        assert_eq!(m.session("a").unwrap().restart_count(), k as u32);
    }
    assert!(m.worker_finished("a"));
    assert_eq!(m.monitor_streams(60_000), vec![exhausted("a"), remove("a")]);
    assert_eq!(m.len(), 0);
    assert_eq!(m.monitor_streams(70_000), Vec::new());
    assert!(!m.heartbeat("a", 70_000));
}

#[test]
fn exhausted_session_is_given_up_inside_the_cooldown_too() {
    let mut m = StreamManager::new();
    start(&mut m, "a", 0);
    for k in 1..=5u64 {
        assert!(m.worker_finished("a"));
        assert_eq!(m.monitor_streams(k * 10_000), vec![restart("a")]);
    }
    assert!(m.worker_finished("a"));
    assert_eq!(m.monitor_streams(50_001), vec![exhausted("a"), remove("a")]);
}

#[test]
fn healthy_run_forgives_earlier_crashes() {
    let mut m = StreamManager::new();
    start(&mut m, "a", 0);
    for k in 1..=4u64 {
        assert!(m.worker_finished("a"));
        assert_eq!(m.monitor_streams(k * 10_000), vec![restart("a")]);
    }
    assert_eq!(m.session("a").unwrap().restart_count(), 4);
    // Last restart attempt at 40_000; healthy for exactly the window: not yet.
    assert_eq!(m.monitor_streams(100_000), Vec::new());
    assert_eq!(m.session("a").unwrap().restart_count(), 4);
    assert_eq!(m.monitor_streams(100_001), Vec::new());
    assert_eq!(m.session("a").unwrap().restart_count(), 0);
    assert_eq!(m.session("a").unwrap().last_restart_attempt(), 40_000);
    // One crash after forgiveness is the first again.
    assert!(m.worker_finished("a"));
    assert_eq!(m.monitor_streams(105_000), vec![restart("a")]);
    assert_eq!(m.session("a").unwrap().restart_count(), 1);
    // And four more are allowed before the session is given up.
    for k in 2..=5u64 {
        assert!(m.worker_finished("a"));
        assert_eq!(m.monitor_streams(105_000 + k * 10_000), vec![restart("a")]);
        assert_eq!(m.session("a").unwrap().restart_count(), k as u32);
    }
}

#[test]
fn crashed_session_is_not_forgiven() {
    let mut m = StreamManager::with_policy(Policy {
        idle_timeout: 1_000_000,
        cooldown: 200_000,
        healthy_window: 60_000,
        max_restarts: 5,
    });
    start(&mut m, "a", 0);
    assert!(m.worker_finished("a"));
    assert_eq!(m.monitor_streams(200_000), vec![restart("a")]);
    assert!(m.worker_finished("a"));
    // Past the healthy window but crashed and cooling: the count stays.
    assert_eq!(m.monitor_streams(300_000), Vec::new());
    assert_eq!(m.session("a").unwrap().restart_count(), 1);
}

#[test]
fn policy_without_restarts_gives_up_at_the_first_crash() {
    let mut m = StreamManager::with_policy(Policy {
        idle_timeout: 100,
        cooldown: 10,
        healthy_window: 50,
        max_restarts: 0,
    });
    start(&mut m, "a", 0);
    assert!(m.worker_finished("a"));
    assert_eq!(m.monitor_streams(5), vec![exhausted("a"), remove("a")]);
    assert_eq!(m.len(), 0);
}

#[test]
fn report_of_an_unknown_stream_changes_nothing() {
    let mut m = StreamManager::new();
    assert!(!m.worker_finished("a"));
    start(&mut m, "a", 0);
    assert!(!m.worker_finished("b"));
    assert_eq!(m.session("a").unwrap().worker(), WorkerState::Active);
    assert!(m.worker_finished("a"));
    assert!(m.worker_finished("a"));
    assert_eq!(m.session("a").unwrap().worker(), WorkerState::FinishedCrashed);
}

#[test]
fn tick_visits_sessions_in_table_order() {
    let mut m = StreamManager::new();
    start(&mut m, "idle", 0);
    start(&mut m, "crashed", 0);
    start(&mut m, "healthy", 0);
    start(&mut m, "gone", 0);
    assert!(m.worker_finished("crashed"));
    assert!(m.worker_finished("gone"));
    assert!(m.heartbeat("crashed", 100_000));
    assert!(m.heartbeat("healthy", 100_000));
    assert_eq!(
        m.monitor_streams(130_000),
        vec![cancel("idle"), restart("crashed"), cancel("gone"), remove("gone")]
    );
    assert_eq!(m.len(), 3);
    assert!(m.session("idle").unwrap().is_cancelled());
    assert_eq!(m.session("crashed").unwrap().restart_count(), 1);
    assert_eq!(m.session("healthy").unwrap().last_heartbeat(), 100_000);
    assert!(m.session("gone").is_none());
    assert_eq!(m.clock(), 130_000);
}

#[test]
fn tick_of_an_empty_table_asks_nothing() {
    let mut m = StreamManager::new();
    assert_eq!(m.monitor_streams(1_000_000), Vec::new());
    assert_eq!(m.len(), 0);
    assert_eq!(m.clock(), 1_000_000);
}
