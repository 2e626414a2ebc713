use data_collection::backoff::ReconnectBackoff;
use data_collection::maintenance::retry_pause_after;
use data_collection::supervisor::{MaintenanceWindow, Supervisor, TickInput, TickPlan};
use data_collection::timing::remaining_sleep_ms;

const DAY: u64 = 86_400_000;
const HOUR: u64 = 3_600_000;
const MINUTE: u64 = 60_000;

fn at(day: u64, ms_of_day: u64, mono: u64) -> TickInput {
    TickInput { utc_ms: day * DAY + ms_of_day, monotonic_ms: mono, task_finished: false }
}

#[test]
fn backoff_doubles_up_to_cap() {
    let mut b = ReconnectBackoff::new();
    let waits: Vec<u64> = (0..8).map(|_| b.next_wait_secs()).collect();
    assert_eq!(waits, vec![3, 6, 12, 24, 48, 60, 60, 60]);
}

#[test]
fn backoff_resets_after_connect() {
    let mut b = ReconnectBackoff::new();
    b.next_wait_secs();
    b.next_wait_secs();
    assert_eq!(b.current_wait_secs(), 12);
    b.on_connected();
    assert_eq!(b.current_wait_secs(), 3);
    assert_eq!(b.next_wait_secs(), 3);
    assert_eq!(b.next_wait_secs(), 6);
}

#[test]
fn default_window_is_five_past_five() {
    let w = MaintenanceWindow::default_window();
    assert_eq!(w.start_ms, 5 * HOUR);
    assert_eq!(w.clean_ms, 5 * HOUR + 3 * MINUTE);
    assert_eq!(w.end_ms, 5 * HOUR + 5 * MINUTE);
}

#[test]
fn window_rejects_misordered_times() {
    assert!(MaintenanceWindow::new(10, 5, 20).is_none());
    assert!(MaintenanceWindow::new(10, 20, 20).is_none());
    assert!(MaintenanceWindow::new(10, 15, DAY + 1).is_none());
    assert_eq!(
        MaintenanceWindow::new(10, 15, 20),
        Some(MaintenanceWindow { start_ms: 10, clean_ms: 15, end_ms: 20 })
    );
}

#[test]
fn starts_ingestion_outside_window() {
    let mut s = Supervisor::new(MaintenanceWindow::default_window());
    let p = s.tick(&at(100, 4 * HOUR, 0));
    assert_eq!(p, TickPlan { stop_ingestion: false, push: false, clean: false, start_ingestion: true });
    assert!(s.ingestion_started);
    let p = s.tick(&at(100, 4 * HOUR + 2_000, 2_000));
    assert!(!p.start_ingestion);
}

#[test]
fn crossing_window_start_stops_ingestion() {
    let mut s = Supervisor::new(MaintenanceWindow::default_window());
    s.tick(&at(100, 5 * HOUR - 2_000, 0));
    assert!(s.ingestion_started);
    let p = s.tick(&at(100, 5 * HOUR, 2_000));
    assert!(p.stop_ingestion);
    assert!(p.push);
    assert!(!p.start_ingestion);
    assert!(!s.ingestion_started);
}

#[test]
fn debounce_allows_one_start() {
    let mut s = Supervisor::new(MaintenanceWindow::default_window());
    let first = s.tick(&at(100, HOUR, 10_000));
    assert!(first.start_ingestion);
    // the task died at once: a second request 2 s later is ignored
    let mut e = at(100, HOUR + 2_000, 12_000);
    e.task_finished = true;
    let second = s.tick(&e);
    assert!(!second.start_ingestion);
    // 3 s after the first start the restart goes through
    let mut e = at(100, HOUR + 3_000, 13_000);
    e.task_finished = true;
    assert!(s.tick(&e).start_ingestion);
}

#[test]
fn nothing_runs_inside_window() {
    let mut s = Supervisor::new(MaintenanceWindow::default_window());
    s.tick(&at(7, 5 * HOUR - 2_000, 0));
    let mut mono = 2_000;
    let mut t = 5 * HOUR;
    while t < 5 * HOUR + 5 * MINUTE {
        let p = s.tick(&at(7, t, mono));
        assert!(!p.start_ingestion);
        assert!(!s.ingestion_started);
        t += 2_000;
        mono += 2_000;
    }
    let p = s.tick(&at(7, t, mono));
    assert!(p.start_ingestion);
    assert!(s.ingestion_started);
}

#[test]
fn daily_tasks_fire_once_per_day() {
    let mut s = Supervisor::new(MaintenanceWindow::default_window());
    let mut pushes = 0;
    let mut cleans = 0;
    let mut mono = 0;
    for day in [20u64, 21u64] {
        let mut t = 5 * HOUR;
        while t < 5 * HOUR + 5 * MINUTE {
            let p = s.tick(&at(day, t, mono));
            if p.push {
                pushes += 1;
                assert!(t < 5 * HOUR + 3 * MINUTE);
            }
            if p.clean {
                cleans += 1;
                assert!(t >= 5 * HOUR + 3 * MINUTE);
            }
            t += 500;
            mono += 500;
        }
        assert_eq!(s.last_pushed_day, Some(day));
        assert_eq!(s.last_cleaned_day, Some(day));
    }
    assert_eq!(pushes, 2);
    assert_eq!(cleans, 2);
}

#[test]
fn clean_fires_at_clean_time() {
    let mut s = Supervisor::new(MaintenanceWindow::default_window());
    let p = s.tick(&at(3, 5 * HOUR + 3 * MINUTE, 0));
    assert_eq!(p, TickPlan { stop_ingestion: false, push: false, clean: true, start_ingestion: false });
    let p = s.tick(&at(3, 5 * HOUR + 4 * MINUTE, 60_000));
    assert!(!p.clean);
}

#[test]
fn sleep_keeps_cadence() {
    assert_eq!(remaining_sleep_ms(2_000, 300), 1_700);
    assert_eq!(remaining_sleep_ms(2_000, 2_000), 0);
    assert_eq!(remaining_sleep_ms(10_000, 12_500), 0);
}

#[test]
fn maintenance_connect_retries_are_bounded() {
    assert_eq!(retry_pause_after(1), Some(2_000));
    assert_eq!(retry_pause_after(4), Some(2_000));
    assert_eq!(retry_pause_after(5), None);
}
