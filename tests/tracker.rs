use ripleyflow::tracker::ProgressState;

fn position_line(ms: u64) -> String {
    format!(
        "frame=1 time={:02}:{:02}:{:02}.{:02} bitrate=1k",
        ms / 3600000,
        (ms / 60000) % 60,
        (ms / 1000) % 60,
        (ms % 1000) / 10
    )
}

#[test]
fn start_reports_a_heartbeat() {
    let (st, beat) = ProgressState::start(0, 10000, 0);
    assert_eq!(beat, 100);
    assert_eq!(st.duration_ms, None);
    let (_, beat) = ProgressState::start(3300, 6600, 0);
    assert_eq!(beat, 3333);
}

#[test]
fn duration_discovery_reports_a_heartbeat() {
    let (mut st, _) = ProgressState::start(0, 10000, 0);
    let r = st.on_line("  Duration: 00:01:40.00, start: 0.0", 10);
    assert_eq!(r.heartbeat, Some(200));
    assert_eq!(r.progress, None);
    assert_eq!(st.duration_ms, Some(100000));
}

#[test]
fn only_the_first_duration_counts() {
    let (mut st, _) = ProgressState::start(0, 10000, 0);
    st.on_line("Duration: 00:01:40.00, start", 1);
    let r = st.on_line("Duration: 00:00:10.00, start", 2);
    assert_eq!(r.heartbeat, None);
    assert_eq!(st.duration_ms, Some(100000));
}

#[test]
fn activity_is_reported_before_the_duration() {
    let (mut st, _) = ProgressState::start(0, 10000, 0);
    let r = st.on_line(&position_line(5000), 10);
    assert_eq!(r.progress, Some(300));
}

#[test]
fn zero_duration_reports_no_progress() {
    let (mut st, _) = ProgressState::start(0, 10000, 0);
    st.on_line("Duration: 00:00:00.00, start", 1);
    let r = st.on_line(&position_line(5000), 1000);
    assert_eq!(r.progress, None);
}

#[test]
fn measured_progress_is_reported() {
    let (mut st, _) = ProgressState::start(0, 10000, 0);
    st.on_line("Duration: 00:01:40.00, start", 1);
    let r = st.on_line(&position_line(50000), 2);
    assert_eq!(r.progress, Some(5000));
    assert_eq!(st.last_emitted, 5000);
    assert_eq!(st.last_emit_ms, 2);
}

#[test]
fn rapid_updates_are_throttled() {
    let (mut st, _) = ProgressState::start(0, 10000, 0);
    st.on_line("Duration: 00:01:40.00, start", 0);
    let mut emitted = Vec::new();
    for k in 1..=100u64 {
        let r = st.on_line(&position_line(k * 10), k);
        if let Some(v) = r.progress {
            emitted.push(v);
        }
    }
    assert_eq!(emitted, vec![51]);
}

#[test]
fn slow_updates_pass_the_throttle_by_time() {
    let (mut st, _) = ProgressState::start(0, 10000, 0);
    st.on_line("Duration: 00:01:40.00, start", 0);
    let r = st.on_line(&position_line(10), 150);
    assert_eq!(r.progress, None);
    let r = st.on_line(&position_line(20), 201);
    assert_eq!(r.progress, Some(2));
}

#[test]
fn emitted_stream_is_spaced_and_bounded() {
    let (mut st, _) = ProgressState::start(0, 10000, 0);
    st.on_line("Duration: 00:00:10.00, start", 0);
    let mut emitted: Vec<(u64, u64)> = Vec::new();
    for k in 0..=1000u64 {
        let r = st.on_line(&position_line(k * 10), k);
        if let Some(v) = r.progress {
            emitted.push((v, k));
        }
    }
    assert!(emitted.len() as u64 <= 2 + 10000 / 51 + 1000 / 201);
    for w in emitted.windows(2) {
        let ((a, ta), (b, tb)) = (w[0], w[1]);
        assert!(b >= a);
        assert!(b <= 10000);
        assert!(b - a > 50 || tb - ta > 200);
    }
}
