use ripleyflow::timecode::{parse_duration, parse_time, parse_time_string, progress_percent, remap};

#[test]
fn time_string_reads_hours_minutes_seconds() {
    assert_eq!(parse_time_string("01:02:03.50"), Some(3723500));
    assert_eq!(parse_time_string("00:00:00"), Some(0));
    assert_eq!(parse_time_string("10:00:00.123456"), Some(36000123));
}

#[test]
fn malformed_time_strings_give_nothing() {
    assert_eq!(parse_time_string("1:2"), None);
    assert_eq!(parse_time_string("abc:00:00"), None);
    assert_eq!(parse_time_string("1:2:3:4"), None);
    assert_eq!(parse_time_string(""), None);
    assert_eq!(parse_time_string("00:00:1x"), None);
    assert_eq!(parse_time_string("N/A"), None);
}

#[test]
fn time_string_past_u64_gives_nothing() {
    assert_eq!(parse_time_string("99999999999999999999:00:00"), None);
}

#[test]
fn duration_line_is_read() {
    let line = "  Duration: 00:01:40.00, start: 0.000000, bitrate: 1000 kb/s";
    assert_eq!(parse_duration(line), Some(100000));
    assert_eq!(parse_duration("Duration: 00:01:40.00"), None);
    assert_eq!(parse_duration("no marker here"), None);
}

#[test]
fn position_line_is_read() {
    let line = "frame=  100 fps=25 q=28.0 size=  256kB time=00:00:50.00 bitrate= 41.9kbits/s";
    assert_eq!(parse_time(line), Some(50000));
    assert_eq!(parse_time("time=00:00:10.00\r"), Some(10000));
    assert_eq!(parse_time("time=N/A bitrate=N/A"), None);
}

#[test]
fn percentage_is_clamped() {
    assert_eq!(progress_percent(50000, 100000), 5000);
    assert_eq!(progress_percent(200, 100), 10000);
    assert_eq!(progress_percent(0, 100), 0);
    assert_eq!(progress_percent(1, 3), 3333);
}

#[test]
fn local_progress_is_remapped() {
    assert_eq!(remap(5000, 3300, 6600), 4950);
    assert_eq!(remap(0, 3300, 6600), 3300);
    assert_eq!(remap(10000, 3300, 6600), 6600);
}

#[test]
fn progress_of_a_stream_never_goes_back() {
    let mut last = 0;
    for t in [0u64, 10, 500, 500, 20000, 99999, 100000, 150000] {
        let p = progress_percent(t, 100000);
        assert!(p >= last);
        assert!(p <= 10000);
        last = p;
    }
}
