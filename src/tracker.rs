//! The progress decisions of one running stage: which values a line of the
//! encoder's diagnostic stream makes the stage report, and when.
use vstd::prelude::*;
use crate::timecode::{
    fit, line_duration, line_position, parse_duration, parse_time, percent, progress_percent, remap,
    remapped, FULL,
};

verus! {

/// Reported right after the process starts (1%).
pub const SPAWN_HEARTBEAT: u64 = 100;

/// Reported right after the total duration is found (2%).
pub const DURATION_HEARTBEAT: u64 = 200;

/// Reported for a position seen before any duration is known (3%).
pub const ACTIVITY: u64 = 300;

/// A new value is reported when it moves by more than this (0.5%) ...
pub const MIN_STEP: u64 = 50;

/// ... or when this many milliseconds have passed since the last report.
pub const MIN_INTERVAL_MS: u64 = 200;

/// State of one stage run. Values are overall percentages, in hundredths, of
/// the stage's range `[low, high]`.
#[derive(Debug, Clone, Copy, PartialEq, Eq)]
pub struct ProgressState {
    pub low: u64,
    pub high: u64,
    pub duration_ms: Option<u64>,
    pub last_emitted: u64,
    pub last_emit_ms: u64,
}

/// What one line makes the stage report: a heartbeat when it reveals the
/// duration, then a progress value when one is due.
#[derive(Debug, Clone, Copy, PartialEq, Eq)]
pub struct LineEmits {
    pub heartbeat: Option<u64>,
    pub progress: Option<u64>,
}

/// Whether a value may be reported, given the last report and the time now.
pub open spec fn throttle_allows(last: int, last_ms: int, v: int, now: int) -> bool {
    v - last > MIN_STEP || last - v > MIN_STEP || now - last_ms > MIN_INTERVAL_MS
}

/// The duration known after a line: the first one found stays.
pub open spec fn next_duration(d: Option<u64>, line: Seq<char>) -> Option<u64> {
    if d is None {
        fit(line_duration(line))
    } else {
        d
    }
}

/// The stage-local percentage that a line measures, once the duration is
/// `d`: the position against the duration, or the activity value while no
/// duration is known.
pub open spec fn measured(d: Option<u64>, line: Seq<char>) -> Option<int> {
    match fit(line_position(line)) {
        Some(t) => match d {
            Some(total) => if total > 0 {
                Some(percent(t as int, total as int))
            } else {
                None
            },
            None => Some(ACTIVITY as int),
        },
        None => None,
    }
}

/// The overall value reported for a line, if any: the measured value mapped
/// into the range, when the throttle lets it through.
pub open spec fn due_progress(st: ProgressState, line: Seq<char>, now: u64) -> Option<u64> {
    match measured(next_duration(st.duration_ms, line), line) {
        Some(p) => {
            let g = remapped(p, st.low as int, st.high as int);
            if throttle_allows(st.last_emitted as int, st.last_emit_ms as int, g, now as int) {
                Some(g as u64)
            } else {
                None
            }
        },
        None => None,
    }
}

impl ProgressState {
    pub open spec fn wf(&self) -> bool {
        self.low <= self.high <= FULL && self.low <= self.last_emitted <= self.high
    }

    /// The state after a line.
    pub open spec fn after_line(self, line: Seq<char>, now: u64) -> ProgressState {
        let d = next_duration(self.duration_ms, line);
        match due_progress(self, line, now) {
            Some(g) => ProgressState { duration_ms: d, last_emitted: g, last_emit_ms: now, ..self },
            None => ProgressState { duration_ms: d, ..self },
        }
    }

    /// A new stage run over `[low, high]`, started at `now_ms`, with the
    /// heartbeat that is reported right after the process starts.
    pub fn start(low: u64, high: u64, now_ms: u64) -> (r: (ProgressState, u64))
        requires
            low <= high <= FULL,
        ensures
            r.0.wf(),
            r.0.low == low,
            r.0.high == high,
            r.0.duration_ms is None,
            r.0.last_emitted == low,
            r.0.last_emit_ms == now_ms,
            r.1 as int == remapped(SPAWN_HEARTBEAT as int, low as int, high as int),
    {
        let st = ProgressState {
            low,
            high,
            duration_ms: None,
            last_emitted: low,
            last_emit_ms: now_ms,
        };
        (st, remap(SPAWN_HEARTBEAT, low, high))
    }

    /// Takes one line of the diagnostic stream, read at `now_ms`.
    pub fn on_line(&mut self, line: &str, now_ms: u64) -> (r: LineEmits)
        requires
            old(self).wf(),
        ensures
            final(self).wf(),
            *final(self) == old(self).after_line(line@, now_ms),
            r.heartbeat == (if old(self).duration_ms is None && fit(line_duration(line@)) is Some {
                Some(
                    remapped(DURATION_HEARTBEAT as int, old(self).low as int, old(self).high as int)
                        as u64,
                )
            } else {
                None
            }),
            r.progress == due_progress(*old(self), line@, now_ms),
    {
        let mut heartbeat: Option<u64> = None;
        if self.duration_ms.is_none() {
            match parse_duration(line) {
                Some(d) => {
                    self.duration_ms = Some(d);
                    heartbeat = Some(remap(DURATION_HEARTBEAT, self.low, self.high));
                },
                None => {},
            }
        }
        let local: Option<u64> = match parse_time(line) {
            Some(t) => match self.duration_ms {
                Some(total) => if total > 0 {
                    Some(progress_percent(t, total))
                } else {
                    None
                },
                None => Some(ACTIVITY),
            },
            None => None,
        };
        let mut progress: Option<u64> = None;
        match local {
            Some(p) => {
                let g = remap(p, self.low, self.high);
                let moved = if g > self.last_emitted {
                    g - self.last_emitted > MIN_STEP
                } else {
                    self.last_emitted - g > MIN_STEP
                };
                let waited = now_ms > self.last_emit_ms && now_ms - self.last_emit_ms
                    > MIN_INTERVAL_MS;
                if moved || waited {
                    progress = Some(g);
                    self.last_emitted = g;
                    self.last_emit_ms = now_ms;
                }
            },
            None => {},
        }
        LineEmits { heartbeat, progress }
    }
}

/// Once a stage has found its duration, later `Duration:` lines change nothing:
/// the duration of a run is the one on the first line that announces it.
pub proof fn first_duration_is_kept(st: ProgressState, line: Seq<char>, now: u64)
    requires
        st.duration_ms is Some,
    ensures
        st.after_line(line, now).duration_ms == st.duration_ms,
{
}

/// A stage without a duration takes the one of the first line that announces it.
pub proof fn duration_comes_from_first_line(st: ProgressState, line: Seq<char>, now: u64)
    requires
        st.duration_ms is None,
    ensures
        st.after_line(line, now).duration_ms == fit(line_duration(line)),
{
}

/// Reports that are not heartbeats are spaced: each one differs from the one
/// before by more than 0.5% or comes more than 200 ms after it, stays in the
/// stage's range, and becomes the new reference; a line that reports nothing
/// leaves the reference as it was.
pub proof fn progress_reports_are_throttled(st: ProgressState, line: Seq<char>, now: u64)
    requires
        st.wf(),
    ensures
        match due_progress(st, line, now) {
            Some(v) => throttle_allows(st.last_emitted as int, st.last_emit_ms as int, v as int, now as int)
                && st.low <= v <= st.high && st.after_line(line, now).last_emitted == v
                && st.after_line(line, now).last_emit_ms == now,
            None => st.after_line(line, now).last_emitted == st.last_emitted
                && st.after_line(line, now).last_emit_ms == st.last_emit_ms,
        },
{
    let d = next_duration(st.duration_ms, line);
    match measured(d, line) {
        Some(p) => {
            if d is Some && d.unwrap() > 0 {
                crate::timecode::progress_is_monotone(
                    0,
                    fit(line_position(line)).unwrap() as int,
                    d.unwrap() as int,
                    st.low as int,
                    st.high as int,
                );
            } else {
                assert(p == ACTIVITY);
                assert(p * (st.high - st.low) <= FULL * (st.high - st.low)) by (nonlinear_arith)
                    requires
                        p <= FULL,
                        st.low <= st.high,
                ;
                assert(p * (st.high - st.low) / (FULL as int) <= st.high - st.low) by (nonlinear_arith)
                    requires
                        p * (st.high - st.low) <= FULL * (st.high - st.low),
                        st.low <= st.high,
                ;
                assert(p * (st.high - st.low) >= 0) by (nonlinear_arith)
                    requires
                        p >= 0,
                        st.low <= st.high,
                ;
            }
        },
        None => {},
    }
}

/// Feeds lines, read at the matching times, to a stage: the state after them
/// and how many progress values (heartbeats aside) they made it report.
pub open spec fn feed(st: ProgressState, lines: Seq<Seq<char>>, times: Seq<u64>) -> (ProgressState, nat)
    decreases lines.len(),
{
    if lines.len() == 0 || times.len() == 0 {
        (st, 0)
    } else {
        let rest = feed(st.after_line(lines[0], times[0]), lines.drop_first(), times.drop_first());
        (rest.0, rest.1 + if due_progress(st, lines[0], times[0]) is Some {
            1nat
        } else {
            0nat
        })
    }
}

/// The positions that lines report never go back.
pub open spec fn positions_ascend(lines: Seq<Seq<char>>) -> bool {
    forall|j: int, k: int|
        0 <= j < k < lines.len() && fit(line_position(lines[j])) is Some && fit(
            line_position(lines[k]),
        ) is Some ==> fit(line_position(lines[j])).unwrap() <= fit(line_position(lines[k])).unwrap()
}

/// The times at which lines are read never go back, and lie in `[t0, t1]`.
pub open spec fn read_between(times: Seq<u64>, t0: u64, t1: u64) -> bool {
    &&& forall|k: int| 0 <= k < times.len() ==> t0 <= #[trigger] times[k] <= t1
    &&& forall|j: int, k: int| 0 <= j < k < times.len() ==> times[j] <= times[k]
}

/// The overall value that a position measures once the duration `d` is known.
pub open spec fn value_at(st: ProgressState, pos: u64, d: u64) -> int {
    remapped(percent(pos as int, d as int), st.low as int, st.high as int)
}

proof fn progress_is_monotone_at(c1: u64, c2: u64, d: u64, low: u64, high: u64)
    requires
        c1 <= c2,
        d > 0,
        low <= high <= FULL,
    ensures
        remapped(percent(c1 as int, d as int), low as int, high as int) <= remapped(
            percent(c2 as int, d as int),
            low as int,
            high as int,
        ),
        low <= remapped(percent(c2 as int, d as int), low as int, high as int) <= high,
{
    crate::timecode::progress_is_monotone(c1 as int, c2 as int, d as int, low as int, high as int);
}

proof fn lemma_rest_ascends(lines: Seq<Seq<char>>, times: Seq<u64>, t0: u64, t1: u64)
    requires
        lines.len() > 0,
        lines.len() == times.len(),
        positions_ascend(lines),
        read_between(times, t0, t1),
    ensures
        positions_ascend(lines.drop_first()),
        read_between(times.drop_first(), times[0], t1),
{
    let rl = lines.drop_first();
    let rt = times.drop_first();
    assert forall|j: int, k: int|
        0 <= j < k < rl.len() && fit(line_position(rl[j])) is Some && fit(line_position(rl[k])) is Some
        implies fit(line_position(rl[j])).unwrap() <= fit(line_position(rl[k])).unwrap() by {
        assert(rl[j] == lines[j + 1] && rl[k] == lines[k + 1]);
    }
    assert forall|k: int| 0 <= k < rt.len() implies times[0] <= #[trigger] rt[k] <= t1 by {
        assert(rt[k] == times[k + 1]);
    }
    assert forall|j: int, k: int| 0 <= j < k < rt.len() implies rt[j] <= rt[k] by {
        assert(rt[j] == times[j + 1] && rt[k] == times[k + 1]);
    }
}

/// After a first report, every report either raises the last value by more
/// than 0.5% or comes more than 200 ms after the last one: each uses up 51
/// hundredths of the range or 201 ms of the stream.
proof fn lemma_rising(st: ProgressState, lines: Seq<Seq<char>>, times: Seq<u64>, t1: u64, floor: u64)
    requires
        st.wf(),
        st.duration_ms is Some,
        st.duration_ms.unwrap() > 0,
        lines.len() == times.len(),
        st.last_emit_ms <= t1,
        read_between(times, st.last_emit_ms, t1),
        positions_ascend(lines),
        forall|k: int|
            0 <= k < lines.len() && fit(line_position(lines[k])) is Some ==> floor <= fit(
                line_position(#[trigger] lines[k]),
            ).unwrap(),
        st.last_emitted <= value_at(st, floor, st.duration_ms.unwrap()),
    ensures
        feed(st, lines, times).1 * 10251 <= 201 * (st.high - st.last_emitted) + 51 * (t1
            - st.last_emit_ms),
    decreases lines.len(),
{
    if lines.len() > 0 {
        let d = st.duration_ms.unwrap();
        let line = lines[0];
        let now = times[0];
        let next = st.after_line(line, now);
        let rl = lines.drop_first();
        let rt = times.drop_first();
        lemma_rest_ascends(lines, times, st.last_emit_ms, t1);
        progress_reports_are_throttled(st, line, now);
        match due_progress(st, line, now) {
            Some(v) => {
                let p = fit(line_position(line)).unwrap();
                progress_is_monotone_at(floor, p, d, st.low, st.high);
                assert(measured(next_duration(st.duration_ms, line), line) == Some(
                    percent(p as int, d as int),
                ));
                assert(v as int == value_at(st, p, d));
                assert(v >= st.last_emitted);
                assert forall|k: int|
                    0 <= k < rl.len() && fit(line_position(rl[k])) is Some implies p <= fit(
                        line_position(#[trigger] rl[k]),
                    ).unwrap() by {
                    assert(rl[k] == lines[k + 1]);
                }
                lemma_rising(next, rl, rt, t1, p);
                assert(feed(st, lines, times).1 == feed(next, rl, rt).1 + 1);
            },
            None => {
                assert(feed(st, lines, times).1 == feed(next, rl, rt).1);
                assert forall|k: int|
                    0 <= k < rt.len() implies st.last_emit_ms <= #[trigger] rt[k] <= t1 by {
                    assert(rt[k] == times[k + 1]);
                }
                assert forall|k: int|
                    0 <= k < rl.len() && fit(line_position(rl[k])) is Some implies floor <= fit(
                        line_position(#[trigger] rl[k]),
                    ).unwrap() by {
                    assert(rl[k] == lines[k + 1]);
                }
                lemma_rising(next, rl, rt, t1, floor);
            },
        }
    }
}

proof fn lemma_stream(st: ProgressState, lines: Seq<Seq<char>>, times: Seq<u64>, t1: u64)
    requires
        st.wf(),
        st.duration_ms is Some,
        st.duration_ms.unwrap() > 0,
        lines.len() == times.len(),
        st.last_emit_ms <= t1,
        read_between(times, st.last_emit_ms, t1),
        positions_ascend(lines),
    ensures
        feed(st, lines, times).1 * 10251 <= 10251 + 201 * (st.high - st.low) + 51 * (t1
            - st.last_emit_ms),
    decreases lines.len(),
{
    if lines.len() > 0 {
        let d = st.duration_ms.unwrap();
        let line = lines[0];
        let now = times[0];
        let next = st.after_line(line, now);
        let rl = lines.drop_first();
        let rt = times.drop_first();
        lemma_rest_ascends(lines, times, st.last_emit_ms, t1);
        progress_reports_are_throttled(st, line, now);
        match due_progress(st, line, now) {
            Some(v) => {
                let p = fit(line_position(line)).unwrap();
                progress_is_monotone_at(p, p, d, st.low, st.high);
                assert(measured(next_duration(st.duration_ms, line), line) == Some(
                    percent(p as int, d as int),
                ));
                assert(v as int == value_at(st, p, d));
                assert forall|k: int|
                    0 <= k < rl.len() && fit(line_position(rl[k])) is Some implies p <= fit(
                        line_position(#[trigger] rl[k]),
                    ).unwrap() by {
                    assert(rl[k] == lines[k + 1]);
                }
                lemma_rising(next, rl, rt, t1, p);
                assert(feed(st, lines, times).1 == feed(next, rl, rt).1 + 1);
            },
            None => {
                assert(feed(st, lines, times).1 == feed(next, rl, rt).1);
                assert forall|k: int|
                    0 <= k < rt.len() implies st.last_emit_ms <= #[trigger] rt[k] <= t1 by {
                    assert(rt[k] == times[k + 1]);
                }
                lemma_stream(next, rl, rt, t1);
            },
        }
    }
}

/// The number of reports does not grow with the number of lines. A stage
/// whose duration is known reads lines whose positions never go back, at
/// times that never go back, from its last report until `t1`. Leaving aside
/// its two heartbeats, it reports at most twice, plus once for each 0.51%
/// of its range, plus once for each 201 ms of the stream.
pub proof fn stream_reports_are_bounded(st: ProgressState, lines: Seq<Seq<char>>, times: Seq<u64>, t1: u64)
    requires
        st.wf(),
        st.duration_ms is Some,
        st.duration_ms.unwrap() > 0,
        lines.len() == times.len(),
        st.last_emit_ms <= t1,
        read_between(times, st.last_emit_ms, t1),
        positions_ascend(lines),
    ensures
        feed(st, lines, times).1 <= 2 + (st.high - st.low) / 51 + (t1 - st.last_emit_ms) / 201,
{
    lemma_stream(st, lines, times, t1);
    let c = feed(st, lines, times).1 as int;
    let r = (st.high - st.low) as int;
    let t = (t1 - st.last_emit_ms) as int;
    let a = r / 51;
    let b = t / 201;
    assert(r < 51 * (a + 1));
    assert(t < 201 * (b + 1));
    assert(c <= 2 + a + b) by (nonlinear_arith)
        requires
            c * 10251 <= 10251 + 201 * r + 51 * t,
            r < 51 * (a + 1),
            t < 201 * (b + 1),
    ;
}

} // verus!
