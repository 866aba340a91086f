//! Maintenance windows: when a node's database may be vacuumed and
//! reindexed.
//!
//! Reading the clock and running the SQL are the caller's I/O; this module
//! decides whether a time of day lies in a node's maintenance window.

use vstd::prelude::*;
use chrono::{NaiveTime, Timelike};
use crate::char_class::{decimal_digit, is_decimal_digit};
use crate::crd::DbMaintenanceConfig;
use crate::text::{chars_of, string_from_chars, parse_u64, parse_u64_spec, is_digit, trim, trimmed, owned, append};

verus! {

/// The largest whole number of seconds a `chrono::Duration` holds.
pub const MAX_DURATION_SECS: i64 = 9223372036854775;

/// Seconds in a day.
pub const SECS_PER_DAY: u32 = 86400;

/// A time of day as `chrono::NaiveTime` holds it: seconds since midnight and
/// nanoseconds, the latter at least 10^9 within a leap second.
#[derive(Debug, Clone, Copy, PartialEq, Eq, Structural)]
pub struct TimeOfDay {
    pub secs: u32,
    pub frac: u32,
}

impl TimeOfDay {
    /// A valid time of day.
    pub open spec fn wf(self) -> bool {
        self.secs < 86400 && self.frac < 2_000_000_000
    }

    /// The time `hour:min:sec`.
    pub fn from_hms(hour: u32, min: u32, sec: u32) -> (t: TimeOfDay)
        requires
            hour < 24,
            min < 60,
            sec < 60,
        ensures
            t.secs == hour * 3600 + min * 60 + sec,
            t.frac == 0,
            t.wf(),
    {
        TimeOfDay { secs: hour * 3600 + min * 60 + sec, frac: 0 }
    }
}

/// `a` is not later than `b`, as `NaiveTime` orders times.
pub open spec fn time_le(a: TimeOfDay, b: TimeOfDay) -> bool {
    a.secs < b.secs || (a.secs == b.secs && a.frac <= b.frac)
}

fn le(a: TimeOfDay, b: TimeOfDay) -> (r: bool)
    ensures
        r == time_le(a, b),
{
    a.secs < b.secs || (a.secs == b.secs && a.frac <= b.frac)
}

// ── Parsing the window's length ─────────────────────────────────────────────

/// The unit a letter names, matched without regard to case: 0 for hours,
/// 1 for minutes, 2 for seconds, -1 for none.
pub open spec fn unit_of(c: char) -> int {
    if c == 'h' || c == 'H' {
        0
    } else if c == 'm' || c == 'M' {
        1
    } else if c == 's' || c == 'S' || c == '\u{17f}' {
        2
    } else {
        -1
    }
}

/// The state of reading a duration left to right: whether it still
/// matches, the least unit allowed next, the digits read since the last
/// unit, and the digits given for hours, minutes and seconds.
pub struct DurationScan {
    pub matching: bool,
    pub next_unit: int,
    pub run: Seq<char>,
    pub groups: Seq<Option<Seq<char>>>,
}

/// The state after reading `s`.
pub open spec fn scan(s: Seq<char>) -> DurationScan
    decreases s.len(),
{
    if s.len() == 0 {
        DurationScan { matching: true, next_unit: 0, run: seq![], groups: seq![None, None, None] }
    } else {
        let st = scan(s.drop_last());
        let c = s.last();
        if !st.matching {
            st
        } else if decimal_digit(c) {
            DurationScan { run: st.run.push(c), ..st }
        } else if unit_of(c) >= st.next_unit && st.run.len() > 0 {
            DurationScan {
                matching: true,
                next_unit: unit_of(c) + 1,
                run: seq![],
                groups: st.groups.update(unit_of(c), Some(st.run)),
            }
        } else {
            DurationScan { matching: false, ..st }
        }
    }
}

/// `s` has the shape `[digits h][digits m][digits s]`, letters in either
/// case: the pattern `(?i)^(?:(\d+)h)?(?:(\d+)m)?(?:(\d+)s)?$` matches it.
pub open spec fn duration_matches(s: Seq<char>) -> bool {
    scan(s).matching && scan(s).run.len() == 0
}

/// A group's value: its digits parsed as `i64`, 0 when absent or when they
/// do not parse.
pub open spec fn group_value(g: Option<Seq<char>>) -> int {
    match g {
        Some(d) => match parse_u64_spec(d) {
            Some(v) => if v <= i64::MAX { v as int } else { 0 },
            None => 0,
        },
        None => 0,
    }
}

/// The hours, minutes and seconds a window length gives (all 0 unless it
/// matches).
pub open spec fn duration_parts(value: Seq<char>) -> (int, int, int) {
    let s = trimmed(value);
    if duration_matches(s) {
        (group_value(scan(s).groups[0]), group_value(scan(s).groups[1]), group_value(scan(s).groups[2]))
    } else {
        (0, 0, 0)
    }
}

/// The length of a maintenance window in seconds: the hours, minutes and
/// seconds given, or two hours when the text does not match or gives only
/// zeros.
pub open spec fn window_seconds(value: Seq<char>) -> int {
    let (h, m, s) = duration_parts(value);
    if h == 0 && m == 0 && s == 0 {
        7200
    } else {
        h * 3600 + m * 60 + s
    }
}

/// The digits parsed as `i64`, 0 when they do not parse.
fn digits_value(d: &Vec<char>) -> (v: i64)
    ensures
        v == group_value(Some(d@)),
{
    let s = string_from_chars(d.as_slice());
    match parse_u64(s.as_str()) {
        Some(x) => if x <= 9223372036854775807u64 { x as i64 } else { 0 },
        None => 0,
    }
}

/// Reads a window length: the hours, minutes and seconds it gives.
fn duration_values(value: &str) -> (r: (i64, i64, i64))
    ensures
        r.0 as int == duration_parts(value@).0,
        r.1 as int == duration_parts(value@).1,
        r.2 as int == duration_parts(value@).2,
        r.0 >= 0 && r.1 >= 0 && r.2 >= 0,
{
    let t = trim(value);
    let cs = chars_of(t.as_str());
    let ghost s = trimmed(value@);
    let mut matching = true;
    let mut next_unit: i64 = 0;
    let mut run: Vec<char> = Vec::new();
    let mut groups: Vec<Option<Vec<char>>> = vec![None, None, None];
    let mut i: usize = 0;
    while i < cs.len()
        invariant
            cs@ == s,
            i <= cs@.len(),
            groups@.len() == 3,
            matching == scan(s.take(i as int)).matching,
            next_unit as int == scan(s.take(i as int)).next_unit,
            run@ == scan(s.take(i as int)).run,
            scan(s.take(i as int)).groups.len() == 3,
            forall|u: int| 0 <= u < 3 ==> (match #[trigger] groups@[u] {
                Some(d) => scan(s.take(i as int)).groups[u] == Some(d@),
                None => scan(s.take(i as int)).groups[u].is_none(),
            }),
            0 <= next_unit <= 3,
        decreases cs@.len() - i,
    {
        let c = cs[i];
        proof {
            assert(s.take(i + 1).drop_last() =~= s.take(i as int));
            assert(s.take(i + 1).last() == c);
        }
        if matching {
            if is_decimal_digit(c) {
                run.push(c);
            } else {
                let u: i64 = if c == 'h' || c == 'H' {
                    0
                } else if c == 'm' || c == 'M' {
                    1
                } else if c == 's' || c == 'S' || c == '\u{17f}' {
                    2
                } else {
                    -1
                };
                if u >= next_unit && run.len() > 0 {
                    let ghost st = scan(s.take(i as int));
                    let ghost before = groups@;
                    let d = run;
                    run = Vec::new();
                    groups.set(u as usize, Some(d));
                    next_unit = u + 1;
                    proof {
                        assert forall|w: int| 0 <= w < 3 implies (match #[trigger] groups@[w] {
                            Some(d) => scan(s.take(i + 1)).groups[w] == Some(d@),
                            None => scan(s.take(i + 1)).groups[w].is_none(),
                        }) by {
                            if w != u {
                                assert(groups@[w] == before[w]);
                            }
                        }
                    }
                } else {
                    matching = false;
                }
            }
        }
        i += 1;
    }
    proof {
        assert(s.take(cs@.len() as int) =~= s);
    }
    if matching && run.len() == 0 {
        let h = match &groups[0] { Some(d) => digits_value(d), None => 0 };
        let m = match &groups[1] { Some(d) => digits_value(d), None => 0 };
        let sec = match &groups[2] { Some(d) => digits_value(d), None => 0 };
        proof {
            assert(duration_matches(s));
        }
        (h, m, sec)
    } else {
        (0, 0, 0)
    }
}

/// The length in seconds of a maintenance window, when `chrono::Duration`
/// can hold it; none where building that duration would overflow.
pub fn checked_window_duration(value: &str) -> (r: Option<i64>)
    ensures
        r == (if window_seconds(value@) <= MAX_DURATION_SECS { Some(window_seconds(value@) as i64) } else { None::<i64> }),
{
    let (h, m, s) = duration_values(value);
    if h == 0 && m == 0 && s == 0 {
        return Some(7200);
    }
    let total: i128 = (h as i128) * 3600 + (m as i128) * 60 + (s as i128);
    if total <= 9223372036854775i128 {
        Some(total as i64)
    } else {
        None
    }
}

/// The length in seconds of a maintenance window: `2h`, `90m`, `1h30m` and
/// the like, letters in either case; two hours when the text does not
/// have that shape or gives only zeros.
pub fn parse_window_duration(value: &str) -> (d: i64)
    requires
        window_seconds(value@) <= MAX_DURATION_SECS,
    ensures
        d == window_seconds(value@),
        d > 0,
{
    match checked_window_duration(value) {
        Some(d) => d,
        None => 0,
    }
}

// ── The window ──────────────────────────────────────────────────────────────

/// The time `text` gives in `format` (a `chrono` format string), when it
/// parses.
pub uninterp spec fn naive_time_parse(text: Seq<char>, format: Seq<char>) -> Option<(u32, u32)>;

/// `NaiveTime::parse_from_str`: the parsed time as seconds since midnight
/// and nanoseconds; none when `text` does not parse.
#[verifier::external_body]
fn parse_time(text: &str, format: &str) -> (r: Option<TimeOfDay>)
    ensures
        match r {
            Some(t) => naive_time_parse(text@, format@) == Some((t.secs, t.frac)) && t.wf(),
            None => naive_time_parse(text@, format@).is_none(),
        },
{
    match NaiveTime::parse_from_str(text, format) {
        Ok(t) => Some(TimeOfDay { secs: t.num_seconds_from_midnight(), frac: t.nanosecond() }),
        Err(_) => None,
    }
}

/// The start of a window: `text` as `HH:MM`, else as `HH:MM:SS`, else 02:00.
pub open spec fn window_start(text: Seq<char>) -> (u32, u32) {
    match naive_time_parse(text, "%H:%M"@) {
        Some(t) => t,
        None => match naive_time_parse(text, "%H:%M:%S"@) {
            Some(t) => t,
            None => (7200, 0),
        },
    }
}

fn start_of(text: &str) -> (t: TimeOfDay)
    ensures
        (t.secs, t.frac) == window_start(text@),
        t.wf(),
{
    match parse_time(text, "%H:%M") {
        Some(t) => t,
        None => match parse_time(text, "%H:%M:%S") {
            Some(t) => t,
            None => TimeOfDay { secs: 7200, frac: 0 },
        },
    }
}

/// `t + d` for a whole number `d` of seconds, as `NaiveTime` adds: wrapping
/// around midnight, and leaving a leap second when moving away from it.
pub open spec fn add_secs(t: TimeOfDay, d: int) -> TimeOfDay {
    if t.frac >= 1_000_000_000 {
        if d > 0 {
            TimeOfDay { secs: ((t.secs + d) % 86400) as u32, frac: (t.frac - 1_000_000_000) as u32 }
        } else if d < 0 {
            TimeOfDay { secs: ((t.secs + 1 + d) % 86400) as u32, frac: (t.frac - 1_000_000_000) as u32 }
        } else {
            t
        }
    } else {
        TimeOfDay { secs: ((t.secs + d) % 86400) as u32, frac: t.frac }
    }
}

fn add_window(t: TimeOfDay, d: i64) -> (r: TimeOfDay)
    requires
        t.wf(),
        0 < d < 86400,
    ensures
        r == add_secs(t, d as int),
{
    if t.frac >= 1_000_000_000 {
        TimeOfDay { secs: ((t.secs as i64 + d) % 86400) as u32, frac: t.frac - 1_000_000_000 }
    } else {
        TimeOfDay { secs: ((t.secs as i64 + d) % 86400) as u32, frac: t.frac }
    }
}

/// Whether `now` lies in the window that starts at `start` and lasts
/// `duration` seconds, both ends included; a window of no length or of a
/// day or more always holds.
pub open spec fn within(start: TimeOfDay, duration: int, now: TimeOfDay) -> bool {
    let end = add_secs(start, duration);
    if duration <= 0 {
        true
    } else if duration >= 86400 {
        true
    } else if time_le(start, end) {
        time_le(start, now) && time_le(now, end)
    } else {
        time_le(start, now) || time_le(now, end)
    }
}

/// Whether `now` lies in the maintenance window of `config`.
pub fn is_time_in_window(config: &DbMaintenanceConfig, now: TimeOfDay) -> (r: bool)
    requires
        window_seconds(config.window_duration@) <= MAX_DURATION_SECS,
    ensures
        r == within(
            TimeOfDay { secs: window_start(config.window_start@).0, frac: window_start(config.window_start@).1 },
            window_seconds(config.window_duration@),
            now,
        ),
{
    let start = start_of(config.window_start.as_str());
    let duration = parse_window_duration(config.window_duration.as_str());
    if duration >= 86400 {
        return true;
    }
    let end = add_window(start, duration);
    if le(start, end) {
        le(start, now) && le(now, end)
    } else {
        le(start, now) || le(now, end)
    }
}

/// A maintenance window contains the time it starts at.
pub proof fn law_window_contains_start(start: TimeOfDay, duration: int)
    ensures
        within(start, duration, start),
{
}

/// A maintenance window contains the time it ends at.
pub proof fn law_window_contains_end(start: TimeOfDay, duration: int)
    ensures
        within(start, duration, add_secs(start, duration)),
{
}

/// Decides when nodes' databases are maintained.
pub struct MaintenanceController {}

impl MaintenanceController {
    /// A controller.
    pub fn new() -> (c: MaintenanceController) {
        MaintenanceController {}
    }

    /// Whether `now` lies in the maintenance window of a node with the
    /// maintenance settings `config`: never without settings or when they
    /// are disabled. None where the window's length is too large for a
    /// `chrono::Duration`.
    pub fn is_in_window(&self, config: &Option<DbMaintenanceConfig>, now: TimeOfDay) -> (r: Option<bool>)
        ensures
            r == (match config {
                Some(c) => if !c.enabled {
                    Some(false)
                } else if window_seconds(c.window_duration@) <= MAX_DURATION_SECS {
                    Some(within(
                        TimeOfDay { secs: window_start(c.window_start@).0, frac: window_start(c.window_start@).1 },
                        window_seconds(c.window_duration@),
                        now,
                    ))
                } else {
                    None::<bool>
                },
                None => Some(false),
            }),
    {
        match config {
            Some(c) => {
                if !c.enabled {
                    return Some(false);
                }
                match checked_window_duration(c.window_duration.as_str()) {
                    Some(_) => Some(is_time_in_window(c, now)),
                    None => None,
                }
            },
            None => Some(false),
        }
    }
}


// ── The maintenance run ─────────────────────────────────────────────────────

/// What to run on one bloated table.
#[derive(Debug, Clone, PartialEq, Eq)]
pub struct TablePlan {
    pub table: String,
    /// `VACUUM ANALYZE {table}`.
    pub vacuum: String,
    /// `REINDEX TABLE {table}`, when reindexing is enabled.
    pub reindex: Option<String>,
}

/// What a maintenance run does once the node is in its window and the
/// database is quiet: coordinate the read pool around it when configured,
/// vacuum (and maybe reindex) each bloated table, then profile queries and
/// apply index suggestions as configured.
#[derive(Debug, Clone, PartialEq, Eq)]
pub struct MaintenancePlan {
    pub coordinate_read_pool: bool,
    pub tables: Vec<TablePlan>,
    pub profile_queries: bool,
    pub apply_index_suggestions: bool,
}

/// The statement that repacks a table whose bloat is very high, with the
/// table as its parameter.
pub fn repack_statement() -> (r: String)
    ensures
        r@ == "SELECT pg_repack.repack_table($1)"@,
{
    owned("SELECT pg_repack.repack_table($1)")
}

/// Bloat, in percent, above which a table is also repacked.
pub const REPACK_BLOAT_PERCENT: u32 = 60;

/// The plan of a run over the bloated tables `tables`; none when the
/// node is outside its window, the database is busy or nothing is
/// bloated.
pub fn maintenance_plan(config: &DbMaintenanceConfig, in_window: bool, quiet: bool, tables: &[String]) -> (r: Option<MaintenancePlan>)
    ensures
        r.is_some() <==> (in_window && quiet && tables@.len() > 0),
        r matches Some(p) ==> {
            &&& p.coordinate_read_pool == config.read_pool_coordination
            &&& p.profile_queries == (config.enable_query_profiling || config.auto_index_maintenance)
            &&& p.apply_index_suggestions == config.auto_index_maintenance
            &&& p.tables@.len() == tables@.len()
            &&& forall|i: int| 0 <= i < tables@.len() ==> {
                &&& (#[trigger] p.tables@[i]).table@ == tables@[i]@
                &&& p.tables@[i].vacuum@ == "VACUUM ANALYZE "@ + tables@[i]@
                &&& p.tables@[i].reindex == (if config.auto_reindex { Some(p.tables@[i].reindex->0) } else { None::<String> })
                &&& config.auto_reindex ==> p.tables@[i].reindex->0@ == "REINDEX TABLE "@ + tables@[i]@
            }
        },
{
    if !in_window || !quiet || tables.len() == 0 {
        return None;
    }
    let mut plans: Vec<TablePlan> = Vec::new();
    let mut i: usize = 0;
    while i < tables.len()
        invariant
            i <= tables@.len(),
            plans@.len() == i,
            forall|k: int| 0 <= k < i ==> {
                &&& (#[trigger] plans@[k]).table@ == tables@[k]@
                &&& plans@[k].vacuum@ == "VACUUM ANALYZE "@ + tables@[k]@
                &&& plans@[k].reindex == (if config.auto_reindex { Some(plans@[k].reindex->0) } else { None::<String> })
                &&& config.auto_reindex ==> plans@[k].reindex->0@ == "REINDEX TABLE "@ + tables@[k]@
            },
        decreases tables@.len() - i,
    {
        let t = tables[i].as_str();
        let mut vacuum = owned("VACUUM ANALYZE ");
        append(&mut vacuum, t);
        let reindex = if config.auto_reindex {
            let mut r = owned("REINDEX TABLE ");
            append(&mut r, t);
            Some(r)
        } else {
            None
        };
        plans.push(TablePlan { table: owned(t), vacuum, reindex });
        i += 1;
    }
    Some(MaintenancePlan {
        coordinate_read_pool: config.read_pool_coordination,
        tables: plans,
        profile_queries: config.enable_query_profiling || config.auto_index_maintenance,
        apply_index_suggestions: config.auto_index_maintenance,
    })
}

} // verus!
