use vstd::prelude::*;

use crate::aggregate::{Aggregate, DatabaseStats, Stats};
use crate::records::ConfigRecord;
use crate::text::{decimal, push_decimal, push_signed_decimal, signed_decimal};

verus! {

// Lines follow the passive check protocol of the monitoring agent:
// `<code> "<label>" - <detail>` for a status and
// `P "<label>" count=<value>;<warn>;<crit> <detail>` for a metric.
//
// Threshold policy: of the `total` processes of a database, the warning
// threshold is a quarter and the critical threshold a half, both rounded
// down. The agent compares the active count against them.

/// The warning threshold for `total` processes.
pub open spec fn warning_threshold(total: nat) -> nat {
    total / 4
}

/// The critical threshold for `total` processes.
pub open spec fn critical_threshold(total: nat) -> nat {
    total / 2
}

/// Both thresholds only grow as the number of processes grows.
pub proof fn lemma_thresholds_monotonic(a: nat, b: nat)
    requires
        a <= b,
    ensures
        warning_threshold(a) <= warning_threshold(b),
        critical_threshold(a) <= critical_threshold(b),
{
    assert(a / 4 <= b / 4) by (nonlinear_arith)
        requires
            a <= b,
    ;
    assert(a / 2 <= b / 2) by (nonlinear_arith)
        requires
            a <= b,
    ;
}

/// The warning and critical thresholds of a database's counts.
pub fn thresholds(stats: Stats) -> (r: (u64, u64))
    ensures
        r.0 == warning_threshold(stats.total()),
        r.1 == critical_threshold(stats.total()),
{
    let total: u128 = stats.active_processes as u128 + stats.idle_processes as u128;
    ((total / 4) as u64, (total / 2) as u64)
}

/// The start of every error line.
pub open spec fn error_prefix() -> Seq<char> {
    "2 \"SQLBase Error\" - "@
}

/// The start of every error line.
pub fn sql_error() -> (r: String)
    ensures
        r@ == error_prefix(),
{
    String::from_str("2 \"SQLBase Error\" - ")
}

/// The line that reports a failed native call.
pub open spec fn failure_text(action: Seq<char>, code: int) -> Seq<char> {
    error_prefix() + action + ". Code "@ + signed_decimal(code)
}

/// The error line for a native call that returned a non-zero `code`, or
/// nothing when `code` is zero and the call succeeded.
pub fn call_failure(action: &str, code: i16) -> (r: Option<String>)
    ensures
        code == 0 ==> r is None,
        code != 0 ==> (r matches Some(line) && line@ == failure_text(action@, code as int)),
{
    if code == 0 {
        return None;
    }
    let mut line = sql_error();
    line.append(action);
    line.append(". Code ");
    push_signed_decimal(&mut line, code as i64);
    Some(line)
}

/// The line that reports a failed step with a reason.
pub open spec fn error_text(detail: Seq<char>) -> Seq<char> {
    error_prefix() + detail
}

/// An error line with the given detail.
pub fn error_line(detail: &str) -> (r: String)
    ensures
        r@ == error_text(detail@),
{
    let mut line = sql_error();
    line.append(detail);
    line
}

/// The server status line.
pub open spec fn header_text(online: bool, server: Seq<char>, version: Seq<char>, start: Seq<char>) -> Seq<char> {
    (if online {
        "0"@
    } else {
        "2"@
    }) + " \"SQLBase\" - Server: "@ + server + ", Version: "@ + version + ", Start: "@ + start
}

/// The server status line: OK when the server is online, critical otherwise.
pub fn header_line(config: &ConfigRecord) -> (r: String)
    ensures
        r@ == header_text(config.online, config.server@, config.version@, config.boot_time@),
{
    let mut line = if config.online {
        String::from_str("0")
    } else {
        String::from_str("2")
    };
    line.append(" \"SQLBase\" - Server: ");
    line.append(config.server.as_str());
    line.append(", Version: ");
    line.append(config.version.as_str());
    line.append(", Start: ");
    line.append(config.boot_time.as_str());
    line
}

/// The status line of a known database.
pub open spec fn database_text(name: Seq<char>) -> Seq<char> {
    "0 \"SQLBase "@ + name + " Database\" - Status: ONLINE"@
}

/// The status line of a known database, which is always online.
pub fn database_line(name: &String) -> (r: String)
    ensures
        r@ == database_text(name@),
{
    let mut line = String::from_str("0 \"SQLBase ");
    line.append(name.as_str());
    line.append(" Database\" - Status: ONLINE");
    line
}

/// The summary line.
pub open spec fn summary_text(processes: nat, ignored: nat, cursors: nat) -> Seq<char> {
    "0 \"SQLBase Statistic\" - Processes: "@ + decimal(processes) + " total and "@ + decimal(
        ignored,
    ) + " ignored, Cursors: "@ + decimal(cursors)
}

/// The summary line: all processes, the ignored ones, and all cursors.
pub fn summary_line(processes: usize, ignored: usize, cursors: usize) -> (r: String)
    ensures
        r@ == summary_text(processes as nat, ignored as nat, cursors as nat),
{
    let mut line = String::from_str("0 \"SQLBase Statistic\" - Processes: ");
    push_decimal(&mut line, processes as u64);
    line.append(" total and ");
    push_decimal(&mut line, ignored as u64);
    line.append(" ignored, Cursors: ");
    push_decimal(&mut line, cursors as u64);
    line
}

/// The metric line of a database.
pub open spec fn metrics_text(name: Seq<char>, active: nat, idle: nat) -> Seq<char> {
    "P \"SQLBase "@ + name + " Processes\" count="@ + decimal(active) + ";"@ + decimal(
        warning_threshold(active + idle),
    ) + ".0;"@ + decimal(critical_threshold(active + idle)) + ".0 "@ + decimal(active)
        + " active processes, "@ + decimal(idle) + " idle processes"@
}

/// The metric line of a database: its active count with both thresholds,
/// then both counts in words.
pub fn metrics_line(entry: &DatabaseStats) -> (r: String)
    ensures
        r@ == metrics_text(
            entry.name@,
            entry.stats.active_processes as nat,
            entry.stats.idle_processes as nat,
        ),
{
    let (warn, crit) = thresholds(entry.stats);
    let mut line = String::from_str("P \"SQLBase ");
    line.append(entry.name.as_str());
    line.append(" Processes\" count=");
    push_decimal(&mut line, entry.stats.active_processes);
    line.append(";");
    push_decimal(&mut line, warn);
    line.append(".0;");
    push_decimal(&mut line, crit);
    line.append(".0 ");
    push_decimal(&mut line, entry.stats.active_processes);
    line.append(" active processes, ");
    push_decimal(&mut line, entry.stats.idle_processes);
    line.append(" idle processes");
    line
}

/// The report on the databases: a status line for each, the summary line,
/// then a metric line for each, in the order of the entries.
pub fn report_lines(agg: &Aggregate) -> (r: Vec<String>)
    ensures
        r@.len() == 2 * agg.databases@.len() + 1,
        forall|j: int|
            0 <= j < agg.databases@.len() ==> (#[trigger] r@[j])@ == database_text(
                agg.databases@[j].name@,
            ),
        r@[agg.databases@.len() as int]@ == summary_text(
            agg.total_processes as nat,
            agg.ignored as nat,
            agg.total_cursors as nat,
        ),
        forall|j: int|
            0 <= j < agg.databases@.len() ==> (#[trigger] r@[agg.databases@.len() + 1 + j])@
                == metrics_text(
                agg.databases@[j].name@,
                agg.databases@[j].stats.active_processes as nat,
                agg.databases@[j].stats.idle_processes as nat,
            ),
{
    let n = agg.databases.len();
    let mut lines: Vec<String> = Vec::new();
    let mut j: usize = 0;
    while j < n
        invariant
            n == agg.databases@.len(),
            j <= n,
            lines@.len() == j,
            forall|k: int|
                0 <= k < j ==> (#[trigger] lines@[k])@ == database_text(agg.databases@[k].name@),
        decreases n - j,
    {
        lines.push(database_line(&agg.databases[j].name));
        j = j + 1;
    }
    lines.push(summary_line(agg.total_processes, agg.ignored, agg.total_cursors));
    let mut j: usize = 0;
    while j < n
        invariant
            n == agg.databases@.len(),
            j <= n,
            lines@.len() == n + 1 + j,
            forall|k: int|
                0 <= k < n ==> (#[trigger] lines@[k])@ == database_text(agg.databases@[k].name@),
            lines@[n as int]@ == summary_text(
                agg.total_processes as nat,
                agg.ignored as nat,
                agg.total_cursors as nat,
            ),
            forall|k: int|
                0 <= k < j ==> (#[trigger] lines@[n + 1 + k])@ == metrics_text(
                    agg.databases@[k].name@,
                    agg.databases@[k].stats.active_processes as nat,
                    agg.databases@[k].stats.idle_processes as nat,
                ),
        decreases n - j,
    {
        lines.push(metrics_line(&agg.databases[j]));
        j = j + 1;
    }
    lines
}

} // verus!
