use sqlbase_probe::aggregate::{aggregate, DatabaseStats, Stats};
use sqlbase_probe::records::{ConfigRecord, CursorRecord, ProcessRecord};
use sqlbase_probe::report::{
    call_failure, database_line, error_line, header_line, metrics_line, report_lines, sql_error,
    summary_line, thresholds,
};

#[test]
fn threshold_values() {
    assert_eq!(thresholds(Stats { active_processes: 5, idle_processes: 3 }), (2, 4));
    assert_eq!(thresholds(Stats { active_processes: 0, idle_processes: 0 }), (0, 0));
    assert_eq!(thresholds(Stats { active_processes: 1, idle_processes: 0 }), (0, 0));
    assert_eq!(thresholds(Stats { active_processes: 3, idle_processes: 4 }), (1, 3));
    assert_eq!(
        thresholds(Stats { active_processes: u64::MAX, idle_processes: u64::MAX }),
        (u64::MAX / 2, u64::MAX)
    );
}

#[test]
fn thresholds_grow_with_total() {
    let mut last = (0u64, 0u64);
    for total in 0..50u64 {
        let t = thresholds(Stats { active_processes: total / 3, idle_processes: total - total / 3 });
        assert!(t.0 >= last.0 && t.1 >= last.1);
        last = t;
    }
}

#[test]
fn error_prefix_text() {
    assert_eq!(sql_error(), "2 \"SQLBase Error\" - ");
    assert_eq!(error_line("Failed to load SQLBase directory. x"), "2 \"SQLBase Error\" - Failed to load SQLBase directory. x");
}

#[test]
fn failure_line_for_nonzero_code() {
    assert_eq!(call_failure("Failed to load processes", 0), None);
    assert_eq!(
        call_failure("Failed to load processes", -5),
        Some("2 \"SQLBase Error\" - Failed to load processes. Code -5".to_string())
    );
    assert_eq!(
        call_failure("Failed to connect to server", 10401),
        Some("2 \"SQLBase Error\" - Failed to connect to server. Code 10401".to_string())
    );
    assert_eq!(
        call_failure("x", i16::MIN),
        Some("2 \"SQLBase Error\" - x. Code -32768".to_string())
    );
}

#[test]
fn header_online_and_offline() {
    let mut conf = ConfigRecord {
        server: "SRV".to_string(),
        boot_time: "2024-01-02".to_string(),
        version: "12.0".to_string(),
        online: true,
    };
    assert_eq!(header_line(&conf), "0 \"SQLBase\" - Server: SRV, Version: 12.0, Start: 2024-01-02");
    conf.online = false;
    assert_eq!(header_line(&conf), "2 \"SQLBase\" - Server: SRV, Version: 12.0, Start: 2024-01-02");
}

#[test]
fn database_status_line() {
    assert_eq!(database_line(&"DB1".to_string()), "0 \"SQLBase DB1 Database\" - Status: ONLINE");
}

#[test]
fn summary_text_line() {
    assert_eq!(summary_line(0, 0, 0), "0 \"SQLBase Statistic\" - Processes: 0 total and 0 ignored, Cursors: 0");
    assert_eq!(summary_line(120, 7, 45), "0 \"SQLBase Statistic\" - Processes: 120 total and 7 ignored, Cursors: 45");
}

#[test]
fn metrics_text_line() {
    let entry = DatabaseStats {
        name: "DB1".to_string(),
        stats: Stats { active_processes: 5, idle_processes: 3 },
    };
    assert_eq!(
        metrics_line(&entry),
        "P \"SQLBase DB1 Processes\" count=5;2.0;4.0 5 active processes, 3 idle processes"
    );
}

#[test]
fn full_report_order() {
    let known = vec!["DB1".to_string(), "DB2".to_string()];
    let procs = vec![
        ProcessRecord { id: 1, active: true },
        ProcessRecord { id: 2, active: false },
        ProcessRecord { id: 3, active: true },
    ];
    let cursors = vec![
        CursorRecord { process_id: 1, database: "DB1".to_string() },
        CursorRecord { process_id: 2, database: "DB2".to_string() },
    ];
    let lines = report_lines(&aggregate(&known, &procs, &cursors));
    assert_eq!(
        lines,
        vec![
            "0 \"SQLBase DB1 Database\" - Status: ONLINE".to_string(),
            "0 \"SQLBase DB2 Database\" - Status: ONLINE".to_string(),
            "0 \"SQLBase Statistic\" - Processes: 3 total and 1 ignored, Cursors: 2".to_string(),
            "P \"SQLBase DB1 Processes\" count=1;0.0;0.0 1 active processes, 0 idle processes".to_string(),
            "P \"SQLBase DB2 Processes\" count=0;0.0;0.0 0 active processes, 1 idle processes".to_string(),
        ]
    );
}

#[test]
fn report_with_no_databases() {
    let lines = report_lines(&aggregate(&Vec::new(), &vec![ProcessRecord { id: 1, active: true }], &Vec::new()));
    assert_eq!(lines, vec!["0 \"SQLBase Statistic\" - Processes: 1 total and 1 ignored, Cursors: 0".to_string()]);
}
