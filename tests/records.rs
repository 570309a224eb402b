use sqlbase_probe::records::{parse_config, parse_cursors, parse_database_names, parse_processes};
use sqlbase_probe::schema::{
    ACTIVE_STATUS, CONFIG_BUFFER_SIZE, CURSOR_STRIDE, PROCESS_STATUS_OFFSET, PROCESS_STRIDE,
};

fn put(buf: &mut [u8], at: usize, text: &str) {
    for (i, b) in text.bytes().enumerate() {
        buf[at + i] = b;
    }
    buf[at + text.len()] = 0;
}

#[test]
fn processes_partial_trailing_record_discarded() {
    let mut buf = vec![0u8; 500];
    buf[22] = 7;
    put(&mut buf, 80, "performing request");
    buf[160 + 22] = 9;
    put(&mut buf, 160 + 80, "waiting");
    buf[320 + 22] = 11;
    put(&mut buf, 320 + 80, "performing request");
    let procs = parse_processes(&buf, 325);
    assert_eq!(procs.len(), 2);
    assert_eq!(procs[0].id, 7);
    assert!(procs[0].active);
    assert_eq!(procs[1].id, 9);
    assert!(!procs[1].active);
}

#[test]
fn processes_short_length_gives_none() {
    let buf = vec![1u8; 400];
    assert!(parse_processes(&buf, 0).is_empty());
    assert!(parse_processes(&buf, 159).is_empty());
    assert_eq!(parse_processes(&buf, 160).len(), 1);
}

#[test]
fn processes_limited_by_buffer() {
    let buf = vec![0u8; 330];
    assert_eq!(parse_processes(&buf, 5000).len(), 2);
}

#[test]
fn process_id_byte_is_signed() {
    let mut buf = vec![0u8; PROCESS_STRIDE];
    buf[22] = 200;
    let procs = parse_processes(&buf, PROCESS_STRIDE);
    assert_eq!(procs[0].id, -56);
}

#[test]
fn process_status_must_match_exactly() {
    let mut buf = vec![0u8; 3 * PROCESS_STRIDE];
    put(&mut buf, PROCESS_STATUS_OFFSET, "Performing request");
    put(&mut buf, PROCESS_STRIDE + PROCESS_STATUS_OFFSET, "performing requests");
    put(&mut buf, 2 * PROCESS_STRIDE + PROCESS_STATUS_OFFSET, ACTIVE_STATUS);
    let procs = parse_processes(&buf, buf.len());
    assert_eq!(procs.len(), 3);
    assert!(!procs[0].active);
    assert!(!procs[1].active);
    assert!(procs[2].active);
}

#[test]
fn cursors_decoded_per_window() {
    let mut buf = vec![0u8; 150];
    buf[29] = 1;
    put(&mut buf, 52, "DB1");
    buf[60 + 29] = 2;
    put(&mut buf, 60 + 52, "DB2");
    let cursors = parse_cursors(&buf, 150);
    assert_eq!(cursors.len(), 2);
    assert_eq!(cursors[0].process_id, 1);
    assert_eq!(cursors[0].database, "DB1");
    assert_eq!(cursors[1].process_id, 2);
    assert_eq!(cursors[1].database, "DB2");
}

#[test]
fn cursors_short_length_gives_none() {
    let buf = vec![0u8; 100];
    assert!(parse_cursors(&buf, CURSOR_STRIDE - 1).is_empty());
}

#[test]
fn config_fields_at_offsets() {
    let mut buf = vec![0u8; CONFIG_BUFFER_SIZE];
    put(&mut buf, 26, "SERVER1");
    put(&mut buf, 324, "2024-01-02 03:04");
    put(&mut buf, 371, "12.0.1");
    buf[391] = 1;
    let conf = parse_config(&buf);
    assert_eq!(conf.server, "SERVER1");
    assert_eq!(conf.boot_time, "2024-01-02 03:04");
    assert_eq!(conf.version, "12.0.1");
    assert!(conf.online);
    buf[391] = 2;
    assert!(!parse_config(&buf).online);
}

#[test]
fn config_short_buffer() {
    let mut buf = vec![0u8; 40];
    put(&mut buf, 26, "S");
    let conf = parse_config(&buf);
    assert_eq!(conf.server, "S");
    assert_eq!(conf.boot_time, "");
    assert_eq!(conf.version, "");
    assert!(!conf.online);
}

#[test]
fn database_names_list() {
    let buf = b"DB1\0DB2\0\0\0\0";
    assert_eq!(parse_database_names(buf), vec!["DB1".to_string(), "DB2".to_string()]);
}
