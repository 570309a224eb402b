use sqlbase_probe::decoder::{extract_string, extract_strings};

#[test]
fn string_stops_at_nul() {
    let buf = b"abc\0def";
    assert_eq!(extract_string(buf, 0), "abc");
    assert_eq!(extract_string(buf, 1), "bc");
    assert_eq!(extract_string(buf, 4), "def");
}

#[test]
fn string_at_nul_is_empty() {
    let buf = b"abc\0def";
    assert_eq!(extract_string(buf, 3), "");
}

#[test]
fn string_at_or_past_end_is_empty() {
    let buf = b"abc\0def";
    assert_eq!(extract_string(buf, 7), "");
    assert_eq!(extract_string(buf, 100), "");
    assert_eq!(extract_string(&[], 0), "");
}

#[test]
fn string_without_terminator_runs_to_end() {
    let buf = b"xyz";
    assert_eq!(extract_string(buf, 0), "xyz");
    assert_eq!(extract_string(buf, 2), "z");
}

#[test]
fn string_maps_each_byte_to_one_char() {
    let buf = [0x41u8, 0xE9, 0xFF, 0];
    let s = extract_string(&buf, 0);
    assert_eq!(s.chars().count(), 3);
    assert_eq!(s, "A\u{e9}\u{ff}");
}

#[test]
fn string_never_longer_than_rest_of_buffer() {
    let buf = [7u8; 16];
    for start in 0..=buf.len() {
        let s = extract_string(&buf, start);
        assert_eq!(s.chars().count(), buf.len() - start);
    }
}

#[test]
fn list_stops_at_empty_string() {
    let buf = b"DB1\0DB2\0\0xyz\0";
    assert_eq!(extract_strings(buf, 0, buf.len()), vec!["DB1".to_string(), "DB2".to_string()]);
}

#[test]
fn list_stops_at_max_length() {
    let buf = b"A\0B\0C\0";
    assert_eq!(extract_strings(buf, 0, 2), vec!["A".to_string()]);
    assert_eq!(extract_strings(buf, 0, 3), vec!["A".to_string(), "B".to_string()]);
    assert_eq!(extract_strings(buf, 0, 0), Vec::<String>::new());
}

#[test]
fn list_last_name_may_run_to_end() {
    let buf = b"A\0BC";
    assert_eq!(extract_strings(buf, 0, 100), vec!["A".to_string(), "BC".to_string()]);
}

#[test]
fn list_from_offset() {
    let buf = b"skip\0one\0two\0\0";
    assert_eq!(extract_strings(buf, 5, buf.len()), vec!["one".to_string(), "two".to_string()]);
}

#[test]
fn list_empty_buffer() {
    assert_eq!(extract_strings(&[], 0, 10), Vec::<String>::new());
    assert_eq!(extract_strings(b"\0abc", 0, 10), Vec::<String>::new());
}

#[test]
fn list_joined_with_nuls_reproduces_region() {
    let buf = b"alpha\0be\0gamma\0\0rest";
    let list = extract_strings(buf, 0, buf.len());
    let mut joined: Vec<u8> = Vec::new();
    for s in &list {
        for c in s.chars() {
            joined.push(c as u8);
        }
        joined.push(0);
    }
    assert_eq!(&joined[..], &buf[..joined.len()]);
    assert_eq!(buf[joined.len()], 0);
}
