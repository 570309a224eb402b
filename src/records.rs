use vstd::prelude::*;

use crate::decoder::{cstr, cstr_list, extract_string, extract_strings};
use crate::schema::{
    ACTIVE_STATUS, CONFIG_BOOT_TIME_OFFSET, CONFIG_ONLINE_OFFSET, CONFIG_ONLINE_VALUE,
    CONFIG_SERVER_OFFSET, CONFIG_VERSION_OFFSET, CURSOR_DATABASE_OFFSET, CURSOR_PROCESS_ID_OFFSET,
    CURSOR_STRIDE, PROCESS_ID_OFFSET, PROCESS_STATUS_OFFSET, PROCESS_STRIDE,
};
use crate::text::latin1;

verus! {

/// One server process.
#[derive(Clone, Copy, Debug, PartialEq, Eq, Structural)]
pub struct ProcessRecord {
    pub id: i32,
    pub active: bool,
}

/// One open cursor and the database it works on.
#[derive(Debug)]
pub struct CursorRecord {
    pub process_id: i32,
    pub database: String,
}

/// The server's configuration and state.
#[derive(Debug)]
pub struct ConfigRecord {
    pub server: String,
    pub boot_time: String,
    pub version: String,
    pub online: bool,
}

/// A process identifier as the buffers hold it: one byte read as signed.
pub open spec fn id_byte(b: u8) -> i32 {
    (b as i8) as i32
}

/// The decoded string at `offset`.
pub open spec fn text_at(buf: Seq<u8>, offset: int) -> Seq<char> {
    latin1(cstr(buf, offset))
}

/// The number of whole records of width `stride` within the first
/// `valid_length` bytes that the buffer really holds.
pub open spec fn record_count(buf_len: int, valid_length: int, stride: int) -> int {
    if valid_length < buf_len {
        valid_length / stride
    } else {
        buf_len / stride
    }
}

/// The process record whose window starts at `offset`.
pub open spec fn process_at(buf: Seq<u8>, offset: int) -> ProcessRecord {
    ProcessRecord {
        id: id_byte(buf[offset + PROCESS_ID_OFFSET]),
        active: text_at(buf, offset + PROCESS_STATUS_OFFSET) == ACTIVE_STATUS@,
    }
}

/// The cursor record whose window starts at `offset`, as
/// (process identifier, database name).
pub open spec fn cursor_at(buf: Seq<u8>, offset: int) -> (i32, Seq<char>) {
    (id_byte(buf[offset + CURSOR_PROCESS_ID_OFFSET]), text_at(buf, offset + CURSOR_DATABASE_OFFSET))
}

/// Decodes the process table: one record for every whole window of
/// `PROCESS_STRIDE` bytes within the first `valid_length` bytes (and within
/// `buf`). A trailing partial window is left alone.
pub fn parse_processes(buf: &[u8], valid_length: usize) -> (r: Vec<ProcessRecord>)
    ensures
        r@.len() == record_count(buf@.len() as int, valid_length as int, PROCESS_STRIDE as int),
        forall|k: int|
            0 <= k < r@.len() ==> #[trigger] r@[k] == process_at(buf@, k * PROCESS_STRIDE),
{
    let limit: usize = if valid_length < buf.len() {
        valid_length
    } else {
        buf.len()
    };
    let mut results: Vec<ProcessRecord> = Vec::new();
    let mut offset: usize = 0;
    let active = String::from_str(ACTIVE_STATUS);
    while offset <= limit && limit - offset >= PROCESS_STRIDE
        invariant
            limit <= buf@.len(),
            limit == (if valid_length < buf@.len() { valid_length as int } else { buf@.len() as int }),
            offset == results@.len() * PROCESS_STRIDE,
            offset <= limit,
            active@ == ACTIVE_STATUS@,
            forall|k: int|
                0 <= k < results@.len() ==> #[trigger] results@[k] == process_at(
                    buf@,
                    k * PROCESS_STRIDE,
                ),
        decreases limit - offset,
    {
        let status = extract_string(buf, offset + PROCESS_STATUS_OFFSET);
        let record = ProcessRecord {
            id: (buf[offset + PROCESS_ID_OFFSET] as i8) as i32,
            active: status == active,
        };
        results.push(record);
        offset = offset + PROCESS_STRIDE;
    }
    assert(results@.len() == limit as int / 160) by (nonlinear_arith)
        requires
            offset == results@.len() * 160,
            offset <= limit,
            limit - offset < 160,
    ;
    results
}

/// Decodes the cursor table: one record for every whole window of
/// `CURSOR_STRIDE` bytes within the first `valid_length` bytes (and within
/// `buf`). A trailing partial window is left alone.
pub fn parse_cursors(buf: &[u8], valid_length: usize) -> (r: Vec<CursorRecord>)
    ensures
        r@.len() == record_count(buf@.len() as int, valid_length as int, CURSOR_STRIDE as int),
        forall|k: int|
            0 <= k < r@.len() ==> (#[trigger] r@[k]).process_id == cursor_at(
                buf@,
                k * CURSOR_STRIDE,
            ).0 && r@[k].database@ == cursor_at(buf@, k * CURSOR_STRIDE).1,
{
    let limit: usize = if valid_length < buf.len() {
        valid_length
    } else {
        buf.len()
    };
    let mut results: Vec<CursorRecord> = Vec::new();
    let mut offset: usize = 0;
    while offset <= limit && limit - offset >= CURSOR_STRIDE
        invariant
            limit <= buf@.len(),
            limit == (if valid_length < buf@.len() { valid_length as int } else { buf@.len() as int }),
            offset == results@.len() * CURSOR_STRIDE,
            offset <= limit,
            forall|k: int|
                0 <= k < results@.len() ==> (#[trigger] results@[k]).process_id == cursor_at(
                    buf@,
                    k * CURSOR_STRIDE,
                ).0 && results@[k].database@ == cursor_at(buf@, k * CURSOR_STRIDE).1,
        decreases limit - offset,
    {
        let record = CursorRecord {
            process_id: (buf[offset + CURSOR_PROCESS_ID_OFFSET] as i8) as i32,
            database: extract_string(buf, offset + CURSOR_DATABASE_OFFSET),
        };
        results.push(record);
        offset = offset + CURSOR_STRIDE;
    }
    assert(results@.len() == limit as int / 60) by (nonlinear_arith)
        requires
            offset == results@.len() * 60,
            offset <= limit,
            limit - offset < 60,
    ;
    results
}

/// Decodes the configuration buffer: three strings and the online flag at
/// their fixed offsets. A field that lies past the end of `buf` reads as
/// empty, and a missing flag byte as offline.
pub fn parse_config(buf: &[u8]) -> (r: ConfigRecord)
    ensures
        r.server@ == text_at(buf@, CONFIG_SERVER_OFFSET as int),
        r.boot_time@ == text_at(buf@, CONFIG_BOOT_TIME_OFFSET as int),
        r.version@ == text_at(buf@, CONFIG_VERSION_OFFSET as int),
        r.online == (CONFIG_ONLINE_OFFSET < buf@.len() && buf@[CONFIG_ONLINE_OFFSET as int]
            == CONFIG_ONLINE_VALUE),
{
    ConfigRecord {
        boot_time: extract_string(buf, CONFIG_BOOT_TIME_OFFSET),
        online: CONFIG_ONLINE_OFFSET < buf.len() && buf[CONFIG_ONLINE_OFFSET] == CONFIG_ONLINE_VALUE,
        server: extract_string(buf, CONFIG_SERVER_OFFSET),
        version: extract_string(buf, CONFIG_VERSION_OFFSET),
    }
}

/// Decodes the list of database names: NUL-terminated names one after the
/// other from the start of `buf`, ended by an empty name.
pub fn parse_database_names(buf: &[u8]) -> (r: Vec<String>)
    ensures
        r@.len() == cstr_list(buf@, 0, buf@.len() as int).len(),
        forall|k: int|
            0 <= k < r@.len() ==> r@[k]@ == latin1(
                #[trigger] cstr_list(buf@, 0, buf@.len() as int)[k],
            ),
{
    extract_strings(buf, 0, buf.len())
}

/// Decoding fewer bytes than one record yields no records.
pub proof fn lemma_short_buffer_no_records(buf_len: int, valid_length: int, stride: int)
    requires
        0 <= valid_length < stride,
        0 <= buf_len,
        0 < stride,
    ensures
        record_count(buf_len, valid_length, stride) == 0,
{
    if valid_length >= buf_len {
        assert(buf_len / stride == 0) by (nonlinear_arith)
            requires
                0 <= buf_len < stride,
        ;
    } else {
        assert(valid_length / stride == 0) by (nonlinear_arith)
            requires
                0 <= valid_length < stride,
        ;
    }
}

} // verus!
