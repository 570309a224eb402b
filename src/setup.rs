use vstd::prelude::*;

verus! {

/// The display name that marks the server's uninstall entry starts so.
pub const PRODUCT_PREFIX: &'static str = "SQLBase";

/// The configuration line that names the server starts so.
pub const SERVER_NAME_KEY: &'static str = "servername=";

/// `s` begins with `prefix`.
pub open spec fn has_prefix(s: Seq<char>, prefix: Seq<char>) -> bool {
    prefix.len() <= s.len() && s.subrange(0, prefix.len() as int) == prefix
}

/// The characters from `start` up to the first `=` or `,` or the end.
pub open spec fn field_from(s: Seq<char>, start: int) -> Seq<char>
    decreases s.len() - start,
{
    if start < 0 || start >= s.len() || s[start] == '=' || s[start] == ',' {
        Seq::empty()
    } else {
        seq![s[start]] + field_from(s, start + 1)
    }
}

/// The server named by a configuration line that starts with the key: the
/// text after the key, up to the next `=` or `,`.
pub open spec fn server_of_line(line: Seq<char>) -> Seq<char> {
    field_from(line, SERVER_NAME_KEY@.len() as int)
}

/// Whether `s` begins with `prefix`.
pub fn starts_with(s: &str, prefix: &str) -> (r: bool)
    ensures
        r == has_prefix(s@, prefix@),
{
    let n = prefix.unicode_len();
    if n > s.unicode_len() {
        return false;
    }
    let mut k: usize = 0;
    while k < n
        invariant
            n == prefix@.len(),
            n <= s@.len(),
            k <= n,
            forall|i: int| 0 <= i < k ==> s@[i] == prefix@[i],
        decreases n - k,
    {
        if s.get_char(k) != prefix.get_char(k) {
            assert(s@.subrange(0, n as int)[k as int] != prefix@[k as int]);
            return false;
        }
        k = k + 1;
    }
    assert(s@.subrange(0, n as int) =~= prefix@);
    true
}

/// The index of the first uninstall entry whose display name marks the
/// server, if any.
pub fn find_install_entry(display_names: &Vec<String>) -> (r: Option<usize>)
    ensures
        r matches Some(k) ==> k < display_names@.len() && has_prefix(
            display_names@[k as int]@,
            PRODUCT_PREFIX@,
        ) && forall|j: int| 0 <= j < k ==> !has_prefix(display_names@[j]@, PRODUCT_PREFIX@),
        r is None ==> forall|j: int|
            0 <= j < display_names@.len() ==> !has_prefix(display_names@[j]@, PRODUCT_PREFIX@),
{
    let mut k: usize = 0;
    while k < display_names.len()
        invariant
            k <= display_names@.len(),
            forall|j: int| 0 <= j < k ==> !has_prefix(display_names@[j]@, PRODUCT_PREFIX@),
        decreases display_names@.len() - k,
    {
        if starts_with(display_names[k].as_str(), PRODUCT_PREFIX) {
            return Some(k);
        }
        k = k + 1;
    }
    None
}

/// The server name that the first line with the key gives, or nothing when
/// no line has it.
pub fn read_server_name(lines: &Vec<String>) -> (r: Option<String>)
    ensures
        r matches Some(name) ==> exists|k: int|
            0 <= k < lines@.len() && has_prefix(lines@[k]@, SERVER_NAME_KEY@) && name@
                == server_of_line(lines@[k]@) && forall|j: int|
                0 <= j < k ==> !has_prefix(lines@[j]@, SERVER_NAME_KEY@),
        r is None ==> forall|j: int|
            0 <= j < lines@.len() ==> !has_prefix(lines@[j]@, SERVER_NAME_KEY@),
{
    let mut k: usize = 0;
    while k < lines.len()
        invariant
            k <= lines@.len(),
            forall|j: int| 0 <= j < k ==> !has_prefix(lines@[j]@, SERVER_NAME_KEY@),
        decreases lines@.len() - k,
    {
        let line = lines[k].as_str();
        if starts_with(line, SERVER_NAME_KEY) {
            let start = SERVER_NAME_KEY.unicode_len();
            let len = line.unicode_len();
            let mut end: usize = start;
            while end < len && line.get_char(end) != '=' && line.get_char(end) != ','
                invariant
                    start <= end <= len,
                    len == line@.len(),
                    start == SERVER_NAME_KEY@.len(),
                    field_from(line@, start as int) == line@.subrange(start as int, end as int)
                        + field_from(line@, end as int),
                decreases len - end,
            {
                assert(line@.subrange(start as int, end + 1) =~= line@.subrange(
                    start as int,
                    end as int,
                ).push(line@[end as int]));
                assert(field_from(line@, end as int) == seq![line@[end as int]] + field_from(
                    line@,
                    end + 1,
                ));
                end = end + 1;
            }
            let name = String::from_str(line.substring_char(start, end));
            assert(name@ =~= server_of_line(lines@[k as int]@));
            return Some(name);
        }
        k = k + 1;
    }
    None
}

} // verus!
