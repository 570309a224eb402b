use vstd::prelude::*;

use crate::text::{latin1, push_char};

verus! {

/// The bytes of the NUL-terminated string that starts at `start`: every byte
/// from `start` up to the first NUL or the end of `buf`.
pub open spec fn cstr(buf: Seq<u8>, start: int) -> Seq<u8>
    decreases buf.len() - start,
{
    if start < 0 || start >= buf.len() || buf[start] == 0 {
        Seq::empty()
    } else {
        seq![buf[start]] + cstr(buf, start + 1)
    }
}

/// The strings that a list decoding reads from `start` on: one after the
/// other, each starting just past the terminator of the one before, until an
/// empty string or an offset at or past `max_length`.
pub open spec fn cstr_list(buf: Seq<u8>, start: int, max_length: int) -> Seq<Seq<u8>>
    decreases buf.len() + 1 - start,
    via cstr_list_decreases
{
    if start < 0 || start >= buf.len() || start >= max_length || cstr(buf, start).len() == 0 {
        Seq::empty()
    } else {
        seq![cstr(buf, start)] + cstr_list(buf, start + cstr(buf, start).len() + 1, max_length)
    }
}

#[via_fn]
proof fn cstr_list_decreases(buf: Seq<u8>, start: int, max_length: int) {
    if 0 <= start < buf.len() {
        lemma_cstr_in_bounds(buf, start);
    }
}

/// Each string followed by one NUL, all joined.
pub open spec fn nul_joined(list: Seq<Seq<u8>>) -> Seq<u8>
    decreases list.len(),
{
    if list.len() == 0 {
        Seq::empty()
    } else {
        list[0] + seq![0u8] + nul_joined(list.drop_first())
    }
}

/// A decoded string lies inside the buffer and holds no NUL.
pub proof fn lemma_cstr_in_bounds(buf: Seq<u8>, start: int)
    requires
        0 <= start <= buf.len(),
    ensures
        start + cstr(buf, start).len() <= buf.len(),
        forall|k: int|
            0 <= k < cstr(buf, start).len() ==> cstr(buf, start)[k] == buf[start + k] && buf[
                start + k] != 0,
        start + cstr(buf, start).len() == buf.len() || buf[start + cstr(buf, start).len()] == 0,
    decreases buf.len() - start,
{
    if start < buf.len() && buf[start] != 0 {
        lemma_cstr_in_bounds(buf, start + 1);
        let s = cstr(buf, start);
        assert forall|k: int| 0 <= k < s.len() implies s[k] == buf[start + k] && buf[start + k]
            != 0 by {
            if k > 0 {
                assert(s[k] == cstr(buf, start + 1)[k - 1]);
            }
        }
    }
}

/// The strings of a list, each followed by a NUL, give back the region of
/// the buffer that they were read from; the end of the buffer reads as a NUL.
pub proof fn lemma_list_reproduces_region(buf: Seq<u8>, start: int, max_length: int)
    requires
        0 <= start <= buf.len(),
    ensures
        start + nul_joined(cstr_list(buf, start, max_length)).len() <= buf.len() + 1,
        nul_joined(cstr_list(buf, start, max_length)) == (buf + seq![0u8]).subrange(
            start,
            start + nul_joined(cstr_list(buf, start, max_length)).len(),
        ),
    decreases buf.len() - start,
{
    let list = cstr_list(buf, start, max_length);
    let padded = buf + seq![0u8];
    let s = cstr(buf, start);
    lemma_cstr_in_bounds(buf, start);
    if s.len() == 0 || start >= max_length || start >= buf.len() {
        assert(nul_joined(list) =~= padded.subrange(start, start));
    } else {
        let next = start + s.len() + 1;
        assert(list.drop_first() =~= cstr_list(buf, next, max_length));
        if next <= buf.len() {
            lemma_list_reproduces_region(buf, next, max_length);
        } else {
            assert(cstr_list(buf, next, max_length) =~= Seq::empty());
        }
        let rest = nul_joined(cstr_list(buf, next, max_length));
        assert(nul_joined(list) == s + seq![0u8] + rest);
        assert(padded[start + s.len()] == 0);
        assert(nul_joined(list) =~= padded.subrange(start, start + nul_joined(list).len()));
    }
}

/// The index of the terminator of the string that starts at `start`: the
/// first NUL at or after `start`, or the end of `buf`.
fn cstr_end(buf: &[u8], start: usize) -> (end: usize)
    ensures
        start <= buf@.len() ==> end == start + cstr(buf@, start as int).len(),
        start > buf@.len() ==> end == start && cstr(buf@, start as int).len() == 0,
{
    if start > buf.len() {
        return start;
    }
    let mut i: usize = start;
    proof {
        lemma_cstr_in_bounds(buf@, start as int);
    }
    while i < buf.len() && buf[i] != 0
        invariant
            start <= i <= buf@.len(),
            cstr(buf@, start as int) == buf@.subrange(start as int, i as int) + cstr(
                buf@,
                i as int,
            ),
        decreases buf@.len() - i,
    {
        assert(buf@.subrange(start as int, i + 1) =~= buf@.subrange(start as int, i as int)
            + seq![buf@[i as int]]);
        i = i + 1;
    }
    i
}

/// Reads the NUL-terminated string at `start`, one character per byte.
/// Reading stops at the first NUL or at the end of `buf`; an offset at or
/// past the end gives the empty string.
pub fn extract_string(buf: &[u8], start: usize) -> (r: String)
    ensures
        r@ == latin1(cstr(buf@, start as int)),
        start <= buf@.len() ==> start + r@.len() <= buf@.len(),
        forall|k: int| 0 <= k < r@.len() ==> r@[k] == buf@[start + k] as char,
{
    let mut r = String::new();
    if start >= buf.len() {
        assert(r@ =~= latin1(cstr(buf@, start as int)));
        return r;
    }
    let end = cstr_end(buf, start);
    let mut i: usize = start;
    proof {
        lemma_cstr_in_bounds(buf@, start as int);
        assert(cstr(buf@, start as int) =~= buf@.subrange(start as int, end as int));
        assert(r@ =~= latin1(buf@.subrange(start as int, i as int)));
    }
    while i < end
        invariant
            start <= i <= end <= buf@.len(),
            cstr(buf@, start as int) == buf@.subrange(start as int, end as int),
            r@ == latin1(buf@.subrange(start as int, i as int)),
        decreases end - i,
    {
        push_char(&mut r, buf[i] as char);
        assert(latin1(buf@.subrange(start as int, i + 1)) =~= latin1(
            buf@.subrange(start as int, i as int),
        ).push(buf@[i as int] as char));
        i = i + 1;
    }
    r
}

/// Reads a list of NUL-terminated strings starting at `start`: each next
/// string starts one past the end of the one before. Reading stops at the
/// first empty string, which is not part of the result, or as soon as the
/// offset reaches `max_length`.
pub fn extract_strings(buf: &[u8], start: usize, max_length: usize) -> (r: Vec<String>)
    ensures
        r@.len() == cstr_list(buf@, start as int, max_length as int).len(),
        forall|k: int|
            0 <= k < r@.len() ==> r@[k]@ == latin1(
                #[trigger] cstr_list(buf@, start as int, max_length as int)[k],
            ),
{
    let mut results: Vec<String> = Vec::new();
    let mut pos: usize = start;
    let ghost full = cstr_list(buf@, start as int, max_length as int);
    loop
        invariant
            full == cstr_list(buf@, start as int, max_length as int),
            results@.len() + cstr_list(buf@, pos as int, max_length as int).len() == full.len(),
            forall|k: int| 0 <= k < results@.len() ==> results@[k]@ == latin1(#[trigger] full[k]),
            forall|k: int|
                0 <= k < cstr_list(buf@, pos as int, max_length as int).len() ==> full[k
                    + results@.len()] == #[trigger] cstr_list(buf@, pos as int, max_length as int)[k],
        decreases buf@.len() + 1 - pos,
    {
        let end = cstr_end(buf, pos);
        if end == pos || pos >= max_length || pos >= buf.len() {
            return results;
        }
        let s = extract_string(buf, pos);
        let ghost cur = cstr_list(buf@, pos as int, max_length as int);
        proof {
            lemma_cstr_in_bounds(buf@, pos as int);
            assert(cur[0] == cstr(buf@, pos as int));
        }
        if end >= buf.len() {
            proof {
                assert(cstr_list(buf@, end + 1, max_length as int) =~= Seq::<Seq<u8>>::empty());
                assert(cur.len() == 1);
                assert(full[results@.len() as int] == cur[0]);
            }
            results.push(s);
            return results;
        }
        proof {
            assert(cur.drop_first() =~= cstr_list(buf@, end + 1, max_length as int));
            assert(full[results@.len() as int] == cur[0]);
            assert forall|k: int|
                0 <= k < cstr_list(buf@, end + 1, max_length as int).len() implies full[k
                + results@.len() + 1] == #[trigger] cstr_list(buf@, end + 1, max_length as int)[k] by {
                assert(full[(k + 1) + results@.len()] == cur[k + 1]);
            }
        }
        results.push(s);
        pos = end + 1;
    }
}

} // verus!
