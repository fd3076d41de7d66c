//! What the memory-access helpers make of MDB's answers.  The calls into
//! MDB (`mdb_vread`, `mdb_vwrite`, `mdb_readstr`) are made by the caller,
//! which hands the buffer and the returned count to these functions.

use vstd::prelude::*;
use vstd::utf8::{decode_utf8, decode_utf8_encode_utf8, encode_utf8, valid_utf8};

use crate::text::string_from_utf8;

verus! {

/// The result of reading `buf.len()` bytes of target memory into `buf`:
/// the buffer, unless MDB answered `-1` (failure).
pub fn finish_vread(buf: Vec<u8>, ret: isize) -> (r: Option<Vec<u8>>)
    ensures
        ret == -1 ==> r is None,
        ret != -1 ==> r == Some(buf),
{
    if ret == -1 {
        None
    } else {
        Some(buf)
    }
}

/// The result of writing to target memory: the number of bytes MDB says it
/// wrote, or `None` when it answered `-1` or any other negative count.
pub fn finish_vwrite(ret: isize) -> (r: Option<usize>)
    ensures
        r is Some <==> ret >= 0,
        r matches Some(n) ==> n == ret,
{
    if ret == -1 {
        None
    } else if ret < 0 {
        None
    } else {
        Some(ret as usize)
    }
}

/// The bytes of a string read into `buf`, given the length MDB returned:
/// `None` for a negative answer, otherwise the first `ret` bytes of `buf`
/// (all of it when `ret` is not smaller).
pub open spec fn readstr_bytes(buf: Seq<u8>, ret: isize) -> Option<Seq<u8>> {
    if ret < 0 {
        None
    } else if ret < buf.len() {
        Some(buf.take(ret as int))
    } else {
        Some(buf)
    }
}

/// The result of reading a string of at most `buf.len()` bytes into `buf`:
/// the bytes MDB reports (see `readstr_bytes`) as text, or `None` when MDB
/// failed or those bytes are not UTF-8.
pub fn finish_readstr(buf: Vec<u8>, ret: isize) -> (r: Option<String>)
    ensures
        r is Some <==> (readstr_bytes(buf@, ret) matches Some(b) && valid_utf8(b)),
        r matches Some(s) ==> Some(encode_utf8(s@)) == readstr_bytes(buf@, ret),
{
    if ret == -1 {
        return None;
    }
    if ret < 0 {
        return None;
    }
    let actual_len = ret as usize;
    let mut buf = buf;
    if actual_len < buf.len() {
        buf.truncate(actual_len);
    }
    let r = string_from_utf8(buf.as_slice());
    proof {
        if valid_utf8(buf@) {
            decode_utf8_encode_utf8(buf@);
        }
    }
    r
}

} // verus!
