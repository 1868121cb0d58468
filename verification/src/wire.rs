//! Wire primitives: variable-length integers, length-prefixed byte strings
//! and text, as every message of the protocol is built from them.
//!
//! An unsigned integer up to 250 is one byte. A larger one is a marker byte
//! (251, 252 or 253) followed by its 2, 4 or 8 bytes, least significant first.

use vstd::prelude::*;
use vstd::slice::*;
use vstd::string::*;
use vstd::utf8::*;

verus! {

/// The `n` low bytes of `v`, least significant first.
pub open spec fn le_bytes(v: nat, n: nat) -> Seq<u8>
    decreases n,
{
    if n == 0 {
        Seq::empty()
    } else {
        seq![(v % 256) as u8] + le_bytes(v / 256, (n - 1) as nat)
    }
}

/// The integer that the bytes of `s` spell, least significant first.
pub open spec fn le_value(s: Seq<u8>) -> nat
    decreases s.len(),
{
    if s.len() == 0 {
        0
    } else {
        s[0] as nat + 256 * le_value(s.drop_first())
    }
}

/// The bytes of a variable-length unsigned integer.
pub open spec fn varint(v: u64) -> Seq<u8> {
    if v <= 250 {
        seq![v as u8]
    } else if v <= 0xffff {
        seq![251u8] + le_bytes(v as nat, 2)
    } else if v <= 0xffff_ffff {
        seq![252u8] + le_bytes(v as nat, 4)
    } else {
        seq![253u8] + le_bytes(v as nat, 8)
    }
}

/// Reads a variable-length unsigned integer from the front of `s`: the value
/// and the number of bytes it took. `None` where `s` ends too early or starts
/// with a marker that no 64-bit integer uses.
pub open spec fn parse_varint(s: Seq<u8>) -> Option<(u64, usize)> {
    if s.len() == 0 {
        None
    } else if s[0] <= 250 {
        Some((s[0] as u64, 1usize))
    } else if s[0] == 251 {
        if s.len() >= 3 {
            Some((le_value(s.subrange(1, 3)) as u64, 3usize))
        } else {
            None
        }
    } else if s[0] == 252 {
        if s.len() >= 5 {
            Some((le_value(s.subrange(1, 5)) as u64, 5usize))
        } else {
            None
        }
    } else if s[0] == 253 {
        if s.len() >= 9 {
            Some((le_value(s.subrange(1, 9)) as u64, 9usize))
        } else {
            None
        }
    } else {
        None
    }
}

/// `bincode::encode_to_vec` of a `u64` under `bincode::config::standard()`:
/// the variable-length form of `v`. Writing to a vector does not fail.
#[verifier::external_body]
fn bincode_encode_u64(v: u64) -> (bytes: Vec<u8>)
    ensures
        bytes@ == varint(v),
{
    bincode::encode_to_vec(v, bincode::config::standard()).unwrap_or_default()
}

/// `bincode::decode_from_slice` of a `u64` under `bincode::config::standard()`:
/// the integer at the front of `src` and the number of bytes read, or `None`
/// where bincode reports an error.
#[verifier::external_body]
fn bincode_decode_u64(src: &[u8]) -> (r: Option<(u64, usize)>)
    ensures
        r == parse_varint(src@),
{
    match bincode::decode_from_slice::<u64, _>(src, bincode::config::standard()) {
        Ok(pair) => Some(pair),
        Err(_) => None,
    }
}

/// `core::str::from_utf8`: the text that `bytes` spell, or `None` where they
/// are not valid UTF-8.
#[verifier::external_body]
fn str_from_utf8<'a>(bytes: &'a [u8]) -> (r: Option<&'a str>)
    ensures
        r is Some <==> valid_utf8(bytes@),
        r matches Some(s) ==> s@ == decode_utf8(bytes@),
{
    match core::str::from_utf8(bytes) {
        Ok(s) => Some(s),
        Err(_) => None,
    }
}

/// The index of a signed integer in the zigzag order 0, -1, 1, -2, 2, ...
pub open spec fn zigzag(v: i32) -> u64 {
    if v < 0 {
        (-2 * (v as int) - 1) as u64
    } else {
        (2 * (v as int)) as u64
    }
}

/// The signed integer at index `z` of the zigzag order.
pub open spec fn unzigzag(z: u64) -> int {
    if z % 2 == 0 {
        (z / 2) as int
    } else {
        -((z / 2) as int) - 1
    }
}

/// The bytes of a length-prefixed byte string.
pub open spec fn blob(data: Seq<u8>) -> Seq<u8> {
    varint(data.len() as u64) + data
}

/// The bytes of a length-prefixed text.
pub open spec fn text(chars: Seq<char>) -> Seq<u8> {
    blob(encode_utf8(chars))
}

/// Reads a length-prefixed byte string from the front of `s`: its content
/// and the number of bytes it took, prefix included.
pub open spec fn parse_blob(s: Seq<u8>) -> Option<(Seq<u8>, usize)> {
    match parse_varint(s) {
        Some((len, used)) => if used + len <= s.len() && used + len <= usize::MAX {
            Some((s.subrange(used as int, used + len), (used + len) as usize))
        } else {
            None
        },
        None => None,
    }
}

/// Reads a length-prefixed text from the front of `s`. `None` also where
/// the content is not valid UTF-8.
pub open spec fn parse_text(s: Seq<u8>) -> Option<(Seq<char>, usize)> {
    match parse_blob(s) {
        Some((data, used)) => if valid_utf8(data) {
            Some((decode_utf8(data), used))
        } else {
            None
        },
        None => None,
    }
}

/// Reads a variable-length integer that must fit in 16 bits and be spelled
/// with at most two value bytes.
pub open spec fn parse_u16(s: Seq<u8>) -> Option<(u16, usize)> {
    match parse_varint(s) {
        Some((v, used)) => if used <= 3 {
            Some((v as u16, used))
        } else {
            None
        },
        None => None,
    }
}

/// Reads a variable-length integer that must be spelled with at most four
/// value bytes.
pub open spec fn parse_u32(s: Seq<u8>) -> Option<(u32, usize)> {
    match parse_varint(s) {
        Some((v, used)) => if used <= 5 {
            Some((v as u32, used))
        } else {
            None
        },
        None => None,
    }
}

/// Reads a signed 32-bit integer in zigzag form.
pub open spec fn parse_i32(s: Seq<u8>) -> Option<(i32, usize)> {
    match parse_u32(s) {
        Some((z, used)) => Some((unzigzag(z as u64) as i32, used)),
        None => None,
    }
}

/// Reads one raw byte.
pub open spec fn parse_u8(s: Seq<u8>) -> Option<(u8, usize)> {
    if s.len() >= 1 {
        Some((s[0], 1usize))
    } else {
        None
    }
}

/// `v` without its `n` low bytes.
pub open spec fn high_part(v: nat, n: nat) -> nat
    decreases n,
{
    if n == 0 {
        v
    } else {
        high_part(v / 256, (n - 1) as nat)
    }
}

/// The `n` low bytes of `v` are `n` bytes, and they spell `v` where `v` has
/// no higher byte.
pub proof fn lemma_le_roundtrip(v: nat, n: nat)
    ensures
        le_bytes(v, n).len() == n,
        high_part(v, n) == 0 ==> le_value(le_bytes(v, n)) == v,
    decreases n,
{
    if n > 0 {
        lemma_le_roundtrip(v / 256, (n - 1) as nat);
        let s = le_bytes(v, n);
        assert(s.drop_first() =~= le_bytes(v / 256, (n - 1) as nat));
        assert(s[0] == (v % 256) as u8);
    }
}

/// Bytes spell less than 256 to the power of their number.
pub proof fn lemma_le_value_bound(s: Seq<u8>)
    ensures
        s.len() == 2 ==> le_value(s) <= 0xffff,
        s.len() == 4 ==> le_value(s) <= 0xffff_ffff,
        s.len() == 8 ==> le_value(s) <= 0xffff_ffff_ffff_ffff,
{
    reveal_with_fuel(le_value, 9);
    if s.len() == 2 || s.len() == 4 || s.len() == 8 {
        let s1 = s.drop_first();
        let s2 = s1.drop_first();
        assert(le_value(s2) == 0 || s.len() > 2);
        if s.len() > 2 {
            let s3 = s2.drop_first();
            let s4 = s3.drop_first();
            if s.len() > 4 {
                let s5 = s4.drop_first();
                let s6 = s5.drop_first();
                let s7 = s6.drop_first();
                let s8 = s7.drop_first();
                assert(le_value(s8) == 0);
                assert(le_value(s7) <= 0xff);
                assert(le_value(s6) <= 0xffff);
                assert(le_value(s5) <= 0xff_ffff);
                assert(le_value(s4) <= 0xffff_ffff);
                assert(le_value(s3) <= 0xff_ffff_ffff);
                assert(le_value(s2) <= 0xffff_ffff_ffff);
                assert(le_value(s1) <= 0xff_ffff_ffff_ffff);
            } else {
                assert(le_value(s4) == 0);
                assert(le_value(s3) <= 0xff);
                assert(le_value(s2) <= 0xffff);
                assert(le_value(s1) <= 0xff_ffff);
            }
        } else {
            assert(le_value(s1) <= 0xff);
        }
    }
}

/// What a reading of a variable-length integer took bounds what it gave.
pub proof fn lemma_parse_varint_bound(s: Seq<u8>)
    ensures
        parse_varint(s) matches Some((v, used)) ==> 1 <= used <= 9 && used <= s.len(),
        parse_varint(s) matches Some((v, used)) ==> (used <= 3 ==> v <= 0xffff),
        parse_varint(s) matches Some((v, used)) ==> (used <= 5 ==> v <= 0xffff_ffff),
{
    if s.len() >= 3 {
        lemma_le_value_bound(s.subrange(1, 3));
    }
    if s.len() >= 5 {
        lemma_le_value_bound(s.subrange(1, 5));
    }
}

/// What reading a variable-length integer gives on its own encoding,
/// whatever follows it.
pub proof fn lemma_varint_roundtrip(v: u64, rest: Seq<u8>)
    ensures
        parse_varint(varint(v) + rest) == Some((v, varint(v).len() as usize)),
        1 <= varint(v).len() <= 9,
        v <= 0xffff ==> varint(v).len() <= 3,
        v <= 0xffff_ffff ==> varint(v).len() <= 5,
{
    let s = varint(v) + rest;
    if v <= 250 {
        assert(s[0] == v as u8);
    } else if v <= 0xffff {
        lemma_le_roundtrip(v as nat, 2);
        reveal_with_fuel(high_part, 3);
        assert(s.subrange(1, 3) =~= le_bytes(v as nat, 2));
        assert(s[0] == 251u8);
    } else if v <= 0xffff_ffff {
        lemma_le_roundtrip(v as nat, 4);
        reveal_with_fuel(high_part, 5);
        assert(s.subrange(1, 5) =~= le_bytes(v as nat, 4));
        assert(s[0] == 252u8);
    } else {
        lemma_le_roundtrip(v as nat, 8);
        reveal_with_fuel(high_part, 9);
        assert(s.subrange(1, 9) =~= le_bytes(v as nat, 8));
        assert(s[0] == 253u8);
    }
}

/// A reading made at the front of what follows position `pos`, told by the
/// position that follows it.
pub open spec fn advance<T>(r: Option<(T, usize)>, pos: usize) -> Option<(T, usize)> {
    match r {
        Some((v, used)) => Some((v, (pos + used) as usize)),
        None => None,
    }
}

/// Appends `src` to `out`.
pub fn append_bytes(out: &mut Vec<u8>, src: &[u8])
    ensures
        final(out)@ == old(out)@ + src@,
{
    let mut i: usize = 0;
    while i < src.len()
        invariant
            i <= src@.len(),
            out@ == old(out)@ + src@.take(i as int),
        decreases src@.len() - i,
    {
        out.push(src[i]);
        proof {
            assert(src@.take(i + 1) =~= src@.take(i as int).push(src@[i as int]));
            assert(out@ =~= old(out)@ + src@.take(i + 1));
        }
        i += 1;
    }
    proof {
        assert(src@.take(src@.len() as int) =~= src@);
    }
}

/// Appends the variable-length form of `v` to `out`.
pub fn put_varint(out: &mut Vec<u8>, v: u64)
    ensures
        final(out)@ == old(out)@ + varint(v),
{
    let bytes = bincode_encode_u64(v);
    append_bytes(out, bytes.as_slice());
}

/// Appends one raw byte to `out`.
pub fn put_u8(out: &mut Vec<u8>, v: u8)
    ensures
        final(out)@ == old(out)@ + seq![v],
{
    out.push(v);
    proof {
        assert(out@ =~= old(out)@ + seq![v]);
    }
}

/// Appends a signed integer in zigzag form to `out`.
pub fn put_i32(out: &mut Vec<u8>, v: i32)
    ensures
        final(out)@ == old(out)@ + varint(zigzag(v)),
{
    let wide: i64 = v as i64;
    let z: u64 = if v < 0 {
        let below: i64 = -1 - wide;
        (2 * below + 1) as u64
    } else {
        (2 * wide) as u64
    };
    put_varint(out, z);
}

/// Appends `data` with its length in front to `out`.
pub fn put_blob(out: &mut Vec<u8>, data: &[u8])
    ensures
        final(out)@ == old(out)@ + blob(data@),
{
    put_varint(out, data.len() as u64);
    append_bytes(out, data);
    proof {
        assert(out@ =~= old(out)@ + blob(data@));
    }
}

/// Appends the text `s` with its length in bytes in front to `out`.
pub fn put_text(out: &mut Vec<u8>, s: &str)
    ensures
        final(out)@ == old(out)@ + text(s@),
{
    put_blob(out, s.as_bytes());
}

/// Reads a variable-length integer at position `pos` of `buf`: the value and
/// the position behind it.
pub(crate) fn take_varint(buf: &[u8], pos: usize) -> (r: Option<(u64, usize)>)
    requires
        pos <= buf.len(),
    ensures
        r == advance(parse_varint(buf@.skip(pos as int)), pos),
        r matches Some((_, next)) ==> pos < next <= buf.len(),
{
    let rest = slice_subrange(buf, pos, buf.len());
    proof {
        assert(rest@ =~= buf@.skip(pos as int));
    }
    match bincode_decode_u64(rest) {
        Some((v, used)) => Some((v, pos + used)),
        None => None,
    }
}

/// Reads a 16-bit integer at position `pos` of `buf`.
pub(crate) fn take_u16(buf: &[u8], pos: usize) -> (r: Option<(u16, usize)>)
    requires
        pos <= buf.len(),
    ensures
        r == advance(parse_u16(buf@.skip(pos as int)), pos),
        r matches Some((_, next)) ==> pos < next <= buf.len(),
{
    proof {
        lemma_parse_varint_bound(buf@.skip(pos as int));
    }
    match take_varint(buf, pos) {
        Some((v, next)) => if next - pos <= 3 {
            Some((v as u16, next))
        } else {
            None
        },
        None => None,
    }
}

/// Reads a 32-bit integer at position `pos` of `buf`.
pub(crate) fn take_u32(buf: &[u8], pos: usize) -> (r: Option<(u32, usize)>)
    requires
        pos <= buf.len(),
    ensures
        r == advance(parse_u32(buf@.skip(pos as int)), pos),
        r matches Some((_, next)) ==> pos < next <= buf.len(),
{
    proof {
        lemma_parse_varint_bound(buf@.skip(pos as int));
    }
    match take_varint(buf, pos) {
        Some((v, next)) => if next - pos <= 5 {
            Some((v as u32, next))
        } else {
            None
        },
        None => None,
    }
}

/// Reads a signed integer in zigzag form at position `pos` of `buf`.
pub(crate) fn take_i32(buf: &[u8], pos: usize) -> (r: Option<(i32, usize)>)
    requires
        pos <= buf.len(),
    ensures
        r == advance(parse_i32(buf@.skip(pos as int)), pos),
        r matches Some((_, next)) ==> pos < next <= buf.len(),
{
    match take_u32(buf, pos) {
        Some((z, next)) => {
            let half: i64 = (z / 2) as i64;
            let v: i64 = if z % 2 == 0 {
                half
            } else {
                -half - 1
            };
            Some((v as i32, next))
        },
        None => None,
    }
}

/// Reads one raw byte at position `pos` of `buf`.
pub(crate) fn take_u8(buf: &[u8], pos: usize) -> (r: Option<(u8, usize)>)
    requires
        pos <= buf.len(),
    ensures
        r == advance(parse_u8(buf@.skip(pos as int)), pos),
        r matches Some((_, next)) ==> pos < next <= buf.len(),
{
    if pos < buf.len() {
        Some((buf[pos], pos + 1))
    } else {
        None
    }
}

/// Reads a length-prefixed byte string at position `pos` of `buf`, without
/// copying it.
pub(crate) fn take_blob<'a>(buf: &'a [u8], pos: usize) -> (r: Option<(&'a [u8], usize)>)
    requires
        pos <= buf.len(),
    ensures
        (match parse_blob(buf@.skip(pos as int)) {
            Some((data, used)) => r matches Some((d, next)) && d@ == data && next == pos + used,
            None => r is None,
        }),
        r matches Some((_, next)) ==> pos < next <= buf.len(),
{
    match take_varint(buf, pos) {
        Some((len, start)) => {
            if len <= (buf.len() - start) as u64 {
                let end: usize = start + len as usize;
                let data = slice_subrange(buf, start, end);
                proof {
                    let s = buf@.skip(pos as int);
                    assert(data@ =~= s.subrange(start - pos, end - pos));
                }
                Some((data, end))
            } else {
                None
            }
        },
        None => None,
    }
}

/// Reads a length-prefixed text at position `pos` of `buf`, without copying
/// it.
pub(crate) fn take_text<'a>(buf: &'a [u8], pos: usize) -> (r: Option<(&'a str, usize)>)
    requires
        pos <= buf.len(),
    ensures
        (match parse_text(buf@.skip(pos as int)) {
            Some((chars, used)) => r matches Some((s, next)) && s@ == chars && next == pos + used,
            None => r is None,
        }),
        r matches Some((_, next)) ==> pos < next <= buf.len(),
{
    match take_blob(buf, pos) {
        Some((data, next)) => match str_from_utf8(data) {
            Some(s) => Some((s, next)),
            None => None,
        },
        None => None,
    }
}

/// What reading a length-prefixed byte string gives on its own encoding,
/// whatever follows it.
pub proof fn lemma_blob_roundtrip(data: Seq<u8>, rest: Seq<u8>)
    requires
        blob(data).len() <= usize::MAX,
    ensures
        parse_blob(blob(data) + rest) == Some((data, blob(data).len() as usize)),
        blob(data).len() == varint(data.len() as u64).len() + data.len(),
        (blob(data) + rest).skip(blob(data).len() as int) == rest,
{
    let head = varint(data.len() as u64);
    lemma_varint_roundtrip(data.len() as u64, data + rest);
    assert(blob(data) + rest =~= head + (data + rest));
    assert((blob(data) + rest).subrange(head.len() as int, (head.len() + data.len()) as int) =~= data);
    assert((blob(data) + rest).skip(blob(data).len() as int) =~= rest);
}

/// What reading a length-prefixed text gives on its own encoding, whatever
/// follows it.
pub proof fn lemma_text_roundtrip(chars: Seq<char>, rest: Seq<u8>)
    requires
        text(chars).len() <= usize::MAX,
    ensures
        parse_text(text(chars) + rest) == Some((chars, text(chars).len() as usize)),
        (text(chars) + rest).skip(text(chars).len() as int) == rest,
{
    broadcast use encode_utf8_valid_utf8, encode_utf8_decode_utf8;

    lemma_blob_roundtrip(encode_utf8(chars), rest);
}

/// What reading two variable-length integers in a row gives on their own
/// encodings, whatever follows them.
pub proof fn lemma_varint_pair_roundtrip(a: u64, b: u64, rest: Seq<u8>)
    ensures
        parse_varint(varint(a) + varint(b) + rest) == Some((a, varint(a).len() as usize)),
        (varint(a) + varint(b) + rest).skip(varint(a).len() as int) == varint(b) + rest,
        parse_varint(varint(b) + rest) == Some((b, varint(b).len() as usize)),
        (varint(b) + rest).skip(varint(b).len() as int) == rest,
{
    lemma_varint_roundtrip(a, varint(b) + rest);
    lemma_varint_roundtrip(b, rest);
    assert(varint(a) + varint(b) + rest =~= varint(a) + (varint(b) + rest));
    assert((varint(a) + varint(b) + rest).skip(varint(a).len() as int) =~= varint(b) + rest);
    assert((varint(b) + rest).skip(varint(b).len() as int) =~= rest);
}

/// The zigzag order is a bijection between the signed 32-bit integers and
/// the unsigned ones.
pub proof fn lemma_zigzag_roundtrip(v: i32)
    ensures
        zigzag(v) <= 0xffff_ffff,
        unzigzag(zigzag(v)) == v,
{
}

/// What reading a signed integer gives on its own encoding, whatever
/// follows it.
pub proof fn lemma_i32_roundtrip(v: i32, rest: Seq<u8>)
    ensures
        parse_i32(varint(zigzag(v)) + rest) == Some((v, varint(zigzag(v)).len() as usize)),
        (varint(zigzag(v)) + rest).skip(varint(zigzag(v)).len() as int) == rest,
{
    lemma_zigzag_roundtrip(v);
    lemma_varint_roundtrip(zigzag(v), rest);
    assert((varint(zigzag(v)) + rest).skip(varint(zigzag(v)).len() as int) =~= rest);
}

} // verus!
