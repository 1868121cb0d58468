//! Responses: what a host answers, and how an answer is spelled on the wire.
//!
//! A response is one byte, 0 for success and 1 for failure, followed by the
//! payload of the success or by the numeric code of the failure.

use crate::error::ErrorKind;
use crate::request::NodeAttr;
use crate::wire::{
    lemma_i32_roundtrip, lemma_text_roundtrip, lemma_varint_roundtrip, parse_i32, parse_text,
    parse_u16, parse_u8, parse_varint, put_i32, put_text, put_u8, put_varint, take_i32, take_text,
    take_u16, take_u8, take_varint, text, varint, zigzag,
};
use vstd::prelude::*;
use vstd::string::*;

verus! {

/// One child of a directory as a listing names it.
#[derive(Debug, Clone, PartialEq, Eq)]
pub struct DirEntry {
    /// Wire value of the kind of the child.
    pub ty: u8,
    pub name: String,
}

/// What a successful response carries.
#[derive(Debug, Clone, PartialEq, Eq)]
pub enum Payload {
    /// Nothing: the operation was done.
    Unit,
    /// A number of bytes or of entries.
    Count(u64),
    /// A path.
    Text(String),
    /// The attributes of a file.
    Attr(NodeAttr),
}

/// The kind of payload that a reader expects.
#[derive(Debug, Clone, Copy, PartialEq, Eq, Structural)]
pub enum PayloadKind {
    Unit,
    Count,
    Text,
    Attr,
}

/// A response: a payload, or the numeric code of a failure.
pub type Response = Result<Payload, i32>;

/// A payload as a mathematical value.
pub enum PayloadView {
    Unit,
    Count(u64),
    Text(Seq<char>),
    Attr(NodeAttr),
}

impl View for Payload {
    type V = PayloadView;

    open spec fn view(&self) -> PayloadView {
        match *self {
            Payload::Unit => PayloadView::Unit,
            Payload::Count(n) => PayloadView::Count(n),
            Payload::Text(s) => PayloadView::Text(s@),
            Payload::Attr(a) => PayloadView::Attr(a),
        }
    }
}

/// The mathematical value of a response.
pub open spec fn response_view(r: Response) -> Result<PayloadView, i32> {
    match r {
        Ok(p) => Ok(p@),
        Err(code) => Err(code),
    }
}

/// The kind of a payload.
pub open spec fn kind_of(p: PayloadView) -> PayloadKind {
    match p {
        PayloadView::Unit => PayloadKind::Unit,
        PayloadView::Count(_) => PayloadKind::Count,
        PayloadView::Text(_) => PayloadKind::Text,
        PayloadView::Attr(_) => PayloadKind::Attr,
    }
}

/// The bytes of file attributes.
pub open spec fn encode_attr(a: NodeAttr) -> Seq<u8> {
    varint(a.mode as u64) + seq![a.ty] + varint(a.size) + varint(a.blocks)
}

/// The bytes of a payload.
pub open spec fn encode_payload(p: PayloadView) -> Seq<u8> {
    match p {
        PayloadView::Unit => Seq::empty(),
        PayloadView::Count(n) => varint(n),
        PayloadView::Text(s) => text(s),
        PayloadView::Attr(a) => encode_attr(a),
    }
}

/// The bytes of a response.
pub open spec fn encode_response(r: Result<PayloadView, i32>) -> Seq<u8> {
    match r {
        Ok(p) => seq![0u8] + encode_payload(p),
        Err(code) => seq![1u8] + varint(zigzag(code)),
    }
}

/// The bytes of the response that reports the failure `kind`.
pub open spec fn encode_failure(kind: ErrorKind) -> Seq<u8> {
    encode_response(Err(kind.wire_code()))
}

/// The bytes of one entry of a directory listing.
pub open spec fn encode_dir_entry(ty: u8, name: Seq<char>) -> Seq<u8> {
    seq![ty] + text(name)
}

/// Reads file attributes from the front of `s`.
pub open spec fn parse_attr(s: Seq<u8>) -> Option<(NodeAttr, usize)> {
    match parse_u16(s) {
        Some((mode, n1)) => match parse_u8(s.skip(n1 as int)) {
            Some((ty, n2)) => match parse_varint(s.skip(n1 + n2)) {
                Some((size, n3)) => match parse_varint(s.skip(n1 + n2 + n3)) {
                    Some((blocks, n4)) => Some(
                        (NodeAttr { mode, ty, size, blocks }, (n1 + n2 + n3 + n4) as usize),
                    ),
                    None => None,
                },
                None => None,
            },
            None => None,
        },
        None => None,
    }
}

/// Reads a payload of kind `kind` from the front of `s`.
pub open spec fn parse_payload(kind: PayloadKind, s: Seq<u8>) -> Option<(PayloadView, usize)> {
    match kind {
        PayloadKind::Unit => Some((PayloadView::Unit, 0usize)),
        PayloadKind::Count => match parse_varint(s) {
            Some((n, used)) => Some((PayloadView::Count(n), used)),
            None => None,
        },
        PayloadKind::Text => match parse_text(s) {
            Some((t, used)) => Some((PayloadView::Text(t), used)),
            None => None,
        },
        PayloadKind::Attr => match parse_attr(s) {
            Some((a, used)) => Some((PayloadView::Attr(a), used)),
            None => None,
        },
    }
}

/// Reads a response whose payload is of kind `kind` from the front of `s`:
/// the response and the number of bytes it took.
pub open spec fn parse_response(kind: PayloadKind, s: Seq<u8>) -> Option<
    (Result<PayloadView, i32>, usize),
> {
    if s.len() == 0 {
        None
    } else if s[0] == 0 {
        match parse_payload(kind, s.skip(1)) {
            Some((p, used)) => Some((Ok(p), (1 + used) as usize)),
            None => None,
        }
    } else if s[0] == 1 {
        match parse_i32(s.skip(1)) {
            Some((code, used)) => Some((Err(code), (1 + used) as usize)),
            None => None,
        }
    } else {
        None
    }
}

/// Reads one entry of a directory listing from the front of `s`.
pub open spec fn parse_dir_entry(s: Seq<u8>) -> Option<((u8, Seq<char>), usize)> {
    match parse_u8(s) {
        Some((ty, n1)) => match parse_text(s.skip(n1 as int)) {
            Some((name, n2)) => Some(((ty, name), (n1 + n2) as usize)),
            None => None,
        },
        None => None,
    }
}

/// Appends the bytes of `attr` to `out`.
fn put_attr(out: &mut Vec<u8>, attr: &NodeAttr)
    ensures
        final(out)@ == old(out)@ + encode_attr(*attr),
{
    put_varint(out, attr.mode as u64);
    put_u8(out, attr.ty);
    put_varint(out, attr.size);
    put_varint(out, attr.blocks);
    proof {
        assert(out@ =~= old(out)@ + encode_attr(*attr));
    }
}

/// Writes the success response that carries `con` to the outgoing stream.
pub fn send_ok_to_conn(conn: &mut Vec<u8>, con: &Payload)
    ensures
        final(conn)@ == old(conn)@ + encode_response(Ok(con@)),
{
    put_u8(conn, 0);
    match con {
        Payload::Unit => {},
        Payload::Count(n) => put_varint(conn, *n),
        Payload::Text(s) => put_text(conn, s.as_str()),
        Payload::Attr(a) => put_attr(conn, a),
    }
    proof {
        assert(conn@ =~= old(conn)@ + encode_response(Ok(con@)));
    }
}

/// Writes the failure response for `e` to the outgoing stream.
pub fn send_err_to_conn(conn: &mut Vec<u8>, e: ErrorKind)
    ensures
        final(conn)@ == old(conn)@ + encode_failure(e),
{
    put_u8(conn, 1);
    put_i32(conn, e.code());
    proof {
        assert(conn@ =~= old(conn)@ + encode_failure(e));
    }
}

/// Writes one entry of a directory listing to the outgoing stream.
pub fn send_dir_entry_to_conn(conn: &mut Vec<u8>, ty: u8, name: &str)
    ensures
        final(conn)@ == old(conn)@ + encode_dir_entry(ty, name@),
{
    put_u8(conn, ty);
    put_text(conn, name);
    proof {
        assert(conn@ =~= old(conn)@ + encode_dir_entry(ty, name@));
    }
}

/// Reads file attributes at position `pos` of `buf`.
#[verifier::rlimit(50)]
fn take_attr(buf: &[u8], pos: usize) -> (r: Option<(NodeAttr, usize)>)
    requires
        pos <= buf.len(),
    ensures
        (match parse_attr(buf@.skip(pos as int)) {
            Some((a, used)) => r == Some((a, (pos + used) as usize)),
            None => r is None,
        }),
        r matches Some((_, next)) ==> pos < next <= buf.len(),
{
    let ghost s = buf@.skip(pos as int);
    let (mode, after_mode) = match take_u16(buf, pos) {
        Some(x) => x,
        None => {
            return None;
        },
    };
    proof {
        assert(s.skip(after_mode - pos) =~= buf@.skip(after_mode as int));
    }
    let (ty, after_ty) = match take_u8(buf, after_mode) {
        Some(x) => x,
        None => {
            return None;
        },
    };
    proof {
        assert(s.skip(after_ty - pos) =~= buf@.skip(after_ty as int));
    }
    let (size, after_size) = match take_varint(buf, after_ty) {
        Some(x) => x,
        None => {
            return None;
        },
    };
    proof {
        assert(s.skip(after_size - pos) =~= buf@.skip(after_size as int));
    }
    let (blocks, after_blocks) = match take_varint(buf, after_size) {
        Some(x) => x,
        None => {
            return None;
        },
    };
    Some((NodeAttr { mode, ty, size, blocks }, after_blocks))
}

/// Reads a response whose payload is of kind `kind` at the front of `buf`:
/// the response and the number of bytes it took.
pub fn take_response(kind: PayloadKind, buf: &[u8]) -> (r: Option<(Response, usize)>)
    ensures
        (match parse_response(kind, buf@) {
            Some((v, used)) => r matches Some((resp, next)) && response_view(resp) == v && next
                == used,
            None => r is None,
        }),
        r matches Some((_, next)) ==> 0 < next <= buf.len(),
{
    if buf.len() == 0 {
        return None;
    }
    proof {
        assert(buf@.skip(1).skip(0) =~= buf@.skip(1));
    }
    if buf[0] == 0 {
        match kind {
            PayloadKind::Unit => Some((Ok(Payload::Unit), 1)),
            PayloadKind::Count => match take_varint(buf, 1) {
                Some((n, next)) => Some((Ok(Payload::Count(n)), next)),
                None => None,
            },
            PayloadKind::Text => match take_text(buf, 1) {
                Some((t, next)) => Some((Ok(Payload::Text(String::from_str(t))), next)),
                None => None,
            },
            PayloadKind::Attr => match take_attr(buf, 1) {
                Some((a, next)) => Some((Ok(Payload::Attr(a)), next)),
                None => None,
            },
        }
    } else if buf[0] == 1 {
        match take_i32(buf, 1) {
            Some((code, next)) => Some((Err(code), next)),
            None => None,
        }
    } else {
        None
    }
}

/// Decodes the response that the first `bytes_read` bytes of `buff` hold,
/// its payload being of kind `kind`. `None` where they hold none, or where
/// `bytes_read` lies beyond the buffer.
pub fn deserialize_response_from_buff(buff: &[u8], bytes_read: usize, kind: PayloadKind) -> (r:
    Option<Response>)
    ensures
        (match received_response(kind, buff@, bytes_read) {
            Some(v) => r matches Some(resp) && response_view(resp) == v,
            None => r is None,
        }),
{
    if bytes_read > buff.len() {
        return None;
    }
    let received = vstd::slice::slice_subrange(buff, 0, bytes_read);
    proof {
        assert(received@ =~= buff@.take(bytes_read as int));
    }
    match take_response(kind, received) {
        Some((resp, _)) => Some(resp),
        None => None,
    }
}

/// The response that the first `bytes_read` bytes of `buff` hold, if they
/// hold one whose payload is of kind `kind`.
pub open spec fn received_response(kind: PayloadKind, buff: Seq<u8>, bytes_read: usize) -> Option<
    Result<PayloadView, i32>,
> {
    if bytes_read > buff.len() {
        None
    } else {
        match parse_response(kind, buff.take(bytes_read as int)) {
            Some((v, _)) => Some(v),
            None => None,
        }
    }
}

/// What a received response means to the caller: the payload, or the kind
/// of failure. A code that no kind uses is reported as `InvalidData`.
pub open spec fn code_mapped(r: Result<PayloadView, i32>) -> Result<PayloadView, ErrorKind> {
    match r {
        Ok(p) => Ok(p),
        Err(code) => match ErrorKind::of_wire_code(code) {
            Some(kind) => Err(kind),
            None => Err(ErrorKind::InvalidData),
        },
    }
}

/// Turns the numeric code of a failed response into its kind.
pub fn map_code(resp: Response) -> (r: Result<Payload, ErrorKind>)
    ensures
        (match code_mapped(response_view(resp)) {
            Ok(p) => r matches Ok(q) && q@ == p,
            Err(kind) => r matches Err(k) && k == kind,
        }),
{
    match resp {
        Ok(p) => Ok(p),
        Err(code) => match ErrorKind::from_code(code) {
            Some(kind) => Err(kind),
            None => Err(ErrorKind::InvalidData),
        },
    }
}

/// File attributes read back from their own bytes are the attributes.
#[verifier::rlimit(50)]
pub proof fn lemma_attr_roundtrip(a: NodeAttr, rest: Seq<u8>)
    ensures
        parse_attr(encode_attr(a) + rest) == Some((a, encode_attr(a).len() as usize)),
{
    let m = varint(a.mode as u64);
    let sz = varint(a.size);
    let bl = varint(a.blocks);
    let x3 = bl + rest;
    let x2 = sz + x3;
    let x1 = seq![a.ty] + x2;
    let s = encode_attr(a) + rest;
    assert(s =~= m + x1);
    lemma_varint_roundtrip(a.mode as u64, x1);
    lemma_varint_roundtrip(a.size, x3);
    lemma_varint_roundtrip(a.blocks, rest);
    let n1 = m.len() as int;
    let n3 = sz.len() as int;
    assert(parse_u16(s) == Some((a.mode, n1 as usize)));
    assert(s.skip(n1) =~= x1);
    assert(parse_u8(x1) == Some((a.ty, 1usize)));
    assert(s.skip(n1 + 1) =~= x2);
    assert(parse_varint(x2) == Some((a.size, n3 as usize)));
    assert(s.skip(n1 + 1 + n3) =~= x3);
    assert(parse_varint(x3) == Some((a.blocks, bl.len() as usize)));
    assert(encode_attr(a).len() == n1 + 1 + n3 + bl.len());
}

/// Decoding undoes encoding: a response read back from its own bytes, by a
/// reader that expects the kind of payload it carries, is the response
/// itself, whatever follows those bytes.
pub proof fn lemma_response_roundtrip(r: Result<PayloadView, i32>, kind: PayloadKind, rest: Seq<u8>)
    requires
        encode_response(r).len() <= usize::MAX,
        r matches Ok(p) ==> kind_of(p) == kind,
    ensures
        parse_response(kind, encode_response(r) + rest) == Some(
            (r, encode_response(r).len() as usize),
        ),
{
    let s = encode_response(r) + rest;
    match r {
        Ok(p) => {
            assert(s.skip(1) =~= encode_payload(p) + rest);
            match p {
                PayloadView::Unit => {},
                PayloadView::Count(n) => {
                    lemma_varint_roundtrip(n, rest);
                },
                PayloadView::Text(t) => {
                    lemma_text_roundtrip(t, rest);
                },
                PayloadView::Attr(a) => {
                    lemma_attr_roundtrip(a, rest);
                },
            }
        },
        Err(code) => {
            assert(s.skip(1) =~= varint(zigzag(code)) + rest);
            lemma_i32_roundtrip(code, rest);
            lemma_varint_roundtrip(zigzag(code), Seq::empty());
        },
    }
}

/// An entry of a directory listing read back from its own bytes is the
/// entry.
pub proof fn lemma_dir_entry_roundtrip(ty: u8, name: Seq<char>, rest: Seq<u8>)
    requires
        encode_dir_entry(ty, name).len() <= usize::MAX,
    ensures
        parse_dir_entry(encode_dir_entry(ty, name) + rest) == Some(
            ((ty, name), encode_dir_entry(ty, name).len() as usize),
        ),
{
    let s = encode_dir_entry(ty, name) + rest;
    assert(s.skip(1) =~= text(name) + rest);
    lemma_text_roundtrip(name, rest);
}

} // verus!
