//! Server names of a TLS ClientHello, read from the first bytes of a stream.
//!
//! The layout is that of RFC 5246 (record and handshake framing) and
//! RFC 6066 (the `server_name` extension). Every length field must stay
//! inside the field that encloses it; anything else is malformed and gives
//! no names.

use vstd::prelude::*;
use vstd::slice::*;
use vstd::utf8::*;
use crate::text::{texts, text_from_utf8};

verus! {

/// Content type of a handshake record.
pub const RECORD_HANDSHAKE: u8 = 22;

/// Handshake type of a ClientHello.
pub const HANDSHAKE_CLIENT_HELLO: u8 = 1;

/// Number of bytes a listener peeks for the ClientHello.
pub const PEEK_LEN: usize = 1024;

/// The unsigned 16-bit big-endian number at `b[i..i + 2]`.
pub open spec fn be16(b: Seq<u8>, i: int) -> int {
    b[i] as int * 256 + b[i + 1] as int
}

/// The unsigned 24-bit big-endian number at `b[i..i + 3]`.
pub open spec fn be24(b: Seq<u8>, i: int) -> int {
    b[i] as int * 65536 + b[i + 1] as int * 256 + b[i + 2] as int
}

/// The names of the server-name list that fills `b[at..end]` exactly:
/// entries of one type byte, a 16-bit length and the name. The type byte
/// is not looked at: a name of any type is taken.
pub open spec fn name_list(b: Seq<u8>, at: int, end: int) -> Option<Seq<Seq<u8>>>
    decreases end - at,
{
    if at >= end {
        Some(Seq::empty())
    } else if at + 3 > end || at + 3 + be16(b, at + 1) > end {
        None
    } else {
        let stop = at + 3 + be16(b, at + 1);
        match name_list(b, stop, end) {
            Some(rest) => Some(seq![b.subrange(at + 3, stop)] + rest),
            None => None,
        }
    }
}

/// The names of one `server_name` extension whose data is `b[at..end]`:
/// a 16-bit length, then a list of that length.
pub open spec fn sni_extension(b: Seq<u8>, at: int, end: int) -> Option<Seq<Seq<u8>>> {
    if at + 2 > end || at + 2 + be16(b, at) > end {
        None
    } else {
        name_list(b, at + 2, at + 2 + be16(b, at))
    }
}

/// The names of all `server_name` extensions (type 0) among the extensions
/// that fill `b[at..end]` exactly, in the order of the extensions.
pub open spec fn extension_names(b: Seq<u8>, at: int, end: int) -> Option<Seq<Seq<u8>>>
    decreases end - at,
{
    if at >= end {
        Some(Seq::empty())
    } else if at + 4 > end || at + 4 + be16(b, at + 2) > end {
        None
    } else {
        let stop = at + 4 + be16(b, at + 2);
        let here = if be16(b, at) == 0 {
            sni_extension(b, at + 4, stop)
        } else {
            Some(Seq::empty())
        };
        match (here, extension_names(b, stop, end)) {
            (Some(h), Some(rest)) => Some(h + rest),
            _ => None,
        }
    }
}

/// The names of the ClientHello body `b[at..end]`: past the version and
/// random (34 bytes), the session id, the cipher suites and the compression
/// methods stands the extensions block. A hello without one has no names.
pub open spec fn hello_names(b: Seq<u8>, at: int, end: int) -> Option<Seq<Seq<u8>>> {
    if at + 35 > end {
        None
    } else {
        let suites = at + 35 + b[at + 34] as int;
        if suites + 2 > end {
            None
        } else {
            let methods = suites + 2 + be16(b, suites);
            if methods + 1 > end {
                None
            } else {
                let block = methods + 1 + b[methods] as int;
                if block == end {
                    Some(Seq::empty())
                } else if block + 2 > end || block + 2 + be16(b, block) > end {
                    None
                } else {
                    extension_names(b, block + 2, block + 2 + be16(b, block))
                }
            }
        }
    }
}

/// The raw server names of the stream that starts with `b`, or `None` where
/// `b` does not start with one complete handshake record whose first message
/// is a well-formed ClientHello.
pub open spec fn record_names(b: Seq<u8>) -> Option<Seq<Seq<u8>>> {
    if b.len() < 9 || b[0] != RECORD_HANDSHAKE || 5 + be16(b, 3) > b.len() {
        None
    } else if b[5] != HANDSHAKE_CLIENT_HELLO || 4 + be24(b, 6) > be16(b, 3) {
        None
    } else {
        hello_names(b, 9, 9 + be24(b, 6))
    }
}

/// The names among `raw` that are valid UTF-8, decoded, in order.
pub open spec fn decoded_names(raw: Seq<Seq<u8>>) -> Seq<Seq<char>>
    decreases raw.len(),
{
    if raw.len() == 0 {
        Seq::empty()
    } else if valid_utf8(raw.last()) {
        decoded_names(raw.drop_last()).push(decode_utf8(raw.last()))
    } else {
        decoded_names(raw.drop_last())
    }
}

/// What the extractor returns for a stream that starts with `b`.
pub open spec fn sni_names(b: Seq<u8>) -> Seq<Seq<char>> {
    match record_names(b) {
        Some(raw) => decoded_names(raw),
        None => Seq::empty(),
    }
}

/// The views of a sequence of byte vectors.
pub open spec fn raw_views(v: Seq<Vec<u8>>) -> Seq<Seq<u8>> {
    v.map_values(|x: Vec<u8>| x@)
}

fn read16(buf: &[u8], i: usize) -> (n: usize)
    requires
        i + 2 <= buf@.len(),
    ensures
        n == be16(buf@, i as int),
        n <= 65535,
{
    let hi: usize = buf[i] as usize;
    let lo: usize = buf[i + 1] as usize;
    hi * 256 + lo
}

fn read24(buf: &[u8], i: usize) -> (n: usize)
    requires
        i + 3 <= buf@.len(),
    ensures
        n == be24(buf@, i as int),
        n <= 16777215,
{
    let hi: usize = buf[i] as usize;
    let mid: usize = buf[i + 1] as usize;
    let lo: usize = buf[i + 2] as usize;
    hi * 65536 + mid * 256 + lo
}

/// Appends the names of the list in `buf[at..end]` to `names`; `false`
/// where the list is malformed.
fn read_name_list(buf: &[u8], at: usize, end: usize, names: &mut Vec<Vec<u8>>) -> (ok: bool)
    requires
        at <= end <= buf@.len(),
    ensures
        ok == name_list(buf@, at as int, end as int).is_some(),
        ok ==> raw_views(final(names)@) == raw_views(old(names)@) + name_list(
            buf@,
            at as int,
            end as int,
        ).unwrap(),
{
    let mut pos: usize = at;
    let ghost whole = name_list(buf@, at as int, end as int);
    let ghost before = raw_views(names@);
    proof {
        assert(before + Seq::<Seq<u8>>::empty() =~= before);
    }
    while pos < end
        invariant
            at <= pos <= end <= buf@.len(),
            whole == name_list(buf@, at as int, end as int),
            whole.is_some() == name_list(buf@, pos as int, end as int).is_some(),
            whole.is_some() ==> before + whole.unwrap() == raw_views(names@) + name_list(
                buf@,
                pos as int,
                end as int,
            ).unwrap(),
        decreases end - pos,
    {
        if end - pos < 3 {
            return false;
        }
        let n: usize = read16(buf, pos + 1);
        if end - pos - 3 < n {
            return false;
        }
        let stop: usize = pos + 3 + n;
        let name: Vec<u8> = slice_to_vec(slice_subrange(buf, pos + 3, stop));
        let ghost prev = raw_views(names@);
        names.push(name);
        proof {
            let rest = name_list(buf@, stop as int, end as int);
            assert(raw_views(names@) =~= prev.push(buf@.subrange(pos + 3, stop as int)));
            if rest.is_some() {
                assert(prev + (seq![buf@.subrange(pos + 3, stop as int)] + rest.unwrap())
                    =~= prev.push(buf@.subrange(pos + 3, stop as int)) + rest.unwrap());
            }
        }
        pos = stop;
    }
    proof {
        assert(raw_views(names@) + Seq::<Seq<u8>>::empty() =~= raw_views(names@));
    }
    true
}

/// Appends the names of the extensions in `buf[at..end]` to `names`;
/// `false` where an extension is malformed.
fn read_extensions(buf: &[u8], at: usize, end: usize, names: &mut Vec<Vec<u8>>) -> (ok: bool)
    requires
        at <= end <= buf@.len(),
    ensures
        ok == extension_names(buf@, at as int, end as int).is_some(),
        ok ==> raw_views(final(names)@) == raw_views(old(names)@) + extension_names(
            buf@,
            at as int,
            end as int,
        ).unwrap(),
{
    let mut pos: usize = at;
    let ghost whole = extension_names(buf@, at as int, end as int);
    let ghost before = raw_views(names@);
    proof {
        assert(before + Seq::<Seq<u8>>::empty() =~= before);
    }
    while pos < end
        invariant
            at <= pos <= end <= buf@.len(),
            whole == extension_names(buf@, at as int, end as int),
            whole.is_some() == extension_names(buf@, pos as int, end as int).is_some(),
            whole.is_some() ==> before + whole.unwrap() == raw_views(names@) + extension_names(
                buf@,
                pos as int,
                end as int,
            ).unwrap(),
        decreases end - pos,
    {
        if end - pos < 4 {
            return false;
        }
        let kind: usize = read16(buf, pos);
        let n: usize = read16(buf, pos + 2);
        if end - pos - 4 < n {
            return false;
        }
        let stop: usize = pos + 4 + n;
        let ghost prev = raw_views(names@);
        let ghost rest = extension_names(buf@, stop as int, end as int);
        if kind == 0 {
            if n < 2 {
                return false;
            }
            let m: usize = read16(buf, pos + 4);
            if n - 2 < m {
                return false;
            }
            let ok = read_name_list(buf, pos + 6, pos + 6 + m, names);
            if !ok {
                return false;
            }
            proof {
                let here = sni_extension(buf@, pos + 4, stop as int).unwrap();
                if rest.is_some() {
                    assert(prev + (here + rest.unwrap()) =~= (prev + here) + rest.unwrap());
                }
            }
        } else {
            proof {
                if rest.is_some() {
                    assert(prev + (Seq::<Seq<u8>>::empty() + rest.unwrap()) =~= prev
                        + rest.unwrap());
                }
            }
        }
        pos = stop;
    }
    proof {
        assert(raw_views(names@) + Seq::<Seq<u8>>::empty() =~= raw_views(names@));
    }
    true
}

/// The raw server names of a ClientHello at the start of `buf`, in the order
/// in which they stand; `None` where `buf` holds no complete, well-formed
/// ClientHello record.
pub fn server_name_bytes(buf: &[u8]) -> (names: Option<Vec<Vec<u8>>>)
    ensures
        names.is_some() == record_names(buf@).is_some(),
        names matches Some(v) ==> raw_views(v@) == record_names(buf@).unwrap(),
{
    let len: usize = buf.len();
    if len < 9 || buf[0] != RECORD_HANDSHAKE {
        return None;
    }
    let record: usize = read16(buf, 3);
    if len - 5 < record || buf[5] != HANDSHAKE_CLIENT_HELLO {
        return None;
    }
    let body: usize = read24(buf, 6);
    if record < 4 || record - 4 < body {
        return None;
    }
    let end: usize = 9 + body;
    if body < 35 {
        return None;
    }
    let session: usize = buf[43] as usize;
    let suites: usize = 44 + session;
    if end < suites + 2 {
        return None;
    }
    let suites_len: usize = read16(buf, suites);
    let methods: usize = suites + 2 + suites_len;
    if end < methods + 1 {
        return None;
    }
    let methods_len: usize = buf[methods] as usize;
    let block: usize = methods + 1 + methods_len;
    let mut names: Vec<Vec<u8>> = Vec::new();
    proof {
        assert(raw_views(names@) =~= Seq::<Seq<u8>>::empty());
    }
    if block == end {
        return Some(names);
    }
    if end < block + 2 {
        return None;
    }
    let block_len: usize = read16(buf, block);
    if end - block - 2 < block_len {
        return None;
    }
    let ok = read_extensions(buf, block + 2, block + 2 + block_len, &mut names);
    if ok {
        proof {
            let got = extension_names(buf@, block + 2, block + 2 + block_len).unwrap();
            assert(Seq::<Seq<u8>>::empty() + got =~= got);
        }
        Some(names)
    } else {
        None
    }
}

/// Keeps the names that are valid UTF-8, as strings, in order.
pub fn decode_names(raw: &Vec<Vec<u8>>) -> (names: Vec<String>)
    ensures
        texts(names@) == decoded_names(raw_views(raw@)),
{
    let mut names: Vec<String> = Vec::new();
    let ghost all = raw_views(raw@);
    let mut i: usize = 0;
    proof {
        assert(texts(names@) =~= Seq::<Seq<char>>::empty());
        assert(all.take(0).len() == 0);
    }
    while i < raw.len()
        invariant
            i <= raw@.len(),
            all == raw_views(raw@),
            texts(names@) == decoded_names(all.take(i as int)),
        decreases raw@.len() - i,
    {
        let ghost prev = texts(names@);
        proof {
            assert(all.take(i + 1).drop_last() =~= all.take(i as int));
            assert(all.take(i + 1).last() == raw@[i as int]@);
        }
        match text_from_utf8(raw[i].as_slice()) {
            Some(s) => {
                names.push(s);
                proof {
                    assert(texts(names@) =~= prev.push(s@));
                }
            },
            None => {},
        }
        i = i + 1;
    }
    proof {
        assert(all.take(raw@.len() as int) =~= all);
    }
    names
}

/// The server names that a TLS client announces in the bytes `buf`, which
/// were peeked from the start of its stream. Returns no names where `buf` is
/// too short, is no handshake record, holds no ClientHello, or where the
/// hello or one of its extensions is malformed or absent. Names that are not
/// UTF-8 are left out.
pub fn get_sni(buf: &[u8]) -> (names: Vec<String>)
    ensures
        texts(names@) == sni_names(buf@),
{
    match server_name_bytes(buf) {
        Some(raw) => decode_names(&raw),
        None => {
            let names: Vec<String> = Vec::new();
            proof {
                assert(texts(names@) =~= Seq::<Seq<char>>::empty());
            }
            names
        },
    }
}

/// The extractor gives an answer for every sequence of bytes, and no name
/// for bytes that are too short, that do not start with a handshake
/// record, whose record is cut off, whose first message is no ClientHello
/// or overruns the record, or whose hello is malformed.
pub proof fn lemma_malformed_gives_no_names(b: Seq<u8>)
    ensures
        b.len() < 9 ==> sni_names(b).len() == 0,
        b.len() >= 9 && b[0] != RECORD_HANDSHAKE ==> sni_names(b).len() == 0,
        b.len() >= 9 && 5 + be16(b, 3) > b.len() ==> sni_names(b).len() == 0,
        b.len() >= 9 && b[5] != HANDSHAKE_CLIENT_HELLO ==> sni_names(b).len() == 0,
        b.len() >= 9 && 4 + be24(b, 6) > be16(b, 3) ==> sni_names(b).len() == 0,
        record_names(b).is_none() ==> sni_names(b).len() == 0,
        record_names(b) matches Some(raw) ==> sni_names(b).len() <= raw.len(),
{
    match record_names(b) {
        Some(raw) => {
            lemma_decoded_no_longer(raw);
        },
        None => {},
    }
}

/// Decoding leaves names out; it adds none.
pub proof fn lemma_decoded_no_longer(raw: Seq<Seq<u8>>)
    ensures
        decoded_names(raw).len() <= raw.len(),
    decreases raw.len(),
{
    if raw.len() > 0 {
        lemma_decoded_no_longer(raw.drop_last());
    }
}

} // verus!
