use l4p::sni::{decode_names, get_sni, server_name_bytes};

fn sni_extension(names: &[&[u8]]) -> Vec<u8> {
    let mut list: Vec<u8> = Vec::new();
    for n in names {
        list.push(0);
        list.push((n.len() >> 8) as u8);
        list.push((n.len() & 0xff) as u8);
        list.extend_from_slice(n);
    }
    let mut data: Vec<u8> = Vec::new();
    data.push((list.len() >> 8) as u8);
    data.push((list.len() & 0xff) as u8);
    data.extend_from_slice(&list);
    let mut ext: Vec<u8> = vec![0, 0];
    ext.push((data.len() >> 8) as u8);
    ext.push((data.len() & 0xff) as u8);
    ext.extend_from_slice(&data);
    ext
}

fn other_extension() -> Vec<u8> {
    vec![0, 10, 0, 4, 0, 2, 0, 29]
}

fn hello_body(session: &[u8], extensions: Option<&[u8]>) -> Vec<u8> {
    let mut body: Vec<u8> = vec![3, 3];
    for i in 0..32u8 {
        body.push(i);
    }
    body.push(session.len() as u8);
    body.extend_from_slice(session);
    body.extend_from_slice(&[0, 4, 0x13, 0x01, 0x13, 0x02]);
    body.extend_from_slice(&[1, 0]);
    if let Some(e) = extensions {
        body.push((e.len() >> 8) as u8);
        body.push((e.len() & 0xff) as u8);
        body.extend_from_slice(e);
    }
    body
}

fn record_of(kind: u8, handshake: u8, body: &[u8]) -> Vec<u8> {
    let mut hs: Vec<u8> = vec![handshake];
    hs.push((body.len() >> 16) as u8);
    hs.push(((body.len() >> 8) & 0xff) as u8);
    hs.push((body.len() & 0xff) as u8);
    hs.extend_from_slice(body);
    let mut rec: Vec<u8> = vec![kind, 3, 1];
    rec.push((hs.len() >> 8) as u8);
    rec.push((hs.len() & 0xff) as u8);
    rec.extend_from_slice(&hs);
    rec
}

fn client_hello(names: &[&[u8]]) -> Vec<u8> {
    let mut exts = other_extension();
    exts.extend_from_slice(&sni_extension(names));
    record_of(22, 1, &hello_body(&[], Some(&exts)))
}

#[test]
fn sni_single_name() {
    let buf = client_hello(&[b"b.example"]);
    assert_eq!(get_sni(&buf), vec!["b.example".to_string()]);
}

#[test]
fn sni_names_keep_their_order() {
    let buf = client_hello(&[b"one.example", b"two.example", b"three.example"]);
    assert_eq!(
        get_sni(&buf),
        vec!["one.example".to_string(), "two.example".to_string(), "three.example".to_string()]
    );
}

#[test]
fn sni_in_a_padded_peek_buffer() {
    let mut buf = client_hello(&[b"a.example"]);
    buf.resize(1024, 0);
    assert_eq!(get_sni(&buf), vec!["a.example".to_string()]);
}

#[test]
fn sni_with_a_session_id() {
    let exts = sni_extension(&[b"sid.example"]);
    let buf = record_of(22, 1, &hello_body(&[7u8; 32], Some(&exts)));
    assert_eq!(get_sni(&buf), vec!["sid.example".to_string()]);
}

#[test]
fn sni_two_extensions_are_joined() {
    let mut exts = sni_extension(&[b"first.example"]);
    exts.extend_from_slice(&other_extension());
    exts.extend_from_slice(&sni_extension(&[b"second.example"]));
    let buf = record_of(22, 1, &hello_body(&[], Some(&exts)));
    assert_eq!(get_sni(&buf), vec!["first.example".to_string(), "second.example".to_string()]);
}

#[test]
fn sni_empty_buffer_gives_nothing() {
    assert_eq!(get_sni(&[]), Vec::<String>::new());
    assert!(server_name_bytes(&[]).is_none());
}

#[test]
fn sni_short_buffer_gives_nothing() {
    let buf = client_hello(&[b"b.example"]);
    for cut in 0..buf.len() {
        assert_eq!(get_sni(&buf[..cut]), Vec::<String>::new(), "cut at {}", cut);
    }
}

#[test]
fn sni_other_record_type_gives_nothing() {
    let exts = sni_extension(&[b"b.example"]);
    let buf = record_of(23, 1, &hello_body(&[], Some(&exts)));
    assert_eq!(get_sni(&buf), Vec::<String>::new());
}

#[test]
fn sni_other_handshake_type_gives_nothing() {
    let exts = sni_extension(&[b"b.example"]);
    let buf = record_of(22, 2, &hello_body(&[], Some(&exts)));
    assert_eq!(get_sni(&buf), Vec::<String>::new());
}

#[test]
fn sni_hello_without_extensions_gives_nothing() {
    let buf = record_of(22, 1, &hello_body(&[], None));
    assert_eq!(get_sni(&buf), Vec::<String>::new());
    assert_eq!(server_name_bytes(&buf), Some(Vec::new()));
}

#[test]
fn sni_hello_without_server_name_gives_nothing() {
    let buf = record_of(22, 1, &hello_body(&[], Some(&other_extension())));
    assert_eq!(get_sni(&buf), Vec::<String>::new());
}

#[test]
fn sni_overlong_name_length_gives_nothing() {
    let mut exts = sni_extension(&[b"b.example"]);
    // the name claims one byte more than the list holds
    exts[8] += 1;
    let buf = record_of(22, 1, &hello_body(&[], Some(&exts)));
    assert_eq!(get_sni(&buf), Vec::<String>::new());
}

#[test]
fn sni_overlong_extension_gives_nothing() {
    let mut exts = sni_extension(&[b"b.example"]);
    exts[3] += 1;
    let buf = record_of(22, 1, &hello_body(&[], Some(&exts)));
    assert_eq!(get_sni(&buf), Vec::<String>::new());
}

#[test]
fn sni_name_that_is_not_utf8_is_left_out() {
    let buf = client_hello(&[&[0xff, 0xfe], b"good.example"]);
    assert_eq!(get_sni(&buf), vec!["good.example".to_string()]);
    assert_eq!(
        server_name_bytes(&buf),
        Some(vec![vec![0xff, 0xfe], b"good.example".to_vec()])
    );
}

#[test]
fn sni_decode_names_decodes_utf8() {
    let raw = vec!["né.example".as_bytes().to_vec(), vec![0xc3], b"x".to_vec()];
    assert_eq!(decode_names(&raw), vec!["né.example".to_string(), "x".to_string()]);
}

#[test]
fn sni_garbage_never_panics() {
    let mut seed: u32 = 12345;
    for len in 0..200usize {
        let mut buf: Vec<u8> = Vec::new();
        for _ in 0..len {
            seed = seed.wrapping_mul(1664525).wrapping_add(1013904223);
            buf.push((seed >> 24) as u8);
        }
        if len > 6 {
            buf[0] = 22;
            buf[5] = 1;
        }
        let names = get_sni(&buf);
        assert!(names.len() <= len);
    }
}
