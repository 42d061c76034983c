//! The bytes of a ClientHello as a client writes them, and the proof that
//! the extractor reads the server names back from them.

use vstd::prelude::*;
use crate::sni::{be16, be24, decoded_names, extension_names, hello_names, name_list, record_names, sni_extension, sni_names, HANDSHAKE_CLIENT_HELLO, RECORD_HANDSHAKE};

verus! {

/// `n` as two bytes, the high one first.
pub open spec fn u16_bytes(n: int) -> Seq<u8> {
    seq![(n / 256) as u8, (n % 256) as u8]
}

/// `n` as three bytes, the highest first.
pub open spec fn u24_bytes(n: int) -> Seq<u8> {
    seq![(n / 65536) as u8, ((n / 256) % 256) as u8, (n % 256) as u8]
}

/// One entry of a server-name list: the type `host_name`, the length of
/// the name, the name.
pub open spec fn name_entry(name: Seq<u8>) -> Seq<u8> {
    seq![0u8] + u16_bytes(name.len() as int) + name
}

/// The entries of a server-name list, one after the other.
pub open spec fn name_entries(names: Seq<Seq<u8>>) -> Seq<u8>
    decreases names.len(),
{
    if names.len() == 0 {
        Seq::empty()
    } else {
        name_entry(names[0]) + name_entries(names.drop_first())
    }
}

/// An extension: its type, the length of its data, its data.
pub open spec fn extension(kind: int, data: Seq<u8>) -> Seq<u8> {
    u16_bytes(kind) + u16_bytes(data.len() as int) + data
}

/// The `server_name` extension for `names`.
pub open spec fn server_name_extension(names: Seq<Seq<u8>>) -> Seq<u8> {
    extension(0, u16_bytes(name_entries(names).len() as int) + name_entries(names))
}

/// Extensions of other types, one after the other.
pub open spec fn other_extensions(list: Seq<(int, Seq<u8>)>) -> Seq<u8>
    decreases list.len(),
{
    if list.len() == 0 {
        Seq::empty()
    } else {
        extension(list[0].0, list[0].1) + other_extensions(list.drop_first())
    }
}

/// Whether `list` holds extensions of other types than `server_name`,
/// each with a type and a length that fit their fields.
pub open spec fn others_fit(list: Seq<(int, Seq<u8>)>) -> bool {
    forall|i: int|
        0 <= i < list.len() ==> 0 < (#[trigger] list[i]).0 <= 65535 && list[i].1.len() <= 65535
}

/// Whether each of `names` has a length that fits its field.
pub open spec fn names_fit(names: Seq<Seq<u8>>) -> bool {
    forall|i: int| 0 <= i < names.len() ==> (#[trigger] names[i]).len() <= 65535
}

/// Whether the bytes of `b` from `at` on start with `part`.
pub open spec fn holds_at(b: Seq<u8>, at: int, part: Seq<u8>) -> bool {
    0 <= at && at + part.len() <= b.len() && b.subrange(at, at + part.len()) == part
}

proof fn lemma_holds_at_index(b: Seq<u8>, at: int, part: Seq<u8>, i: int)
    requires
        holds_at(b, at, part),
        0 <= i < part.len(),
    ensures
        b[at + i] == part[i],
{
    assert(b.subrange(at, at + part.len())[i] == b[at + i]);
}

proof fn lemma_holds_at_split(b: Seq<u8>, at: int, first: Seq<u8>, second: Seq<u8>)
    requires
        holds_at(b, at, first + second),
    ensures
        holds_at(b, at, first),
        holds_at(b, at + first.len(), second),
{
    let whole = first + second;
    assert(b.subrange(at, at + first.len()) =~= first) by {
        assert forall|i: int| 0 <= i < first.len() implies b[at + i] == first[i] by {
            lemma_holds_at_index(b, at, whole, i);
        }
    }
    assert(b.subrange(at + first.len(), at + first.len() + second.len()) =~= second) by {
        assert forall|i: int| 0 <= i < second.len() implies b[at + first.len() + i]
            == second[i] by {
            lemma_holds_at_index(b, at, whole, first.len() + i);
        }
    }
}

proof fn lemma_reads_u16(b: Seq<u8>, at: int, n: int)
    requires
        holds_at(b, at, u16_bytes(n)),
        0 <= n <= 65535,
    ensures
        be16(b, at) == n,
{
    lemma_holds_at_index(b, at, u16_bytes(n), 0);
    lemma_holds_at_index(b, at, u16_bytes(n), 1);
}

proof fn lemma_reads_u24(b: Seq<u8>, at: int, n: int)
    requires
        holds_at(b, at, u24_bytes(n)),
        0 <= n <= 16777215,
    ensures
        be24(b, at) == n,
{
    lemma_holds_at_index(b, at, u24_bytes(n), 0);
    lemma_holds_at_index(b, at, u24_bytes(n), 1);
    lemma_holds_at_index(b, at, u24_bytes(n), 2);
}

/// A server-name list is read back name by name.
pub proof fn lemma_reads_name_entries(b: Seq<u8>, at: int, names: Seq<Seq<u8>>)
    requires
        holds_at(b, at, name_entries(names)),
        names_fit(names),
    ensures
        name_list(b, at, at + name_entries(names).len()) == Some(names),
    decreases names.len(),
{
    let end: int = at + name_entries(names).len();
    if names.len() == 0 {
        assert(names =~= Seq::<Seq<u8>>::empty());
    } else {
        let first = names[0];
        let rest = names.drop_first();
        assert(names_fit(rest)) by {
            assert forall|i: int| 0 <= i < rest.len() implies (#[trigger] rest[i]).len()
                <= 65535 by {
                assert(rest[i] == names[i + 1]);
            }
        }
        lemma_holds_at_split(b, at, name_entry(first), name_entries(rest));
        lemma_holds_at_split(b, at, seq![0u8] + u16_bytes(first.len() as int), first);
        lemma_holds_at_split(b, at, seq![0u8], u16_bytes(first.len() as int));
        lemma_reads_u16(b, at + 1, first.len() as int);
        let stop: int = at + 3 + first.len();
        assert(name_entry(first).len() == 3 + first.len());
        assert(b.subrange(at + 3, stop) == first);
        lemma_reads_name_entries(b, stop, rest);
        assert(seq![first] + rest =~= names);
    }
}

/// Extensions of other types are passed over.
pub proof fn lemma_skips_other_extensions(
    b: Seq<u8>,
    at: int,
    list: Seq<(int, Seq<u8>)>,
    end: int,
)
    requires
        holds_at(b, at, other_extensions(list)),
        others_fit(list),
        at + other_extensions(list).len() <= end <= b.len(),
    ensures
        extension_names(b, at, end) == extension_names(
            b,
            at + other_extensions(list).len(),
            end,
        ),
    decreases list.len(),
{
    if list.len() > 0 {
        let kind = list[0].0;
        let data = list[0].1;
        let rest = list.drop_first();
        assert(others_fit(rest)) by {
            assert forall|i: int| 0 <= i < rest.len() implies 0 < (#[trigger] rest[i]).0 <= 65535
                && rest[i].1.len() <= 65535 by {
                assert(rest[i] == list[i + 1]);
            }
        }
        lemma_holds_at_split(b, at, extension(kind, data), other_extensions(rest));
        lemma_holds_at_split(b, at, u16_bytes(kind) + u16_bytes(data.len() as int), data);
        lemma_holds_at_split(b, at, u16_bytes(kind), u16_bytes(data.len() as int));
        lemma_reads_u16(b, at, kind);
        lemma_reads_u16(b, at + 2, data.len() as int);
        let stop: int = at + 4 + data.len();
        assert(extension(kind, data).len() == 4 + data.len());
        lemma_skips_other_extensions(b, stop, rest, end);
        match extension_names(b, stop, end) {
            Some(r) => {
                assert(Seq::<Seq<u8>>::empty() + r =~= r);
            },
            None => {},
        }
    }
}

/// A `server_name` extension gives its names, before those of the
/// extensions that follow it.
pub proof fn lemma_reads_server_name_extension(
    b: Seq<u8>,
    at: int,
    names: Seq<Seq<u8>>,
    end: int,
)
    requires
        holds_at(b, at, server_name_extension(names)),
        names_fit(names),
        name_entries(names).len() + 2 <= 65535,
        at + server_name_extension(names).len() <= end <= b.len(),
    ensures
        extension_names(b, at, end) == match extension_names(
            b,
            at + server_name_extension(names).len(),
            end,
        ) {
            Some(r) => Some(names + r),
            None => None,
        },
{
    let entries = name_entries(names);
    let size: int = entries.len() as int;
    let data = u16_bytes(size) + entries;
    lemma_holds_at_split(b, at, u16_bytes(0) + u16_bytes(data.len() as int), data);
    lemma_holds_at_split(b, at, u16_bytes(0), u16_bytes(data.len() as int));
    lemma_holds_at_split(b, at + 4, u16_bytes(size), entries);
    lemma_reads_u16(b, at, 0);
    lemma_reads_u16(b, at + 2, data.len() as int);
    lemma_reads_u16(b, at + 4, size);
    lemma_reads_name_entries(b, at + 6, names);
    assert(sni_extension(b, at + 4, at + 6 + size) == Some(names));
}

/// The body of a ClientHello: `head` is the version and the random, then
/// come the session id, the cipher suites, the compression methods and the
/// extensions, each but the first behind its length.
pub open spec fn client_hello_body(
    head: Seq<u8>,
    session: Seq<u8>,
    suites: Seq<u8>,
    methods: Seq<u8>,
    extensions: Seq<u8>,
) -> Seq<u8> {
    head + seq![session.len() as u8] + session + u16_bytes(suites.len() as int) + suites
        + seq![methods.len() as u8] + methods + u16_bytes(extensions.len() as int) + extensions
}

/// A handshake record that holds one ClientHello with the body `body`;
/// `version` is the version of the record layer.
pub open spec fn client_hello_record(version: Seq<u8>, body: Seq<u8>) -> Seq<u8> {
    seq![RECORD_HANDSHAKE] + version + u16_bytes(4 + body.len() as int) + seq![
        HANDSHAKE_CLIENT_HELLO,
    ] + u24_bytes(body.len() as int) + body
}

/// Whether the parts of a ClientHello fit their length fields, and the
/// hello fits one record.
pub open spec fn hello_fits(
    version: Seq<u8>,
    head: Seq<u8>,
    session: Seq<u8>,
    suites: Seq<u8>,
    methods: Seq<u8>,
    extensions: Seq<u8>,
) -> bool {
    &&& version.len() == 2
    &&& head.len() == 34
    &&& session.len() <= 255
    &&& suites.len() <= 65535
    &&& methods.len() <= 255
    &&& extensions.len() <= 65535
    &&& 4 + client_hello_body(head, session, suites, methods, extensions).len() <= 65535
}

/// Where the extensions of a ClientHello start in its record.
pub open spec fn extensions_start(session: Seq<u8>, suites: Seq<u8>, methods: Seq<u8>) -> int {
    49int + session.len() + suites.len() + methods.len()
}

/// The names of a stream that starts with a ClientHello record are those
/// of the hello's extensions.
pub proof fn lemma_reads_hello_frame(
    b: Seq<u8>,
    version: Seq<u8>,
    head: Seq<u8>,
    session: Seq<u8>,
    suites: Seq<u8>,
    methods: Seq<u8>,
    extensions: Seq<u8>,
)
    requires
        hello_fits(version, head, session, suites, methods, extensions),
        holds_at(
            b,
            0,
            client_hello_record(
                version,
                client_hello_body(head, session, suites, methods, extensions),
            ),
        ),
    ensures
        holds_at(b, extensions_start(session, suites, methods), extensions),
        record_names(b) == extension_names(
            b,
            extensions_start(session, suites, methods),
            extensions_start(session, suites, methods) + extensions.len(),
        ),
{
    let body = client_hello_body(head, session, suites, methods, extensions);
    let r5 = seq![RECORD_HANDSHAKE] + version + u16_bytes(4 + body.len() as int) + seq![
        HANDSHAKE_CLIENT_HELLO,
    ] + u24_bytes(body.len() as int);
    let r4 = seq![RECORD_HANDSHAKE] + version + u16_bytes(4 + body.len() as int) + seq![
        HANDSHAKE_CLIENT_HELLO,
    ];
    let r3 = seq![RECORD_HANDSHAKE] + version + u16_bytes(4 + body.len() as int);
    let r2 = seq![RECORD_HANDSHAKE] + version;
    lemma_holds_at_split(b, 0, r5, body);
    lemma_holds_at_split(b, 0, r4, u24_bytes(body.len() as int));
    lemma_holds_at_split(b, 0, r3, seq![HANDSHAKE_CLIENT_HELLO]);
    lemma_holds_at_split(b, 0, r2, u16_bytes(4 + body.len() as int));
    lemma_holds_at_split(b, 0, seq![RECORD_HANDSHAKE], version);
    lemma_holds_at_index(b, 0, seq![RECORD_HANDSHAKE], 0);
    lemma_holds_at_index(b, 5, seq![HANDSHAKE_CLIENT_HELLO], 0);
    lemma_reads_u16(b, 3, 4 + body.len() as int);
    lemma_reads_u24(b, 6, body.len() as int);

    let h1 = head + seq![session.len() as u8];
    let h2 = h1 + session;
    let h3 = h2 + u16_bytes(suites.len() as int);
    let h4 = h3 + suites;
    let h5 = h4 + seq![methods.len() as u8];
    let h6 = h5 + methods;
    let h7 = h6 + u16_bytes(extensions.len() as int);
    lemma_holds_at_split(b, 9, h7, extensions);
    lemma_holds_at_split(b, 9, h6, u16_bytes(extensions.len() as int));
    lemma_holds_at_split(b, 9, h5, methods);
    lemma_holds_at_split(b, 9, h4, seq![methods.len() as u8]);
    lemma_holds_at_split(b, 9, h3, suites);
    lemma_holds_at_split(b, 9, h2, u16_bytes(suites.len() as int));
    lemma_holds_at_split(b, 9, h1, session);
    lemma_holds_at_split(b, 9, head, seq![session.len() as u8]);
    lemma_holds_at_index(b, 43, seq![session.len() as u8], 0);
    let at_suites: int = 44int + session.len();
    lemma_reads_u16(b, at_suites, suites.len() as int);
    let at_methods: int = at_suites + 2 + suites.len();
    lemma_holds_at_index(b, at_methods, seq![methods.len() as u8], 0);
    let block: int = at_methods + 1 + methods.len();
    lemma_reads_u16(b, block, extensions.len() as int);
    let end: int = 9int + body.len();
    assert(block + 2 + extensions.len() == end);
    assert(record_names(b) == hello_names(b, 9, end));
}

/// The extractor reads back what a client writes: from a stream that
/// starts with a ClientHello record whose extensions are some extensions
/// of other types, a `server_name` extension for `names`, and again some
/// extensions of other types, it extracts `names`, in their order.
/// Whatever follows the record does not matter.
pub proof fn lemma_reads_back_server_names(
    b: Seq<u8>,
    version: Seq<u8>,
    head: Seq<u8>,
    session: Seq<u8>,
    suites: Seq<u8>,
    methods: Seq<u8>,
    before: Seq<(int, Seq<u8>)>,
    names: Seq<Seq<u8>>,
    after: Seq<(int, Seq<u8>)>,
)
    requires
        others_fit(before),
        others_fit(after),
        names_fit(names),
        name_entries(names).len() + 2 <= 65535,
        hello_fits(
            version,
            head,
            session,
            suites,
            methods,
            other_extensions(before) + server_name_extension(names) + other_extensions(after),
        ),
        holds_at(
            b,
            0,
            client_hello_record(
                version,
                client_hello_body(
                    head,
                    session,
                    suites,
                    methods,
                    other_extensions(before) + server_name_extension(names) + other_extensions(
                        after,
                    ),
                ),
            ),
        ),
    ensures
        record_names(b) == Some(names),
        sni_names(b) == decoded_names(names),
{
    let extensions = other_extensions(before) + server_name_extension(names) + other_extensions(
        after,
    );
    lemma_reads_hello_frame(b, version, head, session, suites, methods, extensions);
    let start: int = extensions_start(session, suites, methods);
    let end: int = start + extensions.len();
    lemma_holds_at_split(
        b,
        start,
        other_extensions(before) + server_name_extension(names),
        other_extensions(after),
    );
    lemma_holds_at_split(b, start, other_extensions(before), server_name_extension(names));
    let at_names: int = start + other_extensions(before).len();
    let at_after: int = at_names + server_name_extension(names).len();
    lemma_skips_other_extensions(b, start, before, end);
    lemma_reads_server_name_extension(b, at_names, names, end);
    lemma_skips_other_extensions(b, at_after, after, end);
    assert(extension_names(b, end, end) == Some(Seq::<Seq<u8>>::empty()));
    assert(names + Seq::<Seq<u8>>::empty() =~= names);
}

/// A ClientHello without a `server_name` extension gives no names.
pub proof fn lemma_hello_without_server_name(
    b: Seq<u8>,
    version: Seq<u8>,
    head: Seq<u8>,
    session: Seq<u8>,
    suites: Seq<u8>,
    methods: Seq<u8>,
    others: Seq<(int, Seq<u8>)>,
)
    requires
        others_fit(others),
        hello_fits(version, head, session, suites, methods, other_extensions(others)),
        holds_at(
            b,
            0,
            client_hello_record(
                version,
                client_hello_body(head, session, suites, methods, other_extensions(others)),
            ),
        ),
    ensures
        record_names(b) == Some(Seq::<Seq<u8>>::empty()),
{
    let extensions = other_extensions(others);
    lemma_reads_hello_frame(b, version, head, session, suites, methods, extensions);
    let start: int = extensions_start(session, suites, methods);
    lemma_skips_other_extensions(b, start, others, start + extensions.len());
}

} // verus!
