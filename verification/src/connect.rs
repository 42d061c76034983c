//! Chaining through an upstream HTTP proxy with the CONNECT method: the
//! request that is sent, the substitution of environment values into its
//! header values, the reading of the reply's status line, and the states a
//! chained connection passes through.
//!
//! Substitution honours one placeholder per value: the first `${` and the
//! first `}` after it enclose the variable's name. The value is cut off
//! before the `${`, the variable's value is appended, and whatever followed
//! the `}` is dropped. This cut is intentional; a value with one placeholder
//! at its end is unaffected by it.

use vstd::prelude::*;
use vstd::string::*;
use crate::first::{first_of, lemma_first_stays};
use crate::text::{owned, same_bytes};

verus! {

/// Capacity of the buffer that the reply of the upstream proxy is read into.
pub const REPLY_BUFFER_LEN: usize = 16384;

/// Why a connection through an upstream proxy was given up.
#[derive(Debug, Clone, PartialEq, Eq)]
pub enum ChainError {
    /// No upstream address accepted the connection within the time allowed.
    DialFailed,
    /// A header value names an environment variable that is not set.
    MissingVariable(String),
    /// Writing the request or reading the reply failed.
    Io,
    /// The proxy answered 403.
    AuthenticationRequired,
    /// The proxy answered 502.
    BadGateway,
    /// The proxy answered 503.
    ServiceUnavailable,
    /// The proxy answered anything else, or nothing that can be read.
    UnexpectedResponse,
}

/// How the reply of the upstream proxy is classified.
#[derive(Debug, Clone, Copy, PartialEq, Eq, Structural)]
pub enum ProxyReply {
    Established,
    AuthenticationRequired,
    BadGateway,
    ServiceUnavailable,
    Unexpected,
}

/// The least index `i >= from` with `s[i] == '$'` and `s[i + 1] == '{'`, or
/// `s.len()` where there is none.
pub open spec fn find_open(s: Seq<char>, from: int) -> int
    decreases s.len() - from,
{
    if from < 0 || from + 1 >= s.len() {
        s.len() as int
    } else if s[from] == '$' && s[from + 1] == '{' {
        from
    } else {
        find_open(s, from + 1)
    }
}

/// The least index `i >= from` with `s[i] == '}'`, or `s.len()` where there
/// is none.
pub open spec fn find_close(s: Seq<char>, from: int) -> int
    decreases s.len() - from,
{
    if from < 0 || from >= s.len() {
        s.len() as int
    } else if s[from] == '}' {
        from
    } else {
        find_close(s, from + 1)
    }
}

/// Where the placeholder of `s` stands: the index of its `$` and the index
/// of its `}`. A value without `${`, without a `}` after it, or with nothing
/// between the two has none.
pub open spec fn placeholder(s: Seq<char>) -> Option<(int, int)> {
    let open = find_open(s, 0);
    let close = find_close(s, open + 2);
    if open < s.len() && open + 2 < close && close < s.len() {
        Some((open, close))
    } else {
        None
    }
}

/// The name of the variable that `s` refers to, if it has a placeholder.
pub open spec fn variable_name(s: Seq<char>) -> Option<Seq<char>> {
    match placeholder(s) {
        Some((open, close)) => Some(s.subrange(open + 2, close)),
        None => None,
    }
}

/// The header value that is sent for the template `s`, given the value of
/// the variable it names (`None`: the variable is not set). `None` where
/// the template needs a variable that is not set.
pub open spec fn interpolated(s: Seq<char>, value: Option<Seq<char>>) -> Option<Seq<char>> {
    match placeholder(s) {
        None => Some(s),
        Some((open, _)) => match value {
            Some(v) => Some(s.subrange(0, open) + v),
            None => None,
        },
    }
}

fn scan_open(s: &str, len: usize) -> (at: usize)
    requires
        len == s@.len(),
    ensures
        at == find_open(s@, 0),
        at <= len,
{
    let mut i: usize = 0;
    while i < len && i + 1 < len
        invariant
            i <= len == s@.len(),
            find_open(s@, 0) == find_open(s@, i as int),
        decreases len - i,
    {
        if s.get_char(i) == '$' && s.get_char(i + 1) == '{' {
            return i;
        }
        i = i + 1;
    }
    len
}

fn scan_close(s: &str, len: usize, from: usize) -> (at: usize)
    requires
        len == s@.len(),
    ensures
        at == find_close(s@, from as int),
        at <= len,
{
    if from >= len {
        return len;
    }
    let mut i: usize = from;
    while i < len
        invariant
            from <= i <= len == s@.len(),
            find_close(s@, from as int) == find_close(s@, i as int),
        decreases len - i,
    {
        if s.get_char(i) == '}' {
            return i;
        }
        i = i + 1;
    }
    len
}

/// The placeholder of a header value: the character index of its `$` and of
/// its `}`.
pub fn find_placeholder(value: &str) -> (r: Option<(usize, usize)>)
    ensures
        r.is_some() == placeholder(value@).is_some(),
        r matches Some((open, close)) ==> placeholder(value@) == Some((open as int, close as int)),
{
    let len: usize = value.unicode_len();
    let open: usize = scan_open(value, len);
    if open >= len || len - open < 3 {
        return None;
    }
    let close: usize = scan_close(value, len, open + 2);
    if open + 2 < close && close < len {
        Some((open, close))
    } else {
        None
    }
}

/// The environment variable that a header value asks for, if any.
pub fn header_variable(value: &str) -> (name: Option<String>)
    ensures
        name.is_some() == variable_name(value@).is_some(),
        name matches Some(n) ==> Some(n@) == variable_name(value@),
{
    match find_placeholder(value) {
        Some((open, close)) => Some(owned(value.substring_char(open + 2, close))),
        None => None,
    }
}

/// The header value to send for the template `value`. `found` is what the
/// environment holds for the variable that `header_variable` names.
/// A template without a placeholder is sent as it is. With one, the text
/// before `${` is followed by the variable's value; a variable that is not
/// set is an error that names it.
pub fn interpolate(value: &str, found: Option<&str>) -> (r: Result<String, ChainError>)
    ensures
        r.is_ok() == interpolated(value@, opt_view(found)).is_some(),
        r matches Ok(s) ==> Some(s@) == interpolated(value@, opt_view(found)),
        r matches Err(e) ==> e matches ChainError::MissingVariable(n) && Some(n@) == variable_name(
            value@,
        ),
{
    match find_placeholder(value) {
        None => Ok(owned(value)),
        Some((open, close)) => match found {
            Some(v) => {
                let mut out: String = owned(value.substring_char(0, open));
                out.append(v);
                Ok(out)
            },
            None => Err(ChainError::MissingVariable(owned(value.substring_char(open + 2, close)))),
        },
    }
}

/// The view of an optional string slice.
pub open spec fn opt_view(v: Option<&str>) -> Option<Seq<char>> {
    match v {
        Some(s) => Some(s@),
        None => None,
    }
}

/// What the environment holds for header `i`: `values[i]`, and nothing
/// where `values` is shorter.
pub open spec fn value_at(values: Seq<Option<String>>, i: int) -> Option<Seq<char>> {
    if 0 <= i < values.len() {
        match values[i] {
            Some(s) => Some(s@),
            None => None,
        }
    } else {
        None
    }
}

/// One header line: the name, a colon and a space, the value, and CR LF.
pub open spec fn header_line(name: Seq<char>, value: Seq<char>) -> Seq<char> {
    name + ": "@ + value + "\r\n"@
}

/// The lines of the first `n` headers, or `None` where one of them needs a
/// variable that is not set.
pub open spec fn header_lines(
    headers: Seq<(String, String)>,
    values: Seq<Option<String>>,
    n: int,
) -> Option<Seq<char>>
    decreases n,
{
    if n <= 0 {
        Some(Seq::empty())
    } else {
        match (
            header_lines(headers, values, n - 1),
            interpolated(headers[n - 1].1@, value_at(values, n - 1)),
        ) {
            (Some(before), Some(v)) => Some(before + header_line(headers[n - 1].0@, v)),
            _ => None,
        }
    }
}

/// The CONNECT request for `target` with the given headers, in their order:
/// the request line, one line per header, and an empty line.
pub open spec fn connect_request(
    target: Seq<char>,
    headers: Seq<(String, String)>,
    values: Seq<Option<String>>,
) -> Option<Seq<char>> {
    match header_lines(headers, values, headers.len() as int) {
        Some(lines) => Some("CONNECT "@ + target + " HTTP/1.1\r\n"@ + lines + "\r\n"@),
        None => None,
    }
}

/// For each header, the variable that it needs and that is not set.
pub open spec fn missing(headers: Seq<(String, String)>, values: Seq<Option<String>>) -> spec_fn(
    int,
) -> Option<Seq<char>> {
    |i: int|
        if interpolated(headers[i].1@, value_at(values, i)).is_none() {
            variable_name(headers[i].1@)
        } else {
            None
        }
}

/// The variable of the first header that needs one that is not set.
pub open spec fn first_missing(headers: Seq<(String, String)>, values: Seq<Option<String>>) -> Option<
    Seq<char>,
> {
    first_of(missing(headers, values), headers.len() as int)
}

/// The variables that the header values ask for, one entry per header.
pub fn header_variables(headers: &Vec<(String, String)>) -> (names: Vec<Option<String>>)
    ensures
        names@.len() == headers@.len(),
        forall|i: int|
            0 <= i < headers@.len() ==> value_at(names@, i) == variable_name(
                #[trigger] headers@[i].1@,
            ),
{
    let mut names: Vec<Option<String>> = Vec::new();
    let mut i: usize = 0;
    while i < headers.len()
        invariant
            i <= headers@.len(),
            names@.len() == i,
            forall|j: int|
                0 <= j < i ==> value_at(names@, j) == variable_name(#[trigger] headers@[j].1@),
        decreases headers@.len() - i,
    {
        let name = header_variable(headers[i].1.as_str());
        names.push(name);
        i = i + 1;
    }
    names
}

/// The text of the CONNECT request that asks the upstream proxy for a
/// tunnel to `target`. `values[i]` is what the environment holds for the
/// variable of header `i` (see `header_variables`). Fails at the first
/// header whose variable is not set.
pub fn build_connect_request(
    target: &str,
    headers: &Vec<(String, String)>,
    values: &Vec<Option<String>>,
) -> (r: Result<String, ChainError>)
    ensures
        r.is_ok() == connect_request(target@, headers@, values@).is_some(),
        r matches Ok(s) ==> Some(s@) == connect_request(target@, headers@, values@),
        r matches Err(e) ==> e matches ChainError::MissingVariable(n) && Some(n@) == first_missing(
            headers@,
            values@,
        ),
{
    let mut out: String = owned("CONNECT ");
    out.append(target);
    out.append(" HTTP/1.1\r\n");
    let ghost head = out@;
    let ghost m = missing(headers@, values@);
    let mut i: usize = 0;
    proof {
        assert(head + Seq::<char>::empty() =~= head);
    }
    while i < headers.len()
        invariant
            i <= headers@.len(),
            head == "CONNECT "@ + target@ + " HTTP/1.1\r\n"@,
            m == missing(headers@, values@),
            first_of(m, i as int).is_none(),
            header_lines(headers@, values@, i as int).is_some(),
            out@ == head + header_lines(headers@, values@, i as int).unwrap(),
        decreases headers@.len() - i,
    {
        let found: Option<&str> = if i < values.len() {
            match &values[i] {
                Some(s) => Some(s.as_str()),
                None => None,
            }
        } else {
            None
        };
        assert(opt_view(found) == value_at(values@, i as int));
        let ghost before = header_lines(headers@, values@, i as int).unwrap();
        match interpolate(headers[i].1.as_str(), found) {
            Ok(v) => {
                out.append(headers[i].0.as_str());
                out.append(": ");
                out.append(v.as_str());
                out.append("\r\n");
                proof {
                    assert(out@ =~= head + (before + header_line(headers@[i as int].0@, v@)));
                    assert(first_of(m, i + 1) == m(i as int));
                }
            },
            Err(e) => {
                proof {
                    lemma_lines_fail_later(headers@, values@, i + 1, headers@.len() as int);
                    assert(first_of(m, i + 1) == m(i as int));
                    lemma_first_stays(m, i + 1, headers@.len() as int);
                }
                return Err(e);
            },
        }
        i = i + 1;
    }
    out.append("\r\n");
    Ok(out)
}

/// Once the first `n` headers cannot be written, no longer prefix can.
proof fn lemma_lines_fail_later(
    headers: Seq<(String, String)>,
    values: Seq<Option<String>>,
    n: int,
    m: int,
)
    requires
        0 <= n <= m,
        header_lines(headers, values, n).is_none(),
    ensures
        header_lines(headers, values, m).is_none(),
    decreases m - n,
{
    if n < m {
        lemma_lines_fail_later(headers, values, n, m - 1);
    }
}

/// The least index `i >= from` with `b[i]` a space, or `b.len()`.
pub open spec fn find_space(b: Seq<u8>, from: int) -> int
    decreases b.len() - from,
{
    if from < 0 || from >= b.len() {
        b.len() as int
    } else if b[from] == 32 {
        from
    } else {
        find_space(b, from + 1)
    }
}

/// The second of the tokens that spaces divide `reply` into, if there is
/// a space at all.
pub open spec fn status_token(reply: Seq<u8>) -> Option<Seq<u8>> {
    let first = find_space(reply, 0);
    if first >= reply.len() {
        None
    } else {
        Some(reply.subrange(first + 1, find_space(reply, first + 1)))
    }
}

/// The class of a reply by its status token.
pub open spec fn reply_class(reply: Seq<u8>) -> ProxyReply {
    match status_token(reply) {
        None => ProxyReply::Unexpected,
        Some(t) => if t == seq![50u8, 48u8, 48u8] {
            ProxyReply::Established
        } else if t == seq![52u8, 48u8, 51u8] {
            ProxyReply::AuthenticationRequired
        } else if t == seq![53u8, 48u8, 50u8] {
            ProxyReply::BadGateway
        } else if t == seq![53u8, 48u8, 51u8] {
            ProxyReply::ServiceUnavailable
        } else {
            ProxyReply::Unexpected
        },
    }
}

fn scan_space(b: &[u8], from: usize) -> (at: usize)
    ensures
        at == find_space(b@, from as int),
        at <= b@.len(),
        from <= b@.len() ==> from <= at,
{
    let len: usize = b.len();
    if from >= len {
        return len;
    }
    let mut i: usize = from;
    while i < len
        invariant
            from <= i <= len == b@.len(),
            find_space(b@, from as int) == find_space(b@, i as int),
        decreases len - i,
    {
        if b[i] == 32 {
            return i;
        }
        i = i + 1;
    }
    len
}

/// Reads the status code of the reply that the upstream proxy gave to the
/// CONNECT request. `reply` holds the bytes that were read. Only `200`
/// establishes the tunnel; `403`, `502` and `503` are told apart; every
/// other reply, and one without a second token, is unexpected.
pub fn classify_reply(reply: &[u8]) -> (class: ProxyReply)
    ensures
        class == reply_class(reply@),
{
    let first: usize = scan_space(reply, 0);
    if first >= reply.len() {
        return ProxyReply::Unexpected;
    }
    let stop: usize = scan_space(reply, first + 1);
    let token: &[u8] = vstd::slice::slice_subrange(reply, first + 1, stop);
    let c200: [u8; 3] = [50, 48, 48];
    let c403: [u8; 3] = [52, 48, 51];
    let c502: [u8; 3] = [53, 48, 50];
    let c503: [u8; 3] = [53, 48, 51];
    proof {
        assert(c200@ =~= seq![50u8, 48u8, 48u8]);
        assert(c403@ =~= seq![52u8, 48u8, 51u8]);
        assert(c502@ =~= seq![53u8, 48u8, 50u8]);
        assert(c503@ =~= seq![53u8, 48u8, 51u8]);
    }
    if same_bytes(token, c200.as_slice()) {
        ProxyReply::Established
    } else if same_bytes(token, c403.as_slice()) {
        ProxyReply::AuthenticationRequired
    } else if same_bytes(token, c502.as_slice()) {
        ProxyReply::BadGateway
    } else if same_bytes(token, c503.as_slice()) {
        ProxyReply::ServiceUnavailable
    } else {
        ProxyReply::Unexpected
    }
}

/// The error that a reply class stands for; none for an established tunnel.
pub fn reply_error(class: ProxyReply) -> (r: Option<ChainError>)
    ensures
        class == ProxyReply::Established <==> r.is_none(),
        class == ProxyReply::AuthenticationRequired ==> r == Some(
            ChainError::AuthenticationRequired,
        ),
        class == ProxyReply::BadGateway ==> r == Some(ChainError::BadGateway),
        class == ProxyReply::ServiceUnavailable ==> r == Some(ChainError::ServiceUnavailable),
        class == ProxyReply::Unexpected ==> r == Some(ChainError::UnexpectedResponse),
{
    match class {
        ProxyReply::Established => None,
        ProxyReply::AuthenticationRequired => Some(ChainError::AuthenticationRequired),
        ProxyReply::BadGateway => Some(ChainError::BadGateway),
        ProxyReply::ServiceUnavailable => Some(ChainError::ServiceUnavailable),
        ProxyReply::Unexpected => Some(ChainError::UnexpectedResponse),
    }
}

/// Where a connection to a proxied upstream stands.
#[derive(Debug, Clone, Copy, PartialEq, Eq, Structural)]
pub enum ChainState {
    /// Connecting to one of the upstream's addresses.
    Dialing,
    /// Sending the CONNECT request.
    Writing,
    /// Waiting for the reply to the CONNECT request.
    Reading,
    /// Copying bytes in both directions.
    Relaying,
    /// Done, with or without an error.
    Closed,
}

/// What the caller reports after it has done what it was told.
#[derive(Debug, Clone, PartialEq, Eq)]
pub enum ChainEvent {
    /// The upstream accepted the connection.
    Connected,
    /// The whole request was written.
    Written,
    /// The socket was not ready; nothing was written or read.
    Blocked,
    /// A reply was read and classified.
    Reply(ProxyReply),
    /// Both directions of the relay have finished.
    Ended,
    /// The step failed.
    Failed(ChainError),
}

/// What the caller is to do next.
#[derive(Debug, Clone, PartialEq, Eq)]
pub enum ChainAction {
    /// Write the CONNECT request; on `Blocked`, the same again.
    SendRequest,
    /// Read the reply and classify it.
    AwaitReply,
    /// Copy bytes between client and upstream until both sides are done.
    Relay,
    /// Close both sockets; the error, if any, is why.
    Close(Option<ChainError>),
}

/// The transition of a connection to a proxied upstream. `chained` says
/// whether an upstream proxy is configured: without one the connection is
/// relayed as soon as it stands. An event that the state does not expect
/// closes the connection with an I/O error.
pub open spec fn chain_step(chained: bool, state: ChainState, event: ChainEvent) -> (
    ChainState,
    ChainAction,
) {
    match (state, event) {
        (ChainState::Closed, _) => (ChainState::Closed, ChainAction::Close(None)),
        (_, ChainEvent::Failed(e)) => (ChainState::Closed, ChainAction::Close(Some(e))),
        (ChainState::Dialing, ChainEvent::Connected) => if chained {
            (ChainState::Writing, ChainAction::SendRequest)
        } else {
            (ChainState::Relaying, ChainAction::Relay)
        },
        (ChainState::Writing, ChainEvent::Written) => (ChainState::Reading, ChainAction::AwaitReply),
        (ChainState::Writing, ChainEvent::Blocked) => (ChainState::Writing, ChainAction::SendRequest),
        (ChainState::Reading, ChainEvent::Blocked) => (ChainState::Reading, ChainAction::AwaitReply),
        (ChainState::Reading, ChainEvent::Reply(class)) => match class {
            ProxyReply::Established => (ChainState::Relaying, ChainAction::Relay),
            ProxyReply::AuthenticationRequired => (
                ChainState::Closed,
                ChainAction::Close(Some(ChainError::AuthenticationRequired)),
            ),
            ProxyReply::BadGateway => (
                ChainState::Closed,
                ChainAction::Close(Some(ChainError::BadGateway)),
            ),
            ProxyReply::ServiceUnavailable => (
                ChainState::Closed,
                ChainAction::Close(Some(ChainError::ServiceUnavailable)),
            ),
            ProxyReply::Unexpected => (
                ChainState::Closed,
                ChainAction::Close(Some(ChainError::UnexpectedResponse)),
            ),
        },
        (ChainState::Relaying, ChainEvent::Ended) => (ChainState::Closed, ChainAction::Close(None)),
        _ => (ChainState::Closed, ChainAction::Close(Some(ChainError::Io))),
    }
}

/// How far the request is sent once `n` more of its `total` bytes were
/// written after the first `sent`, and what that means for the chain: the
/// request is written when nothing of it is left, and else the write is
/// taken up again where it stopped.
pub fn request_progress(total: usize, sent: usize, n: usize) -> (r: (usize, ChainEvent))
    ensures
        sent + n >= total ==> r.0 == total && r.1 == ChainEvent::Written,
        sent + n < total ==> r.0 == sent + n && r.1 == ChainEvent::Blocked,
{
    if sent >= total || n >= total - sent {
        (total, ChainEvent::Written)
    } else {
        (sent + n, ChainEvent::Blocked)
    }
}

/// Whether an upstream proxy is configured: its target is not empty.
pub fn is_chained(via_target: &str) -> (r: bool)
    ensures
        r == (via_target@.len() > 0),
{
    via_target.unicode_len() > 0
}

/// The state a connection to a proxied upstream starts in.
pub fn chain_start() -> (state: ChainState)
    ensures
        state == ChainState::Dialing,
{
    ChainState::Dialing
}

/// Advances a connection to a proxied upstream by one event.
pub fn chain_advance(chained: bool, state: ChainState, event: ChainEvent) -> (r: (
    ChainState,
    ChainAction,
))
    ensures
        r == chain_step(chained, state, event),
{
    match state {
        ChainState::Closed => (ChainState::Closed, ChainAction::Close(None)),
        _ => match event {
            ChainEvent::Failed(e) => (ChainState::Closed, ChainAction::Close(Some(e))),
            ChainEvent::Connected => match state {
                ChainState::Dialing => if chained {
                    (ChainState::Writing, ChainAction::SendRequest)
                } else {
                    (ChainState::Relaying, ChainAction::Relay)
                },
                _ => (ChainState::Closed, ChainAction::Close(Some(ChainError::Io))),
            },
            ChainEvent::Written => match state {
                ChainState::Writing => (ChainState::Reading, ChainAction::AwaitReply),
                _ => (ChainState::Closed, ChainAction::Close(Some(ChainError::Io))),
            },
            ChainEvent::Blocked => match state {
                ChainState::Writing => (ChainState::Writing, ChainAction::SendRequest),
                ChainState::Reading => (ChainState::Reading, ChainAction::AwaitReply),
                _ => (ChainState::Closed, ChainAction::Close(Some(ChainError::Io))),
            },
            ChainEvent::Reply(class) => match state {
                ChainState::Reading => match reply_error(class) {
                    None => (ChainState::Relaying, ChainAction::Relay),
                    Some(e) => (ChainState::Closed, ChainAction::Close(Some(e))),
                },
                _ => (ChainState::Closed, ChainAction::Close(Some(ChainError::Io))),
            },
            ChainEvent::Ended => match state {
                ChainState::Relaying => (ChainState::Closed, ChainAction::Close(None)),
                _ => (ChainState::Closed, ChainAction::Close(Some(ChainError::Io))),
            },
        },
    }
}

/// Bytes are relayed through an upstream proxy only after it answered 200,
/// and a closed connection stays closed.
pub proof fn lemma_relay_only_after_200(state: ChainState, event: ChainEvent)
    ensures
        chain_step(true, state, event).0 == ChainState::Relaying <==> state == ChainState::Reading
            && event == ChainEvent::Reply(ProxyReply::Established),
        state == ChainState::Closed ==> chain_step(true, state, event).0 == ChainState::Closed,
        event is Failed ==> chain_step(true, state, event).0 == ChainState::Closed,
{
}

/// The text that describes an error to a reader of the log.
pub fn error_message(e: &ChainError) -> (msg: String)
    ensures
        e is DialFailed ==> msg@ == "could not connect to upstream"@,
        e matches ChainError::MissingVariable(n) ==> msg@
            == "environment variable not found: "@ + n@,
        e is Io ==> msg@ == "i/o error"@,
        e is AuthenticationRequired ==> msg@ == "proxy requires authentication"@,
        e is BadGateway ==> msg@ == "bad gateway"@,
        e is ServiceUnavailable ==> msg@ == "service unavailable"@,
        e is UnexpectedResponse ==> msg@ == "unexpected proxy response"@,
{
    match e {
        ChainError::DialFailed => owned("could not connect to upstream"),
        ChainError::MissingVariable(n) => {
            let mut msg: String = owned("environment variable not found: ");
            msg.append(n.as_str());
            msg
        },
        ChainError::Io => owned("i/o error"),
        ChainError::AuthenticationRequired => owned("proxy requires authentication"),
        ChainError::BadGateway => owned("bad gateway"),
        ChainError::ServiceUnavailable => owned("service unavailable"),
        ChainError::UnexpectedResponse => owned("unexpected proxy response"),
    }
}

proof fn lemma_open_at(s: Seq<char>, from: int, at: int)
    requires
        0 <= from <= at,
        at + 1 < s.len(),
        forall|i: int| from <= i < at ==> s[i] != '$',
        s[at] == '$',
        s[at + 1] == '{',
    ensures
        find_open(s, from) == at,
    decreases at - from,
{
    if from < at {
        lemma_open_at(s, from + 1, at);
    }
}

proof fn lemma_no_open(s: Seq<char>, from: int)
    requires
        0 <= from,
        forall|i: int| from <= i < s.len() ==> s[i] != '$',
    ensures
        find_open(s, from) == s.len(),
    decreases s.len() - from,
{
    if from + 1 < s.len() {
        lemma_no_open(s, from + 1);
    }
}

proof fn lemma_close_at(s: Seq<char>, from: int, at: int)
    requires
        0 <= from <= at < s.len(),
        forall|i: int| from <= i < at ==> s[i] != '}',
        s[at] == '}',
    ensures
        find_close(s, from) == at,
    decreases at - from,
{
    if from < at {
        lemma_close_at(s, from + 1, at);
    }
}

/// A header value with one placeholder: some text without `$`, then `${`,
/// a name, and `}`, whatever follows. The variable asked for is the name;
/// with the variable set, the text before `${` and the variable's value
/// are sent; with the variable not set, nothing is.
pub proof fn lemma_single_placeholder(
    before: Seq<char>,
    name: Seq<char>,
    after: Seq<char>,
    found: Seq<char>,
)
    requires
        forall|i: int| 0 <= i < before.len() ==> before[i] != '$',
        name.len() > 0,
        forall|i: int| 0 <= i < name.len() ==> name[i] != '}',
    ensures
        variable_name(before + "${"@ + name + "}"@ + after) == Some(name),
        interpolated(before + "${"@ + name + "}"@ + after, Some(found)) == Some(before + found),
        interpolated(before + "${"@ + name + "}"@ + after, None).is_none(),
{
    reveal_strlit("${");
    reveal_strlit("}");
    let s = before + "${"@ + name + "}"@ + after;
    let open = before.len() as int;
    let close = open + 2 + name.len();
    assert(s[open] == '$');
    assert(s[open + 1] == '{');
    assert(s[close] == '}');
    assert forall|i: int| 0 <= i < open implies s[i] != '$' by {
        assert(s[i] == before[i]);
    }
    assert forall|i: int| open + 2 <= i < close implies s[i] != '}' by {
        assert(s[i] == name[i - open - 2]);
    }
    lemma_open_at(s, 0, open);
    lemma_close_at(s, open + 2, close);
    assert(s.subrange(open + 2, close) =~= name);
    assert(s.subrange(0, open) =~= before);
}

/// A header value without `$` is sent as it is, whatever the environment
/// holds.
pub proof fn lemma_plain_value_is_kept(value: Seq<char>, found: Option<Seq<char>>)
    requires
        forall|i: int| 0 <= i < value.len() ==> value[i] != '$',
    ensures
        variable_name(value).is_none(),
        interpolated(value, found) == Some(value),
{
    lemma_no_open(value, 0);
}

} // verus!
