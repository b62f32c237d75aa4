//! The HTTP fetch: the request, the ports, and the state machine that decides,
//! from what the TCP socket reports on each turn of the poll loop, what the
//! loop does next.
use vstd::prelude::*;
use vstd::string::StringExecFns;
use vstd::utf8::{decode_utf8, pop_first_scalar, valid_utf8, valid_utf8_concat};

use smoltcp::socket::tcp::ConnectError;

verus! {

/// First port of the dynamic (private) range that ephemeral ports come from.
pub const EPHEMERAL_FIRST: u16 = 49152;

/// Number of ports in the dynamic range.
pub const EPHEMERAL_COUNT: u16 = 16384;

/// Port used when the URL names none.
pub const DEFAULT_HTTP_PORT: u16 = 80;

/// Capacity in bytes of each of the socket's two ring buffers.
pub const SOCKET_BUFFER_LEN: usize = 1024;

/// Address of the virtual interface.
pub const INTERFACE_ADDRESS: [u8; 4] = [192, 168, 42, 1];

/// Prefix length of the virtual interface's subnet.
pub const INTERFACE_PREFIX_LEN: u8 = 24;

/// The default gateway of the virtual interface.
pub const DEFAULT_GATEWAY: [u8; 4] = [192, 168, 42, 100];

/// smoltcp's refusal of a connection attempt, reported through `UpstreamError`.
#[verifier::external_type_specification]
#[verifier::external_body]
pub struct ExConnectError(ConnectError);

/// std's error for bytes that are not UTF-8, held by `UpstreamError::Content`.
#[verifier::external_type_specification]
#[verifier::external_body]
pub struct ExUtf8Error(std::str::Utf8Error);

/// Why a fetch failed.
#[derive(Debug)]
pub enum UpstreamError {
    /// The socket refused the connection attempt.
    Network(ConnectError),
    /// The URL has no host.
    InvalidUrl,
    /// Reserved: the body is decoded lossily and never fails.
    Content(std::str::Utf8Error),
}

impl From<ConnectError> for UpstreamError {
    fn from(error: ConnectError) -> (r: UpstreamError) {
        UpstreamError::Network(error)
    }
}

impl vstd::std_specs::convert::FromSpecImpl<ConnectError> for UpstreamError {
    open spec fn obeys_from_spec() -> bool {
        true
    }

    open spec fn from_spec(error: ConnectError) -> UpstreamError {
        UpstreamError::Network(error)
    }
}

impl From<std::str::Utf8Error> for UpstreamError {
    fn from(error: std::str::Utf8Error) -> (r: UpstreamError) {
        UpstreamError::Content(error)
    }
}

impl vstd::std_specs::convert::FromSpecImpl<std::str::Utf8Error> for UpstreamError {
    open spec fn obeys_from_spec() -> bool {
        true
    }

    open spec fn from_spec(error: std::str::Utf8Error) -> UpstreamError {
        UpstreamError::Content(error)
    }
}

/// What the fetch needs of a URL.
#[derive(Debug, Clone)]
pub struct HttpTarget {
    /// The host, where the URL has one.
    pub host: Option<String>,
    /// The path, `/` for the root.
    pub path: String,
    /// The port, where the URL names one.
    pub port: Option<u16>,
}

/// Everything the poll loop needs before the socket is made.
#[derive(Debug, Clone)]
pub struct FetchPlan {
    /// The whole request, sent in one piece.
    pub request: String,
    /// The server's port.
    pub remote_port: u16,
    /// The local ephemeral port to connect from.
    pub local_port: u16,
}

/// `GET <path> HTTP/1.1`, a `Host` header, `Connection: close`, a blank line.
pub open spec fn request_text(path: Seq<char>, host: Seq<char>) -> Seq<char> {
    seq!['G', 'E', 'T', ' '] + path + seq![' ', 'H', 'T', 'T', 'P', '/', '1', '.', '1', '\r', '\n']
        + seq!['H', 'o', 's', 't', ':', ' '] + host + seq!['\r', '\n']
        + seq![
        'C', 'o', 'n', 'n', 'e', 'c', 't', 'i', 'o', 'n', ':', ' ', 'c', 'l', 'o', 's', 'e',
    ] + seq!['\r', '\n', '\r', '\n']
}

/// The ephemeral port that a random draw `seed` selects.
pub open spec fn ephemeral_port_of(seed: u16) -> u16 {
    (EPHEMERAL_FIRST + seed % EPHEMERAL_COUNT) as u16
}

/// The request for `path` on `host`.
pub fn request(path: &str, host: &str) -> (r: String)
    ensures
        r@ == request_text(path@, host@),
{
    let mut r = String::from_str("GET ");
    r.append(path);
    r.append(" HTTP/1.1\r\n");
    r.append("Host: ");
    r.append(host);
    r.append("\r\n");
    r.append("Connection: close");
    r.append("\r\n\r\n");
    proof {
        reveal_strlit("GET ");
        reveal_strlit(" HTTP/1.1\r\n");
        reveal_strlit("Host: ");
        reveal_strlit("\r\n");
        reveal_strlit("Connection: close");
        reveal_strlit("\r\n\r\n");
    }
    assert(r@ =~= request_text(path@, host@));
    r
}

/// The port in the dynamic range that a random draw `seed` selects.
pub fn ephemeral_port(seed: u16) -> (r: u16)
    ensures
        r == ephemeral_port_of(seed),
        EPHEMERAL_FIRST <= r,
{
    EPHEMERAL_FIRST + seed % EPHEMERAL_COUNT
}

/// A random port of the dynamic range.
pub fn random_port() -> (r: u16)
    ensures
        EPHEMERAL_FIRST <= r,
{
    let seed: u16 = rand::random::<u16>();
    ephemeral_port(seed)
}

/// The text of a chunk of the response, each ill-formed UTF-8 sequence
/// replaced by U+FFFD.
pub uninterp spec fn lossy_text(b: Seq<u8>) -> Seq<char>;

/// Relies on `String::from_utf8_lossy`: well-formed UTF-8 decodes as itself,
/// and the text depends on the bytes alone.
#[verifier::external_body]
fn decode_lossy(chunk: &[u8]) -> (r: String)
    ensures
        r@ == lossy_text(chunk@),
        valid_utf8(chunk@) ==> r@ == decode_utf8(chunk@),
{
    String::from_utf8_lossy(chunk).into_owned()
}

/// Take a whole chunk of received bytes: returns how many were consumed (all
/// of them) and their text.
pub fn receive_chunk(chunk: &[u8]) -> (r: (usize, String))
    ensures
        r.0 == chunk@.len(),
        r.1@ == lossy_text(chunk@),
        valid_utf8(chunk@) ==> r.1@ == decode_utf8(chunk@),
{
    (chunk.len(), decode_lossy(chunk))
}

/// The texts of well-formed chunks, joined in the order they arrived.
pub open spec fn chunk_texts(chunks: Seq<Seq<u8>>) -> Seq<char>
    decreases chunks.len(),
{
    if chunks.len() == 0 {
        Seq::empty()
    } else {
        decode_utf8(chunks.first()) + chunk_texts(chunks.drop_first())
    }
}

proof fn lemma_decode_concat(b1: Seq<u8>, b2: Seq<u8>)
    requires
        valid_utf8(b1),
        valid_utf8(b2),
    ensures
        valid_utf8(b1 + b2),
        decode_utf8(b1 + b2) == decode_utf8(b1) + decode_utf8(b2),
    decreases b1.len(),
{
    valid_utf8_concat(b1, b2);
    if b1.len() == 0 {
        assert(b1 + b2 =~= b2);
        assert(decode_utf8(b1) + decode_utf8(b2) =~= decode_utf8(b2));
    } else {
        let rest = pop_first_scalar(b1);
        assert(pop_first_scalar(b1 + b2) =~= rest + b2);
        lemma_decode_concat(rest, b2);
        assert(decode_utf8(b1 + b2) =~= decode_utf8(b1) + decode_utf8(b2));
    }
}

/// A response that arrives in well-formed chunks, each emitted as its own
/// text, is emitted whole: the joined texts are the text of the joined bytes,
/// with nothing dropped or repeated.
pub proof fn lemma_chunks_join(chunks: Seq<Seq<u8>>)
    requires
        forall|i: int| 0 <= i < chunks.len() ==> valid_utf8(#[trigger] chunks[i]),
    ensures
        valid_utf8(chunks.flatten()),
        chunk_texts(chunks) == decode_utf8(chunks.flatten()),
    decreases chunks.len(),
{
    if chunks.len() > 0 {
        let rest = chunks.drop_first();
        assert forall|i: int| 0 <= i < rest.len() implies valid_utf8(#[trigger] rest[i]) by {
            assert(rest[i] == chunks[i + 1]);
        }
        lemma_chunks_join(rest);
        assert(valid_utf8(chunks[0]));
        lemma_decode_concat(chunks.first(), rest.flatten());
    }
}

/// Prepare a fetch of `target` from `local_port`: fails with `InvalidUrl`
/// exactly when the target has no host, before any socket exists.
pub fn plan_with_port(target: &HttpTarget, local_port: u16) -> (r: Result<FetchPlan, UpstreamError>)
    ensures
        r matches Err(UpstreamError::InvalidUrl) <==> target.host is None,
        r is Err ==> r matches Err(UpstreamError::InvalidUrl),
        r matches Ok(p) ==> {
            &&& target.host matches Some(h) && p.request@ == request_text(target.path@, h@)
            &&& p.remote_port == match target.port {
                Some(port) => port,
                None => DEFAULT_HTTP_PORT,
            }
            &&& p.local_port == local_port
        },
{
    match &target.host {
        None => Err(UpstreamError::InvalidUrl),
        Some(host) => {
            let remote_port = match target.port {
                Some(port) => port,
                None => DEFAULT_HTTP_PORT,
            };
            Ok(
                FetchPlan {
                    request: request(target.path.as_str(), host.as_str()),
                    remote_port,
                    local_port,
                },
            )
        },
    }
}

/// Prepare a fetch of `target` from a random ephemeral port.
pub fn plan(target: &HttpTarget) -> (r: Result<FetchPlan, UpstreamError>)
    ensures
        r matches Err(UpstreamError::InvalidUrl) <==> target.host is None,
        r is Err ==> r matches Err(UpstreamError::InvalidUrl),
        r matches Ok(p) ==> {
            &&& target.host matches Some(h) && p.request@ == request_text(target.path@, h@)
            &&& p.remote_port == match target.port {
                Some(port) => port,
                None => DEFAULT_HTTP_PORT,
            }
            &&& EPHEMERAL_FIRST <= p.local_port
        },
{
    plan_with_port(target, random_port())
}

/// Where a fetch stands.
#[derive(Debug, Clone, Copy, PartialEq, Eq, Structural)]
pub enum FetchState {
    /// No connection has been asked for yet.
    Connect,
    /// Connecting; the request is not sent yet.
    Request,
    /// The request is sent; the response is being read.
    Response,
    /// The peer closed and the whole response has been read.
    Done,
}

/// What the TCP socket reports on one turn of the poll loop.
#[derive(Debug, Clone, Copy, PartialEq, Eq, Structural)]
pub struct SocketStatus {
    /// The socket is connecting or connected.
    pub is_active: bool,
    /// Data may be sent.
    pub may_send: bool,
    /// Received data is waiting to be read.
    pub can_recv: bool,
    /// Data may still arrive.
    pub may_recv: bool,
}

/// What the poll loop does on this turn.
#[derive(Debug, Clone, Copy, PartialEq, Eq, Structural)]
pub enum FetchAction {
    /// Connect to the server from the planned ephemeral port.
    Connect,
    /// Send the whole request in one call.
    SendRequest,
    /// Drain every byte waiting in the socket and emit it as text.
    Receive,
    /// Leave the loop: the response is complete.
    Finish,
    /// Nothing to do until the interface has progressed.
    Wait,
}

/// One step of the fetch: from the state and the socket's report, the next
/// state and the action to take.
pub open spec fn step(state: FetchState, status: SocketStatus) -> (FetchState, FetchAction) {
    match state {
        FetchState::Connect => if !status.is_active {
            (FetchState::Request, FetchAction::Connect)
        } else {
            (FetchState::Connect, FetchAction::Wait)
        },
        FetchState::Request => if status.may_send {
            (FetchState::Response, FetchAction::SendRequest)
        } else {
            (FetchState::Request, FetchAction::Wait)
        },
        FetchState::Response => if status.can_recv {
            (FetchState::Response, FetchAction::Receive)
        } else if !status.may_recv {
            (FetchState::Done, FetchAction::Finish)
        } else {
            (FetchState::Response, FetchAction::Wait)
        },
        FetchState::Done => (FetchState::Done, FetchAction::Finish),
    }
}

/// The actions taken, turn by turn, from `state` on the reports `reports`,
/// up to and including the one that ends the loop.
pub open spec fn actions(state: FetchState, reports: Seq<SocketStatus>) -> Seq<FetchAction>
    decreases reports.len(),
{
    if reports.len() == 0 {
        Seq::empty()
    } else {
        let (next, action) = step(state, reports[0]);
        if action == FetchAction::Finish {
            seq![action]
        } else {
            seq![action] + actions(next, reports.drop_first())
        }
    }
}

/// Decide the next state and action of the fetch from the socket's report.
pub fn next_step(state: FetchState, status: SocketStatus) -> (r: (FetchState, FetchAction))
    ensures
        r == step(state, status),
{
    match state {
        FetchState::Connect => if !status.is_active {
            (FetchState::Request, FetchAction::Connect)
        } else {
            (FetchState::Connect, FetchAction::Wait)
        },
        FetchState::Request => if status.may_send {
            (FetchState::Response, FetchAction::SendRequest)
        } else {
            (FetchState::Request, FetchAction::Wait)
        },
        FetchState::Response => if status.can_recv {
            (FetchState::Response, FetchAction::Receive)
        } else if !status.may_recv {
            (FetchState::Done, FetchAction::Finish)
        } else {
            (FetchState::Response, FetchAction::Wait)
        },
        FetchState::Done => (FetchState::Done, FetchAction::Finish),
    }
}

/// A fetch that starts from the beginning sends its request only after it has
/// asked to connect, and only on a turn where the socket reports that it may
/// send; it finishes only on a turn where the socket reports that no more
/// data can arrive.
pub proof fn lemma_fetch_order(reports: Seq<SocketStatus>)
    ensures
        forall|i: int|
            0 <= i < actions(FetchState::Connect, reports).len() && #[trigger] actions(
                FetchState::Connect,
                reports,
            )[i] == FetchAction::SendRequest ==> reports[i].may_send && exists|j: int|
                0 <= j < i && actions(FetchState::Connect, reports)[j] == FetchAction::Connect,
        forall|i: int|
            0 <= i < actions(FetchState::Connect, reports).len() && #[trigger] actions(
                FetchState::Connect,
                reports,
            )[i] == FetchAction::Finish ==> !reports[i].may_recv,
{
    lemma_send_after_connect(FetchState::Connect, reports);
    lemma_finish_when_closed(FetchState::Connect, reports);
}

proof fn lemma_actions_len(state: FetchState, reports: Seq<SocketStatus>)
    ensures
        actions(state, reports).len() <= reports.len(),
    decreases reports.len(),
{
    if reports.len() > 0 {
        let (next, _) = step(state, reports[0]);
        lemma_actions_len(next, reports.drop_first());
    }
}

proof fn lemma_send_after_connect(state: FetchState, reports: Seq<SocketStatus>)
    ensures
        forall|i: int|
            0 <= i < actions(state, reports).len() && #[trigger] actions(state, reports)[i]
                == FetchAction::SendRequest ==> reports[i].may_send && (state
                == FetchState::Connect ==> exists|j: int|
                0 <= j < i && actions(state, reports)[j] == FetchAction::Connect),
    decreases reports.len(),
{
    lemma_actions_len(state, reports);
    if reports.len() > 0 {
        let (next, action) = step(state, reports[0]);
        let rest = reports.drop_first();
        if action != FetchAction::Finish {
            lemma_send_after_connect(next, rest);
            let all = actions(state, reports);
            assert(all == seq![action] + actions(next, rest));
            assert forall|i: int|
                0 <= i < all.len() && #[trigger] all[i] == FetchAction::SendRequest implies reports[i].may_send
                    && (state == FetchState::Connect ==> exists|j: int|
                    0 <= j < i && all[j] == FetchAction::Connect) by {
                if i > 0 {
                    assert(all[i] == actions(next, rest)[i - 1]);
                    assert(rest[i - 1] == reports[i]);
                    if state == FetchState::Connect {
                        if action == FetchAction::Connect {
                            assert(all[0] == FetchAction::Connect);
                        } else {
                            let j = choose|j: int|
                                0 <= j < i - 1 && actions(next, rest)[j] == FetchAction::Connect;
                            assert(all[j + 1] == FetchAction::Connect);
                        }
                    }
                }
            }
        }
    }
}

proof fn lemma_finish_when_closed(state: FetchState, reports: Seq<SocketStatus>)
    requires
        state != FetchState::Done,
    ensures
        forall|i: int|
            0 <= i < actions(state, reports).len() && #[trigger] actions(state, reports)[i]
                == FetchAction::Finish ==> !reports[i].may_recv,
    decreases reports.len(),
{
    lemma_actions_len(state, reports);
    if reports.len() > 0 {
        let (next, action) = step(state, reports[0]);
        let rest = reports.drop_first();
        if action != FetchAction::Finish {
            lemma_finish_when_closed(next, rest);
            let all = actions(state, reports);
            assert(all == seq![action] + actions(next, rest));
            assert forall|i: int|
                0 <= i < all.len() && #[trigger] all[i] == FetchAction::Finish implies !reports[i].may_recv by {
                assert(i > 0);
                assert(all[i] == actions(next, rest)[i - 1]);
                assert(rest[i - 1] == reports[i]);
            }
        }
    }
}

} // verus!
