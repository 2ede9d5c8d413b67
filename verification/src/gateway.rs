//! The gateway's transport-independent vocabulary: the commands that HTTP
//! routes, WebSocket events and TCP opcodes name, the request payloads, and
//! how a TCP session is opened.
use vstd::prelude::*;

use crate::auth::CallerContext;
use crate::events::MutationType;
use crate::lexer::{chars_of, is_whitespace, string_from_chars};
use crate::text::concat_str;
use crate::types::RecordId;
use crate::wire::{
    negotiate_handshake, negotiation_outcome, ProtocolRange, ProtocolVersion, SessionHello,
    SessionWelcome, WireError, wire_error_text,
};

verus! {

pub const OPCODE_QUERY_TEXT: u16 = 0x01;

pub const OPCODE_EXPLAIN_TEXT: u16 = 0x02;

pub const OPCODE_WATCH_START_TEXT: u16 = 0x03;

pub const OPCODE_WATCH_POLL: u16 = 0x04;

pub const OPCODE_WATCH_STOP: u16 = 0x05;

pub const OPCODE_INGEST: u16 = 0x06;

pub const OPCODE_DELETE: u16 = 0x07;

pub const OPCODE_DURABLE_MUTATION_POLL: u16 = 0x08;

pub const OPCODE_DURABLE_MUTATION_COMMIT: u16 = 0x09;

#[derive(Debug, Clone, Copy, PartialEq, Eq, Structural)]
pub enum TransportKind {
    Http,
    WebSocket,
    Tcp,
}

#[derive(Debug, Clone, PartialEq, Eq)]
pub struct GatewayMetadata {
    pub request_id: String,
    pub transport: TransportKind,
}

#[derive(Debug, Clone, PartialEq, Eq)]
pub struct TextQueryCompileConfig {
    pub top_k_default: usize,
    pub semantic_embedding_field: String,
    pub semantic_embedding_dims: usize,
}

impl Default for TextQueryCompileConfig {
    fn default() -> (r: Self)
        ensures
            r.top_k_default == 100,
            r.semantic_embedding_field@ == "text_embedding"@,
            r.semantic_embedding_dims == 16,
    {
        TextQueryCompileConfig {
            top_k_default: 100,
            semantic_embedding_field: String::from_str("text_embedding"),
            semantic_embedding_dims: 16,
        }
    }
}

#[derive(Debug, Clone, Copy, PartialEq, Eq, Structural)]
pub struct GatewayDurableMutationOffset {
    pub partition: u32,
    pub committed_sequence: u64,
}

#[derive(Debug, Clone, PartialEq, Eq)]
pub struct GatewayDurableMutationRecord {
    pub partition: u32,
    pub sequence: u64,
    pub commit_sequence: u64,
    pub record_id: RecordId,
    pub mutation_type: MutationType,
}

#[derive(Debug, Clone, PartialEq, Eq)]
pub struct TcpGatewayFrame {
    pub request_id: String,
    pub opcode: u16,
    pub payload: Vec<u8>,
}

#[derive(Debug, Clone, Copy, PartialEq, Eq, Structural)]
pub struct TcpGatewaySession {
    pub negotiated_version: ProtocolVersion,
}

#[derive(Debug, Clone, PartialEq, Eq)]
pub struct QueryTextPayload {
    pub caller: Option<CallerContext>,
    pub tenant_id: String,
    pub query_text: String,
    pub compile: Option<TextQueryCompileConfig>,
}

#[derive(Debug, Clone, PartialEq, Eq)]
pub struct WatchPollPayload {
    pub subscription_id: u64,
    pub max_events: Option<usize>,
}

#[derive(Debug, Clone, PartialEq, Eq)]
pub struct WatchStopPayload {
    pub subscription_id: u64,
}

#[derive(Debug, Clone, PartialEq, Eq)]
pub struct DeletePayload {
    pub caller: Option<CallerContext>,
    pub tenant_id: String,
    pub record_id: u64,
}

#[derive(Debug, Clone, PartialEq, Eq)]
pub struct DurableMutationPollPayload {
    pub caller: Option<CallerContext>,
    pub tenant_id: String,
    pub consumer_group: String,
    pub max_events_per_partition: Option<usize>,
}

#[derive(Debug, Clone, Copy, PartialEq, Eq, Structural)]
pub struct DurableMutationOffsetPayload {
    pub partition: u32,
    pub committed_sequence: u64,
}

#[derive(Debug, Clone, PartialEq, Eq)]
pub struct DurableMutationCommitPayload {
    pub caller: Option<CallerContext>,
    pub tenant_id: String,
    pub consumer_group: String,
    pub offsets: Vec<DurableMutationOffsetPayload>,
}

/// The command a request names.
#[derive(Debug, Clone, Copy, PartialEq, Eq, Structural)]
pub enum GatewayRoute {
    QueryText,
    ExplainText,
    WatchStartText,
    WatchPoll,
    WatchStop,
    Ingest,
    Delete,
    DurableMutationPoll,
    DurableMutationCommit,
}

/// A request naming no command.
#[derive(Debug, Clone, PartialEq, Eq)]
pub enum GatewayRouteError {
    UnsupportedHttpRoute { method: String, path: String },
    UnsupportedWebSocketEvent(String),
    UnsupportedTcpOpcode(u16),
}

/// The bound a poll uses: the one requested, else one hundred.
pub fn max_events_or_default(requested: Option<usize>) -> (r: usize)
    ensures
        r == (match requested {
            Some(n) => n,
            None => 100,
        }),
{
    match requested {
        Some(n) => n,
        None => 100,
    }
}

/// Two texts are equal.
pub fn same_text(a: &str, b: &str) -> (r: bool)
    ensures
        r == (a@ == b@),
{
    let ca = chars_of(a);
    let cb = chars_of(b);
    if ca.len() != cb.len() {
        return false;
    }
    let mut i: usize = 0;
    while i < ca.len()
        invariant
            ca@ == a@,
            cb@ == b@,
            ca@.len() == cb@.len(),
            i <= ca@.len(),
            forall|k: int| 0 <= k < i ==> ca@[k] == cb@[k],
        decreases ca@.len() - i,
    {
        if ca[i] != cb[i] {
            return false;
        }
        i = i + 1;
    }
    assert(ca@ =~= cb@);
    true
}

pub open spec fn ascii_upper(c: char) -> char {
    if 'a' <= c && c <= 'z' {
        ((c as u32) - 32) as char
    } else {
        c
    }
}

/// `str::to_ascii_uppercase`.
pub fn to_ascii_uppercase(s: &str) -> (r: String)
    ensures
        r@ == s@.map_values(|c: char| ascii_upper(c)),
{
    let cs = chars_of(s);
    let mut out: Vec<char> = Vec::new();
    let mut i: usize = 0;
    while i < cs.len()
        invariant
            cs@ == s@,
            i <= cs@.len(),
            out@ == cs@.take(i as int).map_values(|c: char| ascii_upper(c)),
        decreases cs@.len() - i,
    {
        let c = cs[i];
        let u = if 'a' <= c && c <= 'z' {
            ((c as u32) - 32) as u8 as char
        } else {
            c
        };
        out.push(u);
        assert(out@ =~= cs@.take(i + 1).map_values(|c: char| ascii_upper(c)));
        i = i + 1;
    }
    assert(cs@.take(cs@.len() as int) =~= cs@);
    string_from_chars(out.as_slice())
}

/// The command of an HTTP request: a POST to one of the known paths, with or
/// without the `/v1` prefix; with the description used in payload errors.
pub open spec fn http_route_spec(method: Seq<char>, path: Seq<char>) -> Option<(GatewayRoute, Seq<char>)> {
    if method.map_values(|c: char| ascii_upper(c)) != "POST"@ {
        None
    } else if path == "/v1/query/text"@ || path == "/query/text"@ {
        Some((GatewayRoute::QueryText, "http query.text"@))
    } else if path == "/v1/query/explain"@ || path == "/query/explain"@ {
        Some((GatewayRoute::ExplainText, "http query.explain"@))
    } else if path == "/v1/watch/start"@ || path == "/watch/start"@ {
        Some((GatewayRoute::WatchStartText, "http watch.start"@))
    } else if path == "/v1/watch/poll"@ || path == "/watch/poll"@ {
        Some((GatewayRoute::WatchPoll, "http watch.poll"@))
    } else if path == "/v1/watch/stop"@ || path == "/watch/stop"@ {
        Some((GatewayRoute::WatchStop, "http watch.stop"@))
    } else if path == "/v1/records/ingest"@ || path == "/records/ingest"@ {
        Some((GatewayRoute::Ingest, "http records.ingest"@))
    } else if path == "/v1/records/delete"@ || path == "/records/delete"@ {
        Some((GatewayRoute::Delete, "http records.delete"@))
    } else if path == "/v1/streams/mutations/poll"@ || path == "/streams/mutations/poll"@ {
        Some((GatewayRoute::DurableMutationPoll, "http streams.mutations.poll"@))
    } else if path == "/v1/streams/mutations/commit"@ || path == "/streams/mutations/commit"@ {
        Some((GatewayRoute::DurableMutationCommit, "http streams.mutations.commit"@))
    } else {
        None
    }
}

/// Routes an HTTP request; an unknown route is reported with the method in
/// upper case.
pub fn route_http(method: &str, path: &str) -> (r: Result<(GatewayRoute, &'static str), GatewayRouteError>)
    ensures
        match (r, http_route_spec(method@, path@)) {
            (Ok((route, context)), Some((expected, text))) => route == expected && context@ == text,
            (Err(GatewayRouteError::UnsupportedHttpRoute { method: m, path: p }), None) => m@
                == method@.map_values(|c: char| ascii_upper(c)) && p@ == path@,
            _ => false,
        },
{
    let upper = to_ascii_uppercase(method);
    let is_post = same_text(upper.as_str(), "POST");
    if is_post {
        if same_text(path, "/v1/query/text") || same_text(path, "/query/text") {
            return Ok((GatewayRoute::QueryText, "http query.text"));
        } else if same_text(path, "/v1/query/explain") || same_text(path, "/query/explain") {
            return Ok((GatewayRoute::ExplainText, "http query.explain"));
        } else if same_text(path, "/v1/watch/start") || same_text(path, "/watch/start") {
            return Ok((GatewayRoute::WatchStartText, "http watch.start"));
        } else if same_text(path, "/v1/watch/poll") || same_text(path, "/watch/poll") {
            return Ok((GatewayRoute::WatchPoll, "http watch.poll"));
        } else if same_text(path, "/v1/watch/stop") || same_text(path, "/watch/stop") {
            return Ok((GatewayRoute::WatchStop, "http watch.stop"));
        } else if same_text(path, "/v1/records/ingest") || same_text(path, "/records/ingest") {
            return Ok((GatewayRoute::Ingest, "http records.ingest"));
        } else if same_text(path, "/v1/records/delete") || same_text(path, "/records/delete") {
            return Ok((GatewayRoute::Delete, "http records.delete"));
        } else if same_text(path, "/v1/streams/mutations/poll") || same_text(
            path,
            "/streams/mutations/poll",
        ) {
            return Ok((GatewayRoute::DurableMutationPoll, "http streams.mutations.poll"));
        } else if same_text(path, "/v1/streams/mutations/commit") || same_text(
            path,
            "/streams/mutations/commit",
        ) {
            return Ok((GatewayRoute::DurableMutationCommit, "http streams.mutations.commit"));
        }
    }
    Err(GatewayRouteError::UnsupportedHttpRoute { method: upper, path: String::from_str(path) })
}

/// The command of a WebSocket event, with the description used in payload
/// errors.
pub open spec fn websocket_route_spec(event: Seq<char>) -> Option<(GatewayRoute, Seq<char>)> {
    if event == "query.text"@ {
        Some((GatewayRoute::QueryText, "ws query.text"@))
    } else if event == "query.explain"@ {
        Some((GatewayRoute::ExplainText, "ws query.explain"@))
    } else if event == "watch.start"@ {
        Some((GatewayRoute::WatchStartText, "ws watch.start"@))
    } else if event == "watch.poll"@ {
        Some((GatewayRoute::WatchPoll, "ws watch.poll"@))
    } else if event == "watch.stop"@ {
        Some((GatewayRoute::WatchStop, "ws watch.stop"@))
    } else if event == "records.ingest"@ {
        Some((GatewayRoute::Ingest, "ws records.ingest"@))
    } else if event == "records.delete"@ {
        Some((GatewayRoute::Delete, "ws records.delete"@))
    } else if event == "streams.mutations.poll"@ {
        Some((GatewayRoute::DurableMutationPoll, "ws streams.mutations.poll"@))
    } else if event == "streams.mutations.commit"@ {
        Some((GatewayRoute::DurableMutationCommit, "ws streams.mutations.commit"@))
    } else {
        None
    }
}

pub fn route_websocket(event: &str) -> (r: Result<(GatewayRoute, &'static str), GatewayRouteError>)
    ensures
        match (r, websocket_route_spec(event@)) {
            (Ok((route, context)), Some((expected, text))) => route == expected && context@ == text,
            (Err(GatewayRouteError::UnsupportedWebSocketEvent(e)), None) => e@ == event@,
            _ => false,
        },
{
    if same_text(event, "query.text") {
        Ok((GatewayRoute::QueryText, "ws query.text"))
    } else if same_text(event, "query.explain") {
        Ok((GatewayRoute::ExplainText, "ws query.explain"))
    } else if same_text(event, "watch.start") {
        Ok((GatewayRoute::WatchStartText, "ws watch.start"))
    } else if same_text(event, "watch.poll") {
        Ok((GatewayRoute::WatchPoll, "ws watch.poll"))
    } else if same_text(event, "watch.stop") {
        Ok((GatewayRoute::WatchStop, "ws watch.stop"))
    } else if same_text(event, "records.ingest") {
        Ok((GatewayRoute::Ingest, "ws records.ingest"))
    } else if same_text(event, "records.delete") {
        Ok((GatewayRoute::Delete, "ws records.delete"))
    } else if same_text(event, "streams.mutations.poll") {
        Ok((GatewayRoute::DurableMutationPoll, "ws streams.mutations.poll"))
    } else if same_text(event, "streams.mutations.commit") {
        Ok((GatewayRoute::DurableMutationCommit, "ws streams.mutations.commit"))
    } else {
        Err(GatewayRouteError::UnsupportedWebSocketEvent(String::from_str(event)))
    }
}

/// The command of a TCP opcode, with the description used in payload errors.
pub open spec fn tcp_route_spec(opcode: u16) -> Option<(GatewayRoute, Seq<char>)> {
    if opcode == OPCODE_QUERY_TEXT {
        Some((GatewayRoute::QueryText, "tcp query.text"@))
    } else if opcode == OPCODE_EXPLAIN_TEXT {
        Some((GatewayRoute::ExplainText, "tcp query.explain"@))
    } else if opcode == OPCODE_WATCH_START_TEXT {
        Some((GatewayRoute::WatchStartText, "tcp watch.start"@))
    } else if opcode == OPCODE_WATCH_POLL {
        Some((GatewayRoute::WatchPoll, "tcp watch.poll"@))
    } else if opcode == OPCODE_WATCH_STOP {
        Some((GatewayRoute::WatchStop, "tcp watch.stop"@))
    } else if opcode == OPCODE_INGEST {
        Some((GatewayRoute::Ingest, "tcp records.ingest"@))
    } else if opcode == OPCODE_DELETE {
        Some((GatewayRoute::Delete, "tcp records.delete"@))
    } else if opcode == OPCODE_DURABLE_MUTATION_POLL {
        Some((GatewayRoute::DurableMutationPoll, "tcp streams.mutations.poll"@))
    } else if opcode == OPCODE_DURABLE_MUTATION_COMMIT {
        Some((GatewayRoute::DurableMutationCommit, "tcp streams.mutations.commit"@))
    } else {
        None
    }
}

pub fn route_tcp(opcode: u16) -> (r: Result<(GatewayRoute, &'static str), GatewayRouteError>)
    ensures
        match (r, tcp_route_spec(opcode)) {
            (Ok((route, context)), Some((expected, text))) => route == expected && context@ == text,
            (Err(GatewayRouteError::UnsupportedTcpOpcode(o)), None) => o == opcode,
            _ => false,
        },
{
    if opcode == OPCODE_QUERY_TEXT {
        Ok((GatewayRoute::QueryText, "tcp query.text"))
    } else if opcode == OPCODE_EXPLAIN_TEXT {
        Ok((GatewayRoute::ExplainText, "tcp query.explain"))
    } else if opcode == OPCODE_WATCH_START_TEXT {
        Ok((GatewayRoute::WatchStartText, "tcp watch.start"))
    } else if opcode == OPCODE_WATCH_POLL {
        Ok((GatewayRoute::WatchPoll, "tcp watch.poll"))
    } else if opcode == OPCODE_WATCH_STOP {
        Ok((GatewayRoute::WatchStop, "tcp watch.stop"))
    } else if opcode == OPCODE_INGEST {
        Ok((GatewayRoute::Ingest, "tcp records.ingest"))
    } else if opcode == OPCODE_DELETE {
        Ok((GatewayRoute::Delete, "tcp records.delete"))
    } else if opcode == OPCODE_DURABLE_MUTATION_POLL {
        Ok((GatewayRoute::DurableMutationPoll, "tcp streams.mutations.poll"))
    } else if opcode == OPCODE_DURABLE_MUTATION_COMMIT {
        Ok((GatewayRoute::DurableMutationCommit, "tcp streams.mutations.commit"))
    } else {
        Err(GatewayRouteError::UnsupportedTcpOpcode(opcode))
    }
}

/// The text a gateway reports when the handshake finds no common version.
pub fn negotiation_failure_text(e: &WireError) -> (r: String)
    ensures
        r@ == "protocol negotiation failed: "@ + wire_error_text(*e),
{
    let m = e.message();
    concat_str("protocol negotiation failed: ", m.as_str())
}

/// Opens a TCP session at the version the handshake negotiates.
pub fn establish_tcp_session(hello: &SessionHello, server_supported: ProtocolRange) -> (r: Result<
    (TcpGatewaySession, SessionWelcome),
    WireError,
>)
    ensures
        match r {
            Ok((session, welcome)) => negotiation_outcome(
                ProtocolRange { min: hello.min_version, max: hello.max_version },
                server_supported,
            ) == Ok::<ProtocolVersion, WireError>(welcome.negotiated_version)
                && session.negotiated_version == welcome.negotiated_version,
            Err(e) => negotiation_outcome(
                ProtocolRange { min: hello.min_version, max: hello.max_version },
                server_supported,
            ) == Err::<ProtocolVersion, WireError>(e),
        },
{
    match negotiate_handshake(hello, server_supported) {
        Ok(welcome) => Ok((TcpGatewaySession { negotiated_version: welcome.negotiated_version }, welcome)),
        Err(e) => Err(e),
    }
}

/// The position after the leading whitespace of `s` from `i`.
pub open spec fn skip_space(s: Seq<char>, i: int) -> int
    decreases s.len() - i,
{
    if 0 <= i < s.len() && is_whitespace(s[i]) {
        skip_space(s, i + 1)
    } else {
        i
    }
}

/// The end of `s` once trailing whitespace from `j` backwards is dropped.
pub open spec fn drop_trailing_space(s: Seq<char>, j: int) -> int
    decreases j,
{
    if 0 < j <= s.len() && is_whitespace(s[j - 1]) {
        drop_trailing_space(s, j - 1)
    } else {
        j
    }
}

/// `str::trim`: `s` without leading and trailing whitespace.
pub open spec fn trimmed(s: Seq<char>) -> Seq<char> {
    let a = skip_space(s, 0);
    let b = drop_trailing_space(s, s.len() as int);
    if a < b {
        s.subrange(a, b)
    } else {
        Seq::empty()
    }
}

/// A consumer group name: trimmed, and refused when nothing is left.
pub fn non_empty_trimmed(s: &str) -> (r: Option<String>)
    ensures
        match r {
            Some(t) => t@ == trimmed(s@) && t@.len() > 0,
            None => trimmed(s@).len() == 0,
        },
{
    let cs = chars_of(s);
    let n = cs.len();
    let mut a: usize = 0;
    while a < n && crate::lexer::is_whitespace_char(cs[a])
        invariant
            cs@ == s@,
            n == cs@.len(),
            a <= n,
            skip_space(cs@, a as int) == skip_space(cs@, 0),
        decreases n - a,
    {
        a = a + 1;
    }
    let mut b: usize = n;
    while b > 0 && crate::lexer::is_whitespace_char(cs[b - 1])
        invariant
            cs@ == s@,
            n == cs@.len(),
            b <= n,
            drop_trailing_space(cs@, b as int) == drop_trailing_space(cs@, n as int),
        decreases b,
    {
        b = b - 1;
    }
    if a < b {
        let t = string_from_chars(vstd::slice::slice_subrange(cs.as_slice(), a, b));
        Some(t)
    } else {
        None
    }
}

impl DurableMutationPollPayload {
    /// The payload with its consumer group trimmed; `None` where the group is
    /// blank.
    pub fn normalized(self) -> (r: Option<Self>)
        ensures
            match r {
                Some(p) => {
                    &&& p.consumer_group@ == trimmed(self.consumer_group@)
                    &&& p.consumer_group@.len() > 0
                    &&& p.caller == self.caller
                    &&& p.tenant_id == self.tenant_id
                    &&& p.max_events_per_partition == self.max_events_per_partition
                },
                None => trimmed(self.consumer_group@).len() == 0,
            },
    {
        match non_empty_trimmed(self.consumer_group.as_str()) {
            Some(group) => Some(
                DurableMutationPollPayload {
                    caller: self.caller,
                    tenant_id: self.tenant_id,
                    consumer_group: group,
                    max_events_per_partition: self.max_events_per_partition,
                },
            ),
            None => None,
        }
    }
}

impl DurableMutationCommitPayload {
    /// The payload with its consumer group trimmed; `None` where the group is
    /// blank.
    pub fn normalized(self) -> (r: Option<Self>)
        ensures
            match r {
                Some(p) => {
                    &&& p.consumer_group@ == trimmed(self.consumer_group@)
                    &&& p.consumer_group@.len() > 0
                    &&& p.caller == self.caller
                    &&& p.tenant_id == self.tenant_id
                    &&& p.offsets == self.offsets
                },
                None => trimmed(self.consumer_group@).len() == 0,
            },
    {
        match non_empty_trimmed(self.consumer_group.as_str()) {
            Some(group) => Some(
                DurableMutationCommitPayload {
                    caller: self.caller,
                    tenant_id: self.tenant_id,
                    consumer_group: group,
                    offsets: self.offsets,
                },
            ),
            None => None,
        }
    }
}

/// The command an HTTP route names, if any.
pub open spec fn http_command(path: Seq<char>) -> Option<GatewayRoute> {
    match http_route_spec("POST"@, path) {
        Some((r, _)) => Some(r),
        None => None,
    }
}

pub open spec fn websocket_command(event: Seq<char>) -> Option<GatewayRoute> {
    match websocket_route_spec(event) {
        Some((r, _)) => Some(r),
        None => None,
    }
}

pub open spec fn tcp_command(opcode: u16) -> Option<GatewayRoute> {
    match tcp_route_spec(opcode) {
        Some((r, _)) => Some(r),
        None => None,
    }
}

/// Every command of the gateway is named on all three transports: some HTTP
/// path (posted), some WebSocket event and some TCP opcode lead to it.
pub proof fn lemma_every_command_on_every_transport(route: GatewayRoute)
    ensures
        exists|path: Seq<char>| #[trigger] http_command(path) == Some(route),
        exists|event: Seq<char>| #[trigger] websocket_command(event) == Some(route),
        exists|opcode: u16| #[trigger] tcp_command(opcode) == Some(route),
{
    reveal_strlit("POST");
    reveal_strlit("/v1/query/text");
    reveal_strlit("/query/text");
    reveal_strlit("/v1/query/explain");
    reveal_strlit("/query/explain");
    reveal_strlit("/v1/watch/start");
    reveal_strlit("/watch/start");
    reveal_strlit("/v1/watch/poll");
    reveal_strlit("/watch/poll");
    reveal_strlit("/v1/watch/stop");
    reveal_strlit("/watch/stop");
    reveal_strlit("/v1/records/ingest");
    reveal_strlit("/records/ingest");
    reveal_strlit("/v1/records/delete");
    reveal_strlit("/records/delete");
    reveal_strlit("/v1/streams/mutations/poll");
    reveal_strlit("/streams/mutations/poll");
    reveal_strlit("/v1/streams/mutations/commit");
    reveal_strlit("/streams/mutations/commit");
    reveal_strlit("query.text");
    reveal_strlit("query.explain");
    reveal_strlit("watch.start");
    reveal_strlit("watch.poll");
    reveal_strlit("watch.stop");
    reveal_strlit("records.ingest");
    reveal_strlit("records.delete");
    reveal_strlit("streams.mutations.poll");
    reveal_strlit("streams.mutations.commit");
    assert("POST"@.map_values(|c: char| ascii_upper(c)) =~= "POST"@);
    match route {
        GatewayRoute::QueryText => {
            assert(http_command("/v1/query/text"@) == Some(route));
            assert(websocket_command("query.text"@) == Some(route));
            assert(tcp_command(OPCODE_QUERY_TEXT) == Some(route));
        },
        GatewayRoute::ExplainText => {
            assert("/v1/query/explain"@.len() != "/v1/query/text"@.len());
            assert("/v1/query/explain"@.len() != "/query/text"@.len());
            assert(http_command("/v1/query/explain"@) == Some(route));
            assert("query.explain"@.len() != "query.text"@.len());
            assert(websocket_command("query.explain"@) == Some(route));
            assert(tcp_command(OPCODE_EXPLAIN_TEXT) == Some(route));
        },
        GatewayRoute::WatchStartText => {
            assert("/v1/watch/start"@.len() != "/v1/query/text"@.len());
            assert("/v1/watch/start"@.len() != "/query/text"@.len());
            assert("/v1/watch/start"@.len() != "/v1/query/explain"@.len());
            assert("/v1/watch/start"@.len() != "/query/explain"@.len());
            assert(http_command("/v1/watch/start"@) == Some(route));
            assert("watch.start"@.len() != "query.text"@.len());
            assert("watch.start"@.len() != "query.explain"@.len());
            assert(websocket_command("watch.start"@) == Some(route));
            assert(tcp_command(OPCODE_WATCH_START_TEXT) == Some(route));
        },
        GatewayRoute::WatchPoll => {
            assert("/v1/watch/poll"@[4] != "/v1/query/text"@[4]);
            assert("/v1/watch/poll"@.len() != "/query/text"@.len());
            assert("/v1/watch/poll"@.len() != "/v1/query/explain"@.len());
            assert("/v1/watch/poll"@[1] != "/query/explain"@[1]);
            assert("/v1/watch/poll"@.len() != "/v1/watch/start"@.len());
            assert("/v1/watch/poll"@.len() != "/watch/start"@.len());
            assert(http_command("/v1/watch/poll"@) == Some(route));
            assert("watch.poll"@[0] != "query.text"@[0]);
            assert("watch.poll"@.len() != "query.explain"@.len());
            assert("watch.poll"@.len() != "watch.start"@.len());
            assert(websocket_command("watch.poll"@) == Some(route));
            assert(tcp_command(OPCODE_WATCH_POLL) == Some(route));
        },
        GatewayRoute::WatchStop => {
            assert("/v1/watch/stop"@[4] != "/v1/query/text"@[4]);
            assert("/v1/watch/stop"@.len() != "/query/text"@.len());
            assert("/v1/watch/stop"@.len() != "/v1/query/explain"@.len());
            assert("/v1/watch/stop"@[1] != "/query/explain"@[1]);
            assert("/v1/watch/stop"@.len() != "/v1/watch/start"@.len());
            assert("/v1/watch/stop"@.len() != "/watch/start"@.len());
            assert("/v1/watch/stop"@[10] != "/v1/watch/poll"@[10]);
            assert("/v1/watch/stop"@.len() != "/watch/poll"@.len());
            assert(http_command("/v1/watch/stop"@) == Some(route));
            assert("watch.stop"@[0] != "query.text"@[0]);
            assert("watch.stop"@.len() != "query.explain"@.len());
            assert("watch.stop"@.len() != "watch.start"@.len());
            assert("watch.stop"@[6] != "watch.poll"@[6]);
            assert(websocket_command("watch.stop"@) == Some(route));
            assert(tcp_command(OPCODE_WATCH_STOP) == Some(route));
        },
        GatewayRoute::Ingest => {
            assert("/v1/records/ingest"@.len() != "/v1/query/text"@.len());
            assert("/v1/records/ingest"@.len() != "/query/text"@.len());
            assert("/v1/records/ingest"@.len() != "/v1/query/explain"@.len());
            assert("/v1/records/ingest"@.len() != "/query/explain"@.len());
            assert("/v1/records/ingest"@.len() != "/v1/watch/start"@.len());
            assert("/v1/records/ingest"@.len() != "/watch/start"@.len());
            assert("/v1/records/ingest"@.len() != "/v1/watch/poll"@.len());
            assert("/v1/records/ingest"@.len() != "/watch/poll"@.len());
            assert("/v1/records/ingest"@.len() != "/v1/watch/stop"@.len());
            assert("/v1/records/ingest"@.len() != "/watch/stop"@.len());
            assert(http_command("/v1/records/ingest"@) == Some(route));
            assert("records.ingest"@.len() != "query.text"@.len());
            assert("records.ingest"@.len() != "query.explain"@.len());
            assert("records.ingest"@.len() != "watch.start"@.len());
            assert("records.ingest"@.len() != "watch.poll"@.len());
            assert("records.ingest"@.len() != "watch.stop"@.len());
            assert(websocket_command("records.ingest"@) == Some(route));
            assert(tcp_command(OPCODE_INGEST) == Some(route));
        },
        GatewayRoute::Delete => {
            assert("/v1/records/delete"@.len() != "/v1/query/text"@.len());
            assert("/v1/records/delete"@.len() != "/query/text"@.len());
            assert("/v1/records/delete"@.len() != "/v1/query/explain"@.len());
            assert("/v1/records/delete"@.len() != "/query/explain"@.len());
            assert("/v1/records/delete"@.len() != "/v1/watch/start"@.len());
            assert("/v1/records/delete"@.len() != "/watch/start"@.len());
            assert("/v1/records/delete"@.len() != "/v1/watch/poll"@.len());
            assert("/v1/records/delete"@.len() != "/watch/poll"@.len());
            assert("/v1/records/delete"@.len() != "/v1/watch/stop"@.len());
            assert("/v1/records/delete"@.len() != "/watch/stop"@.len());
            assert("/v1/records/delete"@[12] != "/v1/records/ingest"@[12]);
            assert("/v1/records/delete"@.len() != "/records/ingest"@.len());
            assert(http_command("/v1/records/delete"@) == Some(route));
            assert("records.delete"@.len() != "query.text"@.len());
            assert("records.delete"@.len() != "query.explain"@.len());
            assert("records.delete"@.len() != "watch.start"@.len());
            assert("records.delete"@.len() != "watch.poll"@.len());
            assert("records.delete"@.len() != "watch.stop"@.len());
            assert("records.delete"@[8] != "records.ingest"@[8]);
            assert(websocket_command("records.delete"@) == Some(route));
            assert(tcp_command(OPCODE_DELETE) == Some(route));
        },
        GatewayRoute::DurableMutationPoll => {
            assert("/v1/streams/mutations/poll"@.len() != "/v1/query/text"@.len());
            assert("/v1/streams/mutations/poll"@.len() != "/query/text"@.len());
            assert("/v1/streams/mutations/poll"@.len() != "/v1/query/explain"@.len());
            assert("/v1/streams/mutations/poll"@.len() != "/query/explain"@.len());
            assert("/v1/streams/mutations/poll"@.len() != "/v1/watch/start"@.len());
            assert("/v1/streams/mutations/poll"@.len() != "/watch/start"@.len());
            assert("/v1/streams/mutations/poll"@.len() != "/v1/watch/poll"@.len());
            assert("/v1/streams/mutations/poll"@.len() != "/watch/poll"@.len());
            assert("/v1/streams/mutations/poll"@.len() != "/v1/watch/stop"@.len());
            assert("/v1/streams/mutations/poll"@.len() != "/watch/stop"@.len());
            assert("/v1/streams/mutations/poll"@.len() != "/v1/records/ingest"@.len());
            assert("/v1/streams/mutations/poll"@.len() != "/records/ingest"@.len());
            assert("/v1/streams/mutations/poll"@.len() != "/v1/records/delete"@.len());
            assert("/v1/streams/mutations/poll"@.len() != "/records/delete"@.len());
            assert(http_command("/v1/streams/mutations/poll"@) == Some(route));
            assert("streams.mutations.poll"@.len() != "query.text"@.len());
            assert("streams.mutations.poll"@.len() != "query.explain"@.len());
            assert("streams.mutations.poll"@.len() != "watch.start"@.len());
            assert("streams.mutations.poll"@.len() != "watch.poll"@.len());
            assert("streams.mutations.poll"@.len() != "watch.stop"@.len());
            assert("streams.mutations.poll"@.len() != "records.ingest"@.len());
            assert("streams.mutations.poll"@.len() != "records.delete"@.len());
            assert(websocket_command("streams.mutations.poll"@) == Some(route));
            assert(tcp_command(OPCODE_DURABLE_MUTATION_POLL) == Some(route));
        },
        GatewayRoute::DurableMutationCommit => {
            assert("/v1/streams/mutations/commit"@.len() != "/v1/query/text"@.len());
            assert("/v1/streams/mutations/commit"@.len() != "/query/text"@.len());
            assert("/v1/streams/mutations/commit"@.len() != "/v1/query/explain"@.len());
            assert("/v1/streams/mutations/commit"@.len() != "/query/explain"@.len());
            assert("/v1/streams/mutations/commit"@.len() != "/v1/watch/start"@.len());
            assert("/v1/streams/mutations/commit"@.len() != "/watch/start"@.len());
            assert("/v1/streams/mutations/commit"@.len() != "/v1/watch/poll"@.len());
            assert("/v1/streams/mutations/commit"@.len() != "/watch/poll"@.len());
            assert("/v1/streams/mutations/commit"@.len() != "/v1/watch/stop"@.len());
            assert("/v1/streams/mutations/commit"@.len() != "/watch/stop"@.len());
            assert("/v1/streams/mutations/commit"@.len() != "/v1/records/ingest"@.len());
            assert("/v1/streams/mutations/commit"@.len() != "/records/ingest"@.len());
            assert("/v1/streams/mutations/commit"@.len() != "/v1/records/delete"@.len());
            assert("/v1/streams/mutations/commit"@.len() != "/records/delete"@.len());
            assert("/v1/streams/mutations/commit"@.len() != "/v1/streams/mutations/poll"@.len());
            assert("/v1/streams/mutations/commit"@.len() != "/streams/mutations/poll"@.len());
            assert(http_command("/v1/streams/mutations/commit"@) == Some(route));
            assert("streams.mutations.commit"@.len() != "query.text"@.len());
            assert("streams.mutations.commit"@.len() != "query.explain"@.len());
            assert("streams.mutations.commit"@.len() != "watch.start"@.len());
            assert("streams.mutations.commit"@.len() != "watch.poll"@.len());
            assert("streams.mutations.commit"@.len() != "watch.stop"@.len());
            assert("streams.mutations.commit"@.len() != "records.ingest"@.len());
            assert("streams.mutations.commit"@.len() != "records.delete"@.len());
            assert("streams.mutations.commit"@.len() != "streams.mutations.poll"@.len());
            assert(websocket_command("streams.mutations.commit"@) == Some(route));
            assert(tcp_command(OPCODE_DURABLE_MUTATION_COMMIT) == Some(route));
        },
    }
}

/// The HTTP path that names a WebSocket event: its dot-separated name as a
/// path.
pub open spec fn event_path(event: Seq<char>) -> Seq<char> {
    "/"@ + event.map_values(|c: char|
        if c == '.' {
            '/'
        } else {
            c
        })
}

/// A command has one name on both transports: a request posted (in any
/// letter case) to the path of a WebSocket event, with or without the `/v1`
/// prefix, is routed to the command of that event and described as an HTTP
/// request for that event.
pub proof fn lemma_http_paths_follow_websocket_events(method: Seq<char>, event: Seq<char>)
    requires
        websocket_route_spec(event) is Some,
        method.map_values(|c: char| ascii_upper(c)) == "POST"@,
    ensures
        http_route_spec(method, event_path(event)) == Some(
            (websocket_route_spec(event)->Some_0.0, "http "@ + event),
        ),
        http_route_spec(method, "/v1"@ + event_path(event)) == http_route_spec(
            method,
            event_path(event),
        ),
{
    reveal_strlit("/");
    reveal_strlit("/v1");
    reveal_strlit("http ");
    reveal_strlit("query.text");
    reveal_strlit("/query/text");
    reveal_strlit("/v1/query/text");
    reveal_strlit("http query.text");
    reveal_strlit("query.explain");
    reveal_strlit("/query/explain");
    reveal_strlit("/v1/query/explain");
    reveal_strlit("http query.explain");
    reveal_strlit("watch.start");
    reveal_strlit("/watch/start");
    reveal_strlit("/v1/watch/start");
    reveal_strlit("http watch.start");
    reveal_strlit("watch.poll");
    reveal_strlit("/watch/poll");
    reveal_strlit("/v1/watch/poll");
    reveal_strlit("http watch.poll");
    reveal_strlit("watch.stop");
    reveal_strlit("/watch/stop");
    reveal_strlit("/v1/watch/stop");
    reveal_strlit("http watch.stop");
    reveal_strlit("records.ingest");
    reveal_strlit("/records/ingest");
    reveal_strlit("/v1/records/ingest");
    reveal_strlit("http records.ingest");
    reveal_strlit("records.delete");
    reveal_strlit("/records/delete");
    reveal_strlit("/v1/records/delete");
    reveal_strlit("http records.delete");
    reveal_strlit("streams.mutations.poll");
    reveal_strlit("/streams/mutations/poll");
    reveal_strlit("/v1/streams/mutations/poll");
    reveal_strlit("http streams.mutations.poll");
    reveal_strlit("streams.mutations.commit");
    reveal_strlit("/streams/mutations/commit");
    reveal_strlit("/v1/streams/mutations/commit");
    reveal_strlit("http streams.mutations.commit");
    if event == "query.text"@ {
        assert(event_path(event) =~= "/query/text"@);
        assert("/v1"@ + event_path(event) =~= "/v1/query/text"@);
        assert("http "@ + event =~= "http query.text"@);
        assert(websocket_route_spec(event)->Some_0.0 == GatewayRoute::QueryText);
        assert(http_route_spec(method, "/query/text"@) == Some((GatewayRoute::QueryText, "http query.text"@)));
        assert(http_route_spec(method, "/v1/query/text"@) == Some((GatewayRoute::QueryText, "http query.text"@)));
    }
    if event == "query.explain"@ {
        assert(event_path(event) =~= "/query/explain"@);
        assert("/v1"@ + event_path(event) =~= "/v1/query/explain"@);
        assert("http "@ + event =~= "http query.explain"@);
        assert(websocket_route_spec(event)->Some_0.0 == GatewayRoute::ExplainText);
        assert("/query/explain"@[1] != "/v1/query/text"@[1]);
        assert(http_route_spec(method, "/query/explain"@) == Some((GatewayRoute::ExplainText, "http query.explain"@)));
        assert(http_route_spec(method, "/v1/query/explain"@) == Some((GatewayRoute::ExplainText, "http query.explain"@)));
    }
    if event == "watch.start"@ {
        assert(event_path(event) =~= "/watch/start"@);
        assert("/v1"@ + event_path(event) =~= "/v1/watch/start"@);
        assert("http "@ + event =~= "http watch.start"@);
        assert(websocket_route_spec(event)->Some_0.0 == GatewayRoute::WatchStartText);
        assert(http_route_spec(method, "/watch/start"@) == Some((GatewayRoute::WatchStartText, "http watch.start"@)));
        assert(http_route_spec(method, "/v1/watch/start"@) == Some((GatewayRoute::WatchStartText, "http watch.start"@)));
    }
    if event == "watch.poll"@ {
        assert(event_path(event) =~= "/watch/poll"@);
        assert("/v1"@ + event_path(event) =~= "/v1/watch/poll"@);
        assert("http "@ + event =~= "http watch.poll"@);
        assert("watch.poll"@[0] != "query.text"@[0]);
        assert(websocket_route_spec(event)->Some_0.0 == GatewayRoute::WatchPoll);
        assert("/watch/poll"@[1] != "/query/text"@[1]);
        assert("/v1/watch/poll"@[4] != "/v1/query/text"@[4]);
        assert("/v1/watch/poll"@[1] != "/query/explain"@[1]);
        assert(http_route_spec(method, "/watch/poll"@) == Some((GatewayRoute::WatchPoll, "http watch.poll"@)));
        assert(http_route_spec(method, "/v1/watch/poll"@) == Some((GatewayRoute::WatchPoll, "http watch.poll"@)));
    }
    if event == "watch.stop"@ {
        assert(event_path(event) =~= "/watch/stop"@);
        assert("/v1"@ + event_path(event) =~= "/v1/watch/stop"@);
        assert("http "@ + event =~= "http watch.stop"@);
        assert("watch.stop"@[0] != "query.text"@[0]);
        assert("watch.stop"@[6] != "watch.poll"@[6]);
        assert(websocket_route_spec(event)->Some_0.0 == GatewayRoute::WatchStop);
        assert("/watch/stop"@[1] != "/query/text"@[1]);
        assert("/watch/stop"@[7] != "/watch/poll"@[7]);
        assert("/v1/watch/stop"@[4] != "/v1/query/text"@[4]);
        assert("/v1/watch/stop"@[1] != "/query/explain"@[1]);
        assert("/v1/watch/stop"@[10] != "/v1/watch/poll"@[10]);
        assert(http_route_spec(method, "/watch/stop"@) == Some((GatewayRoute::WatchStop, "http watch.stop"@)));
        assert(http_route_spec(method, "/v1/watch/stop"@) == Some((GatewayRoute::WatchStop, "http watch.stop"@)));
    }
    if event == "records.ingest"@ {
        assert(event_path(event) =~= "/records/ingest"@);
        assert("/v1"@ + event_path(event) =~= "/v1/records/ingest"@);
        assert("http "@ + event =~= "http records.ingest"@);
        assert(websocket_route_spec(event)->Some_0.0 == GatewayRoute::Ingest);
        assert("/records/ingest"@[1] != "/v1/watch/start"@[1]);
        assert(http_route_spec(method, "/records/ingest"@) == Some((GatewayRoute::Ingest, "http records.ingest"@)));
        assert(http_route_spec(method, "/v1/records/ingest"@) == Some((GatewayRoute::Ingest, "http records.ingest"@)));
    }
    if event == "records.delete"@ {
        assert(event_path(event) =~= "/records/delete"@);
        assert("/v1"@ + event_path(event) =~= "/v1/records/delete"@);
        assert("http "@ + event =~= "http records.delete"@);
        assert("records.delete"@[8] != "records.ingest"@[8]);
        assert(websocket_route_spec(event)->Some_0.0 == GatewayRoute::Delete);
        assert("/records/delete"@[1] != "/v1/watch/start"@[1]);
        assert("/records/delete"@[9] != "/records/ingest"@[9]);
        assert("/v1/records/delete"@[12] != "/v1/records/ingest"@[12]);
        assert(http_route_spec(method, "/records/delete"@) == Some((GatewayRoute::Delete, "http records.delete"@)));
        assert(http_route_spec(method, "/v1/records/delete"@) == Some((GatewayRoute::Delete, "http records.delete"@)));
    }
    if event == "streams.mutations.poll"@ {
        assert(event_path(event) =~= "/streams/mutations/poll"@);
        assert("/v1"@ + event_path(event) =~= "/v1/streams/mutations/poll"@);
        assert("http "@ + event =~= "http streams.mutations.poll"@);
        assert(websocket_route_spec(event)->Some_0.0 == GatewayRoute::DurableMutationPoll);
        assert(http_route_spec(method, "/streams/mutations/poll"@) == Some((GatewayRoute::DurableMutationPoll, "http streams.mutations.poll"@)));
        assert(http_route_spec(method, "/v1/streams/mutations/poll"@) == Some((GatewayRoute::DurableMutationPoll, "http streams.mutations.poll"@)));
    }
    if event == "streams.mutations.commit"@ {
        assert(event_path(event) =~= "/streams/mutations/commit"@);
        assert("/v1"@ + event_path(event) =~= "/v1/streams/mutations/commit"@);
        assert("http "@ + event =~= "http streams.mutations.commit"@);
        assert(websocket_route_spec(event)->Some_0.0 == GatewayRoute::DurableMutationCommit);
        assert(http_route_spec(method, "/streams/mutations/commit"@) == Some((GatewayRoute::DurableMutationCommit, "http streams.mutations.commit"@)));
        assert(http_route_spec(method, "/v1/streams/mutations/commit"@) == Some((GatewayRoute::DurableMutationCommit, "http streams.mutations.commit"@)));
    }
}

/// Every HTTP route is the path of a WebSocket event, with or without the
/// `/v1` prefix, and leads to that event's command.
pub proof fn lemma_http_routes_are_event_paths(method: Seq<char>, path: Seq<char>)
    requires
        http_route_spec(method, path) is Some,
    ensures
        exists|event: Seq<char>|
            #[trigger] websocket_route_spec(event) is Some && (path == event_path(event) || path
                == "/v1"@ + event_path(event)) && http_route_spec(method, path)->Some_0.0
                == websocket_route_spec(event)->Some_0.0,
{
    reveal_strlit("/v1");
    reveal_strlit("/");
    if path == "/query/text"@ || path == "/v1/query/text"@ {
        reveal_strlit("query.text");
        assert(websocket_route_spec("query.text"@) is Some);
        lemma_http_paths_follow_websocket_events(method, "query.text"@);
        reveal_strlit("/query/text");
        reveal_strlit("/v1/query/text");
        assert(event_path("query.text"@) =~= "/query/text"@);
        assert("/v1"@ + event_path("query.text"@) =~= "/v1/query/text"@);
    }
    if path == "/query/explain"@ || path == "/v1/query/explain"@ {
        reveal_strlit("query.explain");
        assert(websocket_route_spec("query.explain"@) is Some);
        lemma_http_paths_follow_websocket_events(method, "query.explain"@);
        reveal_strlit("/query/explain");
        reveal_strlit("/v1/query/explain");
        assert(event_path("query.explain"@) =~= "/query/explain"@);
        assert("/v1"@ + event_path("query.explain"@) =~= "/v1/query/explain"@);
    }
    if path == "/watch/start"@ || path == "/v1/watch/start"@ {
        reveal_strlit("watch.start");
        assert(websocket_route_spec("watch.start"@) is Some);
        lemma_http_paths_follow_websocket_events(method, "watch.start"@);
        reveal_strlit("/watch/start");
        reveal_strlit("/v1/watch/start");
        assert(event_path("watch.start"@) =~= "/watch/start"@);
        assert("/v1"@ + event_path("watch.start"@) =~= "/v1/watch/start"@);
    }
    if path == "/watch/poll"@ || path == "/v1/watch/poll"@ {
        reveal_strlit("watch.poll");
        assert(websocket_route_spec("watch.poll"@) is Some);
        lemma_http_paths_follow_websocket_events(method, "watch.poll"@);
        reveal_strlit("/watch/poll");
        reveal_strlit("/v1/watch/poll");
        assert(event_path("watch.poll"@) =~= "/watch/poll"@);
        assert("/v1"@ + event_path("watch.poll"@) =~= "/v1/watch/poll"@);
    }
    if path == "/watch/stop"@ || path == "/v1/watch/stop"@ {
        reveal_strlit("watch.stop");
        assert(websocket_route_spec("watch.stop"@) is Some);
        lemma_http_paths_follow_websocket_events(method, "watch.stop"@);
        reveal_strlit("/watch/stop");
        reveal_strlit("/v1/watch/stop");
        assert(event_path("watch.stop"@) =~= "/watch/stop"@);
        assert("/v1"@ + event_path("watch.stop"@) =~= "/v1/watch/stop"@);
    }
    if path == "/records/ingest"@ || path == "/v1/records/ingest"@ {
        reveal_strlit("records.ingest");
        assert(websocket_route_spec("records.ingest"@) is Some);
        lemma_http_paths_follow_websocket_events(method, "records.ingest"@);
        reveal_strlit("/records/ingest");
        reveal_strlit("/v1/records/ingest");
        assert(event_path("records.ingest"@) =~= "/records/ingest"@);
        assert("/v1"@ + event_path("records.ingest"@) =~= "/v1/records/ingest"@);
    }
    if path == "/records/delete"@ || path == "/v1/records/delete"@ {
        reveal_strlit("records.delete");
        assert(websocket_route_spec("records.delete"@) is Some);
        lemma_http_paths_follow_websocket_events(method, "records.delete"@);
        reveal_strlit("/records/delete");
        reveal_strlit("/v1/records/delete");
        assert(event_path("records.delete"@) =~= "/records/delete"@);
        assert("/v1"@ + event_path("records.delete"@) =~= "/v1/records/delete"@);
    }
    if path == "/streams/mutations/poll"@ || path == "/v1/streams/mutations/poll"@ {
        reveal_strlit("streams.mutations.poll");
        assert(websocket_route_spec("streams.mutations.poll"@) is Some);
        lemma_http_paths_follow_websocket_events(method, "streams.mutations.poll"@);
        reveal_strlit("/streams/mutations/poll");
        reveal_strlit("/v1/streams/mutations/poll");
        assert(event_path("streams.mutations.poll"@) =~= "/streams/mutations/poll"@);
        assert("/v1"@ + event_path("streams.mutations.poll"@) =~= "/v1/streams/mutations/poll"@);
    }
    if path == "/streams/mutations/commit"@ || path == "/v1/streams/mutations/commit"@ {
        reveal_strlit("streams.mutations.commit");
        assert(websocket_route_spec("streams.mutations.commit"@) is Some);
        lemma_http_paths_follow_websocket_events(method, "streams.mutations.commit"@);
        reveal_strlit("/streams/mutations/commit");
        reveal_strlit("/v1/streams/mutations/commit");
        assert(event_path("streams.mutations.commit"@) =~= "/streams/mutations/commit"@);
        assert("/v1"@ + event_path("streams.mutations.commit"@) =~= "/v1/streams/mutations/commit"@);
    }
}

/// TCP and WebSocket name the same commands: a TCP opcode is described as a
/// TCP request for some event, and that WebSocket event leads to the same
/// command, described as a WebSocket request for it.
pub proof fn lemma_tcp_opcodes_follow_websocket_events(opcode: u16)
    requires
        tcp_route_spec(opcode) is Some,
    ensures
        exists|event: Seq<char>|
            tcp_route_spec(opcode)->Some_0.1 == "tcp "@ + event && #[trigger] websocket_route_spec(event)
                == Some((tcp_route_spec(opcode)->Some_0.0, "ws "@ + event)),
{
    reveal_strlit("tcp ");
    reveal_strlit("ws ");
    reveal_strlit("query.text");
    reveal_strlit("query.explain");
    reveal_strlit("watch.start");
    reveal_strlit("watch.poll");
    reveal_strlit("watch.stop");
    reveal_strlit("records.ingest");
    reveal_strlit("records.delete");
    reveal_strlit("streams.mutations.poll");
    reveal_strlit("streams.mutations.commit");
    if opcode == OPCODE_QUERY_TEXT {
        reveal_strlit("query.text");
        reveal_strlit("tcp query.text");
        reveal_strlit("ws query.text");

        assert("tcp "@ + "query.text"@ =~= "tcp query.text"@);
        assert("ws "@ + "query.text"@ =~= "ws query.text"@);
        assert(websocket_route_spec("query.text"@) == Some((tcp_route_spec(opcode)->Some_0.0, "ws query.text"@)));
    }
    if opcode == OPCODE_EXPLAIN_TEXT {
        reveal_strlit("query.explain");
        reveal_strlit("tcp query.explain");
        reveal_strlit("ws query.explain");

        assert("tcp "@ + "query.explain"@ =~= "tcp query.explain"@);
        assert("ws "@ + "query.explain"@ =~= "ws query.explain"@);
        assert(websocket_route_spec("query.explain"@) == Some((tcp_route_spec(opcode)->Some_0.0, "ws query.explain"@)));
    }
    if opcode == OPCODE_WATCH_START_TEXT {
        reveal_strlit("watch.start");
        reveal_strlit("tcp watch.start");
        reveal_strlit("ws watch.start");

        assert("tcp "@ + "watch.start"@ =~= "tcp watch.start"@);
        assert("ws "@ + "watch.start"@ =~= "ws watch.start"@);
        assert(websocket_route_spec("watch.start"@) == Some((tcp_route_spec(opcode)->Some_0.0, "ws watch.start"@)));
    }
    if opcode == OPCODE_WATCH_POLL {
        reveal_strlit("watch.poll");
        reveal_strlit("tcp watch.poll");
        reveal_strlit("ws watch.poll");
        assert("watch.poll"@[0] != "query.text"@[0]);
        assert("tcp "@ + "watch.poll"@ =~= "tcp watch.poll"@);
        assert("ws "@ + "watch.poll"@ =~= "ws watch.poll"@);
        assert(websocket_route_spec("watch.poll"@) == Some((tcp_route_spec(opcode)->Some_0.0, "ws watch.poll"@)));
    }
    if opcode == OPCODE_WATCH_STOP {
        reveal_strlit("watch.stop");
        reveal_strlit("tcp watch.stop");
        reveal_strlit("ws watch.stop");
        assert("watch.stop"@[0] != "query.text"@[0]);
        assert("watch.stop"@[6] != "watch.poll"@[6]);
        assert("tcp "@ + "watch.stop"@ =~= "tcp watch.stop"@);
        assert("ws "@ + "watch.stop"@ =~= "ws watch.stop"@);
        assert(websocket_route_spec("watch.stop"@) == Some((tcp_route_spec(opcode)->Some_0.0, "ws watch.stop"@)));
    }
    if opcode == OPCODE_INGEST {
        reveal_strlit("records.ingest");
        reveal_strlit("tcp records.ingest");
        reveal_strlit("ws records.ingest");

        assert("tcp "@ + "records.ingest"@ =~= "tcp records.ingest"@);
        assert("ws "@ + "records.ingest"@ =~= "ws records.ingest"@);
        assert(websocket_route_spec("records.ingest"@) == Some((tcp_route_spec(opcode)->Some_0.0, "ws records.ingest"@)));
    }
    if opcode == OPCODE_DELETE {
        reveal_strlit("records.delete");
        reveal_strlit("tcp records.delete");
        reveal_strlit("ws records.delete");
        assert("records.delete"@[8] != "records.ingest"@[8]);
        assert("tcp "@ + "records.delete"@ =~= "tcp records.delete"@);
        assert("ws "@ + "records.delete"@ =~= "ws records.delete"@);
        assert(websocket_route_spec("records.delete"@) == Some((tcp_route_spec(opcode)->Some_0.0, "ws records.delete"@)));
    }
    if opcode == OPCODE_DURABLE_MUTATION_POLL {
        reveal_strlit("streams.mutations.poll");
        reveal_strlit("tcp streams.mutations.poll");
        reveal_strlit("ws streams.mutations.poll");

        assert("tcp "@ + "streams.mutations.poll"@ =~= "tcp streams.mutations.poll"@);
        assert("ws "@ + "streams.mutations.poll"@ =~= "ws streams.mutations.poll"@);
        assert(websocket_route_spec("streams.mutations.poll"@) == Some((tcp_route_spec(opcode)->Some_0.0, "ws streams.mutations.poll"@)));
    }
    if opcode == OPCODE_DURABLE_MUTATION_COMMIT {
        reveal_strlit("streams.mutations.commit");
        reveal_strlit("tcp streams.mutations.commit");
        reveal_strlit("ws streams.mutations.commit");

        assert("tcp "@ + "streams.mutations.commit"@ =~= "tcp streams.mutations.commit"@);
        assert("ws "@ + "streams.mutations.commit"@ =~= "ws streams.mutations.commit"@);
        assert(websocket_route_spec("streams.mutations.commit"@) == Some((tcp_route_spec(opcode)->Some_0.0, "ws streams.mutations.commit"@)));
    }
}

} // verus!
