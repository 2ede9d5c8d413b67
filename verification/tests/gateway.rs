use idb::gateway::{
    DurableMutationCommitPayload, DurableMutationOffsetPayload, DurableMutationPollPayload,
    establish_tcp_session, max_events_or_default, non_empty_trimmed, route_http, route_tcp,
    route_websocket, GatewayRoute, GatewayRouteError, TextQueryCompileConfig,
    OPCODE_DURABLE_MUTATION_POLL, OPCODE_QUERY_TEXT,
};
use idb::server::{ScriptSessions, ServerConfig, TcpSessionId, TcpSessionTable};
use idb::wire::{ProtocolRange, ProtocolVersion, SessionHello};

fn hello(min: (u16, u16), max: (u16, u16)) -> SessionHello {
    SessionHello {
        client_name: "sdk-rust".to_string(),
        min_version: ProtocolVersion::new(min.0, min.1),
        max_version: ProtocolVersion::new(max.0, max.1),
    }
}

#[test]
fn http_routes_accept_both_prefixes_and_any_method_case() {
    assert_eq!(
        route_http("post", "/v1/query/text"),
        Ok((GatewayRoute::QueryText, "http query.text"))
    );
    assert_eq!(
        route_http("POST", "/streams/mutations/commit"),
        Ok((GatewayRoute::DurableMutationCommit, "http streams.mutations.commit"))
    );
}

#[test]
fn unsupported_http_route_is_rejected() {
    assert_eq!(
        route_http("get", "/v1/query/text"),
        Err(GatewayRouteError::UnsupportedHttpRoute {
            method: "GET".to_string(),
            path: "/v1/query/text".to_string()
        })
    );
    assert!(route_http("POST", "/v2/query/text").is_err());
}

#[test]
fn websocket_and_tcp_routes_name_the_same_commands() {
    assert_eq!(
        route_websocket("streams.mutations.poll"),
        Ok((GatewayRoute::DurableMutationPoll, "ws streams.mutations.poll"))
    );
    assert_eq!(
        route_tcp(OPCODE_DURABLE_MUTATION_POLL),
        Ok((GatewayRoute::DurableMutationPoll, "tcp streams.mutations.poll"))
    );
    assert_eq!(route_tcp(OPCODE_QUERY_TEXT).map(|r| r.0), Ok(GatewayRoute::QueryText));
    assert_eq!(
        route_websocket("query.nope"),
        Err(GatewayRouteError::UnsupportedWebSocketEvent("query.nope".to_string()))
    );
    assert_eq!(route_tcp(0x42), Err(GatewayRouteError::UnsupportedTcpOpcode(0x42)));
}

#[test]
fn poll_bounds_default_to_one_hundred() {
    assert_eq!(max_events_or_default(None), 100);
    assert_eq!(max_events_or_default(Some(7)), 7);
    let config = TextQueryCompileConfig::default();
    assert_eq!(config.top_k_default, 100);
    assert_eq!(config.semantic_embedding_field, "text_embedding");
    assert_eq!(config.semantic_embedding_dims, 16);
}

#[test]
fn consumer_group_names_are_trimmed_and_must_not_be_empty() {
    assert_eq!(non_empty_trimmed("  workers \n"), Some("workers".to_string()));
    assert_eq!(non_empty_trimmed(" \t "), None);
    assert_eq!(non_empty_trimmed(""), None);
}

#[test]
fn protocol_negotiation_error_is_surfaceable() {
    let err = establish_tcp_session(
        &hello((1, 0), (1, 2)),
        ProtocolRange {
            min: ProtocolVersion::new(2, 0),
            max: ProtocolVersion::new(2, 2),
        },
    )
    .expect_err("must fail");
    assert!(idb::gateway::negotiation_failure_text(&err).contains("protocol negotiation failed"));
}

#[test]
fn closing_tcp_session_prevents_further_use() {
    let config = ServerConfig::default();
    let mut sessions = TcpSessionTable::new();
    let opened = sessions
        .open(&hello((1, 0), (1, 0)), config.supported_protocol)
        .expect("open");
    assert_eq!(opened.session_id, TcpSessionId(1));
    assert_eq!(opened.welcome.negotiated_version, ProtocolVersion::new(1, 0));
    assert!(sessions.get(opened.session_id).is_some());
    assert!(sessions.close(opened.session_id));
    assert!(sessions.get(opened.session_id).is_none());
    assert!(!sessions.close(opened.session_id));
    let again = sessions
        .open(&hello((1, 0), (1, 0)), config.supported_protocol)
        .expect("open again");
    assert_eq!(again.session_id, TcpSessionId(2));
}

#[test]
fn unknown_tcp_session_is_rejected() {
    let sessions = TcpSessionTable::new();
    assert!(sessions.get(TcpSessionId(99)).is_none());
}

#[test]
fn script_session_names_resolve_until_closed() {
    let mut names = ScriptSessions::new();
    names.insert("a", TcpSessionId(1));
    names.insert("b", TcpSessionId(2));
    names.insert("a", TcpSessionId(3));
    assert_eq!(names.get("a"), Some(TcpSessionId(3)));
    assert_eq!(names.remove("a"), Some(TcpSessionId(3)));
    assert_eq!(names.get("a"), None);
    assert_eq!(names.remove("a"), None);
    assert_eq!(names.get("b"), Some(TcpSessionId(2)));
}

#[test]
fn durable_payloads_trim_their_consumer_group() {
    let poll = DurableMutationPollPayload {
        caller: None,
        tenant_id: "tenant_a".to_string(),
        consumer_group: "  group-a ".to_string(),
        max_events_per_partition: Some(5),
    };
    let normalized = poll.normalized().expect("non-blank group");
    assert_eq!(normalized.consumer_group, "group-a");
    assert_eq!(normalized.max_events_per_partition, Some(5));
    let blank = DurableMutationCommitPayload {
        caller: None,
        tenant_id: "tenant_a".to_string(),
        consumer_group: "   ".to_string(),
        offsets: vec![DurableMutationOffsetPayload { partition: 1, committed_sequence: 2 }],
    };
    assert!(blank.normalized().is_none());
}
