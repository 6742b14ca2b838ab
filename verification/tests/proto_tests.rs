use drown::client_options::resolve_client_options;
use drown::client_options::validate_drown_uri;
use drown::client_options::ClientOptions;
use drown::client_options::DrownUri;
use drown::client_options::UriParts;
use drown::ext::OptionExt;
use drown::ext::StrExt;
use drown::parser::StatementParseError;
use drown::parser::StatementParser;
use drown::proto::decode::split_frame;
use drown::proto::decode::DecodeError;
use drown::proto::decode::DecodedPacket;
use drown::proto::encode::EncodedPacket;
use drown::proto::header::PacketHeader;
use drown::proto::header::PACKET_HEADER_SIZE;
use drown::proto::packet::C2SPacket;
use drown::proto::packet::C2SQueryRequestPacket;
use drown::proto::packet::S2CPacket;
use drown::session::handle_keep_alive_response;
use drown::session::keep_alive_tick;
use drown::session::query_response_for;
use drown::session::KeepAliveAction;
use drown::session::KeepAliveState;
use drown::token::Span;

#[test]
fn header_encodes_little_endian() {
    let header = PacketHeader {
        message_id: 0x0403_0201,
        response_to: Some(0x0807_0605),
    };
    let bytes = header.to_bytes();
    assert_eq!(bytes, vec![1, 2, 3, 4, 5, 6, 7, 8]);
    assert_eq!(bytes.len(), PACKET_HEADER_SIZE);
}

#[test]
fn header_round_trips() {
    let header = PacketHeader {
        message_id: 7,
        response_to: Some(42),
    };
    assert_eq!(PacketHeader::from_bytes(&header.to_bytes()), header);

    let header = PacketHeader {
        message_id: u32::MAX,
        response_to: None,
    };
    assert_eq!(PacketHeader::from_bytes(&header.to_bytes()), header);
}

#[test]
fn absent_response_is_the_zero_word() {
    let header = PacketHeader {
        message_id: 1,
        response_to: None,
    };
    assert_eq!(&header.to_bytes()[4..8], &[0, 0, 0, 0]);
    // The reserved zero word decodes back to "no response id".
    let decoded = PacketHeader::from_bytes(&[9, 0, 0, 0, 0, 0, 0, 0]);
    assert_eq!(decoded.response_to, None);
    assert_eq!(decoded.message_id, 9);
}

#[test]
fn split_frame_requires_a_full_header() {
    assert_eq!(
        split_frame(&[1, 2, 3]).unwrap_err(),
        DecodeError::InvalidHeaderLength
    );
    assert_eq!(
        split_frame(&[]).unwrap_err(),
        DecodeError::InvalidHeaderLength
    );
}

#[test]
fn split_frame_separates_header_and_payload() {
    let (header, payload) = split_frame(&[3, 0, 0, 0, 0, 0, 0, 0, 10, 11]).unwrap();
    assert_eq!(header.message_id, 3);
    assert_eq!(header.response_to, None);
    assert_eq!(payload, &[10, 11]);

    let (header, payload) = split_frame(&[0, 0, 0, 0, 5, 0, 0, 0]).unwrap();
    assert_eq!(header.response_to, Some(5));
    assert!(payload.is_empty());
}

#[test]
fn encoded_packet_builder() {
    let packet = EncodedPacket::<S2CPacket>::from_payload_bytes(vec![0xAA, 0xBB])
        .with_id(2)
        .with_response_to(1);
    assert_eq!(packet.message_id(), 2);
    assert_eq!(packet.response_to(), Some(1));
    let bytes = packet.to_bytes();
    assert_eq!(bytes, vec![2, 0, 0, 0, 1, 0, 0, 0, 0xAA, 0xBB]);
}

#[test]
fn encode_then_split_round_trips() {
    let packet = EncodedPacket::<C2SPacket>::from_payload_bytes(vec![1, 2, 3]).with_id(12);
    let bytes = packet.to_bytes();
    let (header, payload) = split_frame(&bytes).unwrap();
    assert_eq!(header.message_id, 12);
    assert_eq!(header.response_to, None);
    assert_eq!(payload, &[1, 2, 3]);
}

#[test]
fn decoded_packet_accessors() {
    let header = PacketHeader {
        message_id: 4,
        response_to: Some(2),
    };
    let payload = C2SPacket::QueryRequest(C2SQueryRequestPacket {
        query: "SELECT * FROM users;".to_string(),
    });
    let packet = DecodedPacket::from_parts(header, payload);
    assert_eq!(packet.message_id(), 4);
    assert_eq!(packet.response_to(), Some(2));
    assert!(matches!(packet.payload(), C2SPacket::QueryRequest(q) if q.query.contains("users")));
}

#[test]
fn keep_alive_waits_inside_the_interval() {
    let state = KeepAliveState::WaitingForRequest {
        response_received_at_ms: 1000,
    };
    let (next, action) = keep_alive_tick(&state, 1000 + 59_999, 7);
    assert_eq!(action, KeepAliveAction::Wait);
    assert_eq!(next, state);
}

#[test]
fn keep_alive_sends_a_request_after_the_interval() {
    let state = KeepAliveState::WaitingForRequest {
        response_received_at_ms: 1000,
    };
    let (next, action) = keep_alive_tick(&state, 1000 + 60_000, 7);
    assert_eq!(action, KeepAliveAction::SendRequest { message_id: 8 });
    assert_eq!(
        next,
        KeepAliveState::WaitingForResponse {
            request_message_id: 8,
            request_sent_at_ms: 61_000,
        }
    );
}

#[test]
fn keep_alive_disconnects_after_the_timeout() {
    let state = KeepAliveState::WaitingForResponse {
        request_message_id: 8,
        request_sent_at_ms: 61_000,
    };
    let (_, action) = keep_alive_tick(&state, 61_000 + 29_999, 8);
    assert_eq!(action, KeepAliveAction::Wait);
    let (next, action) = keep_alive_tick(&state, 61_000 + 30_000, 8);
    assert_eq!(action, KeepAliveAction::Disconnect);
    assert_eq!(next, state);
}

#[test]
fn keep_alive_response_must_name_the_request() {
    let state = KeepAliveState::WaitingForResponse {
        request_message_id: 8,
        request_sent_at_ms: 61_000,
    };
    let (next, accepted) = handle_keep_alive_response(&state, Some(8), 70_000);
    assert!(accepted);
    assert_eq!(
        next,
        KeepAliveState::WaitingForRequest {
            response_received_at_ms: 70_000
        }
    );

    let (next, accepted) = handle_keep_alive_response(&state, Some(9), 70_000);
    assert!(!accepted);
    assert_eq!(next, state);

    let waiting = KeepAliveState::WaitingForRequest {
        response_received_at_ms: 1,
    };
    let (next, accepted) = handle_keep_alive_response(&waiting, Some(8), 70_000);
    assert!(!accepted);
    assert_eq!(next, waiting);
}

#[test]
fn query_response_reports_success_and_failure() {
    let ok = StatementParser::parse("SELECT * FROM users;");
    match query_response_for(&ok) {
        S2CPacket::QueryResponse(Ok(p)) => {
            assert_eq!(p.schema, "this is some schema");
            assert_eq!(p.data, vec!["this is a data row".to_string()]);
        }
        _ => panic!("expected a success response"),
    }

    let failed = StatementParser::parse("nonsense");
    match query_response_for(&failed) {
        S2CPacket::QueryResponse(Err(p)) => {
            assert_eq!(p.error, "Expected a statement");
        }
        _ => panic!("expected an error response"),
    }
}

#[test]
fn parse_error_messages() {
    let err = StatementParser::parse("SELECT * FROM caf\u{e9};").unwrap_err();
    assert_eq!(err.message(), "Encountered Non-ASCII Character");
    let err = StatementParseError::NestingTooDeep {
        span: Span::new(0, 1),
    };
    assert_eq!(err.message(), "Sub-query nesting too deep");
}

fn plain_parts() -> UriParts {
    UriParts {
        scheme: "drown".to_string(),
        cannot_be_a_base: false,
        path: String::new(),
        has_query: false,
        has_fragment: false,
        host: Some("example.com".to_string()),
        port: Some(1234),
        username: "admin".to_string(),
        password: Some("pw".to_string()),
    }
}

#[test]
fn uri_validation_accepts_a_plain_target() {
    let uri = validate_drown_uri(plain_parts()).unwrap();
    assert_eq!(uri.host, "example.com");
    assert_eq!(uri.port, 1234);
    assert_eq!(uri.username.as_deref(), Some("admin"));
    assert_eq!(uri.password.as_deref(), Some("pw"));
}

#[test]
fn uri_validation_defaults() {
    let mut parts = plain_parts();
    parts.port = None;
    parts.username = String::new();
    parts.password = None;
    let uri = validate_drown_uri(parts).unwrap();
    assert_eq!(uri.port, 6472);
    assert_eq!(uri.username, None);
    assert_eq!(uri.password, None);
}

#[test]
fn uri_validation_rejections_in_order() {
    let mut parts = plain_parts();
    parts.cannot_be_a_base = true;
    assert_eq!(
        validate_drown_uri(parts).unwrap_err(),
        "URI scheme invalid"
    );

    let mut parts = plain_parts();
    parts.path = "/db".to_string();
    assert_eq!(
        validate_drown_uri(parts).unwrap_err(),
        "URI path must be empty"
    );

    let mut parts = plain_parts();
    parts.has_query = true;
    assert_eq!(
        validate_drown_uri(parts).unwrap_err(),
        "URI query must be empty"
    );

    let mut parts = plain_parts();
    parts.has_fragment = true;
    assert_eq!(
        validate_drown_uri(parts).unwrap_err(),
        "URI fragment must be empty"
    );

    let mut parts = plain_parts();
    parts.scheme = "https".to_string();
    assert_eq!(
        validate_drown_uri(parts).unwrap_err(),
        "URI scheme must be `drown`"
    );

    let mut parts = plain_parts();
    parts.host = None;
    assert_eq!(
        validate_drown_uri(parts).unwrap_err(),
        "URI host is required"
    );
}

fn sample_uri() -> DrownUri {
    DrownUri {
        host: "example.com".to_string(),
        port: 1234,
        username: Some("uri_user".to_string()),
        password: None,
    }
}

#[test]
fn options_conflict_when_uri_and_host_are_given() {
    assert!(resolve_client_options(
        Some(sample_uri()),
        Some("other".to_string()),
        None,
        None,
        None,
        None,
        false
    )
    .is_err());
    assert!(
        resolve_client_options(Some(sample_uri()), None, Some(9), None, None, None, false)
            .is_err()
    );
}

#[test]
fn options_prefer_argument_credentials() {
    let options: ClientOptions = resolve_client_options(
        Some(sample_uri()),
        None,
        None,
        Some("arg_user".to_string()),
        None,
        Some("db".to_string()),
        true,
    )
    .unwrap();
    assert_eq!(options.connection.host, "example.com");
    assert_eq!(options.connection.port, 1234);
    assert_eq!(options.connection.username.as_deref(), Some("arg_user"));
    assert_eq!(options.connection.password, None);
    assert_eq!(options.database.as_deref(), Some("db"));
    assert!(options.verbose);
}

#[test]
fn options_default_without_uri() {
    let options = resolve_client_options(None, None, None, None, None, None, false).unwrap();
    assert_eq!(options.connection.host, "localhost");
    assert_eq!(options.connection.port, 6472);
    assert_eq!(options.connection.username, None);

    let options = resolve_client_options(
        None,
        Some("h".to_string()),
        Some(9),
        Some("u".to_string()),
        None,
        None,
        false,
    )
    .unwrap();
    assert_eq!(options.connection.host, "h");
    assert_eq!(options.connection.port, 9);
    assert_eq!(options.connection.username.as_deref(), Some("u"));
}

#[test]
fn option_ext_none_or() {
    let none: Option<u32> = None;
    assert_eq!(none.none_or("boom"), Ok(()));
    assert_eq!(Some(1).none_or("boom"), Err("boom"));
}

#[test]
fn str_ext_matches_or() {
    assert_eq!("drown".matches_or(|s| *s == "drown", "bad"), Ok("drown"));
    assert_eq!("https".matches_or(|s| *s == "drown", "bad"), Err("bad"));
    let owned = "x".to_string();
    assert_eq!(
        owned.clone().matches_or(|s| !s.is_empty(), 0),
        Ok("x".to_string())
    );
}

#[test]
fn str_ext_map_empty_to_none() {
    assert_eq!("".map_empty_to_none(), None);
    assert_eq!("a".map_empty_to_none(), Some("a"));
    assert_eq!(String::new().map_empty_to_none(), None);
    assert_eq!("b".to_string().map_empty_to_none(), Some("b".to_string()));
}
