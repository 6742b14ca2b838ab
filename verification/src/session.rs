//! The server-side session decisions: the keep-alive schedule as a pure
//! function of state and clock, and the mapping from a parse outcome to the
//! query response packet. The transport around this library runs the timers
//! and sockets and feeds plain values in.

use vstd::prelude::*;

use crate::lexer::LexerError;
use crate::parser::StatementParseError;
use crate::proto::packet::S2CPacket;
use crate::proto::packet::S2CQueryErrorResponsePacket;
use crate::proto::packet::S2CQuerySuccessResponsePacket;
use crate::statement::Statement;

verus! {

/// How long after the last response a new keep-alive request is due.
pub const KEEP_ALIVE_INTERVAL_MS: u64 = 60000;

/// How long an outstanding keep-alive request may stay unanswered.
pub const KEEP_ALIVE_RESPONSE_TIMEOUT_MS: u64 = 30000;

/// Where a connection stands in the keep-alive exchange. Instants are
/// milliseconds of a monotonic clock the caller supplies.
#[derive(Debug, Clone, Copy, PartialEq, Eq, Structural)]
pub enum KeepAliveState {
    WaitingForRequest { response_received_at_ms: u64 },
    WaitingForResponse { request_message_id: u32, request_sent_at_ms: u64 },
}

/// What the connection handler must do after a keep-alive tick.
#[derive(Debug, Clone, Copy, PartialEq, Eq, Structural)]
pub enum KeepAliveAction {
    /// Nothing is due yet.
    Wait,
    /// Send a keep-alive request carrying this message id.
    SendRequest { message_id: u32 },
    /// The peer timed out: drop the connection.
    Disconnect,
}

/// Milliseconds elapsed from `earlier_ms` to `now_ms`, zero when the clock
/// reads earlier than the recorded instant.
pub open spec fn spec_elapsed(now_ms: u64, earlier_ms: u64) -> u64 {
    if now_ms >= earlier_ms {
        (now_ms - earlier_ms) as u64
    } else {
        0u64
    }
}

/// One tick of the keep-alive schedule: when waiting for the peer and the
/// interval has passed, a request with the next message id goes out; when a
/// request has stayed unanswered past its timeout, the peer is dropped;
/// otherwise nothing happens.
pub fn keep_alive_tick(state: &KeepAliveState, now_ms: u64, last_message_id: u32) -> (r: (
    KeepAliveState,
    KeepAliveAction,
))
    requires
        last_message_id < u32::MAX,
    ensures
        match *state {
            KeepAliveState::WaitingForRequest { response_received_at_ms } => {
                if spec_elapsed(now_ms, response_received_at_ms) < KEEP_ALIVE_INTERVAL_MS {
                    r == (*state, KeepAliveAction::Wait)
                } else {
                    r == (
                        KeepAliveState::WaitingForResponse {
                            request_message_id: (last_message_id + 1) as u32,
                            request_sent_at_ms: now_ms,
                        },
                        KeepAliveAction::SendRequest { message_id: (last_message_id + 1) as u32 },
                    )
                }
            },
            KeepAliveState::WaitingForResponse { request_message_id, request_sent_at_ms } => {
                if spec_elapsed(now_ms, request_sent_at_ms) < KEEP_ALIVE_RESPONSE_TIMEOUT_MS {
                    r == (*state, KeepAliveAction::Wait)
                } else {
                    r == (*state, KeepAliveAction::Disconnect)
                }
            },
        },
{
    match *state {
        KeepAliveState::WaitingForRequest { response_received_at_ms } => {
            let elapsed = if now_ms >= response_received_at_ms {
                now_ms - response_received_at_ms
            } else {
                0
            };
            if elapsed < KEEP_ALIVE_INTERVAL_MS {
                (*state, KeepAliveAction::Wait)
            } else {
                let id = last_message_id + 1;
                (
                    KeepAliveState::WaitingForResponse {
                        request_message_id: id,
                        request_sent_at_ms: now_ms,
                    },
                    KeepAliveAction::SendRequest { message_id: id },
                )
            }
        },
        KeepAliveState::WaitingForResponse { request_message_id: _, request_sent_at_ms } => {
            let elapsed = if now_ms >= request_sent_at_ms {
                now_ms - request_sent_at_ms
            } else {
                0
            };
            if elapsed < KEEP_ALIVE_RESPONSE_TIMEOUT_MS {
                (*state, KeepAliveAction::Wait)
            } else {
                (*state, KeepAliveAction::Disconnect)
            }
        },
    }
}

/// Feeds a received keep-alive response into the state: it is accepted —
/// returning to waiting, with the clock noted — exactly when a request was
/// outstanding and the response names that request's message id.
pub fn handle_keep_alive_response(state: &KeepAliveState, response_to: Option<u32>, now_ms: u64)
    -> (r: (KeepAliveState, bool))
    ensures
        match *state {
            KeepAliveState::WaitingForResponse { request_message_id, request_sent_at_ms } => {
                if response_to == Some(request_message_id) {
                    r == (
                        KeepAliveState::WaitingForRequest { response_received_at_ms: now_ms },
                        true,
                    )
                } else {
                    r == (*state, false)
                }
            },
            KeepAliveState::WaitingForRequest { response_received_at_ms } => r == (*state, false),
        },
{
    match *state {
        KeepAliveState::WaitingForResponse { request_message_id, request_sent_at_ms: _ } => {
            let accepted = match response_to {
                Some(id) => id == request_message_id,
                None => false,
            };
            if accepted {
                (KeepAliveState::WaitingForRequest { response_received_at_ms: now_ms }, true)
            } else {
                (*state, false)
            }
        },
        KeepAliveState::WaitingForRequest { .. } => (*state, false),
    }
}

/// The fixed message a lexical error is reported with.
pub open spec fn spec_lexer_error_message(e: LexerError) -> Seq<char> {
    match e {
        LexerError::NonAsciiCharacter { ch, span } => "Encountered Non-ASCII Character"@,
        LexerError::AsciiControlCharacter { ch, span } =>
            "Encountered Unexpected ASCII Control Character"@,
        LexerError::UnexpectedCharacter { ch, span } => "Encountered Unexpected Character"@,
    }
}

/// The fixed message a failed parse is reported with.
pub open spec fn spec_parse_error_message(e: StatementParseError) -> Seq<char> {
    match e {
        StatementParseError::LexerError(le) => spec_lexer_error_message(le),
        StatementParseError::ExpectedStatement { span } => "Expected a statement"@,
        StatementParseError::UnexpectedToken { expected, span } => "Unexpected token"@,
        StatementParseError::ClauseOutOfOrder { keyword, span } => "Clause out of order"@,
        StatementParseError::NestingTooDeep { span } => "Sub-query nesting too deep"@,
        StatementParseError::IntegerOutOfRange { span } => "Integer literal out of range"@,
        StatementParseError::TrailingTokens { span } => "Trailing tokens after statement"@,
    }
}

impl LexerError {
    /// A human-readable message for this error.
    pub fn message(&self) -> (r: String)
        ensures
            r@ == spec_lexer_error_message(*self),
    {
        match self {
            LexerError::NonAsciiCharacter { .. } => "Encountered Non-ASCII Character".to_owned(),
            LexerError::AsciiControlCharacter { .. } =>
                "Encountered Unexpected ASCII Control Character".to_owned(),
            LexerError::UnexpectedCharacter { .. } => "Encountered Unexpected Character"
                .to_owned(),
        }
    }
}

impl StatementParseError {
    /// A human-readable message for this error.
    pub fn message(&self) -> (r: String)
        ensures
            r@ == spec_parse_error_message(*self),
    {
        match self {
            StatementParseError::LexerError(le) => le.message(),
            StatementParseError::ExpectedStatement { .. } => "Expected a statement".to_owned(),
            StatementParseError::UnexpectedToken { .. } => "Unexpected token".to_owned(),
            StatementParseError::ClauseOutOfOrder { .. } => "Clause out of order".to_owned(),
            StatementParseError::NestingTooDeep { .. } => "Sub-query nesting too deep".to_owned(),
            StatementParseError::IntegerOutOfRange { .. } => "Integer literal out of range"
                .to_owned(),
            StatementParseError::TrailingTokens { .. } => "Trailing tokens after statement"
                .to_owned(),
        }
    }
}

/// Builds the query response for a parse outcome: a success with the
/// placeholder result set while execution is unimplemented, or an error
/// response carrying the parse error's message.
pub fn query_response_for(parse_result: &Result<Vec<Statement>, StatementParseError>) -> (r:
    S2CPacket)
    ensures
        match *parse_result {
            Ok(_) => r matches S2CPacket::QueryResponse(resp) && resp matches Ok(p) && p.schema@
                == "this is some schema"@ && p.data@.len() == 1 && p.data@[0]@
                == "this is a data row"@,
            Err(e) => r matches S2CPacket::QueryResponse(resp) && resp matches Err(p) && p.error@
                == spec_parse_error_message(e),
        },
{
    match parse_result {
        Ok(_) => {
            let mut data: Vec<String> = Vec::new();
            data.push("this is a data row".to_owned());
            S2CPacket::QueryResponse(
                Ok(
                    S2CQuerySuccessResponsePacket {
                        schema: "this is some schema".to_owned(),
                        data,
                    },
                ),
            )
        },
        Err(e) => S2CPacket::QueryResponse(
            Err(S2CQueryErrorResponsePacket { error: e.message() }),
        ),
    }
}

} // verus!
