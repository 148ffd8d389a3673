//! Gateway (websocket) protocol decisions: what an incoming payload does to
//! the session state, how message events become incoming messages, and
//! which handshake to send.

use crate::adapter::{owned, QqBotAdapter};
use crate::config::GatewayError;
use crate::text::{chars_of, extend_chars, is_text, string_from, trim, trimmed};
use vstd::prelude::*;

verus! {

/// Author fields of a message event.
#[derive(Debug, Clone)]
pub struct InboundAuthor {
    /// Sender of a C2C message.
    pub user_openid: Option<String>,
    /// Sender of a group message.
    pub member_openid: Option<String>,
    /// Sender of a guild or direct message.
    pub id: Option<String>,
}

/// The fields of a message event's `d` object that the adapter reads;
/// a field that is absent or not a string is `None`.
#[derive(Debug, Clone)]
pub struct InboundData {
    /// Message id.
    pub id: Option<String>,
    /// Message text.
    pub content: Option<String>,
    /// Author object, when `author` is an object.
    pub author: Option<InboundAuthor>,
    /// Group of a group message.
    pub group_openid: Option<String>,
    /// Guild of a direct message.
    pub guild_id: Option<String>,
    /// Channel of a guild message.
    pub channel_id: Option<String>,
}

/// The fields of a gateway payload that the adapter reads.
#[derive(Debug, Clone)]
pub struct WsPayload {
    /// Opcode `op`.
    pub op: Option<i64>,
    /// Sequence number `s`.
    pub seq: Option<i64>,
    /// Event type `t`.
    pub event_type: Option<String>,
    /// `d.heartbeat_interval`, in milliseconds.
    pub heartbeat_interval: Option<u64>,
    /// `d.session_id`.
    pub session_id: Option<String>,
    /// The message fields of `d`.
    pub data: InboundData,
}

/// A message received from QQ, handed to the gateway.
#[derive(Debug, Clone)]
pub struct IncomingMessage {
    /// Always `qqbot`.
    pub platform: String,
    /// Chat to reply to.
    pub chat_id: String,
    /// Sender.
    pub user_id: String,
    /// Trimmed message text.
    pub text: String,
    /// QQ message id.
    pub message_id: Option<String>,
    /// Whether the chat is a direct message (never set by this adapter).
    pub is_dm: bool,
}

/// What the connection loop must do after a payload.
#[derive(Debug)]
pub enum WsAction {
    /// Hello: send identify or resume, then heartbeat every so many milliseconds.
    Identify { heartbeat_interval_ms: u64 },
    /// Hand a message to the gateway.
    Deliver(IncomingMessage),
    /// The session is ready; its id was recorded.
    Ready,
    /// Nothing to do.
    Ignore,
}

/// What the connection loop read from the websocket.
#[derive(Debug)]
pub enum WsFrame {
    /// A text frame, parsed as JSON: its payload, or the parser's error text.
    Text(Result<WsPayload, String>),
    /// A close frame, with a description of it.
    Close(String),
    /// A ping, with its data.
    Ping(Vec<u8>),
    /// Any other frame.
    Other,
    /// The stream ended.
    Ended,
    /// Reading failed, with the error's text.
    ReadFailed(String),
}

/// What the connection loop does with a frame.
#[derive(Debug)]
pub enum FrameAction {
    /// Handle the gateway payload.
    Handle(WsPayload),
    /// Answer a ping with this data.
    Pong(Vec<u8>),
    /// Nothing to do.
    Nothing,
}

/// The handshake to send after the hello.
#[derive(Debug)]
pub enum Handshake {
    /// Resume the recorded session from the last sequence number (op 6).
    Resume { token: String, session_id: String, seq: i64 },
    /// Open a new session with the given intents (op 2).
    Identify { token: String, intents: u64 },
}

/// The intents requested on identify: guild messages, direct messages,
/// group and C2C events, and public guild messages.
pub const QQ_INTENTS: u64 = 1174409216;

/// Opcode of the hello payload.
pub const OP_HELLO: i64 = 10;

/// Opcode of a dispatched event.
pub const OP_DISPATCH: i64 = 0;

/// Opcode asking the client to reconnect.
pub const OP_RECONNECT: i64 = 7;

/// Opcode announcing an invalid session.
pub const OP_INVALID_SESSION: i64 = 9;

/// Heartbeat interval assumed when the hello gives none, in milliseconds.
pub const DEFAULT_HEARTBEAT_MS: u64 = 30000;

/// The text of an optional string, empty when absent.
pub open spec fn opt_text(o: Option<String>) -> Seq<char> {
    match o {
        Some(s) => s@,
        None => Seq::empty(),
    }
}

/// The text of an author field, empty when the author or the field is absent.
pub open spec fn author_field(a: Option<InboundAuthor>, which: int) -> Seq<char> {
    match a {
        Some(au) => if which == 0 {
            opt_text(au.user_openid)
        } else if which == 1 {
            opt_text(au.member_openid)
        } else {
            opt_text(au.id)
        },
        None => Seq::empty(),
    }
}

/// Chat id and sender of a message event, or `None` for other events.
pub open spec fn inbound_route(event: Seq<char>, d: InboundData) -> Option<(Seq<char>, Seq<char>)> {
    if event == "C2C_MESSAGE_CREATE"@ {
        let id = author_field(d.author, 0);
        Some((id, id))
    } else if event == "GROUP_AT_MESSAGE_CREATE"@ {
        Some((opt_text(d.group_openid), author_field(d.author, 1)))
    } else if event == "DIRECT_MESSAGE_CREATE"@ {
        Some((opt_text(d.guild_id), author_field(d.author, 2)))
    } else if event == "GUILD_MESSAGE_CREATE"@ || event == "GUILD_AT_MESSAGE_CREATE"@ {
        Some((opt_text(d.channel_id), author_field(d.author, 2)))
    } else {
        None
    }
}

/// Whether `m` is the message built from a routed event with chat `c`,
/// sender `u` and data `d`.
pub open spec fn is_incoming(m: IncomingMessage, c: Seq<char>, u: Seq<char>, d: InboundData) -> bool {
    &&& m.platform@ == "qqbot"@
    &&& m.chat_id@ == c
    &&& m.user_id@ == u
    &&& m.text@ == trim(opt_text(d.content))
    &&& m.message_id == d.id
    &&& !m.is_dm
}

/// Whether a message event with data `d` yields a message: it is routed,
/// its trimmed text is not empty, and its chat and sender are not empty.
pub open spec fn inbound_accepted(event: Seq<char>, d: InboundData) -> bool {
    match inbound_route(event, d) {
        Some((c, u)) => c.len() > 0 && u.len() > 0 && trim(opt_text(d.content)).len() > 0,
        None => false,
    }
}

fn opt_chars(o: &Option<String>) -> (r: Vec<char>)
    ensures
        r@ == opt_text(*o),
{
    match o {
        Some(s) => chars_of(s.as_str()),
        None => Vec::new(),
    }
}

fn author_chars(a: &Option<InboundAuthor>, which: u8) -> (r: Vec<char>)
    requires
        which <= 2,
    ensures
        r@ == author_field(*a, which as int),
{
    match a {
        Some(au) => if which == 0 {
            opt_chars(&au.user_openid)
        } else if which == 1 {
            opt_chars(&au.member_openid)
        } else {
            opt_chars(&au.id)
        },
        None => Vec::new(),
    }
}

/// Chat id and sender of a message event, or `None` for other events.
pub fn route_inbound(event_type: &str, data: &InboundData) -> (r: Option<(Vec<char>, Vec<char>)>)
    ensures
        match inbound_route(event_type@, *data) {
            Some((c, u)) => r matches Some((rc, ru)) && rc@ == c && ru@ == u,
            None => r is None,
        },
{
    let ev = chars_of(event_type);
    if is_text(&ev, "C2C_MESSAGE_CREATE") {
        let id = author_chars(&data.author, 0);
        let id2 = author_chars(&data.author, 0);
        Some((id, id2))
    } else if is_text(&ev, "GROUP_AT_MESSAGE_CREATE") {
        Some((opt_chars(&data.group_openid), author_chars(&data.author, 1)))
    } else if is_text(&ev, "DIRECT_MESSAGE_CREATE") {
        Some((opt_chars(&data.guild_id), author_chars(&data.author, 2)))
    } else if is_text(&ev, "GUILD_MESSAGE_CREATE") || is_text(&ev, "GUILD_AT_MESSAGE_CREATE") {
        Some((opt_chars(&data.channel_id), author_chars(&data.author, 2)))
    } else {
        None
    }
}

/// Turns a message event into the message handed to the gateway; events
/// without text, chat or sender, and unknown events, yield nothing.
pub fn parse_inbound(event_type: &str, data: InboundData) -> (r: Option<IncomingMessage>)
    ensures
        r is Some <==> inbound_accepted(event_type@, data),
        r matches Some(m) ==> (inbound_route(event_type@, data) matches Some((c, u))
            && is_incoming(m, c, u, data)),
{
    let text = trimmed(&opt_chars(&data.content));
    if text.len() == 0 {
        return None;
    }
    match route_inbound(event_type, &data) {
        None => None,
        Some((c, u)) => {
            if c.len() == 0 || u.len() == 0 {
                return None;
            }
            Some(
                IncomingMessage {
                    platform: owned("qqbot"),
                    chat_id: string_from(&c),
                    user_id: string_from(&u),
                    text: string_from(&text),
                    message_id: data.id,
                    is_dm: false,
                },
            )
        },
    }
}

/// `prefix` followed by `detail`, as an error message.
fn message_with(prefix: &str, detail: &str) -> (r: String)
    ensures
        r@ == prefix@ + detail@,
{
    let mut m = chars_of(prefix);
    extend_chars(&mut m, &chars_of(detail));
    string_from(&m)
}

/// Decides what a websocket frame means: a text frame's payload is
/// handled, unless it is not JSON; a ping is answered; a close frame, the
/// end of the stream and a read error end the connection.
pub fn frame_action(frame: WsFrame) -> (r: Result<FrameAction, GatewayError>)
    ensures
        match frame {
            WsFrame::Text(Ok(p)) => r == Ok::<FrameAction, GatewayError>(FrameAction::Handle(p)),
            WsFrame::Text(Err(e)) => r matches Err(GatewayError::Platform(m)) && m@
                == "QQ websocket JSON parse failed: "@ + e@,
            WsFrame::Close(d) => r matches Err(GatewayError::ConnectionFailed(m)) && m@
                == "QQ websocket close: "@ + d@,
            WsFrame::Ping(data) => r == Ok::<FrameAction, GatewayError>(FrameAction::Pong(data)),
            WsFrame::Other => r matches Ok(FrameAction::Nothing),
            WsFrame::Ended => r matches Err(GatewayError::ConnectionFailed(m)) && m@
                == "QQ websocket closed"@,
            WsFrame::ReadFailed(e) => r matches Err(GatewayError::ConnectionFailed(m)) && m@
                == "QQ websocket read failed: "@ + e@,
        },
{
    match frame {
        WsFrame::Text(Ok(p)) => Ok(FrameAction::Handle(p)),
        WsFrame::Text(Err(e)) => Err(
            GatewayError::Platform(message_with("QQ websocket JSON parse failed: ", e.as_str())),
        ),
        WsFrame::Close(d) => Err(
            GatewayError::ConnectionFailed(message_with("QQ websocket close: ", d.as_str())),
        ),
        WsFrame::Ping(data) => Ok(FrameAction::Pong(data)),
        WsFrame::Other => Ok(FrameAction::Nothing),
        WsFrame::Ended => Err(GatewayError::ConnectionFailed(owned("QQ websocket closed"))),
        WsFrame::ReadFailed(e) => Err(
            GatewayError::ConnectionFailed(message_with("QQ websocket read failed: ", e.as_str())),
        ),
    }
}

impl QqBotAdapter {
    /// Applies a gateway payload: records its sequence number and, for a
    /// `READY` event, the session id; says what the connection loop must do;
    /// refuses reconnect and invalid-session opcodes.
    pub fn handle_ws_payload(&mut self, payload: WsPayload) -> (r: Result<WsAction, GatewayError>)
        ensures
            final(self).ws_state.last_seq == (match payload.seq {
                Some(s) => Some(s),
                None => old(self).ws_state.last_seq,
            }),
            final(self).ws_state.session_id == (if payload.op == Some(OP_DISPATCH) && opt_text(
                payload.event_type,
            ) == "READY"@ && payload.session_id is Some {
                payload.session_id
            } else {
                old(self).ws_state.session_id
            }),
            final(self).config == old(self).config,
            final(self).access_token == old(self).access_token,
            final(self).c2c_stream_state == old(self).c2c_stream_state,
            final(self).turn_metadata == old(self).turn_metadata,
            final(self).progress_state == old(self).progress_state,
            final(self).notice_state == old(self).notice_state,
            payload.op == Some(OP_HELLO) ==> r == Ok::<WsAction, GatewayError>(
                WsAction::Identify {
                    heartbeat_interval_ms: match payload.heartbeat_interval {
                        Some(h) => h,
                        None => DEFAULT_HEARTBEAT_MS,
                    },
                },
            ),
            payload.op == Some(OP_DISPATCH) ==> {
                let ev = opt_text(payload.event_type);
                if ev == "READY"@ {
                    if payload.session_id is Some {
                        r matches Ok(WsAction::Ready)
                    } else {
                        r matches Ok(WsAction::Ignore)
                    }
                } else if inbound_accepted(ev, payload.data) {
                    r matches Ok(WsAction::Deliver(m)) && inbound_route(ev, payload.data) matches Some(
                        (c, u),
                    ) && is_incoming(m, c, u, payload.data)
                } else {
                    r matches Ok(WsAction::Ignore)
                }
            },
            payload.op == Some(OP_RECONNECT) || payload.op == Some(OP_INVALID_SESSION) ==> (
            r matches Err(GatewayError::ConnectionFailed(m)) && m@
                == "QQ gateway requested reconnect"@),
            !(payload.op == Some(OP_HELLO) || payload.op == Some(OP_DISPATCH) || payload.op == Some(
                OP_RECONNECT,
            ) || payload.op == Some(OP_INVALID_SESSION)) ==> r matches Ok(WsAction::Ignore),
    {
        if let Some(s) = payload.seq {
            self.ws_state.last_seq = Some(s);
        }
        match payload.op {
            Some(op) => {
                if op == OP_HELLO {
                    let interval = match payload.heartbeat_interval {
                        Some(h) => h,
                        None => DEFAULT_HEARTBEAT_MS,
                    };
                    Ok(WsAction::Identify { heartbeat_interval_ms: interval })
                } else if op == OP_DISPATCH {
                    let ev = opt_chars(&payload.event_type);
                    if is_text(&ev, "READY") {
                        match payload.session_id {
                            Some(sid) => {
                                self.ws_state.session_id = Some(sid);
                                Ok(WsAction::Ready)
                            },
                            None => Ok(WsAction::Ignore),
                        }
                    } else {
                        let event_type = string_from(&ev);
                        match parse_inbound(event_type.as_str(), payload.data) {
                            Some(m) => Ok(WsAction::Deliver(m)),
                            None => Ok(WsAction::Ignore),
                        }
                    }
                } else if op == OP_RECONNECT || op == OP_INVALID_SESSION {
                    Err(GatewayError::ConnectionFailed(owned("QQ gateway requested reconnect")))
                } else {
                    Ok(WsAction::Ignore)
                }
            },
            None => Ok(WsAction::Ignore),
        }
    }

    /// The handshake after a hello: resume when both a session id and a
    /// sequence number are known, identify otherwise.
    pub fn identify_payload(&self, access_token: &str) -> (r: Handshake)
        ensures
            match (self.ws_state.session_id, self.ws_state.last_seq) {
                (Some(sid), Some(q)) => r matches Handshake::Resume { token, session_id, seq }
                    && token@ == "QQBot "@ + access_token@ && session_id == sid && seq == q,
                _ => r matches Handshake::Identify { token, intents } && token@ == "QQBot "@
                    + access_token@ && intents == QQ_INTENTS,
            },
    {
        let mut tok = chars_of("QQBot ");
        extend_chars(&mut tok, &chars_of(access_token));
        let token = string_from(&tok);
        match (&self.ws_state.session_id, self.ws_state.last_seq) {
            (Some(sid), Some(q)) => Handshake::Resume { token, session_id: sid.clone(), seq: q },
            _ => {
                let intents: u64 = (1u64 << 25u64) | (1u64 << 30u64) | (1u64 << 12u64) | (1u64
                    << 26u64);
                assert(intents == 1174409216) by (bit_vector)
                    requires
                        intents == (1u64 << 25u64) | (1u64 << 30u64) | (1u64 << 12u64) | (1u64
                            << 26u64),
                ;
                Handshake::Identify { token, intents }
            },
        }
    }
}

} // verus!
