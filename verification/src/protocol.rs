//! The frames of the gateway protocol: opcodes, the event categories a
//! session asks for, and the two frames a client sends.

use crate::json::{
    as_unsigned, empty_object, json_model, json_rendered, member, null_value, number_value,
    render, text_value, with_member, JsonModel,
};
use vstd::prelude::*;

verus! {

/// The purpose of a frame, as its `op` field tells it.
#[derive(Debug, Clone, Copy, PartialEq, Eq, Structural)]
pub enum Opcode {
    /// 0: an event was dispatched.
    Dispatch,
    /// 1: keep-alive.
    Heartbeat,
    /// 2: the client identifies itself.
    Identify,
    /// 7: the server asks the client to reconnect.
    Reconnect,
    /// 9: the session is no longer valid.
    InvalidSession,
    /// 10: the server's greeting, first on every connection.
    Hello,
    /// 11: the server has seen a heartbeat.
    HeartbeatAck,
    /// Any other number.
    Unrecognized(u64),
}

impl Opcode {
    /// The opcode that a number stands for.
    pub open spec fn of(code: u64) -> Opcode {
        if code == 0 {
            Opcode::Dispatch
        } else if code == 1 {
            Opcode::Heartbeat
        } else if code == 2 {
            Opcode::Identify
        } else if code == 7 {
            Opcode::Reconnect
        } else if code == 9 {
            Opcode::InvalidSession
        } else if code == 10 {
            Opcode::Hello
        } else if code == 11 {
            Opcode::HeartbeatAck
        } else {
            Opcode::Unrecognized(code)
        }
    }

    /// The number that stands for an opcode.
    pub open spec fn number(self) -> u64 {
        match self {
            Opcode::Dispatch => 0,
            Opcode::Heartbeat => 1,
            Opcode::Identify => 2,
            Opcode::Reconnect => 7,
            Opcode::InvalidSession => 9,
            Opcode::Hello => 10,
            Opcode::HeartbeatAck => 11,
            Opcode::Unrecognized(code) => code,
        }
    }

    pub fn from_code(code: u64) -> (opcode: Opcode)
        ensures
            opcode == Opcode::of(code),
    {
        if code == 0 {
            Opcode::Dispatch
        } else if code == 1 {
            Opcode::Heartbeat
        } else if code == 2 {
            Opcode::Identify
        } else if code == 7 {
            Opcode::Reconnect
        } else if code == 9 {
            Opcode::InvalidSession
        } else if code == 10 {
            Opcode::Hello
        } else if code == 11 {
            Opcode::HeartbeatAck
        } else {
            Opcode::Unrecognized(code)
        }
    }

    pub fn code(&self) -> (code: u64)
        ensures
            code == self.number(),
    {
        match self {
            Opcode::Dispatch => 0,
            Opcode::Heartbeat => 1,
            Opcode::Identify => 2,
            Opcode::Reconnect => 7,
            Opcode::InvalidSession => 9,
            Opcode::Hello => 10,
            Opcode::HeartbeatAck => 11,
            Opcode::Unrecognized(code) => *code,
        }
    }
}

/// Every number stands for one opcode, and that opcode for the number.
pub proof fn lemma_opcode_number(code: u64)
    ensures
        Opcode::of(code).number() == code,
{
}

pub const GUILDS: u64 = 0x1;

pub const GUILD_MEMBERS: u64 = 0x2;

pub const GUILD_MODERATION: u64 = 0x4;

pub const GUILD_EXPRESSIONS: u64 = 0x8;

pub const GUILD_INTEGRATIONS: u64 = 0x10;

pub const GUILD_WEBHOOKS: u64 = 0x20;

pub const GUILD_INVITES: u64 = 0x40;

pub const GUILD_VOICE_STATES: u64 = 0x80;

pub const GUILD_PRESENCES: u64 = 0x100;

pub const GUILD_MESSAGES: u64 = 0x200;

pub const GUILD_MESSAGE_REACTIONS: u64 = 0x400;

pub const GUILD_MESSAGE_TYPING: u64 = 0x800;

pub const DIRECT_MESSAGES: u64 = 0x1000;

pub const DIRECT_MESSAGE_REACTIONS: u64 = 0x2000;

pub const DIRECT_MESSAGE_TYPING: u64 = 0x4000;

pub const MESSAGE_CONTENT: u64 = 0x8000;

pub const GUILD_SCHEDULED_EVENTS: u64 = 0x10000;

pub const AUTO_MODERATION_CONFIGURATION: u64 = 0x100000;

pub const AUTO_MODERATION_EXECUTION: u64 = 0x200000;

pub const GUILD_MESSAGE_POLLS: u64 = 0x1000000;

pub const DIRECT_MESSAGE_POLLS: u64 = 0x2000000;

/// The event categories a session asks for, as one mask: bits 0 to 16, 20,
/// 21, 24 and 25.
pub const REQUESTED_INTENTS: u64 = 0x331ffff;

/// The mask of the event categories a session asks for: the named flags,
/// or'ed together.
pub fn requested_intents() -> (mask: u64)
    ensures
        mask == REQUESTED_INTENTS,
{
    let mask: u64 = GUILDS | GUILD_MEMBERS | GUILD_MODERATION | GUILD_EXPRESSIONS
        | GUILD_INTEGRATIONS | GUILD_WEBHOOKS | GUILD_INVITES | GUILD_VOICE_STATES
        | GUILD_PRESENCES | GUILD_MESSAGES | GUILD_MESSAGE_REACTIONS | GUILD_MESSAGE_TYPING
        | DIRECT_MESSAGES | DIRECT_MESSAGE_REACTIONS | DIRECT_MESSAGE_TYPING | MESSAGE_CONTENT
        | GUILD_SCHEDULED_EVENTS | AUTO_MODERATION_CONFIGURATION | AUTO_MODERATION_EXECUTION
        | GUILD_MESSAGE_POLLS | DIRECT_MESSAGE_POLLS;
    assert(0x1u64 | 0x2 | 0x4 | 0x8 | 0x10 | 0x20 | 0x40 | 0x80 | 0x100 | 0x200 | 0x400 | 0x800
        | 0x1000 | 0x2000 | 0x4000 | 0x8000 | 0x10000 | 0x100000 | 0x200000 | 0x1000000
        | 0x2000000 == 0x331ffffu64) by (bit_vector);
    mask
}

/// A frame to send.
#[derive(Clone, PartialEq, Eq)]
pub enum OutboundFrame {
    /// Opens the session: the credential and the platform the client runs on.
    Identify { token: String, os: String },
    /// Keeps the session alive: the last sequence value received, if any.
    Heartbeat { sequence: Option<u64> },
}

/// The mathematical value of an [`OutboundFrame`].
pub enum OutboundFrameView {
    Identify { token: Seq<char>, os: Seq<char> },
    Heartbeat { sequence: Option<u64> },
}

/// The client properties of an identify frame.
pub open spec fn properties_model(os: Seq<char>) -> JsonModel {
    JsonModel::Object(
        Map::empty().insert("$os"@, JsonModel::Text(os)).insert(
            "$browser"@,
            JsonModel::Text("blazingly-rust-discord-client"@),
        ).insert("$device"@, JsonModel::Text("blazingly-rust-discord-client"@)),
    )
}

/// The JSON of an identify frame: opcode 2 with the credential, the client
/// properties and the requested event categories.
pub open spec fn identify_model(token: Seq<char>, os: Seq<char>) -> JsonModel {
    JsonModel::Object(
        Map::empty().insert("op"@, JsonModel::Number(Some(2u64))).insert(
            "d"@,
            JsonModel::Object(
                Map::empty().insert("token"@, JsonModel::Text(token)).insert(
                    "properties"@,
                    properties_model(os),
                ).insert("intents"@, JsonModel::Number(Some(REQUESTED_INTENTS))),
            ),
        ),
    )
}

/// The JSON of a heartbeat frame: opcode 1 with the sequence value, or with
/// `null` where none was received yet.
pub open spec fn heartbeat_model(sequence: Option<u64>) -> JsonModel {
    JsonModel::Object(
        Map::empty().insert("op"@, JsonModel::Number(Some(1u64))).insert(
            "d"@,
            match sequence {
                Some(value) => JsonModel::Number(Some(value)),
                None => JsonModel::Null,
            },
        ),
    )
}

/// What an identify frame holds: the opcode 2 and, in its payload, the
/// credential as given, the client properties and the requested event
/// categories.
pub proof fn lemma_identify_frame(token: Seq<char>, os: Seq<char>)
    ensures
        opcode_of(identify_model(token, os)) == Some(Opcode::Identify),
        identify_model(token, os).member("d"@) matches Some(payload) && {
            &&& payload.text_of("token"@) == token
            &&& payload.unsigned_of("intents"@) == Some(REQUESTED_INTENTS)
            &&& payload.member("properties"@) == Some(properties_model(os))
        },
        properties_model(os).text_of("$os"@) == os,
        properties_model(os).text_of("$browser"@) == "blazingly-rust-discord-client"@,
        properties_model(os).text_of("$device"@) == "blazingly-rust-discord-client"@,
{
    reveal_strlit("op");
    reveal_strlit("d");
    reveal_strlit("token");
    reveal_strlit("properties");
    reveal_strlit("intents");
    reveal_strlit("$os");
    reveal_strlit("$browser");
    reveal_strlit("$device");
    assert("op"@.len() != "d"@.len());
    assert("token"@.len() != "properties"@.len());
    assert("token"@.len() != "intents"@.len());
    assert("properties"@.len() != "intents"@.len());
    assert("$os"@.len() != "$browser"@.len());
    assert("$os"@.len() != "$device"@.len());
    assert("$browser"@.len() != "$device"@.len());
}

/// What a heartbeat frame holds: the opcode 1 and, as its data, the sequence
/// value it was made with, or `null` where it was made with none.
pub proof fn lemma_heartbeat_frame(sequence: Option<u64>)
    ensures
        opcode_of(heartbeat_model(sequence)) == Some(Opcode::Heartbeat),
        heartbeat_model(sequence).member("d"@) == Some(
            match sequence {
                Some(value) => JsonModel::Number(Some(value)),
                None => JsonModel::Null,
            },
        ),
{
    reveal_strlit("op");
    reveal_strlit("d");
    assert("op"@.len() != "d"@.len());
}

impl View for OutboundFrame {
    type V = OutboundFrameView;

    open spec fn view(&self) -> OutboundFrameView {
        match self {
            OutboundFrame::Identify { token, os } => OutboundFrameView::Identify {
                token: token@,
                os: os@,
            },
            OutboundFrame::Heartbeat { sequence } => OutboundFrameView::Heartbeat {
                sequence: *sequence,
            },
        }
    }
}

impl OutboundFrameView {
    /// The JSON of the frame.
    pub open spec fn model(self) -> JsonModel {
        match self {
            OutboundFrameView::Identify { token, os } => identify_model(token, os),
            OutboundFrameView::Heartbeat { sequence } => heartbeat_model(sequence),
        }
    }

    /// Whether a text is this frame as `serde_json` writes it: the compact
    /// text of a value that holds exactly the frame's JSON.
    pub open spec fn is_written_as(self, text: Seq<char>) -> bool {
        exists|value: serde_json::Value| #[trigger]
            json_model(value) == self.model() && text == json_rendered(value)
    }
}

impl OutboundFrame {
    /// The frame as a JSON value.
    pub fn payload(&self) -> (value: serde_json::Value)
        ensures
            json_model(value) == self@.model(),
    {
        match self {
            OutboundFrame::Identify { token, os } => {
                let properties = with_member(
                    with_member(
                        with_member(empty_object(), "$os", text_value(os.as_str())),
                        "$browser",
                        text_value("blazingly-rust-discord-client"),
                    ),
                    "$device",
                    text_value("blazingly-rust-discord-client"),
                );
                let data = with_member(
                    with_member(
                        with_member(empty_object(), "token", text_value(token.as_str())),
                        "properties",
                        properties,
                    ),
                    "intents",
                    number_value(requested_intents()),
                );
                with_member(with_member(empty_object(), "op", number_value(2)), "d", data)
            },
            OutboundFrame::Heartbeat { sequence } => {
                let data = match sequence {
                    Some(value) => number_value(*value),
                    None => null_value(),
                };
                with_member(with_member(empty_object(), "op", number_value(1)), "d", data)
            },
        }
    }

    /// The frame as the text that goes on the wire.
    pub fn text(&self) -> (text: String)
        ensures
            self@.is_written_as(text@),
    {
        let value = self.payload();
        render(&value)
    }
}

/// Why a handshake was given up.
#[derive(Debug, Clone, Copy, PartialEq, Eq, Structural)]
pub enum ProtocolError {
    /// The first frame does not carry the opcode of a greeting.
    UnexpectedOpcode,
    /// The greeting does not say how often to send a heartbeat.
    MissingHeartbeatInterval,
}

impl ProtocolError {
    /// The error in words.
    pub fn message(&self) -> (text: &'static str)
        ensures
            text@ == match *self {
                ProtocolError::UnexpectedOpcode => "unexpected opening opcode"@,
                ProtocolError::MissingHeartbeatInterval =>
                    "hello frame without heartbeat interval"@,
            },
    {
        match self {
            ProtocolError::UnexpectedOpcode => "unexpected opening opcode",
            ProtocolError::MissingHeartbeatInterval => "hello frame without heartbeat interval",
        }
    }
}

/// The opcode of a frame, where it has one.
pub open spec fn opcode_of(frame: JsonModel) -> Option<Opcode> {
    match frame.unsigned_of("op"@) {
        Some(code) => Some(Opcode::of(code)),
        None => None,
    }
}

/// What a first frame amounts to: the time between heartbeats in
/// milliseconds where it is a greeting that names one, else the reason it is
/// refused.
pub open spec fn greeting_of(frame: JsonModel) -> Result<u64, ProtocolError> {
    if opcode_of(frame) != Some(Opcode::Hello) {
        Err(ProtocolError::UnexpectedOpcode)
    } else {
        match frame.member("d"@) {
            Some(payload) => match payload.unsigned_of("heartbeat_interval"@) {
                Some(interval) => Ok(interval),
                None => Err(ProtocolError::MissingHeartbeatInterval),
            },
            None => Err(ProtocolError::MissingHeartbeatInterval),
        }
    }
}

/// Reads an unsigned member of an object.
pub(crate) fn unsigned_field(object: &serde_json::Value, key: &str) -> (number: Option<u64>)
    ensures
        number == json_model(*object).unsigned_of(key@),
{
    match member(object, key) {
        Some(found) => as_unsigned(found),
        None => None,
    }
}

/// Reads the opcode of a frame.
pub fn read_opcode(frame: &serde_json::Value) -> (opcode: Option<Opcode>)
    ensures
        opcode == opcode_of(json_model(*frame)),
{
    match unsigned_field(frame, "op") {
        Some(code) => Some(Opcode::from_code(code)),
        None => None,
    }
}

/// Reads the greeting that opens a connection and yields the time between
/// heartbeats in milliseconds. Any frame but a greeting is refused, and so is
/// a greeting that names no such time.
pub fn read_hello(frame: &serde_json::Value) -> (greeting: Result<u64, ProtocolError>)
    ensures
        greeting == greeting_of(json_model(*frame)),
{
    match unsigned_field(frame, "op") {
        Some(10) => {},
        _ => {
            return Err(ProtocolError::UnexpectedOpcode);
        },
    }
    let interval = match member(frame, "d") {
        Some(payload) => unsigned_field(payload, "heartbeat_interval"),
        None => None,
    };
    match interval {
        Some(milliseconds) => Ok(milliseconds),
        None => Err(ProtocolError::MissingHeartbeatInterval),
    }
}

} // verus!
