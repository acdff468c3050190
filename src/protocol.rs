//! The records exchanged between clients and the server.

use vstd::prelude::*;

verus! {

/// serde_json's JSON value, which the records carry as an opaque payload.
#[verifier::external_type_specification]
#[verifier::external_body]
pub struct ExValue(serde_json::Value);

/// The kind of a record on the wire.
#[derive(Clone, Copy, Debug, PartialEq, Eq, Structural)]
pub enum MessageType {
    Connect,
    ConnectSuccessfull,
    ConnectFailed,
    Disconnect,
    Action,
    UpdateLife,
    BallMovement,
    PlayerDeath,
}

/// A record sent by a client to the server.
#[derive(Debug)]
pub struct MessageRecieve {
    pub message_type: MessageType,
    pub player_name: String,
    /// Free-form payload; the server never looks inside it.
    pub content: serde_json::Value,
    pub id_player: usize,
}

/// A record sent by the server to a client.
#[derive(Debug)]
pub struct MessageSended {
    pub message_type: MessageType,
    pub player_name: String,
    pub content: serde_json::Value,
    pub id_player: usize,
    pub player_life: i64,
    pub level: i32,
    pub canconnect: bool,
}

/// A client record as mathematical values.
pub struct RequestModel {
    pub kind: MessageType,
    pub name: Seq<char>,
    pub content: serde_json::Value,
    pub id: nat,
}

/// A server record as mathematical values.
pub struct RecordModel {
    pub kind: MessageType,
    pub name: Seq<char>,
    pub content: serde_json::Value,
    pub id: nat,
    pub life: int,
    pub level: int,
    pub canconnect: bool,
}

impl View for MessageRecieve {
    type V = RequestModel;

    open spec fn view(&self) -> RequestModel {
        RequestModel {
            kind: self.message_type,
            name: self.player_name@,
            content: self.content,
            id: self.id_player as nat,
        }
    }
}

impl View for MessageSended {
    type V = RecordModel;

    open spec fn view(&self) -> RecordModel {
        RecordModel {
            kind: self.message_type,
            name: self.player_name@,
            content: self.content,
            id: self.id_player as nat,
            life: self.player_life as int,
            level: self.level as int,
            canconnect: self.canconnect,
        }
    }
}

/// The JSON string value that holds the text `s`.
pub uninterp spec fn json_text(s: Seq<char>) -> serde_json::Value;

/// Relies on the `serde_json::Value::String` variant: the value wraps the
/// text, and so depends on the text alone.
#[verifier::external_body]
pub(crate) fn text_value(s: String) -> (r: serde_json::Value)
    ensures
        r == json_text(s@),
{
    serde_json::Value::String(s)
}

/// Relies on the `Clone` impl that serde_json derives for `Value`: the copy
/// equals the original.
#[verifier::external_body]
pub(crate) fn copy_value(v: &serde_json::Value) -> (r: serde_json::Value)
    ensures
        r == *v,
{
    v.clone()
}

} // verus!
