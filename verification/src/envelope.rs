//! The routing envelope of a message: the two fields that the relay reads
//! from the JSON text a peer sends. Everything else in the text is payload
//! and is never looked at.

use crate::text::characters_of;
use vstd::prelude::*;

verus! {

/// `serde_json::Value`: a parsed JSON document. Nothing inside it is
/// visible here; what it holds is spoken of as [`text_members`].
#[verifier::external_type_specification]
#[verifier::external_body]
pub struct ExJsonValue(serde_json::Value);

/// `serde_json::Error`: why a text is not a JSON document. It is never
/// looked into.
#[verifier::external_type_specification]
#[verifier::external_body]
pub struct ExJsonError(serde_json::Error);

/// The string members of a JSON value: each key of the object whose value is
/// a JSON string, with that string. A value that is not an object has none.
pub uninterp spec fn text_members(value: serde_json::Value) -> Map<Seq<char>, Seq<char>>;

/// The string members of the JSON document that `text` spells, or `None`
/// where `text` is not one JSON document.
pub uninterp spec fn document_members(text: Seq<char>) -> Option<Map<Seq<char>, Seq<char>>>;

/// Calls `serde_json::from_str` for a `Value`. The contract claims that the
/// outcome depends on the text alone: the call succeeds exactly on the texts
/// for which `document_members` is defined, and the value then holds those
/// string members.
#[verifier::external_body]
fn parse_document(text: &str) -> (parsed: Result<serde_json::Value, serde_json::Error>)
    ensures
        parsed is Ok <==> document_members(text@) is Some,
        parsed matches Ok(value) ==> document_members(text@) == Some(text_members(value)),
{
    serde_json::from_str(text)
}

/// Indexes a `serde_json::Value` by a key and calls `Value::as_str` on what
/// is there. The contract claims that a string comes back exactly for the
/// keys of `text_members`, and that it is the member's string.
#[verifier::external_body]
fn text_member<'a>(value: &'a serde_json::Value, key: &str) -> (member: Option<&'a str>)
    ensures
        member is Some <==> text_members(*value).contains_key(key@),
        member matches Some(found) ==> text_members(*value)[key@] == found@,
{
    value[key].as_str()
}

/// The routing fields of one message.
#[derive(Clone, Debug, PartialEq, Eq)]
pub struct Envelope {
    /// How the message is addressed.
    pub protocol: Option<String>,
    /// The name of the peer that a directed message is for.
    pub endpoint: Option<String>,
}

/// An [`Envelope`] in contracts.
pub struct EnvelopeView {
    pub protocol: Option<Seq<char>>,
    pub endpoint: Option<Seq<char>>,
}

impl View for Envelope {
    type V = EnvelopeView;

    open spec fn view(&self) -> EnvelopeView {
        EnvelopeView {
            protocol: characters_of(self.protocol),
            endpoint: characters_of(self.endpoint),
        }
    }
}

/// The member under `key`, if the members have one.
pub open spec fn member(members: Map<Seq<char>, Seq<char>>, key: Seq<char>) -> Option<Seq<char>> {
    if members.contains_key(key) {
        Some(members[key])
    } else {
        None
    }
}

/// The envelope that a message text carries. A text that is not a JSON
/// document carries the empty envelope, as does a document that is not an
/// object; a field that is absent or not a string is absent from the
/// envelope.
pub open spec fn envelope_of(text: Seq<char>) -> EnvelopeView {
    match document_members(text) {
        Some(members) => EnvelopeView {
            protocol: member(members, "protocol"@),
            endpoint: member(members, "endpoint"@),
        },
        None => EnvelopeView { protocol: None, endpoint: None },
    }
}

/// The member of `value` under `key` as an owned string.
fn owned_member(value: &serde_json::Value, key: &str) -> (found: Option<String>)
    ensures
        characters_of(found) == member(text_members(*value), key@),
{
    match text_member(value, key) {
        Some(text) => Some(text.to_owned()),
        None => None,
    }
}

impl Envelope {
    /// Reads the envelope of a message text.
    pub fn parse(text: &str) -> (envelope: Envelope)
        ensures
            envelope@ == envelope_of(text@),
    {
        match parse_document(text) {
            Ok(value) => Envelope {
                protocol: owned_member(&value, "protocol"),
                endpoint: owned_member(&value, "endpoint"),
            },
            Err(_) => Envelope { protocol: None, endpoint: None },
        }
    }
}

} // verus!
