//! The adapter from the script parser's messages to the records handed to
//! the presentation layer.

use vstd::prelude::*;
use crate::models::{
    box_type_of, BoxType, ParsedMessage, SerializedMessage, SerializedMessageFlags,
    SerializedMessageHeader,
};
use crate::projects::ProjectManager;
use crate::text::optional_text;

verus! {

/// The mathematical model of a message as the parser reports it.
pub struct ParsedMessageView {
    pub category: Seq<char>,
    pub message_id: Seq<char>,
    pub character: Option<Seq<char>>,
    pub content: Seq<char>,
    pub has_lipsync: bool,
    pub wait_for_input: bool,
}

/// The mathematical model of a message handed to the presentation layer.
pub struct SerializedMessageView {
    pub content: Seq<char>,
    pub has_lipsync: bool,
    pub wait_for_input: bool,
    pub box_type: BoxType,
    pub message_id: Seq<char>,
    pub character: Option<Seq<char>>,
}

impl View for ParsedMessage {
    type V = ParsedMessageView;

    open spec fn view(&self) -> ParsedMessageView {
        ParsedMessageView {
            category: self.header.box_type@,
            message_id: self.header.message_id@,
            character: optional_text(self.header.character),
            content: self.content@,
            has_lipsync: self.flags.has_lipsync,
            wait_for_input: self.flags.wait_for_input,
        }
    }
}

impl View for SerializedMessage {
    type V = SerializedMessageView;

    open spec fn view(&self) -> SerializedMessageView {
        SerializedMessageView {
            content: self.content@,
            has_lipsync: self.flags.has_lipsync,
            wait_for_input: self.flags.wait_for_input,
            box_type: self.header.box_type,
            message_id: self.header.message_id@,
            character: optional_text(self.header.character),
        }
    }
}

/// The record that stands for a parsed message: the same content, flags,
/// identifier and character, and the box type of the parser's category.
pub open spec fn serialized(message: ParsedMessageView) -> SerializedMessageView {
    SerializedMessageView {
        content: message.content,
        has_lipsync: message.has_lipsync,
        wait_for_input: message.wait_for_input,
        box_type: box_type_of(message.category),
        message_id: message.message_id,
        character: message.character,
    }
}

impl SerializedMessage {
    /// Turns one parsed message into the record handed on.
    pub fn from_parsed(message: ParsedMessage) -> (record: SerializedMessage)
        ensures
            record@ == serialized(message@),
    {
        let box_type = BoxType::from(message.header.box_type.as_str());
        SerializedMessage {
            content: message.content,
            flags: SerializedMessageFlags {
                has_lipsync: message.flags.has_lipsync,
                wait_for_input: message.flags.wait_for_input,
            },
            header: SerializedMessageHeader {
                box_type,
                message_id: message.header.message_id,
                character: message.header.character,
            },
        }
    }
}

impl ProjectManager {
    /// Turns the messages parsed from a script file into the records handed
    /// to the presentation layer: one record for each message, in the order
    /// of the file. Identifiers are passed on as they are, repeated or not.
    pub fn read_msg_file(parsed: Vec<ParsedMessage>) -> (records: Vec<SerializedMessage>)
        ensures
            records@.len() == parsed@.len(),
            forall|i: int|
                0 <= i < parsed@.len() ==> (#[trigger] records@[i])@ == serialized(parsed@[i]@),
    {
        let mut records: Vec<SerializedMessage> = Vec::new();
        for message in iter: parsed
            invariant
                records@.len() == iter.index(),
                forall|i: int|
                    0 <= i < iter.index() ==> (#[trigger] records@[i])@ == serialized(
                        iter.seq()[i]@,
                    ),
        {
            records.push(SerializedMessage::from_parsed(message));
        }
        records
    }
}

} // verus!
