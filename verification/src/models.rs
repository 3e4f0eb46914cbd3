//! The records exchanged with the presentation layer and with the script
//! parser.

use vstd::prelude::*;
use vstd::std_specs::convert::FromSpecImpl;
use crate::text::same_text;

verus! {

/// How a dialogue message is presented.
#[derive(Clone, Copy, Debug, PartialEq, Eq, Structural)]
pub enum BoxType {
    Help,
    Message,
    Mind,
    System,
    Trivia,
    Devil,
    Progress,
    /// Any category that is none of the others.
    Unknown,
}

/// The box type that stands for the category the parser reported: the type
/// of that name, and `Unknown` for every other category.
pub open spec fn box_type_of(category: Seq<char>) -> BoxType {
    if category == "Help"@ {
        BoxType::Help
    } else if category == "Message"@ {
        BoxType::Message
    } else if category == "Mind"@ {
        BoxType::Mind
    } else if category == "System"@ {
        BoxType::System
    } else if category == "Trivia"@ {
        BoxType::Trivia
    } else if category == "Devil"@ {
        BoxType::Devil
    } else if category == "Progress"@ {
        BoxType::Progress
    } else {
        BoxType::Unknown
    }
}

impl<'a> From<&'a str> for BoxType {
    /// Maps the category reported by the parser to a box type. Every
    /// category has one: those outside the known set map to `Unknown`.
    fn from(category: &'a str) -> (box_type: BoxType) {
        if same_text(category, "Help") {
            BoxType::Help
        } else if same_text(category, "Message") {
            BoxType::Message
        } else if same_text(category, "Mind") {
            BoxType::Mind
        } else if same_text(category, "System") {
            BoxType::System
        } else if same_text(category, "Trivia") {
            BoxType::Trivia
        } else if same_text(category, "Devil") {
            BoxType::Devil
        } else if same_text(category, "Progress") {
            BoxType::Progress
        } else {
            BoxType::Unknown
        }
    }
}

impl<'a> FromSpecImpl<&'a str> for BoxType {
    open spec fn obeys_from_spec() -> bool {
        true
    }

    open spec fn from_spec(category: &'a str) -> BoxType {
        box_type_of(category@)
    }
}

/// Display attributes of a stored file.
#[derive(Debug, PartialEq, Eq)]
pub struct FileAttributes {
    pub lipsync: Option<bool>,
    pub confidant_point: Option<bool>,
    pub box_type: Option<String>,
    pub confidant_id: Option<i32>,
    pub points_gained: Option<i32>,
    pub model_id: Option<i32>,
    pub character_name: Option<String>,
    pub character_checkbox: Option<bool>,
}

/// A stored file with its text and, where it was built, its output.
#[derive(Debug, PartialEq, Eq)]
pub struct File {
    pub id: String,
    pub name: String,
    pub text: String,
    pub output: Option<String>,
    pub attributes: Option<FileAttributes>,
}

/// A project together with its files.
#[derive(Debug, PartialEq, Eq)]
pub struct Project {
    pub id: String,
    pub name: String,
    pub description: Option<String>,
    pub created_at: String,
    pub updated_at: String,
    pub files: Vec<File>,
}

/// The flags of a message in its editable form.
#[derive(Clone, Copy, Debug, PartialEq, Eq, Structural)]
pub struct MessageAttributes {
    pub has_lipsync: bool,
    pub wait_for_input: bool,
}

/// A message in its editable form.
#[derive(Debug, PartialEq, Eq)]
pub struct SerializableMessage {
    pub content: String,
    pub attributes: MessageAttributes,
}

/// The flags of a message as the parser reports them.
#[derive(Clone, Copy, Debug, PartialEq, Eq, Structural)]
pub struct ParsedFlags {
    pub has_lipsync: bool,
    pub wait_for_input: bool,
}

/// The header of a message as the parser reports it.
#[derive(Debug, PartialEq, Eq)]
pub struct ParsedHeader {
    /// The name of the category the parser put the message in.
    pub box_type: String,
    pub message_id: String,
    pub character: Option<String>,
}

/// One message of a script file as the parser reports it.
#[derive(Debug, PartialEq, Eq)]
pub struct ParsedMessage {
    pub header: ParsedHeader,
    pub content: String,
    pub flags: ParsedFlags,
}

/// The flags of a message handed to the presentation layer.
#[derive(Clone, Copy, Debug, PartialEq, Eq, Structural)]
pub struct SerializedMessageFlags {
    pub has_lipsync: bool,
    pub wait_for_input: bool,
}

/// The header of a message handed to the presentation layer.
#[derive(Debug, PartialEq, Eq)]
pub struct SerializedMessageHeader {
    pub box_type: BoxType,
    pub message_id: String,
    pub character: Option<String>,
}

/// One message handed to the presentation layer.
#[derive(Debug, PartialEq, Eq)]
pub struct SerializedMessage {
    pub content: String,
    pub flags: SerializedMessageFlags,
    pub header: SerializedMessageHeader,
}

} // verus!
