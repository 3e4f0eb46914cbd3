use anisto::models::{
    BoxType, ParsedFlags, ParsedHeader, ParsedMessage, SerializedMessage, SerializedMessageFlags,
    SerializedMessageHeader,
};
use anisto::projects::ProjectManager;

fn parsed(category: &str, id: &str, character: Option<&str>, content: &str) -> ParsedMessage {
    ParsedMessage {
        header: ParsedHeader {
            box_type: category.to_string(),
            message_id: id.to_string(),
            character: character.map(|c| c.to_string()),
        },
        content: content.to_string(),
        flags: ParsedFlags { has_lipsync: false, wait_for_input: false },
    }
}

#[test]
fn the_help_category_maps_to_the_help_box() {
    let records = ProjectManager::read_msg_file(vec![parsed("Help", "HLP_1", None, "Press X")]);
    assert_eq!(records.len(), 1);
    assert_eq!(records[0].header.box_type, BoxType::Help);
}

#[test]
fn an_unrecognized_category_maps_to_unknown() {
    let records =
        ProjectManager::read_msg_file(vec![parsed("Narration", "NAR_1", None, "Later...")]);
    assert_eq!(records.len(), 1);
    assert_eq!(records[0].header.box_type, BoxType::Unknown);
}

#[test]
fn every_known_category_has_its_box_type() {
    assert_eq!(BoxType::from("Help"), BoxType::Help);
    assert_eq!(BoxType::from("Message"), BoxType::Message);
    assert_eq!(BoxType::from("Mind"), BoxType::Mind);
    assert_eq!(BoxType::from("System"), BoxType::System);
    assert_eq!(BoxType::from("Trivia"), BoxType::Trivia);
    assert_eq!(BoxType::from("Devil"), BoxType::Devil);
    assert_eq!(BoxType::from("Progress"), BoxType::Progress);
}

#[test]
fn categories_outside_the_set_degrade_to_unknown() {
    assert_eq!(BoxType::from("Unknown"), BoxType::Unknown);
    assert_eq!(BoxType::from(""), BoxType::Unknown);
    assert_eq!(BoxType::from("help"), BoxType::Unknown);
    assert_eq!(BoxType::from("HELP"), BoxType::Unknown);
    assert_eq!(BoxType::from("Help "), BoxType::Unknown);
    assert_eq!(BoxType::from("Hel"), BoxType::Unknown);
    assert_eq!(BoxType::from("Helper"), BoxType::Unknown);
    assert_eq!(BoxType::from("MSG"), BoxType::Unknown);
}

#[test]
fn a_message_keeps_its_content_flags_and_header() {
    let message = ParsedMessage {
        header: ParsedHeader {
            box_type: "Message".to_string(),
            message_id: "MSG_BTTL_2".to_string(),
            character: Some("Morgana".to_string()),
        },
        content: "Hello world!".to_string(),
        flags: ParsedFlags { has_lipsync: true, wait_for_input: false },
    };
    assert_eq!(
        SerializedMessage::from_parsed(message),
        SerializedMessage {
            content: "Hello world!".to_string(),
            flags: SerializedMessageFlags { has_lipsync: true, wait_for_input: false },
            header: SerializedMessageHeader {
                box_type: BoxType::Message,
                message_id: "MSG_BTTL_2".to_string(),
                character: Some("Morgana".to_string()),
            },
        }
    );
}

#[test]
fn flags_are_passed_on_one_by_one() {
    let mut message = parsed("System", "SYS_1", None, "Saved.");
    message.flags = ParsedFlags { has_lipsync: false, wait_for_input: true };
    let record = SerializedMessage::from_parsed(message);
    assert!(!record.flags.has_lipsync);
    assert!(record.flags.wait_for_input);
    assert_eq!(record.header.character, None);
}

#[test]
fn length_and_order_are_preserved() {
    let input = vec![
        parsed("Message", "MSG_1", Some("Hero"), "First"),
        parsed("Mind", "MND_2", Some("Hero"), "Second"),
        parsed("Narration", "NAR_3", None, "Third"),
        parsed("Devil", "DVL_4", Some("Imp"), "Fourth"),
        parsed("Trivia", "TRV_5", None, "Fifth"),
    ];
    let records = ProjectManager::read_msg_file(input);
    assert_eq!(records.len(), 5);
    let ids: Vec<&str> = records.iter().map(|r| r.header.message_id.as_str()).collect();
    assert_eq!(ids, vec!["MSG_1", "MND_2", "NAR_3", "DVL_4", "TRV_5"]);
    let contents: Vec<&str> = records.iter().map(|r| r.content.as_str()).collect();
    assert_eq!(contents, vec!["First", "Second", "Third", "Fourth", "Fifth"]);
    let boxes: Vec<BoxType> = records.iter().map(|r| r.header.box_type).collect();
    assert_eq!(
        boxes,
        vec![BoxType::Message, BoxType::Mind, BoxType::Unknown, BoxType::Devil, BoxType::Trivia]
    );
}

#[test]
fn repeated_identifiers_are_passed_on() {
    let records = ProjectManager::read_msg_file(vec![
        parsed("Message", "MSG_1", None, "one"),
        parsed("Message", "MSG_1", None, "two"),
    ]);
    assert_eq!(records.len(), 2);
    assert_eq!(records[0].header.message_id, "MSG_1");
    assert_eq!(records[1].header.message_id, "MSG_1");
    assert_eq!(records[1].content, "two");
}

#[test]
fn no_messages_give_no_records() {
    assert_eq!(ProjectManager::read_msg_file(vec![]), vec![]);
}
