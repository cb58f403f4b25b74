use clewdr_web::claude::{CustomTool, CustomToolType, KnownTool, Tool as ClaudeTool};
use clewdr_web::request::{should_skip_type, Attachment, Tool};
use serde_json::Value;

fn object(members: Vec<(&str, Value)>) -> Value {
    Value::from_iter(members)
}

fn open_schema() -> Value {
    object(vec![
        ("type", Value::from("object")),
        ("properties", object(vec![])),
    ])
}

#[test]
fn attachment_is_a_text_file_measured_in_bytes() {
    let attachment = Attachment::new("h\u{e9}llo".to_string());
    assert_eq!(attachment.extracted_content, "h\u{e9}llo");
    assert_eq!(attachment.file_name, "paste.txt");
    assert_eq!(attachment.file_type, "txt");
    assert_eq!(attachment.file_size, 6);
    assert_eq!(Attachment::new(String::new()).file_size, 0);
}

#[test]
fn only_custom_and_missing_types_are_skipped() {
    assert!(should_skip_type("custom"));
    assert!(should_skip_type(""));
    assert!(!should_skip_type("Custom"));
    assert!(!should_skip_type("custom "));
    assert!(!should_skip_type("web_search_v0"));
}

#[test]
fn web_search_has_neither_description_nor_schema() {
    let tool = Tool::web_search();
    assert_eq!(tool.name, "web_search");
    assert_eq!(tool.type_, "web_search_v0");
    assert_eq!(tool.description, None);
    assert_eq!(tool.input_schema, None);
}

#[test]
fn custom_tools_keep_what_they_bring() {
    for type_ in [None, Some(CustomToolType::Custom)] {
        let schema = object(vec![("type", Value::from("string"))]);
        let tool = Tool::from_claude_tool(&ClaudeTool::Custom(CustomTool {
            name: "look_up".to_string(),
            type_,
            description: Some("Looks it up".to_string()),
            input_schema: schema.clone(),
        }))
        .unwrap();
        assert_eq!(tool.name, "look_up");
        assert_eq!(tool.type_, "custom");
        assert_eq!(tool.description.as_deref(), Some("Looks it up"));
        assert_eq!(tool.input_schema, Some(schema));
        assert!(should_skip_type(&tool.type_));
    }
}

#[test]
fn custom_tools_may_lack_a_name_and_a_description() {
    let tool = Tool::from_claude_tool(&ClaudeTool::Custom(CustomTool {
        name: String::new(),
        type_: None,
        description: None,
        input_schema: Value::Null,
    }))
    .unwrap();
    assert_eq!(tool.name, "");
    assert_eq!(tool.description, None);
    assert_eq!(tool.input_schema, Some(Value::Null));
}

#[test]
fn known_tools_have_fixed_names_and_types() {
    let body = Value::Null;
    let cases = vec![
        (KnownTool::Bash20250124 { body: body.clone() }, "bash", "bash_20250124"),
        (
            KnownTool::TextEditor20250124 { body: body.clone() },
            "str_replace_editor",
            "text_editor_20250124",
        ),
        (
            KnownTool::TextEditor20250429 { body: body.clone() },
            "str_replace_editor",
            "text_editor_20250124",
        ),
        (
            KnownTool::TextEditor20250728 { body: body.clone() },
            "str_replace_editor",
            "text_editor_20250124",
        ),
        (
            KnownTool::WebSearch20250305 { body: body.clone() },
            "web_search",
            "web_search_20250305",
        ),
    ];
    for (known, name, type_) in cases {
        let tool = Tool::from_claude_tool(&ClaudeTool::Known(known)).unwrap();
        assert_eq!(tool.name, name);
        assert_eq!(tool.type_, type_);
        assert_eq!(tool.description, None);
        assert_eq!(tool.input_schema, Some(open_schema()));
        assert!(!should_skip_type(&tool.type_));
    }
}

#[test]
fn raw_tools_are_read_member_by_member() {
    let schema = object(vec![("type", Value::from("object"))]);
    let raw = object(vec![
        ("name", Value::from("computer")),
        ("type", Value::from("computer_20250124")),
        ("description", Value::from("A screen")),
        ("input_schema", schema.clone()),
    ]);
    let tool = Tool::from_claude_tool(&ClaudeTool::Raw(raw)).unwrap();
    assert_eq!(tool.name, "computer");
    assert_eq!(tool.type_, "computer_20250124");
    assert_eq!(tool.description.as_deref(), Some("A screen"));
    assert_eq!(tool.input_schema, Some(schema));
}

#[test]
fn raw_tools_without_a_type_are_custom() {
    let raw = object(vec![("name", Value::from("memo")), ("type", Value::from(7))]);
    let tool = Tool::from_claude_tool(&ClaudeTool::Raw(raw)).unwrap();
    assert_eq!(tool.type_, "custom");
    assert_eq!(tool.description, None);
    assert_eq!(tool.input_schema, None);
    assert!(should_skip_type(&tool.type_));
}

#[test]
fn raw_tools_keep_an_empty_type() {
    let raw = object(vec![("name", Value::from("memo")), ("type", Value::from(""))]);
    assert_eq!(Tool::from_claude_tool(&ClaudeTool::Raw(raw)).unwrap().type_, "");
}

#[test]
fn raw_tools_need_a_name() {
    let unnamed = vec![
        object(vec![("type", Value::from("x"))]),
        object(vec![("name", Value::from(""))]),
        object(vec![("name", Value::from(3))]),
        Value::Null,
        Value::from("name"),
        Value::Array(vec![Value::from("name")]),
    ];
    for raw in unnamed {
        assert!(Tool::from_claude_tool(&ClaudeTool::Raw(raw)).is_none());
    }
}

#[test]
fn raw_members_decide_on_the_name_alone() {
    assert!(Tool::from_raw_members(None, Some("t".to_string()), None, None).is_none());
    assert!(Tool::from_raw_members(Some(String::new()), None, None, None).is_none());
    let tool = Tool::from_raw_members(Some("n".to_string()), None, None, None).unwrap();
    assert_eq!((tool.name.as_str(), tool.type_.as_str()), ("n", "custom"));
}

#[test]
fn a_copied_tool_is_the_same_tool() {
    let tool = Tool::from_raw_members(
        Some("n".to_string()),
        Some("t".to_string()),
        Some("d".to_string()),
        Some(open_schema()),
    )
    .unwrap();
    let copy = tool.clone();
    assert_eq!(copy.name, tool.name);
    assert_eq!(copy.type_, tool.type_);
    assert_eq!(copy.description, tool.description);
    assert_eq!(copy.input_schema, tool.input_schema);
}
