//! The body of a request to the web endpoint.
use crate::claude::{CustomTool, CustomToolType, ImageSource, KnownTool, Tool as ClaudeTool};
use crate::json::{get_member, get_text, json_object, json_shape, json_string, text_member, JsonShape};
use crate::text::{opt_text, same_text};
use serde_json::Value;
use vstd::prelude::*;
use vstd::utf8::encode_utf8;

verus! {

/// A text file that is pasted into a conversation.
#[derive(Debug)]
pub struct Attachment {
    pub extracted_content: String,
    pub file_name: String,
    pub file_type: String,
    pub file_size: u64,
}

impl Attachment {
    /// Attaches `content` as the text file `paste.txt`; its size is the number of
    /// bytes of its UTF-8 form.
    pub fn new(content: String) -> (attachment: Self)
        ensures
            attachment.extracted_content == content,
            attachment.file_name@ == "paste.txt"@,
            attachment.file_type@ == "txt"@,
            attachment.file_size as nat == encode_utf8(content@).len(),
    {
        let file_size: u64 = content.as_str().as_bytes().len() as u64;
        Attachment {
            file_size,
            extracted_content: content,
            file_name: "paste.txt".to_owned(),
            file_type: "txt".to_owned(),
        }
    }
}

/// The body of a request to the web endpoint.
#[derive(Debug)]
pub struct WebRequestBody {
    pub max_tokens_to_sample: u32,
    pub attachments: Vec<Attachment>,
    pub files: Vec<String>,
    pub model: Option<String>,
    pub rendering_mode: String,
    pub prompt: String,
    pub timezone: String,
    pub images: Vec<ImageSource>,
    pub tools: Vec<Tool>,
}

/// A tool as the web endpoint wants it.
#[derive(Debug)]
pub struct Tool {
    pub name: String,
    pub type_: String,
    pub description: Option<String>,
    pub input_schema: Option<Value>,
}

/// A tool as a mathematical value.
pub ghost struct ToolView {
    pub name: Seq<char>,
    pub type_: Seq<char>,
    pub description: Option<Seq<char>>,
    pub input_schema: Option<Value>,
}

impl View for Tool {
    type V = ToolView;

    open spec fn view(&self) -> ToolView {
        ToolView {
            name: self.name@,
            type_: self.type_@,
            description: opt_text(self.description),
            input_schema: self.input_schema,
        }
    }
}

impl Clone for Tool {
    fn clone(&self) -> (copy: Self)
        ensures
            copy@ == self@,
    {
        Tool {
            name: self.name.clone(),
            type_: self.type_.clone(),
            description: self.description.clone(),
            input_schema: self.input_schema.clone(),
        }
    }
}

/// A tool of this type is sent without its type.
pub open spec fn skips_type(type_: Seq<char>) -> bool {
    type_ == "custom"@ || type_.len() == 0
}

/// Tells whether a tool of this type is sent without its type.
pub fn should_skip_type(type_: &str) -> (skip: bool)
    ensures
        skip == skips_type(type_@),
{
    same_text(type_, "custom") || type_.is_empty()
}

/// The name under which a known tool is sent.
pub open spec fn known_tool_name(tool: KnownTool) -> Seq<char> {
    match tool {
        KnownTool::Bash20250124 { .. } => "bash"@,
        KnownTool::TextEditor20250124 { .. } => "str_replace_editor"@,
        KnownTool::TextEditor20250429 { .. } => "str_replace_editor"@,
        KnownTool::TextEditor20250728 { .. } => "str_replace_editor"@,
        KnownTool::WebSearch20250305 { .. } => "web_search"@,
    }
}

/// The type under which a known tool is sent.
pub open spec fn known_tool_type(tool: KnownTool) -> Seq<char> {
    match tool {
        KnownTool::Bash20250124 { .. } => "bash_20250124"@,
        KnownTool::TextEditor20250124 { .. } => "text_editor_20250124"@,
        KnownTool::TextEditor20250429 { .. } => "text_editor_20250124"@,
        KnownTool::TextEditor20250728 { .. } => "text_editor_20250124"@,
        KnownTool::WebSearch20250305 { .. } => "web_search_20250305"@,
    }
}

/// The schema of an object without properties: `{"type": "object", "properties": {}}`.
pub open spec fn is_open_object_schema(schema: Value) -> bool {
    match json_shape(schema) {
        JsonShape::Object(members) => {
            &&& members.dom() == set!["type"@, "properties"@]
            &&& json_shape(members["type"@]) == JsonShape::Text("object"@)
            &&& json_shape(members["properties"@]) == JsonShape::Object(Map::empty())
        },
        _ => false,
    }
}

/// A tool that the caller defines, as the web endpoint wants it.
pub open spec fn custom_tool(custom: CustomTool) -> ToolView {
    ToolView {
        name: custom.name@,
        type_: "custom"@,
        description: opt_text(custom.description),
        input_schema: Some(custom.input_schema),
    }
}

/// A tool of no known form: it needs a name, and without a type it is custom.
pub open spec fn raw_tool(
    name: Option<Seq<char>>,
    type_: Option<Seq<char>>,
    description: Option<Seq<char>>,
    input_schema: Option<Value>,
) -> Option<ToolView> {
    match name {
        Some(name) => if name.len() == 0 {
            None
        } else {
            Some(
                ToolView {
                    name,
                    type_: match type_ {
                        Some(t) => t,
                        None => "custom"@,
                    },
                    description,
                    input_schema,
                },
            )
        },
        None => None,
    }
}

/// An optional tool as a mathematical value.
pub open spec fn opt_tool(tool: Option<Tool>) -> Option<ToolView> {
    match tool {
        Some(t) => Some(t@),
        None => None,
    }
}

fn open_object_schema() -> (schema: Value)
    ensures
        is_open_object_schema(schema),
{
    let none: Vec<(String, Value)> = Vec::new();
    let mut members: Vec<(String, Value)> = Vec::new();
    let kind = json_string("object".to_owned());
    let properties = json_object(none);
    members.push(("type".to_owned(), kind));
    members.push(("properties".to_owned(), properties));
    proof {
        reveal_strlit("type");
        reveal_strlit("properties");
        assert("type"@.len() != "properties"@.len());
        let all = members@;
        assert(all.drop_last().drop_last() =~= Seq::<(String, Value)>::empty());
        reveal_with_fuel(crate::json::object_of, 3);
        assert(crate::json::object_of(all).dom() =~= set!["type"@, "properties"@]);
    }
    json_object(members)
}

impl Tool {
    /// The search of the web endpoint itself.
    pub fn web_search() -> (tool: Self)
        ensures
            tool@ == (ToolView {
                name: "web_search"@,
                type_: "web_search_v0"@,
                description: None,
                input_schema: None,
            }),
    {
        Tool {
            name: "web_search".to_owned(),
            type_: "web_search_v0".to_owned(),
            description: None,
            input_schema: None,
        }
    }

    /// Builds a tool of no known form out of the members that were found.
    pub fn from_raw_members(
        name: Option<String>,
        type_: Option<String>,
        description: Option<String>,
        input_schema: Option<Value>,
    ) -> (tool: Option<Self>)
        ensures
            opt_tool(tool) == raw_tool(
                opt_text(name),
                opt_text(type_),
                opt_text(description),
                input_schema,
            ),
    {
        let name: String = match name {
            Some(name) => name,
            None => "".to_owned(),
        };
        let type_: String = match type_ {
            Some(type_) => type_,
            None => "custom".to_owned(),
        };
        proof {
            reveal_strlit("");
        }
        if name.as_str().is_empty() {
            None
        } else {
            Some(Tool { type_, name, description, input_schema })
        }
    }

    /// Turns a tool of a request into what the web endpoint wants. Only a tool of
    /// no known form can fail, and only for want of a name.
    pub fn from_claude_tool(tool: &ClaudeTool) -> (result: Option<Self>)
        ensures
            match *tool {
                ClaudeTool::Custom(custom) => opt_tool(result) == Some(
                    ToolView {
                        name: custom.name@,
                        type_: "custom"@,
                        description: opt_text(custom.description),
                        input_schema: Some(custom.input_schema),
                    },
                ) && opt_tool(result) == Some(custom_tool(custom)),
                ClaudeTool::Known(known) => match result {
                    Some(t) => {
                        &&& t@.name == known_tool_name(known)
                        &&& t@.type_ == known_tool_type(known)
                        &&& t@.description is None
                        &&& t@.input_schema is Some
                        &&& is_open_object_schema(t@.input_schema->0)
                    },
                    None => false,
                },
                ClaudeTool::Raw(value) => opt_tool(result) == raw_tool(
                    text_member(value, "name"@),
                    text_member(value, "type"@),
                    text_member(value, "description"@),
                    json_shape(value).member("input_schema"@),
                ),
            },
    {
        match tool {
            ClaudeTool::Custom(custom) => {
                let type_: String = match custom.type_ {
                    Some(CustomToolType::Custom) => "custom".to_owned(),
                    None => "custom".to_owned(),
                };
                Some(
                    Tool {
                        name: custom.name.clone(),
                        type_,
                        description: custom.description.clone(),
                        input_schema: Some(custom.input_schema.clone()),
                    },
                )
            },
            ClaudeTool::Known(known) => {
                let (name, type_): (String, String) = match known {
                    KnownTool::Bash20250124 { .. } => (
                        "bash".to_owned(),
                        "bash_20250124".to_owned(),
                    ),
                    KnownTool::TextEditor20250124 { .. }
                    | KnownTool::TextEditor20250429 { .. }
                    | KnownTool::TextEditor20250728 { .. } => (
                        "str_replace_editor".to_owned(),
                        "text_editor_20250124".to_owned(),
                    ),
                    KnownTool::WebSearch20250305 { .. } => (
                        "web_search".to_owned(),
                        "web_search_20250305".to_owned(),
                    ),
                };
                Some(
                    Tool {
                        name,
                        type_,
                        description: None,
                        input_schema: Some(open_object_schema()),
                    },
                )
            },
            ClaudeTool::Raw(value) => Tool::from_raw_members(
                get_text(value, "name"),
                get_text(value, "type"),
                get_text(value, "description"),
                get_member(value, "input_schema"),
            ),
        }
    }
}

/// The type of a known tool is always sent, and so is that of the web search.
pub proof fn law_known_tools_keep_their_type(tool: KnownTool)
    ensures
        !skips_type(known_tool_type(tool)),
        !skips_type("web_search_v0"@),
{
    reveal_strlit("custom");
    reveal_strlit("bash_20250124");
    reveal_strlit("text_editor_20250124");
    reveal_strlit("web_search_20250305");
    reveal_strlit("web_search_v0");
    assert("bash_20250124"@.len() != "custom"@.len());
    assert("text_editor_20250124"@.len() != "custom"@.len());
    assert("web_search_20250305"@.len() != "custom"@.len());
    assert("web_search_v0"@.len() != "custom"@.len());
}

/// A tool of no known form that becomes a tool has a name; where it brings no
/// type it counts as custom, and its type is not sent.
pub proof fn law_raw_tools_are_named(
    name: Option<Seq<char>>,
    type_: Option<Seq<char>>,
    description: Option<Seq<char>>,
    input_schema: Option<Value>,
)
    requires
        raw_tool(name, type_, description, input_schema) is Some,
    ensures
        raw_tool(name, type_, description, input_schema)->0.name.len() > 0,
        type_ is None ==> skips_type(raw_tool(name, type_, description, input_schema)->0.type_),
{
}

/// A tool of no known form keeps every member that it brings: its name, its
/// description and its schema as they are, and its type where it has one. Without
/// a type it is custom, and it is refused exactly for want of a name.
pub proof fn law_raw_tools_keep_their_members(
    name: Option<Seq<char>>,
    type_: Option<Seq<char>>,
    description: Option<Seq<char>>,
    input_schema: Option<Value>,
)
    ensures
        raw_tool(name, type_, description, input_schema) is Some <==> name is Some && name->0.len()
            > 0,
        raw_tool(name, type_, description, input_schema) matches Some(tool) ==> {
            &&& tool.name == name->0
            &&& tool.description == description
            &&& tool.input_schema == input_schema
            &&& type_ is Some ==> tool.type_ == type_->0
            &&& type_ is None ==> tool.type_ == "custom"@
        },
{
}

/// Known tools are sent under fixed names and types; every text editor is sent as
/// the first one.
pub proof fn law_names_of_known_tools(tool: KnownTool)
    ensures
        tool is Bash20250124 ==> known_tool_name(tool) == "bash"@ && known_tool_type(tool)
            == "bash_20250124"@,
        tool is TextEditor20250124 || tool is TextEditor20250429 || tool is TextEditor20250728 ==> {
            &&& known_tool_name(tool) == "str_replace_editor"@
            &&& known_tool_type(tool) == "text_editor_20250124"@
        },
        tool is WebSearch20250305 ==> known_tool_name(tool) == "web_search"@ && known_tool_type(tool)
            == "web_search_20250305"@,
{
}

/// Exactly the type `custom` and the empty type are left out.
pub proof fn law_which_types_are_left_out(type_: Seq<char>)
    ensures
        skips_type(type_) <==> type_ == "custom"@ || type_ == Seq::<char>::empty(),
{
    if type_.len() == 0 {
        assert(type_ =~= Seq::<char>::empty());
    }
}

/// The schema of a known tool is that of an object, has no properties, and has no
/// other member.
pub proof fn law_open_schema_has_two_members(schema: Value, key: Seq<char>)
    requires
        is_open_object_schema(schema),
    ensures
        text_member(schema, "type"@) == Some("object"@),
        json_shape(schema).member("properties"@) matches Some(properties) && json_shape(properties)
            == JsonShape::Object(Map::empty()),
        key != "type"@ && key != "properties"@ ==> json_shape(schema).member(key) is None,
{
    match json_shape(schema) {
        JsonShape::Object(members) => {
            assert(members.dom().contains("type"@));
            assert(members.dom().contains("properties"@));
            if key != "type"@ && key != "properties"@ {
                assert(!members.dom().contains(key));
            }
        },
        _ => {},
    }
}

/// A tool is seen with all its members, and two tools that are seen alike have the
/// same.
pub proof fn law_a_tool_is_seen_whole(tool: Tool)
    ensures
        tool@.name == tool.name@,
        tool@.type_ == tool.type_@,
        tool.description is Some ==> tool@.description == Some(tool.description->0@),
        tool.description is None ==> tool@.description is None,
        tool@.input_schema == tool.input_schema,
        opt_tool(Some(tool)) == Some(tool@),
        opt_tool(None) is None,
{
}

/// A tool that the caller defines keeps its name, its description and its schema,
/// and is sent without its type.
pub proof fn law_custom_tools_keep_their_members(custom: CustomTool)
    ensures
        custom_tool(custom).name == custom.name@,
        custom.description matches Some(text) ==> custom_tool(custom).description == Some(text@),
        custom.description is None ==> custom_tool(custom).description is None,
        custom_tool(custom).input_schema == Some(custom.input_schema),
        custom_tool(custom).type_ == "custom"@,
        skips_type(custom_tool(custom).type_),
{
}

} // verus!
