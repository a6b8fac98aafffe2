//! Extraction of a structured action from free-form model output: the
//! whole text as JSON, then a fenced block, then any balanced object.

use vstd::prelude::*;
use crate::text::{
    free_of, is_blank, is_white_space, lemma_trim_idempotent, lemma_trim_identity,
    lemma_trim_keeps_core, lemma_trim_padded,
};
use crate::text::{chars_of, find_chars, find_from, lemma_find_from, occurs_at, same_text, string_of_range, trim, trim_spec};

verus! {

/// An action requested by the model: a discriminator and the fields of the
/// five known tools. A field that the model left out is empty.
#[derive(Debug, PartialEq, Eq)]
pub struct ToolCall {
    /// Which tool to invoke.
    pub tool: String,
    /// For `run_cmd`: the shell command.
    pub command: String,
    /// For `run_python`: the program text.
    pub code: String,
    /// For `read_file` and `write_file`: the file path.
    pub path: String,
    /// For `write_file`: what to write.
    pub content: String,
    /// For `search`: the file-name pattern.
    pub pattern: String,
    /// For `search`: where to search.
    pub directory: String,
}

/// A tool call as plain values.
pub struct ToolCallView {
    pub tool: Seq<char>,
    pub command: Seq<char>,
    pub code: Seq<char>,
    pub path: Seq<char>,
    pub content: Seq<char>,
    pub pattern: Seq<char>,
    pub directory: Seq<char>,
}

impl View for ToolCall {
    type V = ToolCallView;

    open spec fn view(&self) -> ToolCallView {
        ToolCallView {
            tool: self.tool@,
            command: self.command@,
            code: self.code@,
            path: self.path@,
            content: self.content@,
            pattern: self.pattern@,
            directory: self.directory@,
        }
    }
}

impl Clone for ToolCall {
    fn clone(&self) -> (copy: Self)
        ensures
            copy == *self,
    {
        ToolCall {
            tool: self.tool.clone(),
            command: self.command.clone(),
            code: self.code.clone(),
            path: self.path.clone(),
            content: self.content.clone(),
            pattern: self.pattern.clone(),
            directory: self.directory.clone(),
        }
    }
}

/// One member of a JSON object: its name, and its value where that is a
/// string.
#[derive(Debug, PartialEq, Eq)]
pub struct JsonEntry {
    /// The member's name.
    pub name: String,
    /// The member's value if it is a JSON string, `None` for any other
    /// kind of value.
    pub text: Option<String>,
}

/// A member of a JSON object as plain values.
pub struct JsonEntryView {
    pub name: Seq<char>,
    pub text: Option<Seq<char>>,
}

impl View for JsonEntry {
    type V = JsonEntryView;

    open spec fn view(&self) -> JsonEntryView {
        JsonEntryView {
            name: self.name@,
            text: match self.text {
                Some(t) => Some(t@),
                None => None,
            },
        }
    }
}

/// The members of an object as plain values.
pub open spec fn entries_view(entries: Seq<JsonEntry>) -> Seq<JsonEntryView> {
    Seq::new(entries.len(), |i: int| entries[i]@)
}

/// What a parse of an object hands back, as plain values.
pub open spec fn parsed_view(parsed: Option<Vec<JsonEntry>>) -> Option<Seq<JsonEntryView>> {
    match parsed {
        Some(entries) => Some(entries_view(entries@)),
        None => None,
    }
}

/// A name for what `serde_json` makes of a text that is read as one JSON
/// object: the object's members in the order in which the parsed map hands
/// them out, or `None` where the text is not exactly one JSON object.
pub uninterp spec fn json_object_entries(text: Seq<char>) -> Option<Seq<JsonEntryView>>;

/// Whether a text, without the whitespace around it, starts with an
/// opening brace and ends with a closing one.
pub open spec fn is_braced(text: Seq<char>) -> bool {
    let inner = trim_spec(text);
    inner.len() >= 2 && inner.first() == '{' && inner.last() == '}'
}

/// The members of the one JSON object that a text is, or `None` where it
/// is not one: a text that is one stands in braces.
pub open spec fn object_entries(text: Seq<char>) -> Option<Seq<JsonEntryView>> {
    if is_braced(text) {
        json_object_entries(text)
    } else {
        None
    }
}

/// `serde_json::from_str` with a `serde_json::Map` as target: the text must
/// be one JSON object, with nothing but whitespace around it, so a text
/// that is read starts with an opening brace and ends with a closing one
/// once the whitespace is off. Each member is handed out with its name;
/// its value is kept where it is a string.
#[verifier::external_body]
fn parse_json_object(text: &str) -> (parsed: Option<Vec<JsonEntry>>)
    ensures
        parsed_view(parsed) == json_object_entries(text@),
        parsed is Some ==> is_braced(text@),
{
    let map: serde_json::Map<String, serde_json::Value> = serde_json::from_str(text).ok()?;
    Some(map.into_iter().map(|(name, value)| match value {
        serde_json::Value::String(text) => JsonEntry { name, text: Some(text) },
        _ => JsonEntry { name, text: None },
    }).collect())
}

/// The first member named `name`: `None` where there is none, otherwise
/// its string value, or `None` inside where the value is not a string.
pub open spec fn lookup(entries: Seq<JsonEntryView>, name: Seq<char>) -> Option<Option<Seq<char>>>
    decreases entries.len(),
{
    if entries.len() == 0 {
        None
    } else if entries[0].name == name {
        Some(entries[0].text)
    } else {
        lookup(entries.drop_first(), name)
    }
}

/// The text of an optional field: empty where the member is missing, the
/// string where it is one, and `None` where the member has another kind.
pub open spec fn optional_field(entries: Seq<JsonEntryView>, name: Seq<char>) -> Option<Seq<char>> {
    match lookup(entries, name) {
        None => Some(Seq::empty()),
        Some(Some(text)) => Some(text),
        Some(None) => None,
    }
}

/// The tool call that an object stands for: it needs a member `tool` that
/// is a string; each of the other six fields is taken from the member of
/// its name, is empty where that is missing, and makes the object no tool
/// call where it is not a string. Other members are ignored.
pub open spec fn tool_call_of(entries: Seq<JsonEntryView>) -> Option<ToolCallView> {
    match lookup(entries, "tool"@) {
        Some(Some(tool)) => {
            let command = optional_field(entries, "command"@);
            let code = optional_field(entries, "code"@);
            let path = optional_field(entries, "path"@);
            let content = optional_field(entries, "content"@);
            let pattern = optional_field(entries, "pattern"@);
            let directory = optional_field(entries, "directory"@);
            if command is Some && code is Some && path is Some && content is Some && pattern is Some
                && directory is Some {
                Some(
                    ToolCallView {
                        tool,
                        command: command->0,
                        code: code->0,
                        path: path->0,
                        content: content->0,
                        pattern: pattern->0,
                        directory: directory->0,
                    },
                )
            } else {
                None
            }
        },
        _ => None,
    }
}

/// The tool call that a text stands for when it is read as one JSON
/// object.
pub open spec fn json_tool(text: Seq<char>) -> Option<ToolCallView> {
    match object_entries(text) {
        Some(entries) => tool_call_of(entries),
        None => None,
    }
}

/// Whether a discriminator names one of the five known tools.
pub open spec fn is_known_tool(tool: Seq<char>) -> bool {
    tool == "run_cmd"@ || tool == "read_file"@ || tool == "write_file"@ || tool == "search"@
        || tool == "run_python"@
}

/// The view of an optional tool call.
pub open spec fn tool_view(tool: Option<ToolCall>) -> Option<ToolCallView> {
    match tool {
        Some(t) => Some(t@),
        None => None,
    }
}

enum Field {
    Missing,
    Text(String),
    Other,
}

fn find_entry(entries: &Vec<JsonEntry>, name: &str) -> (found: Field)
    ensures
        match found {
            Field::Missing => lookup(entries_view(entries@), name@) is None,
            Field::Text(text) => lookup(entries_view(entries@), name@) == Some(Some(text@)),
            Field::Other => lookup(entries_view(entries@), name@) == Some(None::<Seq<char>>),
        },
{
    let ghost all = entries_view(entries@);
    let mut i: usize = 0;
    proof {
        assert(all.skip(0) == all);
    }
    while i < entries.len()
        invariant
            i <= entries.len(),
            all == entries_view(entries@),
            lookup(all, name@) == lookup(all.skip(i as int), name@),
        decreases entries.len() - i,
    {
        proof {
            assert(all.skip(i as int)[0] == entries@[i as int]@);
            assert(all.skip(i as int).drop_first() == all.skip(i + 1));
        }
        if same_text(entries[i].name.as_str(), name) {
            return match &entries[i].text {
                Some(text) => Field::Text(text.clone()),
                None => Field::Other,
            };
        }
        i += 1;
    }
    Field::Missing
}

fn optional_text(entries: &Vec<JsonEntry>, name: &str) -> (text: Option<String>)
    ensures
        match text {
            Some(t) => optional_field(entries_view(entries@), name@) == Some(t@),
            None => optional_field(entries_view(entries@), name@) is None,
        },
{
    match find_entry(entries, name) {
        Field::Missing => Some(String::new()),
        Field::Text(text) => Some(text),
        Field::Other => None,
    }
}

impl ToolCall {
    /// A call of `tool` with `command` as its command and every other
    /// field empty.
    pub fn new(tool: &str, command: &str) -> (call: Self)
        ensures
            call@ == (ToolCallView {
                tool: tool@,
                command: command@,
                code: Seq::empty(),
                path: Seq::empty(),
                content: Seq::empty(),
                pattern: Seq::empty(),
                directory: Seq::empty(),
            }),
    {
        ToolCall {
            tool: tool.to_owned(),
            command: command.to_owned(),
            code: String::new(),
            path: String::new(),
            content: String::new(),
            pattern: String::new(),
            directory: String::new(),
        }
    }

    /// A `run_cmd` call of `command`.
    pub fn run_cmd(command: &str) -> (call: Self)
        ensures
            call@.tool == "run_cmd"@,
            call@.command == command@,
            call@.code.len() == 0 && call@.path.len() == 0 && call@.content.len() == 0
                && call@.pattern.len() == 0 && call@.directory.len() == 0,
    {
        ToolCall::new("run_cmd", command)
    }

    /// Whether the discriminator is `run_cmd`.
    pub fn is_run_cmd(&self) -> (b: bool)
        ensures
            b == (self@.tool == "run_cmd"@),
    {
        same_text(self.tool.as_str(), "run_cmd")
    }

    /// Whether the discriminator is `run_python`.
    pub fn is_run_python(&self) -> (b: bool)
        ensures
            b == (self@.tool == "run_python"@),
    {
        same_text(self.tool.as_str(), "run_python")
    }

    /// Whether the discriminator is `read_file`.
    pub fn is_read_file(&self) -> (b: bool)
        ensures
            b == (self@.tool == "read_file"@),
    {
        same_text(self.tool.as_str(), "read_file")
    }

    /// Whether the discriminator is `write_file`.
    pub fn is_write_file(&self) -> (b: bool)
        ensures
            b == (self@.tool == "write_file"@),
    {
        same_text(self.tool.as_str(), "write_file")
    }

    /// Whether the discriminator is `search`.
    pub fn is_search(&self) -> (b: bool)
        ensures
            b == (self@.tool == "search"@),
    {
        same_text(self.tool.as_str(), "search")
    }

    /// Whether the discriminator names one of the five known tools.
    pub fn is_allowed_tool(&self) -> (b: bool)
        ensures
            b == is_known_tool(self@.tool),
    {
        self.is_run_cmd() || self.is_read_file() || self.is_write_file() || self.is_search()
            || self.is_run_python()
    }

    /// Whether the tool changes files by itself: `write_file` does.
    pub fn is_destructive(&self) -> (b: bool)
        ensures
            b == (self@.tool == "write_file"@),
    {
        self.is_write_file()
    }

    /// The tool call that the members of a JSON object stand for, as
    /// `tool_call_of` defines it.
    pub fn from_json_entries(entries: &Vec<JsonEntry>) -> (call: Option<Self>)
        ensures
            tool_view(call) == tool_call_of(entries_view(entries@)),
    {
        let tool = match find_entry(entries, "tool") {
            Field::Text(text) => text,
            _ => {
                return None;
            },
        };
        let command = optional_text(entries, "command");
        let code = optional_text(entries, "code");
        let path = optional_text(entries, "path");
        let content = optional_text(entries, "content");
        let pattern = optional_text(entries, "pattern");
        let directory = optional_text(entries, "directory");
        match (command, code, path, content, pattern, directory) {
            (
                Some(command),
                Some(code),
                Some(path),
                Some(content),
                Some(pattern),
                Some(directory),
            ) => Some(ToolCall { tool, command, code, path, content, pattern, directory }),
            _ => None,
        }
    }

    /// The tool call that `text` stands for when all of it is read as one
    /// JSON object.
    pub fn try_parse_json(text: &str) -> (call: Option<Self>)
        ensures
            tool_view(call) == json_tool(text@),
    {
        match parse_json_object(text) {
            Some(entries) => ToolCall::from_json_entries(&entries),
            None => None,
        }
    }
}

/// The text between the first occurrence of `opening` and the next fence
/// after it, trimmed; `None` where either is missing.
pub open spec fn fenced_candidate(text: Seq<char>, opening: Seq<char>) -> Option<Seq<char>> {
    match find_from(text, opening, 0) {
        Some(start) => {
            let content_start = start + opening.len();
            match find_from(text, "```"@, content_start) {
                Some(end) => Some(trim_spec(text.subrange(content_start, end))),
                None => None,
            }
        },
        None => None,
    }
}

/// The tool call in the first fenced block that opens with `opening`.
pub open spec fn fenced_tool(text: Seq<char>, opening: Seq<char>) -> Option<ToolCallView> {
    match fenced_candidate(text, opening) {
        Some(candidate) => json_tool(candidate),
        None => None,
    }
}

/// The tool call found in a fenced block: the first block tagged `json` is
/// tried first, then the first block of any kind.
pub open spec fn markdown_tool(text: Seq<char>) -> Option<ToolCallView> {
    match fenced_tool(text, "```json"@) {
        Some(tool) => Some(tool),
        None => fenced_tool(text, "```"@),
    }
}

/// The brace scan from index `at`, at nesting depth `depth`, with `start`
/// the index of the brace that opened the current top-level object. An
/// opening brace at depth 0 marks a start; a closing brace that brings the
/// depth to 0 ends a candidate, which is returned if it is a tool call.
/// A closing brace without an opening one is passed over: the depth stays
/// at 0 and nothing is marked.
pub open spec fn scan_from(text: Seq<char>, at: int, depth: int, start: Option<int>) -> Option<
    ToolCallView,
>
    decreases text.len() - at,
{
    if at < 0 || at >= text.len() {
        None
    } else if text[at] == '{' {
        scan_from(
            text,
            at + 1,
            depth + 1,
            if depth == 0 {
                Some(at)
            } else {
                start
            },
        )
    } else if text[at] == '}' {
        if depth <= 0 {
            scan_from(text, at + 1, 0, None)
        } else if depth == 1 {
            match start {
                Some(from) => match json_tool(text.subrange(from, at + 1)) {
                    Some(tool) => Some(tool),
                    None => scan_from(text, at + 1, 0, None),
                },
                None => scan_from(text, at + 1, 0, None),
            }
        } else {
            scan_from(text, at + 1, depth - 1, start)
        }
    } else {
        scan_from(text, at + 1, depth, start)
    }
}

/// The tool call that a trimmed response holds: the whole text, else a
/// fenced block, else the first balanced object that is one.
pub open spec fn parse_trimmed(text: Seq<char>) -> Option<ToolCallView> {
    match json_tool(text) {
        Some(tool) => Some(tool),
        None => match markdown_tool(text) {
            Some(tool) => Some(tool),
            None => scan_from(text, 0, 0, None),
        },
    }
}

/// The tool call that a model response holds, if any.
pub open spec fn parse_spec(response: Seq<char>) -> Option<ToolCallView> {
    parse_trimmed(trim_spec(response))
}

impl ToolCall {
    fn try_fenced(text: &[char], opening: &str) -> (call: Option<Self>)
        ensures
            tool_view(call) == fenced_tool(text@, opening@),
    {
        let pattern = chars_of(opening);
        let fence = chars_of("```");
        let start = match find_chars(text, pattern.as_slice(), 0) {
            Some(start) => start,
            None => {
                return None;
            },
        };
        let total = text.len();
        proof {
            lemma_find_from(text@, pattern@, 0);
            assert(occurs_at(text@, pattern@, start as int));
            assert(start + pattern.len() <= total);
        }
        let content_start = start + pattern.len();
        let end = match find_chars(text, fence.as_slice(), content_start) {
            Some(end) => end,
            None => {
                return None;
            },
        };
        proof {
            lemma_find_from(text@, fence@, content_start as int);
        }
        let inner = string_of_range(text, content_start, end);
        let candidate = trim(inner.as_str());
        ToolCall::try_parse_json(candidate.as_str())
    }

    /// The tool call in a fenced block of `text`, as `markdown_tool`
    /// defines it.
    pub fn try_parse_markdown_block(text: &str) -> (call: Option<Self>)
        ensures
            tool_view(call) == markdown_tool(text@),
    {
        let chars = chars_of(text);
        match ToolCall::try_fenced(chars.as_slice(), "```json") {
            Some(call) => Some(call),
            None => ToolCall::try_fenced(chars.as_slice(), "```"),
        }
    }

    /// The first balanced object of `text` that is a tool call, as
    /// `scan_from` defines it.
    pub fn try_find_json_object(text: &str) -> (call: Option<Self>)
        ensures
            tool_view(call) == scan_from(text@, 0, 0, None),
    {
        let chars = chars_of(text);
        let mut depth: usize = 0;
        let mut start: Option<usize> = None;
        let mut i: usize = 0;
        while i < chars.len()
            invariant
                i <= chars.len(),
                chars@ == text@,
                depth <= i,
                start matches Some(from) ==> from < i,
                scan_from(text@, 0, 0, None) == scan_from(
                    text@,
                    i as int,
                    depth as int,
                    match start {
                        Some(from) => Some(from as int),
                        None => None,
                    },
                ),
            decreases chars.len() - i,
        {
            let ch = chars[i];
            if ch == '{' {
                if depth == 0 {
                    start = Some(i);
                }
                depth += 1;
            } else if ch == '}' {
                if depth <= 1 {
                    if depth == 1 {
                        if let Some(from) = start {
                            let candidate = string_of_range(chars.as_slice(), from, i + 1);
                            if let Some(call) = ToolCall::try_parse_json(candidate.as_str()) {
                                return Some(call);
                            }
                        }
                    }
                    depth = 0;
                    start = None;
                } else {
                    depth -= 1;
                }
            }
            i += 1;
        }
        None
    }

    /// The tool call that a model response holds: the trimmed response is
    /// read as one JSON object; failing that, the content of a fenced block
    /// is; failing that, each balanced top-level object in turn. `None`
    /// where none of them is a tool call.
    pub fn parse(response: &str) -> (call: Option<Self>)
        ensures
            tool_view(call) == parse_spec(response@),
    {
        let trimmed = trim(response);
        if let Some(call) = ToolCall::try_parse_json(trimmed.as_str()) {
            return Some(call);
        }
        if let Some(call) = ToolCall::try_parse_markdown_block(trimmed.as_str()) {
            return Some(call);
        }
        ToolCall::try_find_json_object(trimmed.as_str())
    }
}

/// What a model response was read as.
#[derive(Debug, PartialEq, Eq)]
pub enum ParsedResponse {
    /// The model asks for an action.
    ToolCall(ToolCall),
    /// The model answered in plain text.
    TextResponse(String),
}

/// A parsed response as plain values.
pub enum ParsedResponseView {
    ToolCall(ToolCallView),
    TextResponse(Seq<char>),
}

impl View for ParsedResponse {
    type V = ParsedResponseView;

    open spec fn view(&self) -> ParsedResponseView {
        match self {
            ParsedResponse::ToolCall(call) => ParsedResponseView::ToolCall(call@),
            ParsedResponse::TextResponse(text) => ParsedResponseView::TextResponse(text@),
        }
    }
}

impl Clone for ParsedResponse {
    fn clone(&self) -> (copy: Self)
        ensures
            copy == *self,
    {
        match self {
            ParsedResponse::ToolCall(call) => ParsedResponse::ToolCall(call.clone()),
            ParsedResponse::TextResponse(text) => ParsedResponse::TextResponse(text.clone()),
        }
    }
}

/// What a response is read as: the tool call it holds, or else the
/// response itself, unchanged.
pub open spec fn parsed_response_spec(response: Seq<char>) -> ParsedResponseView {
    match parse_spec(response) {
        Some(tool) => ParsedResponseView::ToolCall(tool),
        None => ParsedResponseView::TextResponse(response),
    }
}

impl ParsedResponse {
    /// Reads a model response: a tool call where `ToolCall::parse` finds
    /// one, and otherwise the response as text, character for character.
    pub fn parse(response: &str) -> (parsed: Self)
        ensures
            parsed@ == parsed_response_spec(response@),
    {
        match ToolCall::parse(response) {
            Some(call) => ParsedResponse::ToolCall(call),
            None => ParsedResponse::TextResponse(response.to_owned()),
        }
    }

    /// Whether this is a tool call.
    pub fn is_tool_call(&self) -> (b: bool)
        ensures
            b == (self is ToolCall),
    {
        match self {
            ParsedResponse::ToolCall(_) => true,
            _ => false,
        }
    }

    /// Whether this is a text response.
    pub fn is_text_response(&self) -> (b: bool)
        ensures
            b == (self is TextResponse),
    {
        match self {
            ParsedResponse::TextResponse(_) => true,
            _ => false,
        }
    }

    /// The tool call, where this is one.
    pub fn as_tool_call(&self) -> (call: Option<&ToolCall>)
        ensures
            match self {
                ParsedResponse::ToolCall(c) => call == Some(c),
                ParsedResponse::TextResponse(_) => call is None,
            },
    {
        match self {
            ParsedResponse::ToolCall(call) => Some(call),
            _ => None,
        }
    }

    /// The text, where this is a text response.
    pub fn as_text_response(&self) -> (text: Option<&str>)
        ensures
            match self {
                ParsedResponse::TextResponse(t) => text matches Some(s) && s@ == t@,
                ParsedResponse::ToolCall(_) => text is None,
            },
    {
        match self {
            ParsedResponse::TextResponse(text) => Some(text.as_str()),
            _ => None,
        }
    }
}

/// Whether a member of an object carries the value of a field: the
/// member is a string with that value, or it is missing and the value is
/// empty.
pub open spec fn carries(entries: Seq<JsonEntryView>, name: Seq<char>, value: Seq<char>) -> bool {
    lookup(entries, name) == Some(Some(value)) || (lookup(entries, name) is None && value.len()
        == 0)
}

/// Whether an object is a serialization of a tool call: it has the
/// discriminator, and carries each of the six fields.
pub open spec fn serializes(entries: Seq<JsonEntryView>, tool: ToolCallView) -> bool {
    &&& lookup(entries, "tool"@) == Some(Some(tool.tool))
    &&& carries(entries, "command"@, tool.command)
    &&& carries(entries, "code"@, tool.code)
    &&& carries(entries, "path"@, tool.path)
    &&& carries(entries, "content"@, tool.content)
    &&& carries(entries, "pattern"@, tool.pattern)
    &&& carries(entries, "directory"@, tool.directory)
}

/// Whether a text, once trimmed, is read as a JSON object that is a
/// serialization of a tool call.
pub open spec fn is_serialization(text: Seq<char>, tool: ToolCallView) -> bool {
    object_entries(trim_spec(text)) matches Some(entries) && serializes(entries, tool)
}

/// Whether no two members of the list have the same name, and each is a
/// string.
pub open spec fn plain_members(entries: Seq<JsonEntryView>) -> bool {
    &&& forall|i: int| 0 <= i < entries.len() ==> (#[trigger] entries[i]).text is Some
    &&& forall|i: int, j: int|
        0 <= i < j < entries.len() ==> (#[trigger] entries[i]).name != (#[trigger] entries[j]).name
}

/// Whether a text is read as one JSON object whose members have the same
/// names and values as `entries`.
pub open spec fn reads_back(text: Seq<char>, entries: Seq<JsonEntryView>) -> bool {
    object_entries(text) matches Some(parsed) && forall|name: Seq<char>|
        #[trigger] lookup(parsed, name) == lookup(entries, name)
}

/// `serde_json::Value::to_string` on an object whose members are strings:
/// the compact JSON text of the object. It is believed of `serde_json`
/// that the text stands in braces with no whitespace around it, and that
/// reading it back as one JSON object gives members with the same names
/// and values.
#[verifier::external_body]
fn write_json_object(entries: &Vec<JsonEntry>) -> (text: String)
    requires
        plain_members(entries_view(entries@)),
    ensures
        trim_spec(text@) == text@,
        reads_back(text@, entries_view(entries@)),
{
    let members = entries.iter().map(
        |e| (e.name.clone(), serde_json::Value::String(e.text.clone().unwrap_or_default())),
    );
    serde_json::Value::Object(members.collect()).to_string()
}

fn member(name: &str, value: &String) -> (entry: JsonEntry)
    ensures
        entry@ == (JsonEntryView { name: name@, text: Some(value@) }),
{
    JsonEntry { name: name.to_owned(), text: Some(value.clone()) }
}

impl ToolCall {
    /// The tool call as the text of a JSON object with a member for the
    /// discriminator and for each of the six fields.
    pub fn to_json(&self) -> (text: String)
        ensures
            is_serialization(text@, self@),
    {
        let mut entries: Vec<JsonEntry> = Vec::new();
        entries.push(member("tool", &self.tool));
        entries.push(member("command", &self.command));
        entries.push(member("code", &self.code));
        entries.push(member("path", &self.path));
        entries.push(member("content", &self.content));
        entries.push(member("pattern", &self.pattern));
        entries.push(member("directory", &self.directory));
        proof {
            reveal_strlit("tool");
            reveal_strlit("command");
            reveal_strlit("code");
            reveal_strlit("path");
            reveal_strlit("content");
            reveal_strlit("pattern");
            reveal_strlit("directory");
            let all = entries_view(entries@);
            assert("tool"@.len() == 4 && "command"@.len() == 7 && "code"@.len() == 4 && "path"@.len()
                == 4 && "content"@.len() == 7 && "pattern"@.len() == 7 && "directory"@.len() == 9);
            assert("tool"@[0] == 't' && "code"@[0] == 'c' && "path"@[0] == 'p');
            assert("command"@[2] == 'm' && "content"@[2] == 'n' && "pattern"@[0] == 'p');
            assert(all[0].name == "tool"@ && all[1].name == "command"@ && all[2].name == "code"@
                && all[3].name == "path"@ && all[4].name == "content"@ && all[5].name
                == "pattern"@ && all[6].name == "directory"@);
            assert(plain_members(all));
            reveal_with_fuel(lookup, 8);
            assert(serializes(all, self@));
        }
        let text = write_json_object(&entries);
        proof {
            let parsed = object_entries(text@)->0;
            let all = entries_view(entries@);
            assert(lookup(parsed, "tool"@) == lookup(all, "tool"@));
            assert(lookup(parsed, "command"@) == lookup(all, "command"@));
            assert(lookup(parsed, "code"@) == lookup(all, "code"@));
            assert(lookup(parsed, "path"@) == lookup(all, "path"@));
            assert(lookup(parsed, "content"@) == lookup(all, "content"@));
            assert(lookup(parsed, "pattern"@) == lookup(all, "pattern"@));
            assert(lookup(parsed, "directory"@) == lookup(all, "directory"@));
        }
        text
    }
}

/// An object that is a serialization of a tool call stands for that tool
/// call, field by field.
pub proof fn lemma_serialization_recovered(entries: Seq<JsonEntryView>, tool: ToolCallView)
    requires
        serializes(entries, tool),
    ensures
        tool_call_of(entries) == Some(tool),
{
    let found = tool_call_of(entries)->0;
    assert(found.command =~= tool.command);
    assert(found.code =~= tool.code);
    assert(found.path =~= tool.path);
    assert(found.content =~= tool.content);
    assert(found.pattern =~= tool.pattern);
    assert(found.directory =~= tool.directory);
}

/// Parsing a JSON serialization of a tool call yields that tool call,
/// equal on every field, whatever whitespace surrounds it.
pub proof fn lemma_parse_round_trip(text: Seq<char>, tool: ToolCallView)
    requires
        is_serialization(text, tool),
    ensures
        parse_spec(text) == Some(tool),
        parsed_response_spec(text) == ParsedResponseView::ToolCall(tool),
{
    lemma_serialization_recovered(object_entries(trim_spec(text))->0, tool);
}

/// A response that holds no tool call is handed back as text, character
/// for character.
pub proof fn lemma_non_tool_preserved(response: Seq<char>)
    requires
        parse_spec(response) is None,
    ensures
        parsed_response_spec(response) == ParsedResponseView::TextResponse(response),
{
}

/// Every response is read as exactly one of a tool call and a text.
pub proof fn lemma_parse_total(response: Seq<char>)
    ensures
        parsed_response_spec(response) is ToolCall <==> parse_spec(response) is Some,
        parsed_response_spec(response) is TextResponse <==> parse_spec(response) is None,
{
}

/// Whether a text holds no fence: three backticks in a row.
pub open spec fn holds_no_fence(text: Seq<char>) -> bool {
    forall|at: int| !occurs_at(text, "```"@, at)
}

/// A text in a fenced block tagged `json`.
pub open spec fn fenced(json: Seq<char>) -> Seq<char> {
    "```json"@ + seq!['\n'] + json + seq!['\n'] + "```"@
}

/// A text in a fenced block without a tag.
pub open spec fn plain_fenced(json: Seq<char>) -> Seq<char> {
    "```"@ + seq!['\n'] + json + seq!['\n'] + "```"@
}

/// In a block that `opening` opens, around a text that holds no fence,
/// the first fence after the opening is the one that closes the block.
proof fn lemma_closing_fence(opening: Seq<char>, json: Seq<char>)
    requires
        holds_no_fence(json),
    ensures
        find_from(
            opening + seq!['\n'] + json + seq!['\n'] + "```"@,
            "```"@,
            opening.len() as int,
        ) == Some((opening.len() + json.len() + 2) as int),
        forall|at: int|
            opening.len() <= at < opening.len() + json.len() + 2 ==> !occurs_at(
                opening + seq!['\n'] + json + seq!['\n'] + "```"@,
                "```"@,
                at,
            ),
{
    reveal_strlit("```");
    let fence = "```"@;
    let text = opening + seq!['\n'] + json + seq!['\n'] + fence;
    let from = opening.len() as int;
    let n = json.len() as int;
    let close = from + n + 2;
    assert(text.len() == close + 3);
    assert(text[from] == '\n');
    assert(text[close - 1] == '\n');
    assert forall|at: int| from <= at < close implies !occurs_at(text, fence, at) by {
        if occurs_at(text, fence, at) {
            let found = text.subrange(at, at + 3);
            assert(found[0] == '`' && found[1] == '`' && found[2] == '`');
            assert(text[at] == '`' && text[at + 1] == '`' && text[at + 2] == '`');
            assert(at != from);
            assert(at + 2 < close - 1);
            assert(json.subrange(at - from - 1, at - from + 2) =~= fence) by {
                assert forall|k: int| 0 <= k < 3 implies json[at - from - 1 + k] == fence[k] by {
                    assert(json[at - from - 1 + k] == text[at + k]);
                }
            }
            assert(occurs_at(json, fence, at - from - 1));
        }
    }
    assert(text.subrange(close, close + 3) =~= fence);
    assert(occurs_at(text, fence, close));
    lemma_find_from(text, fence, from);
}

/// The content of a block around a text that is a serialization of a tool
/// call is read as that tool call.
proof fn lemma_fenced_content(opening: Seq<char>, json: Seq<char>, tool: ToolCallView)
    requires
        is_serialization(json, tool),
        holds_no_fence(json),
    ensures
        ({
            let text = opening + seq!['\n'] + json + seq!['\n'] + "```"@;
            json_tool(
                trim_spec(
                    text.subrange(opening.len() as int, (opening.len() + json.len() + 2) as int),
                ),
            ) == Some(tool)
        }),
{
    let text = opening + seq!['\n'] + json + seq!['\n'] + "```"@;
    let from = opening.len() as int;
    let newline = seq!['\n'];
    assert(is_blank(newline));
    assert(text.subrange(from, from + json.len() + 2) =~= newline + json + newline);
    lemma_trim_padded(newline, json, newline);
    lemma_trim_idempotent(json);
    lemma_serialization_recovered(object_entries(trim_spec(json))->0, tool);
}

/// Parsing a JSON serialization of a tool call that stands in a fenced
/// block recovers the tool call, whether the block is tagged `json` or
/// not, provided that the serialization holds no fence.
pub proof fn lemma_parse_fenced(json: Seq<char>, tool: ToolCallView)
    requires
        is_serialization(json, tool),
        holds_no_fence(json),
    ensures
        parse_spec(fenced(json)) == Some(tool),
        parse_spec(plain_fenced(json)) == Some(tool),
{
    reveal_strlit("```json");
    reveal_strlit("```");
    let tag = "```json"@;
    let fence = "```"@;
    let n = json.len() as int;
    // The tagged block
    let text = fenced(json);
    assert(text.len() == n + 12);
    assert(text.first() == '`' && text.last() == '`');
    lemma_trim_identity(text);
    assert(!is_braced(text)) by {
        lemma_trim_idempotent(text);
    }
    assert(text.subrange(0, 7) =~= tag);
    assert(occurs_at(text, tag, 0));
    lemma_closing_fence(tag, json);
    lemma_fenced_content(tag, json, tool);
    assert(fenced_tool(text, tag) == Some(tool));
    // The block without a tag
    let plain = plain_fenced(json);
    assert(plain.len() == n + 8);
    assert(plain.first() == '`' && plain.last() == '`');
    lemma_trim_identity(plain);
    assert(!is_braced(plain)) by {
        lemma_trim_idempotent(plain);
    }
    lemma_closing_fence(fence, json);
    assert(plain[3] == '\n');
    assert forall|at: int| 0 <= at implies !occurs_at(plain, tag, at) by {
        if occurs_at(plain, tag, at) {
            let found = plain.subrange(at, at + 7);
            assert(found[0] == '`' && found[1] == '`' && found[2] == '`' && found[3] == 'j');
            assert(plain[at] == '`' && plain[at + 1] == '`' && plain[at + 2] == '`' && plain[at
                + 3] == 'j');
            assert(plain.subrange(at, at + 3) =~= fence);
            assert(occurs_at(plain, fence, at));
        }
    }
    lemma_find_from(plain, tag, 0);
    assert(fenced_tool(plain, tag) is None);
    assert(plain.subrange(0, 3) =~= fence);
    assert(occurs_at(plain, fence, 0));
    lemma_fenced_content(fence, json, tool);
    assert(fenced_tool(plain, fence) == Some(tool));
}

/// What a character adds to the nesting depth.
pub open spec fn brace_step(c: char) -> int {
    if c == '{' {
        1
    } else if c == '}' {
        -1
    } else {
        0
    }
}

/// The nesting depth after a text: the opening braces less the closing
/// ones, whether inside strings or not.
pub open spec fn brace_depth(s: Seq<char>) -> int
    decreases s.len(),
{
    if s.len() == 0 {
        0
    } else {
        brace_depth(s.drop_last()) + brace_step(s.last())
    }
}

/// Whether a text is one object to the brace scan: it opens with a brace,
/// the brace that closes it is its last character, and in between the
/// depth does not return to 0.
pub open spec fn is_single_object(json: Seq<char>) -> bool {
    &&& json.len() >= 2
    &&& json[0] == '{'
    &&& brace_depth(json) == 0
    &&& forall|k: int| 0 < k < json.len() ==> #[trigger] brace_depth(json.take(k)) >= 1
}

/// Outside an object the brace scan passes over text without an opening
/// brace and changes nothing; closing braces may stand in it.
pub proof fn lemma_scan_skips_plain_text(text: Seq<char>, from: int, to: int)
    requires
        0 <= from <= to <= text.len(),
        forall|i: int| from <= i < to ==> text[i] != '{',
    ensures
        scan_from(text, from, 0, None) == scan_from(text, to, 0, None),
    decreases to - from,
{
    if from < to {
        lemma_scan_skips_plain_text(text, from + 1, to);
    }
}

/// Inside an object that is a tool call, the brace scan goes on to the
/// closing brace and returns the tool call.
pub proof fn lemma_scan_inside_object(
    text: Seq<char>,
    start: int,
    json: Seq<char>,
    read: int,
    tool: ToolCallView,
)
    requires
        0 <= start,
        start + json.len() <= text.len(),
        text.subrange(start, start + json.len()) == json,
        is_single_object(json),
        json_tool(json) == Some(tool),
        0 < read < json.len(),
    ensures
        scan_from(text, start + read, brace_depth(json.take(read)), Some(start)) == Some(tool),
    decreases json.len() - read,
{
    let n = json.len() as int;
    let depth = brace_depth(json.take(read));
    let c = text[start + read];
    assert(c == json[read]) by {
        assert(text.subrange(start, start + n)[read] == text[start + read]);
    }
    assert(json.take(read + 1).drop_last() =~= json.take(read));
    assert(json.take(read + 1).last() == c);
    assert(brace_depth(json.take(read + 1)) == depth + brace_step(c));
    assert(depth >= 1);
    if read == n - 1 {
        assert(json.take(n) =~= json);
        assert(c == '}' && depth == 1);
    } else {
        assert(brace_depth(json.take(read + 1)) >= 1);
        lemma_scan_inside_object(text, start, json, read + 1, tool);
        if c == '{' {
            assert(depth != 0);
        }
    }
}

/// Parsing recovers a JSON serialization of a tool call that stands
/// somewhere in a response, provided that the serialization is one object
/// to the brace scan, that the text before it holds no opening brace, and
/// that the response as a whole and its fenced blocks are not read as tool
/// calls.
pub proof fn lemma_parse_embedded(
    before: Seq<char>,
    json: Seq<char>,
    after: Seq<char>,
    tool: ToolCallView,
)
    requires
        is_serialization(json, tool),
        is_single_object(json),
        free_of(before, '{'),
        json_tool(trim_spec(before + json + after)) is None,
        markdown_tool(trim_spec(before + json + after)) is None,
    ensures
        parse_spec(before + json + after) == Some(tool),
{
    let n = json.len() as int;
    assert(json.take(n) =~= json);
    assert(json.take(n).drop_last() =~= json.take(n - 1));
    assert(brace_depth(json.take(n - 1)) >= 1);
    assert(json.last() == '}');
    assert(!is_white_space('{') && !is_white_space('}'));
    lemma_trim_identity(json);
    lemma_serialization_recovered(object_entries(trim_spec(json))->0, tool);
    let cut = lemma_trim_keeps_core(before, json, after);
    let head = before.skip(cut.0);
    let text = trim_spec(before + json + after);
    let start = head.len() as int;
    assert(text == head + json + after.take(cut.1));
    assert forall|i: int| 0 <= i < start implies text[i] != '{' by {
        assert(text[i] == before[cut.0 + i]);
    }
    lemma_scan_skips_plain_text(text, 0, start);
    assert(text.subrange(start, start + n) =~= json);
    assert(text[start] == '{') by {
        assert(text.subrange(start, start + n)[0] == text[start]);
    }
    assert(json.take(1).drop_last() =~= Seq::<char>::empty());
    assert(json.take(1).last() == '{');
    assert(brace_depth(json.take(1)) == 1) by {
        assert(brace_depth(json.take(1).drop_last()) == 0);
    }
    lemma_scan_inside_object(text, start, json, 1, tool);
    assert(scan_from(text, start, 0, None) == scan_from(text, start + 1, 1, Some(start)));
}

/// Parsing recovers a JSON serialization of a tool call with text around
/// it, provided that the serialization is one object to the brace scan
/// and holds no fence, that the text before it holds no opening brace and
/// the text after it no closing one, and that neither holds a backtick.
pub proof fn lemma_parse_surrounded(
    before: Seq<char>,
    json: Seq<char>,
    after: Seq<char>,
    tool: ToolCallView,
)
    requires
        is_serialization(json, tool),
        is_single_object(json),
        holds_no_fence(json),
        free_of(before, '{'),
        free_of(before, '`'),
        free_of(after, '}'),
        free_of(after, '`'),
    ensures
        parse_spec(before + json + after) == Some(tool),
{
    reveal_strlit("```json");
    reveal_strlit("```");
    let tag = "```json"@;
    let fence = "```"@;
    let n = json.len() as int;
    assert(json.take(n) =~= json);
    assert(json.take(n).drop_last() =~= json.take(n - 1));
    assert(brace_depth(json.take(n - 1)) >= 1);
    assert(json.last() == '}');
    assert(!is_white_space('{') && !is_white_space('}'));
    lemma_trim_identity(json);
    lemma_serialization_recovered(object_entries(trim_spec(json))->0, tool);
    let cut = lemma_trim_keeps_core(before, json, after);
    let head = before.skip(cut.0);
    let tail = after.take(cut.1);
    let text = trim_spec(before + json + after);
    let start = head.len() as int;
    assert(text == head + json + tail);
    if head.len() == 0 && tail.len() == 0 {
        assert(text =~= json);
    } else {
        lemma_trim_idempotent(before + json + after);
        if head.len() > 0 {
            assert(text.first() == before[cut.0]);
        } else {
            assert(text.last() == after[cut.1 - 1]);
        }
        assert(!is_braced(text));
        assert forall|at: int| !occurs_at(text, fence, at) by {
            if occurs_at(text, fence, at) {
                let found = text.subrange(at, at + 3);
                assert(found[0] == '`' && found[1] == '`' && found[2] == '`');
                assert(text[at] == found[0] && text[at + 2] == found[2]);
                if at < start {
                    assert(text[at] == before[cut.0 + at]);
                }
                if at + 2 >= start + n {
                    assert(text[at + 2] == after[at + 2 - start - n]);
                }
                assert(start <= at && at + 2 < start + n);
                assert(json.subrange(at - start, at - start + 3) =~= fence) by {
                    assert forall|k: int| 0 <= k < 3 implies json[at - start + k] == fence[k] by {
                        assert(json[at - start + k] == text[at + k]);
                        assert(text[at + k] == found[k]);
                    }
                }
                assert(occurs_at(json, fence, at - start));
            }
        }
        assert forall|at: int| !occurs_at(text, tag, at) by {
            if occurs_at(text, tag, at) {
                let found = text.subrange(at, at + 7);
                assert(found[0] == '`' && found[1] == '`' && found[2] == '`');
                assert(text.subrange(at, at + 3) =~= fence) by {
                    assert forall|k: int| 0 <= k < 3 implies text[at + k] == fence[k] by {
                        assert(text[at + k] == found[k]);
                    }
                }
                assert(occurs_at(text, fence, at));
            }
        }
        lemma_find_from(text, tag, 0);
        lemma_find_from(text, fence, 0);
        assert(markdown_tool(text) is None);
        lemma_parse_embedded(before, json, after, tool);
    }
}

} // verus!
