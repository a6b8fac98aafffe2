//! The conversation record: role-tagged messages, image attachments, and
//! the envelope in which a conversation goes to a Gemini-style transport.

use vstd::prelude::*;
use crate::text::{chars_of, lowercase_of, same_text, string_of_range, to_lowercase};

verus! {

/// Who wrote a message.
#[derive(Debug, Clone, Copy, PartialEq, Eq, Hash, Structural)]
pub enum MessageRole {
    /// The user, or an observation framed as user input.
    User,
    /// The model.
    Model,
    /// Instructions and notices that are not regular turns.
    System,
}

/// An image attached to a message.
#[derive(Debug, PartialEq, Eq)]
pub struct ImageData {
    /// The image bytes in base64.
    pub base64: String,
    /// The MIME type, such as "image/png".
    pub mime_type: String,
}

/// One entry of the conversation.
#[derive(Debug, PartialEq, Eq)]
pub struct Message {
    /// Who wrote it.
    pub role: MessageRole,
    /// The text.
    pub content: String,
    /// An attached image, if any.
    pub image: Option<ImageData>,
}

/// An image as plain values.
pub struct ImageView {
    pub base64: Seq<char>,
    pub mime_type: Seq<char>,
}

/// A message as plain values.
pub struct MessageView {
    pub role: MessageRole,
    pub content: Seq<char>,
    pub image: Option<ImageView>,
}

impl View for ImageData {
    type V = ImageView;

    open spec fn view(&self) -> ImageView {
        ImageView { base64: self.base64@, mime_type: self.mime_type@ }
    }
}

impl View for Message {
    type V = MessageView;

    open spec fn view(&self) -> MessageView {
        MessageView {
            role: self.role,
            content: self.content@,
            image: match self.image {
                Some(img) => Some(img@),
                None => None,
            },
        }
    }
}

impl DeepView for Message {
    type V = MessageView;

    open spec fn deep_view(&self) -> MessageView {
        self@
    }
}

impl Clone for ImageData {
    fn clone(&self) -> (copy: Self)
        ensures
            copy == *self,
    {
        ImageData { base64: self.base64.clone(), mime_type: self.mime_type.clone() }
    }
}

impl Clone for Message {
    fn clone(&self) -> (copy: Self)
        ensures
            copy == *self,
    {
        Message {
            role: self.role,
            content: self.content.clone(),
            image: match &self.image {
                Some(img) => Some(img.clone()),
                None => None,
            },
        }
    }
}

/// A message of the given role and text, without image.
pub open spec fn plain_message(role: MessageRole, content: Seq<char>) -> MessageView {
    MessageView { role, content, image: None }
}

impl Message {
    /// A message of the given role and text, without image.
    pub fn new(role: MessageRole, content: &str) -> (m: Self)
        ensures
            m@ == plain_message(role, content@),
    {
        Message { role, content: content.to_owned(), image: None }
    }

    /// A user message.
    pub fn user(content: &str) -> (m: Self)
        ensures
            m@ == plain_message(MessageRole::User, content@),
    {
        Message::new(MessageRole::User, content)
    }

    /// A user message that carries an image.
    pub fn user_with_image(content: &str, image: ImageData) -> (m: Self)
        ensures
            m@ == (MessageView { role: MessageRole::User, content: content@, image: Some(image@) }),
    {
        Message { role: MessageRole::User, content: content.to_owned(), image: Some(image) }
    }

    /// A model message.
    pub fn model(content: &str) -> (m: Self)
        ensures
            m@ == plain_message(MessageRole::Model, content@),
    {
        Message::new(MessageRole::Model, content)
    }

    /// A system message.
    pub fn system(content: &str) -> (m: Self)
        ensures
            m@ == plain_message(MessageRole::System, content@),
    {
        Message::new(MessageRole::System, content)
    }
}

/// The messages of a conversation as plain values.
pub open spec fn conversation(messages: Seq<Message>) -> Seq<MessageView> {
    Seq::new(messages.len(), |i: int| messages[i]@)
}

/// A copy of the conversation.
pub fn clone_messages(messages: &Vec<Message>) -> (copy: Vec<Message>)
    ensures
        copy@ == messages@,
{
    let mut copy: Vec<Message> = Vec::new();
    let mut i: usize = 0;
    while i < messages.len()
        invariant
            i <= messages.len(),
            copy@ == messages@.take(i as int),
        decreases messages.len() - i,
    {
        copy.push(messages[i].clone());
        i += 1;
    }
    copy
}

/// The base64 digit for a value below 64.
pub open spec fn base64_digit(v: int) -> char {
    if v < 26 {
        ((65 + v) as u8) as char
    } else if v < 52 {
        ((97 + v - 26) as u8) as char
    } else if v < 62 {
        ((48 + v - 52) as u8) as char
    } else if v == 62 {
        '+'
    } else {
        '/'
    }
}

/// The four characters for a group of `count` bytes, the missing ones
/// taken as zero and shown as padding.
pub open spec fn base64_group(b0: u8, b1: u8, b2: u8, count: int) -> Seq<char> {
    seq![
        base64_digit(b0 as int / 4),
        base64_digit((b0 as int % 4) * 16 + b1 as int / 16),
        if count > 1 {
            base64_digit((b1 as int % 16) * 4 + b2 as int / 64)
        } else {
            '='
        },
        if count > 2 {
            base64_digit(b2 as int % 64)
        } else {
            '='
        },
    ]
}

/// Standard base64 with padding: each group of three bytes gives four
/// digits of six bits; a last group of one or two bytes is filled with
/// zero bits and padded with `=`.
pub open spec fn base64_spec(data: Seq<u8>) -> Seq<char>
    decreases data.len(),
{
    if data.len() == 0 {
        Seq::empty()
    } else if data.len() == 1 {
        base64_group(data[0], 0, 0, 1)
    } else if data.len() == 2 {
        base64_group(data[0], data[1], 0, 2)
    } else {
        base64_group(data[0], data[1], data[2], 3) + base64_spec(data.skip(3))
    }
}

fn digit_for(v: u8) -> (c: char)
    requires
        v < 64,
    ensures
        c == base64_digit(v as int),
{
    if v < 26 {
        (65 + v) as char
    } else if v < 52 {
        (97 + v - 26) as char
    } else if v < 62 {
        (48 + v - 52) as char
    } else if v == 62 {
        '+'
    } else {
        '/'
    }
}

fn push_group(out: &mut String, b0: u8, b1: u8, b2: u8, count: usize)
    requires
        1 <= count <= 3,
        count < 2 ==> b1 == 0,
        count < 3 ==> b2 == 0,
    ensures
        final(out)@ == old(out)@ + base64_group(b0, b1, b2, count as int),
{
    let d0: u8 = b0 >> 2;
    let d1: u8 = ((b0 & 0x03) << 4) | (b1 >> 4);
    let d2: u8 = ((b1 & 0x0f) << 2) | (b2 >> 6);
    let d3: u8 = b2 & 0x3f;
    assert(d0 == b0 / 4 && d0 < 64) by (bit_vector)
        requires
            d0 == b0 >> 2,
    ;
    assert(d1 == (b0 % 4) * 16 + b1 / 16 && d1 < 64) by (bit_vector)
        requires
            d1 == ((b0 & 0x03) << 4) | (b1 >> 4),
    ;
    assert(d2 == (b1 % 16) * 4 + b2 / 64 && d2 < 64) by (bit_vector)
        requires
            d2 == ((b1 & 0x0f) << 2) | (b2 >> 6),
    ;
    assert(d3 == b2 % 64 && d3 < 64) by (bit_vector)
        requires
            d3 == b2 & 0x3f,
    ;
    let ghost start = out@;
    out.push(digit_for(d0));
    out.push(digit_for(d1));
    if count > 1 {
        out.push(digit_for(d2));
    } else {
        out.push('=');
    }
    if count > 2 {
        out.push(digit_for(d3));
    } else {
        out.push('=');
    }
    assert(out@ == start + base64_group(b0, b1, b2, count as int));
}

/// The bytes in standard base64 with padding.
pub fn base64_encode(data: &[u8]) -> (encoded: String)
    ensures
        encoded@ == base64_spec(data@),
{
    let mut encoded = String::new();
    let mut i: usize = 0;
    proof {
        assert(data@.skip(0) == data@);
    }
    while i < data.len()
        invariant
            i <= data.len(),
            encoded@ + base64_spec(data@.skip(i as int)) == base64_spec(data@),
        decreases data.len() - i,
    {
        let ghost rest = data@.skip(i as int);
        let left = data.len() - i;
        proof {
            assert(rest[0] == data@[i as int]);
        }
        if left == 1 {
            push_group(&mut encoded, data[i], 0, 0, 1);
            proof {
                assert(data@.skip(i + 1) == Seq::<u8>::empty());
                assert(base64_spec(data@.skip(i + 1)) == Seq::<char>::empty());
            }
            i += 1;
        } else if left == 2 {
            proof {
                assert(rest[1] == data@[i + 1]);
            }
            push_group(&mut encoded, data[i], data[i + 1], 0, 2);
            proof {
                assert(data@.skip(i + 2) == Seq::<u8>::empty());
                assert(base64_spec(data@.skip(i + 2)) == Seq::<char>::empty());
            }
            i += 2;
        } else {
            proof {
                assert(rest[1] == data@[i + 1]);
                assert(rest[2] == data@[i + 2]);
                assert(rest.skip(3) == data@.skip(i + 3));
            }
            push_group(&mut encoded, data[i], data[i + 1], data[i + 2], 3);
            i += 3;
        }
    }
    proof {
        assert(base64_spec(data@.skip(i as int)) == Seq::<char>::empty());
    }
    encoded
}

/// One past the index of the last `.` in `path`, or 0 where there is none.
pub open spec fn extension_start(path: Seq<char>) -> int
    decreases path.len(),
{
    if path.len() == 0 {
        0
    } else if path.last() == '.' {
        path.len() as int
    } else {
        extension_start(path.drop_last())
    }
}

/// The MIME type that goes with a lowercased file extension.
pub open spec fn mime_for_extension(extension: Seq<char>) -> Seq<char> {
    if extension == "png"@ {
        "image/png"@
    } else if extension == "jpg"@ || extension == "jpeg"@ {
        "image/jpeg"@
    } else if extension == "gif"@ {
        "image/gif"@
    } else if extension == "webp"@ {
        "image/webp"@
    } else {
        "application/octet-stream"@
    }
}

/// The MIME type for a file path: by what follows its last `.` (the whole
/// path where it has none), in lowercase.
pub open spec fn mime_spec(path: Seq<char>) -> Seq<char> {
    mime_for_extension(lowercase_of(path.skip(extension_start(path))))
}

/// The MIME type that goes with a file extension that is already in
/// lowercase; `application/octet-stream` for any that is not known.
pub fn mime_for(extension: &str) -> (mime: String)
    ensures
        mime@ == mime_for_extension(extension@),
{
    if same_text(extension, "png") {
        "image/png".to_owned()
    } else if same_text(extension, "jpg") || same_text(extension, "jpeg") {
        "image/jpeg".to_owned()
    } else if same_text(extension, "gif") {
        "image/gif".to_owned()
    } else if same_text(extension, "webp") {
        "image/webp".to_owned()
    } else {
        "application/octet-stream".to_owned()
    }
}

/// The MIME type for a file path, going by its extension.
pub fn mime_from_path(path: &str) -> (mime: String)
    ensures
        mime@ == mime_spec(path@),
{
    let chars = chars_of(path);
    let mut start: usize = chars.len();
    proof {
        assert(chars@.take(chars.len() as int) == chars@);
    }
    while start > 0 && chars[start - 1] != '.'
        invariant
            start <= chars.len(),
            extension_start(chars@) == extension_start(chars@.take(start as int)),
        decreases start,
    {
        assert(chars@.take(start as int).drop_last() == chars@.take(start - 1));
        start -= 1;
    }
    let extension = string_of_range(chars.as_slice(), start, chars.len());
    proof {
        assert(chars@.subrange(start as int, chars.len() as int) == chars@.skip(start as int));
    }
    let lower = to_lowercase(extension.as_str());
    mime_for(lower.as_str())
}

impl ImageData {
    /// The image held by a file: its bytes in base64, and the MIME type
    /// that goes with the path.
    pub fn from_bytes(path: &str, bytes: &[u8]) -> (image: Self)
        ensures
            image@ == (ImageView { base64: base64_spec(bytes@), mime_type: mime_spec(path@) }),
    {
        ImageData { base64: base64_encode(bytes), mime_type: mime_from_path(path) }
    }
}

/// Image bytes as they go inline into a request.
#[derive(Debug, PartialEq, Eq)]
pub struct GeminiInlineData {
    pub mime_type: String,
    pub data: String,
}

/// One part of a content block: text, or an inline image.
#[derive(Debug, PartialEq, Eq)]
pub enum GeminiPart {
    Text { text: String },
    Image { inline_data: GeminiInlineData },
}

/// A content block: a role and its parts.
#[derive(Debug, PartialEq, Eq)]
pub struct GeminiContent {
    /// "user" or "model".
    pub role: String,
    /// The parts, in order.
    pub parts: Vec<GeminiPart>,
}

/// The instruction that stands apart from the turns.
#[derive(Debug, PartialEq, Eq)]
pub struct GeminiSystemInstruction {
    pub parts: Vec<GeminiPart>,
}

/// A request: the turns, and the system instruction if there is one.
#[derive(Debug, PartialEq, Eq)]
pub struct GeminiRequest {
    pub contents: Vec<GeminiContent>,
    pub system_instruction: Option<GeminiSystemInstruction>,
}

/// One candidate answer.
#[derive(Debug, PartialEq, Eq)]
pub struct GeminiCandidate {
    pub content: GeminiContent,
}

/// A response: the candidate answers.
#[derive(Debug, PartialEq, Eq)]
pub struct GeminiResponse {
    pub candidates: Vec<GeminiCandidate>,
}

/// A part as plain values.
pub enum PartView {
    Text { text: Seq<char> },
    Image { mime_type: Seq<char>, data: Seq<char> },
}

/// A content block as plain values.
pub struct ContentView {
    pub role: Seq<char>,
    pub parts: Seq<PartView>,
}

/// A request as plain values.
pub struct RequestView {
    pub contents: Seq<ContentView>,
    pub system_instruction: Option<Seq<PartView>>,
}

impl View for GeminiPart {
    type V = PartView;

    open spec fn view(&self) -> PartView {
        match self {
            GeminiPart::Text { text } => PartView::Text { text: text@ },
            GeminiPart::Image { inline_data } => PartView::Image {
                mime_type: inline_data.mime_type@,
                data: inline_data.data@,
            },
        }
    }
}

/// The parts of a list as plain values.
pub open spec fn parts_view(parts: Seq<GeminiPart>) -> Seq<PartView> {
    Seq::new(parts.len(), |i: int| parts[i]@)
}

impl View for GeminiContent {
    type V = ContentView;

    open spec fn view(&self) -> ContentView {
        ContentView { role: self.role@, parts: parts_view(self.parts@) }
    }
}

/// The content blocks of a list as plain values.
pub open spec fn contents_view(contents: Seq<GeminiContent>) -> Seq<ContentView> {
    Seq::new(contents.len(), |i: int| contents[i]@)
}

impl View for GeminiRequest {
    type V = RequestView;

    open spec fn view(&self) -> RequestView {
        RequestView {
            contents: contents_view(self.contents@),
            system_instruction: match self.system_instruction {
                Some(instruction) => Some(parts_view(instruction.parts@)),
                None => None,
            },
        }
    }
}

impl View for GeminiResponse {
    type V = Seq<ContentView>;

    open spec fn view(&self) -> Seq<ContentView> {
        Seq::new(self.candidates@.len(), |i: int| self.candidates@[i].content@)
    }
}

impl GeminiPart {
    /// A text part.
    pub fn text(s: &str) -> (part: Self)
        ensures
            part@ == (PartView::Text { text: s@ }),
    {
        GeminiPart::Text { text: s.to_owned() }
    }

    /// An inline image part.
    pub fn image(mime_type: String, base64_data: String) -> (part: Self)
        ensures
            part@ == (PartView::Image { mime_type: mime_type@, data: base64_data@ }),
    {
        GeminiPart::Image { inline_data: GeminiInlineData { mime_type, data: base64_data } }
    }
}

/// The role under which a message goes into a request: "model" for the
/// model, "user" for everything else.
pub open spec fn wire_role(role: MessageRole) -> Seq<char> {
    if role == MessageRole::Model {
        "model"@
    } else {
        "user"@
    }
}

/// The content block for a message: its text, then its image if it has
/// one, under its wire role.
pub open spec fn content_of(message: MessageView) -> ContentView {
    ContentView {
        role: wire_role(message.role),
        parts: match message.image {
            Some(image) => seq![
                PartView::Text { text: message.content },
                PartView::Image { mime_type: image.mime_type, data: image.base64 },
            ],
            None => seq![PartView::Text { text: message.content }],
        },
    }
}

/// The texts of the text parts, one after the other.
pub open spec fn joined_text(parts: Seq<PartView>) -> Seq<char>
    decreases parts.len(),
{
    if parts.len() == 0 {
        Seq::empty()
    } else {
        joined_text(parts.drop_last()) + (match parts.last() {
            PartView::Text { text } => text,
            PartView::Image { .. } => Seq::empty(),
        })
    }
}

/// The message that a content block stands for: a user message where the
/// role is "user", a model message otherwise, with the joined text.
pub open spec fn message_of(content: ContentView) -> MessageView {
    plain_message(
        if content.role == "user"@ {
            MessageRole::User
        } else {
            MessageRole::Model
        },
        joined_text(content.parts),
    )
}

/// The text parts of `parts`, one after the other.
pub fn join_text_parts(parts: &Vec<GeminiPart>) -> (text: String)
    ensures
        text@ == joined_text(parts_view(parts@)),
{
    let mut text = String::new();
    let mut i: usize = 0;
    proof {
        assert(parts_view(parts@).take(0) == Seq::<PartView>::empty());
    }
    while i < parts.len()
        invariant
            i <= parts.len(),
            text@ == joined_text(parts_view(parts@).take(i as int)),
        decreases parts.len() - i,
    {
        proof {
            let next = parts_view(parts@).take(i + 1);
            assert(next.drop_last() == parts_view(parts@).take(i as int));
            assert(next.last() == parts@[i as int]@);
        }
        match &parts[i] {
            GeminiPart::Text { text: piece } => {
                text.append(piece.as_str());
            },
            GeminiPart::Image { .. } => {
                assert(text@ + Seq::<char>::empty() == text@);
            },
        }
        i += 1;
    }
    proof {
        assert(parts_view(parts@).take(parts.len() as int) == parts_view(parts@));
    }
    text
}

impl Message {
    /// The content block under which this message goes into a request.
    pub fn to_gemini_content(&self) -> (content: GeminiContent)
        ensures
            content@ == content_of(self@),
    {
        let mut parts: Vec<GeminiPart> = Vec::new();
        parts.push(GeminiPart::text(self.content.as_str()));
        if let Some(image) = &self.image {
            parts.push(GeminiPart::image(image.mime_type.clone(), image.base64.clone()));
        }
        let role = match self.role {
            MessageRole::Model => "model".to_owned(),
            _ => "user".to_owned(),
        };
        let content = GeminiContent { role, parts };
        assert(content@.parts == content_of(self@).parts);
        content
    }

    /// The message that a content block of a response stands for.
    pub fn from_gemini_content(content: &GeminiContent) -> (message: Self)
        ensures
            message@ == message_of(content@),
    {
        let role = if same_text(content.role.as_str(), "user") {
            MessageRole::User
        } else {
            MessageRole::Model
        };
        let text = join_text_parts(&content.parts);
        Message::new(role, text.as_str())
    }
}

/// The messages that are not system messages, in order.
pub open spec fn non_system(messages: Seq<MessageView>) -> Seq<MessageView> {
    messages.filter(|m: MessageView| m.role != MessageRole::System)
}

/// The last system message, if there is one.
pub open spec fn last_system(messages: Seq<MessageView>) -> Option<MessageView>
    decreases messages.len(),
{
    if messages.len() == 0 {
        None
    } else if messages.last().role == MessageRole::System {
        Some(messages.last())
    } else {
        last_system(messages.drop_last())
    }
}

/// The request for a conversation: every message that is not a system
/// message becomes a content block, in order; the text of the last system
/// message, if there is one, becomes the system instruction.
pub open spec fn request_of(messages: Seq<MessageView>) -> RequestView {
    RequestView {
        contents: non_system(messages).map_values(|m: MessageView| content_of(m)),
        system_instruction: match last_system(messages) {
            Some(system) => Some(seq![PartView::Text { text: system.content }]),
            None => None,
        },
    }
}

/// The messages behind a list of references, as plain values.
pub open spec fn refs_view(messages: Seq<&Message>) -> Seq<MessageView> {
    Seq::new(messages.len(), |i: int| messages[i]@)
}

/// The request for the messages that the references point to.
pub fn request_from_refs(messages: &[&Message]) -> (request: GeminiRequest)
    ensures
        request@ == request_of(refs_view(messages@)),
{
    let ghost all = refs_view(messages@);
    let ghost keep = |m: MessageView| m.role != MessageRole::System;
    let ghost convert = |m: MessageView| content_of(m);
    let mut system_instruction: Option<GeminiSystemInstruction> = None;
    let mut contents: Vec<GeminiContent> = Vec::new();
    let mut i: usize = 0;
    proof {
        assert(all.take(0) == Seq::<MessageView>::empty());
        assert(contents_view(contents@) == all.take(0).filter(keep).map_values(convert));
    }
    while i < messages.len()
        invariant
            i <= messages.len(),
            all == refs_view(messages@),
            keep == |m: MessageView| m.role != MessageRole::System,
            convert == |m: MessageView| content_of(m),
            contents_view(contents@) == all.take(i as int).filter(keep).map_values(convert),
            match last_system(all.take(i as int)) {
                Some(system) => system_instruction matches Some(instruction) && parts_view(
                    instruction.parts@,
                ) == seq![PartView::Text { text: system.content }],
                None => system_instruction is None,
            },
        decreases messages.len() - i,
    {
        let ghost before = contents_view(contents@);
        proof {
            reveal(Seq::filter);
            assert(all.take(i + 1).drop_last() == all.take(i as int));
            assert(all.take(i + 1).last() == messages@[i as int]@);
        }
        let message = messages[i];
        match message.role {
            MessageRole::System => {
                let mut parts: Vec<GeminiPart> = Vec::new();
                parts.push(GeminiPart::text(message.content.as_str()));
                assert(parts_view(parts@) == seq![PartView::Text { text: message@.content }]);
                system_instruction = Some(GeminiSystemInstruction { parts });
            },
            _ => {
                contents.push(message.to_gemini_content());
                proof {
                    assert(contents_view(contents@) == before.push(content_of(message@)));
                    assert(all.take(i + 1).filter(keep) == all.take(i as int).filter(keep).push(
                        message@,
                    ));
                    assert(all.take(i + 1).filter(keep).map_values(convert) == all.take(
                        i as int,
                    ).filter(keep).map_values(convert).push(content_of(message@)));
                }
            },
        }
        i += 1;
    }
    proof {
        assert(all.take(messages.len() as int) == all);
    }
    GeminiRequest { contents, system_instruction }
}

/// References to the messages of a conversation, in order.
pub fn message_refs(messages: &[Message]) -> (refs: Vec<&Message>)
    ensures
        refs_view(refs@) == conversation(messages@),
{
    let mut refs: Vec<&Message> = Vec::new();
    let mut i: usize = 0;
    while i < messages.len()
        invariant
            i <= messages.len(),
            refs.len() == i,
            forall|k: int| 0 <= k < i ==> *(#[trigger] refs@[k]) == messages@[k],
        decreases messages.len() - i,
    {
        refs.push(&messages[i]);
        i += 1;
    }
    assert(refs_view(refs@) =~= conversation(messages@));
    refs
}

/// The request under which a conversation goes to the transport.
pub fn messages_to_gemini_request(messages: &[Message]) -> (request: GeminiRequest)
    ensures
        request@ == request_of(conversation(messages@)),
{
    let refs = message_refs(messages);
    request_from_refs(refs.as_slice())
}

/// The messages that the candidates of a response stand for, in order.
pub fn gemini_response_to_messages(response: &GeminiResponse) -> (messages: Vec<Message>)
    ensures
        conversation(messages@) == response@.map_values(|c: ContentView| message_of(c)),
{
    let mut messages: Vec<Message> = Vec::new();
    let mut i: usize = 0;
    while i < response.candidates.len()
        invariant
            i <= response.candidates.len(),
            messages.len() == i,
            forall|k: int|
                0 <= k < i ==> (#[trigger] messages@[k])@ == message_of(
                    response.candidates@[k].content@,
                ),
        decreases response.candidates.len() - i,
    {
        messages.push(Message::from_gemini_content(&response.candidates[i].content));
        i += 1;
    }
    assert(conversation(messages@) =~= response@.map_values(|c: ContentView| message_of(c)));
    messages
}

} // verus!
