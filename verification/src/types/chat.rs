//! Whole chat responses.

use vstd::prelude::*;
use vstd::string::*;

use super::{get_int, get_present, get_text, get_usage, is_object, Usage};
use crate::json;
use crate::json::{Json, JsonV};
use crate::text;
use crate::text::same;

verus! {

/// The content of a message.
pub enum MessageContent {
    Text(String),
    /// The texts of its text parts; other parts do not matter.
    Parts(Vec<String>),
}

/// A function call of a message.
pub struct ToolCall {
    pub id: Option<String>,
    /// From `function`.
    pub name: Option<String>,
    /// From `function`.
    pub arguments: Option<String>,
}

/// The message of a choice.
pub struct ChatMessage {
    pub content: Option<MessageContent>,
    pub tool_calls: Option<Vec<ToolCall>>,
}

/// A choice of a chat response.
pub struct ChatChoice {
    pub message: Option<ChatMessage>,
}

/// A chat response.
pub struct ChatResponse {
    pub id: Option<String>,
    pub created: Option<i64>,
    pub model: Option<String>,
    pub choices: Option<Vec<ChatChoice>>,
    pub usage: Option<Usage>,
}

/// The model of [`MessageContent`].
#[verifier::ext_equal]
pub enum MessageContentV {
    Text(Seq<char>),
    Parts(Seq<Seq<char>>),
}

/// The model of [`ToolCall`].
#[verifier::ext_equal]
pub struct ToolCallV {
    pub id: Option<Seq<char>>,
    pub name: Option<Seq<char>>,
    pub arguments: Option<Seq<char>>,
}

/// The model of [`ChatMessage`].
#[verifier::ext_equal]
pub struct ChatMessageV {
    pub content: Option<MessageContentV>,
    pub tool_calls: Option<Seq<ToolCallV>>,
}

/// The model of [`ChatChoice`].
#[verifier::ext_equal]
pub struct ChatChoiceV {
    pub message: Option<ChatMessageV>,
}

/// The model of [`ChatResponse`].
#[verifier::ext_equal]
pub struct ChatResponseV {
    pub id: Option<Seq<char>>,
    pub created: Option<i64>,
    pub model: Option<Seq<char>>,
    pub choices: Option<Seq<ChatChoiceV>>,
    pub usage: Option<Usage>,
}

impl View for MessageContent {
    type V = MessageContentV;

    open spec fn view(&self) -> MessageContentV {
        match self {
            MessageContent::Text(s) => MessageContentV::Text(s@),
            MessageContent::Parts(v) => MessageContentV::Parts(text::strings(v@)),
        }
    }
}

impl View for ToolCall {
    type V = ToolCallV;

    open spec fn view(&self) -> ToolCallV {
        ToolCallV {
            id: text::maybe(self.id),
            name: text::maybe(self.name),
            arguments: text::maybe(self.arguments),
        }
    }
}

/// The models of the function calls.
pub open spec fn tool_call_views(v: Seq<ToolCall>) -> Seq<ToolCallV> {
    Seq::new(v.len(), |i: int| v[i]@)
}

impl View for ChatMessage {
    type V = ChatMessageV;

    open spec fn view(&self) -> ChatMessageV {
        ChatMessageV {
            content: match self.content {
                Some(c) => Some(c@),
                None => None,
            },
            tool_calls: match self.tool_calls {
                Some(v) => Some(tool_call_views(v@)),
                None => None,
            },
        }
    }
}

impl View for ChatChoice {
    type V = ChatChoiceV;

    open spec fn view(&self) -> ChatChoiceV {
        ChatChoiceV {
            message: match self.message {
                Some(m) => Some(m@),
                None => None,
            },
        }
    }
}

/// The models of the choices.
pub open spec fn chat_choice_views(v: Seq<ChatChoice>) -> Seq<ChatChoiceV> {
    Seq::new(v.len(), |i: int| v[i]@)
}

impl View for ChatResponse {
    type V = ChatResponseV;

    open spec fn view(&self) -> ChatResponseV {
        ChatResponseV {
            id: text::maybe(self.id),
            created: self.created,
            model: text::maybe(self.model),
            choices: match self.choices {
                Some(v) => Some(chat_choice_views(v@)),
                None => None,
            },
            usage: self.usage,
        }
    }
}

/// The text of a text part.
pub open spec fn part_text(v: JsonV) -> Option<Seq<char>> {
    if v.text_at("type"@) == Some("text"@) {
        v.text_at("text"@)
    } else {
        None
    }
}

/// The texts of the text parts.
pub open spec fn part_texts(items: Seq<JsonV>) -> Seq<Seq<char>>
    decreases items.len(),
{
    if items.len() == 0 {
        Seq::empty()
    } else {
        match part_text(items.last()) {
            Some(s) => part_texts(items.drop_last()).push(s),
            None => part_texts(items.drop_last()),
        }
    }
}

/// The optional content of a message.
pub open spec fn content_member(v: JsonV) -> Option<Option<MessageContentV>> {
    match super::present(v, "content"@) {
        None => Some(None),
        Some(JsonV::Text(s)) => Some(Some(MessageContentV::Text(s))),
        Some(JsonV::Array(items)) => Some(Some(MessageContentV::Parts(part_texts(items)))),
        Some(_) => None,
    }
}

/// The function call that a value describes.
pub open spec fn tool_call_of(v: JsonV) -> Option<ToolCallV> {
    match (super::text_member(v, "id"@), super::present(v, "function"@)) {
        (Some(id), Some(f)) => match (
            super::text_member(f, "name"@),
            super::text_member(f, "arguments"@),
        ) {
            (Some(name), Some(arguments)) => if v is Object && f is Object {
                Some(ToolCallV { id, name, arguments })
            } else {
                None
            },
            _ => None,
        },
        _ => None,
    }
}

/// The function calls that all of the values describe.
pub open spec fn tool_calls_of(items: Seq<JsonV>) -> Option<Seq<ToolCallV>>
    decreases items.len(),
{
    if items.len() == 0 {
        Some(Seq::empty())
    } else {
        match (tool_calls_of(items.drop_last()), tool_call_of(items.last())) {
            (Some(s), Some(c)) => Some(s.push(c)),
            _ => None,
        }
    }
}

/// The message that a value describes.
pub open spec fn chat_message_of(v: JsonV) -> Option<ChatMessageV> {
    if !(v is Object) {
        None
    } else {
        match (content_member(v), super::present(v, "tool_calls"@)) {
            (Some(content), None) => Some(ChatMessageV { content, tool_calls: None }),
            (Some(content), Some(JsonV::Array(items))) => match tool_calls_of(items) {
                Some(s) => Some(ChatMessageV { content, tool_calls: Some(s) }),
                None => None,
            },
            _ => None,
        }
    }
}

/// The choice that a value describes.
pub open spec fn chat_choice_of(v: JsonV) -> Option<ChatChoiceV> {
    if !(v is Object) {
        None
    } else {
        match super::present(v, "message"@) {
            None => Some(ChatChoiceV { message: None }),
            Some(m) => match chat_message_of(m) {
                Some(x) => Some(ChatChoiceV { message: Some(x) }),
                None => None,
            },
        }
    }
}

/// The choices that all of the values describe.
pub open spec fn chat_choices_of(items: Seq<JsonV>) -> Option<Seq<ChatChoiceV>>
    decreases items.len(),
{
    if items.len() == 0 {
        Some(Seq::empty())
    } else {
        match (chat_choices_of(items.drop_last()), chat_choice_of(items.last())) {
            (Some(s), Some(c)) => Some(s.push(c)),
            _ => None,
        }
    }
}

/// The chat response that a document describes.
pub open spec fn chat_of(v: JsonV) -> Option<ChatResponseV> {
    if !(v is Object) {
        None
    } else {
        match (
            super::text_member(v, "id"@),
            super::int_member(v, "created"@),
            super::text_member(v, "model"@),
            super::present(v, "choices"@),
            super::usage_member(v),
        ) {
            (Some(id), Some(created), Some(model), None, Some(usage)) => Some(
                ChatResponseV { id, created, model, choices: None, usage },
            ),
            (
                Some(id),
                Some(created),
                Some(model),
                Some(JsonV::Array(items)),
                Some(usage),
            ) => match chat_choices_of(items) {
                Some(s) => Some(ChatResponseV { id, created, model, choices: Some(s), usage }),
                None => None,
            },
            _ => None,
        }
    }
}

fn get_part_texts(items: &Vec<Json>) -> (r: Vec<String>)
    ensures
        text::strings(r@) == part_texts(json::items_view(items@)),
{
    let ghost all = json::items_view(items@);
    let mut out: Vec<String> = Vec::new();
    let mut i: usize = 0;
    assert(all.take(0) =~= Seq::empty());
    assert(text::strings(out@) =~= Seq::empty());
    while i < items.len()
        invariant
            i <= items@.len(),
            all == json::items_view(items@),
            part_texts(all.take(i as int)) == text::strings(out@),
        decreases items@.len() - i,
    {
        let ghost before = out@;
        assert(all.take(i + 1).drop_last() =~= all.take(i as int));
        assert(all.take(i + 1).last() == items@[i as int]@);
        let is_text: bool = match items[i].text_at("type") {
            Some(t) => same(t, "text"),
            None => false,
        };
        if is_text {
            if let Some(s) = items[i].text_at("text") {
                out.push(s.to_owned());
                assert(text::strings(out@) =~= text::strings(before).push(s@));
            }
        }
        i += 1;
    }
    assert(all.take(i as int) =~= all);
    out
}

fn get_content(v: &Json) -> (r: Option<Option<MessageContent>>)
    ensures
        match r {
            Some(Some(c)) => content_member(v@) == Some(Some(c@)),
            Some(None) => content_member(v@) == Some(None::<MessageContentV>),
            None => content_member(v@) is None,
        },
{
    match get_present(v, "content") {
        None => Some(None),
        Some(x) => match x.as_str() {
            Some(s) => Some(Some(MessageContent::Text(s.to_owned()))),
            None => match x.as_array() {
                Some(items) => Some(Some(MessageContent::Parts(get_part_texts(items)))),
                None => None,
            },
        },
    }
}

impl ToolCall {
    fn from_json(v: &Json) -> (r: Option<ToolCall>)
        ensures
            match r {
                Some(x) => tool_call_of(v@) == Some(x@),
                None => tool_call_of(v@) is None,
            },
    {
        let id = get_text(v, "id")?;
        let f = get_present(v, "function")?;
        let name = get_text(f, "name")?;
        let arguments = get_text(f, "arguments")?;
        if !is_object(v) || !is_object(f) {
            return None;
        }
        Some(ToolCall { id, name, arguments })
    }

    fn all_from_json(items: &Vec<Json>) -> (r: Option<Vec<ToolCall>>)
        ensures
            match r {
                Some(x) => tool_calls_of(json::items_view(items@)) == Some(tool_call_views(x@)),
                None => tool_calls_of(json::items_view(items@)) is None,
            },
    {
        let ghost all = json::items_view(items@);
        let mut out: Vec<ToolCall> = Vec::new();
        let mut i: usize = 0;
        assert(all.take(0) =~= Seq::empty());
        assert(tool_call_views(out@) =~= Seq::empty());
        while i < items.len()
            invariant
                i <= items@.len(),
                all == json::items_view(items@),
                tool_calls_of(all.take(i as int)) == Some(tool_call_views(out@)),
            decreases items@.len() - i,
        {
            let ghost before = out@;
            assert(all.take(i + 1).drop_last() =~= all.take(i as int));
            assert(all.take(i + 1).last() == items@[i as int]@);
            match ToolCall::from_json(&items[i]) {
                Some(c) => {
                    out.push(c);
                    assert(tool_call_views(out@) =~= tool_call_views(before).push(c@));
                },
                None => {
                    proof {
                        assert(tool_calls_of(all.take(i + 1)) is None);
                        lemma_no_tool_calls(all, i + 1);
                    }
                    return None;
                },
            }
            i += 1;
        }
        assert(all.take(i as int) =~= all);
        Some(out)
    }
}

proof fn lemma_no_tool_calls(items: Seq<JsonV>, n: int)
    requires
        0 <= n <= items.len(),
        tool_calls_of(items.take(n)) is None,
    ensures
        tool_calls_of(items) is None,
    decreases items.len(),
{
    if n == items.len() {
        assert(items.take(n) =~= items);
    } else {
        assert(items.drop_last().take(n) =~= items.take(n));
        lemma_no_tool_calls(items.drop_last(), n);
    }
}

impl ChatMessage {
    fn from_json(v: &Json) -> (r: Option<ChatMessage>)
        ensures
            match r {
                Some(x) => chat_message_of(v@) == Some(x@),
                None => chat_message_of(v@) is None,
            },
    {
        if !is_object(v) {
            return None;
        }
        let content = get_content(v)?;
        let tool_calls = match get_present(v, "tool_calls") {
            None => None,
            Some(x) => match x.as_array() {
                Some(items) => Some(ToolCall::all_from_json(items)?),
                None => {
                    return None;
                },
            },
        };
        Some(ChatMessage { content, tool_calls })
    }
}

impl ChatChoice {
    fn from_json(v: &Json) -> (r: Option<ChatChoice>)
        ensures
            match r {
                Some(x) => chat_choice_of(v@) == Some(x@),
                None => chat_choice_of(v@) is None,
            },
    {
        if !is_object(v) {
            return None;
        }
        match get_present(v, "message") {
            None => Some(ChatChoice { message: None }),
            Some(m) => Some(ChatChoice { message: Some(ChatMessage::from_json(m)?) }),
        }
    }

    fn all_from_json(items: &Vec<Json>) -> (r: Option<Vec<ChatChoice>>)
        ensures
            match r {
                Some(x) => chat_choices_of(json::items_view(items@)) == Some(
                    chat_choice_views(x@),
                ),
                None => chat_choices_of(json::items_view(items@)) is None,
            },
    {
        let ghost all = json::items_view(items@);
        let mut out: Vec<ChatChoice> = Vec::new();
        let mut i: usize = 0;
        assert(all.take(0) =~= Seq::empty());
        assert(chat_choice_views(out@) =~= Seq::empty());
        while i < items.len()
            invariant
                i <= items@.len(),
                all == json::items_view(items@),
                chat_choices_of(all.take(i as int)) == Some(chat_choice_views(out@)),
            decreases items@.len() - i,
        {
            let ghost before = out@;
            assert(all.take(i + 1).drop_last() =~= all.take(i as int));
            assert(all.take(i + 1).last() == items@[i as int]@);
            match ChatChoice::from_json(&items[i]) {
                Some(c) => {
                    out.push(c);
                    assert(chat_choice_views(out@) =~= chat_choice_views(before).push(c@));
                },
                None => {
                    proof {
                        assert(chat_choices_of(all.take(i + 1)) is None);
                        lemma_no_chat_choices(all, i + 1);
                    }
                    return None;
                },
            }
            i += 1;
        }
        assert(all.take(i as int) =~= all);
        Some(out)
    }
}

proof fn lemma_no_chat_choices(items: Seq<JsonV>, n: int)
    requires
        0 <= n <= items.len(),
        chat_choices_of(items.take(n)) is None,
    ensures
        chat_choices_of(items) is None,
    decreases items.len(),
{
    if n == items.len() {
        assert(items.take(n) =~= items);
    } else {
        assert(items.drop_last().take(n) =~= items.take(n));
        lemma_no_chat_choices(items.drop_last(), n);
    }
}

impl ChatResponse {
    /// The chat response that a document describes.
    pub fn from_json(v: &Json) -> (r: Option<ChatResponse>)
        ensures
            match r {
                Some(x) => chat_of(v@) == Some(x@),
                None => chat_of(v@) is None,
            },
    {
        if !is_object(v) {
            return None;
        }
        let id = get_text(v, "id")?;
        let created = get_int(v, "created")?;
        let model = get_text(v, "model")?;
        let usage = get_usage(v)?;
        let choices = match get_present(v, "choices") {
            None => None,
            Some(x) => match x.as_array() {
                Some(items) => Some(ChatChoice::all_from_json(items)?),
                None => {
                    return None;
                },
            },
        };
        Some(ChatResponse { id, created, model, choices, usage })
    }
}

} // verus!
