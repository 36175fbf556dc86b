//! The shapes of what the upstream API sends: stream chunks and whole chat responses.
//!
//! A member that may be missing may also be `null`; a member of another type than the one named
//! here makes the whole document one of a different shape. Members not named here do not matter.

use vstd::prelude::*;
use vstd::string::*;

use crate::json;
use crate::json::{Json, JsonV};
use crate::text;

pub mod chat;
pub mod laws;
pub mod output;

verus! {

// ---------------------------------------------------------------------------------------------
// Members
// ---------------------------------------------------------------------------------------------

/// A member that holds a value, `null` counting as none.
pub open spec fn present(v: JsonV, key: Seq<char>) -> Option<JsonV> {
    match v.get(key) {
        Some(JsonV::Null) => None,
        other => other,
    }
}

/// An optional text member; no value at all where the member is of another type.
pub open spec fn text_member(v: JsonV, key: Seq<char>) -> Option<Option<Seq<char>>> {
    match present(v, key) {
        None => Some(None),
        Some(JsonV::Text(s)) => Some(Some(s)),
        Some(_) => None,
    }
}

/// An optional integer member; no value at all where the member is of another type.
pub open spec fn int_member(v: JsonV, key: Seq<char>) -> Option<Option<i64>> {
    match present(v, key) {
        None => Some(None),
        Some(x) => match x.as_i64() {
            Some(i) => Some(Some(i)),
            None => None,
        },
    }
}

/// The member that holds a value.
fn get_present<'a>(v: &'a Json, key: &str) -> (r: Option<&'a Json>)
    ensures
        match r {
            Some(j) => present(v@, key@) == Some(j@),
            None => present(v@, key@) is None,
        },
{
    match v.get(key) {
        Some(Json::Null) => None,
        other => other,
    }
}

/// An optional text member.
pub(crate) fn get_text(v: &Json, key: &str) -> (r: Option<Option<String>>)
    ensures
        match r {
            Some(t) => text_member(v@, key@) == Some(text::maybe(t)),
            None => text_member(v@, key@) is None,
        },
{
    match get_present(v, key) {
        None => Some(None),
        Some(x) => match x.as_str() {
            Some(s) => Some(Some(s.to_owned())),
            None => None,
        },
    }
}

/// An optional integer member.
fn get_int(v: &Json, key: &str) -> (r: Option<Option<i64>>)
    ensures
        r == int_member(v@, key@),
{
    match get_present(v, key) {
        None => Some(None),
        Some(x) => match x.as_i64() {
            Some(i) => Some(Some(i)),
            None => None,
        },
    }
}

// ---------------------------------------------------------------------------------------------
// Token counts
// ---------------------------------------------------------------------------------------------

/// Token counts as the upstream API reports them.
pub struct Usage {
    pub prompt_tokens: Option<i64>,
    pub completion_tokens: Option<i64>,
    pub total_tokens: Option<i64>,
    /// From `prompt_tokens_details`.
    pub cached_tokens: Option<i64>,
    /// From `completion_tokens_details`.
    pub reasoning_tokens: Option<i64>,
}

/// The integer `key` inside the optional object `outer`.
pub open spec fn detail_member(v: JsonV, outer: Seq<char>, key: Seq<char>) -> Option<Option<i64>> {
    match present(v, outer) {
        None => Some(None),
        Some(d) => if d is Object {
            int_member(d, key)
        } else {
            None
        },
    }
}

/// The token counts in a `usage` object.
pub open spec fn usage_of(v: JsonV) -> Option<Usage> {
    if !(v is Object) {
        None
    } else {
        match (
            int_member(v, "prompt_tokens"@),
            int_member(v, "completion_tokens"@),
            int_member(v, "total_tokens"@),
            detail_member(v, "prompt_tokens_details"@, "cached_tokens"@),
            detail_member(v, "completion_tokens_details"@, "reasoning_tokens"@),
        ) {
            (Some(p), Some(c), Some(t), Some(k), Some(r)) => Some(
                Usage {
                    prompt_tokens: p,
                    completion_tokens: c,
                    total_tokens: t,
                    cached_tokens: k,
                    reasoning_tokens: r,
                },
            ),
            _ => None,
        }
    }
}

/// The optional token counts of a document; no value at all where they have another shape.
pub open spec fn usage_member(v: JsonV) -> Option<Option<Usage>> {
    match present(v, "usage"@) {
        None => Some(None),
        Some(u) => match usage_of(u) {
            Some(x) => Some(Some(x)),
            None => None,
        },
    }
}

/// Whether the value is an object.
pub(crate) fn is_object(v: &Json) -> (r: bool)
    ensures
        r == v@ is Object,
{
    match v {
        Json::Object(_) => true,
        _ => false,
    }
}

fn get_detail(v: &Json, outer: &str, key: &str) -> (r: Option<Option<i64>>)
    ensures
        r == detail_member(v@, outer@, key@),
{
    match get_present(v, outer) {
        None => Some(None),
        Some(d) => if is_object(d) {
            get_int(d, key)
        } else {
            None
        },
    }
}

impl Usage {
    /// The token counts in a `usage` object.
    pub fn from_json(v: &Json) -> (r: Option<Usage>)
        ensures
            r == usage_of(v@),
    {
        if !is_object(v) {
            return None;
        }
        let prompt_tokens = get_int(v, "prompt_tokens")?;
        let completion_tokens = get_int(v, "completion_tokens")?;
        let total_tokens = get_int(v, "total_tokens")?;
        let cached_tokens = get_detail(v, "prompt_tokens_details", "cached_tokens")?;
        let reasoning_tokens = get_detail(v, "completion_tokens_details", "reasoning_tokens")?;
        Some(
            Usage {
                prompt_tokens,
                completion_tokens,
                total_tokens,
                cached_tokens,
                reasoning_tokens,
            },
        )
    }
}

fn get_usage(v: &Json) -> (r: Option<Option<Usage>>)
    ensures
        r == usage_member(v@),
{
    match get_present(v, "usage") {
        None => Some(None),
        Some(u) => match Usage::from_json(u) {
            Some(x) => Some(Some(x)),
            None => None,
        },
    }
}

// ---------------------------------------------------------------------------------------------
// Stream chunks
// ---------------------------------------------------------------------------------------------

/// A piece of a function call in a stream chunk.
pub struct ToolCallDelta {
    pub index: i64,
    pub id: Option<String>,
    /// From `function`.
    pub name: Option<String>,
    /// From `function`.
    pub arguments: Option<String>,
}

/// What a choice of a stream chunk adds.
pub struct Delta {
    pub reasoning_content: Option<String>,
    pub content: Option<String>,
    pub tool_calls: Option<Vec<ToolCallDelta>>,
}

/// A choice of a stream chunk.
pub struct StreamChoice {
    pub delta: Option<Delta>,
    pub finish_reason: Option<String>,
}

/// A chunk of a chat completion stream.
pub struct ChatStreamChunk {
    pub id: Option<String>,
    pub created: Option<i64>,
    pub choices: Option<Vec<StreamChoice>>,
    pub usage: Option<Usage>,
}

/// The model of [`ToolCallDelta`].
pub struct ToolCallDeltaV {
    pub index: i64,
    pub id: Option<Seq<char>>,
    pub name: Option<Seq<char>>,
    pub arguments: Option<Seq<char>>,
}

/// The model of [`Delta`].
pub struct DeltaV {
    pub reasoning_content: Option<Seq<char>>,
    pub content: Option<Seq<char>>,
    pub tool_calls: Option<Seq<ToolCallDeltaV>>,
}

/// The model of [`StreamChoice`].
pub struct StreamChoiceV {
    pub delta: Option<DeltaV>,
    pub finish_reason: Option<Seq<char>>,
}

/// The model of [`ChatStreamChunk`].
pub struct ChunkV {
    pub id: Option<Seq<char>>,
    pub created: Option<i64>,
    pub choices: Option<Seq<StreamChoiceV>>,
    pub usage: Option<Usage>,
}

impl View for ToolCallDelta {
    type V = ToolCallDeltaV;

    open spec fn view(&self) -> ToolCallDeltaV {
        ToolCallDeltaV {
            index: self.index,
            id: text::maybe(self.id),
            name: text::maybe(self.name),
            arguments: text::maybe(self.arguments),
        }
    }
}

/// The models of the pieces in `v`.
pub open spec fn tool_deltas(v: Seq<ToolCallDelta>) -> Seq<ToolCallDeltaV> {
    Seq::new(v.len(), |i: int| v[i]@)
}

impl View for Delta {
    type V = DeltaV;

    open spec fn view(&self) -> DeltaV {
        DeltaV {
            reasoning_content: text::maybe(self.reasoning_content),
            content: text::maybe(self.content),
            tool_calls: match self.tool_calls {
                Some(v) => Some(tool_deltas(v@)),
                None => None,
            },
        }
    }
}

impl View for StreamChoice {
    type V = StreamChoiceV;

    open spec fn view(&self) -> StreamChoiceV {
        StreamChoiceV {
            delta: match self.delta {
                Some(d) => Some(d@),
                None => None,
            },
            finish_reason: text::maybe(self.finish_reason),
        }
    }
}

/// The models of the choices in `v`.
pub open spec fn choice_views(v: Seq<StreamChoice>) -> Seq<StreamChoiceV> {
    Seq::new(v.len(), |i: int| v[i]@)
}

impl View for ChatStreamChunk {
    type V = ChunkV;

    open spec fn view(&self) -> ChunkV {
        ChunkV {
            id: text::maybe(self.id),
            created: self.created,
            choices: match self.choices {
                Some(v) => Some(choice_views(v@)),
                None => None,
            },
            usage: self.usage,
        }
    }
}

/// The piece of a function call that a value describes.
pub open spec fn tool_delta_of(v: JsonV) -> Option<ToolCallDeltaV> {
    if !(v is Object) {
        None
    } else {
        let function = present(v, "function"@);
        let f = match function {
            Some(x) => x,
            None => JsonV::object(),
        };
        match (
            int_member(v, "index"@),
            text_member(v, "id"@),
            text_member(f, "name"@),
            text_member(f, "arguments"@),
        ) {
            (Some(Some(index)), Some(id), Some(name), Some(arguments)) => if f is Object {
                Some(ToolCallDeltaV { index, id, name, arguments })
            } else {
                None
            },
            _ => None,
        }
    }
}

/// The pieces that all of the values describe.
pub open spec fn tool_deltas_of(items: Seq<JsonV>) -> Option<Seq<ToolCallDeltaV>>
    decreases items.len(),
{
    if items.len() == 0 {
        Some(Seq::empty())
    } else {
        match (tool_deltas_of(items.drop_last()), tool_delta_of(items.last())) {
            (Some(s), Some(d)) => Some(s.push(d)),
            _ => None,
        }
    }
}

/// What a choice adds, by its `delta`.
pub open spec fn delta_of(v: JsonV) -> Option<DeltaV> {
    if !(v is Object) {
        None
    } else {
        match (
            text_member(v, "reasoning_content"@),
            text_member(v, "content"@),
            present(v, "tool_calls"@),
        ) {
            (Some(reasoning_content), Some(content), None) => Some(
                DeltaV { reasoning_content, content, tool_calls: None },
            ),
            (Some(reasoning_content), Some(content), Some(JsonV::Array(items))) =>
            match tool_deltas_of(items) {
                Some(s) => Some(DeltaV { reasoning_content, content, tool_calls: Some(s) }),
                None => None,
            },
            _ => None,
        }
    }
}

/// The choice that a value describes.
pub open spec fn choice_of(v: JsonV) -> Option<StreamChoiceV> {
    if !(v is Object) {
        None
    } else {
        match (present(v, "delta"@), text_member(v, "finish_reason"@)) {
            (None, Some(finish_reason)) => Some(StreamChoiceV { delta: None, finish_reason }),
            (Some(d), Some(finish_reason)) => match delta_of(d) {
                Some(x) => Some(StreamChoiceV { delta: Some(x), finish_reason }),
                None => None,
            },
            _ => None,
        }
    }
}

/// The choices that all of the values describe.
pub open spec fn choices_of(items: Seq<JsonV>) -> Option<Seq<StreamChoiceV>>
    decreases items.len(),
{
    if items.len() == 0 {
        Some(Seq::empty())
    } else {
        match (choices_of(items.drop_last()), choice_of(items.last())) {
            (Some(s), Some(c)) => Some(s.push(c)),
            _ => None,
        }
    }
}

/// The stream chunk that a document describes.
pub open spec fn chunk_of(v: JsonV) -> Option<ChunkV> {
    if !(v is Object) {
        None
    } else {
        match (
            text_member(v, "id"@),
            int_member(v, "created"@),
            present(v, "choices"@),
            usage_member(v),
        ) {
            (Some(id), Some(created), None, Some(usage)) => Some(
                ChunkV { id, created, choices: None, usage },
            ),
            (Some(id), Some(created), Some(JsonV::Array(items)), Some(usage)) =>
            match choices_of(items) {
                Some(s) => Some(ChunkV { id, created, choices: Some(s), usage }),
                None => None,
            },
            _ => None,
        }
    }
}

impl ToolCallDelta {
    fn from_json(v: &Json) -> (r: Option<ToolCallDelta>)
        ensures
            match r {
                Some(x) => tool_delta_of(v@) == Some(x@),
                None => tool_delta_of(v@) is None,
            },
    {
        if !is_object(v) {
            return None;
        }
        let empty = Json::object();
        let f = match get_present(v, "function") {
            Some(x) => x,
            None => &empty,
        };
        if !is_object(f) {
            return None;
        }
        let index = get_int(v, "index")??;
        let id = get_text(v, "id")?;
        let name = get_text(f, "name")?;
        let arguments = get_text(f, "arguments")?;
        Some(ToolCallDelta { index, id, name, arguments })
    }

    fn all_from_json(items: &Vec<Json>) -> (r: Option<Vec<ToolCallDelta>>)
        ensures
            match r {
                Some(x) => tool_deltas_of(json::items_view(items@)) == Some(tool_deltas(x@)),
                None => tool_deltas_of(json::items_view(items@)) is None,
            },
    {
        let ghost all = json::items_view(items@);
        let mut out: Vec<ToolCallDelta> = Vec::new();
        let mut i: usize = 0;
        assert(all.take(0) =~= Seq::empty());
        assert(tool_deltas(out@) =~= Seq::empty());
        while i < items.len()
            invariant
                i <= items@.len(),
                all == json::items_view(items@),
                tool_deltas_of(all.take(i as int)) == Some(tool_deltas(out@)),
            decreases items@.len() - i,
        {
            let ghost before = out@;
            assert(all.take(i + 1).drop_last() =~= all.take(i as int));
            assert(all.take(i + 1).last() == items@[i as int]@);
            match ToolCallDelta::from_json(&items[i]) {
                Some(d) => {
                    out.push(d);
                    assert(tool_deltas(out@) =~= tool_deltas(before).push(d@));
                },
                None => {
                    proof {
                        assert(tool_deltas_of(all.take(i + 1)) is None);
                        lemma_no_tool_deltas(all, i + 1);
                    }
                    return None;
                },
            }
            i += 1;
        }
        assert(all.take(i as int) =~= all);
        Some(out)
    }
}

proof fn lemma_no_tool_deltas(items: Seq<JsonV>, n: int)
    requires
        0 <= n <= items.len(),
        tool_deltas_of(items.take(n)) is None,
    ensures
        tool_deltas_of(items) is None,
    decreases items.len(),
{
    if n == items.len() {
        assert(items.take(n) =~= items);
    } else {
        assert(items.drop_last().take(n) =~= items.take(n));
        lemma_no_tool_deltas(items.drop_last(), n);
    }
}

impl Delta {
    fn from_json(v: &Json) -> (r: Option<Delta>)
        ensures
            match r {
                Some(x) => delta_of(v@) == Some(x@),
                None => delta_of(v@) is None,
            },
    {
        if !is_object(v) {
            return None;
        }
        let reasoning_content = get_text(v, "reasoning_content")?;
        let content = get_text(v, "content")?;
        let tool_calls = match get_present(v, "tool_calls") {
            None => None,
            Some(x) => match x.as_array() {
                Some(items) => Some(ToolCallDelta::all_from_json(items)?),
                None => {
                    return None;
                },
            },
        };
        Some(Delta { reasoning_content, content, tool_calls })
    }
}

impl StreamChoice {
    fn from_json(v: &Json) -> (r: Option<StreamChoice>)
        ensures
            match r {
                Some(x) => choice_of(v@) == Some(x@),
                None => choice_of(v@) is None,
            },
    {
        if !is_object(v) {
            return None;
        }
        let finish_reason = get_text(v, "finish_reason")?;
        let delta = match get_present(v, "delta") {
            None => None,
            Some(d) => Some(Delta::from_json(d)?),
        };
        Some(StreamChoice { delta, finish_reason })
    }

    fn all_from_json(items: &Vec<Json>) -> (r: Option<Vec<StreamChoice>>)
        ensures
            match r {
                Some(x) => choices_of(json::items_view(items@)) == Some(choice_views(x@)),
                None => choices_of(json::items_view(items@)) is None,
            },
    {
        let ghost all = json::items_view(items@);
        let mut out: Vec<StreamChoice> = Vec::new();
        let mut i: usize = 0;
        assert(all.take(0) =~= Seq::empty());
        assert(choice_views(out@) =~= Seq::empty());
        while i < items.len()
            invariant
                i <= items@.len(),
                all == json::items_view(items@),
                choices_of(all.take(i as int)) == Some(choice_views(out@)),
            decreases items@.len() - i,
        {
            let ghost before = out@;
            assert(all.take(i + 1).drop_last() =~= all.take(i as int));
            assert(all.take(i + 1).last() == items@[i as int]@);
            match StreamChoice::from_json(&items[i]) {
                Some(c) => {
                    out.push(c);
                    assert(choice_views(out@) =~= choice_views(before).push(c@));
                },
                None => {
                    proof {
                        assert(choices_of(all.take(i + 1)) is None);
                        lemma_no_choices(all, i + 1);
                    }
                    return None;
                },
            }
            i += 1;
        }
        assert(all.take(i as int) =~= all);
        Some(out)
    }
}

proof fn lemma_no_choices(items: Seq<JsonV>, n: int)
    requires
        0 <= n <= items.len(),
        choices_of(items.take(n)) is None,
    ensures
        choices_of(items) is None,
    decreases items.len(),
{
    if n == items.len() {
        assert(items.take(n) =~= items);
    } else {
        assert(items.drop_last().take(n) =~= items.take(n));
        lemma_no_choices(items.drop_last(), n);
    }
}

impl ChatStreamChunk {
    /// The stream chunk that a document describes.
    pub fn from_json(v: &Json) -> (r: Option<ChatStreamChunk>)
        ensures
            match r {
                Some(x) => chunk_of(v@) == Some(x@),
                None => chunk_of(v@) is None,
            },
    {
        if !is_object(v) {
            return None;
        }
        let id = get_text(v, "id")?;
        let created = get_int(v, "created")?;
        let usage = get_usage(v)?;
        let choices = match get_present(v, "choices") {
            None => None,
            Some(x) => match x.as_array() {
                Some(items) => Some(StreamChoice::all_from_json(items)?),
                None => {
                    return None;
                },
            },
        };
        Some(ChatStreamChunk { id, created, choices, usage })
    }
}

} // verus!
