//! Responses, as the client gets them.

use vstd::prelude::*;
use vstd::string::*;

use crate::json;
use crate::json::{Json, JsonV};
use crate::text;

verus! {

/// A part of a reasoning item.
pub struct OutputSummary {
    /// Printed as `type`.
    pub summary_type: String,
    pub text: Option<String>,
}

/// A part of a message.
pub struct OutputContent {
    /// Printed as `type`.
    pub content_type: String,
    pub text: Option<String>,
    pub annotations: Option<Vec<Json>>,
    pub logprobs: Option<Vec<Json>>,
}

/// An output item: reasoning, a message or a function call.
pub struct OutputItem {
    pub id: Option<String>,
    /// Printed as `type`.
    pub item_type: String,
    pub status: Option<String>,
    pub role: Option<String>,
    pub content: Option<Vec<OutputContent>>,
    pub summary: Option<Vec<OutputSummary>>,
    pub arguments: Option<String>,
    pub call_id: Option<String>,
    pub name: Option<String>,
}

/// What kind of reasoning was asked for.
pub struct ReasoningConfig {
    pub effort: Option<String>,
    pub summary: Option<String>,
}

/// The token counts of a response.
pub struct ResponsesUsage {
    pub input_tokens: i64,
    pub output_tokens: i64,
    pub total_tokens: i64,
    pub cache_read_input_tokens: Option<i64>,
    pub cache_creation_input_tokens: Option<i64>,
    pub cache_creation_5m_input_tokens: Option<i64>,
    pub cache_creation_1h_input_tokens: Option<i64>,
    /// Printed as `cached_tokens` in `input_tokens_details`.
    pub cached_tokens: Option<i64>,
    /// Printed as `reasoning_tokens` in `output_tokens_details`.
    pub reasoning_tokens: Option<i64>,
}

/// A response. What is missing is not printed.
pub struct ResponsesResponse {
    pub id: String,
    pub object: String,
    pub created_at: i64,
    pub status: String,
    pub model: Option<String>,
    pub instructions: Option<String>,
    pub previous_response_id: Option<String>,
    pub temperature: Option<Json>,
    pub top_p: Option<Json>,
    pub max_output_tokens: Option<i64>,
    pub parallel_tool_calls: Option<bool>,
    pub tool_choice: Option<Json>,
    pub tools: Option<Vec<Json>>,
    pub reasoning: Option<ReasoningConfig>,
    pub metadata: Option<Json>,
    pub output: Option<Vec<OutputItem>>,
    pub usage: Option<ResponsesUsage>,
    pub error: Option<Json>,
}

/// The model of [`OutputSummary`].
#[verifier::ext_equal]
pub struct OutputSummaryV {
    pub summary_type: Seq<char>,
    pub text: Option<Seq<char>>,
}

/// The model of [`OutputContent`].
#[verifier::ext_equal]
pub struct OutputContentV {
    pub content_type: Seq<char>,
    pub text: Option<Seq<char>>,
    pub annotations: Option<Seq<JsonV>>,
    pub logprobs: Option<Seq<JsonV>>,
}

/// The model of [`OutputItem`].
#[verifier::ext_equal]
pub struct OutputItemV {
    pub id: Option<Seq<char>>,
    pub item_type: Seq<char>,
    pub status: Option<Seq<char>>,
    pub role: Option<Seq<char>>,
    pub content: Option<Seq<OutputContentV>>,
    pub summary: Option<Seq<OutputSummaryV>>,
    pub arguments: Option<Seq<char>>,
    pub call_id: Option<Seq<char>>,
    pub name: Option<Seq<char>>,
}

/// The model of [`ReasoningConfig`].
#[verifier::ext_equal]
pub struct ReasoningConfigV {
    pub effort: Option<Seq<char>>,
    pub summary: Option<Seq<char>>,
}

/// The model of [`ResponsesResponse`].
#[verifier::ext_equal]
pub struct ResponseV {
    pub id: Seq<char>,
    pub object: Seq<char>,
    pub created_at: i64,
    pub status: Seq<char>,
    pub model: Option<Seq<char>>,
    pub instructions: Option<Seq<char>>,
    pub previous_response_id: Option<Seq<char>>,
    pub temperature: Option<JsonV>,
    pub top_p: Option<JsonV>,
    pub max_output_tokens: Option<i64>,
    pub parallel_tool_calls: Option<bool>,
    pub tool_choice: Option<JsonV>,
    pub tools: Option<Seq<JsonV>>,
    pub reasoning: Option<ReasoningConfigV>,
    pub metadata: Option<JsonV>,
    pub output: Option<Seq<OutputItemV>>,
    pub usage: Option<ResponsesUsage>,
    pub error: Option<JsonV>,
}

/// The models of optional values.
pub open spec fn maybe_values(v: Option<Vec<Json>>) -> Option<Seq<JsonV>> {
    match v {
        Some(x) => Some(json::items_view(x@)),
        None => None,
    }
}

impl View for OutputSummary {
    type V = OutputSummaryV;

    open spec fn view(&self) -> OutputSummaryV {
        OutputSummaryV { summary_type: self.summary_type@, text: text::maybe(self.text) }
    }
}

impl View for OutputContent {
    type V = OutputContentV;

    open spec fn view(&self) -> OutputContentV {
        OutputContentV {
            content_type: self.content_type@,
            text: text::maybe(self.text),
            annotations: maybe_values(self.annotations),
            logprobs: maybe_values(self.logprobs),
        }
    }
}

/// The models of the parts of a reasoning item.
pub open spec fn summary_views(v: Seq<OutputSummary>) -> Seq<OutputSummaryV> {
    Seq::new(v.len(), |i: int| v[i]@)
}

/// The models of the parts of a message.
pub open spec fn content_views(v: Seq<OutputContent>) -> Seq<OutputContentV> {
    Seq::new(v.len(), |i: int| v[i]@)
}

impl View for OutputItem {
    type V = OutputItemV;

    open spec fn view(&self) -> OutputItemV {
        OutputItemV {
            id: text::maybe(self.id),
            item_type: self.item_type@,
            status: text::maybe(self.status),
            role: text::maybe(self.role),
            content: match self.content {
                Some(v) => Some(content_views(v@)),
                None => None,
            },
            summary: match self.summary {
                Some(v) => Some(summary_views(v@)),
                None => None,
            },
            arguments: text::maybe(self.arguments),
            call_id: text::maybe(self.call_id),
            name: text::maybe(self.name),
        }
    }
}

/// The models of the output items.
pub open spec fn item_views(v: Seq<OutputItem>) -> Seq<OutputItemV> {
    Seq::new(v.len(), |i: int| v[i]@)
}

impl View for ReasoningConfig {
    type V = ReasoningConfigV;

    open spec fn view(&self) -> ReasoningConfigV {
        ReasoningConfigV { effort: text::maybe(self.effort), summary: text::maybe(self.summary) }
    }
}

impl View for ResponsesResponse {
    type V = ResponseV;

    open spec fn view(&self) -> ResponseV {
        ResponseV {
            id: self.id@,
            object: self.object@,
            created_at: self.created_at,
            status: self.status@,
            model: text::maybe(self.model),
            instructions: text::maybe(self.instructions),
            previous_response_id: text::maybe(self.previous_response_id),
            temperature: json::maybe(self.temperature),
            top_p: json::maybe(self.top_p),
            max_output_tokens: self.max_output_tokens,
            parallel_tool_calls: self.parallel_tool_calls,
            tool_choice: json::maybe(self.tool_choice),
            tools: maybe_values(self.tools),
            reasoning: match self.reasoning {
                Some(r) => Some(r@),
                None => None,
            },
            metadata: json::maybe(self.metadata),
            output: match self.output {
                Some(v) => Some(item_views(v@)),
                None => None,
            },
            usage: self.usage,
            error: json::maybe(self.error),
        }
    }
}

// ---------------------------------------------------------------------------------------------
// Printing
// ---------------------------------------------------------------------------------------------

/// An optional text as a value.
pub open spec fn text_json(s: Option<Seq<char>>) -> Option<JsonV> {
    match s {
        Some(x) => Some(JsonV::Text(x)),
        None => None,
    }
}

/// An optional integer as a value.
pub open spec fn int_json(n: Option<i64>) -> Option<JsonV> {
    match n {
        Some(x) => Some(JsonV::Int(x as int)),
        None => None,
    }
}

/// An optional truth value as a value.
pub open spec fn bool_json(b: Option<bool>) -> Option<JsonV> {
    match b {
        Some(x) => Some(JsonV::Bool(x)),
        None => None,
    }
}

/// Optional values as an array.
pub open spec fn array_json(s: Option<Seq<JsonV>>) -> Option<JsonV> {
    match s {
        Some(x) => Some(JsonV::Array(x)),
        None => None,
    }
}

/// An object of one optional count.
pub open spec fn count_json(key: Seq<char>, n: Option<i64>) -> Option<JsonV> {
    match n {
        Some(x) => Some(JsonV::object().with(key, JsonV::Int(x as int))),
        None => None,
    }
}

impl OutputSummaryV {
    /// The part as a value.
    pub open spec fn json(self) -> JsonV {
        JsonV::object().with("type"@, JsonV::Text(self.summary_type)).with_some(
            "text"@,
            text_json(self.text),
        )
    }
}

impl OutputContentV {
    /// The part as a value.
    pub open spec fn json(self) -> JsonV {
        JsonV::object().with("type"@, JsonV::Text(self.content_type)).with_some(
            "text"@,
            text_json(self.text),
        ).with_some("annotations"@, array_json(self.annotations)).with_some(
            "logprobs"@,
            array_json(self.logprobs),
        )
    }
}

impl OutputItemV {
    /// The item as a value.
    pub open spec fn json(self) -> JsonV {
        JsonV::object().with_some("id"@, text_json(self.id)).with(
            "type"@,
            JsonV::Text(self.item_type),
        ).with_some("status"@, text_json(self.status)).with_some(
            "role"@,
            text_json(self.role),
        ).with_some(
            "content"@,
            match self.content {
                Some(s) => Some(JsonV::Array(Seq::new(s.len(), |i: int| s[i].json()))),
                None => None,
            },
        ).with_some(
            "summary"@,
            match self.summary {
                Some(s) => Some(JsonV::Array(Seq::new(s.len(), |i: int| s[i].json()))),
                None => None,
            },
        ).with_some("arguments"@, text_json(self.arguments)).with_some(
            "call_id"@,
            text_json(self.call_id),
        ).with_some("name"@, text_json(self.name))
    }
}

/// The output items as values.
pub open spec fn items_json(s: Seq<OutputItemV>) -> Seq<JsonV> {
    Seq::new(s.len(), |i: int| s[i].json())
}

impl ReasoningConfigV {
    /// The settings as a value.
    pub open spec fn json(self) -> JsonV {
        JsonV::object().with_some("effort"@, text_json(self.effort)).with_some(
            "summary"@,
            text_json(self.summary),
        )
    }
}

impl ResponsesUsage {
    /// The token counts as a value.
    pub open spec fn json(self) -> JsonV {
        JsonV::object().with("input_tokens"@, JsonV::Int(self.input_tokens as int)).with(
            "output_tokens"@,
            JsonV::Int(self.output_tokens as int),
        ).with("total_tokens"@, JsonV::Int(self.total_tokens as int)).with_some(
            "cache_read_input_tokens"@,
            int_json(self.cache_read_input_tokens),
        ).with_some(
            "cache_creation_input_tokens"@,
            int_json(self.cache_creation_input_tokens),
        ).with_some(
            "cache_creation_5m_input_tokens"@,
            int_json(self.cache_creation_5m_input_tokens),
        ).with_some(
            "cache_creation_1h_input_tokens"@,
            int_json(self.cache_creation_1h_input_tokens),
        ).with_some(
            "input_tokens_details"@,
            count_json("cached_tokens"@, self.cached_tokens),
        ).with_some(
            "output_tokens_details"@,
            count_json("reasoning_tokens"@, self.reasoning_tokens),
        )
    }
}

impl ResponseV {
    /// The response as a value.
    pub open spec fn json(self) -> JsonV {
        JsonV::object().with("id"@, JsonV::Text(self.id)).with(
            "object"@,
            JsonV::Text(self.object),
        ).with("created_at"@, JsonV::Int(self.created_at as int)).with(
            "status"@,
            JsonV::Text(self.status),
        ).with_some("model"@, text_json(self.model)).with_some(
            "instructions"@,
            text_json(self.instructions),
        ).with_some("previous_response_id"@, text_json(self.previous_response_id)).with_some(
            "temperature"@,
            self.temperature,
        ).with_some("top_p"@, self.top_p).with_some(
            "max_output_tokens"@,
            int_json(self.max_output_tokens),
        ).with_some("parallel_tool_calls"@, bool_json(self.parallel_tool_calls)).with_some(
            "tool_choice"@,
            self.tool_choice,
        ).with_some("tools"@, array_json(self.tools)).with_some(
            "reasoning"@,
            match self.reasoning {
                Some(r) => Some(r.json()),
                None => None,
            },
        ).with_some("metadata"@, self.metadata).with_some(
            "output"@,
            match self.output {
                Some(s) => Some(JsonV::Array(items_json(s))),
                None => None,
            },
        ).with_some(
            "usage"@,
            match self.usage {
                Some(u) => Some(u.json()),
                None => None,
            },
        ).with_some("error"@, self.error)
    }
}

fn with_text(j: Json, key: &str, s: &Option<String>) -> (r: Json)
    ensures
        r@ == j@.with_some(key@, text_json(text::maybe(*s))),
{
    match s {
        Some(x) => j.with(key, Json::text(x.as_str())),
        None => j,
    }
}

fn with_int(j: Json, key: &str, n: Option<i64>) -> (r: Json)
    ensures
        r@ == j@.with_some(key@, int_json(n)),
{
    match n {
        Some(x) => j.with(key, Json::Int(x)),
        None => j,
    }
}

fn with_value(j: Json, key: &str, v: &Option<Json>) -> (r: Json)
    ensures
        r@ == j@.with_some(key@, json::maybe(*v)),
{
    match v {
        Some(x) => j.with(key, x.clone()),
        None => j,
    }
}

/// The same values again.
pub(crate) fn copy_values(v: &Vec<Json>) -> (r: Vec<Json>)
    ensures
        json::items_view(r@) == json::items_view(v@),
{
    let mut r: Vec<Json> = Vec::new();
    let mut i: usize = 0;
    while i < v.len()
        invariant
            i <= v@.len(),
            json::items_view(r@) =~= json::items_view(v@).take(i as int),
        decreases v@.len() - i,
    {
        let ghost before = r@;
        let x = v[i].clone();
        r.push(x);
        assert(json::items_view(r@) =~= json::items_view(before).push(x@));
        i += 1;
    }
    assert(json::items_view(v@).take(i as int) =~= json::items_view(v@));
    r
}

fn with_values(j: Json, key: &str, v: &Option<Vec<Json>>) -> (r: Json)
    ensures
        r@ == j@.with_some(key@, array_json(maybe_values(*v))),
{
    match v {
        Some(x) => j.with(key, Json::array(copy_values(x))),
        None => j,
    }
}

fn with_count(j: Json, key: &str, inner: &str, n: Option<i64>) -> (r: Json)
    ensures
        r@ == j@.with_some(key@, count_json(inner@, n)),
{
    match n {
        Some(x) => j.with(key, Json::object().with(inner, Json::Int(x))),
        None => j,
    }
}

impl OutputSummary {
    fn to_json(&self) -> (r: Json)
        ensures
            r@ == self@.json(),
    {
        with_text(
            Json::object().with("type", Json::text(self.summary_type.as_str())),
            "text",
            &self.text,
        )
    }

    fn all_to_json(v: &Vec<OutputSummary>) -> (r: Json)
        ensures
            r@ == JsonV::Array(
                Seq::new(v@.len(), |i: int| summary_views(v@)[i].json()),
            ),
    {
        let ghost all = Seq::new(v@.len(), |i: int| summary_views(v@)[i].json());
        let mut out: Vec<Json> = Vec::new();
        let mut i: usize = 0;
        while i < v.len()
            invariant
                i <= v@.len(),
                all == Seq::new(v@.len(), |i: int| summary_views(v@)[i].json()),
                json::items_view(out@) =~= all.take(i as int),
            decreases v@.len() - i,
        {
            let ghost before = out@;
            let x = v[i].to_json();
            out.push(x);
            assert(json::items_view(out@) =~= json::items_view(before).push(x@));
            i += 1;
        }
        assert(all.take(i as int) =~= all);
        Json::array(out)
    }
}

impl OutputContent {
    fn to_json(&self) -> (r: Json)
        ensures
            r@ == self@.json(),
    {
        let r = with_text(
            Json::object().with("type", Json::text(self.content_type.as_str())),
            "text",
            &self.text,
        );
        let r = with_values(r, "annotations", &self.annotations);
        with_values(r, "logprobs", &self.logprobs)
    }

    fn all_to_json(v: &Vec<OutputContent>) -> (r: Json)
        ensures
            r@ == JsonV::Array(
                Seq::new(v@.len(), |i: int| content_views(v@)[i].json()),
            ),
    {
        let ghost all = Seq::new(v@.len(), |i: int| content_views(v@)[i].json());
        let mut out: Vec<Json> = Vec::new();
        let mut i: usize = 0;
        while i < v.len()
            invariant
                i <= v@.len(),
                all == Seq::new(v@.len(), |i: int| content_views(v@)[i].json()),
                json::items_view(out@) =~= all.take(i as int),
            decreases v@.len() - i,
        {
            let ghost before = out@;
            let x = v[i].to_json();
            out.push(x);
            assert(json::items_view(out@) =~= json::items_view(before).push(x@));
            i += 1;
        }
        assert(all.take(i as int) =~= all);
        Json::array(out)
    }
}

impl OutputItem {
    fn to_json(&self) -> (r: Json)
        ensures
            r@ == self@.json(),
    {
        let r = with_text(Json::object(), "id", &self.id);
        let r = r.with("type", Json::text(self.item_type.as_str()));
        let r = with_text(r, "status", &self.status);
        let r = with_text(r, "role", &self.role);
        let r = match &self.content {
            Some(v) => r.with("content", OutputContent::all_to_json(v)),
            None => r,
        };
        let r = match &self.summary {
            Some(v) => r.with("summary", OutputSummary::all_to_json(v)),
            None => r,
        };
        let r = with_text(r, "arguments", &self.arguments);
        let r = with_text(r, "call_id", &self.call_id);
        with_text(r, "name", &self.name)
    }

    fn all_to_json(v: &Vec<OutputItem>) -> (r: Json)
        ensures
            r@ == JsonV::Array(items_json(item_views(v@))),
    {
        let ghost all = items_json(item_views(v@));
        let mut out: Vec<Json> = Vec::new();
        let mut i: usize = 0;
        while i < v.len()
            invariant
                i <= v@.len(),
                all == items_json(item_views(v@)),
                json::items_view(out@) =~= all.take(i as int),
            decreases v@.len() - i,
        {
            let ghost before = out@;
            let x = v[i].to_json();
            out.push(x);
            assert(json::items_view(out@) =~= json::items_view(before).push(x@));
            i += 1;
        }
        assert(all.take(i as int) =~= all);
        Json::array(out)
    }
}

impl ResponsesUsage {
    fn to_json(&self) -> (r: Json)
        ensures
            r@ == self.json(),
    {
        let r = Json::object().with("input_tokens", Json::Int(self.input_tokens)).with(
            "output_tokens",
            Json::Int(self.output_tokens),
        ).with("total_tokens", Json::Int(self.total_tokens));
        let r = with_int(r, "cache_read_input_tokens", self.cache_read_input_tokens);
        let r = with_int(r, "cache_creation_input_tokens", self.cache_creation_input_tokens);
        let r = with_int(r, "cache_creation_5m_input_tokens", self.cache_creation_5m_input_tokens);
        let r = with_int(r, "cache_creation_1h_input_tokens", self.cache_creation_1h_input_tokens);
        let r = with_count(r, "input_tokens_details", "cached_tokens", self.cached_tokens);
        with_count(r, "output_tokens_details", "reasoning_tokens", self.reasoning_tokens)
    }
}

impl ResponsesResponse {
    /// The response as a value, ready to print.
    pub fn to_json(&self) -> (r: Json)
        ensures
            r@ == self@.json(),
    {
        let r = Json::object().with("id", Json::text(self.id.as_str())).with(
            "object",
            Json::text(self.object.as_str()),
        ).with("created_at", Json::Int(self.created_at)).with(
            "status",
            Json::text(self.status.as_str()),
        );
        let r = with_text(r, "model", &self.model);
        let r = with_text(r, "instructions", &self.instructions);
        let r = with_text(r, "previous_response_id", &self.previous_response_id);
        let r = with_value(r, "temperature", &self.temperature);
        let r = with_value(r, "top_p", &self.top_p);
        let r = with_int(r, "max_output_tokens", self.max_output_tokens);
        let r = match self.parallel_tool_calls {
            Some(b) => r.with("parallel_tool_calls", Json::Bool(b)),
            None => r,
        };
        let r = with_value(r, "tool_choice", &self.tool_choice);
        let r = with_values(r, "tools", &self.tools);
        let r = match &self.reasoning {
            Some(c) => r.with(
                "reasoning",
                with_text(with_text(Json::object(), "effort", &c.effort), "summary", &c.summary),
            ),
            None => r,
        };
        let r = with_value(r, "metadata", &self.metadata);
        let r = match &self.output {
            Some(v) => r.with("output", OutputItem::all_to_json(v)),
            None => r,
        };
        let r = match &self.usage {
            Some(u) => r.with("usage", u.to_json()),
            None => r,
        };
        with_value(r, "error", &self.error)
    }
}

} // verus!
