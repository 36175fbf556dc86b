//! The names that documents and events use are told apart.

use vstd::prelude::*;
use vstd::string::*;

verus! {

/// A number that tells a name from the others: its length and some of its characters.
#[verifier::opaque]
pub open spec fn mark(s: Seq<char>) -> int {
    let n = s.len() as int;
    if n == 0 {
        0
    } else {
        n * 1000000000000 + (s[0] as int) * 1000000000 + (s[(3 * n) / 4] as int) * 1000000 + (
        s[n / 2] as int) * 1000 + s[n - 1] as int
    }
}

proof fn lemma_names_0()
    ensures
        mark("aborted"@) == 7097101114100,
        mark("annotations"@) == 11097111097115,
        mark("api_error"@) == 9097114101114,
        mark("arguments"@) == 9097110109115,
        mark("assistant"@) == 9097097115116,
        mark("auth_error"@) == 10097114101114,
        mark("authentication_error"@) == 20097101116114,
        mark("auto"@) == 4097111116111,
{
    assert(mark("aborted"@) == 7097101114100) by {
        reveal(mark);
        reveal_strlit("aborted");
    }
    assert(mark("annotations"@) == 11097111097115) by {
        reveal(mark);
        reveal_strlit("annotations");
    }
    assert(mark("api_error"@) == 9097114101114) by {
        reveal(mark);
        reveal_strlit("api_error");
    }
    assert(mark("arguments"@) == 9097110109115) by {
        reveal(mark);
        reveal_strlit("arguments");
    }
    assert(mark("assistant"@) == 9097097115116) by {
        reveal(mark);
        reveal_strlit("assistant");
    }
    assert(mark("auth_error"@) == 10097114101114) by {
        reveal(mark);
        reveal_strlit("auth_error");
    }
    assert(mark("authentication_error"@) == 20097101116114) by {
        reveal(mark);
        reveal_strlit("authentication_error");
    }
    assert(mark("auto"@) == 4097111116111) by {
        reveal(mark);
        reveal_strlit("auto");
    }
}

proof fn lemma_names_1()
    ensures
        mark("background"@) == 10098117114100,
        mark("billing"@) == 7098110108103,
        mark("cache_creation_1h_input_tokens"@) == 30099116049115,
        mark("cache_creation_5m_input_tokens"@) == 30099116053115,
        mark("cache_creation_input_tokens"@) == 27099095110115,
        mark("cache_read_input_tokens"@) == 23099116105115,
        mark("cached_tokens"@) == 13099107095115,
        mark("call_id"@) == 7099105108100,
{
    assert(mark("background"@) == 10098117114100) by {
        reveal(mark);
        reveal_strlit("background");
    }
    assert(mark("billing"@) == 7098110108103) by {
        reveal(mark);
        reveal_strlit("billing");
    }
    assert(mark("cache_creation_1h_input_tokens"@) == 30099116049115) by {
        reveal(mark);
        reveal_strlit("cache_creation_1h_input_tokens");
    }
    assert(mark("cache_creation_5m_input_tokens"@) == 30099116053115) by {
        reveal(mark);
        reveal_strlit("cache_creation_5m_input_tokens");
    }
    assert(mark("cache_creation_input_tokens"@) == 27099095110115) by {
        reveal(mark);
        reveal_strlit("cache_creation_input_tokens");
    }
    assert(mark("cache_read_input_tokens"@) == 23099116105115) by {
        reveal(mark);
        reveal_strlit("cache_read_input_tokens");
    }
    assert(mark("cached_tokens"@) == 13099107095115) by {
        reveal(mark);
        reveal_strlit("cached_tokens");
    }
    assert(mark("call_id"@) == 7099105108100) by {
        reveal(mark);
        reveal_strlit("call_id");
    }
}

proof fn lemma_names_2()
    ensures
        mark("choices"@) == 7099101105115,
        mark("code"@) == 4099101100101,
        mark("completed"@) == 9099116108100,
        mark("completion_tokens"@) == 17099111111115,
        mark("completion_tokens_details"@) == 25099100111115,
        mark("content"@) == 7099110116116,
        mark("content_index"@) == 13099110116120,
        mark("created"@) == 7099101097100,
{
    assert(mark("choices"@) == 7099101105115) by {
        reveal(mark);
        reveal_strlit("choices");
    }
    assert(mark("code"@) == 4099101100101) by {
        reveal(mark);
        reveal_strlit("code");
    }
    assert(mark("completed"@) == 9099116108100) by {
        reveal(mark);
        reveal_strlit("completed");
    }
    assert(mark("completion_tokens"@) == 17099111111115) by {
        reveal(mark);
        reveal_strlit("completion_tokens");
    }
    assert(mark("completion_tokens_details"@) == 25099100111115) by {
        reveal(mark);
        reveal_strlit("completion_tokens_details");
    }
    assert(mark("content"@) == 7099110116116) by {
        reveal(mark);
        reveal_strlit("content");
    }
    assert(mark("content_index"@) == 13099110116120) by {
        reveal(mark);
        reveal_strlit("content_index");
    }
    assert(mark("created"@) == 7099101097100) by {
        reveal(mark);
        reveal_strlit("created");
    }
}

proof fn lemma_names_3()
    ensures
        mark("created_at"@) == 10099095101116,
        mark("delta"@) == 5100116108097,
        mark("description"@) == 11100105105110,
        mark("detail"@) == 6100105097108,
        mark("developer"@) == 9100112108114,
        mark("effort"@) == 6101114111116,
        mark("empty_response"@) == 14101111101101,
        mark("error"@) == 5101111114114,
{
    assert(mark("created_at"@) == 10099095101116) by {
        reveal(mark);
        reveal_strlit("created_at");
    }
    assert(mark("delta"@) == 5100116108097) by {
        reveal(mark);
        reveal_strlit("delta");
    }
    assert(mark("description"@) == 11100105105110) by {
        reveal(mark);
        reveal_strlit("description");
    }
    assert(mark("detail"@) == 6100105097108) by {
        reveal(mark);
        reveal_strlit("detail");
    }
    assert(mark("developer"@) == 9100112108114) by {
        reveal(mark);
        reveal_strlit("developer");
    }
    assert(mark("effort"@) == 6101114111116) by {
        reveal(mark);
        reveal_strlit("effort");
    }
    assert(mark("empty_response"@) == 14101111101101) by {
        reveal(mark);
        reveal_strlit("empty_response");
    }
    assert(mark("error"@) == 5101111114114) by {
        reveal(mark);
        reveal_strlit("error");
    }
}

proof fn lemma_names_4()
    ensures
        mark("finish_reason"@) == 13102097095110,
        mark("function"@) == 8102111116110,
        mark("function.description"@) == 20102112101110,
        mark("function.name"@) == 13102110111101,
        mark("function.parameters"@) == 19102101112115,
        mark("function_call"@) == 13102099111108,
        mark("function_call_output"@) == 20102117097116,
        mark("high"@) == 4104104103104,
{
    assert(mark("finish_reason"@) == 13102097095110) by {
        reveal(mark);
        reveal_strlit("finish_reason");
    }
    assert(mark("function"@) == 8102111116110) by {
        reveal(mark);
        reveal_strlit("function");
    }
    assert(mark("function.description"@) == 20102112101110) by {
        reveal(mark);
        reveal_strlit("function.description");
    }
    assert(mark("function.name"@) == 13102110111101) by {
        reveal(mark);
        reveal_strlit("function.name");
    }
    assert(mark("function.parameters"@) == 19102101112115) by {
        reveal(mark);
        reveal_strlit("function.parameters");
    }
    assert(mark("function_call"@) == 13102099111108) by {
        reveal(mark);
        reveal_strlit("function_call");
    }
    assert(mark("function_call_output"@) == 20102117097116) by {
        reveal(mark);
        reveal_strlit("function_call_output");
    }
    assert(mark("high"@) == 4104104103104) by {
        reveal(mark);
        reveal_strlit("high");
    }
}

proof fn lemma_names_5()
    ensures
        mark("id"@) == 2105100100100,
        mark("image"@) == 5105103097101,
        mark("image_url"@) == 9105117101108,
        mark("immediate_stream_end"@) == 20105109115100,
        mark("in_progress"@) == 11105101111115,
        mark("include_usage"@) == 13105115101101,
        mark("incomplete"@) == 10105101112101,
        mark("incomplete_details"@) == 18105116101115,
{
    assert(mark("id"@) == 2105100100100) by {
        reveal(mark);
        reveal_strlit("id");
    }
    assert(mark("image"@) == 5105103097101) by {
        reveal(mark);
        reveal_strlit("image");
    }
    assert(mark("image_url"@) == 9105117101108) by {
        reveal(mark);
        reveal_strlit("image_url");
    }
    assert(mark("immediate_stream_end"@) == 20105109115100) by {
        reveal(mark);
        reveal_strlit("immediate_stream_end");
    }
    assert(mark("in_progress"@) == 11105101111115) by {
        reveal(mark);
        reveal_strlit("in_progress");
    }
    assert(mark("include_usage"@) == 13105115101101) by {
        reveal(mark);
        reveal_strlit("include_usage");
    }
    assert(mark("incomplete"@) == 10105101112101) by {
        reveal(mark);
        reveal_strlit("incomplete");
    }
    assert(mark("incomplete_details"@) == 18105116101115) by {
        reveal(mark);
        reveal_strlit("incomplete_details");
    }
}

proof fn lemma_names_6()
    ensures
        mark("index"@) == 5105101100120,
        mark("input"@) == 5105117112116,
        mark("input_image"@) == 11105097095101,
        mark("input_text"@) == 10105101095116,
        mark("input_tokens"@) == 12105101116115,
        mark("input_tokens_details"@) == 20105116110115,
        mark("instructions"@) == 12105111099115,
        mark("insufficient_quota"@) == 18105113101097,
{
    assert(mark("index"@) == 5105101100120) by {
        reveal(mark);
        reveal_strlit("index");
    }
    assert(mark("input"@) == 5105117112116) by {
        reveal(mark);
        reveal_strlit("input");
    }
    assert(mark("input_image"@) == 11105097095101) by {
        reveal(mark);
        reveal_strlit("input_image");
    }
    assert(mark("input_text"@) == 10105101095116) by {
        reveal(mark);
        reveal_strlit("input_text");
    }
    assert(mark("input_tokens"@) == 12105101116115) by {
        reveal(mark);
        reveal_strlit("input_tokens");
    }
    assert(mark("input_tokens_details"@) == 20105116110115) by {
        reveal(mark);
        reveal_strlit("input_tokens_details");
    }
    assert(mark("instructions"@) == 12105111099115) by {
        reveal(mark);
        reveal_strlit("instructions");
    }
    assert(mark("insufficient_quota"@) == 18105113101097) by {
        reveal(mark);
        reveal_strlit("insufficient_quota");
    }
}

proof fn lemma_names_7()
    ensures
        mark("invalid"@) == 7105105097100,
        mark("invalid_api_key"@) == 15105095095121,
        mark("item"@) == 4105109101109,
        mark("item_id"@) == 7105105109100,
        mark("length"@) == 6108116103104,
        mark("logprobs"@) == 8108098114115,
        mark("low"@) == 3108119111119,
        mark("malformed"@) == 9109109111100,
{
    assert(mark("invalid"@) == 7105105097100) by {
        reveal(mark);
        reveal_strlit("invalid");
    }
    assert(mark("invalid_api_key"@) == 15105095095121) by {
        reveal(mark);
        reveal_strlit("invalid_api_key");
    }
    assert(mark("item"@) == 4105109101109) by {
        reveal(mark);
        reveal_strlit("item");
    }
    assert(mark("item_id"@) == 7105105109100) by {
        reveal(mark);
        reveal_strlit("item_id");
    }
    assert(mark("length"@) == 6108116103104) by {
        reveal(mark);
        reveal_strlit("length");
    }
    assert(mark("logprobs"@) == 8108098114115) by {
        reveal(mark);
        reveal_strlit("logprobs");
    }
    assert(mark("low"@) == 3108119111119) by {
        reveal(mark);
        reveal_strlit("low");
    }
    assert(mark("malformed"@) == 9109109111100) by {
        reveal(mark);
        reveal_strlit("malformed");
    }
}

proof fn lemma_names_8()
    ensures
        mark("malformed_tool_call"@) == 19109095095108,
        mark("max_output_tokens"@) == 17109111117115,
        mark("max_tokens"@) == 10109101111115,
        mark("medium"@) == 6109117105109,
        mark("message"@) == 7109103115101,
        mark("messages"@) == 8109101097115,
        mark("metadata"@) == 8109116100097,
        mark("minimal"@) == 7109097105108,
{
    assert(mark("malformed_tool_call"@) == 19109095095108) by {
        reveal(mark);
        reveal_strlit("malformed_tool_call");
    }
    assert(mark("max_output_tokens"@) == 17109111117115) by {
        reveal(mark);
        reveal_strlit("max_output_tokens");
    }
    assert(mark("max_tokens"@) == 10109101111115) by {
        reveal(mark);
        reveal_strlit("max_tokens");
    }
    assert(mark("medium"@) == 6109117105109) by {
        reveal(mark);
        reveal_strlit("medium");
    }
    assert(mark("message"@) == 7109103115101) by {
        reveal(mark);
        reveal_strlit("message");
    }
    assert(mark("messages"@) == 8109101097115) by {
        reveal(mark);
        reveal_strlit("messages");
    }
    assert(mark("metadata"@) == 8109116100097) by {
        reveal(mark);
        reveal_strlit("metadata");
    }
    assert(mark("minimal"@) == 7109097105108) by {
        reveal(mark);
        reveal_strlit("minimal");
    }
}

proof fn lemma_names_9()
    ensures
        mark("model"@) == 5109101100108,
        mark("name"@) == 4110101109101,
        mark("none"@) == 4110101110101,
        mark("null"@) == 4110108108108,
        mark("object"@) == 6111099101116,
        mark("output"@) == 6111117112116,
        mark("output_index"@) == 12111100095120,
        mark("output_text"@) == 11111101116116,
{
    assert(mark("model"@) == 5109101100108) by {
        reveal(mark);
        reveal_strlit("model");
    }
    assert(mark("name"@) == 4110101109101) by {
        reveal(mark);
        reveal_strlit("name");
    }
    assert(mark("none"@) == 4110101110101) by {
        reveal(mark);
        reveal_strlit("none");
    }
    assert(mark("null"@) == 4110108108108) by {
        reveal(mark);
        reveal_strlit("null");
    }
    assert(mark("object"@) == 6111099101116) by {
        reveal(mark);
        reveal_strlit("object");
    }
    assert(mark("output"@) == 6111117112116) by {
        reveal(mark);
        reveal_strlit("output");
    }
    assert(mark("output_index"@) == 12111100095120) by {
        reveal(mark);
        reveal_strlit("output_index");
    }
    assert(mark("output_text"@) == 11111101116116) by {
        reveal(mark);
        reveal_strlit("output_text");
    }
}

proof fn lemma_names_10()
    ensures
        mark("output_tokens"@) == 13111107095115,
        mark("output_tokens_details"@) == 21111101101115,
        mark("parallel_tool_calls"@) == 19112099116115,
        mark("parameters"@) == 10112101101115,
        mark("parse_error"@) == 11112114095114,
        mark("part"@) == 4112116114116,
        mark("preflight_timeout"@) == 17112109116116,
        mark("previous_response_id"@) == 20112115101100,
{
    assert(mark("output_tokens"@) == 13111107095115) by {
        reveal(mark);
        reveal_strlit("output_tokens");
    }
    assert(mark("output_tokens_details"@) == 21111101101115) by {
        reveal(mark);
        reveal_strlit("output_tokens_details");
    }
    assert(mark("parallel_tool_calls"@) == 19112099116115) by {
        reveal(mark);
        reveal_strlit("parallel_tool_calls");
    }
    assert(mark("parameters"@) == 10112101101115) by {
        reveal(mark);
        reveal_strlit("parameters");
    }
    assert(mark("parse_error"@) == 11112114095114) by {
        reveal(mark);
        reveal_strlit("parse_error");
    }
    assert(mark("part"@) == 4112116114116) by {
        reveal(mark);
        reveal_strlit("part");
    }
    assert(mark("preflight_timeout"@) == 17112109116116) by {
        reveal(mark);
        reveal_strlit("preflight_timeout");
    }
    assert(mark("previous_response_id"@) == 20112115101100) by {
        reveal(mark);
        reveal_strlit("previous_response_id");
    }
}

proof fn lemma_names_11()
    ensures
        mark("prompt_tokens"@) == 13112107095115,
        mark("prompt_tokens_details"@) == 21112101101115,
        mark("quota_error"@) == 11113114095114,
        mark("quota_exceeded"@) == 14113101120100,
        mark("rate_limit"@) == 10114109108116,
        mark("reason"@) == 6114111115110,
        mark("reasoning"@) == 9114105111103,
        mark("reasoning_content"@) == 17114110103116,
{
    assert(mark("prompt_tokens"@) == 13112107095115) by {
        reveal(mark);
        reveal_strlit("prompt_tokens");
    }
    assert(mark("prompt_tokens_details"@) == 21112101101115) by {
        reveal(mark);
        reveal_strlit("prompt_tokens_details");
    }
    assert(mark("quota_error"@) == 11113114095114) by {
        reveal(mark);
        reveal_strlit("quota_error");
    }
    assert(mark("quota_exceeded"@) == 14113101120100) by {
        reveal(mark);
        reveal_strlit("quota_exceeded");
    }
    assert(mark("rate_limit"@) == 10114109108116) by {
        reveal(mark);
        reveal_strlit("rate_limit");
    }
    assert(mark("reason"@) == 6114111115110) by {
        reveal(mark);
        reveal_strlit("reason");
    }
    assert(mark("reasoning"@) == 9114105111103) by {
        reveal(mark);
        reveal_strlit("reasoning");
    }
    assert(mark("reasoning_content"@) == 17114110103116) by {
        reveal(mark);
        reveal_strlit("reasoning_content");
    }
}

proof fn lemma_names_12()
    ensures
        mark("reasoning_effort"@) == 16114102103116,
        mark("reasoning_tokens"@) == 16114107103115,
        mark("response"@) == 8114115111101,
        mark("response.completed"@) == 18114108099100,
        mark("response.content_part.added"@) == 27114116101100,
        mark("response.content_part.done"@) == 26114114101101,
        mark("response.created"@) == 16114097046100,
        mark("response.function_call_arguments.delta"@) == 38114101097097,
{
    assert(mark("reasoning_effort"@) == 16114102103116) by {
        reveal(mark);
        reveal_strlit("reasoning_effort");
    }
    assert(mark("reasoning_tokens"@) == 16114107103115) by {
        reveal(mark);
        reveal_strlit("reasoning_tokens");
    }
    assert(mark("response"@) == 8114115111101) by {
        reveal(mark);
        reveal_strlit("response");
    }
    assert(mark("response.completed"@) == 18114108099100) by {
        reveal(mark);
        reveal_strlit("response.completed");
    }
    assert(mark("response.content_part.added"@) == 27114116101100) by {
        reveal(mark);
        reveal_strlit("response.content_part.added");
    }
    assert(mark("response.content_part.done"@) == 26114114101101) by {
        reveal(mark);
        reveal_strlit("response.content_part.done");
    }
    assert(mark("response.created"@) == 16114097046100) by {
        reveal(mark);
        reveal_strlit("response.created");
    }
    assert(mark("response.function_call_arguments.delta"@) == 38114101097097) by {
        reveal(mark);
        reveal_strlit("response.function_call_arguments.delta");
    }
}

proof fn lemma_names_13()
    ensures
        mark("response.function_call_arguments.done"@) == 37114109099101,
        mark("response.in_progress"@) == 20114103110115,
        mark("response.output_item.added"@) == 26114109117100,
        mark("response.output_item.done"@) == 25114101112101,
        mark("response.output_text.delta"@) == 26114116117097,
        mark("response.output_text.done"@) == 25114120112101,
        mark("response.reasoning_summary_part.added"@) == 37114112095100,
        mark("response.reasoning_summary_part.done"@) == 36114112095101,
{
    assert(mark("response.function_call_arguments.done"@) == 37114109099101) by {
        reveal(mark);
        reveal_strlit("response.function_call_arguments.done");
    }
    assert(mark("response.in_progress"@) == 20114103110115) by {
        reveal(mark);
        reveal_strlit("response.in_progress");
    }
    assert(mark("response.output_item.added"@) == 26114109117100) by {
        reveal(mark);
        reveal_strlit("response.output_item.added");
    }
    assert(mark("response.output_item.done"@) == 25114101112101) by {
        reveal(mark);
        reveal_strlit("response.output_item.done");
    }
    assert(mark("response.output_text.delta"@) == 26114116117097) by {
        reveal(mark);
        reveal_strlit("response.output_text.delta");
    }
    assert(mark("response.output_text.done"@) == 25114120112101) by {
        reveal(mark);
        reveal_strlit("response.output_text.done");
    }
    assert(mark("response.reasoning_summary_part.added"@) == 37114112095100) by {
        reveal(mark);
        reveal_strlit("response.reasoning_summary_part.added");
    }
    assert(mark("response.reasoning_summary_part.done"@) == 36114112095101) by {
        reveal(mark);
        reveal_strlit("response.reasoning_summary_part.done");
    }
}

proof fn lemma_names_14()
    ensures
        mark("response.reasoning_summary_text.delta"@) == 37114116095097,
        mark("response.reasoning_summary_text.done"@) == 36114116095101,
        mark("role"@) == 4114101108101,
        mark("sequence_number"@) == 15115109101114,
        mark("source"@) == 6115099114101,
        mark("status"@) == 6115117116115,
        mark("stream"@) == 6115097101109,
        mark("stream_options"@) == 14115105111115,
{
    assert(mark("response.reasoning_summary_text.delta"@) == 37114116095097) by {
        reveal(mark);
        reveal_strlit("response.reasoning_summary_text.delta");
    }
    assert(mark("response.reasoning_summary_text.done"@) == 36114116095101) by {
        reveal(mark);
        reveal_strlit("response.reasoning_summary_text.done");
    }
    assert(mark("role"@) == 4114101108101) by {
        reveal(mark);
        reveal_strlit("role");
    }
    assert(mark("sequence_number"@) == 15115109101114) by {
        reveal(mark);
        reveal_strlit("sequence_number");
    }
    assert(mark("source"@) == 6115099114101) by {
        reveal(mark);
        reveal_strlit("source");
    }
    assert(mark("status"@) == 6115117116115) by {
        reveal(mark);
        reveal_strlit("status");
    }
    assert(mark("stream"@) == 6115097101109) by {
        reveal(mark);
        reveal_strlit("stream");
    }
    assert(mark("stream_options"@) == 14115105111115) by {
        reveal(mark);
        reveal_strlit("stream_options");
    }
}

proof fn lemma_names_15()
    ensures
        mark("stream_read_error"@) == 17115101101114,
        mark("summary"@) == 7115114109121,
        mark("summary_index"@) == 13115110121120,
        mark("summary_text"@) == 12115101121116,
        mark("system"@) == 6115101116109,
        mark("temperature"@) == 11116117114101,
        mark("text"@) == 4116116120116,
        mark("tool"@) == 4116108111108,
{
    assert(mark("stream_read_error"@) == 17115101101114) by {
        reveal(mark);
        reveal_strlit("stream_read_error");
    }
    assert(mark("summary"@) == 7115114109121) by {
        reveal(mark);
        reveal_strlit("summary");
    }
    assert(mark("summary_index"@) == 13115110121120) by {
        reveal(mark);
        reveal_strlit("summary_index");
    }
    assert(mark("summary_text"@) == 12115101121116) by {
        reveal(mark);
        reveal_strlit("summary_text");
    }
    assert(mark("system"@) == 6115101116109) by {
        reveal(mark);
        reveal_strlit("system");
    }
    assert(mark("temperature"@) == 11116117114101) by {
        reveal(mark);
        reveal_strlit("temperature");
    }
    assert(mark("text"@) == 4116116120116) by {
        reveal(mark);
        reveal_strlit("text");
    }
    assert(mark("tool"@) == 4116108111108) by {
        reveal(mark);
        reveal_strlit("tool");
    }
}

proof fn lemma_names_16()
    ensures
        mark("tool_call_id"@) == 12116095097100,
        mark("tool_calls"@) == 10116108099115,
        mark("tool_choice"@) == 11116105099101,
        mark("tools"@) == 5116108111115,
        mark("top_p"@) == 5116095112112,
        mark("total_tokens"@) == 12116101116115,
        mark("type"@) == 4116101112101,
        mark("unauthorized"@) == 12117122111100,
{
    assert(mark("tool_call_id"@) == 12116095097100) by {
        reveal(mark);
        reveal_strlit("tool_call_id");
    }
    assert(mark("tool_calls"@) == 10116108099115) by {
        reveal(mark);
        reveal_strlit("tool_calls");
    }
    assert(mark("tool_choice"@) == 11116105099101) by {
        reveal(mark);
        reveal_strlit("tool_choice");
    }
    assert(mark("tools"@) == 5116108111115) by {
        reveal(mark);
        reveal_strlit("tools");
    }
    assert(mark("top_p"@) == 5116095112112) by {
        reveal(mark);
        reveal_strlit("top_p");
    }
    assert(mark("total_tokens"@) == 12116101116115) by {
        reveal(mark);
        reveal_strlit("total_tokens");
    }
    assert(mark("type"@) == 4116101112101) by {
        reveal(mark);
        reveal_strlit("type");
    }
    assert(mark("unauthorized"@) == 12117122111100) by {
        reveal(mark);
        reveal_strlit("unauthorized");
    }
}

proof fn lemma_names_17()
    ensures
        mark("url"@) == 3117108114108,
        mark("usage"@) == 5117103097101,
        mark("user"@) == 4117114101114,
        mark("xhigh"@) == 5120103105104,
{
    assert(mark("url"@) == 3117108114108) by {
        reveal(mark);
        reveal_strlit("url");
    }
    assert(mark("usage"@) == 5117103097101) by {
        reveal(mark);
        reveal_strlit("usage");
    }
    assert(mark("user"@) == 4117114101114) by {
        reveal(mark);
        reveal_strlit("user");
    }
    assert(mark("xhigh"@) == 5120103105104) by {
        reveal(mark);
        reveal_strlit("xhigh");
    }
}

/// No two of the names have the same number, and none is empty.
pub proof fn lemma_names()
    ensures
        forall|s: Seq<char>| s.len() == 0 ==> #[trigger] mark(s) == 0,
        ""@.len() == 0,
        mark("aborted"@) == 7097101114100,
        mark("annotations"@) == 11097111097115,
        mark("api_error"@) == 9097114101114,
        mark("arguments"@) == 9097110109115,
        mark("assistant"@) == 9097097115116,
        mark("auth_error"@) == 10097114101114,
        mark("authentication_error"@) == 20097101116114,
        mark("auto"@) == 4097111116111,
        mark("background"@) == 10098117114100,
        mark("billing"@) == 7098110108103,
        mark("cache_creation_1h_input_tokens"@) == 30099116049115,
        mark("cache_creation_5m_input_tokens"@) == 30099116053115,
        mark("cache_creation_input_tokens"@) == 27099095110115,
        mark("cache_read_input_tokens"@) == 23099116105115,
        mark("cached_tokens"@) == 13099107095115,
        mark("call_id"@) == 7099105108100,
        mark("choices"@) == 7099101105115,
        mark("code"@) == 4099101100101,
        mark("completed"@) == 9099116108100,
        mark("completion_tokens"@) == 17099111111115,
        mark("completion_tokens_details"@) == 25099100111115,
        mark("content"@) == 7099110116116,
        mark("content_index"@) == 13099110116120,
        mark("created"@) == 7099101097100,
        mark("created_at"@) == 10099095101116,
        mark("delta"@) == 5100116108097,
        mark("description"@) == 11100105105110,
        mark("detail"@) == 6100105097108,
        mark("developer"@) == 9100112108114,
        mark("effort"@) == 6101114111116,
        mark("empty_response"@) == 14101111101101,
        mark("error"@) == 5101111114114,
        mark("finish_reason"@) == 13102097095110,
        mark("function"@) == 8102111116110,
        mark("function.description"@) == 20102112101110,
        mark("function.name"@) == 13102110111101,
        mark("function.parameters"@) == 19102101112115,
        mark("function_call"@) == 13102099111108,
        mark("function_call_output"@) == 20102117097116,
        mark("high"@) == 4104104103104,
        mark("id"@) == 2105100100100,
        mark("image"@) == 5105103097101,
        mark("image_url"@) == 9105117101108,
        mark("immediate_stream_end"@) == 20105109115100,
        mark("in_progress"@) == 11105101111115,
        mark("include_usage"@) == 13105115101101,
        mark("incomplete"@) == 10105101112101,
        mark("incomplete_details"@) == 18105116101115,
        mark("index"@) == 5105101100120,
        mark("input"@) == 5105117112116,
        mark("input_image"@) == 11105097095101,
        mark("input_text"@) == 10105101095116,
        mark("input_tokens"@) == 12105101116115,
        mark("input_tokens_details"@) == 20105116110115,
        mark("instructions"@) == 12105111099115,
        mark("insufficient_quota"@) == 18105113101097,
        mark("invalid"@) == 7105105097100,
        mark("invalid_api_key"@) == 15105095095121,
        mark("item"@) == 4105109101109,
        mark("item_id"@) == 7105105109100,
        mark("length"@) == 6108116103104,
        mark("logprobs"@) == 8108098114115,
        mark("low"@) == 3108119111119,
        mark("malformed"@) == 9109109111100,
        mark("malformed_tool_call"@) == 19109095095108,
        mark("max_output_tokens"@) == 17109111117115,
        mark("max_tokens"@) == 10109101111115,
        mark("medium"@) == 6109117105109,
        mark("message"@) == 7109103115101,
        mark("messages"@) == 8109101097115,
        mark("metadata"@) == 8109116100097,
        mark("minimal"@) == 7109097105108,
        mark("model"@) == 5109101100108,
        mark("name"@) == 4110101109101,
        mark("none"@) == 4110101110101,
        mark("null"@) == 4110108108108,
        mark("object"@) == 6111099101116,
        mark("output"@) == 6111117112116,
        mark("output_index"@) == 12111100095120,
        mark("output_text"@) == 11111101116116,
        mark("output_tokens"@) == 13111107095115,
        mark("output_tokens_details"@) == 21111101101115,
        mark("parallel_tool_calls"@) == 19112099116115,
        mark("parameters"@) == 10112101101115,
        mark("parse_error"@) == 11112114095114,
        mark("part"@) == 4112116114116,
        mark("preflight_timeout"@) == 17112109116116,
        mark("previous_response_id"@) == 20112115101100,
        mark("prompt_tokens"@) == 13112107095115,
        mark("prompt_tokens_details"@) == 21112101101115,
        mark("quota_error"@) == 11113114095114,
        mark("quota_exceeded"@) == 14113101120100,
        mark("rate_limit"@) == 10114109108116,
        mark("reason"@) == 6114111115110,
        mark("reasoning"@) == 9114105111103,
        mark("reasoning_content"@) == 17114110103116,
        mark("reasoning_effort"@) == 16114102103116,
        mark("reasoning_tokens"@) == 16114107103115,
        mark("response"@) == 8114115111101,
        mark("response.completed"@) == 18114108099100,
        mark("response.content_part.added"@) == 27114116101100,
        mark("response.content_part.done"@) == 26114114101101,
        mark("response.created"@) == 16114097046100,
        mark("response.function_call_arguments.delta"@) == 38114101097097,
        mark("response.function_call_arguments.done"@) == 37114109099101,
        mark("response.in_progress"@) == 20114103110115,
        mark("response.output_item.added"@) == 26114109117100,
        mark("response.output_item.done"@) == 25114101112101,
        mark("response.output_text.delta"@) == 26114116117097,
        mark("response.output_text.done"@) == 25114120112101,
        mark("response.reasoning_summary_part.added"@) == 37114112095100,
        mark("response.reasoning_summary_part.done"@) == 36114112095101,
        mark("response.reasoning_summary_text.delta"@) == 37114116095097,
        mark("response.reasoning_summary_text.done"@) == 36114116095101,
        mark("role"@) == 4114101108101,
        mark("sequence_number"@) == 15115109101114,
        mark("source"@) == 6115099114101,
        mark("status"@) == 6115117116115,
        mark("stream"@) == 6115097101109,
        mark("stream_options"@) == 14115105111115,
        mark("stream_read_error"@) == 17115101101114,
        mark("summary"@) == 7115114109121,
        mark("summary_index"@) == 13115110121120,
        mark("summary_text"@) == 12115101121116,
        mark("system"@) == 6115101116109,
        mark("temperature"@) == 11116117114101,
        mark("text"@) == 4116116120116,
        mark("tool"@) == 4116108111108,
        mark("tool_call_id"@) == 12116095097100,
        mark("tool_calls"@) == 10116108099115,
        mark("tool_choice"@) == 11116105099101,
        mark("tools"@) == 5116108111115,
        mark("top_p"@) == 5116095112112,
        mark("total_tokens"@) == 12116101116115,
        mark("type"@) == 4116101112101,
        mark("unauthorized"@) == 12117122111100,
        mark("url"@) == 3117108114108,
        mark("usage"@) == 5117103097101,
        mark("user"@) == 4117114101114,
        mark("xhigh"@) == 5120103105104,
{
    assert forall|s: Seq<char>| s.len() == 0 implies #[trigger] mark(s) == 0 by {
        reveal(mark);
    }
    reveal_strlit("");
    lemma_names_0();
    lemma_names_1();
    lemma_names_2();
    lemma_names_3();
    lemma_names_4();
    lemma_names_5();
    lemma_names_6();
    lemma_names_7();
    lemma_names_8();
    lemma_names_9();
    lemma_names_10();
    lemma_names_11();
    lemma_names_12();
    lemma_names_13();
    lemma_names_14();
    lemma_names_15();
    lemma_names_16();
    lemma_names_17();
}

} // verus!
