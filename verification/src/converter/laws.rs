//! Laws of the format conversions: what a converted request or response
//! keeps of the one it was made from.
use vstd::prelude::*;
use crate::converter::{
    AnthropicStreamChunk, GeminiStreamChunk, anthropic_delta_of, anthropic_finish_of, chunk_of, gemini_chunk_of,
    AnthropicContent, AnthropicRequest, AnthropicResponse, GeminiRequest, GeminiResponse, anthropic_messages,
    anthropic_request_of, anthropic_response_of, anthropic_view, content_or_empty, gemini_messages, gemini_request_of,
    gemini_response_of, gemini_role, gemini_view, message_text, opt_view, opt_views, part_text, part_texts, system_of,
    text_blocks, tool_use_calls, calls_view, call_view,
};
use crate::models::{ChatCompletionChunk, ChatCompletionRequest, ChatCompletionResponse, Message};
use crate::text::join;

verus! {

// ============================================================================
// Laws of the conversions
// ============================================================================

/// The messages that are not system messages, in order.
pub open spec fn non_system(msgs: Seq<Message>) -> Seq<Message> {
    msgs.filter(|m: Message| m.role@ != "system"@)
}

proof fn lemma_non_system_push(msgs: Seq<Message>)
    requires
        msgs.len() > 0,
    ensures
        non_system(msgs) == (if msgs.last().role@ == "system"@ {
            non_system(msgs.drop_last())
        } else {
            non_system(msgs.drop_last()).push(msgs.last())
        }),
{
    reveal(Seq::filter);
}

proof fn lemma_anthropic_messages_non_system(msgs: Seq<Message>)
    ensures
        anthropic_messages(msgs) == non_system(msgs).map_values(|m: Message| (m.role@, message_text(m))),
    decreases msgs.len(),
{
    if msgs.len() == 0 {
        reveal(Seq::filter);
        assert(non_system(msgs).len() == 0);
        assert(anthropic_messages(msgs) =~= non_system(msgs).map_values(|m: Message| (m.role@, message_text(m))));
    } else {
        lemma_anthropic_messages_non_system(msgs.drop_last());
        lemma_non_system_push(msgs);
        let f = |m: Message| (m.role@, message_text(m));
        if msgs.last().role@ != "system"@ {
            assert(non_system(msgs.drop_last()).push(msgs.last()).map_values(f)
                =~= non_system(msgs.drop_last()).map_values(f).push(f(msgs.last())));
        }
    }
}

proof fn lemma_gemini_messages_non_system(msgs: Seq<Message>)
    ensures
        gemini_messages(msgs) == non_system(msgs).map_values(
            |m: Message| (gemini_role(m.role@), seq![content_or_empty(m)])),
    decreases msgs.len(),
{
    if msgs.len() == 0 {
        reveal(Seq::filter);
        assert(non_system(msgs).len() == 0);
        assert(gemini_messages(msgs) =~= non_system(msgs).map_values(
            |m: Message| (gemini_role(m.role@), seq![content_or_empty(m)])));
    } else {
        lemma_gemini_messages_non_system(msgs.drop_last());
        lemma_non_system_push(msgs);
        let f = |m: Message| (gemini_role(m.role@), seq![content_or_empty(m)]);
        if msgs.last().role@ != "system"@ {
            assert(non_system(msgs.drop_last()).push(msgs.last()).map_values(f)
                =~= non_system(msgs.drop_last()).map_values(f).push(f(msgs.last())));
        }
    }
}

proof fn lemma_system_of_last(msgs: Seq<Message>)
    ensures
        (forall|i: int| 0 <= i < msgs.len() ==> (#[trigger] msgs[i]).role@ != "system"@) ==> system_of(msgs) is None,
        forall|i: int| 0 <= i < msgs.len() && (#[trigger] msgs[i]).role@ == "system"@
            && (forall|j: int| i < j < msgs.len() ==> msgs[j].role@ != "system"@)
            ==> system_of(msgs) == opt_view(msgs[i].content),
    decreases msgs.len(),
{
    if msgs.len() > 0 {
        lemma_system_of_last(msgs.drop_last());
        assert forall|i: int| 0 <= i < msgs.len() && (#[trigger] msgs[i]).role@ == "system"@
            && (forall|j: int| i < j < msgs.len() ==> msgs[j].role@ != "system"@)
            implies system_of(msgs) == opt_view(msgs[i].content) by {
            if i < msgs.len() - 1 {
                assert(msgs.last() == msgs[msgs.len() - 1]);
                assert(msgs.drop_last()[i] == msgs[i]);
                assert forall|j: int| i < j < msgs.drop_last().len() implies msgs.drop_last()[j].role@ != "system"@ by {
                    assert(msgs.drop_last()[j] == msgs[j]);
                }
            }
        }
        if forall|i: int| 0 <= i < msgs.len() ==> (#[trigger] msgs[i]).role@ != "system"@ {
            assert(msgs[msgs.len() - 1].role@ != "system"@);
            assert forall|i: int| 0 <= i < msgs.drop_last().len() implies (#[trigger] msgs.drop_last()[i]).role@ != "system"@ by {
                assert(msgs.drop_last()[i] == msgs[i]);
            }
        }
    }
}

/// An OpenAI request in Anthropic form keeps the conversation: every message
/// that is not a system message is there, in order, with its role, and with
/// its text when it carries no tool calls; the system prompt is the content
/// of the last system message (none without one); the model, the sampling
/// settings and the stop sequences are those of the request, and the token
/// limit is the request's or 4096.
pub proof fn lemma_anthropic_request_keeps_conversation(a: AnthropicRequest, req: ChatCompletionRequest)
    requires
        anthropic_request_of(a, req),
    ensures
        a.model@ == req.model@,
        a.messages@.len() == non_system(req.messages@).len(),
        forall|k: int| 0 <= k < a.messages@.len() ==> {
            let m = non_system(req.messages@)[k];
            &&& (#[trigger] a.messages@[k]).role@ == m.role@
            &&& m.role@ != "system"@
            &&& m.tool_calls is None ==> a.messages@[k].content@ == content_or_empty(m)
        },
        (forall|i: int| 0 <= i < req.messages@.len() ==> (#[trigger] req.messages@[i]).role@ != "system"@) ==> a.system is None,
        forall|i: int| 0 <= i < req.messages@.len() && (#[trigger] req.messages@[i]).role@ == "system"@
            && (forall|j: int| i < j < req.messages@.len() ==> req.messages@[j].role@ != "system"@)
            ==> opt_view(a.system) == opt_view(req.messages@[i].content),
        a.temperature == req.temperature,
        a.top_p == req.top_p,
        opt_views(a.stop_sequences) == opt_views(req.stop),
        req.max_tokens matches Some(n) ==> a.max_tokens == n,
        req.max_tokens is None ==> a.max_tokens == 4096,
        a.stream == Some(req.stream),
        req.tools is None ==> a.tools is None,
        req.tools matches Some(t) ==> (a.tools matches Some(ts) && ts@.len() == t@.len()
            && forall|i: int| 0 <= i < t@.len() ==> (#[trigger] ts@[i]).name@ == t@[i].function.name@),
{
    let msgs = req.messages@;
    lemma_anthropic_messages_non_system(msgs);
    lemma_system_of_last(msgs);
    let ns = non_system(msgs);
    assert(anthropic_view(a.messages@).len() == a.messages@.len());
    assert forall|k: int| 0 <= k < a.messages@.len() implies {
        let m = ns[k];
        &&& (#[trigger] a.messages@[k]).role@ == m.role@
        &&& m.role@ != "system"@
        &&& m.tool_calls is None ==> a.messages@[k].content@ == content_or_empty(m)
    } by {
        assert(anthropic_view(a.messages@)[k] == (a.messages@[k].role@, a.messages@[k].content@));
        reveal(Seq::filter);
        msgs.lemma_filter_pred(|m: Message| m.role@ != "system"@, k);
    }
}

/// An OpenAI request in Gemini form keeps the conversation: every message
/// that is not a system message becomes one content, in order, of one text
/// part holding its text (empty without one), said by the `model` when the
/// assistant wrote it and by the `user` otherwise; the system instruction is
/// the content of the last system message (none without one); and the
/// generation config carries the request's temperature, token limit, top-p
/// and stop sequences unchanged.
pub proof fn lemma_gemini_request_keeps_conversation(g: GeminiRequest, req: ChatCompletionRequest)
    requires
        gemini_request_of(g, req),
    ensures
        g.contents@.len() == non_system(req.messages@).len(),
        forall|k: int| 0 <= k < g.contents@.len() ==> {
            let m = non_system(req.messages@)[k];
            &&& m.role@ == "assistant"@ ==> (#[trigger] g.contents@[k]).role@ == "model"@
            &&& m.role@ != "assistant"@ ==> g.contents@[k].role@ == "user"@
            &&& m.role@ != "system"@
            &&& part_texts(g.contents@[k].parts@) == seq![content_or_empty(m)]
        },
        (forall|i: int| 0 <= i < req.messages@.len() ==> (#[trigger] req.messages@[i]).role@ != "system"@)
            ==> g.system_instruction is None,
        forall|i: int| 0 <= i < req.messages@.len() && (#[trigger] req.messages@[i]).role@ == "system"@
            && (forall|j: int| i < j < req.messages@.len() ==> req.messages@[j].role@ != "system"@)
            ==> opt_view(g.system_instruction) == opt_view(req.messages@[i].content),
        g.generation_config matches Some(c) && {
            &&& c.temperature == req.temperature
            &&& c.max_output_tokens == req.max_tokens
            &&& c.top_p == req.top_p
            &&& opt_views(c.stop_sequences) == opt_views(req.stop)
        },
{
    let msgs = req.messages@;
    lemma_gemini_messages_non_system(msgs);
    lemma_system_of_last(msgs);
    let ns = non_system(msgs);
    assert(gemini_view(g.contents@).len() == g.contents@.len());
    assert forall|k: int| 0 <= k < g.contents@.len() implies {
        let m = ns[k];
        &&& m.role@ == "assistant"@ ==> (#[trigger] g.contents@[k]).role@ == "model"@
        &&& m.role@ != "assistant"@ ==> g.contents@[k].role@ == "user"@
        &&& m.role@ != "system"@
        &&& part_texts(g.contents@[k].parts@) == seq![content_or_empty(m)]
    } by {
        assert(gemini_view(g.contents@)[k] == (g.contents@[k].role@, part_texts(g.contents@[k].parts@)));
        reveal(Seq::filter);
        msgs.lemma_filter_pred(|m: Message| m.role@ != "system"@, k);
    }
}

/// An Anthropic response in OpenAI form keeps what the provider answered:
/// one choice, whose finish reason is the Anthropic stop reason when there is
/// one and `stop` only when there is none; the id and the role of the
/// answer; no content without a text block, and a lone text block's text as
/// the content; and the token counts, their sum as the total.
pub proof fn lemma_anthropic_response_keeps_answer(r: ChatCompletionResponse, resp: AnthropicResponse, model: Seq<char>, created: i64)
    requires
        anthropic_response_of(r, resp, model, created),
        resp.usage.input_tokens + resp.usage.output_tokens <= u32::MAX,
    ensures
        r.choices@.len() == 1,
        resp.stop_reason matches Some(s) ==> (r.choices@[0].finish_reason matches Some(f) && f@ == s@),
        resp.stop_reason is None ==> (r.choices@[0].finish_reason matches Some(f) && f@ == "stop"@),
        r.id@ == resp.id@,
        r.model@ == model,
        r.choices@[0].message.role@ == resp.role@,
        (forall|i: int| 0 <= i < resp.content@.len() ==> (#[trigger] resp.content@[i]) is ToolUse)
            ==> r.choices@[0].message.content is None,
        resp.content@.len() == 1 ==> (resp.content@[0] matches AnthropicContent::Text { text }
            ==> (r.choices@[0].message.content matches Some(c) && c@ == text@)),
        r.usage.prompt_tokens == resp.usage.input_tokens,
        r.usage.completion_tokens == resp.usage.output_tokens,
        r.usage.total_tokens == resp.usage.input_tokens + resp.usage.output_tokens,
        (forall|i: int| 0 <= i < resp.content@.len() ==> (#[trigger] resp.content@[i]) is Text)
            ==> r.choices@[0].message.tool_calls is None,
        resp.content@.len() == 1 ==> (resp.content@[0] matches AnthropicContent::ToolUse { id, name, input }
            ==> (r.choices@[0].message.tool_calls matches Some(tc) && tc@.len() == 1 && tc@[0].id@ == id@
                && tc@[0].call_type@ == "function"@ && tc@[0].function.name@ == name@)),
{
    lemma_text_blocks_none(resp.content@);
    lemma_tool_uses_none(resp.content@);
    if resp.content@.len() == 1 {
        assert(resp.content@.drop_last().len() == 0);
        assert(resp.content@.last() == resp.content@[0]);
        if let AnthropicContent::ToolUse { id, name, input } = resp.content@[0] {
            assert(tool_use_calls(resp.content@.drop_last()).len() == 0);
            let tc = r.choices@[0].message.tool_calls->Some_0;
            assert(calls_view(tc@)[0] == call_view(tc@[0]));
        }
        if let AnthropicContent::Text { text } = resp.content@[0] {
            assert(resp.content@.last() == resp.content@[0]);
            assert(text_blocks(resp.content@.drop_last()).len() == 0);
            assert(text_blocks(resp.content@) =~= seq![text@]);
            reveal_with_fuel(join, 2);
        }
    }
}

proof fn lemma_tool_uses_none(cs: Seq<AnthropicContent>)
    ensures
        (forall|i: int| 0 <= i < cs.len() ==> (#[trigger] cs[i]) is Text) ==> tool_use_calls(cs).len() == 0,
    decreases cs.len(),
{
    if cs.len() > 0 {
        lemma_tool_uses_none(cs.drop_last());
        if forall|i: int| 0 <= i < cs.len() ==> (#[trigger] cs[i]) is Text {
            assert(cs[cs.len() - 1] is Text);
            assert forall|i: int| 0 <= i < cs.drop_last().len() implies (#[trigger] cs.drop_last()[i]) is Text by {
                assert(cs.drop_last()[i] == cs[i]);
            }
        }
    }
}

proof fn lemma_text_blocks_none(cs: Seq<AnthropicContent>)
    ensures
        (forall|i: int| 0 <= i < cs.len() ==> (#[trigger] cs[i]) is ToolUse) ==> text_blocks(cs).len() == 0,
    decreases cs.len(),
{
    if cs.len() > 0 {
        lemma_text_blocks_none(cs.drop_last());
        if forall|i: int| 0 <= i < cs.len() ==> (#[trigger] cs[i]) is ToolUse {
            assert(cs[cs.len() - 1] is ToolUse);
            assert forall|i: int| 0 <= i < cs.drop_last().len() implies (#[trigger] cs.drop_last()[i]) is ToolUse by {
                assert(cs.drop_last()[i] == cs[i]);
            }
        }
    }
}

/// A Gemini response in OpenAI form keeps what the first candidate answered:
/// one choice, from the assistant, whose finish reason is the candidate's,
/// and whose content is the candidate's text when it has one text part.
pub proof fn lemma_gemini_response_keeps_answer(r: ChatCompletionResponse, resp: GeminiResponse, model: Seq<char>, millis: i64, created: i64)
    requires
        gemini_response_of(r, resp, model, millis, created),
    ensures
        r.choices@.len() == 1,
        r.choices@[0].finish_reason == resp.candidates@[0].finish_reason,
        r.choices@[0].message.role@ == "assistant"@,
        r.model@ == model,
        resp.candidates@[0].content.parts@.len() == 1 ==> (r.choices@[0].message.content matches Some(c)
            && c@ == part_text(resp.candidates@[0].content.parts@[0])),
        resp.usage_metadata is None ==> r.usage.prompt_tokens == 0 && r.usage.completion_tokens == 0 && r.usage.total_tokens == 0,
        resp.usage_metadata matches Some(u) ==> {
            &&& (u.prompt_token_count matches Some(x) ==> r.usage.prompt_tokens == x)
            &&& (u.candidates_token_count matches Some(x) ==> r.usage.completion_tokens == x)
            &&& (u.total_token_count matches Some(x) ==> r.usage.total_tokens == x)
        },
{
    let ps = resp.candidates@[0].content.parts@;
    if ps.len() == 1 {
        assert(part_texts(ps) =~= seq![part_text(ps[0])]);
        reveal_with_fuel(join, 2);
    }
}

/// An Anthropic streaming event in OpenAI form: a text delta carries its
/// text, a block start announces the assistant, and the chunk finishes (with
/// `stop`) exactly at the end of the message.
pub proof fn lemma_anthropic_chunk_carries_text(ch: ChatCompletionChunk, chunk: AnthropicStreamChunk, model: Seq<char>, millis: i64, created: i64)
    requires
        chunk_of(ch, model, millis, created, anthropic_delta_of(chunk).0, anthropic_delta_of(chunk).1, anthropic_finish_of(chunk)),
    ensures
        ch.choices@.len() == 1,
        ch.model@ == model,
        chunk.event_type@ == "content_block_delta"@ ==> match chunk.delta {
            Some(d) => opt_view(ch.choices@[0].delta.content) == opt_view(d.text),
            None => ch.choices@[0].delta.content is None,
        },
        chunk.event_type@ == "content_block_start"@ ==> (ch.choices@[0].delta.role matches Some(r) && r@ == "assistant"@),
        chunk.event_type@ == "message_stop"@ ==> (ch.choices@[0].finish_reason matches Some(f) && f@ == "stop"@),
        chunk.event_type@ != "message_stop"@ ==> ch.choices@[0].finish_reason is None,
        ch.choices@[0].delta.tool_calls is None,
{
    reveal_strlit("content_block_delta");
    reveal_strlit("content_block_start");
    assert("content_block_delta"@ != "content_block_start"@) by {
        assert("content_block_delta"@[14] != "content_block_start"@[14]);
    }
}

/// A Gemini streaming chunk in OpenAI form: the first candidate speaks as
/// the assistant, keeps its finish reason, and its lone non-empty text part
/// is the content; a chunk without candidates carries nothing.
pub proof fn lemma_gemini_chunk_carries_text(ch: ChatCompletionChunk, chunk: GeminiStreamChunk, model: Seq<char>, millis: i64, created: i64)
    requires
        gemini_chunk_of(ch, chunk, model, millis, created),
    ensures
        ch.choices@.len() == 1,
        ch.model@ == model,
        chunk.candidates@.len() == 0 ==> ch.choices@[0].delta.content is None && ch.choices@[0].finish_reason is None,
        chunk.candidates@.len() > 0 ==> {
            let c = chunk.candidates@[0];
            &&& opt_view(ch.choices@[0].finish_reason) == opt_view(c.finish_reason)
            &&& ch.choices@[0].delta.role matches Some(r) && r@ == "assistant"@
            &&& (c.content.parts@.len() == 1 && part_text(c.content.parts@[0]).len() > 0) ==>
                (ch.choices@[0].delta.content matches Some(t) && t@ == part_text(c.content.parts@[0]))
        },
{
    if chunk.candidates@.len() > 0 {
        let ps = chunk.candidates@[0].content.parts@;
        if ps.len() == 1 {
            assert(part_texts(ps) =~= seq![part_text(ps[0])]);
            reveal_with_fuel(join, 2);
        }
    }
}

} // verus!
