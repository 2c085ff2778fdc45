//! Conversion between the OpenAI format, which the gateway speaks, and the
//! Anthropic and Gemini formats of the backends.
//!
//! The provider-specific structures are the ones the backends' JSON maps onto
//! (the JSON itself is read and written at the edge of the program); floating
//! parameters travel as `f32` bit patterns, as in the OpenAI request.
use vstd::prelude::*;
use crate::clock::{now_unix_millis, now_unix_secs};
use crate::error::{AppError, ProviderError};
use crate::json::{json_str, json_text, push_json_str, value_to_json_text};
use crate::models::{
    ChatCompletionChunk, ChatCompletionRequest, ChatCompletionResponse, Choice, ChunkChoice, Delta, FunctionCall,
    Message, Tool, ToolCall, ToolChoice, Usage,
};
use crate::text::{clone_opt, clone_strings, concat2, dec_int, join, join_strings, lemma_join_step, push_char, push_dec_i64, str_eq, views};

pub mod laws;

verus! {

// ============================================================================
// Anthropic structures
// ============================================================================

#[derive(Debug)]
pub struct AnthropicRequest {
    pub model: String,
    pub messages: Vec<AnthropicMessage>,
    pub system: Option<String>,
    pub max_tokens: u32,
    /// Bit pattern of the `f32` temperature.
    pub temperature: Option<u32>,
    /// Bit pattern of the `f32` nucleus-sampling parameter.
    pub top_p: Option<u32>,
    pub stop_sequences: Option<Vec<String>>,
    pub stream: Option<bool>,
    pub tools: Option<Vec<AnthropicTool>>,
}

#[derive(Debug)]
pub struct AnthropicMessage {
    pub role: String,
    pub content: String,
}

#[derive(Debug)]
pub struct AnthropicResponse {
    pub id: String,
    /// Serialised as `type`.
    pub response_type: String,
    pub role: String,
    pub content: Vec<AnthropicContent>,
    pub model: String,
    pub stop_reason: Option<String>,
    pub usage: AnthropicUsage,
}

/// A content block, tagged by `type` (`text` or `tool_use`).
#[derive(Debug)]
pub enum AnthropicContent {
    Text { text: String },
    ToolUse { id: String, name: String, input: serde_json::Value },
}

#[derive(Debug)]
pub struct AnthropicUsage {
    pub input_tokens: u32,
    pub output_tokens: u32,
}

#[derive(Debug)]
pub struct AnthropicTool {
    pub name: String,
    pub description: Option<String>,
    pub input_schema: serde_json::Value,
}

#[derive(Debug)]
pub enum AnthropicToolChoice {
    Auto,
    Any,
    Tool { name: String },
}

#[derive(Debug)]
pub struct AnthropicStreamChunk {
    /// Serialised as `type`.
    pub event_type: String,
    pub delta: Option<AnthropicDelta>,
}

#[derive(Debug)]
pub struct AnthropicDelta {
    pub text: Option<String>,
}

// ============================================================================
// Gemini structures
// ============================================================================

#[derive(Debug)]
pub struct GeminiRequest {
    pub contents: Vec<GeminiContent>,
    pub system_instruction: Option<String>,
    pub generation_config: Option<GeminiGenerationConfig>,
}

#[derive(Debug)]
pub struct GeminiContent {
    pub role: String,
    pub parts: Vec<GeminiPart>,
}

#[derive(Debug)]
pub enum GeminiPart {
    Text { text: String },
}

#[derive(Debug)]
pub struct GeminiGenerationConfig {
    /// Bit pattern of the `f32` temperature.
    pub temperature: Option<u32>,
    pub max_output_tokens: Option<u32>,
    /// Bit pattern of the `f32` nucleus-sampling parameter.
    pub top_p: Option<u32>,
    pub stop_sequences: Option<Vec<String>>,
}

#[derive(Debug)]
pub struct GeminiResponse {
    pub candidates: Vec<GeminiCandidate>,
    pub usage_metadata: Option<GeminiUsageMetadata>,
}

#[derive(Debug)]
pub struct GeminiCandidate {
    pub content: GeminiContent,
    pub finish_reason: Option<String>,
}

#[derive(Debug)]
pub struct GeminiUsageMetadata {
    pub prompt_token_count: Option<u32>,
    pub candidates_token_count: Option<u32>,
    pub total_token_count: Option<u32>,
}

#[derive(Debug)]
pub struct GeminiStreamChunk {
    pub candidates: Vec<GeminiCandidate>,
}

// ============================================================================
// Specification helpers
// ============================================================================

pub open spec fn opt_view(o: Option<String>) -> Option<Seq<char>> {
    match o {
        Some(s) => Some(s@),
        None => None,
    }
}

pub open spec fn opt_views(o: Option<Vec<String>>) -> Option<Seq<Seq<char>>> {
    match o {
        Some(v) => Some(views(v@)),
        None => None,
    }
}

/// A tool call as JSON, its fields in declaration order.
pub open spec fn tool_call_json(c: ToolCall) -> Seq<char> {
    "{\"id\":"@ + json_str(c.id@) + ",\"type\":"@ + json_str(c.call_type@) + ",\"function\":{\"name\":"@
        + json_str(c.function.name@) + ",\"arguments\":"@ + json_str(c.function.arguments@) + "}}"@
}

/// Tool calls as a JSON array.
pub open spec fn tool_calls_json(cs: Seq<ToolCall>) -> Seq<char> {
    "["@ + join(cs.map_values(|c: ToolCall| tool_call_json(c)), ","@) + "]"@
}

/// The content sent to Anthropic for a message: its tool calls as JSON, else
/// its text (empty when it has none).
pub open spec fn message_text(m: Message) -> Seq<char> {
    match m.tool_calls {
        Some(tc) => tool_calls_json(tc@),
        None => match m.content {
            Some(c) => c@,
            None => Seq::empty(),
        },
    }
}

/// The messages other than the system messages, as (role, content) pairs.
pub open spec fn anthropic_messages(msgs: Seq<Message>) -> Seq<(Seq<char>, Seq<char>)>
    decreases msgs.len(),
{
    if msgs.len() == 0 {
        Seq::empty()
    } else if msgs.last().role@ == "system"@ {
        anthropic_messages(msgs.drop_last())
    } else {
        anthropic_messages(msgs.drop_last()).push((msgs.last().role@, message_text(msgs.last())))
    }
}

/// The content of the last system message (`None` without one, or when that
/// message has no content).
pub open spec fn system_of(msgs: Seq<Message>) -> Option<Seq<char>>
    decreases msgs.len(),
{
    if msgs.len() == 0 {
        None
    } else if msgs.last().role@ == "system"@ {
        opt_view(msgs.last().content)
    } else {
        system_of(msgs.drop_last())
    }
}

pub open spec fn anthropic_view(ms: Seq<AnthropicMessage>) -> Seq<(Seq<char>, Seq<char>)> {
    ms.map_values(|m: AnthropicMessage| (m.role@, m.content@))
}

/// `ts` are the tools `tools` in Anthropic form.
pub open spec fn tools_converted(ts: Seq<AnthropicTool>, tools: Seq<Tool>) -> bool {
    &&& ts.len() == tools.len()
    &&& forall|i: int| 0 <= i < tools.len() ==> {
        &&& (#[trigger] ts[i]).name@ == tools[i].function.name@
        &&& opt_view(ts[i].description) == opt_view(tools[i].function.description)
        &&& ts[i].input_schema == tools[i].function.parameters
    }
}

/// `a` is `req` in Anthropic form.
pub open spec fn anthropic_request_of(a: AnthropicRequest, req: ChatCompletionRequest) -> bool {
    &&& a.model@ == req.model@
    &&& anthropic_view(a.messages@) == anthropic_messages(req.messages@)
    &&& opt_view(a.system) == system_of(req.messages@)
    &&& a.max_tokens == (match req.max_tokens { Some(m) => m, None => 4096u32 })
    &&& a.temperature == req.temperature
    &&& a.top_p == req.top_p
    &&& opt_views(a.stop_sequences) == opt_views(req.stop)
    &&& a.stream == Some(req.stream)
    &&& match req.tools {
        Some(t) => a.tools matches Some(ts) && tools_converted(ts@, t@),
        None => a.tools is None,
    }
}

/// The Gemini role of an OpenAI role: the assistant is the `model`, anyone
/// else the `user`.
pub open spec fn gemini_role(role: Seq<char>) -> Seq<char> {
    if role == "assistant"@ { "model"@ } else { "user"@ }
}

pub open spec fn content_or_empty(m: Message) -> Seq<char> {
    match m.content {
        Some(c) => c@,
        None => Seq::empty(),
    }
}

pub open spec fn part_text(p: GeminiPart) -> Seq<char> {
    match p {
        GeminiPart::Text { text } => text@,
    }
}

pub open spec fn part_texts(ps: Seq<GeminiPart>) -> Seq<Seq<char>> {
    ps.map_values(|p: GeminiPart| part_text(p))
}

pub open spec fn gemini_view(cs: Seq<GeminiContent>) -> Seq<(Seq<char>, Seq<Seq<char>>)> {
    cs.map_values(|c: GeminiContent| (c.role@, part_texts(c.parts@)))
}

/// The messages other than the system messages, as Gemini contents of one
/// text part each.
pub open spec fn gemini_messages(msgs: Seq<Message>) -> Seq<(Seq<char>, Seq<Seq<char>>)>
    decreases msgs.len(),
{
    if msgs.len() == 0 {
        Seq::empty()
    } else if msgs.last().role@ == "system"@ {
        gemini_messages(msgs.drop_last())
    } else {
        gemini_messages(msgs.drop_last()).push((gemini_role(msgs.last().role@), seq![content_or_empty(msgs.last())]))
    }
}

/// `g` is `req` in Gemini form.
pub open spec fn gemini_request_of(g: GeminiRequest, req: ChatCompletionRequest) -> bool {
    &&& gemini_view(g.contents@) == gemini_messages(req.messages@)
    &&& opt_view(g.system_instruction) == system_of(req.messages@)
    &&& g.generation_config matches Some(c)
    &&& c.temperature == req.temperature
    &&& c.max_output_tokens == req.max_tokens
    &&& c.top_p == req.top_p
    &&& opt_views(c.stop_sequences) == opt_views(req.stop)
}

fn clone_opt_strings(o: &Option<Vec<String>>) -> (r: Option<Vec<String>>)
    ensures
        opt_views(r) == opt_views(*o),
{
    match o {
        Some(v) => {
            let c = clone_strings(v);
            assert(views(c@) =~= views(v@));
            Some(c)
        },
        None => None,
    }
}

/// The texts of the text blocks, in order.
pub open spec fn text_blocks(cs: Seq<AnthropicContent>) -> Seq<Seq<char>>
    decreases cs.len(),
{
    if cs.len() == 0 {
        Seq::empty()
    } else {
        match cs.last() {
            AnthropicContent::Text { text } => text_blocks(cs.drop_last()).push(text@),
            AnthropicContent::ToolUse { .. } => text_blocks(cs.drop_last()),
        }
    }
}

/// The tool calls of the tool-use blocks, in order: id, type `function`, the
/// tool's name, and its input as JSON text.
pub open spec fn tool_use_calls(cs: Seq<AnthropicContent>) -> Seq<(Seq<char>, Seq<char>, Seq<char>, Seq<char>)>
    decreases cs.len(),
{
    if cs.len() == 0 {
        Seq::empty()
    } else {
        match cs.last() {
            AnthropicContent::Text { .. } => tool_use_calls(cs.drop_last()),
            AnthropicContent::ToolUse { id, name, input } =>
                tool_use_calls(cs.drop_last()).push((id@, "function"@, name@, json_text(input))),
        }
    }
}

pub open spec fn call_view(c: ToolCall) -> (Seq<char>, Seq<char>, Seq<char>, Seq<char>) {
    (c.id@, c.call_type@, c.function.name@, c.function.arguments@)
}

pub open spec fn calls_view(cs: Seq<ToolCall>) -> Seq<(Seq<char>, Seq<char>, Seq<char>, Seq<char>)> {
    cs.map_values(|c: ToolCall| call_view(c))
}

/// `r` is the Anthropic response `resp` in OpenAI form, for `model`, created
/// at `created`.
pub open spec fn anthropic_response_of(r: ChatCompletionResponse, resp: AnthropicResponse, model: Seq<char>, created: i64) -> bool {
    let texts = text_blocks(resp.content@);
    let calls = tool_use_calls(resp.content@);
    &&& r.id@ == resp.id@
    &&& r.object@ == "chat.completion"@
    &&& r.created == created
    &&& r.model@ == model
    &&& r.system_fingerprint is None
    &&& r.usage == (Usage {
        prompt_tokens: resp.usage.input_tokens,
        completion_tokens: resp.usage.output_tokens,
        total_tokens: (resp.usage.input_tokens + resp.usage.output_tokens) as u32,
        prompt_tokens_details: None,
        completion_tokens_details: None,
    })
    &&& r.choices@.len() == 1
    &&& r.choices@[0].index == 0
    &&& r.choices@[0].logprobs is None
    &&& opt_view(r.choices@[0].finish_reason) == Some(match resp.stop_reason {
        Some(s) => s@,
        None => "stop"@,
    })
    &&& r.choices@[0].message.role@ == resp.role@
    &&& opt_view(r.choices@[0].message.content) == (if texts.len() == 0 { None } else { Some(join(texts, "\n"@)) })
    &&& r.choices@[0].message.name is None
    &&& r.choices@[0].message.tool_call_id is None
    &&& if calls.len() == 0 {
        r.choices@[0].message.tool_calls is None
    } else {
        r.choices@[0].message.tool_calls matches Some(tc) && calls_view(tc@) == calls
    }
}

/// `r` is the Gemini response `resp` in OpenAI form, for `model`, with id
/// `gemini-MILLIS` and created at `created`; `resp` has a candidate, the first
/// of which answers.
pub open spec fn gemini_response_of(r: ChatCompletionResponse, resp: GeminiResponse, model: Seq<char>, millis: i64, created: i64) -> bool {
    let c = resp.candidates@[0];
    let (p, q, t) = match resp.usage_metadata {
        Some(u) => (
            match u.prompt_token_count { Some(x) => x, None => 0u32 },
            match u.candidates_token_count { Some(x) => x, None => 0u32 },
            match u.total_token_count { Some(x) => x, None => 0u32 },
        ),
        None => (0u32, 0u32, 0u32),
    };
    &&& r.id@ == "gemini-"@ + dec_int(millis as int)
    &&& r.object@ == "chat.completion"@
    &&& r.created == created
    &&& r.model@ == model
    &&& r.system_fingerprint is None
    &&& r.usage == (Usage {
        prompt_tokens: p,
        completion_tokens: q,
        total_tokens: t,
        prompt_tokens_details: None,
        completion_tokens_details: None,
    })
    &&& r.choices@.len() == 1
    &&& r.choices@[0].index == 0
    &&& r.choices@[0].logprobs is None
    &&& r.choices@[0].finish_reason == c.finish_reason
    &&& r.choices@[0].message.role@ == "assistant"@
    &&& opt_view(r.choices@[0].message.content) == Some(join(part_texts(c.content.parts@), "\n"@))
    &&& r.choices@[0].message.name is None
    &&& r.choices@[0].message.tool_calls is None
    &&& r.choices@[0].message.tool_call_id is None
}

/// `ch` is a streaming chunk of `model` with id `chatcmpl-MILLIS`, created
/// at `created`, whose one choice has this delta (role and content; never
/// tool calls) and finish reason.
pub open spec fn chunk_of(ch: ChatCompletionChunk, model: Seq<char>, millis: i64, created: i64, role: Option<Seq<char>>, content: Option<Seq<char>>, finish: Option<Seq<char>>) -> bool {
    &&& ch.id@ == "chatcmpl-"@ + dec_int(millis as int)
    &&& ch.object@ == "chat.completion.chunk"@
    &&& ch.created == created
    &&& ch.model@ == model
    &&& ch.system_fingerprint is None
    &&& ch.choices@.len() == 1
    &&& ch.choices@[0].index == 0
    &&& ch.choices@[0].logprobs is None
    &&& opt_view(ch.choices@[0].delta.role) == role
    &&& opt_view(ch.choices@[0].delta.content) == content
    &&& ch.choices@[0].delta.tool_calls is None
    &&& opt_view(ch.choices@[0].finish_reason) == finish
}

/// The delta of an Anthropic streaming event: a block start announces the
/// assistant, a block delta carries its text, and other events carry nothing.
pub open spec fn anthropic_delta_of(chunk: AnthropicStreamChunk) -> (Option<Seq<char>>, Option<Seq<char>>) {
    if chunk.event_type@ == "content_block_start"@ {
        (Some("assistant"@), None)
    } else if chunk.event_type@ == "content_block_delta"@ {
        (None, match chunk.delta {
            Some(d) => opt_view(d.text),
            None => None,
        })
    } else {
        (None, None)
    }
}

/// The texts of the parts.
fn part_strings(parts: &Vec<GeminiPart>) -> (v: Vec<String>)
    ensures
        views(v@) == part_texts(parts@),
{
    let mut v: Vec<String> = Vec::new();
    let mut i: usize = 0;
    while i < parts.len()
        invariant
            i <= parts@.len(),
            views(v@) == part_texts(parts@.subrange(0, i as int)),
        decreases parts@.len() - i,
    {
        let ghost before = v@;
        match &parts[i] {
            GeminiPart::Text { text } => {
                v.push(text.clone());
            },
        }
        assert(views(v@) =~= views(before).push(part_text(parts@[i as int])));
        assert(parts@.subrange(0, i + 1) =~= parts@.subrange(0, i as int).push(parts@[i as int]));
        assert(part_texts(parts@.subrange(0, i + 1)) =~= part_texts(parts@.subrange(0, i as int)).push(part_text(parts@[i as int])));
        i = i + 1;
    }
    assert(parts@.subrange(0, parts@.len() as int) =~= parts@);
    v
}

/// `ch` is the Gemini streaming chunk `chunk` in OpenAI form (see
/// `gemini_chunk_to_openai_at`).
pub open spec fn gemini_chunk_of(ch: ChatCompletionChunk, chunk: GeminiStreamChunk, model: Seq<char>, millis: i64, created: i64) -> bool {
    if chunk.candidates@.len() == 0 {
        chunk_of(ch, model, millis, created, None, None, None)
    } else {
        let c = chunk.candidates@[0];
        let text = join(part_texts(c.content.parts@), Seq::<char>::empty());
        chunk_of(ch, model, millis, created, Some("assistant"@), if text.len() == 0 { None } else { Some(text) },
            opt_view(c.finish_reason))
    }
}

/// The finish reason of an Anthropic streaming event: `stop` at the end of
/// the message.
pub open spec fn anthropic_finish_of(chunk: AnthropicStreamChunk) -> Option<Seq<char>> {
    if chunk.event_type@ == "message_stop"@ { Some("stop"@) } else { None }
}

// ============================================================================
// Conversions
// ============================================================================

/// Converts between the OpenAI format and those of the other providers.
pub struct FormatConverter;

impl FormatConverter {
    /// Writes the tool calls as a JSON array of objects `{"id", "type",
    /// "function": {"name", "arguments"}}`; this never fails.
    #[verifier::rlimit(40)]
    pub fn convert_tool_calls_to_anthropic_content(tool_calls: &Vec<ToolCall>) -> (r: Result<String, AppError>)
        ensures
            r matches Ok(s) && s@ == tool_calls_json(tool_calls@),
    {
        let ghost items = tool_calls@.map_values(|c: ToolCall| tool_call_json(c));
        let mut out = String::from_str("[");
        let mut i: usize = 0;
        while i < tool_calls.len()
            invariant
                i <= tool_calls@.len(),
                items == tool_calls@.map_values(|c: ToolCall| tool_call_json(c)),
                out@ == "["@ + join(items.subrange(0, i as int), ","@),
            decreases tool_calls@.len() - i,
        {
            let ghost before = out@;
            if i > 0 {
                push_char(&mut out, ',');
            }
            let c = &tool_calls[i];
            out.append("{\"id\":");
            push_json_str(&mut out, c.id.as_str());
            out.append(",\"type\":");
            push_json_str(&mut out, c.call_type.as_str());
            out.append(",\"function\":{\"name\":");
            push_json_str(&mut out, c.function.name.as_str());
            out.append(",\"arguments\":");
            push_json_str(&mut out, c.function.arguments.as_str());
            out.append("}}");
            proof {
                lemma_join_step(items, i as int, ","@);
                assert(items[i as int] == tool_call_json(tool_calls@[i as int]));
                reveal_strlit(",");
                assert(out@ =~= "["@ + join(items.subrange(0, i + 1), ","@));
            }
            i = i + 1;
        }
        assert(items.subrange(0, tool_calls@.len() as int) =~= items);
        out.append("]");
        Ok(out)
    }

    /// The request in Anthropic form: the system messages become the system
    /// prompt (the last one counts), the other messages keep their role and
    /// carry their tool calls as JSON or else their text, and the token limit
    /// defaults to 4096. This never fails.
    pub fn openai_to_anthropic(request: &ChatCompletionRequest) -> (r: Result<AnthropicRequest, AppError>)
        ensures
            r matches Ok(a) && anthropic_request_of(a, *request),
    {
        let msgs = &request.messages;
        let mut system: Option<String> = None;
        let mut messages: Vec<AnthropicMessage> = Vec::new();
        let mut i: usize = 0;
        while i < msgs.len()
            invariant
                i <= msgs@.len(),
                anthropic_view(messages@) == anthropic_messages(msgs@.take(i as int)),
                opt_view(system) == system_of(msgs@.take(i as int)),
            decreases msgs@.len() - i,
        {
            let m = &msgs[i];
            assert(msgs@.take(i + 1).drop_last() =~= msgs@.take(i as int));
            assert(msgs@.take(i + 1).last() == msgs@[i as int]);
            if str_eq(m.role.as_str(), "system") {
                system = clone_opt(&m.content);
            } else {
                let content = match &m.tool_calls {
                    Some(tc) => match Self::convert_tool_calls_to_anthropic_content(tc) {
                        Ok(s) => s,
                        Err(_) => String::new(),
                    },
                    None => match &m.content {
                        Some(c) => c.clone(),
                        None => String::new(),
                    },
                };
                let ghost before = messages@;
                messages.push(AnthropicMessage { role: m.role.clone(), content });
                assert(anthropic_view(messages@) =~= anthropic_view(before).push((m.role@, message_text(*m))));
            }
            i = i + 1;
        }
        assert(msgs@.take(msgs@.len() as int) =~= msgs@);
        let tools = match &request.tools {
            Some(t) => match Self::convert_tools_to_anthropic(t) {
                Ok(ts) => Some(ts),
                Err(e) => {
                    return Err(e);
                },
            },
            None => None,
        };
        let max_tokens: u32 = match request.max_tokens {
            Some(m) => m,
            None => 4096,
        };
        Ok(AnthropicRequest {
            model: request.model.clone(),
            messages,
            system,
            max_tokens,
            temperature: request.temperature,
            top_p: request.top_p,
            stop_sequences: clone_opt_strings(&request.stop),
            stream: Some(request.stream),
            tools,
        })
    }

    /// The request in Gemini form: the system messages become the system
    /// instruction (the last one counts), the others become contents of the
    /// `user` or, for the assistant, the `model`, and the sampling settings go
    /// to the generation config. This never fails.
    pub fn openai_to_gemini(request: &ChatCompletionRequest) -> (r: Result<GeminiRequest, AppError>)
        ensures
            r matches Ok(g) && gemini_request_of(g, *request),
    {
        let msgs = &request.messages;
        let mut system: Option<String> = None;
        let mut contents: Vec<GeminiContent> = Vec::new();
        let mut i: usize = 0;
        while i < msgs.len()
            invariant
                i <= msgs@.len(),
                gemini_view(contents@) == gemini_messages(msgs@.take(i as int)),
                opt_view(system) == system_of(msgs@.take(i as int)),
            decreases msgs@.len() - i,
        {
            let m = &msgs[i];
            assert(msgs@.take(i + 1).drop_last() =~= msgs@.take(i as int));
            assert(msgs@.take(i + 1).last() == msgs@[i as int]);
            if str_eq(m.role.as_str(), "system") {
                system = clone_opt(&m.content);
            } else {
                let role = if str_eq(m.role.as_str(), "assistant") { "model" } else { "user" };
                let text = match &m.content {
                    Some(c) => c.clone(),
                    None => String::new(),
                };
                let mut parts: Vec<GeminiPart> = Vec::new();
                parts.push(GeminiPart::Text { text });
                assert(part_texts(parts@) =~= seq![content_or_empty(*m)]);
                let ghost before = contents@;
                contents.push(GeminiContent { role: String::from_str(role), parts });
                assert(gemini_view(contents@) =~= gemini_view(before).push(
                    (gemini_role(m.role@), seq![content_or_empty(*m)])));
            }
            i = i + 1;
        }
        assert(msgs@.take(msgs@.len() as int) =~= msgs@);
        Ok(GeminiRequest {
            contents,
            system_instruction: system,
            generation_config: Some(GeminiGenerationConfig {
                temperature: request.temperature,
                max_output_tokens: request.max_tokens,
                top_p: request.top_p,
                stop_sequences: clone_opt_strings(&request.stop),
            }),
        })
    }

    /// The Anthropic response in OpenAI form, created at `created`: the text
    /// blocks joined by newlines become the content, the tool-use blocks become
    /// tool calls, the stop reason (`stop` when there is none) the finish
    /// reason, and the token counts the usage. This never fails.
    pub fn anthropic_to_openai_at(response: AnthropicResponse, model: &str, created: i64) -> (r: Result<ChatCompletionResponse, AppError>)
        requires
            response.usage.input_tokens + response.usage.output_tokens <= u32::MAX,
        ensures
            r matches Ok(c) && anthropic_response_of(c, response, model@, created),
    {
        let blocks = &response.content;
        let mut texts: Vec<String> = Vec::new();
        let mut calls: Vec<ToolCall> = Vec::new();
        let mut i: usize = 0;
        while i < blocks.len()
            invariant
                i <= blocks@.len(),
                views(texts@) == text_blocks(blocks@.take(i as int)),
                calls_view(calls@) == tool_use_calls(blocks@.take(i as int)),
            decreases blocks@.len() - i,
        {
            assert(blocks@.take(i + 1).drop_last() =~= blocks@.take(i as int));
            assert(blocks@.take(i + 1).last() == blocks@[i as int]);
            match &blocks[i] {
                AnthropicContent::Text { text } => {
                    let ghost before = texts@;
                    texts.push(text.clone());
                    assert(views(texts@) =~= views(before).push(text@));
                },
                AnthropicContent::ToolUse { id, name, input } => {
                    let ghost before = calls@;
                    calls.push(ToolCall {
                        id: id.clone(),
                        call_type: String::from_str("function"),
                        function: FunctionCall { name: name.clone(), arguments: value_to_json_text(input) },
                    });
                    assert(calls_view(calls@) =~= calls_view(before).push((id@, "function"@, name@, json_text(*input))));
                },
            }
            i = i + 1;
        }
        assert(blocks@.take(blocks@.len() as int) =~= blocks@);
        let content = if texts.len() == 0 { None } else { Some(join_strings(&texts, "\n")) };
        let tool_calls = if calls.len() == 0 { None } else { Some(calls) };
        let finish = match response.stop_reason {
            Some(s) => s,
            None => String::from_str("stop"),
        };
        let message = Message { role: response.role, content, name: None, tool_calls, tool_call_id: None };
        let choice = Choice { index: 0, message, finish_reason: Some(finish), logprobs: None };
        let mut choices: Vec<Choice> = Vec::new();
        choices.push(choice);
        let usage = Usage {
            prompt_tokens: response.usage.input_tokens,
            completion_tokens: response.usage.output_tokens,
            total_tokens: response.usage.input_tokens + response.usage.output_tokens,
            prompt_tokens_details: None,
            completion_tokens_details: None,
        };
        Ok(ChatCompletionResponse {
            id: response.id,
            object: String::from_str("chat.completion"),
            created,
            model: String::from_str(model),
            choices,
            usage,
            system_fingerprint: None,
        })
    }

    /// The Anthropic response in OpenAI form, created now (see
    /// `anthropic_to_openai_at`).
    pub fn anthropic_to_openai(response: AnthropicResponse, model: &str) -> (r: Result<ChatCompletionResponse, AppError>)
        requires
            response.usage.input_tokens + response.usage.output_tokens <= u32::MAX,
        ensures
            r matches Ok(c) && anthropic_response_of(c, response, model@, c.created),
    {
        let created = now_unix_secs();
        Self::anthropic_to_openai_at(response, model, created)
    }

    /// The Gemini response in OpenAI form, with id `gemini-MILLIS` and
    /// created at `created`: the first candidate's text parts joined by
    /// newlines become the assistant's content, its finish reason is kept, and
    /// missing token counts are 0. A response without candidates is refused.
    pub fn gemini_to_openai_at(response: GeminiResponse, model: &str, millis: i64, created: i64) -> (r: Result<ChatCompletionResponse, AppError>)
        ensures
            response.candidates@.len() > 0 ==> (r matches Ok(c) && gemini_response_of(c, response, model@, millis, created)),
            response.candidates@.len() == 0 ==> (r matches Err(AppError::Provider(ProviderError::ResponseError(m)))
                && m@ == "No candidates in response"@),
    {
        if response.candidates.len() == 0 {
            return Err(AppError::Provider(ProviderError::ResponseError(String::from_str("No candidates in response"))));
        }
        let c = &response.candidates[0];
        let texts = part_strings(&c.content.parts);
        let content = join_strings(&texts, "\n");
        let message = Message {
            role: String::from_str("assistant"),
            content: Some(content),
            name: None,
            tool_calls: None,
            tool_call_id: None,
        };
        let choice = Choice { index: 0, message, finish_reason: clone_opt(&c.finish_reason), logprobs: None };
        let mut choices: Vec<Choice> = Vec::new();
        choices.push(choice);
        let (p, q, t): (u32, u32, u32) = match &response.usage_metadata {
            Some(u) => (
                match u.prompt_token_count { Some(x) => x, None => 0 },
                match u.candidates_token_count { Some(x) => x, None => 0 },
                match u.total_token_count { Some(x) => x, None => 0 },
            ),
            None => (0, 0, 0),
        };
        let usage = Usage {
            prompt_tokens: p,
            completion_tokens: q,
            total_tokens: t,
            prompt_tokens_details: None,
            completion_tokens_details: None,
        };
        let mut id = String::from_str("gemini-");
        push_dec_i64(&mut id, millis);
        Ok(ChatCompletionResponse {
            id,
            object: String::from_str("chat.completion"),
            created,
            model: String::from_str(model),
            choices,
            usage,
            system_fingerprint: None,
        })
    }

    /// The Gemini response in OpenAI form now (see `gemini_to_openai_at`).
    pub fn gemini_to_openai(response: GeminiResponse, model: &str) -> (r: Result<ChatCompletionResponse, AppError>)
        ensures
            response.candidates@.len() > 0 ==> (r matches Ok(c) && exists|millis: i64|
                #[trigger] gemini_response_of(c, response, model@, millis, c.created)),
            response.candidates@.len() == 0 ==> (r matches Err(AppError::Provider(ProviderError::ResponseError(m)))
                && m@ == "No candidates in response"@),
    {
        let millis = now_unix_millis();
        let created = now_unix_secs();
        Self::gemini_to_openai_at(response, model, millis, created)
    }

    /// An Anthropic streaming event as an OpenAI chunk with id
    /// `chatcmpl-MILLIS`, created at `created`: see `anthropic_delta_of`;
    /// `message_stop` finishes with `stop`.
    pub fn anthropic_chunk_to_openai_at(chunk: AnthropicStreamChunk, model: &str, millis: i64, created: i64) -> (ch: ChatCompletionChunk)
        ensures
            chunk_of(ch, model@, millis, created, anthropic_delta_of(chunk).0, anthropic_delta_of(chunk).1,
                anthropic_finish_of(chunk)),
    {
        let delta = if str_eq(chunk.event_type.as_str(), "content_block_start") {
            Delta { role: Some(String::from_str("assistant")), content: None, tool_calls: None }
        } else if str_eq(chunk.event_type.as_str(), "content_block_delta") {
            match chunk.delta {
                Some(d) => Delta { role: None, content: d.text, tool_calls: None },
                None => Delta { role: None, content: None, tool_calls: None },
            }
        } else {
            Delta { role: None, content: None, tool_calls: None }
        };
        let finish = if str_eq(chunk.event_type.as_str(), "message_stop") {
            Some(String::from_str("stop"))
        } else {
            None
        };
        Self::make_chunk(model, millis, created, delta, finish)
    }

    /// An Anthropic streaming event as an OpenAI chunk now (see
    /// `anthropic_chunk_to_openai_at`).
    pub fn anthropic_chunk_to_openai(chunk: AnthropicStreamChunk, model: &str) -> (ch: ChatCompletionChunk)
        ensures
            exists|millis: i64| #[trigger] chunk_of(ch, model@, millis, ch.created, anthropic_delta_of(chunk).0,
                anthropic_delta_of(chunk).1, anthropic_finish_of(chunk)),
    {
        let millis = now_unix_millis();
        let created = now_unix_secs();
        Self::anthropic_chunk_to_openai_at(chunk, model, millis, created)
    }

    /// A Gemini streaming chunk as an OpenAI chunk with id `chatcmpl-MILLIS`,
    /// created at `created`: the first candidate's text parts, joined, are
    /// the assistant's content (none when empty) and its finish reason is
    /// kept; without a candidate the delta is empty.
    pub fn gemini_chunk_to_openai_at(chunk: GeminiStreamChunk, model: &str, millis: i64, created: i64) -> (ch: ChatCompletionChunk)
        ensures
            gemini_chunk_of(ch, chunk, model@, millis, created),
    {
        if chunk.candidates.len() == 0 {
            return Self::make_chunk(model, millis, created, Delta { role: None, content: None, tool_calls: None }, None);
        }
        let c = &chunk.candidates[0];
        let texts = part_strings(&c.content.parts);
        let text = join_strings(&texts, "");
        proof {
            reveal_strlit("");
            assert(""@ =~= Seq::<char>::empty());
        }
        let content = if text.as_str().unicode_len() == 0 { None } else { Some(text) };
        let delta = Delta { role: Some(String::from_str("assistant")), content, tool_calls: None };
        Self::make_chunk(model, millis, created, delta, clone_opt(&c.finish_reason))
    }

    /// A Gemini streaming chunk as an OpenAI chunk now (see
    /// `gemini_chunk_to_openai_at`).
    pub fn gemini_chunk_to_openai(chunk: GeminiStreamChunk, model: &str) -> (ch: ChatCompletionChunk)
        ensures
            exists|millis: i64| #[trigger] gemini_chunk_of(ch, chunk, model@, millis, ch.created),
    {
        let millis = now_unix_millis();
        let created = now_unix_secs();
        Self::gemini_chunk_to_openai_at(chunk, model, millis, created)
    }

    fn make_chunk(model: &str, millis: i64, created: i64, delta: Delta, finish: Option<String>) -> (ch: ChatCompletionChunk)
        requires
            delta.tool_calls is None,
        ensures
            chunk_of(ch, model@, millis, created, opt_view(delta.role), opt_view(delta.content), opt_view(finish)),
            ch.choices@[0].delta == delta,
    {
        let mut id = String::from_str("chatcmpl-");
        push_dec_i64(&mut id, millis);
        let mut choices: Vec<ChunkChoice> = Vec::new();
        choices.push(ChunkChoice { index: 0, delta, finish_reason: finish, logprobs: None });
        ChatCompletionChunk {
            id,
            object: String::from_str("chat.completion.chunk"),
            created,
            model: String::from_str(model),
            choices,
            system_fingerprint: None,
        }
    }

    /// The tools in Anthropic form: name, description and input schema.
    pub fn convert_tools_to_anthropic(tools: &Vec<Tool>) -> (r: Result<Vec<AnthropicTool>, AppError>)
        ensures
            r matches Ok(ts) && tools_converted(ts@, tools@),
    {
        let mut ts: Vec<AnthropicTool> = Vec::new();
        let mut i: usize = 0;
        while i < tools.len()
            invariant
                i <= tools@.len(),
                tools_converted(ts@, tools@.subrange(0, i as int)),
            decreases tools@.len() - i,
        {
            let t = &tools[i];
            ts.push(AnthropicTool {
                name: t.function.name.clone(),
                description: clone_opt(&t.function.description),
                input_schema: t.function.parameters.clone(),
            });
            i = i + 1;
        }
        assert(tools@.subrange(0, tools@.len() as int) =~= tools@);
        Ok(ts)
    }

    /// The tool choice in Anthropic form: `auto` stays, `required` becomes
    /// `any`, a named function becomes that tool, and `none` has no Anthropic
    /// form.
    pub fn convert_tool_choice_to_anthropic(tool_choice: &ToolChoice) -> (r: Option<AnthropicToolChoice>)
        ensures
            match *tool_choice {
                ToolChoice::Auto => r matches Some(AnthropicToolChoice::Auto),
                ToolChoice::Required => r matches Some(AnthropicToolChoice::Any),
                ToolChoice::NoTool => r is None,
                ToolChoice::Specific { function, .. } => r matches Some(AnthropicToolChoice::Tool { name })
                    && name@ == function.name@,
            },
    {
        match tool_choice {
            ToolChoice::Auto => Some(AnthropicToolChoice::Auto),
            ToolChoice::Required => Some(AnthropicToolChoice::Any),
            ToolChoice::NoTool => None,
            ToolChoice::Specific { function, .. } => Some(AnthropicToolChoice::Tool { name: function.name.clone() }),
        }
    }
}

} // verus!
