//! Server-sent-event stream adapters, as state machines: each takes one
//! event of the upstream stream and says which events to send downstream.
use vstd::prelude::*;
use crate::cursor::{
    anthropic_stop_to_chat, chat_finish_reason, first_choice, first_choice_of, gen_id, is_generated_id, join,
    message_item, texts_view,
};
use crate::json::{
    empty_obj, group_json_view, items_view, jint, jnum, json_parse, json_text, jstr, or_else,
    parse_json_text, to_json_text, lemma_items_view, lemma_items_view_push, Json, JsonV,
};
use crate::text::{chars_of, concat, push_chars, str_eq, string_from_chars, trim};

verus! {

// ---------------------------------------------------------------------------
// Framing
// ---------------------------------------------------------------------------
/// `event: {event}\ndata: {json}\n\n`.
pub open spec fn sse_event_text(event: Seq<char>, data: JsonV) -> Seq<char> {
    "event: "@ + event + "\ndata: "@ + json_text(data) + "\n\n"@
}

/// `data: {json}\n\n`.
pub open spec fn sse_data_text(data: JsonV) -> Seq<char> {
    "data: "@ + json_text(data) + "\n\n"@
}

/// A named server-sent event carrying a JSON payload.
pub fn sse_json(event: &str, data: &Json) -> (r: String)
    ensures
        r@ == sse_event_text(event@, data@),
{
    let body = to_json_text(data);
    let a = concat("event: ", event);
    let b = concat(a.as_str(), "\ndata: ");
    let c = concat(b.as_str(), body.as_str());
    concat(c.as_str(), "\n\n")
}

/// An unnamed server-sent event carrying a chat chunk.
pub fn chat_sse_data(chunk: &Json) -> (r: String)
    ensures
        r@ == sse_data_text(chunk@),
{
    let body = to_json_text(chunk);
    let a = concat("data: ", body.as_str());
    concat(a.as_str(), "\n\n")
}

/// The JSON payload of an event's data lines: the lines joined by newlines
/// and read as JSON; none where there are no lines, where the data is the
/// `[DONE]` marker (when `skip_done`), or where it is not JSON.
pub open spec fn data_value(lines: Seq<Seq<char>>, skip_done: bool) -> Option<JsonV> {
    if skip_done && lines.len() == 0 {
        None
    } else {
        let data = join(lines, seq!['\n']);
        if skip_done && trim(data) == "[DONE]"@ {
            None
        } else {
            json_parse(data)
        }
    }
}

/// The payload of an event's data lines.
pub fn data_lines_value(lines: &Vec<String>, skip_done: bool) -> (r: Option<Json>)
    ensures
        match r {
            Some(v) => data_value(texts_view(lines@), skip_done) == Some(v@),
            None => data_value(texts_view(lines@), skip_done) is None,
        },
{
    if skip_done && lines.len() == 0 {
        return None;
    }
    let data = join_lines(lines);
    if skip_done {
        let t = crate::text::trim_str(data.as_str());
        if str_eq(t.as_str(), "[DONE]") {
            return None;
        }
    }
    parse_json_text(data.as_str())
}

/// The lines joined by newlines.
fn join_lines(parts: &Vec<String>) -> (r: String)
    ensures
        r@ == join(texts_view(parts@), seq!['\n']),
{
    let mut out: Vec<char> = Vec::new();
    let mut i: usize = 0;
    let ghost tv = texts_view(parts@);
    while i < parts.len()
        invariant
            i <= parts@.len(),
            tv == texts_view(parts@),
            tv.len() == parts@.len(),
            out@ == join(tv.take(i as int), seq!['\n']),
        decreases parts@.len() - i,
    {
        let ghost before = tv.take(i as int);
        proof {
            assert(tv.take(i as int + 1) =~= before.push(parts@[i as int]@));
            assert(before.push(parts@[i as int]@).drop_last() =~= before);
        }
        if i > 0 {
            out.push('\n');
        }
        let pc = chars_of(parts[i].as_str());
        push_chars(&mut out, pc.as_slice());
        proof {
            if i > 0 {
                assert(out@ =~= join(before, seq!['\n']) + seq!['\n'] + parts@[i as int]@);
            } else {
                assert(out@ =~= parts@[i as int]@);
            }
        }
        i = i + 1;
    }
    proof {
        assert(tv.take(parts@.len() as int) =~= tv);
    }
    string_from_chars(out.as_slice())
}

// ---------------------------------------------------------------------------
// Chat chunks
// ---------------------------------------------------------------------------
/// A Chat Completions stream chunk with a single choice.
pub open spec fn chunk(id: Seq<char>, model: Seq<char>, delta: JsonV, finish: Option<Seq<char>>, usage: Option<JsonV>) -> JsonV {
    let c0 = empty_obj().set("index"@, jnum(0)).set("delta"@, delta);
    let choice = match finish {
        Some(f) => c0.set("finish_reason"@, jstr(f)),
        None => c0,
    };
    let k = empty_obj().set("id"@, jstr(id)).set("object"@, jstr("chat.completion.chunk"@)).set(
        "model"@,
        jstr(model),
    ).set("choices"@, JsonV::Array(seq![choice]));
    match usage {
        Some(u) => k.set("usage"@, u),
        None => k,
    }
}

/// Every chunk carries the id it was built with.
pub proof fn lemma_chunk_id(id: Seq<char>, model: Seq<char>, delta: JsonV, finish: Option<Seq<char>>, usage: Option<JsonV>)
    ensures
        chunk(id, model, delta, finish, usage).get("id"@) == Some(jstr(id)),
{
    reveal_strlit("id");
    reveal_strlit("object");
    reveal_strlit("model");
    reveal_strlit("choices");
    reveal_strlit("usage");
    assert("object"@.len() != "id"@.len());
    assert("model"@.len() != "id"@.len());
    assert("choices"@.len() != "id"@.len());
    assert("usage"@.len() != "id"@.len());
    let c0 = empty_obj().set("index"@, jnum(0)).set("delta"@, delta);
    let choice = match finish {
        Some(f) => c0.set("finish_reason"@, jstr(f)),
        None => c0,
    };
    let k0 = empty_obj().set("id"@, jstr(id));
    let k1 = k0.set("object"@, jstr("chat.completion.chunk"@));
    let k2 = k1.set("model"@, jstr(model));
    let k3 = k2.set("choices"@, JsonV::Array(seq![choice]));
    crate::json::law_get_after_set(empty_obj(), "id"@, "id"@, jstr(id));
    crate::json::law_get_after_set(k0, "object"@, "id"@, jstr("chat.completion.chunk"@));
    crate::json::law_get_after_set(k1, "model"@, "id"@, jstr(model));
    crate::json::law_get_after_set(k2, "choices"@, "id"@, JsonV::Array(seq![choice]));
    match usage {
        Some(u) => crate::json::law_get_after_set(k3, "usage"@, "id"@, u),
        None => {},
    }
}

/// The delta of a chunk's first choice.
pub open spec fn chunk_delta(c: JsonV) -> Option<JsonV> {
    match c.get("choices"@) {
        Some(JsonV::Array(cs)) => if cs.len() > 0 {
            cs[0].get("delta"@)
        } else {
            None
        },
        _ => None,
    }
}

/// The finish reason of a chunk's first choice.
pub open spec fn chunk_finish(c: JsonV) -> Option<JsonV> {
    match c.get("choices"@) {
        Some(JsonV::Array(cs)) => if cs.len() > 0 {
            cs[0].get("finish_reason"@)
        } else {
            None
        },
        _ => None,
    }
}

/// A chunk has one choice, carrying the delta and the finish reason it was
/// built with.
pub proof fn lemma_chunk_choice(id: Seq<char>, model: Seq<char>, delta: JsonV, finish: Option<Seq<char>>, usage: Option<JsonV>)
    ensures
        chunk(id, model, delta, finish, usage).get("choices"@) matches Some(JsonV::Array(cs)) && cs.len() == 1,
        chunk_delta(chunk(id, model, delta, finish, usage)) == Some(delta),
        chunk_finish(chunk(id, model, delta, finish, usage)) == match finish {
            Some(f) => Some(jstr(f)),
            None => None,
        },
{
    reveal_strlit("choices");
    reveal_strlit("usage");
    reveal_strlit("index");
    reveal_strlit("delta");
    reveal_strlit("finish_reason");
    assert("usage"@.len() != "choices"@.len());
    assert("index"@[0] != "delta"@[0]);
    assert("index"@.len() != "finish_reason"@.len());
    assert("finish_reason"@.len() != "delta"@.len());
    let c0a = empty_obj().set("index"@, jnum(0));
    let c0 = c0a.set("delta"@, delta);
    crate::json::law_get_after_set(empty_obj(), "index"@, "finish_reason"@, jnum(0));
    crate::json::law_get_after_set(c0a, "delta"@, "finish_reason"@, delta);
    assert(empty_obj().get("finish_reason"@) is None);
    let choice = match finish {
        Some(f) => {
            crate::json::law_get_after_set(c0, "finish_reason"@, "delta"@, jstr(f));
            c0.set("finish_reason"@, jstr(f))
        },
        None => c0,
    };
    let k0 = empty_obj().set("id"@, jstr(id));
    let k1 = k0.set("object"@, jstr("chat.completion.chunk"@));
    let k2 = k1.set("model"@, jstr(model));
    let k3 = k2.set("choices"@, JsonV::Array(seq![choice]));
    crate::json::law_get_after_set(empty_obj(), "id"@, "choices"@, jstr(id));
    crate::json::law_get_after_set(k0, "object"@, "choices"@, jstr("chat.completion.chunk"@));
    crate::json::law_get_after_set(k1, "model"@, "choices"@, jstr(model));
    crate::json::law_get_after_set(k2, "choices"@, "choices"@, JsonV::Array(seq![choice]));
    match usage {
        Some(u) => crate::json::law_get_after_set(k3, "usage"@, "choices"@, u),
        None => {},
    }
}

/// The only member of a one-member object is the one it was built with.
proof fn lemma_single_member(key: Seq<char>, other: Seq<char>, v: JsonV)
    ensures
        empty_obj().set(key, v).get(key) == Some(v),
        other != key ==> empty_obj().set(key, v).get(other) is None,
{
    crate::json::law_get_after_set(empty_obj(), key, other, v);
    assert(empty_obj().get(other) is None);
}

/// A one-element array.
fn single(v: Json) -> (r: Json)
    ensures
        r@ == JsonV::Array(seq![v@]),
{
    let mut items: Vec<Json> = Vec::new();
    items.push(v);
    proof {
        lemma_items_view_push(Seq::empty(), v);
        assert(items@ =~= Seq::<Json>::empty().push(v));
        assert(items_view(Seq::<Json>::empty()) =~= Seq::<JsonV>::empty());
        assert(items_view(items@) =~= seq![v@]);
    }
    Json::from_vec(items)
}

/// An empty array.
fn empty_array() -> (r: Json)
    ensures
        r@ == JsonV::Array(Seq::empty()),
{
    let items: Vec<Json> = Vec::new();
    proof {
        assert(items_view(items@) =~= Seq::<JsonV>::empty());
    }
    Json::from_vec(items)
}

/// A Chat Completions stream chunk.
pub fn chat_chunk(id: &str, model: &str, delta: Json, finish_reason: Option<&str>, usage: Option<Json>) -> (r: Json)
    ensures
        r@ == chunk(
            id@,
            model@,
            delta@,
            match finish_reason {
                Some(f) => Some(f@),
                None => None,
            },
            match usage {
                Some(u) => Some(u@),
                None => None,
            },
        ),
{
    let mut choice = Json::object().set("index", Json::from_u64(0)).set("delta", delta);
    match finish_reason {
        Some(reason) => {
            choice = choice.set("finish_reason", Json::from_str(reason));
        },
        None => {},
    }
    let k = Json::object().set("id", Json::from_str(id)).set("object", Json::from_str("chat.completion.chunk")).set(
        "model",
        Json::from_str(model),
    ).set("choices", single(choice));
    match usage {
        Some(u) => k.set("usage", u),
        None => k,
    }
}

/// The delta that opens an assistant message.
pub open spec fn role_delta() -> JsonV {
    empty_obj().set("role"@, jstr("assistant"@)).set("content"@, jstr(Seq::empty()))
}

/// A delta with the single member `key` holding the text `t`.
pub open spec fn text_delta(key: Seq<char>, t: Seq<char>) -> JsonV {
    empty_obj().set(key, jstr(t))
}

/// The delta that opens a tool call.
pub open spec fn tool_start_delta(index: i64, id: Seq<char>, name: Seq<char>) -> JsonV {
    let function = empty_obj().set("name"@, jstr(name)).set("arguments"@, jstr(Seq::empty()));
    let call = empty_obj().set("index"@, jint(index)).set("id"@, jstr(id)).set("type"@, jstr("function"@)).set(
        "function"@,
        function,
    );
    empty_obj().set("tool_calls"@, JsonV::Array(seq![call]))
}

/// The delta that adds argument text to a tool call.
pub open spec fn tool_args_delta(index: i64, args: Seq<char>) -> JsonV {
    let call = empty_obj().set("index"@, jint(index)).set(
        "function"@,
        empty_obj().set("arguments"@, jstr(args)),
    );
    empty_obj().set("tool_calls"@, JsonV::Array(seq![call]))
}

/// A chat `usage` object.
pub open spec fn chat_usage(input: u64, output: u64, total: u64) -> JsonV {
    empty_obj().set("prompt_tokens"@, jnum(input)).set("completion_tokens"@, jnum(output)).set(
        "total_tokens"@,
        jnum(total),
    )
}

fn make_role_delta() -> (r: Json)
    ensures
        r@ == role_delta(),
{
    proof {
        reveal_strlit("");
        assert(""@ =~= Seq::<char>::empty());
    }
    Json::object().set("role", Json::from_str("assistant")).set("content", Json::from_str(""))
}

fn make_text_delta(key: &str, t: &str) -> (r: Json)
    ensures
        r@ == text_delta(key@, t@),
{
    Json::object().set(key, Json::from_str(t))
}

fn make_tool_start_delta(index: i64, id: &str, name: &str) -> (r: Json)
    ensures
        r@ == tool_start_delta(index, id@, name@),
{
    proof {
        reveal_strlit("");
        assert(""@ =~= Seq::<char>::empty());
    }
    let function = Json::object().set("name", Json::from_str(name)).set("arguments", Json::from_str(""));
    let call = Json::object().set("index", Json::from_i64(index)).set("id", Json::from_str(id)).set(
        "type",
        Json::from_str("function"),
    ).set("function", function);
    Json::object().set("tool_calls", single(call))
}

fn make_tool_args_delta(index: i64, args: &str) -> (r: Json)
    ensures
        r@ == tool_args_delta(index, args@),
{
    let call = Json::object().set("index", Json::from_i64(index)).set(
        "function",
        Json::object().set("arguments", Json::from_str(args)),
    );
    Json::object().set("tool_calls", single(call))
}

fn make_chat_usage(input: u64, output: u64, total: u64) -> (r: Json)
    ensures
        r@ == chat_usage(input, output, total),
{
    Json::object().set("prompt_tokens", Json::from_u64(input)).set("completion_tokens", Json::from_u64(output)).set(
        "total_tokens",
        Json::from_u64(total),
    )
}

/// A string two levels down, or `default`.
pub open spec fn str2_or(v: JsonV, a: Seq<char>, b: Seq<char>, default: Seq<char>) -> Seq<char> {
    match v.get2_str(a, b) {
        Some(s) => s,
        None => default,
    }
}

/// A non-negative integer two levels down, or 0.
pub open spec fn u64_2_or_zero(v: JsonV, a: Seq<char>, b: Seq<char>) -> u64 {
    match v.get2(a, b) {
        Some(x) => match x.as_u64() {
            Some(u) => u,
            None => 0,
        },
        None => 0,
    }
}

fn str2_or_exec<'a>(v: &'a Json, a: &str, b: &str, default: &'a str) -> (r: &'a str)
    ensures
        r@ == str2_or(v@, a@, b@, default@),
{
    match v.get2_str(a, b) {
        Some(s) => s,
        None => default,
    }
}

fn u64_2_or_zero_exec(v: &Json, a: &str, b: &str) -> (r: u64)
    ensures
        r == u64_2_or_zero(v@, a@, b@),
{
    match v.get2(a, b) {
        Some(x) => match x.as_u64() {
            Some(u) => u,
            None => 0,
        },
        None => 0,
    }
}

// ---------------------------------------------------------------------------
// Anthropic stream -> Chat Completions stream
// ---------------------------------------------------------------------------
/// What the Anthropic-to-Chat adapter remembers between events.
pub struct AnthropicChatState {
    pub id: Seq<char>,
    pub model: Seq<char>,
    pub tool_index: i64,
    pub input_tokens: u64,
}

/// The Anthropic-to-Chat stream adapter.
pub struct AnthropicToChat {
    id: String,
    model: String,
    tool_index: i64,
    input_tokens: u64,
}

impl View for AnthropicToChat {
    type V = AnthropicChatState;

    closed spec fn view(&self) -> AnthropicChatState {
        AnthropicChatState {
            id: self.id@,
            model: self.model@,
            tool_index: self.tool_index,
            input_tokens: self.input_tokens,
        }
    }
}

/// The state after an Anthropic event and the chunk it produces, if any.
pub open spec fn anthropic_chat_step(st: AnthropicChatState, event: Seq<char>, value: JsonV) -> (AnthropicChatState, Option<JsonV>) {
    if event == "message_start"@ {
        let model = match value.get2_str("message"@, "model"@) {
            Some(m) => m,
            None => st.model,
        };
        let input_tokens = match value.get2("message"@, "usage"@) {
            Some(u) => u.u64_or_zero("input_tokens"@),
            None => 0,
        };
        let s2 = AnthropicChatState { model, input_tokens, ..st };
        (s2, Some(chunk(st.id, model, role_delta(), None, None)))
    } else if event == "content_block_start"@ && value.get2_str("content_block"@, "type"@) == Some("tool_use"@) {
        let idx = st.tool_index.wrapping_add(1);
        let s2 = AnthropicChatState { tool_index: idx, ..st };
        let delta = tool_start_delta(
            idx,
            str2_or(value, "content_block"@, "id"@, "toolu_"@),
            str2_or(value, "content_block"@, "name"@, Seq::empty()),
        );
        (s2, Some(chunk(st.id, st.model, delta, None, None)))
    } else if event == "content_block_delta"@ {
        let dt = str2_or(value, "delta"@, "type"@, Seq::empty());
        if dt == "text_delta"@ {
            match value.get2_str("delta"@, "text"@) {
                Some(t) => (st, Some(chunk(st.id, st.model, text_delta("content"@, t), None, None))),
                None => (st, None),
            }
        } else if dt == "thinking_delta"@ {
            match value.get2_str("delta"@, "thinking"@) {
                Some(t) => (st, Some(chunk(st.id, st.model, text_delta("reasoning_content"@, t), None, None))),
                None => (st, None),
            }
        } else if dt == "input_json_delta"@ {
            match value.get2_str("delta"@, "partial_json"@) {
                Some(p) => (
                    st,
                    Some(
                        chunk(
                            st.id,
                            st.model,
                            tool_args_delta(if st.tool_index > 0 { st.tool_index } else { 0 }, p),
                            None,
                            None,
                        ),
                    ),
                ),
                None => (st, None),
            }
        } else {
            (st, None)
        }
    } else if event == "message_delta"@ {
        let output_tokens = u64_2_or_zero(value, "usage"@, "output_tokens"@);
        let usage = chat_usage(st.input_tokens, output_tokens, st.input_tokens.wrapping_add(output_tokens));
        let finish = chat_finish_reason(value.get2_str("delta"@, "stop_reason"@));
        (st, Some(chunk(st.id, st.model, empty_obj(), Some(finish), Some(usage))))
    } else {
        (st, None)
    }
}

/// The Anthropic-to-Chat adapter keeps its id, and every chunk it sends
/// carries that id.
pub proof fn law_anthropic_chunks_keep_id(st: AnthropicChatState, event: Seq<char>, value: JsonV)
    ensures
        anthropic_chat_step(st, event, value).0.id == st.id,
        anthropic_chat_step(st, event, value).1 matches Some(c) ==> c.get("id"@) == Some(jstr(st.id)),
{
    let (s2, out) = anthropic_chat_step(st, event, value);
    match out {
        Some(c) => {
            assert forall|m: Seq<char>, d: JsonV, f: Option<Seq<char>>, u: Option<JsonV>|
                #[trigger] chunk(st.id, m, d, f, u).get("id"@) == Some(jstr(st.id)) by {
                lemma_chunk_id(st.id, m, d, f, u);
            }
        },
        None => {},
    }
}

/// Whether an Anthropic event opens a tool call.
pub open spec fn opens_tool_call(event: Seq<char>, value: JsonV) -> bool {
    event == "content_block_start"@ && value.get2_str("content_block"@, "type"@) == Some("tool_use"@)
}

/// The state after a run of Anthropic events, by name and payload.
pub open spec fn anthropic_chat_run(st: AnthropicChatState, events: Seq<(Seq<char>, JsonV)>) -> AnthropicChatState
    decreases events.len(),
{
    if events.len() == 0 {
        st
    } else {
        anthropic_chat_step(anthropic_chat_run(st, events.drop_last()), events.last().0, events.last().1).0
    }
}

/// The number of events of a run that open a tool call.
pub open spec fn tool_calls_opened(events: Seq<(Seq<char>, JsonV)>) -> nat
    decreases events.len(),
{
    if events.len() == 0 {
        0
    } else {
        tool_calls_opened(events.drop_last()) + if opens_tool_call(events.last().0, events.last().1) {
            1nat
        } else {
            0nat
        }
    }
}

/// Tool calls are numbered in the order in which they open: after a run of
/// events the adapter's tool index has moved on by one per tool call opened,
/// so the adapter that starts at -1 numbers its calls 0, 1, 2, ...
pub proof fn law_anthropic_tool_numbering(st: AnthropicChatState, events: Seq<(Seq<char>, JsonV)>)
    requires
        st.tool_index + events.len() <= i64::MAX,
        st.tool_index >= -1,
    ensures
        anthropic_chat_run(st, events).tool_index == st.tool_index + tool_calls_opened(events),
        anthropic_chat_run(st, events).id == st.id,
    decreases events.len(),
{
    if events.len() > 0 {
        law_anthropic_tool_numbering(st, events.drop_last());
        let mid = anthropic_chat_run(st, events.drop_last());
        law_anthropic_chunks_keep_id(mid, events.last().0, events.last().1);
        assert(tool_calls_opened(events.drop_last()) <= events.len() - 1) by {
            lemma_tool_calls_bound(events.drop_last());
        }
        reveal_strlit("message_start");
        reveal_strlit("content_block_start");
        assert("message_start"@.len() != "content_block_start"@.len());
        let (e, v) = events.last();
        if opens_tool_call(e, v) {
            assert(mid.tool_index < i64::MAX);
            assert(mid.tool_index.wrapping_add(1) == mid.tool_index + 1);
        }
    }
}

proof fn lemma_tool_calls_bound(events: Seq<(Seq<char>, JsonV)>)
    ensures
        tool_calls_opened(events) <= events.len(),
    decreases events.len(),
{
    if events.len() > 0 {
        lemma_tool_calls_bound(events.drop_last());
    }
}

/// An Anthropic `content_block_delta` goes to the delta key of its kind: a
/// text delta becomes the chunk delta `{"content": text}`, a thinking delta
/// becomes `{"reasoning_content": thinking}` and never shows as content, and
/// a delta without its text produces no chunk.
pub proof fn law_anthropic_delta_keys(st: AnthropicChatState, value: JsonV)
    ensures
        value.get2_str("delta"@, "type"@) == Some("text_delta"@) ==> match value.get2_str("delta"@, "text"@) {
            Some(t) => anthropic_chat_step(st, "content_block_delta"@, value).1 matches Some(c) && chunk_delta(c)
                matches Some(d) && d.get("content"@) == Some(jstr(t)) && d.get("reasoning_content"@) is None,
            None => anthropic_chat_step(st, "content_block_delta"@, value).1 is None,
        },
        value.get2_str("delta"@, "type"@) == Some("thinking_delta"@) ==> match value.get2_str(
            "delta"@,
            "thinking"@,
        ) {
            Some(t) => anthropic_chat_step(st, "content_block_delta"@, value).1 matches Some(c) && chunk_delta(c)
                matches Some(d) && d.get("reasoning_content"@) == Some(jstr(t)) && d.get("content"@) is None,
            None => anthropic_chat_step(st, "content_block_delta"@, value).1 is None,
        },
        anthropic_chat_step(st, "content_block_delta"@, value).0 == st,
{
    reveal_strlit("content_block_delta");
    reveal_strlit("message_start");
    reveal_strlit("content_block_start");
    reveal_strlit("text_delta");
    reveal_strlit("thinking_delta");
    reveal_strlit("input_json_delta");
    reveal_strlit("content");
    reveal_strlit("reasoning_content");
    assert("message_start"@.len() != "content_block_delta"@.len());
    assert("content_block_start"@[14] != "content_block_delta"@[14]);
    assert("text_delta"@.len() != "thinking_delta"@.len());
    assert("content"@.len() != "reasoning_content"@.len());
    let step = anthropic_chat_step(st, "content_block_delta"@, value);
    if value.get2_str("delta"@, "type"@) == Some("text_delta"@) {
        if let Some(t) = value.get2_str("delta"@, "text"@) {
            lemma_chunk_choice(st.id, st.model, text_delta("content"@, t), None, None);
            lemma_single_member("content"@, "reasoning_content"@, jstr(t));
        }
    }
    if value.get2_str("delta"@, "type"@) == Some("thinking_delta"@) {
        if let Some(t) = value.get2_str("delta"@, "thinking"@) {
            lemma_chunk_choice(st.id, st.model, text_delta("reasoning_content"@, t), None, None);
            lemma_single_member("reasoning_content"@, "content"@, jstr(t));
        }
    }
}

/// The last Anthropic event, `message_delta`, finishes the chat stream with
/// `length` for a `max_tokens` stop, `tool_calls` for a `tool_use` stop and
/// `stop` for any other or no stop reason.
pub proof fn law_anthropic_finish_reason(st: AnthropicChatState, value: JsonV)
    ensures
        anthropic_chat_step(st, "message_delta"@, value).1 matches Some(c) && chunk_finish(c) == Some(
            jstr(
                if value.get2_str("delta"@, "stop_reason"@) == Some("max_tokens"@) {
                    "length"@
                } else if value.get2_str("delta"@, "stop_reason"@) == Some("tool_use"@) {
                    "tool_calls"@
                } else {
                    "stop"@
                },
            ),
        ),
        anthropic_chat_step(st, "message_delta"@, value).0 == st,
{
    reveal_strlit("message_delta");
    reveal_strlit("message_start");
    reveal_strlit("content_block_start");
    reveal_strlit("content_block_delta");
    reveal_strlit("max_tokens");
    reveal_strlit("tool_use");
    assert("message_start"@[8] != "message_delta"@[8]);
    assert("content_block_start"@.len() != "message_delta"@.len());
    assert("content_block_delta"@.len() != "message_delta"@.len());
    assert("max_tokens"@.len() != "tool_use"@.len());
    let output_tokens = u64_2_or_zero(value, "usage"@, "output_tokens"@);
    let usage = chat_usage(st.input_tokens, output_tokens, st.input_tokens.wrapping_add(output_tokens));
    let finish = chat_finish_reason(value.get2_str("delta"@, "stop_reason"@));
    lemma_chunk_choice(st.id, st.model, empty_obj(), Some(finish), Some(usage));
}

impl AnthropicToChat {
    /// An adapter whose chunks carry the id `id`, for a request of `model`.
    pub fn with_id(id: String, request_model: String) -> (r: AnthropicToChat)
        ensures
            r@ == (AnthropicChatState { id: id@, model: request_model@, tool_index: -1i64, input_tokens: 0u64 }),
    {
        AnthropicToChat { id, model: request_model, tool_index: -1, input_tokens: 0 }
    }

    /// An adapter with a fresh `chatcmpl-` id, for a request of `model`.
    pub fn new(request_model: String) -> (r: AnthropicToChat)
        ensures
            is_generated_id(r@.id, "chatcmpl-"@),
            r@.model == request_model@,
            r@.tool_index == -1,
            r@.input_tokens == 0,
    {
        let id = gen_id("chatcmpl-");
        AnthropicToChat::with_id(id, request_model)
    }

    /// Takes one upstream event, by its name and data lines, and returns the
    /// chunk to send for it, if any. Events without data, the `[DONE]` marker
    /// and data that is not JSON are passed over.
    pub fn on_event(&mut self, event_name: &str, data_lines: &Vec<String>) -> (r: Option<Json>)
        ensures
            match data_value(texts_view(data_lines@), true) {
                Some(v) => {
                    &&& final(self)@ == anthropic_chat_step(old(self)@, event_name@, v).0
                    &&& match r {
                        Some(c) => anthropic_chat_step(old(self)@, event_name@, v).1 == Some(c@),
                        None => anthropic_chat_step(old(self)@, event_name@, v).1 is None,
                    }
                },
                None => final(self)@ == old(self)@ && r is None,
            },
    {
        match data_lines_value(data_lines, true) {
            Some(v) => self.step(event_name, &v),
            None => None,
        }
    }

    /// Takes one parsed upstream event.
    fn step(&mut self, event: &str, value: &Json) -> (r: Option<Json>)
        ensures
            final(self)@ == anthropic_chat_step(old(self)@, event@, value@).0,
            match r {
                Some(c) => anthropic_chat_step(old(self)@, event@, value@).1 == Some(c@),
                None => anthropic_chat_step(old(self)@, event@, value@).1 is None,
            },
    {
        proof {
            reveal_strlit("");
            assert(""@ =~= Seq::<char>::empty());
        }
        if str_eq(event, "message_start") {
            match value.get2_str("message", "model") {
                Some(m) => {
                    self.model = m.to_owned();
                },
                None => {},
            }
            self.input_tokens = match value.get2("message", "usage") {
                Some(u) => u.u64_or_zero("input_tokens"),
                None => 0,
            };
            return Some(chat_chunk(self.id.as_str(), self.model.as_str(), make_role_delta(), None, None));
        }
        let is_tool_start = str_eq(event, "content_block_start") && match value.get2_str("content_block", "type") {
            Some(t) => str_eq(t, "tool_use"),
            None => false,
        };
        if is_tool_start {
            self.tool_index = self.tool_index.wrapping_add(1);
            let delta = make_tool_start_delta(
                self.tool_index,
                str2_or_exec(value, "content_block", "id", "toolu_"),
                str2_or_exec(value, "content_block", "name", ""),
            );
            return Some(chat_chunk(self.id.as_str(), self.model.as_str(), delta, None, None));
        }
        if str_eq(event, "content_block_delta") {
            let dt = str2_or_exec(value, "delta", "type", "");
            if str_eq(dt, "text_delta") {
                return match value.get2_str("delta", "text") {
                    Some(t) => Some(chat_chunk(self.id.as_str(), self.model.as_str(), make_text_delta("content", t), None, None)),
                    None => None,
                };
            } else if str_eq(dt, "thinking_delta") {
                return match value.get2_str("delta", "thinking") {
                    Some(t) => Some(
                        chat_chunk(self.id.as_str(), self.model.as_str(), make_text_delta("reasoning_content", t), None, None),
                    ),
                    None => None,
                };
            } else if str_eq(dt, "input_json_delta") {
                return match value.get2_str("delta", "partial_json") {
                    Some(p) => {
                        let index = if self.tool_index > 0 {
                            self.tool_index
                        } else {
                            0
                        };
                        Some(chat_chunk(self.id.as_str(), self.model.as_str(), make_tool_args_delta(index, p), None, None))
                    },
                    None => None,
                };
            } else {
                return None;
            }
        }
        if str_eq(event, "message_delta") {
            let output_tokens = u64_2_or_zero_exec(value, "usage", "output_tokens");
            let usage = make_chat_usage(self.input_tokens, output_tokens, self.input_tokens.wrapping_add(output_tokens));
            let finish = anthropic_stop_to_chat(value.get2_str("delta", "stop_reason"));
            return Some(chat_chunk(self.id.as_str(), self.model.as_str(), Json::object(), Some(finish), Some(usage)));
        }
        None
    }
}


// ---------------------------------------------------------------------------
// Responses stream -> Chat Completions stream
// ---------------------------------------------------------------------------
/// What the Responses-to-Chat adapter remembers between events: the chunk
/// id, the model, and the tool-call index given to each call id.
pub struct ResponsesChatState {
    pub id: Seq<char>,
    pub model: Seq<char>,
    pub next_tool_index: i64,
    pub slots: Seq<(Seq<char>, i64)>,
}

/// The Responses-to-Chat stream adapter.
pub struct ResponsesToChat {
    id: String,
    model: String,
    next_tool_index: i64,
    tool_slots: Vec<(String, i64)>,
}

/// The views of the call-id slots.
pub open spec fn slots_view(v: Seq<(String, i64)>) -> Seq<(Seq<char>, i64)> {
    v.map_values(|p: (String, i64)| (p.0@, p.1))
}

impl View for ResponsesToChat {
    type V = ResponsesChatState;

    closed spec fn view(&self) -> ResponsesChatState {
        ResponsesChatState {
            id: self.id@,
            model: self.model@,
            next_tool_index: self.next_tool_index,
            slots: slots_view(self.tool_slots@),
        }
    }
}

/// The index given to `key`, if any.
pub open spec fn slot_of(slots: Seq<(Seq<char>, i64)>, key: Seq<char>) -> Option<i64>
    decreases slots.len(),
{
    if slots.len() == 0 {
        None
    } else if slots[0].0 == key {
        Some(slots[0].1)
    } else {
        slot_of(slots.drop_first(), key)
    }
}

/// The largest index given out, if any.
pub open spec fn max_slot(slots: Seq<(Seq<char>, i64)>) -> Option<i64>
    decreases slots.len(),
{
    if slots.len() == 0 {
        None
    } else {
        match max_slot(slots.drop_last()) {
            None => Some(slots.last().1),
            Some(m) => Some(if slots.last().1 > m { slots.last().1 } else { m }),
        }
    }
}

/// Whether some output item is a function call.
pub open spec fn has_function_call(items: Seq<JsonV>) -> bool {
    exists|k: int| 0 <= k < items.len() && #[trigger] items[k].get_str("type"@) == Some("function_call"@)
}

/// The state after a Responses event and the chunk it produces, if any.
pub open spec fn responses_chat_step(st: ResponsesChatState, event: Seq<char>, value: JsonV) -> (ResponsesChatState, Option<JsonV>) {
    if event == "response.created"@ {
        let m = match value.get("model"@) {
            Some(v) => v.as_str(),
            None => value.get2_str("response"@, "model"@),
        };
        let model = match m {
            Some(x) => x,
            None => st.model,
        };
        (ResponsesChatState { model, ..st }, Some(chunk(st.id, model, role_delta(), None, None)))
    } else if event == "response.output_text.delta"@ {
        match value.get_str("delta"@) {
            Some(d) => (st, Some(chunk(st.id, st.model, text_delta("content"@, d), None, None))),
            None => (st, None),
        }
    } else if event == "response.reasoning_summary_text.delta"@ {
        match value.get_str("delta"@) {
            Some(d) => (st, Some(chunk(st.id, st.model, text_delta("reasoning_content"@, d), None, None))),
            None => (st, None),
        }
    } else if event == "response.output_item.added"@ {
        let item = or_else(value.get("item"@), value);
        if item.get_str("type"@) == Some("function_call"@) {
            let call_id = item.str_or("call_id"@, "call_"@);
            let (s2, index) = match slot_of(st.slots, call_id) {
                Some(i) => (st, i),
                None => (
                    ResponsesChatState {
                        next_tool_index: st.next_tool_index.wrapping_add(1),
                        slots: st.slots.push((call_id, st.next_tool_index)),
                        ..st
                    },
                    st.next_tool_index,
                ),
            };
            let delta = tool_start_delta(index, call_id, item.str_or("name"@, Seq::empty()));
            (s2, Some(chunk(st.id, st.model, delta, None, None)))
        } else {
            (st, None)
        }
    } else if event == "response.function_call_arguments.delta"@ {
        let index = match max_slot(st.slots) {
            Some(m) => m,
            None => 0,
        };
        let delta = tool_args_delta(index, value.str_or("delta"@, Seq::empty()));
        (st, Some(chunk(st.id, st.model, delta, None, None)))
    } else if event == "response.completed"@ {
        let response = or_else(value.get("response"@), value);
        let usage = or_else(response.get("usage"@), empty_obj());
        let input_tokens = usage.u64_or_zero("input_tokens"@);
        let output_tokens = usage.u64_or_zero("output_tokens"@);
        let total = match usage.get("total_tokens"@) {
            Some(t) => match t.as_u64() {
                Some(u) => u,
                None => input_tokens.wrapping_add(output_tokens),
            },
            None => input_tokens.wrapping_add(output_tokens),
        };
        let finish = match response.get("output"@) {
            Some(JsonV::Array(items)) => if has_function_call(items) {
                "tool_calls"@
            } else {
                "stop"@
            },
            _ => "stop"@,
        };
        (st, Some(chunk(st.id, st.model, empty_obj(), Some(finish), Some(chat_usage(input_tokens, output_tokens, total)))))
    } else {
        (st, None)
    }
}

proof fn lemma_slot_of_push(slots: Seq<(Seq<char>, i64)>, x: (Seq<char>, i64), key: Seq<char>)
    ensures
        slot_of(slots, key) is Some ==> slot_of(slots.push(x), key) == slot_of(slots, key),
        slot_of(slots, key) is None ==> slot_of(slots.push(x), key) == (if x.0 == key {
            Some(x.1)
        } else {
            None
        }),
    decreases slots.len(),
{
    if slots.len() > 0 {
        lemma_slot_of_push(slots.drop_first(), x, key);
        assert(slots.push(x).drop_first() =~= slots.drop_first().push(x));
    } else {
        assert(slots.push(x) =~= seq![x]);
        assert(seq![x].drop_first() =~= Seq::<(Seq<char>, i64)>::empty());
        assert(slot_of(Seq::<(Seq<char>, i64)>::empty(), key) is None);
    }
}

/// The Responses-to-Chat adapter keeps its id, every chunk it sends carries
/// that id, and a function call keeps the tool index it was first given.
pub proof fn law_responses_tool_index_stable(st: ResponsesChatState, event: Seq<char>, value: JsonV, call_id: Seq<char>)
    ensures
        responses_chat_step(st, event, value).0.id == st.id,
        responses_chat_step(st, event, value).1 matches Some(c) ==> c.get("id"@) == Some(jstr(st.id)),
        slot_of(st.slots, call_id) is Some ==> slot_of(responses_chat_step(st, event, value).0.slots, call_id)
            == slot_of(st.slots, call_id),
{
    assert forall|m: Seq<char>, d: JsonV, f: Option<Seq<char>>, u: Option<JsonV>|
        #[trigger] chunk(st.id, m, d, f, u).get("id"@) == Some(jstr(st.id)) by {
        lemma_chunk_id(st.id, m, d, f, u);
    }
    let item = or_else(value.get("item"@), value);
    let cid = item.str_or("call_id"@, "call_"@);
    lemma_slot_of_push(st.slots, (cid, st.next_tool_index), call_id);
}

/// The call ids hold the indices 0, 1, 2, ... in the order in which they
/// came, no id occurs twice, and the next index is the number of ids.
pub open spec fn slots_numbered(st: ResponsesChatState) -> bool {
    &&& st.next_tool_index == st.slots.len()
    &&& forall|k: int| 0 <= k < st.slots.len() ==> (#[trigger] st.slots[k]).1 == k
    &&& forall|j: int, k: int| 0 <= j < k < st.slots.len() ==> st.slots[j].0 != st.slots[k].0
}

proof fn lemma_slot_of_index(slots: Seq<(Seq<char>, i64)>, key: Seq<char>)
    ensures
        slot_of(slots, key) is None <==> forall|k: int| 0 <= k < slots.len() ==> slots[k].0 != key,
        slot_of(slots, key) matches Some(i) ==> exists|k: int| 0 <= k < slots.len() && slots[k] == (key, i),
    decreases slots.len(),
{
    if slots.len() > 0 {
        lemma_slot_of_index(slots.drop_first(), key);
        if slots[0].0 != key {
            assert forall|k: int| 0 <= k < slots.len() && slots[k].0 == key implies slot_of(slots, key) is Some by {
                assert(slots.drop_first()[k - 1] == slots[k]);
            }
            if let Some(i) = slot_of(slots, key) {
                let k = choose|k: int| 0 <= k < slots.drop_first().len() && slots.drop_first()[k] == (key, i);
                assert(slots[k + 1] == (key, i));
            }
        }
    }
}

/// A function call keeps its tool index, and the call ids seen so far are
/// numbered 0, 1, 2, ... without any index given twice.
pub proof fn law_responses_slots_numbered(st: ResponsesChatState, event: Seq<char>, value: JsonV)
    requires
        slots_numbered(st),
        st.slots.len() < i64::MAX,
    ensures
        slots_numbered(responses_chat_step(st, event, value).0),
        responses_chat_step(st, event, value).0.slots.len() <= st.slots.len() + 1,
{
    let item = or_else(value.get("item"@), value);
    let cid = item.str_or("call_id"@, "call_"@);
    lemma_slot_of_index(st.slots, cid);
    let s2 = responses_chat_step(st, event, value).0;
    if s2.slots != st.slots {
        assert(s2.slots == st.slots.push((cid, st.next_tool_index)));
        assert forall|k: int| 0 <= k < s2.slots.len() implies (#[trigger] s2.slots[k]).1 == k by {
            if k < st.slots.len() {
                assert(s2.slots[k] == st.slots[k]);
            }
        }
        assert forall|j: int, k: int| 0 <= j < k < s2.slots.len() implies s2.slots[j].0 != s2.slots[k].0 by {
            assert(s2.slots[j] == st.slots[j]);
            if k < st.slots.len() {
                assert(s2.slots[k] == st.slots[k]);
            }
        }
    }
}

/// Responses text deltas go to the chunk delta `{"content": delta}` and
/// reasoning-summary deltas to `{"reasoning_content": delta}`, never the
/// other way round; neither changes the adapter's state.
pub proof fn law_responses_delta_keys(st: ResponsesChatState, value: JsonV)
    ensures
        value.get_str("delta"@) matches Some(d) ==> {
            &&& responses_chat_step(st, "response.output_text.delta"@, value).1 matches Some(c)
            &&& chunk_delta(c) matches Some(x)
            &&& x.get("content"@) == Some(jstr(d))
            &&& x.get("reasoning_content"@) is None
        },
        value.get_str("delta"@) matches Some(d) ==> {
            &&& responses_chat_step(st, "response.reasoning_summary_text.delta"@, value).1 matches Some(c)
            &&& chunk_delta(c) matches Some(x)
            &&& x.get("reasoning_content"@) == Some(jstr(d))
            &&& x.get("content"@) is None
        },
        value.get_str("delta"@) is None ==> responses_chat_step(st, "response.output_text.delta"@, value).1 is None,
        responses_chat_step(st, "response.output_text.delta"@, value).0 == st,
        responses_chat_step(st, "response.reasoning_summary_text.delta"@, value).0 == st,
{
    reveal_strlit("response.created");
    reveal_strlit("response.output_text.delta");
    reveal_strlit("response.reasoning_summary_text.delta");
    reveal_strlit("content");
    reveal_strlit("reasoning_content");
    assert("response.created"@.len() != "response.output_text.delta"@.len());
    assert("response.created"@.len() != "response.reasoning_summary_text.delta"@.len());
    assert("response.output_text.delta"@.len() != "response.reasoning_summary_text.delta"@.len());
    assert("content"@.len() != "reasoning_content"@.len());
    if let Some(d) = value.get_str("delta"@) {
        lemma_chunk_choice(st.id, st.model, text_delta("content"@, d), None, None);
        lemma_chunk_choice(st.id, st.model, text_delta("reasoning_content"@, d), None, None);
        lemma_single_member("content"@, "reasoning_content"@, jstr(d));
        lemma_single_member("reasoning_content"@, "content"@, jstr(d));
    }
}

/// Some item of `items` has the type `function_call`.
pub open spec fn some_function_call(items: Seq<JsonV>) -> bool {
    exists|k: int| 0 <= k < items.len() && (#[trigger] items[k]).get_str("type"@) == Some("function_call"@)
}

/// Some item of the `output` of a completed response (of the event itself
/// where it has no `response`) is a `function_call`.
pub open spec fn output_calls_function(value: JsonV) -> bool {
    let response = match value.get("response"@) {
        Some(r) => r,
        None => value,
    };
    match response.get("output"@) {
        Some(JsonV::Array(items)) => some_function_call(items),
        _ => false,
    }
}

/// When a Responses stream completes, the final chunk finishes with
/// `tool_calls` exactly when some output item is a `function_call`, and with
/// `stop` otherwise; the adapter's state does not change.
pub proof fn law_responses_finish_reason(st: ResponsesChatState, value: JsonV)
    ensures
        responses_chat_step(st, "response.completed"@, value).1 matches Some(c) && chunk_finish(c) == Some(
            jstr(
                if output_calls_function(value) {
                    "tool_calls"@
                } else {
                    "stop"@
                },
            ),
        ),
        responses_chat_step(st, "response.completed"@, value).0 == st,
{
    reveal_strlit("response.completed");
    reveal_strlit("response.created");
    reveal_strlit("response.output_text.delta");
    reveal_strlit("response.reasoning_summary_text.delta");
    reveal_strlit("response.output_item.added");
    reveal_strlit("response.function_call_arguments.delta");
    assert("response.created"@.len() != "response.completed"@.len());
    assert("response.output_text.delta"@.len() != "response.completed"@.len());
    assert("response.reasoning_summary_text.delta"@.len() != "response.completed"@.len());
    assert("response.output_item.added"@.len() != "response.completed"@.len());
    assert("response.function_call_arguments.delta"@.len() != "response.completed"@.len());
    let response = or_else(value.get("response"@), value);
    let usage = or_else(response.get("usage"@), empty_obj());
    let input_tokens = usage.u64_or_zero("input_tokens"@);
    let output_tokens = usage.u64_or_zero("output_tokens"@);
    let total = match usage.get("total_tokens"@) {
        Some(t) => match t.as_u64() {
            Some(u) => u,
            None => input_tokens.wrapping_add(output_tokens),
        },
        None => input_tokens.wrapping_add(output_tokens),
    };
    let finish = match response.get("output"@) {
        Some(JsonV::Array(items)) => if has_function_call(items) {
            "tool_calls"@
        } else {
            "stop"@
        },
        _ => "stop"@,
    };
    if let Some(JsonV::Array(items)) = response.get("output"@) {
        if has_function_call(items) {
            let k = choose|k: int| 0 <= k < items.len() && #[trigger] items[k].get_str("type"@) == Some("function_call"@);
            assert(items[k].get_str("type"@) == Some("function_call"@));
            assert(some_function_call(items));
            assert(output_calls_function(value));
        } else {
            assert forall|k: int| 0 <= k < items.len() implies (#[trigger] items[k]).get_str("type"@) != Some(
                "function_call"@,
            ) by {
                if items[k].get_str("type"@) == Some("function_call"@) {
                    assert(has_function_call(items));
                }
            }
            assert(!some_function_call(items));
            assert(!output_calls_function(value));
        }
    } else {
        assert(!output_calls_function(value));
    }
    lemma_chunk_choice(st.id, st.model, empty_obj(), Some(finish), Some(chat_usage(input_tokens, output_tokens, total)));
}

/// The index given to `key`.
fn find_slot(slots: &Vec<(String, i64)>, key: &str) -> (r: Option<i64>)
    ensures
        r == slot_of(slots_view(slots@), key@),
{
    let ghost sv = slots_view(slots@);
    let mut i: usize = 0;
    proof {
        assert(sv.subrange(0, sv.len() as int) =~= sv);
    }
    while i < slots.len()
        invariant
            i <= slots@.len(),
            sv == slots_view(slots@),
            sv.len() == slots@.len(),
            slot_of(sv, key@) == slot_of(sv.subrange(i as int, sv.len() as int), key@),
        decreases slots@.len() - i,
    {
        let ghost rest = sv.subrange(i as int, sv.len() as int);
        assert(rest[0] == (slots@[i as int].0@, slots@[i as int].1));
        if str_eq(slots[i].0.as_str(), key) {
            return Some(slots[i].1);
        }
        proof {
            assert(rest.drop_first() =~= sv.subrange(i + 1, sv.len() as int));
        }
        i = i + 1;
    }
    None
}

/// The largest index given out, or 0.
fn slot_max(slots: &Vec<(String, i64)>) -> (r: i64)
    ensures
        r == match max_slot(slots_view(slots@)) {
            Some(m) => m,
            None => 0,
        },
{
    let ghost sv = slots_view(slots@);
    let mut best: Option<i64> = None;
    let mut i: usize = 0;
    while i < slots.len()
        invariant
            i <= slots@.len(),
            sv == slots_view(slots@),
            sv.len() == slots@.len(),
            best == max_slot(sv.take(i as int)),
        decreases slots@.len() - i,
    {
        proof {
            assert(sv.take(i as int + 1).drop_last() =~= sv.take(i as int));
            assert(sv.take(i as int + 1).last() == sv[i as int]);
        }
        let v = slots[i].1;
        best = match best {
            None => Some(v),
            Some(m) => Some(if v > m { v } else { m }),
        };
        i = i + 1;
    }
    proof {
        assert(sv.take(sv.len() as int) =~= sv);
    }
    match best {
        Some(m) => m,
        None => 0,
    }
}

/// Whether some output item is a function call.
fn any_function_call(items: &Vec<Json>) -> (r: bool)
    ensures
        r == has_function_call(items_view(items@)),
{
    let ghost iv = items_view(items@);
    proof {
        lemma_items_view(items@);
    }
    let mut i: usize = 0;
    while i < items.len()
        invariant
            i <= items@.len(),
            iv == items_view(items@),
            iv.len() == items@.len(),
            forall|k: int| 0 <= k < items@.len() ==> #[trigger] iv[k] == items@[k]@,
            forall|k: int| 0 <= k < i ==> #[trigger] iv[k].get_str("type"@) != Some("function_call"@),
        decreases items@.len() - i,
    {
        let is_call = match items[i].get_str("type") {
            Some(t) => str_eq(t, "function_call"),
            None => false,
        };
        if is_call {
            proof {
                assert(iv[i as int].get_str("type"@) == Some("function_call"@));
            }
            return true;
        }
        i = i + 1;
    }
    false
}

impl ResponsesToChat {
    /// An adapter whose chunks carry the id `id`, for a request of `model`.
    pub fn with_id(id: String, request_model: String) -> (r: ResponsesToChat)
        ensures
            r@ == (ResponsesChatState { id: id@, model: request_model@, next_tool_index: 0i64, slots: Seq::empty() }),
    {
        let slots: Vec<(String, i64)> = Vec::new();
        proof {
            assert(slots_view(slots@) =~= Seq::<(Seq<char>, i64)>::empty());
        }
        ResponsesToChat { id, model: request_model, next_tool_index: 0, tool_slots: slots }
    }

    /// An adapter with a fresh `chatcmpl-` id, for a request of `model`.
    pub fn new(request_model: String) -> (r: ResponsesToChat)
        ensures
            is_generated_id(r@.id, "chatcmpl-"@),
            r@.model == request_model@,
            r@.next_tool_index == 0,
            r@.slots == Seq::<(Seq<char>, i64)>::empty(),
    {
        let id = gen_id("chatcmpl-");
        ResponsesToChat::with_id(id, request_model)
    }

    /// Takes one upstream event, by its name and data lines, and returns the
    /// chunk to send for it, if any. Data that is not JSON is passed over.
    pub fn on_event(&mut self, event_name: &str, data_lines: &Vec<String>) -> (r: Option<Json>)
        ensures
            match data_value(texts_view(data_lines@), false) {
                Some(v) => {
                    &&& final(self)@ == responses_chat_step(old(self)@, event_name@, v).0
                    &&& match r {
                        Some(c) => responses_chat_step(old(self)@, event_name@, v).1 == Some(c@),
                        None => responses_chat_step(old(self)@, event_name@, v).1 is None,
                    }
                },
                None => final(self)@ == old(self)@ && r is None,
            },
    {
        match data_lines_value(data_lines, false) {
            Some(v) => self.step(event_name, &v),
            None => None,
        }
    }

    /// Takes one parsed upstream event.
    fn step(&mut self, event: &str, value: &Json) -> (r: Option<Json>)
        ensures
            final(self)@ == responses_chat_step(old(self)@, event@, value@).0,
            match r {
                Some(c) => responses_chat_step(old(self)@, event@, value@).1 == Some(c@),
                None => responses_chat_step(old(self)@, event@, value@).1 is None,
            },
    {
        broadcast use group_json_view;
        proof {
            reveal_strlit("");
            assert(""@ =~= Seq::<char>::empty());
        }
        if str_eq(event, "response.created") {
            let m = match value.get("model") {
                Some(v) => v.as_str(),
                None => value.get2_str("response", "model"),
            };
            match m {
                Some(x) => {
                    self.model = x.to_owned();
                },
                None => {},
            }
            return Some(chat_chunk(self.id.as_str(), self.model.as_str(), make_role_delta(), None, None));
        }
        if str_eq(event, "response.output_text.delta") {
            return match value.get_str("delta") {
                Some(d) => Some(chat_chunk(self.id.as_str(), self.model.as_str(), make_text_delta("content", d), None, None)),
                None => None,
            };
        }
        if str_eq(event, "response.reasoning_summary_text.delta") {
            return match value.get_str("delta") {
                Some(d) => Some(
                    chat_chunk(self.id.as_str(), self.model.as_str(), make_text_delta("reasoning_content", d), None, None),
                ),
                None => None,
            };
        }
        if str_eq(event, "response.output_item.added") {
            let item = match value.get("item") {
                Some(i) => i,
                None => value,
            };
            let is_call = match item.get_str("type") {
                Some(t) => str_eq(t, "function_call"),
                None => false,
            };
            if !is_call {
                return None;
            }
            let call_id = item.str_or("call_id", "call_");
            let index = match find_slot(&self.tool_slots, call_id) {
                Some(i) => i,
                None => {
                    let i = self.next_tool_index;
                    let ghost before = self.tool_slots@;
                    self.tool_slots.push((call_id.to_owned(), i));
                    self.next_tool_index = self.next_tool_index.wrapping_add(1);
                    proof {
                        assert(slots_view(self.tool_slots@) =~= slots_view(before).push((call_id@, i)));
                    }
                    i
                },
            };
            let delta = make_tool_start_delta(index, call_id, item.str_or("name", ""));
            return Some(chat_chunk(self.id.as_str(), self.model.as_str(), delta, None, None));
        }
        if str_eq(event, "response.function_call_arguments.delta") {
            let index = slot_max(&self.tool_slots);
            let delta = make_tool_args_delta(index, value.str_or("delta", ""));
            return Some(chat_chunk(self.id.as_str(), self.model.as_str(), delta, None, None));
        }
        if str_eq(event, "response.completed") {
            let response = match value.get("response") {
                Some(r) => r,
                None => value,
            };
            let input_tokens = match response.get("usage") {
                Some(u) => u.u64_or_zero("input_tokens"),
                None => 0,
            };
            let output_tokens = match response.get("usage") {
                Some(u) => u.u64_or_zero("output_tokens"),
                None => 0,
            };
            let total = match response.get("usage") {
                Some(u) => match u.get("total_tokens") {
                    Some(t) => match t.as_u64() {
                        Some(x) => x,
                        None => input_tokens.wrapping_add(output_tokens),
                    },
                    None => input_tokens.wrapping_add(output_tokens),
                },
                None => input_tokens.wrapping_add(output_tokens),
            };
            let finish = match response.get("output") {
                Some(Json::Array(items)) => if any_function_call(items) {
                    "tool_calls"
                } else {
                    "stop"
                },
                _ => "stop",
            };
            let usage = make_chat_usage(input_tokens, output_tokens, total);
            return Some(chat_chunk(self.id.as_str(), self.model.as_str(), Json::object(), Some(finish), Some(usage)));
        }
        None
    }
}


// ---------------------------------------------------------------------------
// Chat Completions stream -> Responses stream
// ---------------------------------------------------------------------------
/// What the Chat-to-Responses adapter remembers between chunks.
pub struct ChatResponsesState {
    pub response_id: Seq<char>,
    pub message_id: Seq<char>,
    pub model: Seq<char>,
    pub text_started: bool,
    pub text: Seq<char>,
    pub completed: bool,
}

/// The Chat-to-Responses stream adapter.
pub struct ChatToResponses {
    response_id: String,
    message_id: String,
    model: String,
    text_started: bool,
    text_buf: Vec<char>,
    completed: bool,
}

impl View for ChatToResponses {
    type V = ChatResponsesState;

    closed spec fn view(&self) -> ChatResponsesState {
        ChatResponsesState {
            response_id: self.response_id@,
            message_id: self.message_id@,
            model: self.model@,
            text_started: self.text_started,
            text: self.text_buf@,
            completed: self.completed,
        }
    }
}

/// The views of a list of named events.
pub open spec fn events_view(v: Seq<(String, Json)>) -> Seq<(Seq<char>, JsonV)> {
    v.map_values(|p: (String, Json)| (p.0@, p.1@))
}

/// The `response.created` event that opens the stream.
pub open spec fn created_event(st: ChatResponsesState) -> (Seq<char>, JsonV) {
    (
        "response.created"@,
        empty_obj().set("id"@, jstr(st.response_id)).set("object"@, jstr("response"@)).set(
            "status"@,
            jstr("in_progress"@),
        ).set("model"@, jstr(st.model)).set("output"@, JsonV::Array(Seq::empty())),
    )
}

/// An `output_text` payload with the member `key` holding `t`.
pub open spec fn output_text(key: Seq<char>, t: Seq<char>) -> JsonV {
    empty_obj().set("type"@, jstr("output_text"@)).set(key, jstr(t))
}

/// The message item announced when text starts.
pub open spec fn message_in_progress(id: Seq<char>) -> JsonV {
    empty_obj().set("type"@, jstr("message"@)).set("id"@, jstr(id)).set("status"@, jstr("in_progress"@)).set(
        "role"@,
        jstr("assistant"@),
    ).set("content"@, JsonV::Array(Seq::empty()))
}

/// The state after a chat chunk and the Responses events it produces.
pub open spec fn chat_responses_step(st: ChatResponsesState, value: JsonV) -> (ChatResponsesState, Seq<(Seq<char>, JsonV)>) {
    let model = match value.get_str("model"@) {
        Some(m) => m,
        None => st.model,
    };
    let choice = first_choice(value);
    let (s1, ev1) = match choice.get2_str("delta"@, "content"@) {
        Some(t) => {
            let opening = if !st.text_started {
                seq![
                    ("response.output_item.added"@, message_in_progress(st.message_id)),
                    ("response.content_part.added"@, output_text("text"@, Seq::empty())),
                ]
            } else {
                Seq::empty()
            };
            (
                ChatResponsesState { model, text_started: true, text: st.text + t, ..st },
                opening.push(("response.output_text.delta"@, output_text("delta"@, t))),
            )
        },
        None => (ChatResponsesState { model, ..st }, Seq::empty()),
    };
    if choice.get_str("finish_reason"@) is Some && !s1.completed {
        let done = if s1.text_started {
            seq![
                ("response.output_text.done"@, output_text("text"@, s1.text)),
                ("response.output_item.done"@, message_item(s1.message_id, s1.text)),
            ]
        } else {
            Seq::empty()
        };
        let usage = or_else(value.get("usage"@), empty_obj());
        let input_tokens = usage.u64_or_zero("prompt_tokens"@);
        let output_tokens = usage.u64_or_zero("completion_tokens"@);
        let total = match usage.get("total_tokens"@) {
            Some(t) => match t.as_u64() {
                Some(u) => u,
                None => input_tokens.wrapping_add(output_tokens),
            },
            None => input_tokens.wrapping_add(output_tokens),
        };
        let output = if s1.text_started {
            seq![message_item(s1.message_id, s1.text)]
        } else {
            Seq::empty()
        };
        let completed = empty_obj().set("id"@, jstr(s1.response_id)).set("object"@, jstr("response"@)).set(
            "status"@,
            jstr("completed"@),
        ).set("model"@, jstr(s1.model)).set("output"@, JsonV::Array(output)).set(
            "usage"@,
            empty_obj().set("input_tokens"@, jnum(input_tokens)).set("output_tokens"@, jnum(output_tokens)).set(
                "total_tokens"@,
                jnum(total),
            ),
        );
        (ChatResponsesState { completed: true, ..s1 }, ev1 + done + seq![("response.completed"@, completed)])
    } else {
        (s1, ev1)
    }
}

/// The number of `response.completed` events among `events`.
pub open spec fn completion_count(events: Seq<(Seq<char>, JsonV)>) -> nat
    decreases events.len(),
{
    if events.len() == 0 {
        0
    } else {
        completion_count(events.drop_last()) + if events.last().0 == "response.completed"@ {
            1nat
        } else {
            0nat
        }
    }
}

/// The state after a run of chat chunks, and all the events they produce.
pub open spec fn chat_responses_run(st: ChatResponsesState, values: Seq<JsonV>) -> (ChatResponsesState, Seq<(Seq<char>, JsonV)>)
    decreases values.len(),
{
    if values.len() == 0 {
        (st, Seq::empty())
    } else {
        let (s1, e1) = chat_responses_run(st, values.drop_last());
        let (s2, e2) = chat_responses_step(s1, values.last());
        (s2, e1 + e2)
    }
}

/// The content text that a chat chunk adds, empty where it adds none.
pub open spec fn chunk_text(value: JsonV) -> Seq<char> {
    match first_choice(value).get2_str("delta"@, "content"@) {
        Some(t) => t,
        None => Seq::empty(),
    }
}

/// The content texts of a run of chunks, in order.
pub open spec fn run_text(values: Seq<JsonV>) -> Seq<char>
    decreases values.len(),
{
    if values.len() == 0 {
        Seq::empty()
    } else {
        run_text(values.drop_last()) + chunk_text(values.last())
    }
}

proof fn lemma_count_concat(a: Seq<(Seq<char>, JsonV)>, b: Seq<(Seq<char>, JsonV)>)
    ensures
        completion_count(a + b) == completion_count(a) + completion_count(b),
    decreases b.len(),
{
    if b.len() > 0 {
        lemma_count_concat(a, b.drop_last());
        assert((a + b).drop_last() =~= a + b.drop_last());
    } else {
        assert(a + b =~= a);
    }
}

proof fn lemma_step_count(st: ChatResponsesState, value: JsonV)
    ensures
        completion_count(chat_responses_step(st, value).1) == if chat_responses_step(st, value).0.completed
            && !st.completed {
            1nat
        } else {
            0nat
        },
        st.completed ==> chat_responses_step(st, value).0.completed,
        chat_responses_step(st, value).0.text == st.text + chunk_text(value),
        chat_responses_step(st, value).0.response_id == st.response_id,
        chat_responses_step(st, value).0.message_id == st.message_id,
{
    reveal_strlit("response.completed");
    reveal_strlit("response.output_item.added");
    reveal_strlit("response.content_part.added");
    reveal_strlit("response.output_text.delta");
    reveal_strlit("response.output_text.done");
    reveal_strlit("response.output_item.done");
    assert("response.output_item.added"@.len() != "response.completed"@.len());
    assert("response.content_part.added"@.len() != "response.completed"@.len());
    assert("response.output_text.delta"@.len() != "response.completed"@.len());
    assert("response.output_text.done"@.len() != "response.completed"@.len());
    assert("response.output_item.done"@.len() != "response.completed"@.len());
    let choice = first_choice(value);
    let none: Seq<(Seq<char>, JsonV)> = Seq::empty();
    let opening: Seq<(Seq<char>, JsonV)> = seq![
        ("response.output_item.added"@, message_in_progress(st.message_id)),
        ("response.content_part.added"@, output_text("text"@, Seq::empty())),
    ];
    assert(completion_count(none) == 0);
    assert(opening.drop_last().drop_last() =~= none);
    assert(completion_count(opening) == 0) by {
        assert(opening.last().0 != "response.completed"@);
        assert(opening.drop_last().last().0 != "response.completed"@);
        assert(completion_count(opening.drop_last().drop_last()) == 0);
        assert(completion_count(opening.drop_last()) == 0);
    }
    match choice.get2_str("delta"@, "content"@) {
        Some(t) => {
            let ev = ("response.output_text.delta"@, output_text("delta"@, t));
            assert(opening.push(ev).drop_last() =~= opening);
            assert(none.push(ev).drop_last() =~= none);
            assert(st.text + t == st.text + chunk_text(value));
        },
        None => {
            assert(st.text =~= st.text + chunk_text(value));
        },
    }
    let (s1, ev1) = match choice.get2_str("delta"@, "content"@) {
        Some(t) => {
            let op = if !st.text_started {
                opening
            } else {
                Seq::empty()
            };
            (
                ChatResponsesState { model: st.model, text_started: true, text: st.text + t, ..st },
                op.push(("response.output_text.delta"@, output_text("delta"@, t))),
            )
        },
        None => (st, Seq::empty()),
    };
    assert(completion_count(ev1) == 0);
    if choice.get_str("finish_reason"@) is Some && !st.completed {
        let done: Seq<(Seq<char>, JsonV)> = if s1.text_started {
            seq![
                ("response.output_text.done"@, output_text("text"@, s1.text)),
                ("response.output_item.done"@, message_item(s1.message_id, s1.text)),
            ]
        } else {
            Seq::empty()
        };
        assert(completion_count(done) == 0) by {
            if s1.text_started {
                assert(done.drop_last().drop_last() =~= none);
                assert(completion_count(done.drop_last().drop_last()) == 0);
                assert(done.drop_last().last().0 != "response.completed"@);
                assert(completion_count(done.drop_last()) == 0);
                assert(done.last().0 != "response.completed"@);
            } else {
                assert(done =~= none);
            }
        }
        let step_events = chat_responses_step(st, value).1;
        let tail = step_events.last();
        assert(tail.0 == "response.completed"@);
        assert(step_events.drop_last() =~= ev1 + done);
        lemma_count_concat(ev1, done);
    }
}

/// Over any run of chat chunks the adapter sends `response.completed` once
/// at most: exactly once where the run completes the response, never where
/// it does not, and never again once it has. The text it keeps is the
/// concatenation of the content deltas, and its ids do not change.
pub proof fn law_single_completion(st: ChatResponsesState, values: Seq<JsonV>)
    ensures
        completion_count(chat_responses_run(st, values).1) == if chat_responses_run(st, values).0.completed
            && !st.completed {
            1nat
        } else {
            0nat
        },
        st.completed ==> chat_responses_run(st, values).0.completed,
        chat_responses_run(st, values).0.text == st.text + run_text(values),
        chat_responses_run(st, values).0.response_id == st.response_id,
        chat_responses_run(st, values).0.message_id == st.message_id,
    decreases values.len(),
{
    if values.len() == 0 {
        assert(st.text + run_text(values) =~= st.text);
    } else {
        law_single_completion(st, values.drop_last());
        let (s1, e1) = chat_responses_run(st, values.drop_last());
        lemma_step_count(s1, values.last());
        lemma_count_concat(e1, chat_responses_step(s1, values.last()).1);
        assert(st.text + run_text(values.drop_last()) + chunk_text(values.last()) =~= st.text + run_text(values));
    }
}

/// The payload of one `data:` line: its JSON value, none for the `[DONE]`
/// marker or for text that is not JSON.
pub open spec fn data_line_value(data: Seq<char>) -> Option<JsonV> {
    if trim(data) == "[DONE]"@ {
        None
    } else {
        json_parse(data)
    }
}

fn make_output_text(key: &str, t: &str) -> (r: Json)
    ensures
        r@ == output_text(key@, t@),
{
    Json::object().set("type", Json::from_str("output_text")).set(key, Json::from_str(t))
}

fn make_message_item(id: &str, t: &str) -> (r: Json)
    ensures
        r@ == message_item(id@, t@),
{
    let part = make_output_text("text", t);
    Json::object().set("type", Json::from_str("message")).set("id", Json::from_str(id)).set(
        "status",
        Json::from_str("completed"),
    ).set("role", Json::from_str("assistant")).set("content", single(part))
}

fn push_event(events: &mut Vec<(String, Json)>, name: &str, payload: Json)
    ensures
        events_view(final(events)@) == events_view(old(events)@).push((name@, payload@)),
{
    let ghost before = events@;
    events.push((name.to_owned(), payload));
    proof {
        assert(events_view(events@) =~= events_view(before).push((name@, payload@)));
    }
}

impl ChatToResponses {
    /// An adapter with the given response and message ids, for a request of `model`.
    pub fn with_ids(response_id: String, message_id: String, request_model: String) -> (r: ChatToResponses)
        ensures
            r@ == (ChatResponsesState {
                response_id: response_id@,
                message_id: message_id@,
                model: request_model@,
                text_started: false,
                text: Seq::empty(),
                completed: false,
            }),
    {
        let buf: Vec<char> = Vec::new();
        proof {
            assert(buf@ =~= Seq::<char>::empty());
        }
        ChatToResponses { response_id, message_id, model: request_model, text_started: false, text_buf: buf, completed: false }
    }

    /// An adapter with fresh `resp_` and `msg_` ids, for a request of `model`.
    pub fn new(request_model: String) -> (r: ChatToResponses)
        ensures
            is_generated_id(r@.response_id, "resp_"@),
            is_generated_id(r@.message_id, "msg_"@),
            r@.model == request_model@,
            !r@.text_started,
            r@.text == Seq::<char>::empty(),
            !r@.completed,
    {
        let response_id = gen_id("resp_");
        let message_id = gen_id("msg_");
        ChatToResponses::with_ids(response_id, message_id, request_model)
    }

    /// The `response.created` event that opens the stream.
    pub fn start(&self) -> (r: (String, Json))
        ensures
            (r.0@, r.1@) == created_event(self@),
    {
        let payload = Json::object().set("id", Json::from_str(self.response_id.as_str())).set(
            "object",
            Json::from_str("response"),
        ).set("status", Json::from_str("in_progress")).set("model", Json::from_str(self.model.as_str())).set(
            "output",
            empty_array(),
        );
        ("response.created".to_owned(), payload)
    }

    /// Takes the text of one upstream `data:` line and returns the events to
    /// send for it, in order.
    pub fn on_data(&mut self, data: &str) -> (r: Vec<(String, Json)>)
        ensures
            match data_line_value(data@) {
                Some(v) => {
                    &&& final(self)@ == chat_responses_step(old(self)@, v).0
                    &&& events_view(r@) == chat_responses_step(old(self)@, v).1
                },
                None => final(self)@ == old(self)@ && r@.len() == 0,
            },
    {
        let t = crate::text::trim_str(data);
        if str_eq(t.as_str(), "[DONE]") {
            return Vec::new();
        }
        match parse_json_text(data) {
            Some(v) => self.step(&v),
            None => Vec::new(),
        }
    }

    /// Takes one parsed chat chunk.
    fn step(&mut self, value: &Json) -> (r: Vec<(String, Json)>)
        ensures
            final(self)@ == chat_responses_step(old(self)@, value@).0,
            events_view(r@) == chat_responses_step(old(self)@, value@).1,
    {
        broadcast use group_json_view;
        proof {
            reveal_strlit("");
            assert(""@ =~= Seq::<char>::empty());
        }
        let mut events: Vec<(String, Json)> = Vec::new();
        proof {
            assert(events_view(events@) =~= Seq::<(Seq<char>, JsonV)>::empty());
        }
        match value.get_str("model") {
            Some(m) => {
                self.model = m.to_owned();
            },
            None => {},
        }
        let choice = first_choice_of(value);
        match choice.get2_str("delta", "content") {
            Some(text) => {
                if !self.text_started {
                    self.text_started = true;
                    let opening = Json::object().set("type", Json::from_str("message")).set(
                        "id",
                        Json::from_str(self.message_id.as_str()),
                    ).set("status", Json::from_str("in_progress")).set("role", Json::from_str("assistant")).set(
                        "content",
                        empty_array(),
                    );
                    push_event(&mut events, "response.output_item.added", opening);
                    push_event(&mut events, "response.content_part.added", make_output_text("text", ""));
                    proof {
                        assert(events_view(events@) =~= seq![
                            ("response.output_item.added"@, message_in_progress(old(self)@.message_id)),
                            ("response.content_part.added"@, output_text("text"@, Seq::empty())),
                        ]);
                    }
                }
                let tc = chars_of(text);
                push_chars(&mut self.text_buf, tc.as_slice());
                push_event(&mut events, "response.output_text.delta", make_output_text("delta", text));
            },
            None => {},
        }
        let finished = choice.get_str("finish_reason").is_some();
        if finished && !self.completed {
            self.completed = true;
            let text = string_from_chars(self.text_buf.as_slice());
            if self.text_started {
                push_event(&mut events, "response.output_text.done", make_output_text("text", text.as_str()));
                push_event(
                    &mut events,
                    "response.output_item.done",
                    make_message_item(self.message_id.as_str(), text.as_str()),
                );
            }
            let input_tokens = match value.get("usage") {
                Some(u) => u.u64_or_zero("prompt_tokens"),
                None => 0,
            };
            let output_tokens = match value.get("usage") {
                Some(u) => u.u64_or_zero("completion_tokens"),
                None => 0,
            };
            let total = match value.get("usage") {
                Some(u) => match u.get("total_tokens") {
                    Some(t) => match t.as_u64() {
                        Some(x) => x,
                        None => input_tokens.wrapping_add(output_tokens),
                    },
                    None => input_tokens.wrapping_add(output_tokens),
                },
                None => input_tokens.wrapping_add(output_tokens),
            };
            let output = if self.text_started {
                single(make_message_item(self.message_id.as_str(), text.as_str()))
            } else {
                empty_array()
            };
            let usage = Json::object().set("input_tokens", Json::from_u64(input_tokens)).set(
                "output_tokens",
                Json::from_u64(output_tokens),
            ).set("total_tokens", Json::from_u64(total));
            let completed = Json::object().set("id", Json::from_str(self.response_id.as_str())).set(
                "object",
                Json::from_str("response"),
            ).set("status", Json::from_str("completed")).set("model", Json::from_str(self.model.as_str())).set(
                "output",
                output,
            ).set("usage", usage);
            push_event(&mut events, "response.completed", completed);
        }
        events
    }
}

} // verus!
