use cc_switch::cursor::{
    anthropic_stop_to_chat, anthropic_to_chat_response, anthropic_to_chat_response_with_id,
    anthropic_to_responses_response, append_chat_message_as_anthropic, chat_to_anthropic_request,
    chat_to_responses_response, chat_to_responses_response_with_ids, content_to_anthropic_blocks,
    convert_tools_to_anthropic, gen_id, parse_tool_arguments, response_input_to_chat_messages,
    responses_to_anthropic_request, value_to_text,
};
use cc_switch::sse::{chat_sse_data, data_lines_value};
use cc_switch::json::Json;

fn json(text: &str) -> Json {
    data_lines_value(&vec![text.to_string()], false).expect("test JSON")
}

fn to_json_text(v: &Json) -> String {
    let framed = chat_sse_data(v);
    framed["data: ".len()..framed.len() - 2].to_string()
}

fn text(v: &Json) -> String {
    to_json_text(v)
}

fn same(a: &Json, b: &str) {
    assert_eq!(text(a), text(&json(b)));
}

#[test]
fn generates_prefixed_hex_ids() {
    let id = gen_id("chatcmpl-");
    assert!(id.starts_with("chatcmpl-"));
    assert_eq!(id.len(), "chatcmpl-".len() + 32);
    assert!(id["chatcmpl-".len()..].chars().all(|c| c.is_ascii_digit() || ('a'..='f').contains(&c)));
    assert_ne!(gen_id("x"), gen_id("x"));
}

#[test]
fn renders_values_as_text() {
    assert_eq!(value_to_text(&Json::Null), "");
    assert_eq!(value_to_text(&json(r#""hi""#)), "hi");
    assert_eq!(value_to_text(&json(r#"["a", {"type": "text", "text": "b"}, {"type": "image"}, 3]"#)), "a\nb");
    assert_eq!(value_to_text(&json("42")), "42");
    assert_eq!(value_to_text(&json("true")), "true");
}

#[test]
fn converts_content_to_blocks() {
    assert!(content_to_anthropic_blocks(None).is_empty());
    assert!(content_to_anthropic_blocks(Some(&json(r#""""#))).is_empty());
    let blocks = content_to_anthropic_blocks(Some(&json(r#""hello""#)));
    assert_eq!(blocks.len(), 1);
    same(&blocks[0], r#"{"type": "text", "text": "hello"}"#);
    let parts = json(
        r#"["plain", {"type": "text"}, {"type": "image_url", "image_url": {"url": "data:image/jpeg;base64,QUJD"}},
            {"type": "image_url", "image_url": "https://x/img.png"}, {"type": "tool_result", "tool_use_id": "t"},
            {"type": "audio"}]"#,
    );
    let blocks = content_to_anthropic_blocks(Some(&parts));
    assert_eq!(blocks.len(), 5);
    same(&blocks[0], r#"{"type": "text", "text": "plain"}"#);
    same(&blocks[1], r#"{"type": "text", "text": ""}"#);
    same(&blocks[2], r#"{"type": "image", "source": {"type": "base64", "media_type": "image/jpeg", "data": "QUJD"}}"#);
    same(&blocks[3], r#"{"type": "image", "source": {"type": "url", "url": "https://x/img.png"}}"#);
    same(&blocks[4], r#"{"type": "tool_result", "tool_use_id": "t"}"#);
    let odd = content_to_anthropic_blocks(Some(&json(r#"[{"type": "image_url", "image_url": {"url": "data:nobase64"}}]"#)));
    same(&odd[0], r#"{"type": "image", "source": {"type": "base64", "media_type": "image/png", "data": ""}}"#);
    let number = content_to_anthropic_blocks(Some(&json("7")));
    same(&number[0], r#"{"type": "text", "text": "7"}"#);
}

#[test]
fn parses_tool_arguments() {
    same(&parse_tool_arguments(Some(&json(r#""{\"a\": 1}""#))), r#"{"a": 1}"#);
    same(&parse_tool_arguments(Some(&json(r#""not json""#))), "{}");
    same(&parse_tool_arguments(Some(&json("[1, 2]"))), "[1, 2]");
    same(&parse_tool_arguments(Some(&json("5"))), "{}");
    same(&parse_tool_arguments(None), "{}");
}

#[test]
fn converts_tools() {
    let tools = json(
        r#"[{"type": "function", "function": {"name": "f", "description": "d", "parameters": {"type": "object"}}},
            {"type": "function"},
            {"name": "g", "input_schema": {"type": "object"}},
            {"name": "h"}]"#,
    );
    let out = convert_tools_to_anthropic(Some(&tools));
    assert_eq!(out.len(), 2);
    same(&out[0], r#"{"name": "f", "description": "d", "input_schema": {"type": "object"}}"#);
    same(&out[1], r#"{"name": "g", "description": "", "input_schema": {"type": "object"}}"#);
    let out = convert_tools_to_anthropic(Some(&json(r#"[{"type": "function", "function": {}}]"#)));
    same(&out[0], r#"{"name": "", "description": "", "input_schema": {"type": "object", "properties": {}}}"#);
    assert!(convert_tools_to_anthropic(None).is_empty());
}

#[test]
fn appends_chat_messages() {
    let mut system = Vec::new();
    let mut out = Vec::new();
    append_chat_message_as_anthropic(&json(r#"{"role": "system", "content": "be brief"}"#), &mut system, &mut out);
    append_chat_message_as_anthropic(&json(r#"{"role": "system", "content": ""}"#), &mut system, &mut out);
    append_chat_message_as_anthropic(&json(r#"{"role": "tool", "tool_call_id": "c1", "content": "42"}"#), &mut system, &mut out);
    append_chat_message_as_anthropic(
        &json(
            r#"{"role": "assistant", "content": "ok", "reasoning_content": "think",
                "tool_calls": [{"id": "c2", "function": {"name": "f", "arguments": "{\"x\":1}"}}]}"#,
        ),
        &mut system,
        &mut out,
    );
    append_chat_message_as_anthropic(&json(r#"{"role": "user", "content": []}"#), &mut system, &mut out);
    assert_eq!(system, vec!["be brief".to_string()]);
    assert_eq!(out.len(), 2);
    same(&out[0], r#"{"role": "user", "content": [{"type": "tool_result", "tool_use_id": "c1", "content": "42"}]}"#);
    same(
        &out[1],
        r#"{"role": "assistant", "content": [{"type": "thinking", "thinking": "think"}, {"type": "text", "text": "ok"},
            {"type": "tool_use", "id": "c2", "name": "f", "input": {"x": 1}}]}"#,
    );
}

#[test]
fn converts_chat_requests_to_anthropic() {
    let payload = json(
        r#"{"model": "gpt-x", "stream": true, "temperature": 0.5, "max_tokens": 100,
            "messages": [{"role": "system", "content": "A"}, {"role": "system", "content": "B"},
                         {"role": "user", "content": "hi"}, {"content": "again"},
                         {"role": "assistant", "content": "yo"}],
            "tools": [{"type": "function", "function": {"name": "f"}}]}"#,
    );
    let r = chat_to_anthropic_request(payload, "sonnet-4-5");
    same(
        &r,
        r#"{"model": "gpt-x", "max_tokens": 100, "stream": true, "temperature": 0.5, "system": "A\n\nB",
            "messages": [{"role": "user", "content": [{"type": "text", "text": "hi"}, {"type": "text", "text": "again"}]},
                         {"role": "assistant", "content": [{"type": "text", "text": "yo"}]}],
            "tools": [{"name": "f", "description": "", "input_schema": {"type": "object", "properties": {}}}]}"#,
    );
    let r = chat_to_anthropic_request(json("{}"), "sonnet-4-5");
    same(&r, r#"{"model": "sonnet-4-5", "messages": [], "max_tokens": 8192}"#);
}

#[test]
fn converts_responses_input_to_chat_messages() {
    let msgs = response_input_to_chat_messages(&json(r#""hello""#));
    assert_eq!(msgs.len(), 1);
    same(&msgs[0], r#"{"role": "user", "content": "hello"}"#);
    let input = json(
        r#"["plain",
            {"type": "message", "role": "assistant", "content": [{"type": "text", "text": "a"}]},
            {"type": "function_call", "call_id": "c1", "name": "f", "arguments": "{}"},
            {"type": "function_call_output", "call_id": "c1", "output": "done"},
            {"role": "user", "content": "x"},
            {"type": "unknown"}]"#,
    );
    let msgs = response_input_to_chat_messages(&input);
    assert_eq!(msgs.len(), 5);
    same(&msgs[1], r#"{"role": "assistant", "content": "a"}"#);
    same(
        &msgs[2],
        r#"{"role": "assistant", "content": null, "tool_calls": [{"id": "c1", "type": "function",
            "function": {"name": "f", "arguments": "{}"}}]}"#,
    );
    same(&msgs[3], r#"{"role": "tool", "tool_call_id": "c1", "content": "\"done\""}"#);
    same(&msgs[4], r#"{"role": "user", "content": "x"}"#);
    assert!(response_input_to_chat_messages(&json("5")).is_empty());
}

#[test]
fn converts_responses_requests_to_anthropic() {
    let payload = json(
        r#"{"model": "m", "instructions": "sys", "input": "hi", "max_output_tokens": 50, "top_p": 0.9}"#,
    );
    let r = responses_to_anthropic_request(payload);
    same(
        &r,
        r#"{"model": "m", "system": "sys", "max_tokens": 50, "stream": false, "top_p": 0.9,
            "messages": [{"role": "user", "content": [{"type": "text", "text": "hi"}]}]}"#,
    );
}

#[test]
fn maps_stop_reasons() {
    assert_eq!(anthropic_stop_to_chat(Some("max_tokens")), "length");
    assert_eq!(anthropic_stop_to_chat(Some("tool_use")), "tool_calls");
    assert_eq!(anthropic_stop_to_chat(Some("end_turn")), "stop");
    assert_eq!(anthropic_stop_to_chat(Some("stop_sequence")), "stop");
    assert_eq!(anthropic_stop_to_chat(Some("other")), "stop");
    assert_eq!(anthropic_stop_to_chat(None), "stop");
}

#[test]
fn converts_anthropic_responses_to_chat() {
    let data = json(
        r#"{"model": "sonnet", "stop_reason": "tool_use",
            "content": [{"type": "thinking", "thinking": "hm"}, {"type": "text", "text": "a"}, {"type": "text", "text": "b"},
                        {"type": "tool_use", "id": "t1", "name": "f", "input": {"k": 1}}],
            "usage": {"input_tokens": 3, "output_tokens": 4}}"#,
    );
    let r = anthropic_to_chat_response_with_id(&data, "chatcmpl-1");
    same(
        &r,
        r#"{"id": "chatcmpl-1", "object": "chat.completion", "model": "sonnet",
            "choices": [{"index": 0, "finish_reason": "tool_calls",
                "message": {"role": "assistant", "content": "ab", "reasoning_content": "hm",
                    "tool_calls": [{"index": 0, "id": "t1", "type": "function", "function": {"name": "f", "arguments": "{\"k\":1}"}}]}}],
            "usage": {"prompt_tokens": 3, "completion_tokens": 4, "total_tokens": 7}}"#,
    );
    let r = anthropic_to_chat_response(json(r#"{"content": []}"#), Some("given".to_string()));
    same(
        &r,
        r#"{"id": "given", "object": "chat.completion", "model": "",
            "choices": [{"index": 0, "finish_reason": "stop", "message": {"role": "assistant", "content": null}}],
            "usage": {"prompt_tokens": 0, "completion_tokens": 0, "total_tokens": 0}}"#,
    );
    let r = anthropic_to_chat_response(json("{}"), None);
    assert!(r.get_str("id").unwrap().starts_with("chatcmpl-"));
}

#[test]
fn converts_chat_responses_to_responses() {
    let chat = json(
        r#"{"id": "chat-1", "model": "gpt", "choices": [{"finish_reason": "length",
            "message": {"content": "hi", "reasoning_content": "why",
                        "tool_calls": [{"id": "call_9", "function": {"name": "f", "arguments": "{}"}}]}}],
            "usage": {"prompt_tokens": 2, "completion_tokens": 5}}"#,
    );
    let ids = vec!["fc_1".to_string()];
    let r = chat_to_responses_response_with_ids(&chat, "", "resp_x", "rs_1", "msg_1", &ids);
    same(
        &r,
        r#"{"id": "chat-1", "object": "response", "status": "incomplete", "model": "gpt",
            "output": [
              {"type": "reasoning", "id": "rs_1", "summary": [{"type": "summary_text", "text": "why"}]},
              {"type": "message", "id": "msg_1", "status": "completed", "role": "assistant",
               "content": [{"type": "output_text", "text": "hi"}]},
              {"type": "function_call", "id": "fc_1", "status": "completed", "call_id": "call_9", "name": "f", "arguments": "{}"}],
            "usage": {"input_tokens": 2, "output_tokens": 5, "total_tokens": 7}}"#,
    );
    let r = chat_to_responses_response(json(r#"{"choices": []}"#), "m");
    assert!(r.get_str("id").unwrap().starts_with("resp_"));
    assert_eq!(r.get_str("status"), Some("completed"));
    assert_eq!(r.get_str("model"), Some("m"));
    let r = anthropic_to_responses_response(json(r#"{"content": [{"type": "text", "text": "x"}]}"#), "m2");
    assert!(r.get_str("id").unwrap().starts_with("chatcmpl-"));
    assert_eq!(r.get_str("model"), Some("m2"));
}
