use cc_switch::json::Json;
use cc_switch::sse::{chat_chunk, chat_sse_data, data_lines_value, sse_json, AnthropicToChat, ChatToResponses, ResponsesToChat};

fn json(text: &str) -> Json {
    data_lines_value(&vec![text.to_string()], false).expect("test JSON")
}

fn to_json_text(v: &Json) -> String {
    let framed = chat_sse_data(v);
    framed["data: ".len()..framed.len() - 2].to_string()
}

fn same(a: &Json, b: &str) {
    assert_eq!(to_json_text(a), to_json_text(&json(b)));
}

fn lines(data: &str) -> Vec<String> {
    vec![data.to_string()]
}

#[test]
fn frames_events() {
    assert_eq!(sse_json("ping", &json(r#"{"a": 1}"#)), "event: ping\ndata: {\"a\":1}\n\n");
    assert_eq!(chat_sse_data(&json("[]")), "data: []\n\n");
}

#[test]
fn reads_data_lines() {
    let v = data_lines_value(&vec!["{\"a\":".to_string(), "1}".to_string()], true).expect("json");
    same(&v, r#"{"a": 1}"#);
    assert!(data_lines_value(&vec![" [DONE] ".to_string()], true).is_none());
    assert!(data_lines_value(&Vec::new(), true).is_none());
    assert!(data_lines_value(&vec!["not json".to_string()], false).is_none());
}

#[test]
fn builds_chat_chunks() {
    let c = chat_chunk("id1", "m", json(r#"{"content": "x"}"#), Some("stop"), Some(json(r#"{"total_tokens": 1}"#)));
    same(
        &c,
        r#"{"id": "id1", "object": "chat.completion.chunk", "model": "m",
            "choices": [{"index": 0, "delta": {"content": "x"}, "finish_reason": "stop"}], "usage": {"total_tokens": 1}}"#,
    );
}

#[test]
fn adapts_an_anthropic_stream_to_chat_chunks() {
    let mut a = AnthropicToChat::with_id("chatcmpl-1".to_string(), "requested".to_string());
    let c = a.on_event("message_start", &lines(r#"{"message": {"model": "sonnet", "usage": {"input_tokens": 5}}}"#)).unwrap();
    same(
        &c,
        r#"{"id": "chatcmpl-1", "object": "chat.completion.chunk", "model": "sonnet",
            "choices": [{"index": 0, "delta": {"role": "assistant", "content": ""}}]}"#,
    );
    let c = a.on_event("content_block_delta", &lines(r#"{"delta": {"type": "text_delta", "text": "Hi"}}"#)).unwrap();
    same(&c, r#"{"id": "chatcmpl-1", "object": "chat.completion.chunk", "model": "sonnet", "choices": [{"index": 0, "delta": {"content": "Hi"}}]}"#);
    let c = a
        .on_event("content_block_start", &lines(r#"{"content_block": {"type": "tool_use", "id": "tu1", "name": "f"}}"#))
        .unwrap();
    same(
        &c,
        r#"{"id": "chatcmpl-1", "object": "chat.completion.chunk", "model": "sonnet", "choices": [{"index": 0, "delta":
            {"tool_calls": [{"index": 0, "id": "tu1", "type": "function", "function": {"name": "f", "arguments": ""}}]}}]}"#,
    );
    let c = a.on_event("content_block_delta", &lines(r#"{"delta": {"type": "input_json_delta", "partial_json": "{\"a\""}}"#)).unwrap();
    same(
        &c,
        r#"{"id": "chatcmpl-1", "object": "chat.completion.chunk", "model": "sonnet", "choices": [{"index": 0, "delta":
            {"tool_calls": [{"index": 0, "function": {"arguments": "{\"a\""}}]}}]}"#,
    );
    assert!(a.on_event("content_block_stop", &lines("{}")).is_none());
    assert!(a.on_event("ping", &Vec::new()).is_none());
    assert!(a.on_event("message_start", &lines("[DONE]")).is_none());
    let c = a.on_event("message_delta", &lines(r#"{"delta": {"stop_reason": "tool_use"}, "usage": {"output_tokens": 7}}"#)).unwrap();
    same(
        &c,
        r#"{"id": "chatcmpl-1", "object": "chat.completion.chunk", "model": "sonnet",
            "choices": [{"index": 0, "delta": {}, "finish_reason": "tool_calls"}],
            "usage": {"prompt_tokens": 5, "completion_tokens": 7, "total_tokens": 12}}"#,
    );
}

#[test]
fn anthropic_adapter_numbers_tool_calls_from_zero() {
    let mut a = AnthropicToChat::new("m".to_string());
    for expected in 0..3 {
        let c = a
            .on_event("content_block_start", &lines(r#"{"content_block": {"type": "tool_use"}}"#))
            .unwrap();
        let call = &c.get("choices").unwrap().as_array().unwrap()[0];
        let tool = &call.get("delta").unwrap().get("tool_calls").unwrap().as_array().unwrap()[0];
        assert_eq!(tool.get("index").unwrap().as_i64(), Some(expected));
        assert_eq!(tool.get_str("id"), Some("toolu_"));
        assert!(c.get_str("id").unwrap().starts_with("chatcmpl-"));
    }
}

#[test]
fn adapts_a_responses_stream_to_chat_chunks() {
    let mut r = ResponsesToChat::with_id("chatcmpl-2".to_string(), "req".to_string());
    let c = r.on_event("response.created", &lines(r#"{"response": {"model": "gpt-5"}}"#)).unwrap();
    assert_eq!(c.get_str("model"), Some("gpt-5"));
    let c = r.on_event("response.output_text.delta", &lines(r#"{"delta": "yo"}"#)).unwrap();
    same(&c, r#"{"id": "chatcmpl-2", "object": "chat.completion.chunk", "model": "gpt-5", "choices": [{"index": 0, "delta": {"content": "yo"}}]}"#);
    let first = r
        .on_event("response.output_item.added", &lines(r#"{"item": {"type": "function_call", "call_id": "a", "name": "f"}}"#))
        .unwrap();
    let second = r
        .on_event("response.output_item.added", &lines(r#"{"item": {"type": "function_call", "call_id": "b", "name": "g"}}"#))
        .unwrap();
    let again = r
        .on_event("response.output_item.added", &lines(r#"{"item": {"type": "function_call", "call_id": "a", "name": "f"}}"#))
        .unwrap();
    let index = |c: &Json| {
        let choice = &c.get("choices").unwrap().as_array().unwrap()[0];
        choice.get("delta").unwrap().get("tool_calls").unwrap().as_array().unwrap()[0].get("index").unwrap().as_i64()
    };
    assert_eq!(index(&first), Some(0));
    assert_eq!(index(&second), Some(1));
    assert_eq!(index(&again), Some(0));
    let args = r.on_event("response.function_call_arguments.delta", &lines(r#"{"delta": "{}"}"#)).unwrap();
    assert_eq!(index(&args), Some(1));
    let done = r
        .on_event(
            "response.completed",
            &lines(r#"{"response": {"output": [{"type": "function_call"}], "usage": {"input_tokens": 1, "output_tokens": 2}}}"#),
        )
        .unwrap();
    same(
        &done,
        r#"{"id": "chatcmpl-2", "object": "chat.completion.chunk", "model": "gpt-5",
            "choices": [{"index": 0, "delta": {}, "finish_reason": "tool_calls"}],
            "usage": {"prompt_tokens": 1, "completion_tokens": 2, "total_tokens": 3}}"#,
    );
    assert!(r.on_event("response.in_progress", &lines("{}")).is_none());
}

#[test]
fn adapts_a_chat_stream_to_responses_events() {
    let mut c = ChatToResponses::with_ids("resp_1".to_string(), "msg_1".to_string(), "m".to_string());
    let (name, created) = c.start();
    assert_eq!(name, "response.created");
    same(&created, r#"{"id": "resp_1", "object": "response", "status": "in_progress", "model": "m", "output": []}"#);
    let ev = c.on_data(r#"{"model": "m2", "choices": [{"delta": {"content": "Hel"}}]}"#);
    let names: Vec<&str> = ev.iter().map(|e| e.0.as_str()).collect();
    assert_eq!(names, vec!["response.output_item.added", "response.content_part.added", "response.output_text.delta"]);
    same(&ev[2].1, r#"{"type": "output_text", "delta": "Hel"}"#);
    let ev = c.on_data(r#"{"choices": [{"delta": {"content": "lo"}}]}"#);
    assert_eq!(ev.len(), 1);
    let ev = c.on_data(r#"{"choices": [{"delta": {}, "finish_reason": "stop"}], "usage": {"prompt_tokens": 3, "completion_tokens": 4}}"#);
    let names: Vec<&str> = ev.iter().map(|e| e.0.as_str()).collect();
    assert_eq!(names, vec!["response.output_text.done", "response.output_item.done", "response.completed"]);
    same(&ev[0].1, r#"{"type": "output_text", "text": "Hello"}"#);
    same(
        &ev[2].1,
        r#"{"id": "resp_1", "object": "response", "status": "completed", "model": "m2",
            "output": [{"type": "message", "id": "msg_1", "status": "completed", "role": "assistant",
                        "content": [{"type": "output_text", "text": "Hello"}]}],
            "usage": {"input_tokens": 3, "output_tokens": 4, "total_tokens": 7}}"#,
    );
    let ev = c.on_data(r#"{"choices": [{"delta": {}, "finish_reason": "stop"}]}"#);
    assert!(ev.iter().all(|e| e.0 != "response.completed"));
    assert!(c.on_data("[DONE]").is_empty());
    assert!(c.on_data("garbage").is_empty());
}

#[test]
fn chat_stream_without_text_completes_with_empty_output() {
    let mut c = ChatToResponses::new("m".to_string());
    let ev = c.on_data(r#"{"choices": [{"delta": {}, "finish_reason": "length"}]}"#);
    assert_eq!(ev.len(), 1);
    assert_eq!(ev[0].0, "response.completed");
    assert!(ev[0].1.get_str("id").unwrap().starts_with("resp_"));
    same(ev[0].1.get("output").unwrap(), "[]");
}
