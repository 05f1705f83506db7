use agentsdk::stream::{read_sse_line, SseLine};
use agentsdk::messages::Message;
use agentsdk::stream::{
    ChunkChoice, ChunkDelta, FinishReason, ModelResponseAccumulator, StreamChunk, ToolCallDelta, ToolCallDeltaFunction,
};

fn text_chunk(t: &str, finish: bool) -> StreamChunk {
    StreamChunk {
        choices: vec![ChunkChoice {
            delta: ChunkDelta { content: Some(t.into()), tool_calls: None },
            finish_reason: if finish { Some(FinishReason::Stop) } else { None },
        }],
        usage: None,
    }
}

fn call_chunk(index: i64, id: Option<&str>, name: Option<&str>, args: &str, finish: bool) -> StreamChunk {
    StreamChunk {
        choices: vec![ChunkChoice {
            delta: ChunkDelta {
                content: None,
                tool_calls: Some(vec![ToolCallDelta {
                    index,
                    id: id.map(String::from),
                    function: Some(ToolCallDeltaFunction { name: name.map(String::from), arguments: Some(args.into()) }),
                }]),
            },
            finish_reason: if finish { Some(FinishReason::ToolCalls) } else { None },
        }],
        usage: None,
    }
}

#[test]
fn text_is_concatenated_until_the_finish() {
    let mut acc = ModelResponseAccumulator::new();
    assert!(acc.push(&text_chunk("Hel", false)).is_none());
    match acc.push(&text_chunk("lo", true)) {
        Some(Message::AssistantMessage(a)) => {
            assert_eq!(a.content.as_deref(), Some("Hello"));
            assert!(a.tool_calls.is_none());
        }
        _ => panic!("expected an assistant message"),
    }
}

#[test]
fn tool_call_fragments_are_merged_by_index_in_order() {
    let mut acc = ModelResponseAccumulator::new();
    acc.push(&call_chunk(1, Some("c2"), Some("second"), "{\"b\":", false));
    acc.push(&call_chunk(0, Some("c1"), Some("first"), "{}", false));
    let done = acc.push(&call_chunk(1, None, None, "2}", true));
    match done {
        Some(Message::AssistantMessage(a)) => {
            assert!(a.content.is_none());
            let calls = a.tool_calls.unwrap();
            assert_eq!(calls.len(), 2);
            assert_eq!(calls[0].id, "c1");
            assert_eq!(calls[0].function.name, "first");
            assert_eq!(calls[1].id, "c2");
            assert_eq!(calls[1].function.arguments, "{\"b\":2}");
        }
        _ => panic!("expected an assistant message"),
    }
    match acc.finish() {
        Message::AssistantMessage(a) => assert!(a.content.is_none() && a.tool_calls.is_none()),
        _ => panic!("expected an empty assistant message"),
    }
}

#[test]
fn event_stream_lines_are_classified() {
    match read_sse_line("data: {\"a\":1}  \r") {
        SseLine::Data(p) => assert_eq!(p, "{\"a\":1}"),
        _ => panic!("expected data"),
    }
    assert!(matches!(read_sse_line("data: [DONE]"), SseLine::Done));
    assert!(matches!(read_sse_line(": keep-alive"), SseLine::Skip));
    assert!(matches!(read_sse_line(""), SseLine::Skip));
}
