use ai_router::backend::triton::response::{decode_text, read_output, OutputFailure, TextStyle};
use ai_router::backend::triton::routes::chat::{
    assemble_chat_completion, chat_completions, chat_completions_stream, ChatStream,
};
use ai_router::backend::triton::stream::{
    collect_text, read_text, StreamDecodeState, StreamPhase, StreamStep,
};
use ai_router::backend::triton::{InferOutputTensor, ModelInferResponse, ModelStreamInferResponse};
use ai_router::errors::AiRouterError;
use ai_router::openai::{
    ChatCompletionChunkResponse, ChatMessageContent, FinishReason, Role, StreamEvent, Usage,
};
use ai_router::request::AiRouterRequestData;

fn encode(strings: &[&str]) -> Vec<u8> {
    let mut out = Vec::new();
    for s in strings {
        out.extend_from_slice(&(s.len() as u32).to_le_bytes());
        out.extend_from_slice(s.as_bytes());
    }
    out
}

fn response(outputs: Vec<(&str, Vec<u8>)>) -> ModelStreamInferResponse {
    let mut tensors = Vec::new();
    let mut raw = Vec::new();
    for (name, bytes) in outputs {
        tensors.push(InferOutputTensor {
            name: String::from(name),
            datatype: String::from("BYTES"),
            shape: vec![1, 1],
        });
        raw.push(bytes);
    }
    ModelStreamInferResponse {
        error_message: String::new(),
        infer_response: Some(ModelInferResponse {
            model_name: String::from("m"),
            model_version: String::from("1"),
            id: String::new(),
            outputs: tensors,
            raw_output_contents: raw,
        }),
    }
}

fn text_part(text: &str) -> ModelStreamInferResponse {
    response(vec![("text_output", encode(&[text]))])
}

fn failed(message: &str) -> ModelStreamInferResponse {
    ModelStreamInferResponse { error_message: String::from(message), infer_response: None }
}

fn empty() -> ModelStreamInferResponse {
    ModelStreamInferResponse { error_message: String::new(), infer_response: None }
}

fn stream() -> ChatStream {
    let mut data = AiRouterRequestData::new();
    data.original_model = Some(String::from("shown"));
    ChatStream::with_id(String::from("cmpl-1"), 1_700_000_000, &data, "backend").unwrap()
}

fn deltas(events: &[StreamEvent<ChatCompletionChunkResponse>]) -> Vec<String> {
    events
        .iter()
        .map(|e| match e {
            StreamEvent::Chunk(c) => c.choices[0].delta.content.clone().unwrap(),
            other => panic!("{other:?}"),
        })
        .collect()
}

fn run(stream: &mut ChatStream, texts: &[&str]) -> Vec<String> {
    let mut all = Vec::new();
    for t in texts {
        let events = chat_completions_stream(stream, Some(&text_part(t))).unwrap();
        all.extend(deltas(&events));
    }
    all
}

#[test]
fn stream_hands_out_only_what_is_new() {
    let mut s = stream();
    let sent = run(&mut s, &["Hello", "Hello world", "Hello world!"]);
    assert_eq!(sent, vec!["Hello", " world", "!"]);
    assert_eq!(sent.concat(), "Hello world!");
    let mut s = stream();
    assert_eq!(run(&mut s, &["Hello"]), vec!["Hello"]);
    assert_eq!(run(&mut s, &["Hello world", "Hello world!"]), vec![" world", "!"]);
    assert_eq!(s.decode.previous, "Hello world!");
    assert_eq!(s.decode.phase, StreamPhase::Streaming);
}

#[test]
fn stream_is_quiet_for_a_repeated_text() {
    let mut s = stream();
    assert_eq!(run(&mut s, &["Hello", "Hello"]), vec!["Hello"]);
    assert_eq!(run(&mut s, &["Hello", "Hello", "Hello"]), Vec::<String>::new());
    assert_eq!(run(&mut s, &["Hello!"]), vec!["!"]);
    assert_eq!(run(&mut s, &["Hello!", "Hello!"]), Vec::<String>::new());
}

#[test]
fn stream_is_quiet_for_an_empty_text() {
    let mut s = stream();
    assert_eq!(run(&mut s, &["", ""]), Vec::<String>::new());
    assert_eq!(run(&mut s, &["a", ""]), vec!["a"]);
    assert_eq!(s.decode.previous, "a");
}

#[test]
fn stream_sends_a_text_whole_that_does_not_extend_the_last() {
    let mut s = stream();
    assert_eq!(run(&mut s, &["Hello", "Goodbye", "Goodbye!"]), vec!["Hello", "Goodbye", "!"]);
    assert_eq!(run(&mut s, &["Good"]), vec!["Good"]);
    assert_eq!(s.decode.previous, "Good");
}

#[test]
fn stream_takes_end_markers_out_before_comparing() {
    let mut s = stream();
    let sent = run(&mut s, &["Hi</s>", "Hi there</s>", "</s>Hi</s> there</s>", "Hi there!</s></s>"]);
    assert_eq!(sent, vec!["Hi", " there", "!"]);
    let mut t = stream();
    let part = response(vec![("text_output", encode(&["a<", "/s>b", "</s>c"]))]);
    let events = chat_completions_stream(&mut t, Some(&part)).unwrap();
    assert_eq!(deltas(&events), vec!["abc"]);
}

#[test]
fn stream_chunks_carry_the_stream_values() {
    let mut s = stream();
    let events = chat_completions_stream(&mut s, Some(&text_part("Hi"))).unwrap();
    assert_eq!(events.len(), 1);
    match &events[0] {
        StreamEvent::Chunk(c) => {
            assert_eq!(c.id, "cmpl-1");
            assert_eq!(c.object, "chat.completion.chunk");
            assert_eq!(c.created, 1_700_000_000);
            assert_eq!(c.model, "shown");
            assert_eq!(c.choices.len(), 1);
            assert_eq!(c.choices[0].index, Some(0));
            assert_eq!(c.choices[0].delta.role, Some(Role::Assistant));
            assert_eq!(c.choices[0].delta.content.as_deref(), Some("Hi"));
            assert_eq!(c.choices[0].finish_reason, None);
        }
        other => panic!("{other:?}"),
    }
}

#[test]
fn stream_ends_with_the_last_chunk_and_then_the_sentinel() {
    let mut s = stream();
    run(&mut s, &["Hi"]);
    let events = chat_completions_stream(&mut s, None).unwrap();
    assert_eq!(events.len(), 2);
    match &events[0] {
        StreamEvent::Chunk(c) => {
            assert_eq!(c.id, "cmpl-1");
            assert_eq!(c.object, "chat.completion.chunk");
            assert_eq!(c.model, "shown");
            assert_eq!(c.choices.len(), 1);
            assert_eq!(c.choices[0].delta.role, None);
            assert_eq!(c.choices[0].delta.content, None);
            assert_eq!(c.choices[0].finish_reason, Some(FinishReason::StopSequenceReached));
        }
        other => panic!("{other:?}"),
    }
    assert!(matches!(events[1], StreamEvent::Done));
    assert_eq!(s.decode.phase, StreamPhase::Done);
    assert!(chat_completions_stream(&mut s, None).unwrap().is_empty());
    assert!(chat_completions_stream(&mut s, Some(&text_part("Hi there"))).unwrap().is_empty());
}

#[test]
fn stream_stops_at_a_backend_error() {
    let mut s = stream();
    run(&mut s, &["Hi"]);
    let events = chat_completions_stream(&mut s, Some(&failed("out of memory"))).unwrap();
    assert_eq!(events.len(), 1);
    assert!(matches!(events[0], StreamEvent::BackendError));
    assert_eq!(s.decode.phase, StreamPhase::Errored);
    assert!(chat_completions_stream(&mut s, Some(&text_part("Hi there"))).unwrap().is_empty());
    assert!(chat_completions_stream(&mut s, None).unwrap().is_empty());
    assert_eq!(s.decode.phase, StreamPhase::Errored);
}

#[test]
fn stream_stops_at_a_missing_output() {
    let mut s = stream();
    let part = response(vec![("other", encode(&["x"]))]);
    let events = chat_completions_stream(&mut s, Some(&part)).unwrap();
    assert_eq!(events.len(), 1);
    match &events[0] {
        StreamEvent::Error(m) => assert_eq!(m, "text_output not found in Triton response"),
        other => panic!("{other:?}"),
    }
    assert_eq!(s.decode.phase, StreamPhase::Errored);
    assert!(chat_completions_stream(&mut s, None).unwrap().is_empty());
}

#[test]
fn stream_fails_on_a_message_it_cannot_read() {
    let mut s = stream();
    match chat_completions_stream(&mut s, Some(&empty())) {
        Err(AiRouterError::InternalServerError(m)) => assert_eq!(m, "empty infer response received"),
        other => panic!("{other:?}"),
    }
    assert_eq!(s.decode.phase, StreamPhase::Errored);

    let mut s = stream();
    let part = response(vec![("text_output", vec![1, 0, 0, 0, 0xff])]);
    assert!(matches!(
        chat_completions_stream(&mut s, Some(&part)),
        Err(AiRouterError::InternalServerError(_))
    ));
    assert_eq!(s.decode.phase, StreamPhase::Errored);

    let mut s = stream();
    let mut part = text_part("x");
    part.infer_response.as_mut().unwrap().raw_output_contents.clear();
    match chat_completions_stream(&mut s, Some(&part)) {
        Err(AiRouterError::InternalServerError(m)) => {
            assert_eq!(m, "text_output has no raw contents in Triton response")
        }
        other => panic!("{other:?}"),
    }
}

#[test]
fn stream_start_refuses_a_time_that_does_not_fit() {
    let data = AiRouterRequestData::new();
    let s = ChatStream::with_id(String::from("id"), u32::MAX as u64, &data, "backend").unwrap();
    assert_eq!(s.created, u32::MAX);
    assert_eq!(s.model, "backend");
    assert_eq!(s.decode.previous, "");
    match ChatStream::with_id(String::from("id"), u32::MAX as u64 + 1, &data, "backend") {
        Err(AiRouterError::InternalServerError(m)) => assert_eq!(m, "TryFromIntError(())"),
        other => panic!("{other:?}"),
    }
    let fresh = ChatStream::start(5, &data, "backend").unwrap();
    assert!(fresh.id.starts_with("cmpl-"));
    assert_eq!(fresh.id.len(), 41);
    assert_ne!(fresh.id, ChatStream::start(5, &data, "backend").unwrap().id);
}

#[test]
fn reducer_steps() {
    let mut state = StreamDecodeState::new();
    assert_eq!(state.phase, StreamPhase::Streaming);
    assert_eq!(state.previous, "");
    assert!(matches!(state.step(&text_part(""), "text_output"), StreamStep::Quiet));
    match state.step(&text_part("ab"), "text_output") {
        StreamStep::Delta(d) => assert_eq!(d, "ab"),
        other => panic!("{other:?}"),
    }
    assert!(matches!(state.step(&text_part("ab"), "text_output"), StreamStep::Quiet));
    assert!(matches!(state.step(&text_part("ab"), "nope"), StreamStep::OutputMissing));
    assert_eq!(state.phase, StreamPhase::Errored);
    assert!(!state.finish());
    let mut state = StreamDecodeState::new();
    assert!(matches!(state.step(&failed("x"), "text_output"), StreamStep::BackendError));
    let mut state = StreamDecodeState::new();
    assert!(matches!(state.step(&empty(), "text_output"), StreamStep::Failed(_)));
    let mut state = StreamDecodeState::new();
    assert!(state.finish());
    assert_eq!(state.phase, StreamPhase::Done);
    assert!(!state.finish());
}

#[test]
fn an_error_message_counts_before_the_response() {
    let mut part = text_part("fine");
    part.error_message = String::from("broken");
    assert!(matches!(read_output(&part, "text_output"), Err(OutputFailure::BackendError)));
    match read_text(&part, "text_output", TextStyle::Generated) {
        Err(AiRouterError::InternalServerError(m)) => {
            assert_eq!(m, "error message received from triton: broken")
        }
        other => panic!("{other:?}"),
    }
}

#[test]
fn outputs_are_found_in_any_order() {
    let part = response(vec![
        ("a", encode(&["first"])),
        ("text_output", encode(&["second"])),
        ("b", encode(&["third"])),
    ]);
    match read_output(&part, "text_output") {
        Ok((_, idx)) => assert_eq!(idx, 1),
        other => panic!("{other:?}"),
    }
    assert_eq!(read_text(&part, "b", TextStyle::Generated).unwrap(), "third");
    assert_eq!(read_text(&part, "a", TextStyle::Generated).unwrap(), "first");
    assert!(matches!(read_output(&part, "c"), Err(OutputFailure::OutputMissing)));
    assert!(matches!(read_output(&empty(), "a"), Err(OutputFailure::EmptyResponse)));
    let mut short = text_part("x");
    short.infer_response.as_mut().unwrap().raw_output_contents.clear();
    assert!(matches!(read_output(&short, "text_output"), Err(OutputFailure::PayloadMissing)));
}

#[test]
fn text_styles() {
    let raw = encode(&[" a</s> ", "\n b "]);
    assert_eq!(decode_text(&raw, TextStyle::Verbatim).unwrap(), " a</s> \n b ");
    assert_eq!(decode_text(&raw, TextStyle::Generated).unwrap(), " a \n b ");
    assert_eq!(decode_text(&raw, TextStyle::Trimmed).unwrap(), "ab");
    assert_eq!(decode_text(&Vec::new(), TextStyle::Trimmed).unwrap(), "");
    assert!(decode_text(&vec![1, 0, 0, 0, 0xc0], TextStyle::Verbatim).is_err());
}

#[test]
fn collected_text_appends_the_parts() {
    let parts = vec![text_part("Hello"), text_part(" </s>world"), text_part("")];
    assert_eq!(collect_text(&parts, "text_output", TextStyle::Generated).unwrap(), "Hello world");
    assert_eq!(collect_text(&parts, "text_output", TextStyle::Trimmed).unwrap(), "Helloworld");
    assert_eq!(collect_text(&Vec::new(), "text_output", TextStyle::Generated).unwrap(), "");
    let parts = vec![text_part("Hello"), failed("first"), failed("second")];
    match collect_text(&parts, "text_output", TextStyle::Generated) {
        Err(AiRouterError::InternalServerError(m)) => {
            assert_eq!(m, "error message received from triton: first")
        }
        other => panic!("{other:?}"),
    }
}

#[test]
fn chat_completion_is_assembled_from_all_parts() {
    let mut data = AiRouterRequestData::new();
    data.prompt_tokens = 12;
    let parts = vec![text_part(" Hello"), text_part(" world</s> ")];
    let r =
        assemble_chat_completion(&parts, &data, "backend", String::from("cmpl-x"), 1_700_000_000)
            .unwrap();
    assert_eq!(r.id, "cmpl-x");
    assert_eq!(r.object, "chat.completion");
    assert_eq!(r.created, 1_700_000_000);
    assert_eq!(r.model, "backend");
    assert_eq!(r.choices.len(), 1);
    assert_eq!(r.choices[0].index, Some(0));
    assert_eq!(r.choices[0].finish_reason, Some(FinishReason::StopSequenceReached));
    assert_eq!(r.choices[0].message.role, Role::Assistant);
    assert!(r.choices[0].message.name.is_none());
    match &r.choices[0].message.content {
        ChatMessageContent::Text(t) => assert_eq!(t, " Hello world "),
        other => panic!("{other:?}"),
    }
    assert_eq!(
        r.usage,
        Some(Usage { prompt_tokens: 12, completion_tokens: Some(0), total_tokens: 12 })
    );
}

#[test]
fn chat_completion_reports_the_clients_name_of_the_model() {
    let mut data = AiRouterRequestData::new();
    data.original_model = Some(String::from("alias"));
    let r = chat_completions(&vec![text_part("x")], &data, "backend", 1).unwrap();
    assert_eq!(r.model, "alias");
    assert!(r.id.starts_with("cmpl-"));
    assert_eq!(r.id.len(), 41);
    assert_eq!(r.usage.unwrap().prompt_tokens, 0);
}

#[test]
fn chat_completion_fails_with_the_first_bad_part_and_then_the_time() {
    let data = AiRouterRequestData::new();
    let parts = vec![text_part("x"), response(vec![("wrong", encode(&["y"]))]), failed("later")];
    match assemble_chat_completion(&parts, &data, "m", String::from("id"), u64::MAX) {
        Err(AiRouterError::InternalServerError(m)) => {
            assert_eq!(m, "text_output not found in Triton response")
        }
        other => panic!("{other:?}"),
    }
    match assemble_chat_completion(&vec![text_part("x")], &data, "m", String::from("id"), 1 << 32) {
        Err(AiRouterError::InternalServerError(m)) => assert_eq!(m, "TryFromIntError(())"),
        other => panic!("{other:?}"),
    }
}
