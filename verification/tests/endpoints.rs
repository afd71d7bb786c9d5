use ai_router::backend::triton::routes::audio::{
    build_triton_request as audio_request, check_audio_file, check_channel_count, pad_samples,
    transcriptions, Transcription,
};
use ai_router::backend::triton::routes::completions::{
    assemble_completion, build_triton_request as completion_request, completions,
    completions_stream, default_best_of, default_echo, default_frequency_penalty, default_n,
    default_presence_penalty, default_stream, default_temperature, default_top_p,
    CompletionCreateParams, CompletionStream,
};
use ai_router::backend::triton::routes::embeddings::{
    batch_size, build_triton_request as embedding_request, embed, read_embedding_part,
};
use ai_router::backend::triton::{InferOutputTensor, ModelInferResponse, ModelStreamInferResponse};
use ai_router::errors::AiRouterError;
use ai_router::ident::{completion_id, new_completion_id};
use ai_router::openai::{
    usage, AudioOutputFormat, AudioTranscriptionBytes, AudioTranscriptionFile, EmbeddingInput,
    EmbeddingParameters, FinishReason, StreamEvent, Usage,
};
use ai_router::request::AiRouterRequestData;

fn encode(strings: &[&str]) -> Vec<u8> {
    let mut out = Vec::new();
    for s in strings {
        out.extend_from_slice(&(s.len() as u32).to_le_bytes());
        out.extend_from_slice(s.as_bytes());
    }
    out
}

fn part(name: &str, shape: Vec<i64>, raw: Vec<u8>) -> ModelStreamInferResponse {
    ModelStreamInferResponse {
        error_message: String::new(),
        infer_response: Some(ModelInferResponse {
            model_name: String::from("m"),
            model_version: String::new(),
            id: String::new(),
            outputs: vec![InferOutputTensor {
                name: String::from(name),
                datatype: String::from("X"),
                shape,
            }],
            raw_output_contents: vec![raw],
        }),
    }
}

fn text_part(name: &str, strings: &[&str]) -> ModelStreamInferResponse {
    part(name, vec![1, 1], encode(strings))
}

fn failed(message: &str) -> ModelStreamInferResponse {
    ModelStreamInferResponse { error_message: String::from(message), infer_response: None }
}

fn floats_part(shape: Vec<i64>, values: &[f32]) -> ModelStreamInferResponse {
    let mut raw = Vec::new();
    for v in values {
        raw.extend_from_slice(&v.to_le_bytes());
    }
    part("embedding", shape, raw)
}

fn completion_params(model: &str) -> CompletionCreateParams {
    CompletionCreateParams {
        model: String::from(model),
        prompt: vec![String::from("say hi")],
        best_of: default_best_of(),
        echo: default_echo(),
        frequency_penalty: default_frequency_penalty(),
        logit_bias: None,
        logprobs: None,
        max_tokens: None,
        n: default_n(),
        presence_penalty: default_presence_penalty(),
        seed: None,
        stop: None,
        stream: default_stream(),
        suffix: None,
        temperature: default_temperature(),
        top_p: default_top_p(),
        user: None,
    }
}

#[test]
fn completion_defaults() {
    assert_eq!(default_best_of(), 1);
    assert!(!default_echo());
    assert_eq!(f32::from_bits(default_frequency_penalty()), 0.0);
    assert_eq!(default_n(), 1);
    assert_eq!(f32::from_bits(default_presence_penalty()), 0.0);
    assert!(!default_stream());
    assert_eq!(f32::from_bits(default_temperature()), 1.0);
    assert_eq!(f32::from_bits(default_top_p()), 1.0);
}

#[test]
fn completion_request_with_defaults() {
    let mut data = AiRouterRequestData::new();
    let r = completion_request(completion_params("m"), &mut data, "say hi\nASSISTANT:", None)
        .unwrap();
    assert_eq!(r.model_name, "m");
    let names: Vec<&str> = r.inputs.iter().map(|t| t.name.as_str()).collect();
    assert_eq!(
        names,
        vec![
            "text_input",
            "max_tokens",
            "bad_words",
            "stop_words",
            "top_p",
            "temperature",
            "presence_penalty",
            "beam_width",
            "stream"
        ]
    );
    assert_eq!(r.outputs.len(), 1);
    assert_eq!(r.outputs[0].name, "text_output");
    let c = |i: usize| r.inputs[i].contents.as_ref().unwrap();
    assert_eq!(c(0).bytes_contents, vec![b"say hi\nASSISTANT:".to_vec()]);
    assert_eq!(c(1).int_contents, vec![131_072]);
    assert_eq!(c(2).bytes_contents, vec![Vec::<u8>::new()]);
    assert_eq!(c(3).bytes_contents, vec![b"</s>".to_vec()]);
    assert_eq!(r.inputs[3].shape, vec![1, 1]);
    assert_eq!(f32::from_bits(c(4).fp32_contents[0]), 1.0);
    assert_eq!(f32::from_bits(c(5).fp32_contents[0]), 1.0);
    assert_eq!(f32::from_bits(c(6).fp32_contents[0]), 0.0);
    assert_eq!(c(7).int_contents, vec![1]);
    assert_eq!(c(8).bool_contents, vec![false]);
    let types: Vec<&str> = r.inputs.iter().map(|t| t.datatype.as_str()).collect();
    assert_eq!(
        types,
        vec!["BYTES", "INT32", "BYTES", "BYTES", "FP32", "FP32", "FP32", "INT32", "BOOL"]
    );
}

#[test]
fn completion_request_with_seed_stop_and_limits() {
    let mut p = completion_params("m");
    p.seed = Some(42);
    p.stop = Some(vec![String::from("a"), String::from("b"), String::from("c")]);
    p.stream = true;
    p.n = 4;
    let mut data = AiRouterRequestData::new();
    data.max_tokens = Some(77);
    let r = completion_request(p, &mut data, "x", None).unwrap();
    assert_eq!(r.inputs.last().unwrap().name, "random_seed");
    assert_eq!(r.inputs.last().unwrap().contents.as_ref().unwrap().uint64_contents, vec![42]);
    assert_eq!(r.inputs[1].contents.as_ref().unwrap().int_contents, vec![77]);
    assert_eq!(r.inputs[3].shape, vec![1, 3]);
    assert_eq!(r.inputs[7].contents.as_ref().unwrap().int_contents, vec![4]);
    assert_eq!(r.inputs[8].contents.as_ref().unwrap().bool_contents, vec![true]);

    let mut p = completion_params("m");
    p.n = i32::MAX as usize + 1;
    match completion_request(p, &mut AiRouterRequestData::new(), "x", None) {
        Err(AiRouterError::InternalServerError(m)) => assert_eq!(m, "TryFromIntError(())"),
        other => panic!("{other:?}"),
    }
    let mut p = completion_params("m");
    p.max_tokens = Some(u32::MAX);
    assert!(completion_request(p, &mut AiRouterRequestData::new(), "x", None).is_err());
    assert!(completion_request(completion_params(""), &mut AiRouterRequestData::new(), "x", None)
        .is_err());
}

#[test]
fn completion_request_is_guarded() {
    let mut data = AiRouterRequestData::new();
    data.max_input = Some(10);
    data.tokenizer = Some(String::from("t"));
    assert!(matches!(
        completion_request(completion_params("m"), &mut data, "x", Some(11)),
        Err(AiRouterError::InputExceededError(_, 10, 11))
    ));
    assert!(completion_request(completion_params("m"), &mut data, "x", Some(10)).is_ok());
    assert_eq!(data.prompt_tokens, 10);
}

#[test]
fn completion_is_assembled_with_trimmed_strings() {
    let mut data = AiRouterRequestData::new();
    data.prompt_tokens = 3;
    data.original_model = Some(String::from("alias"));
    let parts = vec![
        text_part("text_output", &["  Hello ", "\nworld</s>\n"]),
        text_part("text_output", &[" ! "]),
    ];
    let c = assemble_completion(&parts, &data, "backend", String::from("cmpl-9"), u64::MAX).unwrap();
    assert_eq!(c.id, "cmpl-9");
    assert_eq!(c.object, "text_completion");
    assert_eq!(c.created, u64::MAX);
    assert_eq!(c.model, "alias");
    assert_eq!(c.choices.len(), 1);
    assert_eq!(c.choices[0].text, "Helloworld!");
    assert_eq!(c.choices[0].index, 0);
    assert_eq!(c.choices[0].logprobs, None);
    assert_eq!(c.choices[0].finish_reason, Some(FinishReason::StopSequenceReached));
    assert_eq!(
        c.usage,
        Some(Usage { prompt_tokens: 3, completion_tokens: Some(0), total_tokens: 3 })
    );
    let fresh = completions(&parts, &data, "backend", 5).unwrap();
    assert!(fresh.id.starts_with("cmpl-"));
    assert_eq!(fresh.choices[0].text, "Helloworld!");
    match completions(&vec![failed("boom")], &data, "backend", 5) {
        Err(AiRouterError::InternalServerError(m)) => {
            assert_eq!(m, "error message received from triton: boom")
        }
        other => panic!("{other:?}"),
    }
}

#[test]
fn completion_stream_sends_additions_then_the_end() {
    let data = AiRouterRequestData::new();
    let mut s = CompletionStream::with_id(String::from("cmpl-s"), 9, &data, "backend");
    let mut texts = Vec::new();
    for t in [" Hello", " Hello", " Hello world</s>"] {
        for e in completions_stream(&mut s, Some(&text_part("text_output", &[t]))).unwrap() {
            match e {
                StreamEvent::Chunk(c) => {
                    assert_eq!(c.id, "cmpl-s");
                    assert_eq!(c.object, "text_completion");
                    assert_eq!(c.created, 9);
                    assert_eq!(c.model, "backend");
                    assert_eq!(c.usage, None);
                    assert_eq!(c.choices.len(), 1);
                    assert_eq!(c.choices[0].finish_reason, None);
                    texts.push(c.choices[0].text.clone());
                }
                other => panic!("{other:?}"),
            }
        }
    }
    assert_eq!(texts, vec![" Hello", " world"]);
    let end = completions_stream(&mut s, None).unwrap();
    assert_eq!(end.len(), 2);
    match &end[0] {
        StreamEvent::Chunk(c) => {
            assert_eq!(c.choices[0].text, "");
            assert_eq!(c.choices[0].finish_reason, Some(FinishReason::StopSequenceReached));
        }
        other => panic!("{other:?}"),
    }
    assert!(matches!(end[1], StreamEvent::Done));
    assert!(completions_stream(&mut s, None).unwrap().is_empty());
    let fresh = CompletionStream::start(1, &data, "m");
    assert_eq!(fresh.id.len(), 41);
}

#[test]
fn completion_stream_reports_errors_in_band() {
    let data = AiRouterRequestData::new();
    let mut s = CompletionStream::with_id(String::from("id"), 9, &data, "backend");
    let events = completions_stream(&mut s, Some(&failed("bad"))).unwrap();
    assert_eq!(events.len(), 1);
    assert!(matches!(events[0], StreamEvent::BackendError));
    assert!(completions_stream(&mut s, None).unwrap().is_empty());
    let mut s = CompletionStream::with_id(String::from("id"), 9, &data, "backend");
    let events = completions_stream(&mut s, Some(&text_part("other", &["x"]))).unwrap();
    match &events[0] {
        StreamEvent::Error(m) => assert_eq!(m, "text_output not found in Triton response"),
        other => panic!("{other:?}"),
    }
}

#[test]
fn identifiers() {
    assert_eq!(completion_id("abc"), "cmpl-abc");
    let a = new_completion_id();
    let b = new_completion_id();
    assert_ne!(a, b);
    assert_eq!(a.len(), 41);
    assert!(a.starts_with("cmpl-"));
    assert_eq!(a.matches('-').count(), 5);
}

#[test]
fn usage_block() {
    assert_eq!(usage(0), Usage { prompt_tokens: 0, completion_tokens: Some(0), total_tokens: 0 });
    assert_eq!(usage(17), Usage { prompt_tokens: 17, completion_tokens: Some(0), total_tokens: 17 });
    assert_eq!(usage(u32::MAX as usize).prompt_tokens, u32::MAX);
    assert_eq!(usage(u32::MAX as usize + 1).prompt_tokens, 0);
    assert_eq!(usage(usize::MAX).total_tokens, 0);
}

#[test]
fn embedding_request_for_one_text_and_for_several() {
    let r = embedding_request(EmbeddingParameters {
        input: EmbeddingInput::String(String::from("hé")),
        model: String::from("bge"),
    })
    .unwrap();
    assert_eq!(r.model_name, "bge");
    assert_eq!(r.inputs.len(), 1);
    assert_eq!(r.inputs[0].name, "text");
    assert_eq!(r.inputs[0].datatype, "BYTES");
    assert_eq!(r.inputs[0].shape, vec![1, 1]);
    assert_eq!(r.inputs[0].contents.as_ref().unwrap().bytes_contents, vec!["hé".as_bytes().to_vec()]);
    assert_eq!(r.outputs.len(), 1);
    assert_eq!(r.outputs[0].name, "embedding");

    let r = embedding_request(EmbeddingParameters {
        input: EmbeddingInput::StringArray(vec![String::from("a"), String::from("b"), String::new()]),
        model: String::from("bge"),
    })
    .unwrap();
    assert_eq!(r.inputs[0].shape, vec![3, 1]);
    assert_eq!(
        r.inputs[0].contents.as_ref().unwrap().bytes_contents,
        vec![b"a".to_vec(), b"b".to_vec(), Vec::new()]
    );
    let r = embedding_request(EmbeddingParameters {
        input: EmbeddingInput::StringArray(Vec::new()),
        model: String::from("bge"),
    })
    .unwrap();
    assert_eq!(r.inputs[0].shape, vec![0, 1]);
}

#[test]
fn embedding_request_refuses_tokens_and_needs_a_model() {
    for input in [EmbeddingInput::IntegerArray(vec![1, 2]), EmbeddingInput::IntegerArrayArray(vec![vec![1]])] {
        match embedding_request(EmbeddingParameters { input, model: String::new() }) {
            Err(AiRouterError::BadRequestError(m)) => {
                assert_eq!(m, "embedding of token arrays is not supported by the Triton backend")
            }
            other => panic!("{other:?}"),
        }
    }
    assert!(matches!(
        embedding_request(EmbeddingParameters {
            input: EmbeddingInput::String(String::from("x")),
            model: String::new()
        }),
        Err(AiRouterError::InternalServerError(_))
    ));
}

#[test]
fn batch_sizes() {
    assert_eq!(batch_size(&EmbeddingInput::String(String::from("abc"))), 1);
    assert_eq!(batch_size(&EmbeddingInput::StringArray(vec![String::new(); 5])), 5);
    assert_eq!(batch_size(&EmbeddingInput::StringArray(Vec::new())), 0);
    assert_eq!(batch_size(&EmbeddingInput::IntegerArray(vec![1, 2, 3])), 1);
    assert_eq!(batch_size(&EmbeddingInput::IntegerArrayArray(vec![vec![1], vec![2]])), 2);
}

#[test]
fn embeddings_are_cut_from_all_parts() {
    let mut data = AiRouterRequestData::new();
    data.original_model = Some(String::from("alias"));
    let parts =
        vec![floats_part(vec![2, 3], &[1.0, 2.0, 3.0, 4.0]), floats_part(vec![2, 3], &[5.0, 6.0])];
    let r = embed(&parts, 2, &data, "backend").unwrap();
    assert_eq!(r.object, "embedding");
    assert_eq!(r.model, "alias");
    assert_eq!(r.usage, Some(Usage { prompt_tokens: 0, completion_tokens: Some(0), total_tokens: 0 }));
    assert_eq!(r.data.len(), 2);
    let rows: Vec<Vec<f32>> =
        r.data.iter().map(|e| e.embedding.iter().map(|b| f32::from_bits(*b)).collect()).collect();
    assert_eq!(rows, vec![vec![1.0, 2.0, 3.0], vec![4.0, 5.0, 6.0]]);
    assert_eq!(r.data[0].index, 0);
    assert_eq!(r.data[1].index, 1);
    assert_eq!(r.data[1].object, "embedding");
    assert!(embed(&Vec::new(), 0, &data, "backend").unwrap().data.is_empty());
}

#[test]
fn embeddings_fail_on_bad_parts_and_sizes() {
    let data = AiRouterRequestData::new();
    let message = |r: Result<_, AiRouterError>| match r {
        Err(AiRouterError::InternalServerError(m)) => m,
        other => panic!("{:?}", other.map(|_: ai_router::openai::EmbeddingResponse| ())),
    };
    assert_eq!(
        message(embed(&vec![floats_part(vec![3, 1], &[1.0, 2.0, 3.0])], 2, &data, "m")),
        "batch sizes of request and response differ"
    );
    assert_eq!(
        message(embed(&vec![floats_part(vec![2, 2], &[1.0, 2.0, 3.0])], 2, &data, "m")),
        "size of embedding data does not match batch size and dimensions"
    );
    assert_eq!(
        message(embed(&vec![floats_part(vec![], &[1.0])], 1, &data, "m")),
        "shape of embedding in Triton response lacks batch size or dimensions"
    );
    assert_eq!(
        message(embed(&vec![floats_part(vec![1], &[1.0])], 1, &data, "m")),
        "shape of embedding in Triton response lacks batch size or dimensions"
    );
    assert_eq!(
        message(embed(&vec![floats_part(vec![5], &[1.0])], 1, &data, "m")),
        "batch sizes of request and response differ"
    );
    assert_eq!(message(embed(&vec![floats_part(vec![-1, 1], &[1.0])], 1, &data, "m")), "TryFromIntError(())");
    assert_eq!(message(embed(&vec![floats_part(vec![1, -1], &[1.0])], 1, &data, "m")), "TryFromIntError(())");
    assert_eq!(
        message(embed(&vec![text_part("other", &["x"])], 1, &data, "m")),
        "embedding not found in Triton response"
    );
    assert_eq!(
        message(embed(&vec![floats_part(vec![1, 1], &[1.0]), failed("late")], 1, &data, "m")),
        "error message received from triton: late"
    );
    let empty = embed(&Vec::new(), 1, &data, "m").unwrap();
    assert_eq!(empty.data.len(), 1);
    assert!(empty.data[0].embedding.is_empty());
    let ok = floats_part(vec![1, 2], &[1.0, 2.0]);
    let (dims, raw) = read_embedding_part(&ok, 1).unwrap();
    assert_eq!(dims, 2);
    assert_eq!(raw.len(), 8);
}

#[test]
fn audio_must_be_wav_bytes() {
    let bytes = |name: &str| {
        AudioTranscriptionFile::Bytes(AudioTranscriptionBytes {
            bytes: vec![1, 2, 3],
            filename: String::from(name),
        })
    };
    assert!(check_audio_file(&bytes("speech.wav")).is_ok());
    assert!(check_audio_file(&bytes("a.b.wav")).is_ok());
    let message = |r: Result<(), AiRouterError>| match r {
        Err(AiRouterError::InternalServerError(m)) => m,
        other => panic!("{other:?}"),
    };
    assert_eq!(message(check_audio_file(&bytes("speech.mp3"))), "extension \"mp3\" not supported to Triton backend");
    assert_eq!(message(check_audio_file(&bytes("speech.WAV"))), "extension \"WAV\" not supported to Triton backend");
    assert_eq!(message(check_audio_file(&bytes("wav"))), "failed to get extension of file name wav");
    assert_eq!(
        message(check_audio_file(&AudioTranscriptionFile::File(String::from("speech.wav")))),
        "`AudioTranscriptionFile::File` variant not supported"
    );
}

#[test]
fn audio_channels() {
    for n in 1..=8 {
        assert!(check_channel_count(n).is_ok());
    }
    for n in [0u16, 9, 10, u16::MAX] {
        match check_channel_count(n) {
            Err(AiRouterError::BadRequestError(m)) => assert_eq!(m, "audio with > 8 channels not supported"),
            other => panic!("{other:?}"),
        }
    }
}

#[test]
fn audio_is_padded_to_the_next_block() {
    let padded = pad_samples(vec![7, 8, 9]).unwrap();
    assert_eq!(padded.len(), 160_000);
    assert_eq!(&padded[..3], &[7, 8, 9]);
    assert!(padded[3..].iter().all(|s| *s == 0));
    assert_eq!(pad_samples(Vec::new()).unwrap(), vec![0; 160_000]);
    assert_eq!(pad_samples(vec![1; 159_999]).unwrap().len(), 160_000);
    let full = pad_samples(vec![1; 160_000]).unwrap();
    assert_eq!(full.len(), 320_000);
    assert!(full[..160_000].iter().all(|s| *s == 1));
    assert!(full[160_000..].iter().all(|s| *s == 0));
    assert_eq!(pad_samples(vec![1; 160_001]).unwrap().len(), 320_000);
}

#[test]
fn audio_request_has_prefix_and_padded_samples() {
    let r = audio_request("whisper", "<|en|>", vec![1.5f32.to_bits(), 2]).unwrap();
    assert_eq!(r.model_name, "whisper");
    assert_eq!(r.inputs.len(), 2);
    assert_eq!(r.inputs[0].name, "TEXT_PREFIX");
    assert_eq!(r.inputs[0].datatype, "BYTES");
    assert_eq!(r.inputs[0].shape, vec![1, 1]);
    assert_eq!(r.inputs[0].contents.as_ref().unwrap().bytes_contents, vec![b"<|en|>".to_vec()]);
    assert_eq!(r.inputs[1].name, "WAV");
    assert_eq!(r.inputs[1].datatype, "FP32");
    assert_eq!(r.inputs[1].shape, vec![1, 160_000]);
    let wav = &r.inputs[1].contents.as_ref().unwrap().fp32_contents;
    assert_eq!(wav.len(), 160_000);
    assert_eq!(f32::from_bits(wav[0]), 1.5);
    assert_eq!(wav[1], 2);
    assert_eq!(f32::from_bits(wav[2]), 0.0);
    assert_eq!(r.outputs.len(), 1);
    assert_eq!(r.outputs[0].name, "TRANSCRIPTS");
    assert!(audio_request("", "", Vec::new()).is_err());
}

#[test]
fn transcripts_are_collected_verbatim_and_lose_leading_space() {
    let parts = vec![
        text_part("TRANSCRIPTS", &["  Hello", " </s>"]),
        text_part("TRANSCRIPTS", &[" world \n"]),
    ];
    for format in [None, Some(AudioOutputFormat::Json), Some(AudioOutputFormat::VerboseJson)] {
        match transcriptions(&parts, format).unwrap() {
            Transcription::Json(r) => assert_eq!(r.text, "Hello </s> world \n"),
            other => panic!("{other:?}"),
        }
    }
    for format in [AudioOutputFormat::Srt, AudioOutputFormat::Text, AudioOutputFormat::Vtt] {
        match transcriptions(&parts, Some(format)).unwrap() {
            Transcription::Text(t) => assert_eq!(t, "Hello </s> world \n"),
            other => panic!("{other:?}"),
        }
    }
    match transcriptions(&vec![text_part("text_output", &["x"])], None) {
        Err(AiRouterError::InternalServerError(m)) => {
            assert_eq!(m, "TRANSCRIPTS not found in Triton response")
        }
        other => panic!("{other:?}"),
    }
    match transcriptions(&Vec::new(), None).unwrap() {
        Transcription::Json(r) => assert_eq!(r.text, ""),
        other => panic!("{other:?}"),
    }
}
