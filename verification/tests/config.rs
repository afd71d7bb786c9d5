use ai_router::config::{
    default_api_key, default_max_body_size, default_template_dir, is_present, model_kinds,
    AiRouterBackend, AiRouterBackendType, AiRouterConfigFile, AiRouterDaemon, AiRouterModel,
    AiRouterModelType, AiRouterModels, ConfigError,
};
use ai_router::errors::AiRouterError;
use ai_router::names::Named;
use ai_router::request::AiRouterRequestData;
use ai_router::routes::{backend_keys, backend_not_found, get, is_audio_format_supported, route};
use ai_router::state::BackendTypes;
use ai_router::templater::{
    apply_completions, apply_transcription, completions_template, transcription_language,
    transcription_template, TemplateFailure, TemplateType,
};
use ai_router::tokenizers::Tokenizers;

fn backend(default: Option<bool>) -> AiRouterBackend {
    AiRouterBackend {
        api_key: None,
        backend_type: AiRouterBackendType::Triton,
        base_url: String::from("http://localhost:8001"),
        default,
        mode: None,
    }
}

fn model(backend: Option<&str>) -> AiRouterModel {
    AiRouterModel {
        backend: backend.map(String::from),
        backend_model: None,
        default: None,
        hf_model_name: None,
        max_input: None,
        max_tokens: None,
        prompt_format: None,
    }
}

fn named<V>(entries: Vec<(&str, V)>) -> Named<V> {
    let mut map = Named::new();
    for (name, value) in entries {
        map.insert(String::from(name), value);
    }
    map
}

fn config(backends: Vec<(&str, AiRouterBackend)>, chat: Vec<(&str, AiRouterModel)>) -> AiRouterConfigFile {
    let mut models = AiRouterModels::new();
    models.chat_completions = Some(named(chat));
    AiRouterConfigFile {
        backends: named(backends),
        daemon: AiRouterDaemon {
            api_key: default_api_key(),
            instance_id: String::from("test"),
            listen_ip: String::from("0.0.0.0"),
            listen_port: 3000,
            max_body_size: default_max_body_size(),
            otlp_endpoint: None,
            template_dir: String::from("/tpl"),
        },
        models,
        prompt_models: None,
        title: String::from("test"),
    }
}

fn check(config: &AiRouterConfigFile, present: &[&str]) {
    let present: Vec<String> = present.iter().map(|p| p.to_string()).collect();
    if let Err(e) = config.validate(&present) {
        panic!("config file validation failed: {}", e.describe());
    }
}

#[test]
fn test_ok() {
    let mut with_format = model(None);
    with_format.prompt_format = Some(String::from("chatml"));
    with_format.default = Some(true);
    let c = config(
        vec![("triton", backend(Some(true))), ("other", backend(None))],
        vec![("a", model(Some("other"))), ("b", with_format)],
    );
    check(&c, &["/tpl/chat/chatml.j2", "/tpl/completions/chatml.j2", "/tpl/unused.j2"]);
}

#[test]
#[should_panic(expected = "config file validation failed: multiple backends set as default")]
fn test_multiple_default_backends() {
    let c = config(
        vec![("a", backend(Some(true))), ("b", backend(Some(false))), ("c", backend(Some(true)))],
        vec![("m", model(None))],
    );
    check(&c, &[]);
}

#[test]
#[should_panic(expected = "config file validation failed: multiple models set as default")]
fn test_multiple_default_models() {
    let mut first = model(None);
    first.default = Some(true);
    let mut second = model(None);
    second.default = Some(true);
    let c = config(vec![("a", backend(Some(true)))], vec![("m", first), ("n", second)]);
    check(&c, &[]);
}

#[test]
#[should_panic(expected = "config file validation failed: backend ")]
fn test_model_backend_invalid() {
    let c = config(vec![("a", backend(Some(true)))], vec![("m", model(Some("missing")))]);
    check(&c, &[]);
}

#[test]
#[should_panic(expected = "config file validation failed: no backends defined in config file")]
fn test_no_backends() {
    let c = config(Vec::new(), vec![("m", model(None))]);
    check(&c, &[]);
}

#[test]
#[should_panic(expected = "config file validation failed: model ")]
fn test_no_default_backend() {
    let c = config(vec![("a", backend(None))], vec![("m", model(None))]);
    check(&c, &[]);
}

#[test]
#[should_panic(expected = "config file validation failed: no models defined in config file")]
fn test_no_models() {
    let mut c = config(vec![("a", backend(Some(true)))], Vec::new());
    c.models = AiRouterModels::new();
    check(&c, &[]);
}

#[test]
#[should_panic(
    expected = "config file validation failed: model `model` has prompt_format configured but template for"
)]
fn test_template_missing() {
    let mut m = model(None);
    m.prompt_format = Some(String::from("chatml"));
    let c = config(vec![("a", backend(Some(true)))], vec![("model", m)]);
    check(&c, &["/tpl/completions/chatml.j2"]);
}

#[test]
fn test_default_backend() {
    let c = config(
        vec![("first", backend(None)), ("second", backend(Some(true)))],
        vec![("m", model(None))],
    );
    let keys = backend_keys(&c);
    assert!(keys.iter().any(|(key, _)| key == "default"));
    assert_eq!(
        keys,
        vec![(String::from("first"), 0), (String::from("second"), 1), (String::from("default"), 1)]
    );
}

#[test]
fn config_errors_in_words() {
    let c = config(vec![("a", backend(None))], vec![("m", model(Some("zz"))), ("n", model(None))]);
    match c.check_model_backends() {
        Err(e) => assert_eq!(e.describe(), "backend `zz` configured for model `m` does not exist"),
        other => panic!("{other:?}"),
    }
    let c = config(vec![("a", backend(None))], vec![("m", model(Some("a"))), ("n", model(None))]);
    match c.check_model_backends() {
        Err(e) => assert_eq!(
            e.describe(),
            "model `n` has no backend configured but no default backend exists"
        ),
        other => panic!("{other:?}"),
    }
    let mut m = model(None);
    m.prompt_format = Some(String::from("f"));
    let c = config(vec![("a", backend(Some(true)))], vec![("m", m)]);
    match c.check_templates(&vec![String::from("/tpl/chat/f.j2")]) {
        Err(e) => assert_eq!(
            e.describe(),
            "model `m` has prompt_format configured but template legacy completions (/tpl/completions/f.j2) is missing"
        ),
        other => panic!("{other:?}"),
    }
    match c.check_templates(&Vec::new()) {
        Err(ConfigError::ChatTemplateMissing(model, path)) => {
            assert_eq!(model, "m");
            assert_eq!(path, "/tpl/chat/f.j2");
        }
        other => panic!("{other:?}"),
    }
    assert_eq!(ConfigError::NoBackends.describe(), "no backends defined in config file");
    assert_eq!(ConfigError::NoModels.describe(), "no models defined in config file");
    assert_eq!(ConfigError::MultipleDefaultBackends.describe(), "multiple backends set as default");
    assert_eq!(ConfigError::MultipleDefaultModels.describe(), "multiple models set as default");
}

#[test]
fn config_rules_one_by_one() {
    let c = config(vec![("a", backend(Some(true))), ("b", backend(Some(true)))], Vec::new());
    assert_eq!(c.num_default_backends(), 2);
    assert!(c.check_backends().is_ok());
    assert!(c.check_models().is_ok());
    assert!(matches!(c.check_default_backends(), Err(ConfigError::MultipleDefaultBackends)));
    assert!(c.check_default_models().is_ok());
    assert!(c.check_model_backends().is_ok());
    assert!(c.check_templates(&Vec::new()).is_ok());
    assert!(matches!(c.validate(&Vec::new()), Err(ConfigError::MultipleDefaultBackends)));
    let c = config(Vec::new(), Vec::new());
    assert_eq!(c.num_default_backends(), 0);
    assert!(matches!(c.check_backends(), Err(ConfigError::NoBackends)));
    assert!(matches!(c.validate(&Vec::new()), Err(ConfigError::NoBackends)));
    let mut c = config(vec![("a", backend(Some(false)))], Vec::new());
    c.models = AiRouterModels::new();
    assert!(matches!(c.check_models(), Err(ConfigError::NoModels)));
    let mut d1 = model(Some("a"));
    d1.default = Some(true);
    let mut d2 = model(Some("a"));
    d2.default = Some(true);
    let mut c = config(vec![("a", backend(None))], vec![("x", d1)]);
    c.models.embeddings = Some(named(vec![("y", d2)]));
    assert!(c.check_default_models().is_ok());
    assert!(c.validate(&Vec::new()).is_ok());
}

#[test]
fn template_needs_follow_the_chat_models() {
    let mut a = model(None);
    a.prompt_format = Some(String::from("one"));
    let mut c = model(None);
    c.prompt_format = Some(String::from("two"));
    let cfg = config(vec![("b", backend(Some(true)))], vec![("a", a), ("b", model(None)), ("c", c)]);
    let needs = cfg.template_needs();
    assert_eq!(needs.len(), 2);
    assert_eq!(needs[0].model, "a");
    assert_eq!(needs[0].chat, "/tpl/chat/one.j2");
    assert_eq!(needs[0].completions, "/tpl/completions/one.j2");
    assert_eq!(needs[1].model, "c");
    assert_eq!(needs[1].chat, "/tpl/chat/two.j2");
    let mut none = config(Vec::new(), Vec::new());
    none.models = AiRouterModels::new();
    assert!(none.template_needs().is_empty());
    assert!(is_present(&vec![String::from("x")], "x"));
    assert!(!is_present(&vec![String::from("x")], "y"));
}

#[test]
fn config_defaults() {
    assert!(default_api_key().is_empty());
    assert_eq!(default_max_body_size(), 2);
    assert_eq!(default_template_dir(), "/etc/ai-router/templates");
    assert_eq!(
        model_kinds(),
        vec![
            AiRouterModelType::AudioSpeech,
            AiRouterModelType::AudioTranscriptions,
            AiRouterModelType::ChatCompletions,
            AiRouterModelType::Embeddings
        ]
    );
}

#[test]
fn names_keep_one_value_each_in_order() {
    let mut map: Named<u32> = Named::new();
    assert!(map.is_empty());
    assert_eq!(map.insert(String::from("b"), 1), None);
    assert_eq!(map.insert(String::from("a"), 2), None);
    assert_eq!(map.insert(String::from("b"), 3), Some(1));
    assert_eq!(map.len(), 2);
    assert!(!map.is_empty());
    assert_eq!(map.name_at(0), "b");
    assert_eq!(*map.value_at(0), 3);
    assert_eq!(map.name_at(1), "a");
    assert_eq!(map.get("a"), Some(&2));
    assert_eq!(map.get("b"), Some(&3));
    assert_eq!(map.get("c"), None);
    assert_eq!(map.position("a"), Some(1));
    assert_eq!(map.position(""), None);
    assert!(map.contains_key("b"));
    assert!(!map.contains_key("B"));
}

#[test]
fn routes_lead_to_model_and_backend() {
    let mut renamed = model(Some("triton"));
    renamed.backend_model = Some(String::from("ensemble"));
    let mut c = config(
        vec![("triton", backend(Some(true)))],
        vec![("plain", model(None)), ("renamed", renamed)],
    );
    c.models.embeddings = Some(named(vec![("bge", model(None))]));
    let r = route(&c, &AiRouterModelType::ChatCompletions, "plain").unwrap();
    assert_eq!(r.backend, "default");
    assert_eq!(r.request_model, "plain");
    let r = route(&c, &AiRouterModelType::ChatCompletions, "renamed").unwrap();
    assert_eq!(r.backend, "triton");
    assert_eq!(r.request_model, "ensemble");
    assert_eq!(r.model.backend_model.as_deref(), Some("ensemble"));
    for (kind, name) in [
        (AiRouterModelType::ChatCompletions, "bge"),
        (AiRouterModelType::Embeddings, "plain"),
        (AiRouterModelType::AudioSpeech, "plain"),
        (AiRouterModelType::AudioTranscriptions, ""),
    ] {
        match route(&c, &kind, name) {
            Err(AiRouterError::ModelNotFound(m)) => assert_eq!(m, name),
            other => panic!("{other:?}"),
        }
    }
    match backend_not_found("default") {
        AiRouterError::InternalServerError(m) => assert_eq!(m, "backend default not found"),
        other => panic!("{other:?}"),
    }
}

#[test]
fn models_are_listed_kind_by_kind() {
    let mut c = config(vec![("t", backend(Some(true)))], vec![("chat-a", model(None)), ("chat-b", model(None))]);
    c.models.audio_speech = Some(named(vec![("tts", model(None))]));
    c.models.embeddings = Some(named(vec![("bge", model(None)), ("chat-a", model(None))]));
    let list = get(&c);
    assert_eq!(list.object, "list");
    let ids: Vec<&str> = list.data.iter().map(|m| m.id.as_str()).collect();
    assert_eq!(ids, vec!["tts", "chat-a", "chat-b", "bge", "chat-a"]);
    for m in &list.data {
        assert_eq!(m.created, 1_700_000_000);
        assert_eq!(m.object, "model");
        assert_eq!(m.owned_by, "original owners");
    }
}

#[test]
fn audio_formats() {
    for name in ["a.flac", "a.m4a", "a.mp3", "a.mp4", "a.mpeg", "a.mpga", "a.ogg", "a.ogm", "a.wav", "x.y.webm"] {
        assert!(is_audio_format_supported(name).is_ok(), "{name}");
    }
    match is_audio_format_supported("a.txt") {
        Err(AiRouterError::InternalServerError(m)) => assert_eq!(m, "extension \"txt\" not supported"),
        other => panic!("{other:?}"),
    }
    assert!(is_audio_format_supported("a.WAV").is_err());
    assert!(is_audio_format_supported("wav").is_err());
    assert!(is_audio_format_supported("a.").is_err());
}

#[test]
fn tokenizers_are_those_asked_for_and_loaded() {
    let with = |name: &str| {
        let mut m = model(None);
        m.hf_model_name = Some(String::from(name));
        m
    };
    let mut c = config(
        vec![("t", backend(Some(true)))],
        vec![("a", with("org/one")), ("b", model(None)), ("c", with("org/two")), ("d", with("org/one"))],
    );
    c.models.embeddings = Some(named(vec![("e", with("org/three")), ("f", with("org/two"))]));
    assert_eq!(Tokenizers::requested(&c.models), vec!["org/one", "org/two", "org/three"]);
    let loaded = vec![String::from("org/three"), String::from("org/one"), String::from("stray")];
    let registry = Tokenizers::new(&c.models, &loaded);
    assert_eq!(Tokenizers::get(&registry, "org/one").as_deref(), Some("org/one"));
    assert_eq!(Tokenizers::get(&registry, "org/three").as_deref(), Some("org/three"));
    assert_eq!(Tokenizers::get(&registry, "org/two"), None);
    assert_eq!(Tokenizers::get(&registry, "stray"), None);
    assert_eq!(Tokenizers::get(&registry, ""), None);
    assert!(Tokenizers::requested(&AiRouterModels::new()).is_empty());
}

#[test]
fn request_data_is_built_from_the_model() {
    let mut m = model(None);
    m.max_tokens = Some(256);
    let registry = Tokenizers::new(&AiRouterModels::new(), &Vec::new());
    let data = AiRouterRequestData::build(&m, "alias", &registry).unwrap();
    assert_eq!(data.original_model.as_deref(), Some("alias"));
    assert_eq!(data.max_tokens, Some(256));
    assert_eq!(data.max_input, None);
    assert_eq!(data.tokenizer, None);
    assert_eq!(data.prompt_tokens, 0);

    m.max_input = Some(4096);
    match AiRouterRequestData::build(&m, "alias", &registry) {
        Err(AiRouterError::InternalServerError(msg)) => {
            assert_eq!(msg, "model parameter max_input requires hf_model_name")
        }
        other => panic!("{other:?}"),
    }
    m.hf_model_name = Some(String::from("org/tok"));
    let data = AiRouterRequestData::build(&m, "alias", &registry).unwrap();
    assert_eq!(data.max_input, Some(4096));
    assert_eq!(data.tokenizer, None);

    let mut models = AiRouterModels::new();
    let mut asks = model(None);
    asks.hf_model_name = Some(String::from("org/tok"));
    models.chat_completions = Some(named(vec![("x", asks)]));
    let registry = Tokenizers::new(&models, &vec![String::from("org/tok")]);
    let data = AiRouterRequestData::build(&m, "alias", &registry).unwrap();
    assert_eq!(data.tokenizer.as_deref(), Some("org/tok"));
    m.max_input = None;
    let data = AiRouterRequestData::build(&m, "alias", &registry).unwrap();
    assert_eq!(data.tokenizer, None);
}

#[test]
fn templates_are_named_by_format_and_endpoint() {
    assert_eq!(completions_template(&None, &TemplateType::ChatCompletion), "default_completions");
    assert_eq!(completions_template(&None, &TemplateType::LegacyCompletion), "default_completions");
    let format = Some(String::from("chatml"));
    assert_eq!(completions_template(&format, &TemplateType::ChatCompletion), "chat/chatml.j2");
    assert_eq!(completions_template(&format, &TemplateType::LegacyCompletion), "completions/chatml.j2");
    assert_eq!(transcription_template("whisper"), "transcription/whisper.j2");
    assert_eq!(transcription_language(None), "en");
    assert_eq!(transcription_language(Some(String::from("de"))), "de");
}

#[test]
fn rendered_prompts_end_with_the_cue() {
    assert_eq!(apply_completions(Ok(String::from("say hi"))).unwrap(), "say hi\nASSISTANT:");
    assert_eq!(apply_completions(Ok(String::new())).unwrap(), "\nASSISTANT:");
    let message = |r: Result<String, AiRouterError>| match r {
        Err(AiRouterError::InternalServerError(m)) => m,
        other => panic!("{other:?}"),
    };
    assert_eq!(
        message(apply_completions(Err(TemplateFailure::LoadDefault(String::from("gone"))))),
        "failed to load default completions template: gone"
    );
    assert_eq!(
        message(apply_completions(Err(TemplateFailure::Load(String::from("chat/x.j2"), String::from("gone"))))),
        "failed to load completions template chat/x.j2: gone"
    );
    assert_eq!(
        message(apply_completions(Err(TemplateFailure::Render(String::from("bad"))))),
        "failed to render completions template: bad"
    );
    assert_eq!(apply_transcription(None).unwrap(), "");
    assert_eq!(apply_transcription(Some(Ok(String::from("<|de|>")))).unwrap(), "<|de|>");
    assert_eq!(
        message(apply_transcription(Some(Err(TemplateFailure::Load(String::from("t.j2"), String::from("gone")))))),
        "failed to load transcription template t.j2: gone"
    );
    assert_eq!(
        message(apply_transcription(Some(Err(TemplateFailure::Render(String::from("bad")))))),
        "failed to render transcription template: bad"
    );
}

#[test]
fn backend_clients_by_kind() {
    let a: BackendTypes<u8, &str> = BackendTypes::OpenAI(1);
    let b: BackendTypes<u8, &str> = BackendTypes::Triton("t");
    assert!(matches!(a, BackendTypes::OpenAI(1)));
    assert!(matches!(b, BackendTypes::Triton("t")));
}
