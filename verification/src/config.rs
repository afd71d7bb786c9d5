//! The router's configuration and the rules it must keep.

use crate::names::Named;
use crate::text::str_eq;
use vstd::prelude::*;
use vstd::string::*;

verus! {

/// Where the configuration is read from where no file is named.
pub const DEFAULT_CONFIG_FILE: &'static str = "/etc/ai-router/config.toml";

/// Where the prompt templates are looked for where no directory is named.
pub const DEFAULT_TEMPLATE_DIR: &'static str = "/etc/ai-router/templates";

/// The kind of a backend.
#[derive(Clone, Copy, Debug, PartialEq, Eq, Structural)]
pub enum AiRouterBackendType {
    OpenAI,
    Triton,
}

/// The kind of a model: the endpoint that it serves.
#[derive(Clone, Copy, Debug, PartialEq, Eq, Hash, Structural)]
pub enum AiRouterModelType {
    AudioSpeech,
    AudioTranscriptions,
    ChatCompletions,
    Embeddings,
}

/// One backend.
#[derive(Debug)]
pub struct AiRouterBackend {
    pub api_key: Option<String>,
    pub backend_type: AiRouterBackendType,
    pub base_url: String,
    /// Whether models that name no backend are served by this one.
    pub default: Option<bool>,
    pub mode: Option<String>,
}

/// One model that the router serves.
#[derive(Debug)]
pub struct AiRouterModel {
    /// The backend that serves the model; the default backend where none is
    /// named.
    pub backend: Option<String>,
    /// The name under which the backend knows the model.
    pub backend_model: Option<String>,
    /// Whether this is the default model of its kind.
    pub default: Option<bool>,
    /// The name of the model's tokenizer.
    pub hf_model_name: Option<String>,
    /// How many tokens the model admits in a prompt.
    pub max_input: Option<usize>,
    /// How many tokens the model generates where the request does not say.
    pub max_tokens: Option<u32>,
    /// The name of the prompt templates for this model.
    pub prompt_format: Option<String>,
}

/// The models by kind and, within a kind, by name. A kind may be absent, and
/// a kind that is there may have no model.
#[derive(Debug)]
pub struct AiRouterModels {
    pub audio_speech: Option<Named<AiRouterModel>>,
    pub audio_transcriptions: Option<Named<AiRouterModel>>,
    pub chat_completions: Option<Named<AiRouterModel>>,
    pub embeddings: Option<Named<AiRouterModel>>,
}

/// The models that prompts of one kind may use.
#[derive(Debug)]
pub struct AiRouterPromptModels {
    pub models: Vec<String>,
}

/// What the daemon itself is told.
#[derive(Debug)]
pub struct AiRouterDaemon {
    pub api_key: Vec<String>,
    pub instance_id: String,
    pub listen_ip: String,
    pub listen_port: u16,
    /// The limit on the body of a request, in MiB.
    pub max_body_size: usize,
    pub otlp_endpoint: Option<String>,
    pub template_dir: String,
}

/// The configuration file.
#[derive(Debug)]
pub struct AiRouterConfigFile {
    pub backends: Named<AiRouterBackend>,
    pub daemon: AiRouterDaemon,
    pub models: AiRouterModels,
    pub prompt_models: Option<Named<AiRouterPromptModels>>,
    pub title: String,
}

/// The arguments of the command line.
#[derive(Debug)]
pub struct AiRouterArguments {
    pub config_file: String,
    pub dump_config: bool,
}

/// The API keys of the daemon where the configuration gives none: none.
pub fn default_api_key() -> (r: Vec<String>)
    ensures
        r@.len() == 0,
{
    Vec::new()
}

/// The limit on the body of a request where the configuration gives none:
/// 2 MiB.
pub fn default_max_body_size() -> (r: usize)
    ensures
        r == 2,
{
    2
}

/// The directory of the prompt templates where the configuration names none.
pub fn default_template_dir() -> (r: String)
    ensures
        r@ == DEFAULT_TEMPLATE_DIR@,
{
    DEFAULT_TEMPLATE_DIR.to_owned()
}

/// The templates that a chat model with a prompt format needs.
#[derive(Debug)]
pub struct TemplateNeed {
    /// The model that needs them.
    pub model: String,
    /// The path of its template for chat completions.
    pub chat: String,
    /// The path of its template for legacy completions.
    pub completions: String,
}

/// A rule that a configuration breaks.
#[derive(Debug)]
pub enum ConfigError {
    /// There is no backend.
    NoBackends,
    /// There is no kind of model.
    NoModels,
    /// More than one backend is the default.
    MultipleDefaultBackends,
    /// More than one model of a kind is the default.
    MultipleDefaultModels,
    /// The model (second) names a backend (first) that is not there.
    UnknownBackend(String, String),
    /// The model names no backend and no backend is the default.
    NoDefaultBackend(String),
    /// The model lacks its template for chat completions, at that path.
    ChatTemplateMissing(String, String),
    /// The model lacks its template for legacy completions, at that path.
    CompletionsTemplateMissing(String, String),
}

impl ConfigError {
    /// The rule that is broken, in words.
    pub open spec fn message(self) -> Seq<char> {
        match self {
            ConfigError::NoBackends => "no backends defined in config file"@,
            ConfigError::NoModels => "no models defined in config file"@,
            ConfigError::MultipleDefaultBackends => "multiple backends set as default"@,
            ConfigError::MultipleDefaultModels => "multiple models set as default"@,
            ConfigError::UnknownBackend(backend, model) => "backend `"@ + backend@
                + "` configured for model `"@ + model@ + "` does not exist"@,
            ConfigError::NoDefaultBackend(model) => "model `"@ + model@
                + "` has no backend configured but no default backend exists"@,
            ConfigError::ChatTemplateMissing(model, path) => "model `"@ + model@
                + "` has prompt_format configured but template for chat completions ("@ + path@
                + ") is missing"@,
            ConfigError::CompletionsTemplateMissing(model, path) => "model `"@ + model@
                + "` has prompt_format configured but template legacy completions ("@ + path@
                + ") is missing"@,
        }
    }

    /// The rule that is broken, in words.
    pub fn describe(&self) -> (r: String)
        ensures
            r@ == self.message(),
    {
        let mut text = String::new();
        match self {
            ConfigError::NoBackends => {
                text.append("no backends defined in config file");
            },
            ConfigError::NoModels => {
                text.append("no models defined in config file");
            },
            ConfigError::MultipleDefaultBackends => {
                text.append("multiple backends set as default");
            },
            ConfigError::MultipleDefaultModels => {
                text.append("multiple models set as default");
            },
            ConfigError::UnknownBackend(backend, model) => {
                text.append("backend `");
                text.append(backend.as_str());
                text.append("` configured for model `");
                text.append(model.as_str());
                text.append("` does not exist");
            },
            ConfigError::NoDefaultBackend(model) => {
                text.append("model `");
                text.append(model.as_str());
                text.append("` has no backend configured but no default backend exists");
            },
            ConfigError::ChatTemplateMissing(model, path) => {
                text.append("model `");
                text.append(model.as_str());
                text.append("` has prompt_format configured but template for chat completions (");
                text.append(path.as_str());
                text.append(") is missing");
            },
            ConfigError::CompletionsTemplateMissing(model, path) => {
                text.append("model `");
                text.append(model.as_str());
                text.append("` has prompt_format configured but template legacy completions (");
                text.append(path.as_str());
                text.append(") is missing");
            },
        }
        assert(text@ =~= self.message());
        text
    }
}

/// Whether a flag is set.
pub open spec fn is_set(flag: Option<bool>) -> bool {
    flag == Some(true)
}

/// How many of `backends` are the default.
pub open spec fn default_backends(backends: Seq<AiRouterBackend>) -> nat
    decreases backends.len(),
{
    if backends.len() == 0 {
        0
    } else {
        default_backends(backends.drop_last()) + if is_set(backends.last().default) {
            1nat
        } else {
            0nat
        }
    }
}

/// How many of `models` are the default.
pub open spec fn default_models(models: Seq<AiRouterModel>) -> nat
    decreases models.len(),
{
    if models.len() == 0 {
        0
    } else {
        default_models(models.drop_last()) + if is_set(models.last().default) {
            1nat
        } else {
            0nat
        }
    }
}

/// Whether a model names a backend that is not among `backends`, or names
/// none where none is the default.
pub open spec fn lacks_backend(
    model: AiRouterModel,
    backends: Seq<Seq<char>>,
    has_default: bool,
) -> bool {
    match model.backend {
        Some(backend) => !backends.contains(backend@),
        None => !has_default,
    }
}

/// Whether at most one model is the default among the models of a kind that
/// is there.
pub open spec fn at_most_one_default(models: Option<Named<AiRouterModel>>) -> bool {
    models matches Some(models) ==> default_models(models.values()) <= 1
}

/// Whether each model has its backend among the models of a kind that is
/// there.
pub open spec fn all_have_backend(
    models: Option<Named<AiRouterModel>>,
    backends: Seq<Seq<char>>,
    has_default: bool,
) -> bool {
    models matches Some(models) ==> forall|at: int|
        0 <= at < models.values().len() ==> !lacks_backend(
            #[trigger] models.values()[at],
            backends,
            has_default,
        )
}

/// The place of a kind in the order in which the rules go through the kinds.
pub open spec fn kind_rank(kind: AiRouterModelType) -> int {
    match kind {
        AiRouterModelType::AudioSpeech => 0,
        AiRouterModelType::AudioTranscriptions => 1,
        AiRouterModelType::ChatCompletions => 2,
        AiRouterModelType::Embeddings => 3,
    }
}

/// Whether `e` is the error for the model at position `at` of the models of
/// a kind, for being the first of them that lacks its backend.
pub open spec fn is_fault_of(
    models: Option<Named<AiRouterModel>>,
    at: int,
    backends: Seq<Seq<char>>,
    has_default: bool,
    e: ConfigError,
) -> bool {
    &&& models is Some
    &&& 0 <= at < models->0.values().len()
    &&& lacks_backend(models->0.values()[at], backends, has_default)
    &&& forall|k: int|
        0 <= k < at ==> !lacks_backend(#[trigger] models->0.values()[k], backends, has_default)
    &&& match models->0.values()[at].backend {
        Some(backend) => e matches ConfigError::UnknownBackend(b, m) && b@ == backend@ && m@
            == models->0.names()[at],
        None => e matches ConfigError::NoDefaultBackend(m) && m@ == models->0.names()[at],
    }
}

/// The path of the template for chat completions of a prompt format.
pub open spec fn chat_template_path(dir: Seq<char>, format: Seq<char>) -> Seq<char> {
    dir + "/chat/"@ + format + ".j2"@
}

/// The path of the template for legacy completions of a prompt format.
pub open spec fn completions_template_path(dir: Seq<char>, format: Seq<char>) -> Seq<char> {
    dir + "/completions/"@ + format + ".j2"@
}

/// The views of a vector of strings, in order.
pub open spec fn paths(present: Seq<String>) -> Seq<Seq<char>> {
    present.map_values(|p: String| p@)
}

/// Whether `model` has the templates of its prompt format among `present`,
/// where it has a prompt format.
pub open spec fn has_templates(model: AiRouterModel, dir: Seq<char>, present: Seq<Seq<char>>) -> bool {
    model.prompt_format matches Some(format) ==> present.contains(
        chat_template_path(dir, format@),
    ) && present.contains(completions_template_path(dir, format@))
}

/// Whether each of `models` before position `at` has its templates.
pub open spec fn has_templates_before(
    models: Seq<AiRouterModel>,
    at: int,
    dir: Seq<char>,
    present: Seq<Seq<char>>,
) -> bool {
    forall|k: int| 0 <= k < at ==> has_templates(#[trigger] models[k], dir, present)
}

/// Whether `e` is the error for a model called `name` that lacks a template
/// of its prompt format: the one for chat completions where that is
/// missing, else the one for legacy completions.
pub open spec fn is_template_fault(
    model: AiRouterModel,
    name: Seq<char>,
    dir: Seq<char>,
    present: Seq<Seq<char>>,
    e: ConfigError,
) -> bool {
    &&& model.prompt_format is Some
    &&& if !present.contains(chat_template_path(dir, model.prompt_format->0@)) {
        e matches ConfigError::ChatTemplateMissing(m, p) && m@ == name && p@ == chat_template_path(
            dir,
            model.prompt_format->0@,
        )
    } else {
        &&& !present.contains(completions_template_path(dir, model.prompt_format->0@))
        &&& e matches ConfigError::CompletionsTemplateMissing(m, p) && m@ == name && p@
            == completions_template_path(dir, model.prompt_format->0@)
    }
}

/// What template needs hold: the model and the two paths of each.
pub open spec fn needs_view(needs: Seq<TemplateNeed>) -> Seq<(Seq<char>, Seq<char>, Seq<char>)> {
    needs.map_values(|n: TemplateNeed| (n.model@, n.chat@, n.completions@))
}

/// For each of `models` that has a prompt format, in order: its name and the
/// paths in `dir` of its templates for chat and for legacy completions.
pub open spec fn needs_of(names: Seq<Seq<char>>, models: Seq<AiRouterModel>, dir: Seq<char>) -> Seq<
    (Seq<char>, Seq<char>, Seq<char>),
>
    decreases models.len(),
{
    if models.len() == 0 || names.len() != models.len() {
        Seq::empty()
    } else {
        let head = needs_of(names.drop_last(), models.drop_last(), dir);
        match models.last().prompt_format {
            Some(format) => head.push(
                (
                    names.last(),
                    chat_template_path(dir, format@),
                    completions_template_path(dir, format@),
                ),
            ),
            None => head,
        }
    }
}

/// Whether `path` is one of `present`.
pub fn is_present(present: &Vec<String>, path: &str) -> (r: bool)
    ensures
        r == paths(present@).contains(path@),
{
    let mut i: usize = 0;
    while i < present.len()
        invariant
            i <= present@.len(),
            forall|k: int| 0 <= k < i ==> (#[trigger] paths(present@)[k]) != path@,
        decreases present@.len() - i,
    {
        if str_eq(present[i].as_str(), path) {
            assert(paths(present@)[i as int] == path@);
            return true;
        }
        i += 1;
    }
    false
}

/// A path of a template: in `dir`, under `kind`, for `format`.
fn template_path(dir: &str, kind: &str, format: &str) -> (r: String)
    ensures
        r@ == dir@ + kind@ + format@ + ".j2"@,
{
    let mut path = String::new();
    path.append(dir);
    path.append(kind);
    path.append(format);
    path.append(".j2");
    assert(path@ =~= dir@ + kind@ + format@ + ".j2"@);
    path
}

/// Each kind is at a place in the order of the kinds.
pub proof fn lemma_every_kind_is_listed(kind: AiRouterModelType) -> (k: int)
    ensures
        0 <= k < 4,
        seq![
            AiRouterModelType::AudioSpeech,
            AiRouterModelType::AudioTranscriptions,
            AiRouterModelType::ChatCompletions,
            AiRouterModelType::Embeddings,
        ][k] == kind,
{
    match kind {
        AiRouterModelType::AudioSpeech => 0,
        AiRouterModelType::AudioTranscriptions => 1,
        AiRouterModelType::ChatCompletions => 2,
        AiRouterModelType::Embeddings => 3,
    }
}

impl AiRouterModels {
    /// No kind of model.
    pub fn new() -> (r: Self)
        ensures
            r.audio_speech is None,
            r.audio_transcriptions is None,
            r.chat_completions is None,
            r.embeddings is None,
    {
        AiRouterModels {
            audio_speech: None,
            audio_transcriptions: None,
            chat_completions: None,
            embeddings: None,
        }
    }

    /// The models of a kind, where the kind is there.
    pub open spec fn of_kind(self, kind: AiRouterModelType) -> Option<Named<AiRouterModel>> {
        match kind {
            AiRouterModelType::AudioSpeech => self.audio_speech,
            AiRouterModelType::AudioTranscriptions => self.audio_transcriptions,
            AiRouterModelType::ChatCompletions => self.chat_completions,
            AiRouterModelType::Embeddings => self.embeddings,
        }
    }

    /// The models of a kind, where the kind is there.
    pub fn get(&self, kind: &AiRouterModelType) -> (r: Option<&Named<AiRouterModel>>)
        ensures
            match r {
                Some(models) => self.of_kind(*kind) == Some(*models),
                None => self.of_kind(*kind) is None,
            },
    {
        match kind {
            AiRouterModelType::AudioSpeech => self.audio_speech.as_ref(),
            AiRouterModelType::AudioTranscriptions => self.audio_transcriptions.as_ref(),
            AiRouterModelType::ChatCompletions => self.chat_completions.as_ref(),
            AiRouterModelType::Embeddings => self.embeddings.as_ref(),
        }
    }

    /// Whether no kind is there.
    pub fn is_empty(&self) -> (r: bool)
        ensures
            r == forall|kind: AiRouterModelType| self.of_kind(kind) is None,
    {
        let r = self.audio_speech.is_none() && self.audio_transcriptions.is_none()
            && self.chat_completions.is_none() && self.embeddings.is_none();
        proof {
            if !r {
                if self.audio_speech is Some {
                    assert(self.of_kind(AiRouterModelType::AudioSpeech) is Some);
                } else if self.audio_transcriptions is Some {
                    assert(self.of_kind(AiRouterModelType::AudioTranscriptions) is Some);
                } else if self.chat_completions is Some {
                    assert(self.of_kind(AiRouterModelType::ChatCompletions) is Some);
                } else {
                    assert(self.of_kind(AiRouterModelType::Embeddings) is Some);
                }
            }
        }
        r
    }
}

/// The kinds of model, in the order in which the rules go through them.
pub fn model_kinds() -> (r: Vec<AiRouterModelType>)
    ensures
        r@ == seq![
            AiRouterModelType::AudioSpeech,
            AiRouterModelType::AudioTranscriptions,
            AiRouterModelType::ChatCompletions,
            AiRouterModelType::Embeddings,
        ],
{
    let mut kinds: Vec<AiRouterModelType> = Vec::new();
    kinds.push(AiRouterModelType::AudioSpeech);
    kinds.push(AiRouterModelType::AudioTranscriptions);
    kinds.push(AiRouterModelType::ChatCompletions);
    kinds.push(AiRouterModelType::Embeddings);
    assert(kinds@ =~= seq![
        AiRouterModelType::AudioSpeech,
        AiRouterModelType::AudioTranscriptions,
        AiRouterModelType::ChatCompletions,
        AiRouterModelType::Embeddings,
    ]);
    kinds
}

/// Whether a flag is set.
pub fn flag_is_set(flag: &Option<bool>) -> (r: bool)
    ensures
        r == is_set(*flag),
{
    match flag {
        Some(b) => *b,
        None => false,
    }
}

/// How many of `models` are the default, counted up to two.
fn count_default_models(models: &Named<AiRouterModel>) -> (r: usize)
    ensures
        r <= 2,
        r < 2 ==> r == default_models(models.values()),
        r == 2 ==> default_models(models.values()) >= 2,
{
    let mut count: usize = 0;
    let mut i: usize = 0;
    assert(models.values().take(0) =~= Seq::<AiRouterModel>::empty());
    while i < models.len()
        invariant
            i <= models.values().len(),
            count <= 2,
            count < 2 ==> count == default_models(models.values().take(i as int)),
            count == 2 ==> default_models(models.values().take(i as int)) >= 2,
        decreases models.values().len() - i,
    {
        proof {
            assert(models.values().take(i + 1).drop_last() =~= models.values().take(i as int));
        }
        if flag_is_set(&models.value_at(i).default) && count < 2 {
            count += 1;
        }
        i += 1;
    }
    assert(models.values().take(i as int) =~= models.values());
    count
}

/// The first of `models` that lacks its backend, where one does.
fn first_without_backend(
    models: &Named<AiRouterModel>,
    backends: &Named<AiRouterBackend>,
    has_default: bool,
) -> (r: Option<usize>)
    ensures
        match r {
            Some(at) => {
                &&& at < models.values().len()
                &&& lacks_backend(models.values()[at as int], backends.names(), has_default)
                &&& forall|k: int|
                    0 <= k < at ==> !lacks_backend(
                        #[trigger] models.values()[k],
                        backends.names(),
                        has_default,
                    )
            },
            None => forall|k: int|
                0 <= k < models.values().len() ==> !lacks_backend(
                    #[trigger] models.values()[k],
                    backends.names(),
                    has_default,
                ),
        },
{
    let mut i: usize = 0;
    while i < models.len()
        invariant
            i <= models.values().len(),
            forall|k: int|
                0 <= k < i ==> !lacks_backend(
                    #[trigger] models.values()[k],
                    backends.names(),
                    has_default,
                ),
        decreases models.values().len() - i,
    {
        let lacks = match &models.value_at(i).backend {
            Some(backend) => !backends.contains_key(backend.as_str()),
            None => !has_default,
        };
        if lacks {
            return Some(i);
        }
        i += 1;
    }
    None
}

impl AiRouterConfigFile {
    /// How many backends are the default.
    pub fn num_default_backends(&self) -> (r: usize)
        ensures
            r == default_backends(self.backends.values()),
    {
        let mut count: usize = 0;
        let mut i: usize = 0;
        assert(self.backends.values().take(0) =~= Seq::<AiRouterBackend>::empty());
        while i < self.backends.len()
            invariant
                i <= self.backends.values().len(),
                count <= i,
                count == default_backends(self.backends.values().take(i as int)),
            decreases self.backends.values().len() - i,
        {
            proof {
                assert(self.backends.values().take(i + 1).drop_last()
                    =~= self.backends.values().take(i as int));
            }
            if flag_is_set(&self.backends.value_at(i).default) {
                count += 1;
            }
            i += 1;
        }
        assert(self.backends.values().take(i as int) =~= self.backends.values());
        count
    }

    /// There must be a backend.
    pub fn check_backends(&self) -> (r: Result<(), ConfigError>)
        ensures
            r is Ok <==> self.backends.names().len() > 0,
            r matches Err(e) ==> e is NoBackends,
    {
        if self.backends.is_empty() {
            return Err(ConfigError::NoBackends);
        }
        Ok(())
    }

    /// At most one backend may be the default.
    pub fn check_default_backends(&self) -> (r: Result<(), ConfigError>)
        ensures
            r is Ok <==> default_backends(self.backends.values()) <= 1,
            r matches Err(e) ==> e is MultipleDefaultBackends,
    {
        if self.num_default_backends() > 1 {
            return Err(ConfigError::MultipleDefaultBackends);
        }
        Ok(())
    }

    /// Whether at most one model of each kind is the default.
    pub open spec fn one_default_model_each(self) -> bool {
        forall|kind: AiRouterModelType| at_most_one_default(#[trigger] self.models.of_kind(kind))
    }

    /// At most one model of each kind may be the default.
    pub fn check_default_models(&self) -> (r: Result<(), ConfigError>)
        ensures
            r is Ok <==> self.one_default_model_each(),
            r matches Err(e) ==> e is MultipleDefaultModels,
    {
        let kinds = model_kinds();
        let mut i: usize = 0;
        while i < kinds.len()
            invariant
                i <= kinds@.len(),
                kinds@ == seq![
                    AiRouterModelType::AudioSpeech,
                    AiRouterModelType::AudioTranscriptions,
                    AiRouterModelType::ChatCompletions,
                    AiRouterModelType::Embeddings,
                ],
                forall|k: int|
                    0 <= k < i ==> at_most_one_default(#[trigger] self.models.of_kind(kinds@[k])),
            decreases kinds@.len() - i,
        {
            if let Some(models) = self.models.get(&kinds[i]) {
                if count_default_models(models) > 1 {
                    assert(!at_most_one_default(self.models.of_kind(kinds@[i as int])));
                    return Err(ConfigError::MultipleDefaultModels);
                }
            }
            i += 1;
        }
        proof {
            assert forall|kind: AiRouterModelType|
                at_most_one_default(#[trigger] self.models.of_kind(kind)) by {
                let k = lemma_every_kind_is_listed(kind);
                assert(at_most_one_default(self.models.of_kind(kinds@[k])));
            }
        }
        Ok(())
    }

    /// Whether a backend is the default.
    pub open spec fn has_default_backend(self) -> bool {
        default_backends(self.backends.values()) >= 1
    }

    /// Whether every model has its backend: the one it names, or the default
    /// where it names none.
    pub open spec fn every_model_has_backend(self) -> bool {
        forall|kind: AiRouterModelType|
            all_have_backend(
                #[trigger] self.models.of_kind(kind),
                self.backends.names(),
                self.has_default_backend(),
            )
    }

    /// Whether the models of every kind before `kind` have their backends.
    pub open spec fn kinds_before_have_backends(self, kind: AiRouterModelType) -> bool {
        forall|earlier: AiRouterModelType|
            kind_rank(earlier) < kind_rank(kind) ==> all_have_backend(
                #[trigger] self.models.of_kind(earlier),
                self.backends.names(),
                self.has_default_backend(),
            )
    }

    /// Whether `e` names the first model without its backend, going through
    /// the kinds in order and through the models of a kind in theirs, and
    /// the backend that is not there where the model names one.
    pub open spec fn is_backend_fault(self, e: ConfigError) -> bool {
        exists|kind: AiRouterModelType, at: int|
            #[trigger] is_fault_of(
                self.models.of_kind(kind),
                at,
                self.backends.names(),
                self.has_default_backend(),
                e,
            ) && self.kinds_before_have_backends(kind)
    }

    /// Every model must have its backend. The error is that of the first
    /// model without one, going through the kinds in order and through the
    /// models of a kind in theirs.
    pub fn check_model_backends(&self) -> (r: Result<(), ConfigError>)
        ensures
            r is Ok <==> self.every_model_has_backend(),
            r matches Err(e) ==> self.is_backend_fault(e),
    {
        let has_default = self.num_default_backends() >= 1;
        let kinds = model_kinds();
        let mut i: usize = 0;
        while i < kinds.len()
            invariant
                i <= kinds@.len(),
                has_default == (default_backends(self.backends.values()) >= 1),
                kinds@ == seq![
                    AiRouterModelType::AudioSpeech,
                    AiRouterModelType::AudioTranscriptions,
                    AiRouterModelType::ChatCompletions,
                    AiRouterModelType::Embeddings,
                ],
                forall|k: int|
                    0 <= k < i ==> all_have_backend(
                        #[trigger] self.models.of_kind(kinds@[k]),
                        self.backends.names(),
                        has_default,
                    ),
            decreases kinds@.len() - i,
        {
            if let Some(models) = self.models.get(&kinds[i]) {
                if let Some(at) = first_without_backend(models, &self.backends, has_default) {
                    proof {
                        models.lemma_one_value_each();
                    }
                    let model_name = models.name_at(at).to_owned();
                    let e = match &models.value_at(at).backend {
                        Some(backend) => ConfigError::UnknownBackend(backend.clone(), model_name),
                        None => ConfigError::NoDefaultBackend(model_name),
                    };
                    proof {
                        let kind = kinds@[i as int];
                        assert(self.models.of_kind(kind) == Some(*models));
                        let found = self.models.of_kind(kind)->0;
                        assert(found == *models);
                        assert(0 <= at < found.values().len());
                        assert(lacks_backend(
                            found.values()[at as int],
                            self.backends.names(),
                            has_default,
                        ));
                        assert(!all_have_backend(
                            self.models.of_kind(kind),
                            self.backends.names(),
                            has_default,
                        ));
                        assert(is_fault_of(
                            self.models.of_kind(kind),
                            at as int,
                            self.backends.names(),
                            self.has_default_backend(),
                            e,
                        ));
                        assert forall|earlier: AiRouterModelType|
                            kind_rank(earlier) < kind_rank(kind) implies all_have_backend(
                            #[trigger] self.models.of_kind(earlier),
                            self.backends.names(),
                            self.has_default_backend(),
                        ) by {
                            let k = lemma_every_kind_is_listed(earlier);
                            assert(kind_rank(kinds@[k]) == k);
                            assert(kind_rank(kinds@[i as int]) == i);
                            assert(all_have_backend(
                                self.models.of_kind(kinds@[k]),
                                self.backends.names(),
                                has_default,
                            ));
                        }
                    }
                    return Err(e);
                }
            }
            i += 1;
        }
        proof {
            assert forall|kind: AiRouterModelType|
                all_have_backend(
                    #[trigger] self.models.of_kind(kind),
                    self.backends.names(),
                    has_default,
                ) by {
                let k = lemma_every_kind_is_listed(kind);
                assert(all_have_backend(
                    self.models.of_kind(kinds@[k]),
                    self.backends.names(),
                    has_default,
                ));
            }
        }
        Ok(())
    }

    /// The templates that the chat models with a prompt format need, in the
    /// order of the models.
    pub fn template_needs(&self) -> (r: Vec<TemplateNeed>)
        ensures
            needs_view(r@) == match self.models.chat_completions {
                Some(models) => needs_of(
                    models.names(),
                    models.values(),
                    self.daemon.template_dir@,
                ),
                None => Seq::empty(),
            },
    {
        let mut needs: Vec<TemplateNeed> = Vec::new();
        assert(needs_view(needs@) =~= Seq::empty());
        if let Some(models) = &self.models.chat_completions {
            proof {
                models.lemma_one_value_each();
            }
            let mut i: usize = 0;
            assert(models.names().take(0) =~= Seq::<Seq<char>>::empty());
            assert(models.values().take(0) =~= Seq::<AiRouterModel>::empty());
            while i < models.len()
                invariant
                    i <= models.values().len(),
                    models.names().len() == models.values().len(),
                    needs_view(needs@) == needs_of(
                        models.names().take(i as int),
                        models.values().take(i as int),
                        self.daemon.template_dir@,
                    ),
                decreases models.values().len() - i,
            {
                let ghost before = needs@;
                proof {
                    assert(models.names().take(i + 1).drop_last() =~= models.names().take(
                        i as int,
                    ));
                    assert(models.values().take(i + 1).drop_last() =~= models.values().take(
                        i as int,
                    ));
                }
                if let Some(format) = &models.value_at(i).prompt_format {
                    let need = TemplateNeed {
                        model: models.name_at(i).to_owned(),
                        chat: template_path(
                            self.daemon.template_dir.as_str(),
                            "/chat/",
                            format.as_str(),
                        ),
                        completions: template_path(
                            self.daemon.template_dir.as_str(),
                            "/completions/",
                            format.as_str(),
                        ),
                    };
                    needs.push(need);
                    assert(needs_view(needs@) =~= needs_view(before).push(
                        (need.model@, need.chat@, need.completions@),
                    ));
                }
                i += 1;
            }
            assert(models.names().take(i as int) =~= models.names());
            assert(models.values().take(i as int) =~= models.values());
        }
        needs
    }

    /// Whether every chat model has the templates of its prompt format among
    /// `present`.
    pub open spec fn has_all_templates(self, present: Seq<Seq<char>>) -> bool {
        self.models.chat_completions matches Some(models) ==> forall|at: int|
            0 <= at < models.values().len() ==> has_templates(
                #[trigger] models.values()[at],
                self.daemon.template_dir@,
                present,
            )
    }

    /// Whether `e` is the error for the first chat model that lacks a
    /// template.
    pub open spec fn is_missing_template(self, present: Seq<Seq<char>>, e: ConfigError) -> bool {
        &&& self.models.chat_completions is Some
        &&& exists|at: int|
            0 <= at < self.models.chat_completions->0.values().len() && #[trigger] is_template_fault(
                self.models.chat_completions->0.values()[at],
                self.models.chat_completions->0.names()[at],
                self.daemon.template_dir@,
                present,
                e,
            ) && has_templates_before(
                self.models.chat_completions->0.values(),
                at,
                self.daemon.template_dir@,
                present,
            )
    }

    /// Every chat model with a prompt format must have its two templates.
    /// `present` holds the paths of the templates that are there. The error
    /// is that of the first model that lacks one.
    pub fn check_templates(&self, present: &Vec<String>) -> (r: Result<(), ConfigError>)
        ensures
            r is Ok <==> self.has_all_templates(paths(present@)),
            r matches Err(e) ==> self.is_missing_template(paths(present@), e),
    {
        if let Some(models) = &self.models.chat_completions {
            proof {
                models.lemma_one_value_each();
            }
            let mut i: usize = 0;
            while i < models.len()
                invariant
                    i <= models.values().len(),
                    models.names().len() == models.values().len(),
                    self.models.chat_completions == Some(*models),
                    forall|at: int|
                        0 <= at < i ==> has_templates(
                            #[trigger] models.values()[at],
                            self.daemon.template_dir@,
                            paths(present@),
                        ),
                decreases models.values().len() - i,
            {
                if let Some(format) = &models.value_at(i).prompt_format {
                    let dir = self.daemon.template_dir.as_str();
                    let path_chat = template_path(dir, "/chat/", format.as_str());
                    if !is_present(present, path_chat.as_str()) {
                        let e = ConfigError::ChatTemplateMissing(
                            models.name_at(i).to_owned(),
                            path_chat,
                        );
                        proof {
                            assert(!has_templates(
                                models.values()[i as int],
                                self.daemon.template_dir@,
                                paths(present@),
                            ));
                            assert(is_template_fault(
                                self.models.chat_completions->0.values()[i as int],
                                self.models.chat_completions->0.names()[i as int],
                                self.daemon.template_dir@,
                                paths(present@),
                                e,
                            ));
                        }
                        return Err(e);
                    }
                    let path_completions = template_path(dir, "/completions/", format.as_str());
                    if !is_present(present, path_completions.as_str()) {
                        let e = ConfigError::CompletionsTemplateMissing(
                            models.name_at(i).to_owned(),
                            path_completions,
                        );
                        proof {
                            assert(!has_templates(
                                models.values()[i as int],
                                self.daemon.template_dir@,
                                paths(present@),
                            ));
                            assert(is_template_fault(
                                self.models.chat_completions->0.values()[i as int],
                                self.models.chat_completions->0.names()[i as int],
                                self.daemon.template_dir@,
                                paths(present@),
                                e,
                            ));
                        }
                        return Err(e);
                    }
                }
                i += 1;
            }
        }
        Ok(())
    }

    /// Whether the configuration keeps every rule, with `present` as the
    /// templates that are there.
    pub open spec fn is_valid(self, present: Seq<Seq<char>>) -> bool {
        &&& self.backends.names().len() > 0
        &&& exists|kind: AiRouterModelType| self.models.of_kind(kind) is Some
        &&& default_backends(self.backends.values()) <= 1
        &&& self.one_default_model_each()
        &&& self.every_model_has_backend()
        &&& self.has_all_templates(present)
    }

    /// Holds the configuration against its rules, in this order: there is a
    /// backend; there is a kind of model; at most one backend is the
    /// default; at most one model of each kind is; every model has its
    /// backend; every chat model has its templates among `present`. The
    /// error is that of the first rule that is broken.
    pub fn validate(&self, present: &Vec<String>) -> (r: Result<(), ConfigError>)
        ensures
            r is Ok <==> self.is_valid(paths(present@)),
            r matches Err(e) ==> {
                if self.backends.names().len() == 0 {
                    e is NoBackends
                } else if !(exists|kind: AiRouterModelType| self.models.of_kind(kind) is Some) {
                    e is NoModels
                } else if default_backends(self.backends.values()) > 1 {
                    e is MultipleDefaultBackends
                } else if !self.one_default_model_each() {
                    e is MultipleDefaultModels
                } else if !self.every_model_has_backend() {
                    self.is_backend_fault(e)
                } else {
                    self.is_missing_template(paths(present@), e)
                }
            },
    {
        match self.check_backends() {
            Err(e) => {
                return Err(e);
            },
            Ok(_) => {},
        }
        match self.check_models() {
            Err(e) => {
                return Err(e);
            },
            Ok(_) => {},
        }
        match self.check_default_backends() {
            Err(e) => {
                return Err(e);
            },
            Ok(_) => {},
        }
        match self.check_default_models() {
            Err(e) => {
                return Err(e);
            },
            Ok(_) => {},
        }
        match self.check_model_backends() {
            Err(e) => {
                return Err(e);
            },
            Ok(_) => {},
        }
        self.check_templates(present)
    }

    /// There must be a kind of model.
    pub fn check_models(&self) -> (r: Result<(), ConfigError>)
        ensures
            r is Ok <==> exists|kind: AiRouterModelType| self.models.of_kind(kind) is Some,
            r matches Err(e) ==> e is NoModels,
    {
        if self.models.is_empty() {
            return Err(ConfigError::NoModels);
        }
        Ok(())
    }
}

} // verus!
