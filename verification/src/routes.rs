//! Finding the model and the backend for a request.

use crate::config::{
    flag_is_set, is_set, AiRouterBackend, AiRouterConfigFile, AiRouterModel, AiRouterModelType,
};
use crate::errors::AiRouterError;
use crate::names::Named;
use crate::text::str_eq;
use crate::utils::{file_extension, get_file_extension, no_extension_message};
use vstd::prelude::*;
use vstd::string::*;

verus! {

/// The key under which the client of the default backend is kept.
pub const DEFAULT_BACKEND: &'static str = "default";

/// Where a request goes.
#[derive(Debug)]
pub struct Route<'a> {
    /// The model as configured.
    pub model: &'a AiRouterModel,
    /// The key of the backend's client: the backend that the model names,
    /// else the default backend.
    pub backend: String,
    /// The model's name in the request to the backend: the name under which
    /// the backend knows it, else the name that the client wrote.
    pub request_model: String,
}

/// The model called `name` among the models of a kind, where the kind is
/// there and has it.
pub open spec fn model_named(
    config: AiRouterConfigFile,
    kind: AiRouterModelType,
    name: Seq<char>,
) -> Option<AiRouterModel> {
    match config.models.of_kind(kind) {
        Some(models) => models.value_of(name),
        None => None,
    }
}

/// The route for a request of a kind to the model that the client calls
/// `name`. A model that is not configured for the kind is not found.
pub fn route<'a>(config: &'a AiRouterConfigFile, kind: &AiRouterModelType, name: &str) -> (r: Result<
    Route<'a>,
    AiRouterError,
>)
    ensures
        match r {
            Ok(route) => {
                &&& model_named(*config, *kind, name@) == Some(*route.model)
                &&& route.backend@ == match route.model.backend {
                    Some(backend) => backend@,
                    None => DEFAULT_BACKEND@,
                }
                &&& route.request_model@ == match route.model.backend_model {
                    Some(backend_model) => backend_model@,
                    None => name@,
                }
            },
            Err(e) => model_named(*config, *kind, name@) is None && (e matches AiRouterError::ModelNotFound(
                m,
            ) && m@ == name@),
        },
{
    if let Some(models) = config.models.get(kind) {
        if let Some(model) = models.get(name) {
            let backend = match &model.backend {
                Some(backend) => backend.clone(),
                None => DEFAULT_BACKEND.to_owned(),
            };
            let request_model = match &model.backend_model {
                Some(backend_model) => backend_model.clone(),
                None => name.to_owned(),
            };
            return Ok(Route { model, backend, request_model });
        }
    }
    Err(AiRouterError::ModelNotFound(name.to_owned()))
}

/// The message of the error for a route to a backend without a client.
pub open spec fn backend_not_found_message(backend: Seq<char>) -> Seq<char> {
    "backend "@ + backend + " not found"@
}

/// The error for a route to a backend without a client.
pub fn backend_not_found(backend: &str) -> (r: AiRouterError)
    ensures
        r matches AiRouterError::InternalServerError(m) && m@ == backend_not_found_message(
            backend@,
        ),
{
    let mut message = String::new();
    message.append("backend ");
    message.append(backend);
    message.append(" not found");
    assert(message@ =~= backend_not_found_message(backend@));
    AiRouterError::InternalServerError(message)
}

/// The keys under which the clients of the backends are kept, each with the
/// position of its backend, in the order in which the clients are made: a
/// backend under its name and, where it is the default, under the key of the
/// default backend as well.
pub open spec fn client_keys(names: Seq<Seq<char>>, backends: Seq<AiRouterBackend>) -> Seq<
    (Seq<char>, int),
>
    decreases backends.len(),
{
    if backends.len() == 0 || names.len() != backends.len() {
        Seq::empty()
    } else {
        let head = client_keys(names.drop_last(), backends.drop_last());
        let own = head.push((names.last(), backends.len() - 1));
        if is_set(backends.last().default) {
            own.push((DEFAULT_BACKEND@, backends.len() - 1))
        } else {
            own
        }
    }
}

/// What a list of keys holds.
pub open spec fn keys_view(keys: Seq<(String, usize)>) -> Seq<(Seq<char>, int)> {
    keys.map_values(|k: (String, usize)| (k.0@, k.1 as int))
}

/// The keys under which the clients of the backends are to be kept: see
/// [`client_keys`].
pub fn backend_keys(config: &AiRouterConfigFile) -> (r: Vec<(String, usize)>)
    ensures
        keys_view(r@) == client_keys(config.backends.names(), config.backends.values()),
{
    let backends = &config.backends;
    let mut keys: Vec<(String, usize)> = Vec::new();
    let mut i: usize = 0;
    proof {
        backends.lemma_one_value_each();
        assert(backends.names().take(0) =~= Seq::<Seq<char>>::empty());
        assert(backends.values().take(0) =~= Seq::<AiRouterBackend>::empty());
        assert(keys_view(keys@) =~= Seq::empty());
    }
    while i < backends.len()
        invariant
            i <= backends.values().len(),
            backends.names().len() == backends.values().len(),
            keys_view(keys@) == client_keys(
                backends.names().take(i as int),
                backends.values().take(i as int),
            ),
        decreases backends.values().len() - i,
    {
        let ghost before = keys@;
        proof {
            assert(backends.names().take(i + 1).drop_last() =~= backends.names().take(i as int));
            assert(backends.values().take(i + 1).drop_last() =~= backends.values().take(i as int));
        }
        keys.push((backends.name_at(i).to_owned(), i));
        let ghost own = keys@;
        assert(keys_view(own) =~= keys_view(before).push((backends.names()[i as int], i as int)));
        if flag_is_set(&backends.value_at(i).default) {
            keys.push((DEFAULT_BACKEND.to_owned(), i));
            assert(keys_view(keys@) =~= keys_view(own).push((DEFAULT_BACKEND@, i as int)));
        }
        i += 1;
    }
    proof {
        assert(backends.names().take(i as int) =~= backends.names());
        assert(backends.values().take(i as int) =~= backends.values());
    }
    keys
}

/// Whether audio in a file with that extension can be transcribed.
pub open spec fn is_supported_extension(extension: Seq<char>) -> bool {
    ||| extension == "flac"@
    ||| extension == "m4a"@
    ||| extension == "mp3"@
    ||| extension == "mp4"@
    ||| extension == "mpeg"@
    ||| extension == "mpga"@
    ||| extension == "ogg"@
    ||| extension == "ogm"@
    ||| extension == "wav"@
    ||| extension == "webm"@
}

/// The message of the error for audio in a file with that extension.
pub open spec fn extension_message(extension: Seq<char>) -> Seq<char> {
    "extension \""@ + extension + "\" not supported"@
}

/// Whether audio in the file called `filename` can be transcribed: its
/// extension must be one of those the API knows.
pub fn is_audio_format_supported(filename: &str) -> (r: Result<(), AiRouterError>)
    ensures
        r is Ok <==> (file_extension(filename@) matches Some(extension) && is_supported_extension(
            extension,
        )),
        r matches Err(e) ==> (e matches AiRouterError::InternalServerError(m) && m@
            == match file_extension(filename@) {
            Some(extension) => extension_message(extension),
            None => no_extension_message(filename@),
        }),
{
    let extension = match get_file_extension(filename) {
        Ok(extension) => extension,
        Err(e) => {
            return Err(e);
        },
    };
    let e = extension.as_str();
    let supported = str_eq(e, "flac") || str_eq(e, "m4a") || str_eq(e, "mp3") || str_eq(e, "mp4")
        || str_eq(e, "mpeg") || str_eq(e, "mpga") || str_eq(e, "ogg") || str_eq(e, "ogm")
        || str_eq(e, "wav") || str_eq(e, "webm");
    if !supported {
        let mut message = String::new();
        message.append("extension \"");
        message.append(e);
        message.append("\" not supported");
        assert(message@ =~= extension_message(extension@));
        return Err(AiRouterError::InternalServerError(message));
    }
    Ok(())
}

/// A model as the list of models shows it.
#[derive(Debug)]
pub struct Model {
    pub id: String,
    pub created: u32,
    pub object: String,
    pub owned_by: String,
}

/// The list of models.
#[derive(Debug)]
pub struct ListModelResponse {
    pub object: String,
    pub data: Vec<Model>,
}

/// The time of creation that every model is listed with.
pub const MODELS_CREATED: u32 = 1_700_000_000;

/// The names of the models of all kinds, kind by kind.
pub open spec fn model_names(config: AiRouterConfigFile) -> Seq<Seq<char>> {
    names_of(config.models.audio_speech) + names_of(config.models.audio_transcriptions) + names_of(
        config.models.chat_completions,
    ) + names_of(config.models.embeddings)
}

/// The names of the models of a kind; none where the kind is not there.
pub open spec fn names_of(models: Option<Named<AiRouterModel>>) -> Seq<Seq<char>> {
    match models {
        Some(models) => models.names(),
        None => Seq::empty(),
    }
}

/// Whether `model` is the entry of the list for the model called `name`.
pub open spec fn is_listed_as(model: Model, name: Seq<char>) -> bool {
    &&& model.id@ == name
    &&& model.created == MODELS_CREATED
    &&& model.object@ == "model"@
    &&& model.owned_by@ == "original owners"@
}

fn list_kind(models: &Option<Named<AiRouterModel>>, data: &mut Vec<Model>)
    ensures
        final(data)@.len() == old(data)@.len() + names_of(*models).len(),
        forall|k: int| 0 <= k < old(data)@.len() ==> final(data)@[k] == old(data)@[k],
        forall|k: int|
            0 <= k < names_of(*models).len() ==> is_listed_as(
                #[trigger] final(data)@[old(data)@.len() + k],
                names_of(*models)[k],
            ),
{
    if let Some(models) = models {
        let ghost before = data@;
        let mut i: usize = 0;
        while i < models.len()
            invariant
                i <= models.names().len(),
                data@.len() == before.len() + i,
                forall|k: int| 0 <= k < before.len() ==> data@[k] == before[k],
                forall|k: int|
                    0 <= k < i ==> is_listed_as(
                        #[trigger] data@[before.len() + k],
                        models.names()[k],
                    ),
            decreases models.names().len() - i,
        {
            data.push(
                Model {
                    id: models.name_at(i).to_owned(),
                    created: MODELS_CREATED,
                    object: "model".to_owned(),
                    owned_by: "original owners".to_owned(),
                },
            );
            i += 1;
        }
    }
}

/// The list of the models of all kinds, kind by kind. A model that serves
/// two kinds is listed twice.
pub fn get(config: &AiRouterConfigFile) -> (r: ListModelResponse)
    ensures
        r.object@ == "list"@,
        r.data@.len() == model_names(*config).len(),
        forall|k: int|
            0 <= k < r.data@.len() ==> is_listed_as(#[trigger] r.data@[k], model_names(*config)[k]),
{
    let mut data: Vec<Model> = Vec::new();
    list_kind(&config.models.audio_speech, &mut data);
    list_kind(&config.models.audio_transcriptions, &mut data);
    list_kind(&config.models.chat_completions, &mut data);
    list_kind(&config.models.embeddings, &mut data);
    proof {
        let a = names_of(config.models.audio_speech);
        let b = names_of(config.models.audio_transcriptions);
        let c = names_of(config.models.chat_completions);
        let d = names_of(config.models.embeddings);
        assert forall|k: int| 0 <= k < data@.len() implies is_listed_as(
            #[trigger] data@[k],
            model_names(*config)[k],
        ) by {
            if k < a.len() {
                assert(is_listed_as(data@[0 + k], a[k]));
            } else if k < a.len() + b.len() {
                assert(is_listed_as(data@[a.len() + (k - a.len())], b[k - a.len()]));
            } else if k < a.len() + b.len() + c.len() {
                assert(is_listed_as(
                    data@[a.len() + b.len() + (k - a.len() - b.len())],
                    c[k - a.len() - b.len()],
                ));
            } else {
                assert(is_listed_as(
                    data@[a.len() + b.len() + c.len() + (k - a.len() - b.len() - c.len())],
                    d[k - a.len() - b.len() - c.len()],
                ));
            }
        }
    }
    ListModelResponse { object: "list".to_owned(), data }
}

} // verus!
