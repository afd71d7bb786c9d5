//! What the router keeps about one request, and the guard on the size of its
//! prompt.

use crate::config::AiRouterModel;
use crate::errors::AiRouterError;
use crate::tokenizers::Tokenizers;
use vstd::prelude::*;
use vstd::string::*;

verus! {

/// What the router keeps about one request while it handles it.
#[derive(Debug)]
pub struct AiRouterRequestData {
    /// How many tokens the model admits in a prompt, where it has a limit.
    pub max_input: Option<usize>,
    /// How many tokens the model generates where the request does not say.
    pub max_tokens: Option<u32>,
    /// The model's name as the client wrote it.
    pub original_model: Option<String>,
    /// How many tokens the prompt was found to have; 0 until it was counted.
    pub prompt_tokens: usize,
    /// The name of the tokenizer that counts the prompt's tokens, where one
    /// is loaded for the model.
    pub tokenizer: Option<String>,
}

/// The name under which a model is reported to the client: the name the
/// client wrote, where it is kept, else the name given.
pub open spec fn shown_model(original_model: Option<String>, model: Seq<char>) -> Seq<char> {
    match original_model {
        Some(name) => name@,
        None => model,
    }
}

/// The message for a model with a limit on its input but no tokenizer.
pub open spec fn tokenizer_missing_message(model: Seq<char>) -> Seq<char> {
    "max_input set for model "@ + model + " but tokenizer is not available"@
}

/// The message for a prompt that the tokenizer could not encode.
pub open spec fn tokenizer_failed_message(model: Seq<char>) -> Seq<char> {
    "max_input set for model "@ + model + " but tokenizer failed to encode the request input"@
}

impl AiRouterRequestData {
    /// Request data that knows nothing yet.
    pub fn new() -> (r: Self)
        ensures
            r.max_input is None,
            r.max_tokens is None,
            r.original_model is None,
            r.prompt_tokens == 0,
            r.tokenizer is None,
    {
        AiRouterRequestData {
            max_input: None,
            max_tokens: None,
            original_model: None,
            prompt_tokens: 0,
            tokenizer: None,
        }
    }

    /// The request data for a request to `model`, which the client called
    /// `model_name`. A model with a limit on its input needs the name of its
    /// tokenizer; the tokenizer itself is there only if it was loaded.
    pub fn build(model: &AiRouterModel, model_name: &str, tokenizers: &Tokenizers) -> (r: Result<
        Self,
        AiRouterError,
    >)
        ensures
            match r {
                Ok(data) => {
                    &&& model.max_input is Some ==> model.hf_model_name is Some
                    &&& data.original_model matches Some(name) && name@ == model_name@
                    &&& data.max_input == model.max_input
                    &&& data.max_tokens == model.max_tokens
                    &&& data.prompt_tokens == 0
                    &&& match data.tokenizer {
                        Some(name) => model.max_input is Some && name@ == model.hf_model_name->0@
                            && tokenizers.holds(name@),
                        None => model.max_input is Some ==> !tokenizers.holds(
                            model.hf_model_name->0@,
                        ),
                    }
                },
                Err(e) => {
                    &&& model.max_input is Some
                    &&& model.hf_model_name is None
                    &&& e matches AiRouterError::InternalServerError(m) && m@
                        == "model parameter max_input requires hf_model_name"@
                },
            },
    {
        let mut request_data = AiRouterRequestData::new();
        request_data.original_model = Some(model_name.to_owned());
        if let Some(max_input) = model.max_input {
            match &model.hf_model_name {
                Some(hf_model_name) => {
                    request_data.max_input = Some(max_input);
                    request_data.tokenizer = Tokenizers::get(tokenizers, hf_model_name.as_str());
                },
                None => {
                    return Err(
                        AiRouterError::InternalServerError(
                            "model parameter max_input requires hf_model_name".to_owned(),
                        ),
                    );
                },
            }
        }
        if let Some(max_tokens) = model.max_tokens {
            request_data.max_tokens = Some(max_tokens);
        }
        Ok(request_data)
    }
}

/// Whether the prompt has to be counted before `check_input_cc` can decide:
/// the model has a limit and a tokenizer.
pub fn needs_token_count(request_data: &AiRouterRequestData) -> (r: bool)
    ensures
        r == (request_data.max_input is Some && request_data.tokenizer is Some),
{
    request_data.max_input.is_some() && request_data.tokenizer.is_some()
}

/// Holds a prompt against the model's limit on its input.
///
/// `encoded` is what the model's tokenizer made of the prompt: the number of
/// tokens, or `None` where it could not encode it. It is looked at only where
/// the model has both a limit and a tokenizer.
///
/// Without a limit the prompt passes. With a limit and no tokenizer, or a
/// prompt that could not be encoded, the guard fails with an internal error.
/// Else the count is recorded in `request_data`, and the prompt passes if and
/// only if the count is within the limit.
pub fn check_input_cc(
    encoded: Option<usize>,
    model: &str,
    request_data: &mut AiRouterRequestData,
) -> (r: Result<(), AiRouterError>)
    ensures
        final(request_data).max_input == old(request_data).max_input,
        final(request_data).max_tokens == old(request_data).max_tokens,
        final(request_data).original_model == old(request_data).original_model,
        final(request_data).tokenizer == old(request_data).tokenizer,
        final(request_data).prompt_tokens == guarded_count(*old(request_data), encoded),
        r is Ok <==> guard_passes(*old(request_data), encoded),
        match r {
            Ok(_) => true,
            Err(e) => guard_failure(
                *old(request_data),
                encoded,
                shown_model(old(request_data).original_model, model@),
                e,
            ),
        },
{
    let model: String = match &request_data.original_model {
        Some(name) => name.clone(),
        None => model.to_owned(),
    };
    if let Some(max_input) = request_data.max_input {
        if request_data.tokenizer.is_some() {
            if let Some(count) = encoded {
                request_data.prompt_tokens = count;
                if count > max_input {
                    return Err(AiRouterError::InputExceededError(model, max_input, count));
                }
                return Ok(());
            }
            let mut message = String::new();
            message.append("max_input set for model ");
            message.append(model.as_str());
            message.append(" but tokenizer failed to encode the request input");
            assert(message@ =~= tokenizer_failed_message(model@));
            return Err(AiRouterError::InternalServerError(message));
        }
        let mut message = String::new();
        message.append("max_input set for model ");
        message.append(model.as_str());
        message.append(" but tokenizer is not available");
        assert(message@ =~= tokenizer_missing_message(model@));
        return Err(AiRouterError::InternalServerError(message));
    }
    Ok(())
}

/// The token count on record after the guard has run: the prompt's, where it
/// was counted, else the one on record before.
pub open spec fn guarded_count(data: AiRouterRequestData, encoded: Option<usize>) -> usize {
    if data.max_input is Some && data.tokenizer is Some && encoded is Some {
        encoded->0
    } else {
        data.prompt_tokens
    }
}

/// Whether the guard lets a prompt pass.
pub open spec fn guard_passes(data: AiRouterRequestData, encoded: Option<usize>) -> bool {
    match data.max_input {
        None => true,
        Some(max_input) => data.tokenizer is Some && encoded is Some && encoded->0 <= max_input,
    }
}

/// Whether `e` is the error with which the guard stops a prompt that it does
/// not let pass, for a model that clients know as `model`.
pub open spec fn guard_failure(
    data: AiRouterRequestData,
    encoded: Option<usize>,
    model: Seq<char>,
    e: AiRouterError,
) -> bool {
    if data.tokenizer is None {
        e matches AiRouterError::InternalServerError(m) && m@ == tokenizer_missing_message(model)
    } else if encoded is None {
        e matches AiRouterError::InternalServerError(m) && m@ == tokenizer_failed_message(model)
    } else {
        e matches AiRouterError::InputExceededError(m, max_input, count) && m@ == model
            && data.max_input == Some(max_input) && count == encoded->0
    }
}

} // verus!
