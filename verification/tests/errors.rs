use ai_router::errors::{
    AiRouterError, OpenAIError, OpenAIErrorCode, OpenAIErrorData, OpenAIErrorType,
};

#[test]
fn internal_errors_are_status_500() {
    let r = AiRouterError::InternalServerError(String::from("boom")).into_response();
    assert_eq!(r.status, 500);
    assert_eq!(r.body.error.code, None);
    assert_eq!(r.body.error.message, "boom");
    assert_eq!(r.body.error.param, None);
    assert_eq!(r.body.error.error_type, OpenAIErrorType::InternalServerError);
}

#[test]
fn bad_requests_are_status_400() {
    let r = AiRouterError::BadRequestError(String::from("no")).into_response();
    assert_eq!(r.status, 400);
    assert_eq!(r.body.error.code, None);
    assert_eq!(r.body.error.message, "no");
    assert_eq!(r.body.error.param, None);
    assert_eq!(r.body.error.error_type, OpenAIErrorType::InvalidRequestError);
}

#[test]
fn exceeded_input_names_model_limit_and_count() {
    let r = AiRouterError::InputExceededError(String::from("llama"), 10, 11).into_response();
    assert_eq!(r.status, 400);
    assert_eq!(r.body.error.code, None);
    assert_eq!(r.body.error.message, "Input for model `llama` has 11 tokens, the limit is 10.");
    assert_eq!(r.body.error.error_type, OpenAIErrorType::InvalidRequestError);
    let r = AiRouterError::InputExceededError(String::new(), 0, usize::MAX).into_response();
    assert_eq!(
        r.body.error.message,
        format!("Input for model `` has {} tokens, the limit is 0.", usize::MAX)
    );
}

#[test]
fn unknown_models_are_status_404() {
    let r = AiRouterError::ModelNotFound(String::from("gpt-x")).into_response();
    assert_eq!(r.status, 404);
    assert_eq!(r.body.error.code, Some(OpenAIErrorCode::ModelNotFound));
    assert_eq!(r.body.error.message, "The model `gpt-x` does not exist.");
    assert_eq!(r.body.error.param, None);
    assert_eq!(r.body.error.error_type, OpenAIErrorType::InvalidRequestError);
}

#[test]
fn unknown_urls_are_status_404() {
    let r = AiRouterError::UnknownUrl(String::from("GET"), String::from("/v1/nope")).into_response();
    assert_eq!(r.status, 404);
    assert_eq!(r.body.error.code, Some(OpenAIErrorCode::UnknownUrl));
    assert_eq!(
        r.body.error.message,
        "Unknown request URL: GET /v1/nope. Please check the URL for typos."
    );
    assert_eq!(r.body.error.error_type, OpenAIErrorType::InvalidRequestError);
}

#[test]
fn wrapped_envelopes_pass_unchanged() {
    let envelope = OpenAIError {
        error: OpenAIErrorData {
            code: Some(OpenAIErrorCode::InvalidApiKey),
            message: String::from("bad key"),
            param: Some(String::from("api_key")),
            error_type: OpenAIErrorType::Undefined,
        },
    };
    let r = AiRouterError::WrappedOpenAi(envelope).into_response();
    assert_eq!(r.status, 500);
    assert_eq!(r.body.error.code, Some(OpenAIErrorCode::InvalidApiKey));
    assert_eq!(r.body.error.message, "bad key");
    assert_eq!(r.body.error.param.as_deref(), Some("api_key"));
    assert_eq!(r.body.error.error_type, OpenAIErrorType::Undefined);
}

#[test]
fn the_default_error_type_is_undefined() {
    assert_eq!(OpenAIErrorType::default(), OpenAIErrorType::Undefined);
}
