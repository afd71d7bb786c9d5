//! Errors of the router and the envelope a client receives for each.

use crate::text::to_decimal;
use crate::text::decimal;
use std::str::Utf8Error;
use vstd::prelude::*;
use vstd::string::*;

verus! {

/// Machine-readable cause in an error envelope.
#[derive(Debug, Clone, Copy, PartialEq, Eq, Structural)]
pub enum OpenAIErrorCode {
    InvalidApiKey,
    ModelNotFound,
    UnknownUrl,
}

/// Class of an error in an error envelope.
#[derive(Debug, Clone, Copy, PartialEq, Eq, Structural)]
pub enum OpenAIErrorType {
    InternalServerError,
    InvalidRequestError,
    Undefined,
}

impl Default for OpenAIErrorType {
    fn default() -> (r: Self)
        ensures
            r == OpenAIErrorType::Undefined,
    {
        OpenAIErrorType::Undefined
    }
}

/// The error envelope of the OpenAI API.
#[derive(Debug)]
pub struct OpenAIError {
    pub error: OpenAIErrorData,
}

/// What an error envelope carries.
#[derive(Debug)]
pub struct OpenAIErrorData {
    pub code: Option<OpenAIErrorCode>,
    pub message: String,
    pub param: Option<String>,
    pub error_type: OpenAIErrorType,
}

/// An envelope together with the HTTP status it is sent under.
#[derive(Debug)]
pub struct ErrorResponse {
    pub status: u16,
    pub body: OpenAIError,
}

/// Why a request could not be served.
#[derive(Debug)]
pub enum AiRouterError {
    /// The request asks for something the backend at hand does not offer.
    BadRequestError(String),
    /// The prompt of the named model has more tokens than the model's limit
    /// (the second field) admits; the third field is the count observed.
    InputExceededError(String, usize, usize),
    /// The router or its backend failed.
    InternalServerError(String),
    /// No model of that name is configured.
    ModelNotFound(String),
    /// No route answers that method and URI.
    UnknownUrl(String, String),
    /// An envelope that an OpenAI backend sent, passed on as it came.
    WrappedOpenAi(OpenAIError),
}

/// The message of the envelope for a prompt of `count` tokens sent to `model`,
/// which admits `max_input`.
pub open spec fn input_exceeded_message(model: Seq<char>, max_input: nat, count: nat) -> Seq<char> {
    "Input for model `"@ + model + "` has "@ + decimal(count) + " tokens, the limit is "@ + decimal(
        max_input,
    ) + "."@
}

/// The message of the envelope for a model that is not configured.
pub open spec fn model_not_found_message(model: Seq<char>) -> Seq<char> {
    "The model `"@ + model + "` does not exist."@
}

/// The message of the envelope for a request that no route answers.
pub open spec fn unknown_url_message(method: Seq<char>, uri: Seq<char>) -> Seq<char> {
    "Unknown request URL: "@ + method + " "@ + uri + ". Please check the URL for typos."@
}

/// `Debug` formatting of `std::str::Utf8Error`, which says where the bytes
/// stop being UTF-8. Nothing is claimed of the text.
#[verifier::external_body]
pub(crate) fn utf8_error_text(e: &Utf8Error) -> String {
    format!("{e:?}")
}

impl AiRouterError {
    /// The HTTP status under which this error reaches the client.
    pub open spec fn status(self) -> u16 {
        match self {
            AiRouterError::BadRequestError(_) => 400,
            AiRouterError::InputExceededError(_, _, _) => 400,
            AiRouterError::InternalServerError(_) => 500,
            AiRouterError::ModelNotFound(_) => 404,
            AiRouterError::UnknownUrl(_, _) => 404,
            AiRouterError::WrappedOpenAi(_) => 500,
        }
    }

    /// The cause named in this error's envelope.
    pub open spec fn code(self) -> Option<OpenAIErrorCode> {
        match self {
            AiRouterError::ModelNotFound(_) => Some(OpenAIErrorCode::ModelNotFound),
            AiRouterError::UnknownUrl(_, _) => Some(OpenAIErrorCode::UnknownUrl),
            AiRouterError::WrappedOpenAi(e) => e.error.code,
            _ => None,
        }
    }

    /// The class named in this error's envelope.
    pub open spec fn error_type(self) -> OpenAIErrorType {
        match self {
            AiRouterError::InternalServerError(_) => OpenAIErrorType::InternalServerError,
            AiRouterError::WrappedOpenAi(e) => e.error.error_type,
            _ => OpenAIErrorType::InvalidRequestError,
        }
    }

    /// The message of this error's envelope.
    pub open spec fn message(self) -> Seq<char> {
        match self {
            AiRouterError::BadRequestError(msg) => msg@,
            AiRouterError::InputExceededError(model, max_input, count) => input_exceeded_message(
                model@,
                max_input as nat,
                count as nat,
            ),
            AiRouterError::InternalServerError(msg) => msg@,
            AiRouterError::ModelNotFound(model) => model_not_found_message(model@),
            AiRouterError::UnknownUrl(method, uri) => unknown_url_message(method@, uri@),
            AiRouterError::WrappedOpenAi(e) => e.error.message@,
        }
    }

    /// The uniform envelope for this error and the status it is sent under.
    /// An envelope from an OpenAI backend is passed on unchanged, under status
    /// 500; every other envelope names no parameter.
    pub fn into_response(self) -> (r: ErrorResponse)
        ensures
            r.status == self.status(),
            r.body.error.code == self.code(),
            r.body.error.error_type == self.error_type(),
            r.body.error.message@ == self.message(),
            match self {
                AiRouterError::WrappedOpenAi(e) => r.body == e,
                _ => r.body.error.param is None,
            },
    {
        match self {
            AiRouterError::BadRequestError(msg) => ErrorResponse {
                status: 400,
                body: OpenAIError {
                    error: OpenAIErrorData {
                        code: None,
                        message: msg,
                        param: None,
                        error_type: OpenAIErrorType::InvalidRequestError,
                    },
                },
            },
            AiRouterError::InputExceededError(model, max_input, count) => {
                let mut message = String::new();
                message.append("Input for model `");
                message.append(model.as_str());
                message.append("` has ");
                message.append(to_decimal(count).as_str());
                message.append(" tokens, the limit is ");
                message.append(to_decimal(max_input).as_str());
                message.append(".");
                assert(message@ =~= input_exceeded_message(model@, max_input as nat, count as nat));
                ErrorResponse {
                    status: 400,
                    body: OpenAIError {
                        error: OpenAIErrorData {
                            code: None,
                            message,
                            param: None,
                            error_type: OpenAIErrorType::InvalidRequestError,
                        },
                    },
                }
            },
            AiRouterError::InternalServerError(msg) => ErrorResponse {
                status: 500,
                body: OpenAIError {
                    error: OpenAIErrorData {
                        code: None,
                        message: msg,
                        param: None,
                        error_type: OpenAIErrorType::InternalServerError,
                    },
                },
            },
            AiRouterError::ModelNotFound(model) => {
                let mut message = String::new();
                message.append("The model `");
                message.append(model.as_str());
                message.append("` does not exist.");
                assert(message@ =~= model_not_found_message(model@));
                ErrorResponse {
                    status: 404,
                    body: OpenAIError {
                        error: OpenAIErrorData {
                            code: Some(OpenAIErrorCode::ModelNotFound),
                            message,
                            param: None,
                            error_type: OpenAIErrorType::InvalidRequestError,
                        },
                    },
                }
            },
            AiRouterError::UnknownUrl(method, uri) => {
                let mut message = String::new();
                message.append("Unknown request URL: ");
                message.append(method.as_str());
                message.append(" ");
                message.append(uri.as_str());
                message.append(". Please check the URL for typos.");
                assert(message@ =~= unknown_url_message(method@, uri@));
                ErrorResponse {
                    status: 404,
                    body: OpenAIError {
                        error: OpenAIErrorData {
                            code: Some(OpenAIErrorCode::UnknownUrl),
                            message,
                            param: None,
                            error_type: OpenAIErrorType::InvalidRequestError,
                        },
                    },
                }
            },
            AiRouterError::WrappedOpenAi(error) => ErrorResponse { status: 500, body: error },
        }
    }
}

} // verus!
