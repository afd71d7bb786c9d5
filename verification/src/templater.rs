//! Naming prompt templates and finishing what they render.
//!
//! The templates themselves are rendered elsewhere. Here it is decided which
//! template a request is rendered with and what becomes of the result.

use crate::errors::AiRouterError;
use vstd::prelude::*;
use vstd::string::*;

verus! {

/// The endpoint that a prompt is rendered for.
#[derive(Debug, Clone, Copy, PartialEq, Eq, Structural)]
pub enum TemplateType {
    ChatCompletion,
    LegacyCompletion,
}

/// The name of the template that renders a prompt as it is.
pub const DEFAULT_COMPLETIONS_TEMPLATE: &'static str = "default_completions";

/// The language of a transcript where the request names none.
pub const DEFAULT_LANGUAGE: &'static str = "en";

/// What stands in the way of a rendered template, with the reason as the
/// renderer gave it.
#[derive(Debug)]
pub enum TemplateFailure {
    /// The default template could not be loaded.
    LoadDefault(String),
    /// The template of that name (first) could not be loaded.
    Load(String, String),
    /// The template could not be rendered.
    Render(String),
}

/// The name of the template for a prompt format and an endpoint; the default
/// template where the model has no prompt format.
pub open spec fn completions_template_name(template: Option<String>, template_type: TemplateType) -> Seq<
    char,
> {
    match template {
        None => DEFAULT_COMPLETIONS_TEMPLATE@,
        Some(template) => match template_type {
            TemplateType::ChatCompletion => "chat/"@ + template@ + ".j2"@,
            TemplateType::LegacyCompletion => "completions/"@ + template@ + ".j2"@,
        },
    }
}

/// The name of the template that a prompt is rendered with: see
/// [`completions_template_name`].
pub fn completions_template(template: &Option<String>, template_type: &TemplateType) -> (r: String)
    ensures
        r@ == completions_template_name(*template, *template_type),
{
    let mut name = String::new();
    match template {
        None => {
            name.append(DEFAULT_COMPLETIONS_TEMPLATE);
            assert(name@ =~= DEFAULT_COMPLETIONS_TEMPLATE@);
        },
        Some(template) => {
            match template_type {
                TemplateType::ChatCompletion => {
                    name.append("chat/");
                },
                TemplateType::LegacyCompletion => {
                    name.append("completions/");
                },
            }
            name.append(template.as_str());
            name.append(".j2");
            assert(name@ =~= completions_template_name(Some(*template), *template_type));
        },
    }
    name
}

/// The name of the template for the text that a transcript begins with.
pub fn transcription_template(template: &str) -> (r: String)
    ensures
        r@ == "transcription/"@ + template@ + ".j2"@,
{
    let mut name = String::new();
    name.append("transcription/");
    name.append(template);
    name.append(".j2");
    assert(name@ =~= "transcription/"@ + template@ + ".j2"@);
    name
}

/// The language that the transcription template is rendered for: the one
/// the request names, else English.
pub fn transcription_language(language: Option<String>) -> (r: String)
    ensures
        r@ == match language {
            Some(language) => language@,
            None => DEFAULT_LANGUAGE@,
        },
{
    match language {
        Some(language) => language,
        None => DEFAULT_LANGUAGE.to_owned(),
    }
}

impl TemplateFailure {
    /// The message of the error for a prompt that could not be rendered.
    pub open spec fn completions_message(self) -> Seq<char> {
        match self {
            TemplateFailure::LoadDefault(reason) => "failed to load default completions template: "@
                + reason@,
            TemplateFailure::Load(name, reason) => "failed to load completions template "@ + name@
                + ": "@ + reason@,
            TemplateFailure::Render(reason) => "failed to render completions template: "@
                + reason@,
        }
    }

    /// The message of the error for a transcription prefix that could not be
    /// rendered.
    pub open spec fn transcription_message(self) -> Seq<char> {
        match self {
            TemplateFailure::LoadDefault(reason) => "failed to load default transcription template: "@
                + reason@,
            TemplateFailure::Load(name, reason) => "failed to load transcription template "@
                + name@ + ": "@ + reason@,
            TemplateFailure::Render(reason) => "failed to render transcription template: "@
                + reason@,
        }
    }

    fn describe(&self, what: &str) -> (r: String)
        ensures
            r@ == match self {
                TemplateFailure::LoadDefault(reason) => "failed to load default "@ + what@
                    + " template: "@ + reason@,
                TemplateFailure::Load(name, reason) => "failed to load "@ + what@ + " template "@
                    + name@ + ": "@ + reason@,
                TemplateFailure::Render(reason) => "failed to render "@ + what@ + " template: "@
                    + reason@,
            },
    {
        let mut text = String::new();
        match self {
            TemplateFailure::LoadDefault(reason) => {
                text.append("failed to load default ");
                text.append(what);
                text.append(" template: ");
                text.append(reason.as_str());
                assert(text@ =~= "failed to load default "@ + what@ + " template: "@ + reason@);
            },
            TemplateFailure::Load(name, reason) => {
                text.append("failed to load ");
                text.append(what);
                text.append(" template ");
                text.append(name.as_str());
                text.append(": ");
                text.append(reason.as_str());
                assert(text@ =~= "failed to load "@ + what@ + " template "@ + name@ + ": "@
                    + reason@);
            },
            TemplateFailure::Render(reason) => {
                text.append("failed to render ");
                text.append(what);
                text.append(" template: ");
                text.append(reason.as_str());
                assert(text@ =~= "failed to render "@ + what@ + " template: "@ + reason@);
            },
        }
        text
    }
}

/// The cue for the assistant that ends every rendered prompt, on a line of
/// its own and with no line break after it.
pub open spec fn assistant_cue() -> Seq<char> {
    "\nASSISTANT:"@
}

/// The prompt for a legacy completion, from what the template rendered: the
/// rendered text with the cue for the assistant behind it. A template that
/// could not be loaded or rendered is an internal error that says so.
pub fn apply_completions(rendered: Result<String, TemplateFailure>) -> (r: Result<
    String,
    AiRouterError,
>)
    ensures
        match (rendered, r) {
            (Ok(text), Ok(prompt)) => prompt@ == text@ + assistant_cue(),
            (Err(failure), Err(e)) => e matches AiRouterError::InternalServerError(m) && m@
                == failure.completions_message(),
            _ => false,
        },
{
    match rendered {
        Ok(text) => {
            let mut prompt = text;
            prompt.append("\nASSISTANT:");
            Ok(prompt)
        },
        Err(failure) => {
            let message = failure.describe("completions");
            proof {
                reveal_strlit("completions");
                reveal_strlit("failed to load default ");
                reveal_strlit("failed to load ");
                reveal_strlit("failed to render ");
                reveal_strlit(" template: ");
                reveal_strlit(" template ");
                reveal_strlit("failed to load default completions template: ");
                reveal_strlit("failed to load completions template ");
                reveal_strlit("failed to render completions template: ");
                assert(message@ =~= failure.completions_message());
            }
            Err(AiRouterError::InternalServerError(message))
        },
    }
}

/// The text that a transcript is to begin with, from what the template
/// rendered: nothing for a model without a prompt format, for which nothing
/// is rendered, and the rendered text otherwise. A template that could not
/// be loaded or rendered is an internal error that says so.
pub fn apply_transcription(rendered: Option<Result<String, TemplateFailure>>) -> (r: Result<
    String,
    AiRouterError,
>)
    ensures
        match (rendered, r) {
            (None, Ok(prefix)) => prefix@.len() == 0,
            (Some(Ok(text)), Ok(prefix)) => prefix == text,
            (Some(Err(failure)), Err(e)) => e matches AiRouterError::InternalServerError(m) && m@
                == failure.transcription_message(),
            _ => false,
        },
{
    match rendered {
        None => Ok(String::new()),
        Some(Ok(text)) => Ok(text),
        Some(Err(failure)) => {
            let message = failure.describe("transcription");
            proof {
                reveal_strlit("transcription");
                reveal_strlit("failed to load default ");
                reveal_strlit("failed to load ");
                reveal_strlit("failed to render ");
                reveal_strlit(" template: ");
                reveal_strlit(" template ");
                reveal_strlit("failed to load default transcription template: ");
                reveal_strlit("failed to load transcription template ");
                reveal_strlit("failed to render transcription template: ");
                assert(message@ =~= failure.transcription_message());
            }
            Err(AiRouterError::InternalServerError(message))
        },
    }
}

} // verus!
