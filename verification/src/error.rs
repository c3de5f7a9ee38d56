//! The error taxonomy of the template system, with its model.

use vstd::prelude::*;

verus! {

/// The model of an [`Error`].
#[verifier::ext_equal]
pub enum ErrV {
    Config(Seq<char>),
    Provider { code: Seq<char>, message: Seq<char> },
    InvalidResponse(Seq<char>),
    PromptFileRead(Seq<char>),
    TemplateVariableNotFound(Seq<char>),
    TemplateParsing(Seq<char>),
    RequiredVariablesMissing(Seq<Seq<char>>),
    LocaleNotFound(Seq<char>),
    I18nKeyNotFound { key: Seq<char>, locale: Seq<char> },
}

/// What can go wrong while loading, validating or rendering a template, or
/// while assembling a response.
#[derive(Debug)]
pub enum Error {
    /// A configuration value is missing or malformed.
    Config(String),
    /// A provider reported an error code and message.
    Provider { code: String, message: String },
    /// A response did not have the promised shape.
    InvalidResponse(String),
    /// A template's own source file could not be read.
    PromptFileRead { path: String },
    /// A substituted variable was absent from the context.
    TemplateVariableNotFound { name: String },
    /// The template source is malformed.
    TemplateParsing(String),
    /// Rendering was refused because required variables were absent; every
    /// missing name is listed.
    RequiredVariablesMissing { variables: Vec<String> },
    /// No candidate of the locale fallback chain has data.
    LocaleNotFound { locale: String },
    /// A translation key is absent from the resolved locale.
    I18nKeyNotFound { key: String, locale: String },
}

/// Model of a list of strings.
pub open spec fn strings_view(s: Seq<String>) -> Seq<Seq<char>> {
    Seq::new(s.len(), |i: int| s[i]@)
}

/// Model of a single error.
pub open spec fn err_view(e: Error) -> ErrV {
    match e {
        Error::Config(m) => ErrV::Config(m@),
        Error::Provider { code, message } => ErrV::Provider { code: code@, message: message@ },
        Error::InvalidResponse(m) => ErrV::InvalidResponse(m@),
        Error::PromptFileRead { path } => ErrV::PromptFileRead(path@),
        Error::TemplateVariableNotFound { name } => ErrV::TemplateVariableNotFound(name@),
        Error::TemplateParsing(m) => ErrV::TemplateParsing(m@),
        Error::RequiredVariablesMissing { variables } => ErrV::RequiredVariablesMissing(
            strings_view(variables@),
        ),
        Error::LocaleNotFound { locale } => ErrV::LocaleNotFound(locale@),
        Error::I18nKeyNotFound { key, locale } => ErrV::I18nKeyNotFound {
            key: key@,
            locale: locale@,
        },
    }
}

impl View for Error {
    type V = ErrV;

    open spec fn view(&self) -> ErrV {
        err_view(*self)
    }
}

/// The usual result type of this library.
pub type TplResult<T> = Result<T, Error>;

} // verus!
