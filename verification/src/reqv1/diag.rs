//! Diagnostics: what went wrong, where, and how bad it is.

use vstd::prelude::*;

use crate::view::opt_view;

verus! {

broadcast use vstd::string::group_string_axioms;

/// What a diagnostic is about.
#[derive(Debug, Clone, Copy, PartialEq, Eq, Structural)]
pub enum Code {
    InvalidAssetInput,
    AssetNotFound,
    AssetError,
    HttpError,
    PipelineConflict,
    AuthRefresh,
    BindingCycle,
    MissingVariable,
    InvalidPointer,
    InvalidAlias,
    UnsupportedAssetVersion,
}

/// How bad a diagnostic is.
#[derive(Debug, Clone, Copy, PartialEq, Eq, Structural)]
pub enum Severity {
    Error,
    Warning,
    Info,
}

/// A message about a request, with the place it is about.
#[derive(Debug)]
pub struct Diagnostic {
    pub code: Code,
    pub severity: Severity,
    pub message: String,
    /// JSON pointer into the request document.
    pub instance_path: Option<String>,
    /// The asset reference as it was written.
    pub asset_ref: Option<String>,
}

/// What a [`Diagnostic`] says.
pub struct DiagnosticV {
    pub code: Code,
    pub severity: Severity,
    pub message: Seq<char>,
    pub instance_path: Option<Seq<char>>,
    pub asset_ref: Option<Seq<char>>,
}

impl View for Diagnostic {
    type V = DiagnosticV;

    open spec fn view(&self) -> DiagnosticV {
        DiagnosticV {
            code: self.code,
            severity: self.severity,
            message: self.message@,
            instance_path: opt_view(self.instance_path),
            asset_ref: opt_view(self.asset_ref),
        }
    }
}

/// The severity that comes with a code: a conflict is a warning, a refreshed
/// token is worth a note, everything else is an error.
pub open spec fn severity_of(code: Code) -> Severity {
    match code {
        Code::PipelineConflict => Severity::Warning,
        Code::AuthRefresh => Severity::Info,
        _ => Severity::Error,
    }
}

/// A diagnostic without a place.
pub open spec fn diag(code: Code, message: Seq<char>) -> DiagnosticV {
    DiagnosticV { code, severity: severity_of(code), message, instance_path: None, asset_ref: None }
}

impl DiagnosticV {
    /// The same diagnostic about the document place `path`.
    pub open spec fn at(self, path: Seq<char>) -> DiagnosticV {
        DiagnosticV { instance_path: Some(path), ..self }
    }

    /// The same diagnostic about the asset reference `raw`.
    pub open spec fn with_ref(self, raw: Seq<char>) -> DiagnosticV {
        DiagnosticV { asset_ref: Some(raw), ..self }
    }

    /// The same diagnostic as a mere note.
    pub open spec fn info(self) -> DiagnosticV {
        DiagnosticV { severity: Severity::Info, ..self }
    }

    /// Whether the diagnostic is an error.
    pub open spec fn is_error(self) -> bool {
        self.severity == Severity::Error
    }
}

impl Code {
    /// The name of the code in reports.
    pub open spec fn name(self) -> Seq<char> {
        match self {
            Code::InvalidAssetInput => "INVALID_ASSET_INPUT"@,
            Code::AssetNotFound => "ASSET_NOT_FOUND"@,
            Code::AssetError => "ASSET_ERROR"@,
            Code::HttpError => "HTTP_ERROR"@,
            Code::PipelineConflict => "PIPELINE_CONFLICT"@,
            Code::AuthRefresh => "AUTH_REFRESH"@,
            Code::BindingCycle => "BINDING_CYCLE"@,
            Code::MissingVariable => "MISSING_VARIABLE"@,
            Code::InvalidPointer => "INVALID_POINTER"@,
            Code::InvalidAlias => "INVALID_ALIAS"@,
            Code::UnsupportedAssetVersion => "UNSUPPORTED_ASSET_VERSION"@,
        }
    }

    /// The name of the code in reports.
    pub fn as_str(&self) -> (r: &'static str)
        ensures
            r@ == self.name(),
    {
        match self {
            Code::InvalidAssetInput => "INVALID_ASSET_INPUT",
            Code::AssetNotFound => "ASSET_NOT_FOUND",
            Code::AssetError => "ASSET_ERROR",
            Code::HttpError => "HTTP_ERROR",
            Code::PipelineConflict => "PIPELINE_CONFLICT",
            Code::AuthRefresh => "AUTH_REFRESH",
            Code::BindingCycle => "BINDING_CYCLE",
            Code::MissingVariable => "MISSING_VARIABLE",
            Code::InvalidPointer => "INVALID_POINTER",
            Code::InvalidAlias => "INVALID_ALIAS",
            Code::UnsupportedAssetVersion => "UNSUPPORTED_ASSET_VERSION",
        }
    }
}

impl Diagnostic {
    /// A diagnostic without a place, as severe as its code.
    pub fn new(code: Code, message: String) -> (r: Diagnostic)
        ensures
            r@ == diag(code, message@),
    {
        let severity = match code {
            Code::PipelineConflict => Severity::Warning,
            Code::AuthRefresh => Severity::Info,
            _ => Severity::Error,
        };
        Diagnostic { code, severity, message, instance_path: None, asset_ref: None }
    }

    /// The same diagnostic about the document place `path`.
    pub fn at(self, path: &str) -> (r: Diagnostic)
        ensures
            r@ == self@.at(path@),
    {
        let mut d = self;
        d.instance_path = Some(path.to_owned());
        d
    }

    /// The same diagnostic about the asset reference `raw`.
    pub fn with_ref(self, raw: &str) -> (r: Diagnostic)
        ensures
            r@ == self@.with_ref(raw@),
    {
        let mut d = self;
        d.asset_ref = Some(raw.to_owned());
        d
    }

    /// The same diagnostic as a mere note.
    pub fn info(self) -> (r: Diagnostic)
        ensures
            r@ == self@.info(),
    {
        let mut d = self;
        d.severity = Severity::Info;
        d
    }

    /// Whether the diagnostic is an error.
    pub fn is_error(&self) -> (r: bool)
        ensures
            r == self@.is_error(),
    {
        self.severity == Severity::Error
    }

    /// A copy of the diagnostic.
    pub fn copy(&self) -> (r: Diagnostic)
        ensures
            r@ == self@,
    {
        Diagnostic {
            code: self.code,
            severity: self.severity,
            message: self.message.clone(),
            instance_path: copy_text(&self.instance_path),
            asset_ref: copy_text(&self.asset_ref),
        }
    }
}

/// A copy of an optional text.
pub fn copy_text(s: &Option<String>) -> (r: Option<String>)
    ensures
        opt_view(r) == opt_view(*s),
{
    match s {
        Some(s) => Some(s.clone()),
        None => None,
    }
}

} // verus!
