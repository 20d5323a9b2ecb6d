//! Errors of applying updates, and their texts.
use datafusion_common::DataFusionError;
use vstd::prelude::*;

verus! {

/// Why an update could not be applied.
#[derive(Debug, PartialEq, Eq)]
pub enum ApplyError {
    /// The update does not fit the table metadata.
    Plan(String),
    /// The update is not supported.
    NotImplemented(String),
}

/// The model of an [`ApplyError`].
pub enum ApplyErrorView {
    Plan(Seq<char>),
    NotImplemented(Seq<char>),
}

impl DeepView for ApplyError {
    type V = ApplyErrorView;

    open spec fn deep_view(&self) -> ApplyErrorView {
        match self {
            ApplyError::Plan(message) => ApplyErrorView::Plan(message@),
            ApplyError::NotImplemented(message) => ApplyErrorView::NotImplemented(message@),
        }
    }
}

/// The text of an error: what kind it is, then its message.
pub open spec fn error_text(error: ApplyErrorView) -> Seq<char> {
    match error {
        ApplyErrorView::Plan(message) => "Error during planning: "@ + message,
        ApplyErrorView::NotImplemented(message) => "This feature is not implemented: "@ + message,
    }
}

/// The text that the `Display` impl of `datafusion_common::DataFusionError` gives to the variant
/// `Plan`: a fixed prefix, then the message that the variant holds.
#[verifier::external_body]
fn plan_text(message: &str) -> (text: String)
    ensures
        text@ == "Error during planning: "@ + message@,
{
    DataFusionError::Plan(message.to_owned()).to_string()
}

/// The text that the `Display` impl of `datafusion_common::DataFusionError` gives to the variant
/// `NotImplemented`: a fixed prefix, then the message that the variant holds.
#[verifier::external_body]
fn not_implemented_text(message: &str) -> (text: String)
    ensures
        text@ == "This feature is not implemented: "@ + message@,
{
    DataFusionError::NotImplemented(message.to_owned()).to_string()
}

impl ApplyError {
    /// The text of the error, as the query engine shows it.
    pub fn to_string(&self) -> (text: String)
        ensures
            text@ == error_text(self.deep_view()),
            match self {
                ApplyError::Plan(message) => text@ == "Error during planning: "@ + message@,
                ApplyError::NotImplemented(message) => text@ == "This feature is not implemented: "@
                    + message@,
            },
    {
        match self {
            ApplyError::Plan(message) => plan_text(message.as_str()),
            ApplyError::NotImplemented(message) => not_implemented_text(message.as_str()),
        }
    }
}

/// The error of an update that does not fit the table metadata.
pub fn invalid(message: String) -> (error: ApplyError)
    ensures
        error.deep_view() == ApplyErrorView::Plan(message@),
{
    ApplyError::Plan(message)
}

} // verus!
