//! The errors that abort a dispatch. Every failure stops the whole batch:
//! no row after the failing one is composed or sent.
use vstd::prelude::*;

verus! {

/// Why a dispatch was aborted.
#[derive(Debug)]
pub enum DispatchError {
    /// The configuration is unusable; carries a description of the defect.
    Config { detail: String },
    /// Neither an HTML nor a text body was given.
    Template,
    /// An address failed to parse after substitution; carries the raw
    /// address template and the parser's diagnostic.
    Address { template: String, detail: String },
    /// A body or related-content file could not be read; carries its path
    /// and, for an inline asset, the content id it was read for.
    File { content_id: Option<String>, path: String },
    /// The operator declined to proceed past an unmatched placeholder.
    Declined,
    /// The transport failed to send; carries the recipients of the failing
    /// message and the underlying cause.
    Send { recipients: String, detail: String },
    /// The data source holds no rows; carries the data path.
    EmptyBatch { data_path: String },
}

/// The single human-readable line that surfaces each error.
pub open spec fn describe_spec(e: &DispatchError) -> Seq<char> {
    match e {
        DispatchError::Config { detail } => "Configuration error: "@ + detail@,
        DispatchError::Template => "Email must have either an HTML or text body"@,
        DispatchError::Address { template, detail } => "Could not parse address "@ + template@
            + ": "@ + detail@,
        DispatchError::File { content_id: Option::Some(id), path } => (
        "Could not read related content file "@ + path@ + " (content id "@ + id@) + ")"@,
        DispatchError::File { content_id: Option::None, path } => "Could not read body file "@
            + path@,
        DispatchError::Declined => "Dispatch canceled"@,
        DispatchError::Send { recipients, detail } => "Error sending email to "@ + recipients@
            + ": "@ + detail@,
        DispatchError::EmptyBatch { data_path } => "No emails to send. Add rows to "@ + data_path@
            + " to send emails."@,
    }
}

impl DispatchError {
    /// Renders the error as its single human-readable line.
    pub fn describe(&self) -> (r: String)
        ensures
            r@ == describe_spec(self),
    {
        match self {
            DispatchError::Config { detail } => {
                let mut line = String::from_str("Configuration error: ");
                line.append(detail.as_str());
                line
            },
            DispatchError::Template => String::from_str(
                "Email must have either an HTML or text body",
            ),
            DispatchError::Address { template, detail } => {
                let mut line = String::from_str("Could not parse address ");
                line.append(template.as_str());
                line.append(": ");
                line.append(detail.as_str());
                line
            },
            DispatchError::File { content_id: Some(id), path } => {
                let mut line = String::from_str("Could not read related content file ");
                line.append(path.as_str());
                line.append(" (content id ");
                line.append(id.as_str());
                line.append(")");
                line
            },
            DispatchError::File { content_id: None, path } => {
                let mut line = String::from_str("Could not read body file ");
                line.append(path.as_str());
                line
            },
            DispatchError::Declined => String::from_str("Dispatch canceled"),
            DispatchError::Send { recipients, detail } => {
                let mut line = String::from_str("Error sending email to ");
                line.append(recipients.as_str());
                line.append(": ");
                line.append(detail.as_str());
                line
            },
            DispatchError::EmptyBatch { data_path } => {
                let mut line = String::from_str("No emails to send. Add rows to ");
                line.append(data_path.as_str());
                line.append(" to send emails.");
                line
            },
        }
    }
}

} // verus!
