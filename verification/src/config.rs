//! The immutable per-run description of a dispatch: credential identity,
//! address templates, subject template, body and data references, inline
//! content, and relay host.
use vstd::prelude::*;

use crate::error::DispatchError;

verus! {

/// One or more address templates for a recipient class. An absent class is
/// the enclosing `Option` being `None`, not an empty list.
pub enum Recipients {
    Individual(String),
    Multiple(Vec<String>),
}

/// An inline asset referenced from the HTML body by content id: its id, its
/// MIME type, and the template of the path to its file.
pub struct RelatedContentConfig {
    pub content_id: String,
    pub mime_type: String,
    pub path: String,
}

/// The configuration of one dispatch run, read once and never mutated.
pub struct DispatchConfig {
    pub username: String,
    pub from: Option<String>,
    pub reply_to: Option<String>,
    pub to: Option<Recipients>,
    pub cc: Option<Recipients>,
    pub bcc: Option<Recipients>,
    pub subject: String,
    pub data_path: String,
    pub body_html_path: Option<String>,
    pub body_text_path: Option<String>,
    pub related_content: Option<Vec<RelatedContentConfig>>,
    pub server: String,
}

/// The sender address template a configuration resolves: its `from` when
/// one is configured, its `username` otherwise.
pub open spec fn from_template_spec(c: &DispatchConfig) -> Seq<char> {
    match c.from {
        Some(f) => f@,
        None => c.username@,
    }
}

impl DispatchConfig {
    /// The relay used when the configuration names none.
    pub fn default_server() -> (s: String)
        ensures
            s@ == "smtp.gmail.com"@,
    {
        String::from_str("smtp.gmail.com")
    }

    /// The sender address template: the configured `from`, or the username
    /// when none is configured.
    pub fn from_template(&self) -> (r: &String)
        ensures
            r@ == from_template_spec(self),
    {
        match &self.from {
            Some(f) => f,
            None => &self.username,
        }
    }

    /// Interprets the single-body form of a configuration: the tag
    /// `"html"` routes the body file to the HTML branch, `"text"` to the
    /// plain-text branch, and any other tag is a configuration defect.
    pub fn classify_body(body_path: String, content_type: &str) -> (r: Result<
        (Option<String>, Option<String>),
        DispatchError,
    >)
        ensures
            r is Ok <==> (content_type@ == "html"@ || content_type@ == "text"@),
            content_type@ == "html"@ ==> (r matches Ok(p) && p.0 == Some(body_path) && p.1
                is None),
            content_type@ == "text"@ ==> (r matches Ok(p) && p.0 is None && p.1 == Some(
                body_path,
            )),
            r is Err ==> (r->Err_0 matches DispatchError::Config { detail } && detail@
                == "Invalid content_type: "@ + content_type@),
    {
        proof {
            reveal_strlit("html");
            reveal_strlit("text");
            assert("html"@[0] == 'h');
            assert("text"@[0] == 't');
            assert("html"@ != "text"@);
        }
        let tag = String::from_str(content_type);
        if tag == String::from_str("html") {
            Ok((Some(body_path), None))
        } else if tag == String::from_str("text") {
            Ok((None, Some(body_path)))
        } else {
            let mut detail = String::from_str("Invalid content_type: ");
            detail.append(content_type);
            Err(DispatchError::Config { detail })
        }
    }

    /// Rejects a configuration whose credential identity is empty.
    pub fn check_username(&self) -> (r: Result<(), DispatchError>)
        ensures
            r is Ok <==> self.username@.len() != 0,
            r is Err ==> (r->Err_0 matches DispatchError::Config { detail } && detail@
                == "Username missing from config"@),
    {
        if self.username.as_str().is_empty() {
            Err(
                DispatchError::Config {
                    detail: String::from_str("Username missing from config"),
                },
            )
        } else {
            Ok(())
        }
    }
}

} // verus!
