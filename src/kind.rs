use crate::error::IpcError;
use vstd::prelude::*;
use vstd::string::*;

verus! {

/// The kind of a message.
#[derive(Clone, Copy, Debug, PartialEq, Eq, Structural)]
pub enum MessageKind {
    /// A plaintext message.
    Plaintext,
    /// A markdown message.
    Markdown,
    /// A raw message, that is a binary attachment.
    Raw,
}

/// The kind a textual name denotes, if any.
pub open spec fn kind_named(s: Seq<char>) -> Option<MessageKind> {
    if s == "plaintext"@ || s == "text"@ {
        Some(MessageKind::Plaintext)
    } else if s == "markdown"@ {
        Some(MessageKind::Markdown)
    } else if s == "raw"@ {
        Some(MessageKind::Raw)
    } else {
        None
    }
}

fn same_text(a: &String, b: &str) -> (r: bool)
    ensures
        r == (a@ == b@),
{
    let b = String::from_str(b);
    *a == b
}

impl MessageKind {
    /// Parses a kind name: `plaintext` or `text`, `markdown`, `raw`.
    pub fn try_from(value: String) -> (r: Result<MessageKind, IpcError>)
        ensures
            r == (match kind_named(value@) {
                Some(k) => Ok(k),
                None => Err(IpcError::InvalidInput),
            }),
    {
        if same_text(&value, "plaintext") || same_text(&value, "text") {
            Ok(MessageKind::Plaintext)
        } else if same_text(&value, "markdown") {
            Ok(MessageKind::Markdown)
        } else if same_text(&value, "raw") {
            Ok(MessageKind::Raw)
        } else {
            Err(IpcError::InvalidInput)
        }
    }
}

} // verus!
