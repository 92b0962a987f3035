use crate::kind::MessageKind;
use crate::names::{kind_of_name, limit_of};
use vstd::prelude::*;

verus! {

/// A message handed from a producer to the consumer.
#[derive(Clone, Debug)]
pub enum Message {
    /// A plaintext message.
    Plaintext {
        /// The text to send.
        text: Vec<u8>,
    },
    /// A markdown message.
    Markdown {
        /// The markdown to send.
        markdown: Vec<u8>,
    },
    /// A binary attachment.
    Raw {
        /// The attachment's file name, without the mailbox extension.
        name: String,
        /// The attachment's contents.
        contents: Vec<u8>,
    },
}

impl Message {
    pub open spec fn kind(&self) -> MessageKind {
        match self {
            Message::Plaintext { .. } => MessageKind::Plaintext,
            Message::Markdown { .. } => MessageKind::Markdown,
            Message::Raw { .. } => MessageKind::Raw,
        }
    }

    /// The payload bytes.
    pub open spec fn payload(&self) -> Seq<u8> {
        match self {
            Message::Plaintext { text } => text@,
            Message::Markdown { markdown } => markdown@,
            Message::Raw { contents, .. } => contents@,
        }
    }
}

/// The logical name of a raw entry: its file name without the four
/// characters of `.raw`.
pub open spec fn logical_name(file_name: Seq<char>) -> Seq<char> {
    file_name.subrange(0, file_name.len() - 4)
}

/// `m` is what the entry named `file_name` with the given contents decodes to.
pub open spec fn decodes_to(file_name: Seq<char>, contents: Seq<u8>, m: Message) -> bool {
    &&& kind_of_name(file_name) == Some(m.kind())
    &&& m.payload() == contents
    &&& (m is Raw ==> m->Raw_name@ == logical_name(file_name))
}

/// An entry named `file_name` whose contents have `len` bytes exceeds its
/// kind's bound.
pub open spec fn oversized(file_name: Seq<char>, len: int) -> bool {
    len > limit_of(kind_of_name(file_name)->0)
}

} // verus!
