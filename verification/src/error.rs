use vstd::prelude::*;

use crate::span::Span;

verus! {

/// One line of a diagnostic: its text and, usually, where in the source it
/// points.
#[derive(Debug)]
pub struct Message {
    pub message: String,
    pub location: Option<Span>,
}

/// A parse failure: a primary message plus an ordered list of auxiliary
/// notes, such as the location of an unmatched opening bracket.
#[derive(Debug)]
pub struct Error {
    pub message: Message,
    pub notes: Vec<Message>,
}

/// The mathematical shape of a `Message`: its text as a character sequence.
pub struct MessageView {
    pub message: Seq<char>,
    pub location: Option<Span>,
}

/// The mathematical shape of an `Error`.
pub struct ErrorView {
    pub message: MessageView,
    pub notes: Seq<MessageView>,
}

impl View for Message {
    type V = MessageView;

    open spec fn view(&self) -> MessageView {
        MessageView { message: self.message@, location: self.location }
    }
}

impl View for Error {
    type V = ErrorView;

    open spec fn view(&self) -> ErrorView {
        ErrorView { message: self.message@, notes: self.notes@.map_values(|m: Message| m@) }
    }
}

/// An error with the given primary message and no notes.
pub open spec fn spec_error(text: Seq<char>, location: Span) -> ErrorView {
    ErrorView {
        message: MessageView { message: text, location: Some(location) },
        notes: Seq::empty(),
    }
}

/// An error with the given primary message and one note.
pub open spec fn spec_error_with_note(
    text: Seq<char>,
    location: Span,
    note_text: Seq<char>,
    note_location: Span,
) -> ErrorView {
    ErrorView {
        message: MessageView { message: text, location: Some(location) },
        notes: seq![MessageView { message: note_text, location: Some(note_location) }],
    }
}

pub fn error(location: Span, message: String) -> (e: Error)
    ensures
        e@ == spec_error(message@, location),
{
    let e = Error { message: Message { message, location: Some(location) }, notes: Vec::new() };
    proof {
        assert(e@.notes =~= Seq::<MessageView>::empty());
    }
    e
}

} // verus!
