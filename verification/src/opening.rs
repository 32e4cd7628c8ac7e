//! What the window says, and what it makes of its document, as it opens on
//! a mix: which of the things it has to report the status line shows, and
//! whether the document starts with unsaved changes.

use vstd::prelude::*;
use crate::document::{Document, DocumentView};
use crate::relinking::Relinking;
use crate::status::{both_said, say_both};
use crate::text::owned;

verus! {

/// What the status line says as the window opens: the last of these that
/// has something to say wins, in this order: why the corrections folder
/// could not be made, the note on keylock, what was said about the library
/// file, and why the library could not be read; and what relinking said
/// stands beside the winner rather than in its place.
pub open spec fn opening_message_of(
    corrections_problem: Option<Seq<char>>,
    keylock_note: Option<Seq<char>>,
    library_message: Seq<char>,
    trouble: Seq<char>,
    relinking_message: Seq<char>,
) -> Seq<char> {
    let first = match corrections_problem {
        Some(problem) => problem,
        None => Seq::empty(),
    };
    let second = match keylock_note {
        Some(note) => note,
        None => first,
    };
    let third = if library_message.len() > 0 {
        library_message
    } else {
        second
    };
    let fourth = if trouble.len() > 0 {
        trouble
    } else {
        third
    };
    both_said(fourth, relinking_message)
}

/// What the status line says as the window opens, as
/// [`opening_message_of`] says.
pub fn opening_message(
    corrections_problem: Option<&str>,
    keylock_note: Option<&str>,
    library_message: &str,
    trouble: &str,
    relinking_message: &str,
) -> (r: String)
    ensures
        r@ == opening_message_of(
            match corrections_problem {
                Some(p) => Some(p@),
                None => None,
            },
            match keylock_note {
                Some(n) => Some(n@),
                None => None,
            },
            library_message@,
            trouble@,
            relinking_message@,
        ),
{
    let mut message = String::new();
    if let Some(problem) = corrections_problem {
        message = owned(problem);
    }
    if let Some(note) = keylock_note {
        message = owned(note);
    }
    if !library_message.is_empty() {
        message = owned(library_message);
    }
    if !trouble.is_empty() {
        message = owned(trouble);
    }
    say_both(message.as_str(), relinking_message)
}

/// The document the window opens with, after relinking: a track pointed at
/// a new file is a document that no longer says what its file says, so the
/// document then has unsaved changes, which a save keeps; otherwise it is as
/// it was.
pub fn opened_document(document: Document, relinking: &Relinking) -> (r: Document)
    ensures
        r@ == (if relinking.relinked {
            DocumentView { unsaved: true, ..document@ }
        } else {
            document@
        }),
{
    let mut document = document;
    if relinking.relinked {
        document.edited();
    }
    document
}

} // verus!
