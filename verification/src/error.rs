//! Why a text cannot be scanned.

use vstd::prelude::*;

verus! {

/// A lexical error. Positions count characters from the start of the text.
#[derive(PartialEq, Debug)]
pub enum LexError {
    /// A decimal integer of more than one character that starts with `0`:
    /// its text, and where it starts.
    LeadingZero { text: String, position: usize },
    /// A character that starts no token and is not white space.
    UnexpectedCharacter { character: char, position: usize },
}

/// The model of a [`LexError`].
pub ghost enum LexErrorView {
    LeadingZero { text: Seq<char>, position: int },
    UnexpectedCharacter { character: char, position: int },
}

impl View for LexError {
    type V = LexErrorView;

    open spec fn view(&self) -> LexErrorView {
        match *self {
            LexError::LeadingZero { text, position } => LexErrorView::LeadingZero {
                text: text@,
                position: position as int,
            },
            LexError::UnexpectedCharacter {
                character,
                position,
            } => LexErrorView::UnexpectedCharacter { character, position: position as int },
        }
    }
}

impl LexErrorView {
    /// Where in the text the error lies.
    pub open spec fn position(self) -> int {
        match self {
            LexErrorView::LeadingZero { position, .. } => position,
            LexErrorView::UnexpectedCharacter { position, .. } => position,
        }
    }
}

impl LexError {
    /// Where in the text the error lies.
    pub fn position(&self) -> (position: usize)
        ensures
            position == self@.position(),
    {
        match self {
            LexError::LeadingZero { position, .. } => *position,
            LexError::UnexpectedCharacter { position, .. } => *position,
        }
    }
}

impl Clone for LexError {
    fn clone(&self) -> (copy: Self)
        ensures
            copy@ == self@,
    {
        match self {
            LexError::LeadingZero { text, position } => LexError::LeadingZero {
                text: text.clone(),
                position: *position,
            },
            LexError::UnexpectedCharacter {
                character,
                position,
            } => LexError::UnexpectedCharacter { character: *character, position: *position },
        }
    }
}

} // verus!
