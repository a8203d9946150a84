//! A lexical scanner for a CUE-like configuration language.
//!
//! The scanner turns a text into the sequence of its tokens. What it returns
//! is stated over a mathematical model of the lexical grammar, in
//! [`grammar`], and proved for every input.

use vstd::prelude::*;

pub mod chars;
pub mod error;
pub mod grammar;
pub mod lexer;
pub mod text;
pub mod theorems;
pub mod token;

verus! {

/// The sum of two sizes.
pub fn add(left: usize, right: usize) -> (sum: usize)
    requires
        left + right <= usize::MAX,
    ensures
        sum == left + right,
{
    left + right
}

} // verus!
