//! The syntax tree of a header file.

use vstd::prelude::*;

verus! {

/// The comments of a header file.
#[derive(Debug)]
pub struct Header {
    comments: Vec<Comment>,
}

/// A comment and the line on which it stands.
#[derive(Debug)]
pub struct Comment {
    line: usize,
    text: String,
}

} // verus!
