//! The signature of a function declared outside the program.
use vstd::prelude::*;

verus! {

/// The names and types of the arguments of a function, in order.
#[derive(Debug)]
pub struct Args {
    pub name: Vec<String>,
    pub type_: Vec<String>,
}

/// A function declared outside the program: `extern name(args) -> return_type`.
#[derive(Debug)]
pub struct External {
    pub name: String,
    pub args: Args,
    pub return_type: String,
}

} // verus!
