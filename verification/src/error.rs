use vstd::prelude::*;

use crate::text::{chars_of, push_all, push_lit, string_of};

verus! {

/// The errors of this crate.
#[derive(Debug)]
pub enum Error {
    /// A processing error, with its message.
    Custom(String),
    /// A CSS selector that does not parse: the selector, and why.
    SelectorParse { selector: String, cause: String },
}

/// The crate's result type.
pub type Result<T> = core::result::Result<T, Error>;

/// The message of an error.
pub open spec fn error_message(e: Error) -> Seq<char> {
    match e {
        Error::Custom(msg) => msg@,
        Error::SelectorParse { selector, cause } => "Selector '"@ + selector@ + "' is invalid. Cause: "@
            + cause@,
    }
}

impl Error {
    /// The message of the error.
    pub fn to_string(&self) -> (r: String)
        ensures
            r@ == error_message(*self),
    {
        match self {
            Error::Custom(msg) => msg.clone(),
            Error::SelectorParse { selector, cause } => {
                let mut out: Vec<char> = Vec::new();
                push_lit(&mut out, "Selector '");
                let s = chars_of(selector.as_str());
                push_all(&mut out, s.as_slice());
                push_lit(&mut out, "' is invalid. Cause: ");
                let c = chars_of(cause.as_str());
                push_all(&mut out, c.as_slice());
                string_of(out.as_slice())
            },
        }
    }
}

} // verus!
