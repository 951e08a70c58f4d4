//! Names of values, parameters and types.

pub mod parser;

pub use crate::ir::module::name::parser::parse;

use crate::text::{decimal, push_decimal};
use vstd::prelude::*;
use vstd::string::StringExecFns;

verus! {

/// A name: an identifier or a number.
#[derive(Clone, Debug, PartialEq, Eq, Hash)]
pub enum Name {
    Name(String),
    Number(usize),
}

/// The mathematical value of a `Name`.
pub enum NameView {
    Name(Seq<char>),
    Number(usize),
}

impl View for Name {
    type V = NameView;

    open spec fn view(&self) -> NameView {
        match self {
            Name::Name(text) => NameView::Name(text@),
            Name::Number(n) => NameView::Number(*n),
        }
    }
}

/// The text that the standard library writes for the string `s` when it is
/// formatted for debugging: `s` between double quotes, with the characters
/// escaped that the standard library escapes.
pub uninterp spec fn quoted(s: Seq<char>) -> Seq<char>;

/// `format!` with `{:?}` on a string. The text is named, not described.
#[verifier::external_body]
pub(crate) fn quote(s: &str) -> (text: String)
    ensures
        text@ == quoted(s@),
{
    format!("{:?}", s)
}

impl NameView {
    /// The name as it is written: the identifier, or the number in decimal.
    pub open spec fn text(self) -> Seq<char> {
        match self {
            NameView::Name(text) => text,
            NameView::Number(n) => decimal(n as nat),
        }
    }

    /// The name as it is shown for debugging: the variant, and in
    /// parentheses the quoted identifier or the number in decimal.
    pub open spec fn debug_text(self) -> Seq<char> {
        match self {
            NameView::Name(text) => "Name("@ + quoted(text) + ")"@,
            NameView::Number(n) => "Number("@ + decimal(n as nat) + ")"@,
        }
    }
}

impl Name {
    /// The name as it is written: the identifier, or the number in decimal.
    pub fn to_string(&self) -> (text: String)
        ensures
            text@ == self@.text(),
    {
        let mut text = String::new();
        match self {
            Name::Name(name) => {
                text.append(name.as_str());
                assert(text@ =~= name@);
            },
            Name::Number(n) => {
                push_decimal(&mut text, *n);
                assert(text@ =~= decimal(*n as nat));
            },
        }
        text
    }

    /// The name as it is shown for debugging.
    pub fn debug_string(&self) -> (text: String)
        ensures
            text@ == self@.debug_text(),
    {
        let mut text = String::new();
        match self {
            Name::Name(name) => {
                text.append("Name(");
                let inner = quote(name.as_str());
                text.append(inner.as_str());
                text.append(")");
                assert(text@ =~= "Name("@ + quoted(name@) + ")"@);
            },
            Name::Number(n) => {
                text.append("Number(");
                push_decimal(&mut text, *n);
                text.append(")");
                assert(text@ =~= "Number("@ + decimal(*n as nat) + ")"@);
            },
        }
        text
    }
}

} // verus!
