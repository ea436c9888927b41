//! A macro invocation as the rewriting sees it, and the attributes that can
//! be attached to one.

use crate::path::CallableReference;
use proc_macro2::{Span, TokenStream};
use vstd::prelude::*;

verus! {

/// The delimiter around the arguments of a macro invocation.
#[derive(Debug, Clone, Copy, PartialEq, Eq, Structural)]
pub enum MacroDelimiter {
    /// `name!( ... )`
    Paren,
    /// `name!{ ... }`
    Brace,
    /// `name![ ... ]`
    Bracket,
}

/// Whether an attribute is written outside the item it belongs to or inside.
#[derive(Debug, Clone, Copy, PartialEq, Eq, Structural)]
pub enum AttrStyle {
    /// `#[...]`
    Outer,
    /// `#![...]`
    Inner,
}

/// An attribute such as `#[test]` or `#[should_panic(expected = "...")]`.
#[derive(Debug)]
pub struct Attribute {
    /// Whether the attribute is written as `#[...]` or as `#![...]`.
    pub style: AttrStyle,
    /// The path in front, `should_panic` in the example.
    pub path: CallableReference,
    /// What follows the path inside the brackets.
    pub tokens: TokenStream,
    /// Where the attribute stands in the source.
    pub span: Span,
}

/// A macro invocation `path!( tokens )`.
#[derive(Debug)]
pub struct MacroInvocation {
    /// The path of the macro that is called.
    pub path: CallableReference,
    /// The delimiter around the arguments.
    pub delimiter: MacroDelimiter,
    /// The arguments, unparsed.
    pub tokens: TokenStream,
    /// The attributes attached to the invocation.
    pub attrs: Vec<Attribute>,
    /// Where the invocation stands in the source.
    pub span: Span,
}

impl MacroInvocation {
    /// The same invocation with other arguments: the path, the delimiter,
    /// the attributes and the place stay as they are.
    pub fn with_tokens(self, tokens: TokenStream) -> (mac: MacroInvocation)
        ensures
            mac.path == self.path,
            mac.delimiter == self.delimiter,
            mac.attrs == self.attrs,
            mac.span == self.span,
            mac.tokens == tokens,
    {
        MacroInvocation {
            path: self.path,
            delimiter: self.delimiter,
            tokens,
            attrs: self.attrs,
            span: self.span,
        }
    }
}

} // verus!
