//! A plain model of the parsed C declarations that the pipeline reads.
//!
//! A C front end produces these from a header; the extractors of this
//! crate only ever see this model.

use vstd::prelude::*;

verus! {

/// The base an integer literal was written in.
#[derive(Debug, Clone, Copy, PartialEq, Eq, Structural)]
pub enum IntegerBase {
    Decimal,
    Octal,
    Hexadecimal,
    Binary,
}

/// An integer literal: its base and its digits, without prefix or suffix.
#[derive(Debug, Clone)]
pub struct IntegerLiteral {
    pub base: IntegerBase,
    pub number: String,
}

/// The shapes of expression the extractors tell apart.
#[derive(Debug, Clone)]
pub enum Expression {
    Integer(IntegerLiteral),
    /// A string literal, as the pieces it was written in, each still
    /// carrying its quotes.
    StringLiteral(Vec<String>),
    Other,
}

/// One item of a brace-enclosed initializer list.
#[derive(Debug, Clone)]
pub enum ListItem {
    Expression(Expression),
    Nested,
}

/// The initializer of a declarator.
#[derive(Debug, Clone)]
pub enum Initializer {
    Expression(Expression),
    List(Vec<ListItem>),
}

/// One enumerator of an enumeration: its identifier and its value
/// expression, if written.
#[derive(Debug, Clone)]
pub struct Enumerator {
    pub identifier: String,
    pub expression: Option<Expression>,
}

/// One declarator of a declaration, with its identifier where the
/// declarator is a plain identifier.
#[derive(Debug, Clone)]
pub struct InitDeclarator {
    pub identifier: Option<String>,
    pub initializer: Option<Initializer>,
}

/// A top-level declaration.
#[derive(Debug, Clone)]
pub struct Declaration {
    /// Whether `typedef` is among its specifiers.
    pub is_typedef: bool,
    /// Whether the `const` qualifier is among its specifiers.
    pub is_const: bool,
    /// The enumerator lists of the enumeration type specifiers, in order.
    pub enums: Vec<Vec<Enumerator>>,
    pub declarators: Vec<InitDeclarator>,
}

} // verus!
