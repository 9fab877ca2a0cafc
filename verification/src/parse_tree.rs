//! The grammar AST that the rendering engine consumes: nonterminal
//! definitions, their alternatives, and symbol-expression trees. The tree is
//! supplied fully built by an upstream grammar parser; the engine only reads
//! it and derives text from it.

use vstd::prelude::*;

verus! {

/// The repetition operator attached to a `Repeat` symbol.
#[derive(Clone, Copy, PartialEq, Eq, Structural, Debug)]
pub enum RepeatOp {
    Star,
    Plus,
    Question,
}

/// One node of an alternative's symbol-expression tree.
///
/// The variant set is closed: every variant has an explicit rendering rule in
/// `Symbol::render`, so a new symbol kind cannot silently render as nothing.
#[derive(Debug)]
pub enum Symbol {
    /// Grouping of an ordered sequence of child symbols.
    Expr(Vec<Symbol>),
    /// A bare name that is either a type-parameter reference or a nonterminal
    /// reference, disambiguated only at render time against the enclosing
    /// nonterminal's parameter list.
    AmbiguousId(String),
    /// Literal token text, rendered verbatim.
    Terminal(String),
    /// Reference to another nonterminal by name.
    Nonterminal(String),
    /// Macro invocation: the macro's name and its ordered argument symbols.
    Macro(String, Vec<Symbol>),
    /// Repetition of an inner symbol under one operator.
    Repeat(RepeatOp, Box<Symbol>),
    /// "Pick one of": renders as its inner symbol, unwrapped.
    Choose(Box<Symbol>),
    /// Named binding: renders as its inner symbol, the binding name is not
    /// displayed.
    Name(String, Box<Symbol>),
    /// Lookahead marker; carries no visible surface form.
    Lookahead,
    /// Lookbehind marker; carries no visible surface form.
    Lookbehind,
    /// Error-recovery marker; an alternative containing one describes a
    /// non-canonical parse path and is excluded from the reference.
    Error,
}

/// One annotation attached to an alternative: a key and an optional value.
#[derive(Debug)]
pub struct Annotation {
    pub id: String,
    pub arg: Option<String>,
}

/// One production choice of a nonterminal: an ordered symbol sequence plus
/// annotations and documentation comments.
#[derive(Debug)]
pub struct Alternative {
    /// The ordered symbols of the alternative's expression.
    pub expr: Vec<Symbol>,
    pub annotations: Vec<Annotation>,
    /// Raw comment lines, each still carrying its three-character leading
    /// marker.
    pub doc_comments: Vec<String>,
}

/// A named grammar production: its name, type parameters, documentation
/// comments, and ordered alternatives.
#[derive(Debug)]
pub struct NonterminalData {
    pub name: String,
    /// The nonterminal's type parameters, in declaration order.
    pub args: Vec<String>,
    /// Raw comment lines, each still carrying its three-character leading
    /// marker.
    pub doc_comments: Vec<String>,
    pub alternatives: Vec<Alternative>,
}

/// One top-level grammar item. Only nonterminal definitions take part in
/// rendering; every other item kind is skipped.
#[derive(Debug)]
pub enum GrammarItem {
    Nonterminal(NonterminalData),
    /// Any item kind that produces no reference page.
    Other,
}

impl GrammarItem {
    /// The nonterminal behind this item, if it is one.
    pub fn as_nonterminal(&self) -> (r: Option<&NonterminalData>)
        ensures
            match *self {
                GrammarItem::Nonterminal(ref nt) => r == Some(nt),
                GrammarItem::Other => r is None,
            },
    {
        match self {
            GrammarItem::Nonterminal(nt) => Some(nt),
            GrammarItem::Other => None,
        }
    }
}

/// The root of the grammar AST: the ordered top-level items.
#[derive(Debug)]
pub struct Grammar {
    pub items: Vec<GrammarItem>,
}

} // verus!
