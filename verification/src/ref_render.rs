//! The symbol renderer: a total, recursive walk of one symbol-expression
//! tree that produces formatted, cross-linked text fragments. Suppression is
//! encoded as data: a symbol may render text, contribute nothing, or demand
//! that its whole enclosing alternative be dropped from the page.

use vstd::prelude::*;

use crate::parse_tree::{Grammar, NonterminalData, RepeatOp, Symbol};
use crate::text::{join_strings, join_texts, lower_of, lowercase, str_eq, views_of};

verus! {

/// Tri-state outcome of rendering one symbol.
pub enum RefRendered {
    /// The symbol produced visible markup.
    SomeRendered { rendered: String },
    /// The symbol contributes nothing to its parent's joined output, but the
    /// alternative still renders.
    NoneRendered,
    /// The whole enclosing alternative must be dropped from the page.
    DontRenderAlternative,
}

/// The mathematical value of a rendering outcome.
pub enum RenderedText {
    Text(Seq<char>),
    Suppressed,
    SuppressAlternative,
}

impl View for RefRendered {
    type V = RenderedText;

    open spec fn view(&self) -> RenderedText {
        match *self {
            RefRendered::SomeRendered { rendered } => RenderedText::Text(rendered@),
            RefRendered::NoneRendered => RenderedText::Suppressed,
            RefRendered::DontRenderAlternative => RenderedText::SuppressAlternative,
        }
    }
}

impl RefRendered {
    /// The rendered text, if this outcome produced any.
    pub fn try_display(&self) -> (r: Option<String>)
        ensures
            match self@ {
                RenderedText::Text(t) => r is Some && r->0@ == t,
                RenderedText::Suppressed => r is None,
                RenderedText::SuppressAlternative => r is None,
            },
    {
        match self {
            RefRendered::SomeRendered { rendered } => Some(rendered.clone()),
            RefRendered::NoneRendered | RefRendered::DontRenderAlternative => None,
        }
    }
}

/// Whether `name` is one of the type parameters in `params`.
pub open spec fn is_param(params: Seq<String>, name: Seq<char>) -> bool {
    exists|i: int| 0 <= i < params.len() && params[i]@ == name
}

/// A cross-page link whose text and target page are both `name`.
pub open spec fn page_link(name: Seq<char>) -> Seq<char> {
    "["@ + name + "]("@ + name + ".md)"@
}

/// An in-page link to the section of type parameter `name`, whose anchor is
/// the lower-cased parameter name.
pub open spec fn anchor_link(name: Seq<char>) -> Seq<char> {
    "["@ + name + "](#"@ + lower_of(name) + ")"@
}

/// The suffix marker appended to a repeated symbol's text.
pub open spec fn repeat_marker(op: RepeatOp) -> Seq<char> {
    match op {
        RepeatOp::Star => "*"@,
        RepeatOp::Plus => "<sub>+</sub>"@,
        RepeatOp::Question => "<sub>?</sub>"@,
    }
}

/// The outcome of rendering one symbol against the enclosing nonterminal's
/// type parameters `params`.
pub open spec fn spec_render(sym: Symbol, params: Seq<String>) -> RenderedText
    decreases sym,
{
    match sym {
        Symbol::Expr(children) => match spec_render_parts(children@, params) {
            Some(parts) => RenderedText::Text("("@ + join_texts(parts, " "@) + ")"@),
            None => RenderedText::SuppressAlternative,
        },
        Symbol::AmbiguousId(id) => if is_param(params, id@) {
            RenderedText::Text(anchor_link(id@))
        } else {
            RenderedText::Text(page_link(id@))
        },
        Symbol::Terminal(t) => RenderedText::Text(t@),
        Symbol::Nonterminal(name) => RenderedText::Text(page_link(name@)),
        Symbol::Macro(name, args) => match spec_render_parts(args@, params) {
            Some(parts) => RenderedText::Text(
                page_link(name@) + "&lt;"@ + join_texts(parts, ", "@) + "&gt;"@,
            ),
            None => RenderedText::SuppressAlternative,
        },
        Symbol::Repeat(op, inner) => match spec_render(*inner, params) {
            RenderedText::Text(t) => RenderedText::Text(t + repeat_marker(op)),
            RenderedText::Suppressed => RenderedText::Suppressed,
            RenderedText::SuppressAlternative => RenderedText::SuppressAlternative,
        },
        Symbol::Choose(inner) => spec_render(*inner, params),
        Symbol::Name(_, inner) => spec_render(*inner, params),
        Symbol::Lookahead => RenderedText::Suppressed,
        Symbol::Lookbehind => RenderedText::Suppressed,
        Symbol::Error => RenderedText::SuppressAlternative,
    }
}

/// The visible texts contributed by a sequence of symbols, in order, with
/// suppressed symbols filtered out; `None` when any symbol demands that the
/// enclosing alternative be dropped.
pub open spec fn spec_render_parts(syms: Seq<Symbol>, params: Seq<String>) -> Option<
    Seq<Seq<char>>,
>
    decreases syms,
{
    if syms.len() == 0 {
        Some(Seq::<Seq<char>>::empty())
    } else {
        let front = spec_render_parts(syms.drop_last(), params);
        match spec_render(syms.last(), params) {
            RenderedText::Text(t) => match front {
                Some(parts) => Some(parts.push(t)),
                None => None,
            },
            RenderedText::Suppressed => front,
            RenderedText::SuppressAlternative => None,
        }
    }
}

/// Once a prefix of the symbol sequence demands dropping the alternative,
/// every extension of that prefix does too.
proof fn lemma_parts_none_extends(syms: Seq<Symbol>, params: Seq<String>, i: int, j: int)
    requires
        0 <= i <= j <= syms.len(),
        spec_render_parts(syms.take(i), params) is None,
    ensures
        spec_render_parts(syms.take(j), params) is None,
    decreases j - i,
{
    if i < j {
        assert(syms.take(i + 1).drop_last() =~= syms.take(i));
        lemma_parts_none_extends(syms, params, i + 1, j);
    } else {
        assert(syms.take(i) =~= syms.take(j));
    }
}

/// Whether `name` is one of the strings in `v`.
fn contains_str(v: &Vec<String>, name: &str) -> (r: bool)
    ensures
        r == is_param(v@, name@),
{
    let mut i: usize = 0;
    while i < v.len()
        invariant
            0 <= i <= v.len(),
            forall|j: int| 0 <= j < i ==> v@[j]@ != name@,
        decreases v.len() - i,
    {
        if str_eq(v[i].as_str(), name) {
            return true;
        }
        i += 1;
    }
    false
}

/// Renders each symbol of `syms` in order against `parent`, collecting the
/// visible texts and filtering suppressed ones; `None` when some symbol
/// demands that the enclosing alternative be dropped.
pub fn render_parts(syms: &Vec<Symbol>, parent: &NonterminalData, grammar: &Grammar) -> (r: Option<
    Vec<String>,
>)
    ensures
        match r {
            Some(parts) => spec_render_parts(syms@, parent.args@) == Some(views_of(parts@)),
            None => spec_render_parts(syms@, parent.args@) is None,
        },
    decreases *syms,
{
    let mut parts: Vec<String> = Vec::new();
    let mut i: usize = 0;
    while i < syms.len()
        invariant
            0 <= i <= syms.len(),
            spec_render_parts(syms@.take(i as int), parent.args@) == Some(views_of(parts@)),
        decreases syms.len() - i,
    {
        let outcome = syms[i].render(parent, grammar);
        proof {
            assert(syms@.take(i + 1 as int).drop_last() =~= syms@.take(i as int));
            assert(syms@.take(i + 1 as int).last() == syms@[i as int]);
        }
        match outcome {
            RefRendered::SomeRendered { rendered } => {
                parts.push(rendered);
                proof {
                    assert(views_of(parts@) =~= views_of(parts@.drop_last()).push(
                        parts@.last()@,
                    ));
                }
            },
            RefRendered::NoneRendered => {},
            RefRendered::DontRenderAlternative => {
                proof {
                    lemma_parts_none_extends(syms@, parent.args@, i + 1, syms@.len() as int);
                    assert(syms@.take(syms@.len() as int) =~= syms@);
                }
                return None;
            },
        }
        i += 1;
    }
    proof {
        assert(syms@.take(syms@.len() as int) =~= syms@);
    }
    Some(parts)
}

impl Symbol {
    /// Renders this symbol against the enclosing nonterminal (whose type
    /// parameters resolve ambiguous identifiers) and the full grammar.
    pub fn render(&self, nonterminal_parent: &NonterminalData, grammar: &Grammar) -> (r:
        RefRendered)
        ensures
            r@ == spec_render(*self, nonterminal_parent.args@),
        decreases *self,
    {
        match self {
            Symbol::Expr(children) => match render_parts(children, nonterminal_parent, grammar) {
                Some(parts) => {
                    let joined = join_strings(&parts, " ");
                    let mut out = String::new();
                    out.append("(");
                    out.append(joined.as_str());
                    out.append(")");
                    RefRendered::SomeRendered { rendered: out }
                },
                None => RefRendered::DontRenderAlternative,
            },
            Symbol::AmbiguousId(id) => {
                if contains_str(&nonterminal_parent.args, id.as_str()) {
                    let mut out = String::new();
                    out.append("[");
                    out.append(id.as_str());
                    out.append("](#");
                    let lowered = lowercase(id.as_str());
                    out.append(lowered.as_str());
                    out.append(")");
                    RefRendered::SomeRendered { rendered: out }
                } else {
                    RefRendered::SomeRendered { rendered: page_link_string(id.as_str()) }
                }
            },
            Symbol::Terminal(t) => RefRendered::SomeRendered { rendered: t.clone() },
            Symbol::Nonterminal(name) => RefRendered::SomeRendered {
                rendered: page_link_string(name.as_str()),
            },
            Symbol::Macro(name, args) => match render_parts(args, nonterminal_parent, grammar) {
                Some(parts) => {
                    let joined = join_strings(&parts, ", ");
                    let mut out = page_link_string(name.as_str());
                    out.append("&lt;");
                    out.append(joined.as_str());
                    out.append("&gt;");
                    RefRendered::SomeRendered { rendered: out }
                },
                None => RefRendered::DontRenderAlternative,
            },
            Symbol::Repeat(op, inner) => match inner.render(nonterminal_parent, grammar) {
                RefRendered::SomeRendered { rendered } => {
                    let mut out = rendered;
                    out.append(
                        match op {
                            RepeatOp::Star => "*",
                            RepeatOp::Plus => "<sub>+</sub>",
                            RepeatOp::Question => "<sub>?</sub>",
                        },
                    );
                    RefRendered::SomeRendered { rendered: out }
                },
                RefRendered::NoneRendered => RefRendered::NoneRendered,
                RefRendered::DontRenderAlternative => RefRendered::DontRenderAlternative,
            },
            Symbol::Choose(inner) => inner.render(nonterminal_parent, grammar),
            Symbol::Name(_, inner) => inner.render(nonterminal_parent, grammar),
            Symbol::Lookahead => RefRendered::NoneRendered,
            Symbol::Lookbehind => RefRendered::NoneRendered,
            Symbol::Error => RefRendered::DontRenderAlternative,
        }
    }
}

/// Whether an Error symbol occurs anywhere in this tree.
pub open spec fn contains_error(sym: Symbol) -> bool
    decreases sym,
{
    match sym {
        Symbol::Expr(children) => list_contains_error(children@),
        Symbol::AmbiguousId(_) => false,
        Symbol::Terminal(_) => false,
        Symbol::Nonterminal(_) => false,
        Symbol::Macro(_, args) => list_contains_error(args@),
        Symbol::Repeat(_, inner) => contains_error(*inner),
        Symbol::Choose(inner) => contains_error(*inner),
        Symbol::Name(_, inner) => contains_error(*inner),
        Symbol::Lookahead => false,
        Symbol::Lookbehind => false,
        Symbol::Error => true,
    }
}

/// Whether an Error symbol occurs anywhere in one of these trees.
pub open spec fn list_contains_error(syms: Seq<Symbol>) -> bool
    decreases syms,
{
    if syms.len() == 0 {
        false
    } else {
        list_contains_error(syms.drop_last()) || contains_error(syms.last())
    }
}

/// Whether an Error, Lookahead, or Lookbehind symbol occurs anywhere in this
/// tree.
pub open spec fn contains_suppressor(sym: Symbol) -> bool
    decreases sym,
{
    match sym {
        Symbol::Expr(children) => list_contains_suppressor(children@),
        Symbol::AmbiguousId(_) => false,
        Symbol::Terminal(_) => false,
        Symbol::Nonterminal(_) => false,
        Symbol::Macro(_, args) => list_contains_suppressor(args@),
        Symbol::Repeat(_, inner) => contains_suppressor(*inner),
        Symbol::Choose(inner) => contains_suppressor(*inner),
        Symbol::Name(_, inner) => contains_suppressor(*inner),
        Symbol::Lookahead => true,
        Symbol::Lookbehind => true,
        Symbol::Error => true,
    }
}

/// Whether an Error, Lookahead, or Lookbehind symbol occurs anywhere in one
/// of these trees.
pub open spec fn list_contains_suppressor(syms: Seq<Symbol>) -> bool
    decreases syms,
{
    if syms.len() == 0 {
        false
    } else {
        list_contains_suppressor(syms.drop_last()) || contains_suppressor(syms.last())
    }
}

/// Law: rendering demands that the enclosing alternative be dropped exactly
/// when an Error symbol occurs somewhere in the tree — regardless of its
/// position or nesting depth, and never for any other symbol kind.
pub proof fn lemma_error_suppresses_alternative(sym: Symbol, params: Seq<String>)
    ensures
        spec_render(sym, params) is SuppressAlternative <==> contains_error(sym),
    decreases sym,
{
    match sym {
        Symbol::Expr(children) => lemma_error_suppresses_alternative_list(children@, params),
        Symbol::Macro(_, args) => lemma_error_suppresses_alternative_list(args@, params),
        Symbol::Repeat(_, inner) => lemma_error_suppresses_alternative(*inner, params),
        Symbol::Choose(inner) => lemma_error_suppresses_alternative(*inner, params),
        Symbol::Name(_, inner) => lemma_error_suppresses_alternative(*inner, params),
        _ => {},
    }
}

/// Law: rendering a symbol sequence produces no part list exactly when an
/// Error symbol occurs somewhere in one of its trees.
pub proof fn lemma_error_suppresses_alternative_list(syms: Seq<Symbol>, params: Seq<String>)
    ensures
        spec_render_parts(syms, params) is None <==> list_contains_error(syms),
    decreases syms,
{
    if syms.len() > 0 {
        lemma_error_suppresses_alternative_list(syms.drop_last(), params);
        lemma_error_suppresses_alternative(syms.last(), params);
    }
}

/// Law: rendering is total on trees free of Error, Lookahead, and Lookbehind
/// symbols — such a tree always renders visible text. Together with the
/// `ensures` of `Symbol::render`, which pins every call's outcome to
/// `spec_render`, this makes rendering of such trees deterministic: the same
/// tree against the same parameters always yields the same text.
pub proof fn lemma_plain_tree_renders_text(sym: Symbol, params: Seq<String>)
    requires
        !contains_suppressor(sym),
    ensures
        spec_render(sym, params) is Text,
    decreases sym,
{
    match sym {
        Symbol::Expr(children) => lemma_plain_list_renders_parts(children@, params),
        Symbol::Macro(_, args) => lemma_plain_list_renders_parts(args@, params),
        Symbol::Repeat(_, inner) => lemma_plain_tree_renders_text(*inner, params),
        Symbol::Choose(inner) => lemma_plain_tree_renders_text(*inner, params),
        Symbol::Name(_, inner) => lemma_plain_tree_renders_text(*inner, params),
        _ => {},
    }
}

/// Law: a symbol sequence free of Error, Lookahead, and Lookbehind symbols
/// always produces a part list.
pub proof fn lemma_plain_list_renders_parts(syms: Seq<Symbol>, params: Seq<String>)
    requires
        !list_contains_suppressor(syms),
    ensures
        spec_render_parts(syms, params) is Some,
    decreases syms,
{
    if syms.len() > 0 {
        lemma_plain_list_renders_parts(syms.drop_last(), params);
        lemma_plain_tree_renders_text(syms.last(), params);
    }
}

/// Law: Lookahead and Lookbehind carry no visible surface form — each renders
/// as suppressed, never as text — and their presence alone never drops the
/// enclosing alternative: only an Error symbol does.
pub proof fn lemma_lookaround_invisible(sym: Symbol, params: Seq<String>)
    ensures
        spec_render(Symbol::Lookahead, params) == RenderedText::Suppressed,
        spec_render(Symbol::Lookbehind, params) == RenderedText::Suppressed,
        !contains_error(sym) ==> !(spec_render(sym, params) is SuppressAlternative),
{
    lemma_error_suppresses_alternative(sym, params);
}

/// Law: a bare identifier that names one of the enclosing nonterminal's type
/// parameters renders as an in-page anchor link to that parameter's section;
/// any other bare identifier renders as a cross-page link to the page of
/// that name.
pub proof fn lemma_ambiguous_id_resolution(id: String, params: Seq<String>)
    ensures
        is_param(params, id@) ==> spec_render(Symbol::AmbiguousId(id), params) == RenderedText::Text(
            anchor_link(id@),
        ),
        !is_param(params, id@) ==> spec_render(Symbol::AmbiguousId(id), params)
            == RenderedText::Text(page_link(id@)),
{
}

/// A cross-page link whose text and target page are both `name`.
pub fn page_link_string(name: &str) -> (r: String)
    ensures
        r@ == page_link(name@),
{
    let mut out = String::new();
    out.append("[");
    out.append(name);
    out.append("](");
    out.append(name);
    out.append(".md)");
    out
}

} // verus!
