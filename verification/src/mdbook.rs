//! The mdbook page assembler: per-nonterminal page text that joins rendered
//! alternatives, precedence descriptors, and documentation comments, plus the
//! index page listing every nonterminal. All functions here are pure; the
//! surrounding tool writes the returned text to files.

use vstd::prelude::*;

use crate::parse_tree::{Alternative, Annotation, Grammar, GrammarItem, NonterminalData};
use crate::ref_render::{
    lemma_error_suppresses_alternative_list, list_contains_error, page_link, page_link_string,
    render_parts, spec_render_parts,
};
use crate::text::{
    all_dec_digits, dec_of, dec_val, join_strings, join_texts, parse_usize, str_eq,
    strip_comment_marker, usize_to_string, views_of,
};

verus! {

/// The value of the first annotation keyed `key`, if one exists; the
/// annotation's own value may itself be absent.
pub open spec fn spec_annotation_value(annotations: Seq<Annotation>, key: Seq<char>) -> Option<
    String,
>
    decreases annotations.len(),
{
    if annotations.len() == 0 {
        None
    } else if annotations[0].id@ == key {
        annotations[0].arg
    } else {
        spec_annotation_value(annotations.drop_first(), key)
    }
}

proof fn lemma_annotation_value_skip(annotations: Seq<Annotation>, key: Seq<char>, i: int)
    requires
        0 <= i <= annotations.len(),
        forall|j: int| 0 <= j < i ==> annotations[j].id@ != key,
    ensures
        spec_annotation_value(annotations, key) == spec_annotation_value(
            annotations.skip(i),
            key,
        ),
    decreases i,
{
    if i > 0 {
        lemma_annotation_value_skip(annotations.drop_first(), key, i - 1);
        assert(annotations.drop_first().skip(i - 1) =~= annotations.skip(i));
    } else {
        assert(annotations.skip(0) =~= annotations);
    }
}

/// Looks up the value of the first annotation keyed `key`.
fn annotation_value(annotations: &Vec<Annotation>, key: &str) -> (r: Option<String>)
    ensures
        r == spec_annotation_value(annotations@, key@),
{
    let mut i: usize = 0;
    while i < annotations.len()
        invariant
            0 <= i <= annotations.len(),
            forall|j: int| 0 <= j < i ==> annotations@[j].id@ != key@,
        decreases annotations.len() - i,
    {
        if str_eq(annotations[i].id.as_str(), key) {
            proof {
                lemma_annotation_value_skip(annotations@, key@, i as int);
                assert(annotations@.skip(i as int)[0] == annotations@[i as int]);
            }
            return match &annotations[i].arg {
                Some(v) => Some(v.clone()),
                None => None,
            };
        }
        i += 1;
    }
    proof {
        lemma_annotation_value_skip(annotations@, key@, annotations@.len() as int);
    }
    None
}

/// The precedence level encoded by an annotation value: its decimal value
/// when it parses as one that fits, and the default level otherwise.
pub open spec fn spec_level_of(value: Seq<char>) -> int {
    if value.len() > 0 && all_dec_digits(value) && dec_val(value) <= usize::MAX {
        dec_val(value)
    } else {
        0
    }
}

/// An alternative's declared precedence and associativity, derived from its
/// annotations at assembly time.
#[derive(Debug)]
pub struct PrecedenceData {
    pub level: usize,
    pub assoc: Option<String>,
}

/// The precedence descriptor of an alternative: present exactly when a
/// `precedence` annotation with a value is attached; its associativity is
/// read only for levels of at least two.
pub open spec fn spec_precedence_data(alt: Alternative) -> Option<PrecedenceData> {
    match spec_annotation_value(alt.annotations@, "precedence"@) {
        None => None,
        Some(value) => {
            let level = spec_level_of(value@);
            let assoc = if level >= 2 {
                spec_annotation_value(alt.annotations@, "assoc"@)
            } else {
                None
            };
            Some(PrecedenceData { level: level as usize, assoc })
        },
    }
}

/// Reads the alternative's precedence descriptor from its annotations.
pub fn get_precedence_data(alt: &Alternative) -> (r: Option<PrecedenceData>)
    ensures
        r == spec_precedence_data(*alt),
{
    let value = match annotation_value(&alt.annotations, "precedence") {
        Some(v) => v,
        None => {
            return None;
        },
    };
    let level: usize = match parse_usize(value.as_str()) {
        Some(l) => l,
        None => 0,
    };
    let assoc = if level >= 2 {
        annotation_value(&alt.annotations, "assoc")
    } else {
        None
    };
    Some(PrecedenceData { level, assoc })
}

impl PrecedenceData {
    /// The descriptor's display text: nothing for the default level, the
    /// level alone for level one, and level plus associativity (defaulting
    /// to "default") from level two upward.
    pub open spec fn spec_display(self) -> Seq<char> {
        if self.level >= 2 {
            "(precedence level = "@ + dec_of(self.level as nat) + ", associativity = "@ + (
            match self.assoc {
                Some(a) => a@,
                None => "default"@,
            }) + ")"@
        } else if self.level >= 1 {
            "(precedence level = "@ + dec_of(self.level as nat) + ")"@
        } else {
            Seq::<char>::empty()
        }
    }

    /// Formats the descriptor for display on an alternative's line.
    pub fn display_string(&self) -> (r: String)
        ensures
            r@ == self.spec_display(),
    {
        if self.level >= 2 {
            let mut s = String::new();
            s.append("(precedence level = ");
            let level_text = usize_to_string(self.level);
            s.append(level_text.as_str());
            s.append(", associativity = ");
            match &self.assoc {
                Some(a) => s.append(a.as_str()),
                None => s.append("default"),
            }
            s.append(")");
            proof {
                assert(s@ =~= self.spec_display());
            }
            s
        } else if self.level >= 1 {
            let mut s = String::new();
            s.append("(precedence level = ");
            let level_text = usize_to_string(self.level);
            s.append(level_text.as_str());
            s.append(")");
            proof {
                assert(s@ =~= self.spec_display());
            }
            s
        } else {
            String::new()
        }
    }
}

/// The precedence text appended after an alternative's rendered expression:
/// the descriptor's display text, or nothing when no descriptor is attached.
pub open spec fn spec_precedence_display(alt: Alternative) -> Seq<char> {
    match spec_precedence_data(alt) {
        None => Seq::<char>::empty(),
        Some(pd) => pd.spec_display(),
    }
}

/// The doc-comment lines with their three-character leading markers dropped.
pub open spec fn stripped_views(lines: Seq<String>) -> Seq<Seq<char>> {
    lines.map_values(|l: String| l@.skip(3))
}

/// Whether every raw doc-comment line still carries its three-character
/// leading marker.
pub open spec fn wf_doc_comments(lines: Seq<String>) -> bool {
    forall|i: int| 0 <= i < lines.len() ==> (#[trigger] lines[i])@.len() >= 3
}

/// Strips the leading marker of each doc-comment line and joins the lines.
fn strip_join(lines: &Vec<String>) -> (r: String)
    requires
        wf_doc_comments(lines@),
    ensures
        r@ == join_texts(stripped_views(lines@), "\n"@),
{
    let mut stripped: Vec<String> = Vec::new();
    let mut i: usize = 0;
    while i < lines.len()
        invariant
            wf_doc_comments(lines@),
            0 <= i <= lines.len(),
            stripped@.len() == i,
            forall|j: int| 0 <= j < i ==> (#[trigger] stripped@[j])@ == lines@[j]@.skip(3),
        decreases lines.len() - i,
    {
        let s = strip_comment_marker(lines[i].as_str());
        stripped.push(s);
        i += 1;
    }
    proof {
        assert forall|j: int| 0 <= j < lines@.len() implies views_of(stripped@)[j]
            == stripped_views(lines@)[j] by {
            assert(views_of(stripped@)[j] == stripped@[j]@);
            assert(stripped_views(lines@)[j] == lines@[j]@.skip(3));
        }
        assert(views_of(stripped@) =~= stripped_views(lines@));
    }
    join_strings(&stripped, "\n")
}

/// The page block of one alternative, or `None` when the alternative is
/// dropped from the page. `idx1` is the alternative's original one-based
/// position; it is shown only when `numbered` holds (more than one
/// alternative declared), and dropped alternatives keep their position in
/// the numbering of the survivors.
pub open spec fn spec_alternative_block(
    alt: Alternative,
    idx1: int,
    numbered: bool,
    params: Seq<String>,
) -> Option<Seq<char>> {
    match spec_render_parts(alt.expr@, params) {
        None => None,
        Some(parts) => {
            let ind = if numbered {
                "("@ + dec_of(idx1 as nat) + ") "@
            } else {
                Seq::<char>::empty()
            };
            Some(
                "> "@ + ind + join_texts(parts, " "@) + spec_precedence_display(alt) + "\n"@
                    + join_texts(stripped_views(alt.doc_comments@), "\n"@) + "\n"@,
            )
        },
    }
}

/// The page blocks of the surviving alternatives, in declaration order, each
/// numbered by its original position.
pub open spec fn spec_alternative_blocks(
    alts: Seq<Alternative>,
    numbered: bool,
    params: Seq<String>,
) -> Seq<Seq<char>>
    decreases alts.len(),
{
    if alts.len() == 0 {
        Seq::<Seq<char>>::empty()
    } else {
        let front = spec_alternative_blocks(alts.drop_last(), numbered, params);
        match spec_alternative_block(alts.last(), alts.len() as int, numbered, params) {
            None => front,
            Some(b) => front.push(b),
        }
    }
}

/// Law: an alternative contributes no block to its nonterminal's page
/// exactly when an Error symbol occurs anywhere in its expression tree,
/// regardless of position or nesting depth.
pub proof fn lemma_error_alternative_absent(
    alt: Alternative,
    idx1: int,
    numbered: bool,
    params: Seq<String>,
)
    ensures
        spec_alternative_block(alt, idx1, numbered, params) is None <==> list_contains_error(
            alt.expr@,
        ),
{
    lemma_error_suppresses_alternative_list(alt.expr@, params);
}

/// Law: a surviving alternative appears on its page under its original
/// one-based position — the block numbered `i + 1` is on the page whenever
/// alternative `i` survives, whether or not other alternatives around it were
/// dropped, so survivors' numbers are never compacted. Whether a number is
/// shown at all is decided by `numbered` alone: a nonterminal with exactly
/// one declared alternative shows none.
pub proof fn lemma_survivor_numbering(
    alts: Seq<Alternative>,
    numbered: bool,
    params: Seq<String>,
    i: int,
)
    requires
        0 <= i < alts.len(),
        spec_alternative_block(alts[i], i + 1, numbered, params) is Some,
    ensures
        spec_alternative_blocks(alts, numbered, params).contains(
            spec_alternative_block(alts[i], i + 1, numbered, params)->0,
        ),
    decreases alts.len(),
{
    let b = spec_alternative_block(alts[i], i + 1, numbered, params)->0;
    let front = spec_alternative_blocks(alts.drop_last(), numbered, params);
    if i == alts.len() - 1 {
        assert(front.push(b)[front.len() as int] == b);
    } else {
        assert(alts.drop_last()[i] == alts[i]);
        lemma_survivor_numbering(alts.drop_last(), numbered, params, i);
        let k = choose|k: int| 0 <= k < front.len() && front[k] == b;
        match spec_alternative_block(alts.last(), alts.len() as int, numbered, params) {
            None => {},
            Some(x) => {
                assert(front.push(x)[k] == b);
            },
        }
    }
}

/// The angle-bracketed type-parameter list shown after a nonterminal's name,
/// empty when it has no parameters.
pub open spec fn spec_args_suffix(args: Seq<String>) -> Seq<char> {
    if args.len() > 0 {
        "<"@ + join_texts(views_of(args), ", "@) + ">"@
    } else {
        Seq::<char>::empty()
    }
}

/// The placeholder section headings for the nonterminal's type parameters.
pub open spec fn param_headings(args: Seq<String>) -> Seq<Seq<char>> {
    args.map_values(|a: String| "## "@ + a@)
}

/// The full page text of one nonterminal: header with name and parameter
/// list, per-parameter placeholder sections, the surviving alternatives'
/// blocks, and the nonterminal's own doc comments.
pub open spec fn spec_page(nt: NonterminalData) -> Seq<char> {
    "# "@ + nt.name@ + spec_args_suffix(nt.args@) + "\n"@ + join_texts(
        param_headings(nt.args@),
        "\n"@,
    ) + "\n"@ + join_texts(
        spec_alternative_blocks(nt.alternatives@, nt.alternatives@.len() > 1, nt.args@),
        "\n"@,
    ) + "\n"@ + join_texts(stripped_views(nt.doc_comments@), "\n"@)
}

/// Whether every doc-comment line of the nonterminal and of its alternatives
/// still carries its leading marker.
pub open spec fn wf_nonterminal_docs(nt: NonterminalData) -> bool {
    &&& wf_doc_comments(nt.doc_comments@)
    &&& forall|i: int|
        0 <= i < nt.alternatives@.len() ==> wf_doc_comments(
            (#[trigger] nt.alternatives@[i]).doc_comments@,
        )
}

/// Assembles the documentation page of one nonterminal.
pub fn build_page(nt: &NonterminalData, grammar: &Grammar) -> (r: String)
    requires
        wf_nonterminal_docs(*nt),
    ensures
        r@ == spec_page(*nt),
{
    let args_suffix: String = if nt.args.len() > 0 {
        let mut s = String::new();
        s.append("<");
        let joined = join_strings(&nt.args, ", ");
        s.append(joined.as_str());
        s.append(">");
        s
    } else {
        String::new()
    };

    let mut headings: Vec<String> = Vec::new();
    let mut i: usize = 0;
    while i < nt.args.len()
        invariant
            0 <= i <= nt.args.len(),
            headings@.len() == i,
            forall|j: int| 0 <= j < i ==> (#[trigger] headings@[j])@ == "## "@ + nt.args@[j]@,
        decreases nt.args.len() - i,
    {
        let mut h = String::new();
        h.append("## ");
        h.append(nt.args[i].as_str());
        headings.push(h);
        i += 1;
    }
    proof {
        assert forall|j: int| 0 <= j < nt.args@.len() implies views_of(headings@)[j]
            == param_headings(nt.args@)[j] by {
            assert(views_of(headings@)[j] == headings@[j]@);
            assert(param_headings(nt.args@)[j] == "## "@ + nt.args@[j]@);
        }
        assert(views_of(headings@) =~= param_headings(nt.args@));
    }
    let params_data = join_strings(&headings, "\n");

    let numbered = nt.alternatives.len() > 1;
    let mut blocks: Vec<String> = Vec::new();
    let mut i: usize = 0;
    while i < nt.alternatives.len()
        invariant
            wf_nonterminal_docs(*nt),
            0 <= i <= nt.alternatives.len(),
            numbered == (nt.alternatives@.len() > 1),
            views_of(blocks@) == spec_alternative_blocks(
                nt.alternatives@.take(i as int),
                numbered,
                nt.args@,
            ),
        decreases nt.alternatives.len() - i,
    {
        let alt = &nt.alternatives[i];
        proof {
            assert(nt.alternatives@.take(i + 1 as int).drop_last() =~= nt.alternatives@.take(
                i as int,
            ));
            assert(nt.alternatives@.take(i + 1 as int).last() == nt.alternatives@[i as int]);
        }
        match render_parts(&alt.expr, nt, grammar) {
            None => {},
            Some(parts) => {
                let mut line = String::new();
                line.append("> ");
                if numbered {
                    line.append("(");
                    let num = usize_to_string(i + 1);
                    line.append(num.as_str());
                    line.append(") ");
                }
                let symbols = join_strings(&parts, " ");
                line.append(symbols.as_str());
                match get_precedence_data(alt) {
                    Some(pd) => {
                        let prec = pd.display_string();
                        line.append(prec.as_str());
                    },
                    None => {},
                }
                line.append("\n");
                let docs = strip_join(&alt.doc_comments);
                line.append(docs.as_str());
                line.append("\n");
                proof {
                    assert(line@ =~= spec_alternative_block(
                        nt.alternatives@[i as int],
                        i + 1 as int,
                        numbered,
                        nt.args@,
                    )->0);
                }
                blocks.push(line);
                proof {
                    assert(views_of(blocks@) =~= spec_alternative_blocks(
                        nt.alternatives@.take(i + 1 as int),
                        numbered,
                        nt.args@,
                    ));
                }
            },
        }
        i += 1;
    }
    proof {
        assert(nt.alternatives@.take(nt.alternatives@.len() as int) =~= nt.alternatives@);
    }
    let alternatives = join_strings(&blocks, "\n");

    let doc_comments = strip_join(&nt.doc_comments);

    let mut page = String::new();
    page.append("# ");
    page.append(nt.name.as_str());
    page.append(args_suffix.as_str());
    page.append("\n");
    page.append(params_data.as_str());
    page.append("\n");
    page.append(alternatives.as_str());
    page.append("\n");
    page.append(doc_comments.as_str());
    proof {
        assert(page@ =~= spec_page(*nt));
    }
    page
}

/// One index entry: a link labeled with the nonterminal's name pointing to
/// its page.
pub open spec fn index_entries(names: Seq<String>) -> Seq<Seq<char>> {
    names.map_values(|n: String| "- "@ + page_link(n@))
}

/// The index page text: one link entry per nonterminal, in declaration
/// order.
pub open spec fn spec_index(names: Seq<String>) -> Seq<char> {
    join_texts(index_entries(names), "\n"@)
}

/// Assembles the index page listing every nonterminal page.
pub fn build_index(names: &Vec<String>) -> (r: String)
    ensures
        r@ == spec_index(names@),
{
    let mut entries: Vec<String> = Vec::new();
    let mut i: usize = 0;
    while i < names.len()
        invariant
            0 <= i <= names.len(),
            entries@.len() == i,
            forall|j: int|
                0 <= j < i ==> (#[trigger] entries@[j])@ == "- "@ + page_link(names@[j]@),
        decreases names.len() - i,
    {
        let mut e = String::new();
        e.append("- ");
        let link = page_link_string(names[i].as_str());
        e.append(link.as_str());
        entries.push(e);
        i += 1;
    }
    proof {
        assert forall|j: int| 0 <= j < names@.len() implies views_of(entries@)[j]
            == index_entries(names@)[j] by {
            assert(views_of(entries@)[j] == entries@[j]@);
            assert(index_entries(names@)[j] == "- "@ + page_link(names@[j]@));
        }
        assert(views_of(entries@) =~= index_entries(names@));
    }
    join_strings(&entries, "\n")
}

/// The nonterminals among the grammar's items, in declaration order.
pub open spec fn spec_nonterminals(items: Seq<GrammarItem>) -> Seq<NonterminalData>
    decreases items.len(),
{
    if items.len() == 0 {
        Seq::<NonterminalData>::empty()
    } else {
        let front = spec_nonterminals(items.drop_last());
        match items.last() {
            GrammarItem::Nonterminal(nt) => front.push(nt),
            GrammarItem::Other => front,
        }
    }
}

/// The names of a sequence of nonterminals, in order.
pub open spec fn names_of(nts: Seq<NonterminalData>) -> Seq<String> {
    nts.map_values(|nt: NonterminalData| nt.name)
}

/// Whether every doc-comment line in the grammar's nonterminals still
/// carries its leading marker.
pub open spec fn wf_grammar_docs(g: Grammar) -> bool {
    forall|i: int|
        0 <= i < g.items@.len() ==> match #[trigger] g.items@[i] {
            GrammarItem::Nonterminal(nt) => wf_nonterminal_docs(nt),
            GrammarItem::Other => true,
        }
}

/// One assembled documentation page: the nonterminal it documents, by name,
/// and the page's full text.
pub struct Page {
    pub name: String,
    pub content: String,
}

/// Assembles one page per nonterminal of the grammar, in declaration order.
pub fn build_reference_pages(grammar: &Grammar) -> (r: Vec<Page>)
    requires
        wf_grammar_docs(*grammar),
    ensures
        r@.len() == spec_nonterminals(grammar.items@).len(),
        forall|i: int|
            0 <= i < r@.len() ==> {
                &&& (#[trigger] r@[i]).name == spec_nonterminals(grammar.items@)[i].name
                &&& r@[i].content@ == spec_page(spec_nonterminals(grammar.items@)[i])
            },
{
    let mut pages: Vec<Page> = Vec::new();
    let mut i: usize = 0;
    while i < grammar.items.len()
        invariant
            wf_grammar_docs(*grammar),
            0 <= i <= grammar.items@.len(),
            pages@.len() == spec_nonterminals(grammar.items@.take(i as int)).len(),
            forall|j: int|
                0 <= j < pages@.len() ==> {
                    &&& (#[trigger] pages@[j]).name == spec_nonterminals(
                        grammar.items@.take(i as int),
                    )[j].name
                    &&& pages@[j].content@ == spec_page(
                        spec_nonterminals(grammar.items@.take(i as int))[j],
                    )
                },
        decreases grammar.items.len() - i,
    {
        proof {
            assert(grammar.items@.take(i + 1 as int).drop_last() =~= grammar.items@.take(i as int));
            assert(grammar.items@.take(i + 1 as int).last() == grammar.items@[i as int]);
        }
        match grammar.items[i].as_nonterminal() {
            Some(nt) => {
                let content = build_page(nt, grammar);
                pages.push(Page { name: nt.name.clone(), content });
            },
            None => {},
        }
        i += 1;
    }
    proof {
        assert(grammar.items@.take(grammar.items@.len() as int) =~= grammar.items@);
    }
    pages
}

/// Assembles the index page of the grammar: one link entry per nonterminal,
/// in declaration order.
pub fn build_index_page(grammar: &Grammar) -> (r: String)
    ensures
        r@ == spec_index(names_of(spec_nonterminals(grammar.items@))),
{
    let mut names: Vec<String> = Vec::new();
    let mut i: usize = 0;
    while i < grammar.items.len()
        invariant
            0 <= i <= grammar.items@.len(),
            names@ == names_of(spec_nonterminals(grammar.items@.take(i as int))),
        decreases grammar.items.len() - i,
    {
        proof {
            assert(grammar.items@.take(i + 1 as int).drop_last() =~= grammar.items@.take(i as int));
            assert(grammar.items@.take(i + 1 as int).last() == grammar.items@[i as int]);
        }
        match grammar.items[i].as_nonterminal() {
            Some(nt) => {
                names.push(nt.name.clone());
                proof {
                    assert(names@ =~= names_of(
                        spec_nonterminals(grammar.items@.take(i + 1 as int)),
                    ));
                }
            },
            None => {
                proof {
                    assert(names@ =~= names_of(
                        spec_nonterminals(grammar.items@.take(i + 1 as int)),
                    ));
                }
            },
        }
        i += 1;
    }
    proof {
        assert(grammar.items@.take(grammar.items@.len() as int) =~= grammar.items@);
    }
    build_index(&names)
}

} // verus!
