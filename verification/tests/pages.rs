use lalrdoc::mdbook::{build_index_page, build_page, build_reference_pages, get_precedence_data};
use lalrdoc::parse_tree::{
    Alternative, Annotation, Grammar, GrammarItem, NonterminalData, RepeatOp, Symbol,
};
use lalrdoc::reference_builder::LalrdocError;
use lalrdoc::text::{join_strings, parse_usize, str_eq, usize_to_string};

fn alt(expr: Vec<Symbol>) -> Alternative {
    Alternative {
        expr,
        annotations: vec![],
        doc_comments: vec![],
    }
}

fn nonterm(name: &str, args: &[&str], alternatives: Vec<Alternative>) -> NonterminalData {
    NonterminalData {
        name: name.to_string(),
        args: args.iter().map(|a| a.to_string()).collect(),
        doc_comments: vec![],
        alternatives,
    }
}

fn annotation(id: &str, arg: Option<&str>) -> Annotation {
    Annotation {
        id: id.to_string(),
        arg: arg.map(|a| a.to_string()),
    }
}

fn grammar_of(nts: Vec<NonterminalData>) -> Grammar {
    Grammar {
        items: nts.into_iter().map(GrammarItem::Nonterminal).collect(),
    }
}

#[test]
fn single_alternative_is_unnumbered() {
    let nt = nonterm("A", &[], vec![alt(vec![Symbol::Terminal("x".to_string())])]);
    let g = grammar_of(vec![]);
    let page = build_page(&nt, &g);
    assert_eq!(page, "# A\n\n> x\n\n\n");
}

#[test]
fn several_alternatives_are_numbered_from_one() {
    let nt = nonterm(
        "B",
        &[],
        vec![
            alt(vec![Symbol::Terminal("x".to_string())]),
            alt(vec![Symbol::Terminal("y".to_string())]),
        ],
    );
    let g = grammar_of(vec![]);
    let page = build_page(&nt, &g);
    assert_eq!(page, "# B\n\n> (1) x\n\n\n> (2) y\n\n\n");
}

#[test]
fn error_suppressed_alternatives_keep_survivor_numbering() {
    let nt = nonterm(
        "B",
        &[],
        vec![
            alt(vec![Symbol::Terminal("x".to_string())]),
            alt(vec![Symbol::Error]),
            alt(vec![Symbol::Terminal("y".to_string())]),
        ],
    );
    let g = grammar_of(vec![]);
    let page = build_page(&nt, &g);
    assert_eq!(page, "# B\n\n> (1) x\n\n\n> (3) y\n\n\n");
    assert!(!page.contains("(2)"));
}

#[test]
fn deeply_nested_error_drops_whole_alternative() {
    let nested = Symbol::Expr(vec![
        Symbol::Terminal("x".to_string()),
        Symbol::Repeat(
            RepeatOp::Question,
            Box::new(Symbol::Name(
                "n".to_string(),
                Box::new(Symbol::Expr(vec![Symbol::Error])),
            )),
        ),
    ]);
    let nt = nonterm(
        "C",
        &[],
        vec![
            alt(vec![nested]),
            alt(vec![Symbol::Terminal("y".to_string())]),
        ],
    );
    let g = grammar_of(vec![]);
    let page = build_page(&nt, &g);
    assert_eq!(page, "# C\n\n> (2) y\n\n\n");
    assert!(!page.contains('x'));
}

#[test]
fn lookaround_absence_does_not_drop_alternative() {
    let nt = nonterm(
        "D",
        &[],
        vec![alt(vec![
            Symbol::Lookahead,
            Symbol::Terminal("x".to_string()),
            Symbol::Lookbehind,
        ])],
    );
    let g = grammar_of(vec![]);
    let page = build_page(&nt, &g);
    assert_eq!(page, "# D\n\n> x\n\n\n");
}

#[test]
fn doc_comments_are_stripped_of_markers() {
    let mut a = alt(vec![Symbol::Terminal("x".to_string())]);
    a.doc_comments = vec!["/// one".to_string(), "/// two".to_string()];
    let mut nt = nonterm("E", &[], vec![a]);
    nt.doc_comments = vec!["///Top".to_string()];
    let g = grammar_of(vec![]);
    let page = build_page(&nt, &g);
    assert_eq!(page, "# E\n\n> x\n one\n two\n\nTop");
}

#[test]
fn precedence_absent_without_annotation() {
    let a = alt(vec![Symbol::Terminal("x".to_string())]);
    assert!(get_precedence_data(&a).is_none());
}

#[test]
fn precedence_absent_when_annotation_has_no_value() {
    let mut a = alt(vec![Symbol::Terminal("x".to_string())]);
    a.annotations = vec![annotation("precedence", None)];
    assert!(get_precedence_data(&a).is_none());
}

#[test]
fn precedence_level_zero_shows_nothing() {
    let mut a = alt(vec![Symbol::Terminal("x".to_string())]);
    a.annotations = vec![annotation("precedence", Some("0"))];
    let pd = get_precedence_data(&a).unwrap();
    assert_eq!(pd.level, 0);
    assert_eq!(pd.display_string(), "");
}

#[test]
fn precedence_level_one_shows_level_only() {
    let mut a = alt(vec![Symbol::Terminal("x".to_string())]);
    a.annotations = vec![annotation("precedence", Some("1")), annotation("assoc", Some("left"))];
    let pd = get_precedence_data(&a).unwrap();
    assert_eq!(pd.level, 1);
    assert_eq!(pd.assoc, None);
    assert_eq!(pd.display_string(), "(precedence level = 1)");
}

#[test]
fn precedence_level_two_shows_associativity() {
    let mut a = alt(vec![Symbol::Terminal("x".to_string())]);
    a.annotations = vec![annotation("precedence", Some("3")), annotation("assoc", Some("left"))];
    let pd = get_precedence_data(&a).unwrap();
    assert_eq!(pd.level, 3);
    assert_eq!(
        pd.display_string(),
        "(precedence level = 3, associativity = left)"
    );
}

#[test]
fn precedence_associativity_defaults_when_unspecified() {
    let mut a = alt(vec![Symbol::Terminal("x".to_string())]);
    a.annotations = vec![annotation("precedence", Some("2"))];
    let pd = get_precedence_data(&a).unwrap();
    assert_eq!(
        pd.display_string(),
        "(precedence level = 2, associativity = default)"
    );
}

#[test]
fn malformed_precedence_value_degrades_to_level_zero() {
    let mut a = alt(vec![Symbol::Terminal("x".to_string())]);
    a.annotations = vec![annotation("precedence", Some("abc")), annotation("assoc", Some("left"))];
    let pd = get_precedence_data(&a).unwrap();
    assert_eq!(pd.level, 0);
    assert_eq!(pd.display_string(), "");
}

#[test]
fn first_matching_annotation_wins() {
    let mut a = alt(vec![Symbol::Terminal("x".to_string())]);
    a.annotations = vec![
        annotation("precedence", Some("2")),
        annotation("precedence", Some("5")),
    ];
    let pd = get_precedence_data(&a).unwrap();
    assert_eq!(pd.level, 2);
}

#[test]
fn precedence_descriptor_follows_rendered_expression() {
    let mut a = alt(vec![Symbol::Terminal("x".to_string())]);
    a.annotations = vec![annotation("precedence", Some("1"))];
    let nt = nonterm("F", &[], vec![a]);
    let g = grammar_of(vec![]);
    let page = build_page(&nt, &g);
    assert_eq!(page, "# F\n\n> x(precedence level = 1)\n\n\n");
}

#[test]
fn round_trip_list_grammar_produces_expected_pages() {
    let alt_param = alt(vec![Symbol::AmbiguousId("T".to_string())]);
    let alt_grouped = alt(vec![Symbol::Repeat(
        RepeatOp::Star,
        Box::new(Symbol::Expr(vec![
            Symbol::AmbiguousId("T".to_string()),
            Symbol::Macro("List".to_string(), vec![Symbol::AmbiguousId("T".to_string())]),
        ])),
    )]);
    let nt = nonterm("List", &["T"], vec![alt_param, alt_grouped]);
    let g = grammar_of(vec![nt]);
    let pages = build_reference_pages(&g);
    assert_eq!(pages.len(), 1);
    assert_eq!(pages[0].name, "List");
    assert_eq!(
        pages[0].content,
        "# List<T>\n## T\n> (1) [T](#t)\n\n\n> (2) ([T](#t) [List](List.md)&lt;[T](#t)&gt;)*\n\n\n"
    );
    let index = build_index_page(&g);
    assert_eq!(index, "- [List](List.md)");
}

#[test]
fn non_nonterminal_items_produce_no_pages() {
    let nt = nonterm("A", &[], vec![alt(vec![Symbol::Terminal("x".to_string())])]);
    let g = Grammar {
        items: vec![
            GrammarItem::Other,
            GrammarItem::Nonterminal(nt),
            GrammarItem::Other,
        ],
    };
    let pages = build_reference_pages(&g);
    assert_eq!(pages.len(), 1);
    assert_eq!(pages[0].name, "A");
    assert_eq!(build_index_page(&g), "- [A](A.md)");
}

#[test]
fn index_lists_nonterminals_in_declaration_order() {
    let g = grammar_of(vec![
        nonterm("B", &[], vec![alt(vec![Symbol::Terminal("x".to_string())])]),
        nonterm("A", &[], vec![alt(vec![Symbol::Terminal("y".to_string())])]),
    ]);
    assert_eq!(build_index_page(&g), "- [B](B.md)\n- [A](A.md)");
}

#[test]
fn empty_grammar_renders_no_pages_and_empty_index() {
    let g = grammar_of(vec![]);
    assert!(build_reference_pages(&g).is_empty());
    assert_eq!(build_index_page(&g), "");
}

#[test]
fn error_messages_describe_failure_kinds() {
    assert_eq!(LalrdocError::CannotReadGrammar.message(), "cannot read grammar");
    assert_eq!(LalrdocError::IoError.message(), "io error");
    assert_eq!(
        LalrdocError::ParseError.message(),
        "parse error; run lalrpop for more"
    );
}

#[test]
fn decimal_rendering_is_exact() {
    assert_eq!(usize_to_string(0), "0");
    assert_eq!(usize_to_string(7), "7");
    assert_eq!(usize_to_string(907), "907");
}

#[test]
fn decimal_parsing_accepts_digits_only() {
    assert_eq!(parse_usize("42"), Some(42));
    assert_eq!(parse_usize("0"), Some(0));
    assert_eq!(parse_usize(""), None);
    assert_eq!(parse_usize("4x2"), None);
    assert_eq!(parse_usize("99999999999999999999999999999999"), None);
}

#[test]
fn joining_strings_inserts_separator_between_elements() {
    assert_eq!(join_strings(&vec![], ", "), "");
    assert_eq!(join_strings(&vec!["a".to_string()], ", "), "a");
    assert_eq!(
        join_strings(&vec!["a".to_string(), "b".to_string(), "c".to_string()], ", "),
        "a, b, c"
    );
}

#[test]
fn string_comparison_is_by_characters() {
    assert!(str_eq("precedence", "precedence"));
    assert!(!str_eq("precedence", "assoc"));
    assert!(!str_eq("a", "ab"));
}
