use symbol_interner::text::{join3, same_text};
use symbol_interner::{
    intern_symbols, Alias, Associativity, InputGrammar, InternSymbolsError, Interner,
    MetadataParams, Precedence, Rule, Symbol, SymbolType, Variable,
};

fn grammar_with(variables: Vec<Variable>, external_tokens: Vec<Rule>) -> InputGrammar {
    InputGrammar {
        variables,
        external_tokens,
        ..Default::default()
    }
}

fn params() -> MetadataParams {
    MetadataParams {
        precedence: Precedence::Name("call".to_string()),
        dynamic_precedence: -3,
        associativity: Some(Associativity::Right),
        is_token: true,
        is_string: false,
        is_active: true,
        is_main_token: false,
        alias: Some(Alias { value: "callee".to_string(), is_named: true }),
        field_name: Some("function".to_string()),
    }
}

const WARNING_TAIL: &str =
    " contains a `seq` or `choice` rule with a single element. This is unnecessary.";

#[test]
fn wrappers_keep_what_they_carry() {
    let input = grammar_with(
        vec![
            Variable::named("start", Rule::string("s")),
            Variable::named("b", Rule::string("b")),
        ],
        vec![Rule::named("t")],
    );
    let interner = Interner { grammar: &input };
    let mut warnings = Vec::new();

    let tree = Rule::Metadata {
        params: params(),
        rule: Box::new(Rule::Reserved {
            rule: Box::new(Rule::Repeat(Box::new(Rule::Sequence(vec![
                Rule::named("b"),
                Rule::Blank,
                Rule::Pattern("[a-z]+".to_string(), "i".to_string()),
                Rule::named("t"),
                Rule::Symbol(Symbol { kind: SymbolType::Terminal, index: 7 }),
            ])))),
            context_name: "keywords".to_string(),
        }),
    };
    let resolved = interner.intern_rule(&tree, Some("start"), &mut warnings);
    assert_eq!(
        resolved,
        Ok(Rule::Metadata {
            params: params(),
            rule: Box::new(Rule::Reserved {
                rule: Box::new(Rule::Repeat(Box::new(Rule::Sequence(vec![
                    Rule::non_terminal(1),
                    Rule::Blank,
                    Rule::Pattern("[a-z]+".to_string(), "i".to_string()),
                    Rule::external(0),
                    Rule::Symbol(Symbol { kind: SymbolType::Terminal, index: 7 }),
                ])))),
                context_name: "keywords".to_string(),
            }),
        })
    );
    assert_eq!(warnings, Vec::<String>::new());
}

#[test]
fn leaves_are_returned_unchanged() {
    let input = grammar_with(vec![Variable::named("start", Rule::string("s"))], vec![]);
    let interner = Interner { grammar: &input };
    let mut warnings = Vec::new();
    for leaf in [
        Rule::Blank,
        Rule::string("start"),
        Rule::Pattern("start".to_string(), String::new()),
        Rule::non_terminal(12),
        Rule::external(3),
        Rule::Symbol(Symbol { kind: SymbolType::End, index: 0 }),
        Rule::Symbol(Symbol { kind: SymbolType::EndOfNonTerminalExtra, index: 0 }),
    ] {
        assert_eq!(interner.intern_rule(&leaf, None, &mut warnings), Ok(leaf.clone()));
    }
    assert_eq!(warnings, Vec::<String>::new());
}

#[test]
fn an_empty_choice_resolves_to_itself() {
    let input = grammar_with(vec![Variable::named("start", Rule::string("s"))], vec![]);
    let interner = Interner { grammar: &input };
    let mut warnings = Vec::new();
    assert_eq!(
        interner.intern_rule(&Rule::Choice(vec![]), None, &mut warnings),
        Ok(Rule::Choice(vec![]))
    );
    assert_eq!(
        interner.intern_rules(&vec![], Some("start"), &mut warnings),
        Ok(vec![])
    );
    assert_eq!(warnings, Vec::<String>::new());
}

#[test]
fn a_single_literal_gives_a_warning_under_the_variable_name() {
    let input = grammar_with(
        vec![
            Variable::named("start", Rule::choice(vec![Rule::string("only")])),
            Variable::named(
                "second",
                Rule::Sequence(vec![Rule::Pattern("\\d".to_string(), String::new())]),
            ),
        ],
        vec![],
    );
    let mut warnings = Vec::new();
    let grammar = intern_symbols(&input, &mut warnings).unwrap();
    assert_eq!(
        warnings,
        vec![
            format!("Warning: rule start{WARNING_TAIL}"),
            format!("Warning: rule second{WARNING_TAIL}"),
        ]
    );
    assert_eq!(
        warnings[0],
        "Warning: rule start contains a `seq` or `choice` rule with a single element. This is unnecessary."
    );
    assert_eq!(grammar.variables[0].rule, Rule::choice(vec![Rule::string("only")]));
}

#[test]
fn only_a_single_literal_gives_a_warning() {
    let input = grammar_with(
        vec![
            Variable::named("start", Rule::choice(vec![Rule::named("b")])),
            Variable::named("b", Rule::choice(vec![Rule::string("x"), Rule::string("y")])),
            Variable::named("c", Rule::Sequence(vec![])),
            Variable::named("d", Rule::Sequence(vec![Rule::Blank])),
            Variable::named("e", Rule::choice(vec![Rule::non_terminal(0)])),
            Variable::named("f", Rule::Repeat(Box::new(Rule::string("x")))),
            Variable::named("g", Rule::choice(vec![Rule::choice(vec![Rule::string("x")])])),
        ],
        vec![],
    );
    let mut warnings = Vec::new();
    intern_symbols(&input, &mut warnings).unwrap();
    assert_eq!(warnings, vec![format!("Warning: rule g{WARNING_TAIL}")]);
}

#[test]
fn warnings_outside_variables_bear_no_name() {
    let mut input = grammar_with(
        vec![Variable::named("start", Rule::string("s"))],
        vec![Rule::choice(vec![Rule::string("t")])],
    );
    input.extra_symbols = vec![Rule::Sequence(vec![Rule::string(" ")])];
    input.reserved_words = vec![symbol_interner::ReservedWordContext {
        name: "global".to_string(),
        reserved_words: vec![Rule::string("if"), Rule::choice(vec![Rule::string("else")])],
    }];
    let mut warnings = vec!["kept".to_string()];
    intern_symbols(&input, &mut warnings).unwrap();
    let unnamed = format!("Warning: rule {WARNING_TAIL}");
    assert_eq!(
        warnings,
        vec!["kept".to_string(), unnamed.clone(), unnamed.clone(), unnamed]
    );
}

#[test]
fn warnings_come_in_walk_order_and_end_with_the_first_failure() {
    let input = grammar_with(
        vec![
            Variable::named("start", Rule::choice(vec![Rule::string("a")])),
            Variable::named(
                "b",
                Rule::Sequence(vec![
                    Rule::choice(vec![Rule::string("b")]),
                    Rule::named("nowhere"),
                    Rule::choice(vec![Rule::string("never reached")]),
                ]),
            ),
            Variable::named("c", Rule::choice(vec![Rule::string("c")])),
        ],
        vec![Rule::choice(vec![Rule::string("t")])],
    );
    let mut warnings = Vec::new();
    let result = intern_symbols(&input, &mut warnings);
    assert_eq!(result, Err(InternSymbolsError::Undefined("nowhere".to_string())));
    assert_eq!(
        warnings,
        vec![
            format!("Warning: rule start{WARNING_TAIL}"),
            format!("Warning: rule b{WARNING_TAIL}"),
        ]
    );
}

#[test]
fn a_hidden_start_rule_gives_no_warning() {
    let input = grammar_with(
        vec![Variable::named("_start", Rule::choice(vec![Rule::string("a")]))],
        vec![],
    );
    let mut warnings = Vec::new();
    assert_eq!(
        intern_symbols(&input, &mut warnings),
        Err(InternSymbolsError::HiddenStartRule)
    );
    assert_eq!(warnings, Vec::<String>::new());
}

#[test]
fn an_undefined_supertype_keeps_reserved_words_from_being_walked() {
    let mut input = grammar_with(
        vec![Variable::named("start", Rule::choice(vec![Rule::string("a")]))],
        vec![],
    );
    input.supertype_symbols = vec!["nowhere".to_string()];
    input.reserved_words = vec![symbol_interner::ReservedWordContext {
        name: "global".to_string(),
        reserved_words: vec![Rule::choice(vec![Rule::string("if")])],
    }];
    let mut warnings = Vec::new();
    assert_eq!(
        intern_symbols(&input, &mut warnings),
        Err(InternSymbolsError::UndefinedSupertype("nowhere".to_string()))
    );
    assert_eq!(warnings, vec![format!("Warning: rule start{WARNING_TAIL}")]);
}

#[test]
fn check_single_adds_at_most_one_warning() {
    let input = grammar_with(vec![Variable::named("start", Rule::string("s"))], vec![]);
    let interner = Interner { grammar: &input };
    let mut warnings = Vec::new();
    interner.check_single(&vec![Rule::string("x")], Some("v"), &mut warnings);
    interner.check_single(&vec![Rule::string("x"), Rule::string("y")], Some("v"), &mut warnings);
    interner.check_single(&vec![], Some("v"), &mut warnings);
    interner.check_single(&vec![Rule::named("x")], Some("v"), &mut warnings);
    interner.check_single(
        &vec![Rule::Pattern("x".to_string(), String::new())],
        None,
        &mut warnings,
    );
    assert_eq!(
        warnings,
        vec![
            format!("Warning: rule v{WARNING_TAIL}"),
            format!("Warning: rule {WARNING_TAIL}"),
        ]
    );
}

#[test]
fn names_and_conflicts_resolve_in_order() {
    let input = grammar_with(
        vec![
            Variable::named("start", Rule::string("s")),
            Variable::named("b", Rule::string("b")),
        ],
        vec![Rule::named("t")],
    );
    let interner = Interner { grammar: &input };
    assert_eq!(
        interner.intern_names(&vec!["t".to_string(), "b".to_string(), "start".to_string()]),
        Ok(vec![Symbol::external(0), Symbol::non_terminal(1), Symbol::non_terminal(0)])
    );
    assert_eq!(
        interner.intern_names(&vec!["b".to_string(), "x".to_string(), "y".to_string()]),
        Err("x".to_string())
    );
    assert_eq!(interner.intern_names(&vec![]), Ok(vec![]));
    assert_eq!(interner.intern_word_token(), Ok(None));
    assert_eq!(interner.intern_inline(), vec![]);
    assert_eq!(interner.intern_conflicts(), Ok(vec![]));
}

#[test]
fn clones_are_equal_to_what_they_copy() {
    let tree = Rule::Metadata {
        params: params(),
        rule: Box::new(Rule::choice(vec![
            Rule::named("a"),
            Rule::Sequence(vec![Rule::string("b"), Rule::Blank]),
            Rule::Reserved { rule: Box::new(Rule::external(2)), context_name: "c".to_string() },
        ])),
    };
    assert_eq!(tree.clone(), tree);
    let variable = Variable::hidden("_v", tree);
    assert_eq!(variable.clone(), variable);
    assert_eq!(params().clone(), params());
}

#[test]
fn symbols_are_told_apart_by_kind_and_index() {
    assert_eq!(
        Symbol::non_terminal(4),
        Symbol { kind: SymbolType::NonTerminal, index: 4 }
    );
    assert_eq!(Symbol::external(4), Symbol { kind: SymbolType::External, index: 4 });
    assert!(Symbol::non_terminal(4).is_non_terminal_at(4));
    assert!(!Symbol::non_terminal(4).is_non_terminal_at(5));
    assert!(!Symbol::external(4).is_non_terminal_at(4));
}

#[test]
fn text_is_compared_by_its_characters() {
    assert!(same_text("", ""));
    assert!(same_text("rule", "rule"));
    assert!(!same_text("rule", "rules"));
    assert!(!same_text("rules", "rule"));
    assert!(!same_text("rule", "ruly"));
    assert!(!same_text("", "_"));
    assert!(same_text("größe_ß", "größe_ß"));
    assert!(!same_text("größe", "grösse"));
    assert!(!same_text("e\u{301}", "é"));
}

#[test]
fn text_is_joined_in_order() {
    assert_eq!(join3("a", "b", "c"), "abc");
    assert_eq!(join3("", "", ""), "");
    assert_eq!(join3("Undefined symbol `", "ü", "`"), "Undefined symbol `ü`");
}
