use symbol_interner::{
    intern_symbols, variable_type_for_name, InputGrammar, InternSymbolsError, InternedGrammar,
    Interner, PrecedenceEntry, ReservedWordContext, Rule, Symbol, SymbolType, Variable,
    VariableType,
};

fn build_grammar(variables: Vec<Variable>) -> InputGrammar {
    InputGrammar {
        variables,
        name: "the_language".to_string(),
        ..Default::default()
    }
}

fn intern(grammar: &InputGrammar) -> Result<InternedGrammar, InternSymbolsError> {
    let mut warnings = Vec::new();
    intern_symbols(grammar, &mut warnings)
}

fn names(list: &[&str]) -> Vec<String> {
    list.iter().map(|name| name.to_string()).collect()
}

#[test]
fn test_basic_repeat_expansion() {
    let grammar = intern(&build_grammar(vec![
        Variable::named("x", Rule::choice(vec![Rule::named("y"), Rule::named("_z")])),
        Variable::named("y", Rule::named("_z")),
        Variable::named("_z", Rule::string("a")),
    ]))
    .unwrap();

    assert_eq!(
        grammar.variables,
        vec![
            Variable::named(
                "x",
                Rule::choice(vec![Rule::non_terminal(1), Rule::non_terminal(2),])
            ),
            Variable::named("y", Rule::non_terminal(2)),
            Variable::hidden("_z", Rule::string("a")),
        ]
    );
}

#[test]
fn test_interning_external_token_names() {
    // Variable `y` is both an internal and an external token.
    // Variable `z` is just an external token.
    let mut input_grammar = build_grammar(vec![
        Variable::named(
            "w",
            Rule::choice(vec![Rule::named("x"), Rule::named("y"), Rule::named("z")]),
        ),
        Variable::named("x", Rule::string("a")),
        Variable::named("y", Rule::string("b")),
    ]);
    input_grammar
        .external_tokens
        .extend(vec![Rule::named("y"), Rule::named("z")]);

    let grammar = intern(&input_grammar).unwrap();

    // Variable `y` is referred to by its internal index.
    // Variable `z` is referred to by its external index.
    assert_eq!(
        grammar.variables,
        vec![
            Variable::named(
                "w",
                Rule::choice(vec![
                    Rule::non_terminal(1),
                    Rule::non_terminal(2),
                    Rule::external(1),
                ])
            ),
            Variable::named("x", Rule::string("a")),
            Variable::named("y", Rule::string("b")),
        ]
    );

    // The external token for `y` refers back to its internal index.
    assert_eq!(
        grammar.external_tokens,
        vec![
            Variable::named("y", Rule::non_terminal(2)),
            Variable::named("z", Rule::external(1)),
        ]
    );
}

#[test]
fn test_grammar_with_undefined_symbols() {
    let result = intern(&build_grammar(vec![Variable::named("x", Rule::named("y"))]));

    match result {
        Err(e) => assert_eq!(e.to_string(), "Undefined symbol `y`"),
        _ => panic!("Expected an error but got none"),
    }
}

#[test]
fn undefined_symbol_is_reported_by_name() {
    let result = intern(&build_grammar(vec![Variable::named("x", Rule::named("y"))]));
    assert_eq!(result, Err(InternSymbolsError::Undefined("y".to_string())));
}

#[test]
fn undefined_supertype_is_reported_by_name() {
    let mut grammar = build_grammar(vec![Variable::named("x", Rule::string("a"))]);
    grammar.supertype_symbols = names(&["x", "missing", "also_missing"]);
    let result = intern(&grammar);
    assert_eq!(
        result,
        Err(InternSymbolsError::UndefinedSupertype("missing".to_string()))
    );
}

#[test]
fn undefined_conflict_is_reported_by_name() {
    let mut grammar = build_grammar(vec![
        Variable::named("x", Rule::string("a")),
        Variable::named("y", Rule::string("b")),
    ]);
    grammar.expected_conflicts = vec![names(&["x", "y"]), names(&["y", "nowhere", "x"])];
    let result = intern(&grammar);
    assert_eq!(
        result,
        Err(InternSymbolsError::UndefinedConflict("nowhere".to_string()))
    );
}

#[test]
fn undefined_word_token_is_reported_by_name() {
    let mut grammar = build_grammar(vec![Variable::named("x", Rule::string("a"))]);
    grammar.word_token = Some("identifier".to_string());
    let result = intern(&grammar);
    assert_eq!(
        result,
        Err(InternSymbolsError::UndefinedWordToken("identifier".to_string()))
    );
}

#[test]
fn hidden_start_rule_fails_whatever_else_is_wrong() {
    let mut grammar = build_grammar(vec![
        Variable::named("_start", Rule::named("nowhere")),
        Variable::named("x", Rule::string("a")),
    ]);
    grammar.supertype_symbols = names(&["missing"]);
    grammar.word_token = Some("missing".to_string());
    assert_eq!(intern(&grammar), Err(InternSymbolsError::HiddenStartRule));

    let plain = build_grammar(vec![Variable::named("_start", Rule::string("a"))]);
    assert_eq!(intern(&plain), Err(InternSymbolsError::HiddenStartRule));
}

#[test]
fn a_hidden_variable_after_the_first_is_accepted() {
    let grammar = intern(&build_grammar(vec![
        Variable::named("start", Rule::named("_rest")),
        Variable::named("_rest", Rule::string("a")),
    ]))
    .unwrap();
    assert_eq!(grammar.variables[0].kind, VariableType::Named);
    assert_eq!(grammar.variables[1].kind, VariableType::Hidden);
}

#[test]
fn error_messages_are_exact() {
    assert_eq!(
        InternSymbolsError::HiddenStartRule.to_string(),
        "A grammar's start rule must be visible."
    );
    assert_eq!(
        InternSymbolsError::Undefined("y".to_string()).to_string(),
        "Undefined symbol `y`"
    );
    assert_eq!(
        InternSymbolsError::UndefinedSupertype("s".to_string()).to_string(),
        "Undefined symbol `s` in grammar's supertypes array"
    );
    assert_eq!(
        InternSymbolsError::UndefinedConflict("c".to_string()).to_string(),
        "Undefined symbol `c` in grammar's conflicts array"
    );
    assert_eq!(
        InternSymbolsError::UndefinedWordToken("w".to_string()).to_string(),
        "Undefined symbol `w` as grammar's word token"
    );
    assert_eq!(
        InternSymbolsError::Undefined(String::new()).to_string(),
        "Undefined symbol ``"
    );
}

#[test]
fn lengths_are_kept_when_every_name_resolves() {
    let mut input = build_grammar(vec![
        Variable::named("a", Rule::named("b")),
        Variable::named("b", Rule::named("c")),
        Variable::named("c", Rule::named("t")),
        Variable::named("d", Rule::string("d")),
    ]);
    input.external_tokens = vec![Rule::named("t"), Rule::string("!"), Rule::named("a")];
    let grammar = intern(&input).unwrap();
    assert_eq!(grammar.variables.len(), 4);
    assert_eq!(grammar.external_tokens.len(), 3);
    assert_eq!(grammar.variables[2].rule, Rule::external(0));
}

#[test]
fn variable_wins_over_external_token_of_the_same_name() {
    let mut input = build_grammar(vec![
        Variable::named("start", Rule::named("shared")),
        Variable::named("shared", Rule::string("s")),
    ]);
    input.external_tokens = vec![Rule::named("shared")];
    let interner = Interner { grammar: &input };
    assert_eq!(interner.intern_name("shared"), Some(Symbol::non_terminal(1)));
    let grammar = intern(&input).unwrap();
    assert_eq!(grammar.variables[0].rule, Rule::non_terminal(1));
    assert_eq!(
        grammar.external_tokens,
        vec![Variable::named("shared", Rule::non_terminal(1))]
    );
}

#[test]
fn first_declared_wins_among_equal_names() {
    let mut input = build_grammar(vec![
        Variable::named("start", Rule::string("s")),
        Variable::named("twice", Rule::string("1")),
        Variable::named("twice", Rule::string("2")),
    ]);
    input.external_tokens = vec![
        Rule::string("anonymous"),
        Rule::named("token"),
        Rule::named("token"),
    ];
    let interner = Interner { grammar: &input };
    assert_eq!(interner.intern_name("twice"), Some(Symbol::non_terminal(1)));
    assert_eq!(interner.intern_name("token"), Some(Symbol::external(1)));
    assert_eq!(interner.intern_name("start"), Some(Symbol::non_terminal(0)));
    assert_eq!(interner.intern_name("anonymous"), None);
    assert_eq!(interner.intern_name(""), None);
    assert_eq!(interner.intern_name("twic"), None);
    assert_eq!(interner.intern_name("twice "), None);
}

#[test]
fn an_external_token_is_found_only_as_a_bare_reference() {
    let mut input = build_grammar(vec![Variable::named("start", Rule::string("s"))]);
    input.external_tokens = vec![
        Rule::Repeat(Box::new(Rule::named("start"))),
        Rule::choice(vec![Rule::named("start")]),
        Rule::String("literal".to_string()),
    ];
    let interner = Interner { grammar: &input };
    assert_eq!(interner.intern_name("literal"), None);
    let grammar = intern(&input).unwrap();
    assert_eq!(
        grammar.external_tokens,
        vec![
            Variable {
                name: String::new(),
                kind: VariableType::Anonymous,
                rule: Rule::Repeat(Box::new(Rule::non_terminal(0))),
            },
            Variable {
                name: String::new(),
                kind: VariableType::Anonymous,
                rule: Rule::choice(vec![Rule::non_terminal(0)]),
            },
            Variable {
                name: String::new(),
                kind: VariableType::Anonymous,
                rule: Rule::string("literal"),
            },
        ]
    );
}

#[test]
fn an_external_token_takes_the_kind_that_its_name_asks_for() {
    let mut input = build_grammar(vec![Variable::named("start", Rule::named("_hidden"))]);
    input.external_tokens = vec![Rule::named("_hidden"), Rule::named("shown")];
    let grammar = intern(&input).unwrap();
    assert_eq!(
        grammar.external_tokens,
        vec![
            Variable::hidden("_hidden", Rule::external(0)),
            Variable::named("shown", Rule::external(1)),
        ]
    );
    assert_eq!(grammar.variables[0].rule, Rule::external(0));
}

#[test]
fn interning_twice_gives_the_same_grammar() {
    let mut input = build_grammar(vec![
        Variable::named("a", Rule::choice(vec![Rule::string("only")])),
        Variable::named("b", Rule::named("a")),
    ]);
    input.variables_to_inline = names(&["b", "nowhere"]);
    input.supertype_symbols = names(&["b"]);
    let mut first_warnings = Vec::new();
    let mut second_warnings = Vec::new();
    let first = intern_symbols(&input, &mut first_warnings);
    let second = intern_symbols(&input, &mut second_warnings);
    assert!(first.is_ok());
    assert_eq!(first, second);
    assert_eq!(first_warnings, second_warnings);

    let failing = build_grammar(vec![Variable::named("a", Rule::named("nowhere"))]);
    assert_eq!(intern(&failing), intern(&failing));
}

#[test]
fn supertypes_are_hidden_whatever_their_names() {
    let mut input = build_grammar(vec![
        Variable::named("start", Rule::named("expression")),
        Variable::named("expression", Rule::named("number")),
        Variable::named("number", Rule::string("1")),
        Variable::named("_skipped", Rule::string("2")),
    ]);
    input.supertype_symbols = names(&["expression"]);
    let grammar = intern(&input).unwrap();
    assert_eq!(grammar.supertype_symbols, vec![Symbol::non_terminal(1)]);
    assert_eq!(
        grammar.variables,
        vec![
            Variable::named("start", Rule::non_terminal(1)),
            Variable::hidden("expression", Rule::non_terminal(2)),
            Variable::named("number", Rule::string("1")),
            Variable::hidden("_skipped", Rule::string("2")),
        ]
    );
}

#[test]
fn an_external_supertype_hides_no_variable() {
    let mut input = build_grammar(vec![
        Variable::named("start", Rule::named("token")),
        Variable::named("other", Rule::string("o")),
    ]);
    input.external_tokens = vec![Rule::named("ignored"), Rule::named("token")];
    input.supertype_symbols = names(&["token"]);
    let grammar = intern(&input).unwrap();
    assert_eq!(grammar.supertype_symbols, vec![Symbol::external(1)]);
    assert_eq!(grammar.variables[0].kind, VariableType::Named);
    assert_eq!(grammar.variables[1].kind, VariableType::Named);
}

#[test]
fn a_supertype_may_be_the_start_rule() {
    let mut input = build_grammar(vec![Variable::named("start", Rule::string("s"))]);
    input.supertype_symbols = names(&["start"]);
    let grammar = intern(&input).unwrap();
    assert_eq!(grammar.variables, vec![Variable::hidden("start", Rule::string("s"))]);
}

#[test]
fn inline_hints_that_do_not_resolve_are_left_out() {
    let mut input = build_grammar(vec![
        Variable::named("start", Rule::named("b")),
        Variable::named("b", Rule::string("b")),
    ]);
    input.external_tokens = vec![Rule::named("t")];
    input.variables_to_inline = names(&["nowhere", "b", "missing", "t", "start", "b"]);
    let grammar = intern(&input).unwrap();
    assert_eq!(
        grammar.variables_to_inline,
        vec![
            Symbol::non_terminal(1),
            Symbol::external(0),
            Symbol::non_terminal(0),
            Symbol::non_terminal(1),
        ]
    );
}

#[test]
fn no_inline_hint_need_resolve() {
    let mut input = build_grammar(vec![Variable::named("start", Rule::string("s"))]);
    input.variables_to_inline = names(&["nowhere", "missing"]);
    let grammar = intern(&input).unwrap();
    assert_eq!(grammar.variables_to_inline, Vec::<Symbol>::new());
    assert_eq!(grammar.variables.len(), 1);
}

#[test]
fn the_first_failure_in_walk_order_is_returned() {
    // An undefined name in a variable comes before every other failure.
    let mut input = build_grammar(vec![
        Variable::named("start", Rule::string("s")),
        Variable::named("a", Rule::Sequence(vec![Rule::named("one"), Rule::named("two")])),
        Variable::named("b", Rule::named("three")),
    ]);
    input.external_tokens = vec![Rule::Repeat(Box::new(Rule::named("four")))];
    input.extra_symbols = vec![Rule::named("five")];
    input.supertype_symbols = names(&["six"]);
    input.reserved_words = vec![ReservedWordContext {
        name: "global".to_string(),
        reserved_words: vec![Rule::named("seven")],
    }];
    input.expected_conflicts = vec![names(&["eight"])];
    input.word_token = Some("nine".to_string());
    assert_eq!(intern(&input), Err(InternSymbolsError::Undefined("one".to_string())));

    input.variables[1].rule = Rule::string("a");
    assert_eq!(intern(&input), Err(InternSymbolsError::Undefined("three".to_string())));
    input.variables[2].rule = Rule::string("b");
    assert_eq!(intern(&input), Err(InternSymbolsError::Undefined("four".to_string())));
    input.external_tokens = vec![];
    assert_eq!(intern(&input), Err(InternSymbolsError::Undefined("five".to_string())));
    input.extra_symbols = vec![Rule::named("a")];
    assert_eq!(
        intern(&input),
        Err(InternSymbolsError::UndefinedSupertype("six".to_string()))
    );
    input.supertype_symbols = names(&["b"]);
    assert_eq!(intern(&input), Err(InternSymbolsError::Undefined("seven".to_string())));
    input.reserved_words[0].reserved_words = vec![Rule::named("a")];
    assert_eq!(
        intern(&input),
        Err(InternSymbolsError::UndefinedConflict("eight".to_string()))
    );
    input.expected_conflicts = vec![names(&["a", "b"])];
    assert_eq!(
        intern(&input),
        Err(InternSymbolsError::UndefinedWordToken("nine".to_string()))
    );
    input.word_token = Some("a".to_string());

    let grammar = intern(&input).unwrap();
    assert_eq!(grammar.extra_symbols, vec![Rule::non_terminal(1)]);
    assert_eq!(grammar.supertype_symbols, vec![Symbol::non_terminal(2)]);
    assert_eq!(
        grammar.reserved_word_sets,
        vec![ReservedWordContext {
            name: "global".to_string(),
            reserved_words: vec![Rule::non_terminal(1)],
        }]
    );
    assert_eq!(
        grammar.expected_conflicts,
        vec![vec![Symbol::non_terminal(1), Symbol::non_terminal(2)]]
    );
    assert_eq!(grammar.word_token, Some(Symbol::non_terminal(1)));
    assert_eq!(grammar.variables[2].kind, VariableType::Hidden);
}

#[test]
fn the_first_undefined_name_of_a_tree_is_the_leftmost() {
    let tree = Rule::Sequence(vec![
        Rule::string("("),
        Rule::choice(vec![
            Rule::named("start"),
            Rule::Repeat(Box::new(Rule::named("left"))),
        ]),
        Rule::named("right"),
    ]);
    let input = build_grammar(vec![Variable::named("start", tree)]);
    assert_eq!(intern(&input), Err(InternSymbolsError::Undefined("left".to_string())));
}

#[test]
fn without_a_word_token_there_is_none() {
    let input = build_grammar(vec![Variable::named("start", Rule::string("s"))]);
    let grammar = intern(&input).unwrap();
    assert_eq!(grammar.word_token, None);
    assert_eq!(grammar.extra_symbols, Vec::<Rule>::new());
    assert_eq!(grammar.expected_conflicts, Vec::<Vec<Symbol>>::new());
    assert_eq!(grammar.reserved_word_sets, Vec::<ReservedWordContext>::new());
}

#[test]
fn the_word_token_may_be_external() {
    let mut input = build_grammar(vec![Variable::named("start", Rule::string("s"))]);
    input.external_tokens = vec![Rule::named("word")];
    input.word_token = Some("word".to_string());
    let grammar = intern(&input).unwrap();
    assert_eq!(
        grammar.word_token,
        Some(Symbol { kind: SymbolType::External, index: 0 })
    );
}

#[test]
fn precedence_orderings_pass_through() {
    let mut input = build_grammar(vec![Variable::named("start", Rule::string("s"))]);
    input.precedence_orderings = vec![
        vec![
            PrecedenceEntry::Name("high".to_string()),
            PrecedenceEntry::Symbol("nowhere".to_string()),
        ],
        vec![],
        vec![PrecedenceEntry::Name("low".to_string())],
    ];
    let grammar = intern(&input).unwrap();
    assert_eq!(grammar.precedence_orderings, input.precedence_orderings);
}

#[test]
fn kinds_follow_the_leading_underscore() {
    assert_eq!(variable_type_for_name("_hidden"), VariableType::Hidden);
    assert_eq!(variable_type_for_name("_"), VariableType::Hidden);
    assert_eq!(variable_type_for_name("shown"), VariableType::Named);
    assert_eq!(variable_type_for_name("not_hidden_"), VariableType::Named);
    assert_eq!(variable_type_for_name(""), VariableType::Named);
    assert_eq!(variable_type_for_name(" _x"), VariableType::Named);
    assert_eq!(variable_type_for_name("é_"), VariableType::Named);
}

#[test]
fn the_input_grammar_is_left_as_it_was() {
    let mut input = build_grammar(vec![
        Variable::named("start", Rule::named("b")),
        Variable::named("b", Rule::string("b")),
    ]);
    input.supertype_symbols = names(&["b"]);
    let before = build_grammar(vec![
        Variable::named("start", Rule::named("b")),
        Variable::named("b", Rule::string("b")),
    ]);
    let _ = intern(&input).unwrap();
    assert_eq!(input.variables, before.variables);
    assert_eq!(input.name, "the_language");
}
