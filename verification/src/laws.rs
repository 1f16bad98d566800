//! What holds of interning, for every grammar.

use vstd::prelude::*;
use crate::error::{outcome, InternSymbolsError, InternSymbolsErrorView};
use crate::grammars::{
    InputGrammar,
    InputGrammarView,
    InternedGrammar,
    InternedGrammarView,
    ReservedWordContextView,
    VariableType,
    VariableView,
};
use crate::resolution::{
    all_names_resolve,
    external_names,
    external_token_results,
    has_hidden_start,
    interned,
    interning_warnings,
    kind_for_name,
    name_result,
    reclassify,
    reserved_word_results,
    resolve_conflicts,
    resolve_external_tokens,
    resolve_inline,
    resolve_name,
    resolve_names,
    resolve_reserved_words,
    resolve_rule,
    resolve_rules,
    resolve_variables,
    resolve_word_token,
    rule_names_resolve,
    rule_results,
    variable_names,
    variable_results,
};
use crate::rules::{RuleView, Symbol};
use crate::sequences::{
    collect,
    lemma_collect_concat,
    lemma_collect_ok,
    lemma_collect_same_failures,
};

verus! {

/// A rule resolves exactly when every name in it does.
pub proof fn lemma_rule_resolves(grammar: InputGrammarView, rule: RuleView)
    ensures
        resolve_rule(grammar, rule) is Ok <==> rule_names_resolve(grammar, rule),
    decreases rule,
{
    match rule {
        RuleView::Choice(elements) => {
            lemma_rules_resolve(grammar, elements);
        },
        RuleView::Sequence(elements) => {
            lemma_rules_resolve(grammar, elements);
        },
        RuleView::Repeat(content) => {
            lemma_rule_resolves(grammar, *content);
        },
        RuleView::Metadata { params, rule } => {
            lemma_rule_resolves(grammar, *rule);
        },
        RuleView::Reserved { rule, context_name } => {
            lemma_rule_resolves(grammar, *rule);
        },
        _ => {},
    }
}

/// A list of rules resolves exactly when every name in every one of them
/// does, and then to as many rules as it holds.
pub proof fn lemma_rules_resolve(grammar: InputGrammarView, rules: Seq<RuleView>)
    ensures
        resolve_rules(grammar, rules) is Ok <==> forall|i: int|
            0 <= i < rules.len() ==> rule_names_resolve(grammar, #[trigger] rules[i]),
        resolve_rules(grammar, rules) matches Ok(resolved) ==> resolved.len() == rules.len(),
    decreases rules,
{
    let results = rule_results(grammar, rules);
    lemma_collect_ok(results);
    assert forall|i: int| 0 <= i < rules.len() implies (results[i] is Ok <==> rule_names_resolve(
        grammar,
        #[trigger] rules[i],
    )) by {
        lemma_rule_resolves(grammar, rules[i]);
    }
}

/// A list of names resolves exactly when every one of them does.
pub proof fn lemma_names_resolve(grammar: InputGrammarView, names: Seq<Seq<char>>)
    ensures
        resolve_names(grammar, names) is Ok <==> forall|i: int|
            0 <= i < names.len() ==> resolve_name(grammar, #[trigger] names[i]) is Some,
{
    let results = names.map_values(|name: Seq<char>| name_result(grammar, name));
    lemma_collect_ok(results);
    assert forall|i: int| 0 <= i < names.len() implies (results[i] is Ok <==> resolve_name(
        grammar,
        #[trigger] names[i],
    ) is Some) by {}
}

/// Interning succeeds exactly on the grammars whose start rule is visible
/// and whose names all resolve, inline hints aside. It then keeps every
/// variable and every external token, each in its place.
pub proof fn lemma_interning_succeeds(grammar: InputGrammarView)
    requires
        grammar.variables.len() > 0,
    ensures
        interned(grammar) is Ok <==> !has_hidden_start(grammar) && all_names_resolve(grammar),
        interned(grammar) matches Ok(result) ==> {
            &&& result.variables.len() == grammar.variables.len()
            &&& result.external_tokens.len() == grammar.external_tokens.len()
        },
{
    let variables = variable_results(grammar, grammar.variables);
    lemma_collect_ok(variables);
    assert forall|i: int| 0 <= i < grammar.variables.len() implies (variables[i] is Ok
        <==> rule_names_resolve(grammar, (#[trigger] grammar.variables[i]).rule)) by {
        lemma_rule_resolves(grammar, grammar.variables[i].rule);
    }
    let external_tokens = external_token_results(grammar, grammar.external_tokens);
    lemma_collect_ok(external_tokens);
    assert forall|i: int| 0 <= i < grammar.external_tokens.len() implies (external_tokens[i] is Ok
        <==> rule_names_resolve(grammar, #[trigger] grammar.external_tokens[i])) by {
        lemma_rule_resolves(grammar, grammar.external_tokens[i]);
    }
    lemma_rules_resolve(grammar, grammar.extra_symbols);
    lemma_names_resolve(grammar, grammar.supertype_symbols);
    let reserved_words = reserved_word_results(grammar, grammar.reserved_words);
    lemma_collect_ok(reserved_words);
    assert forall|i: int| 0 <= i < grammar.reserved_words.len() implies (reserved_words[i] is Ok
        <==> forall|j: int|
        0 <= j < grammar.reserved_words[i].reserved_words.len() ==> rule_names_resolve(
            grammar,
            #[trigger] grammar.reserved_words[i].reserved_words[j],
        )) by {
        lemma_rules_resolve(grammar, grammar.reserved_words[i].reserved_words);
    }
    let conflicts = grammar.expected_conflicts.map_values(
        |group: Seq<Seq<char>>| resolve_names(grammar, group),
    );
    lemma_collect_ok(conflicts);
    assert forall|i: int| 0 <= i < grammar.expected_conflicts.len() implies (conflicts[i] is Ok
        <==> forall|j: int|
        0 <= j < grammar.expected_conflicts[i].len() ==> resolve_name(
            grammar,
            #[trigger] grammar.expected_conflicts[i][j],
        ) is Some) by {
        lemma_names_resolve(grammar, grammar.expected_conflicts[i]);
    }
    if !has_hidden_start(grammar) && all_names_resolve(grammar) {
        assert(resolve_variables(grammar) is Ok);
        assert(resolve_external_tokens(grammar) is Ok);
        assert(forall|i: int| 0 <= i < reserved_words.len() ==> reserved_words[i] is Ok);
        assert(resolve_reserved_words(grammar) is Ok);
        assert(forall|i: int| 0 <= i < conflicts.len() ==> conflicts[i] is Ok);
        assert(resolve_conflicts(grammar, grammar.expected_conflicts) is Ok);
        assert(resolve_word_token(grammar, grammar.word_token) is Ok);
    }
    if interned(grammar) is Ok {
        assert(forall|i: int| 0 <= i < variables.len() ==> variables[i] is Ok);
        assert(forall|i: int| 0 <= i < external_tokens.len() ==> external_tokens[i] is Ok);
        assert(forall|i: int| 0 <= i < reserved_words.len() ==> reserved_words[i] is Ok);
        assert(forall|i: int| 0 <= i < conflicts.len() ==> conflicts[i] is Ok);
        assert forall|i: int| 0 <= i < grammar.variables.len() implies rule_names_resolve(
            grammar,
            (#[trigger] grammar.variables[i]).rule,
        ) by {
            assert(variables[i] is Ok);
        }
        assert forall|i: int| 0 <= i < grammar.external_tokens.len() implies rule_names_resolve(
            grammar,
            #[trigger] grammar.external_tokens[i],
        ) by {
            assert(external_tokens[i] is Ok);
        }
        assert forall|i: int, j: int|
            0 <= i < grammar.reserved_words.len() && 0 <= j
                < grammar.reserved_words[i].reserved_words.len() implies rule_names_resolve(
            grammar,
            #[trigger] grammar.reserved_words[i].reserved_words[j],
        ) by {
            assert(reserved_words[i] is Ok);
        }
        assert forall|i: int, j: int|
            0 <= i < grammar.expected_conflicts.len() && 0 <= j
                < grammar.expected_conflicts[i].len() implies resolve_name(
            grammar,
            #[trigger] grammar.expected_conflicts[i][j],
        ) is Some by {
            assert(conflicts[i] is Ok);
        }
        assert(all_names_resolve(grammar));
    }
}

/// A grammar whose first variable is hidden by its name fails with
/// `HiddenStartRule` and gives no warning, whatever else it holds.
pub proof fn lemma_hidden_start_fails(grammar: InputGrammarView)
    requires
        grammar.variables.len() > 0,
        has_hidden_start(grammar),
    ensures
        interned(grammar) == Err::<InternedGrammarView, InternSymbolsErrorView>(
            InternSymbolsErrorView::HiddenStartRule,
        ),
        interning_warnings(grammar) == Seq::<Seq<char>>::empty(),
{
}

/// The names that `rule` refers to, from left to right.
pub open spec fn referenced_names(rule: RuleView) -> Seq<Seq<char>>
    decreases rule,
{
    match rule {
        RuleView::NamedSymbol(name) => seq![name],
        RuleView::Choice(elements) => names_of_rules(elements),
        RuleView::Sequence(elements) => names_of_rules(elements),
        RuleView::Repeat(content) => referenced_names(*content),
        RuleView::Metadata { params, rule } => referenced_names(*rule),
        RuleView::Reserved { rule, context_name } => referenced_names(*rule),
        RuleView::Blank | RuleView::String(_) | RuleView::Pattern(_, _) | RuleView::Symbol(_) => Seq::empty(),
    }
}

/// The names that `rules` refer to, rule after rule, each from left to
/// right.
pub open spec fn names_of_rules(rules: Seq<RuleView>) -> Seq<Seq<char>>
    decreases rules,
{
    if rules.len() == 0 {
        Seq::empty()
    } else {
        names_of_rules(rules.drop_last()) + referenced_names(rules.last())
    }
}

/// The rules that are walked before the supertypes are looked up: those of
/// the variables, the external tokens and the extra symbols, in that
/// order.
pub open spec fn rules_before_supertypes(grammar: InputGrammarView) -> Seq<RuleView> {
    grammar.variables.map_values(|variable: VariableView| variable.rule) + grammar.external_tokens
        + grammar.extra_symbols
}

/// The rules of `sets`, context after context.
pub open spec fn reserved_word_rules(sets: Seq<ReservedWordContextView>) -> Seq<RuleView>
    decreases sets.len(),
{
    if sets.len() == 0 {
        Seq::empty()
    } else {
        reserved_word_rules(sets.drop_last()) + sets.last().reserved_words
    }
}

/// A rule fails with the first of its names, from left to right, that does
/// not resolve, and succeeds if there is none.
pub proof fn lemma_rule_reports_first_unresolved(grammar: InputGrammarView, rule: RuleView)
    ensures
        match resolve_names(grammar, referenced_names(rule)) {
            Ok(_) => resolve_rule(grammar, rule) is Ok,
            Err(name) => resolve_rule(grammar, rule) == Err::<RuleView, InternSymbolsErrorView>(
                InternSymbolsErrorView::Undefined(name),
            ),
        },
    decreases rule,
{
    match rule {
        RuleView::NamedSymbol(name) => {
            let results = seq![name].map_values(|name: Seq<char>| name_result(grammar, name));
            assert(results.len() == 1);
            assert(results.drop_last().len() == 0);
            assert(results.last() == name_result(grammar, name));
            assert(collect(results.drop_last()) is Ok);
        },
        RuleView::Choice(elements) => {
            lemma_rules_report_first_unresolved(grammar, elements);
        },
        RuleView::Sequence(elements) => {
            lemma_rules_report_first_unresolved(grammar, elements);
        },
        RuleView::Repeat(content) => {
            lemma_rule_reports_first_unresolved(grammar, *content);
        },
        RuleView::Metadata { params, rule } => {
            lemma_rule_reports_first_unresolved(grammar, *rule);
        },
        RuleView::Reserved { rule, context_name } => {
            lemma_rule_reports_first_unresolved(grammar, *rule);
        },
        _ => {
            assert(Seq::<Seq<char>>::empty().map_values(
                |name: Seq<char>| name_result(grammar, name),
            ).len() == 0);
        },
    }
}

/// A list of rules fails with the first of its names, in the order of the
/// list, that does not resolve, and succeeds if there is none.
pub proof fn lemma_rules_report_first_unresolved(grammar: InputGrammarView, rules: Seq<RuleView>)
    ensures
        match resolve_names(grammar, names_of_rules(rules)) {
            Ok(_) => resolve_rules(grammar, rules) is Ok,
            Err(name) => resolve_rules(grammar, rules) == Err::<
                Seq<RuleView>,
                InternSymbolsErrorView,
            >(InternSymbolsErrorView::Undefined(name)),
        },
    decreases rules,
{
    let lookup = |name: Seq<char>| name_result(grammar, name);
    if rules.len() == 0 {
        assert(names_of_rules(rules).map_values(lookup).len() == 0);
    } else {
        let before = rules.drop_last();
        lemma_rules_report_first_unresolved(grammar, before);
        lemma_rule_reports_first_unresolved(grammar, rules.last());
        let names_before = names_of_rules(before);
        let names_last = referenced_names(rules.last());
        assert((names_before + names_last).map_values(lookup) =~= names_before.map_values(lookup)
            + names_last.map_values(lookup));
        lemma_collect_concat(names_before.map_values(lookup), names_last.map_values(lookup));
        assert(rule_results(grammar, rules).drop_last() =~= rule_results(grammar, before));
    }
}

/// A list of rules in two parts resolves as its parts do, the second
/// counting only if the first succeeds.
pub proof fn lemma_rules_concat(grammar: InputGrammarView, first: Seq<RuleView>, second: Seq<RuleView>)
    ensures
        resolve_rules(grammar, first + second) == match resolve_rules(grammar, first) {
            Err(error) => Err::<Seq<RuleView>, InternSymbolsErrorView>(error),
            Ok(resolved) => match resolve_rules(grammar, second) {
                Ok(more) => Ok(resolved + more),
                Err(error) => Err(error),
            },
        },
{
    assert(rule_results(grammar, first + second) =~= rule_results(grammar, first) + rule_results(
        grammar,
        second,
    ));
    lemma_collect_concat(rule_results(grammar, first), rule_results(grammar, second));
}

/// The reserved-word contexts resolve exactly when their rules, taken as
/// one list, do, and fail with the same error.
pub proof fn lemma_reserved_words_fail_as_their_rules(
    grammar: InputGrammarView,
    sets: Seq<ReservedWordContextView>,
)
    ensures
        match resolve_rules(grammar, reserved_word_rules(sets)) {
            Ok(_) => collect(reserved_word_results(grammar, sets)) is Ok,
            Err(error) => collect(reserved_word_results(grammar, sets)) == Err::<
                Seq<ReservedWordContextView>,
                InternSymbolsErrorView,
            >(error),
        },
    decreases sets.len(),
{
    if sets.len() == 0 {
        assert(rule_results(grammar, reserved_word_rules(sets)).len() == 0);
    } else {
        let before = sets.drop_last();
        lemma_reserved_words_fail_as_their_rules(grammar, before);
        lemma_rules_concat(grammar, reserved_word_rules(before), sets.last().reserved_words);
        assert(reserved_word_results(grammar, sets).drop_last() =~= reserved_word_results(
            grammar,
            before,
        ));
    }
}

/// Interning fails with `Undefined` and the first name, in walk order,
/// that a rule refers to and that does not resolve: the first among the
/// rules of the variables, the external tokens and the extra symbols, or,
/// where there is none and every supertype resolves, the first among the
/// reserved words. A grammar whose start rule is hidden fails before any
/// rule is walked.
pub proof fn lemma_undefined_is_first_unresolved(grammar: InputGrammarView)
    requires
        grammar.variables.len() > 0,
        !has_hidden_start(grammar),
    ensures
        match resolve_names(grammar, names_of_rules(rules_before_supertypes(grammar))) {
            Err(name) => interned(grammar) == Err::<InternedGrammarView, InternSymbolsErrorView>(
                InternSymbolsErrorView::Undefined(name),
            ),
            Ok(_) => match resolve_names(grammar, grammar.supertype_symbols) {
                Err(name) => interned(grammar) == Err::<
                    InternedGrammarView,
                    InternSymbolsErrorView,
                >(InternSymbolsErrorView::UndefinedSupertype(name)),
                Ok(_) => match resolve_names(
                    grammar,
                    names_of_rules(reserved_word_rules(grammar.reserved_words)),
                ) {
                    Err(name) => interned(grammar) == Err::<
                        InternedGrammarView,
                        InternSymbolsErrorView,
                    >(InternSymbolsErrorView::Undefined(name)),
                    Ok(_) => !(interned(grammar) matches Err(InternSymbolsErrorView::Undefined(_))),
                },
            },
        },
{
    let variable_rules = grammar.variables.map_values(|variable: VariableView| variable.rule);
    lemma_rules_report_first_unresolved(grammar, rules_before_supertypes(grammar));
    lemma_rules_concat(grammar, variable_rules + grammar.external_tokens, grammar.extra_symbols);
    lemma_rules_concat(grammar, variable_rules, grammar.external_tokens);
    lemma_collect_same_failures(
        rule_results(grammar, variable_rules),
        variable_results(grammar, grammar.variables),
    );
    lemma_collect_same_failures(
        rule_results(grammar, grammar.external_tokens),
        external_token_results(grammar, grammar.external_tokens),
    );
    lemma_rules_report_first_unresolved(grammar, reserved_word_rules(grammar.reserved_words));
    lemma_reserved_words_fail_as_their_rules(grammar, grammar.reserved_words);
}

/// A name that some variable bears resolves to a variable, the first of
/// that name, whether or not an external token refers to the name too.
pub proof fn lemma_variable_wins(grammar: InputGrammarView, name: Seq<char>, i: int) -> (first: int)
    requires
        0 <= i < grammar.variables.len(),
        grammar.variables[i].name == name,
    ensures
        0 <= first <= i,
        grammar.variables[first].name == name,
        forall|j: int| 0 <= j < first ==> (#[trigger] grammar.variables[j]).name != name,
        resolve_name(grammar, name) == Some(Symbol::non_terminal(first as usize)),
{
    let names = variable_names(grammar);
    assert(names[i] == name);
    names.index_of_first_ensures(name);
    let first = names.index_of_first(name)->Some_0;
    assert forall|j: int| 0 <= j < first implies (#[trigger] grammar.variables[j]).name != name by {
        assert(names[j] != name);
    }
    first
}

/// A name that no variable bears, and to which some external token is a
/// bare reference, resolves to the first such token.
pub proof fn lemma_external_token_resolves(grammar: InputGrammarView, name: Seq<char>, i: int) -> (first:
    int)
    requires
        forall|j: int| 0 <= j < grammar.variables.len() ==> (#[trigger] grammar.variables[j]).name
            != name,
        0 <= i < grammar.external_tokens.len(),
        grammar.external_tokens[i] == RuleView::NamedSymbol(name),
    ensures
        0 <= first <= i,
        grammar.external_tokens[first] == RuleView::NamedSymbol(name),
        forall|j: int|
            0 <= j < first ==> #[trigger] grammar.external_tokens[j] != RuleView::NamedSymbol(name),
        resolve_name(grammar, name) == Some(Symbol::external(first as usize)),
{
    let names = variable_names(grammar);
    names.index_of_first_ensures(name);
    if names.contains(name) {
        let k = choose|k: int| 0 <= k < names.len() && names[k] == name;
        assert(grammar.variables[k].name == name);
    }
    let tokens = external_names(grammar);
    assert(tokens[i] == Some(name));
    tokens.index_of_first_ensures(Some(name));
    let first = tokens.index_of_first(Some(name))->Some_0;
    assert forall|j: int| 0 <= j < first implies #[trigger] grammar.external_tokens[j]
        != RuleView::NamedSymbol(name) by {
        assert(tokens[j] != Some(name));
    }
    first
}

/// A name that no variable bears and no external token is a bare reference
/// to does not resolve.
pub proof fn lemma_unknown_name(grammar: InputGrammarView, name: Seq<char>)
    requires
        forall|j: int| 0 <= j < grammar.variables.len() ==> (#[trigger] grammar.variables[j]).name
            != name,
        forall|j: int|
            0 <= j < grammar.external_tokens.len() ==> #[trigger] grammar.external_tokens[j]
                != RuleView::NamedSymbol(name),
    ensures
        resolve_name(grammar, name) is None,
{
    let names = variable_names(grammar);
    names.index_of_first_ensures(name);
    if names.contains(name) {
        let k = choose|k: int| 0 <= k < names.len() && names[k] == name;
        assert(grammar.variables[k].name == name);
    }
    let tokens = external_names(grammar);
    tokens.index_of_first_ensures(Some(name));
    if tokens.contains(Some(name)) {
        let k = choose|k: int| 0 <= k < tokens.len() && tokens[k] == Some(name);
        assert(grammar.external_tokens[k] == RuleView::NamedSymbol(name));
    }
}

/// Interning the same grammar twice gives the same result and the same
/// warnings: whatever two runs return on grammars of one value has one
/// value.
pub proof fn lemma_interning_is_deterministic(
    first: InputGrammar,
    second: InputGrammar,
    first_result: Result<InternedGrammar, InternSymbolsError>,
    second_result: Result<InternedGrammar, InternSymbolsError>,
    first_warnings: Vec<String>,
    second_warnings: Vec<String>,
)
    requires
        first@ == second@,
        outcome(first_result) == interned(first@),
        outcome(second_result) == interned(second@),
        first_warnings.deep_view() == interning_warnings(first@),
        second_warnings.deep_view() == interning_warnings(second@),
    ensures
        outcome(first_result) == outcome(second_result),
        first_warnings.deep_view() == second_warnings.deep_view(),
{
}

/// In an interned grammar every variable keeps its name; its kind is
/// `Hidden` if its position is among the supertypes, whatever its name,
/// and else the kind that its name asks for.
pub proof fn lemma_supertypes_are_hidden(grammar: InputGrammarView)
    requires
        grammar.variables.len() > 0,
        interned(grammar) is Ok,
    ensures
        ({
            let result = interned(grammar)->Ok_0;
            forall|i: int|
                0 <= i < result.variables.len() ==> {
                    let variable = #[trigger] result.variables[i];
                    &&& variable.name == grammar.variables[i].name
                    &&& result.supertype_symbols.contains(Symbol::non_terminal(i as usize))
                        ==> variable.kind == VariableType::Hidden
                    &&& !result.supertype_symbols.contains(Symbol::non_terminal(i as usize))
                        ==> variable.kind == kind_for_name(variable.name)
                }
        }),
{
    let results = variable_results(grammar, grammar.variables);
    lemma_collect_ok(results);
    let resolved = resolve_variables(grammar)->Ok_0;
    let result = interned(grammar)->Ok_0;
    assert(result.variables == reclassify(resolved, result.supertype_symbols));
    assert forall|i: int| 0 <= i < result.variables.len() implies {
        let variable = #[trigger] result.variables[i];
        &&& variable.name == grammar.variables[i].name
        &&& result.supertype_symbols.contains(Symbol::non_terminal(i as usize)) ==> variable.kind
            == VariableType::Hidden
        &&& !result.supertype_symbols.contains(Symbol::non_terminal(i as usize)) ==> variable.kind
            == kind_for_name(variable.name)
    } by {
        assert(results[i] == Ok::<VariableView, InternSymbolsErrorView>(resolved[i]));
    }
}

/// The grammar with `hints` in place of its inline hints.
pub open spec fn with_inline_hints(grammar: InputGrammarView, hints: Seq<Seq<char>>) -> InputGrammarView {
    InputGrammarView {
        name: grammar.name,
        variables: grammar.variables,
        extra_symbols: grammar.extra_symbols,
        expected_conflicts: grammar.expected_conflicts,
        precedence_orderings: grammar.precedence_orderings,
        external_tokens: grammar.external_tokens,
        variables_to_inline: hints,
        supertype_symbols: grammar.supertype_symbols,
        word_token: grammar.word_token,
        reserved_words: grammar.reserved_words,
    }
}

/// Whether two grammars declare the same names: those of their variables
/// and those that their external tokens refer to.
pub open spec fn same_names(first: InputGrammarView, second: InputGrammarView) -> bool {
    &&& variable_names(first) == variable_names(second)
    &&& external_names(first) == external_names(second)
}

/// How a rule resolves depends on the grammar's declared names alone.
pub proof fn lemma_rule_depends_on_names(
    first: InputGrammarView,
    second: InputGrammarView,
    rule: RuleView,
)
    requires
        same_names(first, second),
    ensures
        resolve_rule(first, rule) == resolve_rule(second, rule),
    decreases rule,
{
    match rule {
        RuleView::Choice(elements) => {
            lemma_rules_depend_on_names(first, second, elements);
        },
        RuleView::Sequence(elements) => {
            lemma_rules_depend_on_names(first, second, elements);
        },
        RuleView::Repeat(content) => {
            lemma_rule_depends_on_names(first, second, *content);
        },
        RuleView::Metadata { params, rule } => {
            lemma_rule_depends_on_names(first, second, *rule);
        },
        RuleView::Reserved { rule, context_name } => {
            lemma_rule_depends_on_names(first, second, *rule);
        },
        _ => {},
    }
}

/// How a list of rules resolves depends on the grammar's declared names
/// alone.
pub proof fn lemma_rules_depend_on_names(
    first: InputGrammarView,
    second: InputGrammarView,
    rules: Seq<RuleView>,
)
    requires
        same_names(first, second),
    ensures
        rule_results(first, rules) == rule_results(second, rules),
        resolve_rules(first, rules) == resolve_rules(second, rules),
    decreases rules,
{
    assert forall|i: int| 0 <= i < rules.len() implies rule_results(first, rules)[i]
        == rule_results(second, rules)[i] by {
        lemma_rule_depends_on_names(first, second, rules[i]);
    }
    assert(rule_results(first, rules) =~= rule_results(second, rules));
}

/// Inline hints never make interning fail. With other hints a grammar
/// fails as before, or succeeds as before with one difference: its list of
/// inlined variables holds the symbols of those hints that resolve, in
/// order. Where no hint resolves, that list is empty.
pub proof fn lemma_inline_hints_never_fail(grammar: InputGrammarView, hints: Seq<Seq<char>>)
    requires
        grammar.variables.len() > 0,
    ensures
        ({
            let changed = interned(with_inline_hints(grammar, hints));
            match interned(grammar) {
                Err(error) => changed == Err::<InternedGrammarView, InternSymbolsErrorView>(error),
                Ok(result) => {
                    &&& changed is Ok
                    &&& changed->Ok_0.variables_to_inline == resolve_inline(grammar, hints)
                    &&& changed->Ok_0.variables == result.variables
                    &&& changed->Ok_0.external_tokens == result.external_tokens
                    &&& changed->Ok_0.extra_symbols == result.extra_symbols
                    &&& changed->Ok_0.supertype_symbols == result.supertype_symbols
                    &&& changed->Ok_0.reserved_word_sets == result.reserved_word_sets
                    &&& changed->Ok_0.expected_conflicts == result.expected_conflicts
                    &&& changed->Ok_0.word_token == result.word_token
                    &&& changed->Ok_0.precedence_orderings == result.precedence_orderings
                },
            }
        }),
        (forall|i: int| 0 <= i < hints.len() ==> resolve_name(grammar, #[trigger] hints[i]) is None)
            ==> resolve_inline(grammar, hints) == Seq::<Symbol>::empty(),
{
    let other = with_inline_hints(grammar, hints);
    assert(same_names(grammar, other));
    lemma_phases_depend_on_names(grammar, other);
    assert(resolve_inline(other, hints) == resolve_inline(grammar, hints)) by {
        assert((|name: Seq<char>| resolve_name(other, name)) =~= (|name: Seq<char>|
            resolve_name(grammar, name)));
    }
    if forall|i: int| 0 <= i < hints.len() ==> resolve_name(grammar, #[trigger] hints[i]) is None {
        lemma_no_hint_resolves(grammar, hints);
    }
}

/// Where none of `hints` resolves, none is kept.
proof fn lemma_no_hint_resolves(grammar: InputGrammarView, hints: Seq<Seq<char>>)
    requires
        forall|i: int| 0 <= i < hints.len() ==> resolve_name(grammar, #[trigger] hints[i]) is None,
    ensures
        resolve_inline(grammar, hints) == Seq::<Symbol>::empty(),
    decreases hints.len(),
{
    if hints.len() > 0 {
        assert(resolve_name(grammar, hints[hints.len() - 1]) is None);
        lemma_no_hint_resolves(grammar, hints.drop_last());
    }
}

/// Two grammars that declare the same names and hold the same rules,
/// supertypes, reserved words, conflicts and word token resolve each part
/// alike.
proof fn lemma_phases_depend_on_names(first: InputGrammarView, second: InputGrammarView)
    requires
        same_names(first, second),
        first.variables == second.variables,
        first.external_tokens == second.external_tokens,
        first.extra_symbols == second.extra_symbols,
        first.supertype_symbols == second.supertype_symbols,
        first.reserved_words == second.reserved_words,
        first.expected_conflicts == second.expected_conflicts,
        first.word_token == second.word_token,
    ensures
        resolve_variables(first) == resolve_variables(second),
        resolve_external_tokens(first) == resolve_external_tokens(second),
        resolve_rules(first, first.extra_symbols) == resolve_rules(second, second.extra_symbols),
        resolve_names(first, first.supertype_symbols) == resolve_names(
            second,
            second.supertype_symbols,
        ),
        resolve_reserved_words(first) == resolve_reserved_words(second),
        resolve_conflicts(first, first.expected_conflicts) == resolve_conflicts(
            second,
            second.expected_conflicts,
        ),
        resolve_word_token(first, first.word_token) == resolve_word_token(second, second.word_token),
{
    assert forall|i: int| 0 <= i < first.variables.len() implies variable_results(
        first,
        first.variables,
    )[i] == variable_results(second, second.variables)[i] by {
        lemma_rule_depends_on_names(first, second, first.variables[i].rule);
    }
    assert(variable_results(first, first.variables) =~= variable_results(second, second.variables));
    assert forall|i: int| 0 <= i < first.external_tokens.len() implies external_token_results(
        first,
        first.external_tokens,
    )[i] == external_token_results(second, second.external_tokens)[i] by {
        lemma_rule_depends_on_names(first, second, first.external_tokens[i]);
    }
    assert(external_token_results(first, first.external_tokens) =~= external_token_results(
        second,
        second.external_tokens,
    ));
    lemma_rules_depend_on_names(first, second, first.extra_symbols);
    assert(first.supertype_symbols.map_values(|name: Seq<char>| name_result(first, name))
        =~= second.supertype_symbols.map_values(|name: Seq<char>| name_result(second, name)));
    assert forall|i: int| 0 <= i < first.reserved_words.len() implies reserved_word_results(
        first,
        first.reserved_words,
    )[i] == reserved_word_results(second, second.reserved_words)[i] by {
        lemma_rules_depend_on_names(first, second, first.reserved_words[i].reserved_words);
    }
    assert(reserved_word_results(first, first.reserved_words) =~= reserved_word_results(
        second,
        second.reserved_words,
    ));
    assert forall|i: int| 0 <= i < first.expected_conflicts.len() implies resolve_names(
        first,
        first.expected_conflicts[i],
    ) == resolve_names(second, second.expected_conflicts[i]) by {
        assert(first.expected_conflicts[i].map_values(|name: Seq<char>| name_result(first, name))
            =~= second.expected_conflicts[i].map_values(
            |name: Seq<char>| name_result(second, name),
        ));
    }
    assert(first.expected_conflicts.map_values(|group: Seq<Seq<char>>| resolve_names(first, group))
        =~= second.expected_conflicts.map_values(
        |group: Seq<Seq<char>>| resolve_names(second, group),
    ));
}

} // verus!
