//! What interning means, stated over the values of grammars and rules.
//!
//! A name resolves to the first variable that bears it, else to the first
//! external token that is nothing but a reference to it. A rule resolves
//! when every name in it does; a grammar is interned by resolving its parts
//! in a fixed order, where the first failure is the result.

use vstd::prelude::*;
use crate::error::InternSymbolsErrorView;
use crate::grammars::{
    InputGrammarView,
    InternedGrammarView,
    ReservedWordContextView,
    VariableType,
    VariableView,
};
use crate::rules::{RuleView, Symbol};
use crate::sequences::{collect, emitted};

verus! {

/// The kind that a name asks for: `Hidden` if it begins with an underscore,
/// else `Named`.
pub open spec fn kind_for_name(name: Seq<char>) -> VariableType {
    if name.len() > 0 && name[0] == '_' {
        VariableType::Hidden
    } else {
        VariableType::Named
    }
}

/// The names of the grammar's variables, in declared order.
pub open spec fn variable_names(grammar: InputGrammarView) -> Seq<Seq<char>> {
    grammar.variables.map_values(|variable: VariableView| variable.name)
}

/// The name that `rule` refers to, if the whole of it is one reference by
/// name.
pub open spec fn bare_name(rule: RuleView) -> Option<Seq<char>> {
    match rule {
        RuleView::NamedSymbol(name) => Some(name),
        _ => None,
    }
}

/// For each external token in declared order, the name it is a bare
/// reference to, if it is one.
pub open spec fn external_names(grammar: InputGrammarView) -> Seq<Option<Seq<char>>> {
    grammar.external_tokens.map_values(|token: RuleView| bare_name(token))
}

/// The symbol that `name` stands for: the first variable of that name, or,
/// where there is none, the first external token that is a bare reference to
/// that name.
pub open spec fn resolve_name(grammar: InputGrammarView, name: Seq<char>) -> Option<Symbol> {
    match variable_names(grammar).index_of_first(name) {
        Some(index) => Some(Symbol::non_terminal(index as usize)),
        None => match external_names(grammar).index_of_first(Some(name)) {
            Some(index) => Some(Symbol::external(index as usize)),
            None => None,
        },
    }
}

/// `rule` with each reference by name replaced with the symbol that the name
/// resolves to, or `Undefined` with the first name, from left to right, that
/// does not resolve.
pub open spec fn resolve_rule(grammar: InputGrammarView, rule: RuleView) -> Result<
    RuleView,
    InternSymbolsErrorView,
>
    decreases rule,
{
    match rule {
        RuleView::NamedSymbol(name) => match resolve_name(grammar, name) {
            Some(symbol) => Ok(RuleView::Symbol(symbol)),
            None => Err(InternSymbolsErrorView::Undefined(name)),
        },
        RuleView::Choice(elements) => match resolve_rules(grammar, elements) {
            Ok(resolved) => Ok(RuleView::Choice(resolved)),
            Err(error) => Err(error),
        },
        RuleView::Sequence(elements) => match resolve_rules(grammar, elements) {
            Ok(resolved) => Ok(RuleView::Sequence(resolved)),
            Err(error) => Err(error),
        },
        RuleView::Repeat(content) => match resolve_rule(grammar, *content) {
            Ok(resolved) => Ok(RuleView::Repeat(Box::new(resolved))),
            Err(error) => Err(error),
        },
        RuleView::Metadata { params, rule } => match resolve_rule(grammar, *rule) {
            Ok(resolved) => Ok(RuleView::Metadata { params, rule: Box::new(resolved) }),
            Err(error) => Err(error),
        },
        RuleView::Reserved { rule, context_name } => match resolve_rule(grammar, *rule) {
            Ok(resolved) => Ok(RuleView::Reserved { rule: Box::new(resolved), context_name }),
            Err(error) => Err(error),
        },
        RuleView::Blank | RuleView::String(_) | RuleView::Pattern(_, _) | RuleView::Symbol(_) => Ok(
            rule,
        ),
    }
}

/// What resolving each of `rules` gives, rule by rule.
pub open spec fn rule_results(grammar: InputGrammarView, rules: Seq<RuleView>) -> Seq<
    Result<RuleView, InternSymbolsErrorView>,
>
    decreases rules, 0nat,
{
    Seq::new(
        rules.len(),
        |i: int|
            if 0 <= i < rules.len() {
                resolve_rule(grammar, rules[i])
            } else {
                arbitrary()
            },
    )
}

/// The rules of `rules` resolved in order; the first failure is the result.
pub open spec fn resolve_rules(grammar: InputGrammarView, rules: Seq<RuleView>) -> Result<
    Seq<RuleView>,
    InternSymbolsErrorView,
>
    decreases rules, 1nat,
{
    collect(rule_results(grammar, rules))
}

/// Whether `elements` is one literal and nothing else: a string or a
/// pattern.
pub open spec fn is_single_literal(elements: Seq<RuleView>) -> bool {
    elements.len() == 1 && (elements[0] is String || elements[0] is Pattern)
}

/// The warning on a choice or sequence that holds a single literal, for the
/// variable `name`.
pub open spec fn single_element_warning(name: Seq<char>) -> Seq<char> {
    "Warning: rule "@ + name
        + " contains a `seq` or `choice` rule with a single element. This is unnecessary."@
}

/// The warnings that a choice or sequence of `elements` gives by itself.
pub open spec fn single_element_warnings(elements: Seq<RuleView>, name: Seq<char>) -> Seq<
    Seq<char>,
> {
    if is_single_literal(elements) {
        seq![single_element_warning(name)]
    } else {
        Seq::empty()
    }
}

/// The warnings given while `rule` is resolved for the variable `name`: one
/// for each choice or sequence of a single literal that is reached, from
/// left to right, before resolution ends.
pub open spec fn rule_warnings(grammar: InputGrammarView, rule: RuleView, name: Seq<char>) -> Seq<
    Seq<char>,
>
    decreases rule,
{
    match rule {
        RuleView::Choice(elements) => single_element_warnings(elements, name) + rules_warnings(
            grammar,
            elements,
            name,
        ),
        RuleView::Sequence(elements) => single_element_warnings(elements, name) + rules_warnings(
            grammar,
            elements,
            name,
        ),
        RuleView::Repeat(content) => rule_warnings(grammar, *content, name),
        RuleView::Metadata { params, rule } => rule_warnings(grammar, *rule, name),
        RuleView::Reserved { rule, context_name } => rule_warnings(grammar, *rule, name),
        RuleView::Blank | RuleView::String(_) | RuleView::Pattern(_, _) | RuleView::NamedSymbol(_)
        | RuleView::Symbol(_) => Seq::empty(),
    }
}

/// The warnings that each of `rules` gives when resolved for `name`.
pub open spec fn rule_outputs(grammar: InputGrammarView, rules: Seq<RuleView>, name: Seq<char>) -> Seq<
    Seq<Seq<char>>,
>
    decreases rules, 0nat,
{
    Seq::new(
        rules.len(),
        |i: int|
            if 0 <= i < rules.len() {
                rule_warnings(grammar, rules[i], name)
            } else {
                arbitrary()
            },
    )
}

/// The warnings given while `rules` are resolved in order for `name`, up to
/// the first failure.
pub open spec fn rules_warnings(grammar: InputGrammarView, rules: Seq<RuleView>, name: Seq<char>) -> Seq<
    Seq<char>,
>
    decreases rules, 1nat,
{
    emitted(rule_results(grammar, rules), rule_outputs(grammar, rules, name))
}

/// A variable with its rule resolved and its kind set by its name.
pub open spec fn resolve_variable(grammar: InputGrammarView, variable: VariableView) -> Result<
    VariableView,
    InternSymbolsErrorView,
> {
    match resolve_rule(grammar, variable.rule) {
        Ok(rule) => Ok(
            VariableView { name: variable.name, kind: kind_for_name(variable.name), rule },
        ),
        Err(error) => Err(error),
    }
}

/// What resolving each of `variables` gives.
pub open spec fn variable_results(grammar: InputGrammarView, variables: Seq<VariableView>) -> Seq<
    Result<VariableView, InternSymbolsErrorView>,
> {
    variables.map_values(|variable: VariableView| resolve_variable(grammar, variable))
}

/// The warnings that each of `variables` gives: those of its rule, under
/// its name.
pub open spec fn variable_outputs(grammar: InputGrammarView, variables: Seq<VariableView>) -> Seq<
    Seq<Seq<char>>,
> {
    variables.map_values(
        |variable: VariableView| rule_warnings(grammar, variable.rule, variable.name),
    )
}

/// The grammar's variables, each resolved, in declared order.
pub open spec fn resolve_variables(grammar: InputGrammarView) -> Result<
    Seq<VariableView>,
    InternSymbolsErrorView,
> {
    collect(variable_results(grammar, grammar.variables))
}

/// The warnings given while the grammar's variables are resolved.
pub open spec fn variables_warnings(grammar: InputGrammarView) -> Seq<Seq<char>> {
    emitted(
        variable_results(grammar, grammar.variables),
        variable_outputs(grammar, grammar.variables),
    )
}

/// The entry of an external token: its rule resolved; where the token is a
/// bare reference by name, that name and the kind that the name asks for,
/// else no name and kind `Anonymous`.
pub open spec fn resolve_external_token(grammar: InputGrammarView, token: RuleView) -> Result<
    VariableView,
    InternSymbolsErrorView,
> {
    match resolve_rule(grammar, token) {
        Ok(rule) => Ok(
            match token {
                RuleView::NamedSymbol(name) => VariableView {
                    name,
                    kind: kind_for_name(name),
                    rule,
                },
                _ => VariableView { name: Seq::empty(), kind: VariableType::Anonymous, rule },
            },
        ),
        Err(error) => Err(error),
    }
}

/// What resolving each of `tokens` gives.
pub open spec fn external_token_results(grammar: InputGrammarView, tokens: Seq<RuleView>) -> Seq<
    Result<VariableView, InternSymbolsErrorView>,
> {
    tokens.map_values(|token: RuleView| resolve_external_token(grammar, token))
}

/// The warnings that each of `rules` gives when resolved under no name.
pub open spec fn unnamed_outputs(grammar: InputGrammarView, rules: Seq<RuleView>) -> Seq<
    Seq<Seq<char>>,
> {
    rules.map_values(|rule: RuleView| rule_warnings(grammar, rule, Seq::empty()))
}

/// The entries of the grammar's external tokens, in declared order.
pub open spec fn resolve_external_tokens(grammar: InputGrammarView) -> Result<
    Seq<VariableView>,
    InternSymbolsErrorView,
> {
    collect(external_token_results(grammar, grammar.external_tokens))
}

/// The warnings given while the grammar's external tokens are resolved.
pub open spec fn external_tokens_warnings(grammar: InputGrammarView) -> Seq<Seq<char>> {
    emitted(
        external_token_results(grammar, grammar.external_tokens),
        unnamed_outputs(grammar, grammar.external_tokens),
    )
}

/// The symbol of `name`, or the name itself where it does not resolve.
pub open spec fn name_result(grammar: InputGrammarView, name: Seq<char>) -> Result<
    Symbol,
    Seq<char>,
> {
    match resolve_name(grammar, name) {
        Some(symbol) => Ok(symbol),
        None => Err(name),
    }
}

/// The symbols of `names` in order, or the first name that does not
/// resolve.
pub open spec fn resolve_names(grammar: InputGrammarView, names: Seq<Seq<char>>) -> Result<
    Seq<Symbol>,
    Seq<char>,
> {
    collect(names.map_values(|name: Seq<char>| name_result(grammar, name)))
}

/// A reserved-word context with each of its rules resolved.
pub open spec fn resolve_reserved_word_set(
    grammar: InputGrammarView,
    set: ReservedWordContextView,
) -> Result<ReservedWordContextView, InternSymbolsErrorView> {
    match resolve_rules(grammar, set.reserved_words) {
        Ok(reserved_words) => Ok(ReservedWordContextView { name: set.name, reserved_words }),
        Err(error) => Err(error),
    }
}

/// What resolving each of `sets` gives.
pub open spec fn reserved_word_results(
    grammar: InputGrammarView,
    sets: Seq<ReservedWordContextView>,
) -> Seq<Result<ReservedWordContextView, InternSymbolsErrorView>> {
    sets.map_values(|set: ReservedWordContextView| resolve_reserved_word_set(grammar, set))
}

/// The warnings that each of `sets` gives: those of its rules, under no
/// name.
pub open spec fn reserved_word_outputs(
    grammar: InputGrammarView,
    sets: Seq<ReservedWordContextView>,
) -> Seq<Seq<Seq<char>>> {
    sets.map_values(
        |set: ReservedWordContextView| rules_warnings(grammar, set.reserved_words, Seq::empty()),
    )
}

/// The grammar's reserved-word contexts, each resolved, in declared order.
pub open spec fn resolve_reserved_words(grammar: InputGrammarView) -> Result<
    Seq<ReservedWordContextView>,
    InternSymbolsErrorView,
> {
    collect(reserved_word_results(grammar, grammar.reserved_words))
}

/// The warnings given while the grammar's reserved words are resolved.
pub open spec fn reserved_words_warnings(grammar: InputGrammarView) -> Seq<Seq<char>> {
    emitted(
        reserved_word_results(grammar, grammar.reserved_words),
        reserved_word_outputs(grammar, grammar.reserved_words),
    )
}

/// The conflict groups with each name resolved, or the first name, group by
/// group, that does not resolve.
pub open spec fn resolve_conflicts(grammar: InputGrammarView, groups: Seq<Seq<Seq<char>>>) -> Result<
    Seq<Seq<Symbol>>,
    Seq<char>,
> {
    collect(groups.map_values(|group: Seq<Seq<char>>| resolve_names(grammar, group)))
}

/// The symbols of those of `names` that resolve, in order.
pub open spec fn resolve_inline(grammar: InputGrammarView, names: Seq<Seq<char>>) -> Seq<Symbol> {
    names.filter_map(|name: Seq<char>| resolve_name(grammar, name))
}

/// The symbol of the word token, where one is declared.
pub open spec fn resolve_word_token(grammar: InputGrammarView, word_token: Option<Seq<char>>) -> Result<
    Option<Symbol>,
    Seq<char>,
> {
    match word_token {
        Some(name) => match resolve_name(grammar, name) {
            Some(symbol) => Ok(Some(symbol)),
            None => Err(name),
        },
        None => Ok(None),
    }
}

/// `variables` with the kind of each one whose position is among
/// `supertypes` set to `Hidden`.
pub open spec fn reclassify(variables: Seq<VariableView>, supertypes: Seq<Symbol>) -> Seq<
    VariableView,
> {
    Seq::new(
        variables.len(),
        |i: int|
            if supertypes.contains(Symbol::non_terminal(i as usize)) {
                VariableView {
                    name: variables[i].name,
                    kind: VariableType::Hidden,
                    rule: variables[i].rule,
                }
            } else {
                variables[i]
            },
    )
}

/// Whether every name that `rule` refers to resolves.
pub open spec fn rule_names_resolve(grammar: InputGrammarView, rule: RuleView) -> bool
    decreases rule,
{
    match rule {
        RuleView::NamedSymbol(name) => resolve_name(grammar, name) is Some,
        RuleView::Choice(elements) => forall|i: int|
            0 <= i < elements.len() ==> rule_names_resolve(grammar, #[trigger] elements[i]),
        RuleView::Sequence(elements) => forall|i: int|
            0 <= i < elements.len() ==> rule_names_resolve(grammar, #[trigger] elements[i]),
        RuleView::Repeat(content) => rule_names_resolve(grammar, *content),
        RuleView::Metadata { params, rule } => rule_names_resolve(grammar, *rule),
        RuleView::Reserved { rule, context_name } => rule_names_resolve(grammar, *rule),
        RuleView::Blank | RuleView::String(_) | RuleView::Pattern(_, _) | RuleView::Symbol(_) => true,
    }
}

/// Whether every name that the grammar refers to resolves, but for its
/// inline hints: in the rules of its variables, its external tokens, its
/// extra symbols and its reserved words, among its supertypes and its
/// expected conflicts, and as its word token.
pub open spec fn all_names_resolve(grammar: InputGrammarView) -> bool {
    &&& forall|i: int|
        0 <= i < grammar.variables.len() ==> rule_names_resolve(
            grammar,
            (#[trigger] grammar.variables[i]).rule,
        )
    &&& forall|i: int|
        0 <= i < grammar.external_tokens.len() ==> rule_names_resolve(
            grammar,
            #[trigger] grammar.external_tokens[i],
        )
    &&& forall|i: int|
        0 <= i < grammar.extra_symbols.len() ==> rule_names_resolve(
            grammar,
            #[trigger] grammar.extra_symbols[i],
        )
    &&& forall|i: int|
        0 <= i < grammar.supertype_symbols.len() ==> resolve_name(
            grammar,
            #[trigger] grammar.supertype_symbols[i],
        ) is Some
    &&& forall|i: int, j: int|
        0 <= i < grammar.reserved_words.len() && 0 <= j
            < grammar.reserved_words[i].reserved_words.len() ==> rule_names_resolve(
            grammar,
            #[trigger] grammar.reserved_words[i].reserved_words[j],
        )
    &&& forall|i: int, j: int|
        0 <= i < grammar.expected_conflicts.len() && 0 <= j < grammar.expected_conflicts[i].len()
            ==> resolve_name(grammar, #[trigger] grammar.expected_conflicts[i][j]) is Some
    &&& grammar.word_token matches Some(name) ==> resolve_name(grammar, name) is Some
}

/// Whether the grammar's first variable is hidden by its name.
pub open spec fn has_hidden_start(grammar: InputGrammarView) -> bool
    recommends
        grammar.variables.len() > 0,
{
    kind_for_name(grammar.variables[0].name) == VariableType::Hidden
}

/// The interned grammar, or why there is none. The parts are resolved in
/// this order, and the first failure is the result: the start rule's
/// visibility, the variables, the external tokens, the extra symbols, the
/// supertypes, the reserved words, the expected conflicts, the word token.
/// Inline hints that do not resolve are left out.
pub open spec fn interned(grammar: InputGrammarView) -> Result<
    InternedGrammarView,
    InternSymbolsErrorView,
>
    recommends
        grammar.variables.len() > 0,
{
    if has_hidden_start(grammar) {
        Err(InternSymbolsErrorView::HiddenStartRule)
    } else {
        match resolve_variables(grammar) {
            Err(error) => Err(error),
            Ok(variables) => match resolve_external_tokens(grammar) {
                Err(error) => Err(error),
                Ok(external_tokens) => match resolve_rules(grammar, grammar.extra_symbols) {
                    Err(error) => Err(error),
                    Ok(extra_symbols) => match resolve_names(grammar, grammar.supertype_symbols) {
                        Err(name) => Err(InternSymbolsErrorView::UndefinedSupertype(name)),
                        Ok(supertype_symbols) => interned_rest(
                            grammar,
                            variables,
                            external_tokens,
                            extra_symbols,
                            supertype_symbols,
                        ),
                    },
                },
            },
        }
    }
}

/// The second half of [`interned`], from the reserved words on, given what
/// the first half resolved.
pub open spec fn interned_rest(
    grammar: InputGrammarView,
    variables: Seq<VariableView>,
    external_tokens: Seq<VariableView>,
    extra_symbols: Seq<RuleView>,
    supertype_symbols: Seq<Symbol>,
) -> Result<InternedGrammarView, InternSymbolsErrorView> {
    match resolve_reserved_words(grammar) {
        Err(error) => Err(error),
        Ok(reserved_word_sets) => match resolve_conflicts(grammar, grammar.expected_conflicts) {
            Err(name) => Err(InternSymbolsErrorView::UndefinedConflict(name)),
            Ok(expected_conflicts) => match resolve_word_token(grammar, grammar.word_token) {
                Err(name) => Err(InternSymbolsErrorView::UndefinedWordToken(name)),
                Ok(word_token) => Ok(
                    InternedGrammarView {
                        variables: reclassify(variables, supertype_symbols),
                        extra_symbols,
                        expected_conflicts,
                        precedence_orderings: grammar.precedence_orderings,
                        external_tokens,
                        variables_to_inline: resolve_inline(grammar, grammar.variables_to_inline),
                        supertype_symbols,
                        word_token,
                        reserved_word_sets,
                    },
                ),
            },
        },
    }
}

/// The warnings given while the grammar is interned: those of the
/// variables, the external tokens, the extra symbols and the reserved
/// words, in that order, up to the first failure of any part.
pub open spec fn interning_warnings(grammar: InputGrammarView) -> Seq<Seq<char>>
    recommends
        grammar.variables.len() > 0,
{
    let of_variables = variables_warnings(grammar);
    let of_external_tokens = external_tokens_warnings(grammar);
    let of_extra_symbols = rules_warnings(grammar, grammar.extra_symbols, Seq::empty());
    let of_reserved_words = reserved_words_warnings(grammar);
    if has_hidden_start(grammar) {
        Seq::empty()
    } else if resolve_variables(grammar) is Err {
        of_variables
    } else if resolve_external_tokens(grammar) is Err {
        of_variables + of_external_tokens
    } else if resolve_rules(grammar, grammar.extra_symbols) is Err || resolve_names(
        grammar,
        grammar.supertype_symbols,
    ) is Err {
        of_variables + of_external_tokens + of_extra_symbols
    } else {
        of_variables + of_external_tokens + of_extra_symbols + of_reserved_words
    }
}

} // verus!
