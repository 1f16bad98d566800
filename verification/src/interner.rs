//! Interning: the executable pass.
//!
//! Every function here returns what the functions of
//! [`resolution`](crate::resolution) say of its arguments' values. Warnings
//! are not printed: they are added, in the order in which they arise, to a
//! list that the caller hands in.

use vstd::prelude::*;
use vstd::string::StrSliceExecFns;
use crate::error::{
    name_outcome,
    outcome,
    InternSymbolsError,
    InternSymbolsErrorView,
    InternSymbolsResult,
};
use crate::grammars::{
    clone_precedence_orderings,
    InputGrammar,
    InternedGrammar,
    ReservedWordContext,
    Variable,
    VariableType,
};
use crate::laws::{lemma_interning_succeeds, lemma_rule_resolves};
use crate::resolution::{
    all_names_resolve,
    external_names,
    external_token_results,
    external_tokens_warnings,
    has_hidden_start,
    interned,
    interning_warnings,
    kind_for_name,
    name_result,
    reclassify,
    reserved_word_outputs,
    reserved_word_results,
    reserved_words_warnings,
    resolve_conflicts,
    resolve_external_tokens,
    resolve_inline,
    resolve_name,
    resolve_names,
    resolve_reserved_words,
    resolve_rule,
    resolve_rules,
    resolve_variables,
    resolve_word_token,
    rule_names_resolve,
    rule_outputs,
    rule_results,
    rule_warnings,
    rules_warnings,
    single_element_warnings,
    unnamed_outputs,
    variable_names,
    variable_outputs,
    variable_results,
    variables_warnings,
};
use crate::rules::{lemma_children_view, Rule, Symbol};
use crate::sequences::{
    collect,
    emitted,
    lemma_collect_failed,
    lemma_collect_step,
    lemma_emitted_failed,
    lemma_emitted_step,
};
use crate::text::{join3, same_text};

verus! {

/// The kind that `name` asks for: `Hidden` if it begins with an underscore,
/// else `Named`.
pub fn variable_type_for_name(name: &str) -> (kind: VariableType)
    ensures
        kind == kind_for_name(name@),
{
    if !name.is_empty() && name.get_char(0) == '_' {
        VariableType::Hidden
    } else {
        VariableType::Named
    }
}

/// The name under which warnings are given: `name`, or the empty name
/// where there is none.
pub open spec fn name_or_empty(name: Option<&str>) -> Seq<char> {
    match name {
        Some(text) => text@,
        None => Seq::empty(),
    }
}

/// Resolves names and rules against one grammar, which it only reads.
pub struct Interner<'a> {
    pub grammar: &'a InputGrammar,
}

impl<'a> Interner<'a> {
    /// The symbol that `symbol` stands for in the grammar, if any.
    #[verifier::loop_isolation(false)]
    pub fn intern_name(&self, symbol: &str) -> (result: Option<Symbol>)
        ensures
            result == resolve_name(self.grammar@, symbol@),
    {
        let ghost names = variable_names(self.grammar@);
        let ghost tokens = external_names(self.grammar@);
        let variables = &self.grammar.variables;
        let mut i: usize = 0;
        while i < variables.len()
            invariant
                i <= variables.len(),
                forall|j: int| 0 <= j < i ==> names[j] != symbol@,
            decreases variables.len() - i,
        {
            if same_text(variables[i].name.as_str(), symbol) {
                proof {
                    assert(names[i as int] == symbol@);
                    names.index_of_first_ensures(symbol@);
                }
                return Some(Symbol::non_terminal(i));
            }
            i += 1;
        }
        proof {
            names.index_of_first_ensures(symbol@);
        }
        let external_tokens = &self.grammar.external_tokens;
        let mut i: usize = 0;
        while i < external_tokens.len()
            invariant
                i <= external_tokens.len(),
                forall|j: int| 0 <= j < i ==> tokens[j] != Some(symbol@),
            decreases external_tokens.len() - i,
        {
            if let Rule::NamedSymbol(name) = &external_tokens[i] {
                if same_text(name.as_str(), symbol) {
                    proof {
                        assert(tokens[i as int] == Some(symbol@));
                        tokens.index_of_first_ensures(Some(symbol@));
                    }
                    return Some(Symbol::external(i));
                }
            }
            i += 1;
        }
        proof {
            tokens.index_of_first_ensures(Some(symbol@));
        }
        None
    }

    /// Adds the warning on a choice or sequence that holds a single
    /// literal, if `elements` is one.
    pub fn check_single(&self, elements: &[Rule], name: Option<&str>, warnings: &mut Vec<String>)
        ensures
            final(warnings).deep_view() == old(warnings).deep_view() + single_element_warnings(
                elements.deep_view(),
                name_or_empty(name),
            ),
    {
        let single = elements.len() == 1 && match &elements[0] {
            Rule::String(_) | Rule::Pattern(_, _) => true,
            _ => false,
        };
        if single {
            let subject = match name {
                Some(text) => text,
                None => "",
            };
            proof {
                reveal_strlit("");
                assert(subject@ =~= name_or_empty(name));
            }
            let warning = join3(
                "Warning: rule ",
                subject,
                " contains a `seq` or `choice` rule with a single element. This is unnecessary.",
            );
            warnings.push(warning);
        }
        assert(final(warnings).deep_view() =~= old(warnings).deep_view() + single_element_warnings(
            elements.deep_view(),
            name_or_empty(name),
        ));
    }

    /// `rule` with every name in it resolved, or `Undefined` with the first
    /// name that does not resolve. The warnings that arise on the way are
    /// added to `warnings`.
    pub fn intern_rule(&self, rule: &Rule, name: Option<&str>, warnings: &mut Vec<String>) -> (result:
        InternSymbolsResult<Rule>)
        ensures
            outcome(result) == resolve_rule(self.grammar@, rule@),
            result is Ok <==> rule_names_resolve(self.grammar@, rule@),
            final(warnings).deep_view() == old(warnings).deep_view() + rule_warnings(
                self.grammar@,
                rule@,
                name_or_empty(name),
            ),
        decreases rule, 0nat,
    {
        let ghost start = warnings.deep_view();
        proof {
            lemma_rule_resolves(self.grammar@, rule@);
        }
        match rule {
            Rule::Choice(elements) => {
                proof {
                    lemma_children_view(*elements);
                }
                let children = elements.as_slice();
                assert(children.deep_view() =~= elements.deep_view());
                self.check_single(children, name, warnings);
                let result = self.intern_rules(elements, name, warnings);
                assert(warnings.deep_view() =~= start + rule_warnings(
                    self.grammar@,
                    rule@,
                    name_or_empty(name),
                ));
                match result {
                    Ok(resolved) => {
                        proof {
                            lemma_children_view(resolved);
                        }
                        Ok(Rule::Choice(resolved))
                    },
                    Err(error) => Err(error),
                }
            },
            Rule::Sequence(elements) => {
                proof {
                    lemma_children_view(*elements);
                }
                let children = elements.as_slice();
                assert(children.deep_view() =~= elements.deep_view());
                self.check_single(children, name, warnings);
                let result = self.intern_rules(elements, name, warnings);
                assert(warnings.deep_view() =~= start + rule_warnings(
                    self.grammar@,
                    rule@,
                    name_or_empty(name),
                ));
                match result {
                    Ok(resolved) => {
                        proof {
                            lemma_children_view(resolved);
                        }
                        Ok(Rule::Sequence(resolved))
                    },
                    Err(error) => Err(error),
                }
            },
            Rule::Repeat(content) => {
                let resolved = self.intern_rule(&**content, name, warnings)?;
                Ok(Rule::Repeat(Box::new(resolved)))
            },
            Rule::Metadata { rule, params } => {
                let resolved = self.intern_rule(&**rule, name, warnings)?;
                Ok(Rule::Metadata { rule: Box::new(resolved), params: params.clone() })
            },
            Rule::Reserved { rule, context_name } => {
                let resolved = self.intern_rule(&**rule, name, warnings)?;
                Ok(Rule::Reserved { rule: Box::new(resolved), context_name: context_name.clone() })
            },
            Rule::NamedSymbol(name) => {
                assert(warnings.deep_view() =~= start + Seq::<Seq<char>>::empty());
                match self.intern_name(name.as_str()) {
                    Some(symbol) => Ok(Rule::Symbol(symbol)),
                    None => Err(InternSymbolsError::Undefined(name.clone())),
                }
            },
            _ => {
                assert(warnings.deep_view() =~= start + Seq::<Seq<char>>::empty());
                Ok(rule.clone())
            },
        }
    }

    /// Each rule of `rules` resolved in order, or the error of the first
    /// that fails. The warnings that arise on the way are added to
    /// `warnings`.
    #[verifier::loop_isolation(false)]
    pub fn intern_rules(&self, rules: &Vec<Rule>, name: Option<&str>, warnings: &mut Vec<String>) -> (result:
        InternSymbolsResult<Vec<Rule>>)
        ensures
            outcome(result) == resolve_rules(self.grammar@, rules.deep_view()),
            final(warnings).deep_view() == old(warnings).deep_view() + rules_warnings(
                self.grammar@,
                rules.deep_view(),
                name_or_empty(name),
            ),
        decreases rules, 1nat,
    {
        let ghost start = warnings.deep_view();
        let ghost results = rule_results(self.grammar@, rules.deep_view());
        let ghost outputs = rule_outputs(self.grammar@, rules.deep_view(), name_or_empty(name));
        let mut resolved: Vec<Rule> = Vec::with_capacity(rules.len());
        let mut i: usize = 0;
        assert(resolved.deep_view() =~= Seq::empty());
        assert(warnings.deep_view() =~= start + emitted(results.take(0), outputs.take(0)));
        while i < rules.len()
            invariant
                i <= rules.len(),
                collect(results.take(i as int)) == Ok::<_, InternSymbolsErrorView>(
                    resolved.deep_view(),
                ),
                warnings.deep_view() == start + emitted(
                    results.take(i as int),
                    outputs.take(i as int),
                ),
            decreases rules.len() - i,
        {
            let ghost before = resolved.deep_view();
            let result = self.intern_rule(&rules[i], name, warnings);
            proof {
                lemma_collect_step(results, i as int);
                lemma_emitted_step(results, outputs, i as int);
                assert(warnings.deep_view() =~= start + emitted(
                    results.take(i + 1),
                    outputs.take(i + 1),
                ));
            }
            match result {
                Ok(rule) => {
                    resolved.push(rule);
                    assert(resolved.deep_view() =~= before.push(rule@));
                },
                Err(error) => {
                    proof {
                        lemma_collect_failed(results, i + 1);
                        lemma_emitted_failed(results, outputs, i + 1);
                    }
                    return Err(error);
                },
            }
            i += 1;
        }
        assert(results.take(i as int) =~= results);
        assert(outputs.take(i as int) =~= outputs);
        Ok(resolved)
    }

    /// The grammar's variables, each with its rule resolved and its kind
    /// set by its name, or the error of the first whose rule fails.
    #[verifier::loop_isolation(false)]
    pub fn intern_variables(&self, warnings: &mut Vec<String>) -> (result: InternSymbolsResult<
        Vec<Variable>,
    >)
        ensures
            outcome(result) == resolve_variables(self.grammar@),
            final(warnings).deep_view() == old(warnings).deep_view() + variables_warnings(
                self.grammar@,
            ),
    {
        let declared = &self.grammar.variables;
        let ghost start = warnings.deep_view();
        let ghost results = variable_results(self.grammar@, self.grammar@.variables);
        let ghost outputs = variable_outputs(self.grammar@, self.grammar@.variables);
        let mut variables: Vec<Variable> = Vec::with_capacity(declared.len());
        let mut i: usize = 0;
        assert(variables.deep_view() =~= Seq::empty());
        assert(warnings.deep_view() =~= start + emitted(results.take(0), outputs.take(0)));
        while i < declared.len()
            invariant
                i <= declared.len(),
                collect(results.take(i as int)) == Ok::<_, InternSymbolsErrorView>(
                    variables.deep_view(),
                ),
                warnings.deep_view() == start + emitted(
                    results.take(i as int),
                    outputs.take(i as int),
                ),
            decreases declared.len() - i,
        {
            let ghost before = variables.deep_view();
            let variable = &declared[i];
            let result = self.intern_rule(&variable.rule, Some(variable.name.as_str()), warnings);
            proof {
                lemma_collect_step(results, i as int);
                lemma_emitted_step(results, outputs, i as int);
                assert(warnings.deep_view() =~= start + emitted(
                    results.take(i + 1),
                    outputs.take(i + 1),
                ));
            }
            match result {
                Ok(rule) => {
                    let interned = Variable {
                        name: variable.name.clone(),
                        kind: variable_type_for_name(variable.name.as_str()),
                        rule,
                    };
                    variables.push(interned);
                    assert(variables.deep_view() =~= before.push(interned@));
                },
                Err(error) => {
                    proof {
                        lemma_collect_failed(results, i + 1);
                        lemma_emitted_failed(results, outputs, i + 1);
                    }
                    return Err(error);
                },
            }
            i += 1;
        }
        assert(results.take(i as int) =~= results);
        assert(outputs.take(i as int) =~= outputs);
        Ok(variables)
    }

    /// The entries of the grammar's external tokens, or the error of the
    /// first whose rule fails. A token that is a bare reference by name
    /// keeps that name, with the kind that the name asks for; any other
    /// has no name and kind `Anonymous`.
    #[verifier::loop_isolation(false)]
    pub fn intern_external_tokens(&self, warnings: &mut Vec<String>) -> (result: InternSymbolsResult<
        Vec<Variable>,
    >)
        ensures
            outcome(result) == resolve_external_tokens(self.grammar@),
            final(warnings).deep_view() == old(warnings).deep_view() + external_tokens_warnings(
                self.grammar@,
            ),
    {
        let declared = &self.grammar.external_tokens;
        let ghost start = warnings.deep_view();
        let ghost results = external_token_results(self.grammar@, self.grammar@.external_tokens);
        let ghost outputs = unnamed_outputs(self.grammar@, self.grammar@.external_tokens);
        let mut external_tokens: Vec<Variable> = Vec::with_capacity(declared.len());
        let mut i: usize = 0;
        assert(external_tokens.deep_view() =~= Seq::empty());
        assert(warnings.deep_view() =~= start + emitted(results.take(0), outputs.take(0)));
        while i < declared.len()
            invariant
                i <= declared.len(),
                collect(results.take(i as int)) == Ok::<_, InternSymbolsErrorView>(
                    external_tokens.deep_view(),
                ),
                warnings.deep_view() == start + emitted(
                    results.take(i as int),
                    outputs.take(i as int),
                ),
            decreases declared.len() - i,
        {
            let ghost before = external_tokens.deep_view();
            let external_token = &declared[i];
            let result = self.intern_rule(external_token, None, warnings);
            proof {
                lemma_collect_step(results, i as int);
                lemma_emitted_step(results, outputs, i as int);
                assert(warnings.deep_view() =~= start + emitted(
                    results.take(i + 1),
                    outputs.take(i + 1),
                ));
            }
            match result {
                Ok(rule) => {
                    let interned = if let Rule::NamedSymbol(name) = external_token {
                        Variable {
                            name: name.clone(),
                            kind: variable_type_for_name(name.as_str()),
                            rule,
                        }
                    } else {
                        Variable { name: String::new(), kind: VariableType::Anonymous, rule }
                    };
                    external_tokens.push(interned);
                    assert(external_tokens.deep_view() =~= before.push(interned@));
                },
                Err(error) => {
                    proof {
                        lemma_collect_failed(results, i + 1);
                        lemma_emitted_failed(results, outputs, i + 1);
                    }
                    return Err(error);
                },
            }
            i += 1;
        }
        assert(results.take(i as int) =~= results);
        assert(outputs.take(i as int) =~= outputs);
        Ok(external_tokens)
    }

    /// The symbols of `names` in order, or the first name that does not
    /// resolve.
    #[verifier::loop_isolation(false)]
    pub fn intern_names(&self, names: &Vec<String>) -> (result: Result<Vec<Symbol>, String>)
        ensures
            name_outcome(result) == resolve_names(self.grammar@, names.deep_view()),
    {
        let ghost results = names.deep_view().map_values(
            |name: Seq<char>| name_result(self.grammar@, name),
        );
        let mut symbols: Vec<Symbol> = Vec::with_capacity(names.len());
        let mut i: usize = 0;
        assert(symbols.deep_view() =~= Seq::empty());
        while i < names.len()
            invariant
                i <= names.len(),
                collect(results.take(i as int)) == Ok::<_, Seq<char>>(symbols.deep_view()),
            decreases names.len() - i,
        {
            let ghost before = symbols.deep_view();
            proof {
                lemma_collect_step(results, i as int);
            }
            match self.intern_name(names[i].as_str()) {
                Some(symbol) => {
                    symbols.push(symbol);
                    assert(symbols.deep_view() =~= before.push(symbol));
                },
                None => {
                    proof {
                        lemma_collect_failed(results, i + 1);
                    }
                    return Err(names[i].clone());
                },
            }
            i += 1;
        }
        assert(results.take(i as int) =~= results);
        Ok(symbols)
    }

    /// The grammar's reserved-word contexts with every rule resolved, or
    /// the error of the first rule that fails.
    #[verifier::loop_isolation(false)]
    pub fn intern_reserved_words(&self, warnings: &mut Vec<String>) -> (result: InternSymbolsResult<
        Vec<ReservedWordContext>,
    >)
        ensures
            outcome(result) == resolve_reserved_words(self.grammar@),
            final(warnings).deep_view() == old(warnings).deep_view() + reserved_words_warnings(
                self.grammar@,
            ),
    {
        let declared = &self.grammar.reserved_words;
        let ghost start = warnings.deep_view();
        let ghost results = reserved_word_results(self.grammar@, self.grammar@.reserved_words);
        let ghost outputs = reserved_word_outputs(self.grammar@, self.grammar@.reserved_words);
        let mut reserved_words: Vec<ReservedWordContext> = Vec::with_capacity(declared.len());
        let mut i: usize = 0;
        assert(reserved_words.deep_view() =~= Seq::empty());
        assert(warnings.deep_view() =~= start + emitted(results.take(0), outputs.take(0)));
        while i < declared.len()
            invariant
                i <= declared.len(),
                collect(results.take(i as int)) == Ok::<_, InternSymbolsErrorView>(
                    reserved_words.deep_view(),
                ),
                warnings.deep_view() == start + emitted(
                    results.take(i as int),
                    outputs.take(i as int),
                ),
            decreases declared.len() - i,
        {
            let ghost before = reserved_words.deep_view();
            let reserved_word_set = &declared[i];
            let result = self.intern_rules(&reserved_word_set.reserved_words, None, warnings);
            proof {
                lemma_collect_step(results, i as int);
                lemma_emitted_step(results, outputs, i as int);
                assert(warnings.deep_view() =~= start + emitted(
                    results.take(i + 1),
                    outputs.take(i + 1),
                ));
            }
            match result {
                Ok(interned_set) => {
                    let interned = ReservedWordContext {
                        name: reserved_word_set.name.clone(),
                        reserved_words: interned_set,
                    };
                    reserved_words.push(interned);
                    assert(reserved_words.deep_view() =~= before.push(interned@));
                },
                Err(error) => {
                    proof {
                        lemma_collect_failed(results, i + 1);
                        lemma_emitted_failed(results, outputs, i + 1);
                    }
                    return Err(error);
                },
            }
            i += 1;
        }
        assert(results.take(i as int) =~= results);
        assert(outputs.take(i as int) =~= outputs);
        Ok(reserved_words)
    }

    /// The grammar's expected conflicts with every name resolved, or the
    /// first name that does not resolve.
    #[verifier::loop_isolation(false)]
    pub fn intern_conflicts(&self) -> (result: Result<Vec<Vec<Symbol>>, String>)
        ensures
            name_outcome(result) == resolve_conflicts(
                self.grammar@,
                self.grammar@.expected_conflicts,
            ),
    {
        let declared = &self.grammar.expected_conflicts;
        let ghost results = self.grammar@.expected_conflicts.map_values(
            |group: Seq<Seq<char>>| resolve_names(self.grammar@, group),
        );
        let mut expected_conflicts: Vec<Vec<Symbol>> = Vec::with_capacity(declared.len());
        let mut i: usize = 0;
        assert(expected_conflicts.deep_view() =~= Seq::empty());
        while i < declared.len()
            invariant
                i <= declared.len(),
                collect(results.take(i as int)) == Ok::<_, Seq<char>>(
                    expected_conflicts.deep_view(),
                ),
            decreases declared.len() - i,
        {
            let ghost before = expected_conflicts.deep_view();
            proof {
                lemma_collect_step(results, i as int);
            }
            match self.intern_names(&declared[i]) {
                Ok(interned_conflict) => {
                    expected_conflicts.push(interned_conflict);
                    assert(expected_conflicts.deep_view() =~= before.push(
                        interned_conflict.deep_view(),
                    ));
                },
                Err(name) => {
                    proof {
                        lemma_collect_failed(results, i + 1);
                    }
                    return Err(name);
                },
            }
            i += 1;
        }
        assert(results.take(i as int) =~= results);
        Ok(expected_conflicts)
    }

    /// The symbols of those inline hints that resolve, in declared order.
    #[verifier::loop_isolation(false)]
    pub fn intern_inline(&self) -> (symbols: Vec<Symbol>)
        ensures
            symbols.deep_view() == resolve_inline(self.grammar@, self.grammar@.variables_to_inline),
    {
        let declared = &self.grammar.variables_to_inline;
        let ghost names = self.grammar@.variables_to_inline;
        let ghost lookup = |name: Seq<char>| resolve_name(self.grammar@, name);
        let mut variables_to_inline: Vec<Symbol> = Vec::new();
        let mut i: usize = 0;
        assert(variables_to_inline.deep_view() =~= names.take(0).filter_map(lookup));
        while i < declared.len()
            invariant
                i <= declared.len(),
                variables_to_inline.deep_view() == names.take(i as int).filter_map(lookup),
            decreases declared.len() - i,
        {
            let ghost before = variables_to_inline.deep_view();
            assert(names.take(i + 1).drop_last() =~= names.take(i as int));
            if let Some(symbol) = self.intern_name(declared[i].as_str()) {
                variables_to_inline.push(symbol);
                assert(variables_to_inline.deep_view() =~= before + seq![symbol]);
            }
            i += 1;
        }
        assert(names.take(i as int) =~= names);
        variables_to_inline
    }

    /// The symbol of the grammar's word token, where it declares one, or
    /// the token's name where that does not resolve.
    pub fn intern_word_token(&self) -> (result: Result<Option<Symbol>, String>)
        ensures
            name_outcome(result) == resolve_word_token(self.grammar@, self.grammar@.word_token),
    {
        match &self.grammar.word_token {
            Some(name) => match self.intern_name(name.as_str()) {
                Some(symbol) => Ok(Some(symbol)),
                None => Err(name.clone()),
            },
            None => Ok(None),
        }
    }
}

/// Whether the variable at `index` is among `supertypes`.
pub fn is_supertype(supertypes: &Vec<Symbol>, index: usize) -> (hit: bool)
    ensures
        hit == supertypes.deep_view().contains(Symbol::non_terminal(index)),
{
    let mut i: usize = 0;
    while i < supertypes.len()
        invariant
            i <= supertypes.len(),
            forall|j: int| 0 <= j < i ==> supertypes.deep_view()[j] != Symbol::non_terminal(index),
        decreases supertypes.len() - i,
    {
        if supertypes[i].is_non_terminal_at(index) {
            assert(supertypes.deep_view()[i as int] == Symbol::non_terminal(index));
            return true;
        }
        i += 1;
    }
    false
}

/// Sets to `Hidden` the kind of each variable whose position is among
/// `supertypes`, whatever its name asked for.
#[verifier::loop_isolation(false)]
pub fn hide_supertypes(variables: &mut Vec<Variable>, supertypes: &Vec<Symbol>)
    ensures
        final(variables).deep_view() == reclassify(
            old(variables).deep_view(),
            supertypes.deep_view(),
        ),
{
    let ghost declared = variables.deep_view();
    let ghost hidden = reclassify(declared, supertypes.deep_view());
    let mut i: usize = 0;
    while i < variables.len()
        invariant
            i <= variables.len(),
            variables.len() == declared.len(),
            forall|j: int| 0 <= j < i ==> variables.deep_view()[j] == hidden[j],
            forall|j: int| i <= j < variables.len() ==> variables.deep_view()[j] == declared[j],
        decreases variables.len() - i,
    {
        if is_supertype(supertypes, i) {
            variables[i].kind = VariableType::Hidden;
        }
        i += 1;
    }
    assert(variables.deep_view() =~= hidden);
}

/// Interns `grammar`: every reference by name becomes a symbol, or the
/// first failure is returned and no grammar. The warnings that arise on the
/// way are added to `warnings`.
pub fn intern_symbols(grammar: &InputGrammar, warnings: &mut Vec<String>) -> (result:
    InternSymbolsResult<InternedGrammar>)
    requires
        grammar.variables.len() > 0,
    ensures
        outcome(result) == interned(grammar@),
        result is Ok <==> !has_hidden_start(grammar@) && all_names_resolve(grammar@),
        has_hidden_start(grammar@) ==> result matches Err(InternSymbolsError::HiddenStartRule),
        result matches Ok(interned) ==> {
            &&& interned.variables.len() == grammar.variables.len()
            &&& interned.external_tokens.len() == grammar.external_tokens.len()
            &&& forall|i: int|
                0 <= i < interned.variables.len() && interned.supertype_symbols@.contains(
                    Symbol::non_terminal(i as usize),
                ) ==> (#[trigger] interned.variables[i]).kind == VariableType::Hidden
        },
        final(warnings).deep_view() == old(warnings).deep_view() + interning_warnings(grammar@),
{
    let interner = Interner { grammar };
    let ghost start = warnings.deep_view();
    proof {
        lemma_interning_succeeds(grammar@);
    }

    if let VariableType::Hidden = variable_type_for_name(grammar.variables[0].name.as_str()) {
        assert(warnings.deep_view() =~= start + interning_warnings(grammar@));
        return Err(InternSymbolsError::HiddenStartRule);
    }
    let result = interner.intern_variables(warnings);
    let mut variables = match result {
        Ok(variables) => variables,
        Err(error) => {
            return Err(error);
        },
    };

    let result = interner.intern_external_tokens(warnings);
    assert(warnings.deep_view() =~= start + (variables_warnings(grammar@)
        + external_tokens_warnings(grammar@)));
    let external_tokens = match result {
        Ok(external_tokens) => external_tokens,
        Err(error) => {
            return Err(error);
        },
    };

    let result = interner.intern_rules(&grammar.extra_symbols, None, warnings);
    assert(warnings.deep_view() =~= start + (variables_warnings(grammar@)
        + external_tokens_warnings(grammar@) + rules_warnings(
        grammar@,
        grammar@.extra_symbols,
        Seq::empty(),
    )));
    let extra_symbols = match result {
        Ok(extra_symbols) => extra_symbols,
        Err(error) => {
            return Err(error);
        },
    };

    let supertype_symbols = match interner.intern_names(&grammar.supertype_symbols) {
        Ok(supertype_symbols) => supertype_symbols,
        Err(name) => {
            return Err(InternSymbolsError::UndefinedSupertype(name));
        },
    };

    let result = interner.intern_reserved_words(warnings);
    assert(warnings.deep_view() =~= start + interning_warnings(grammar@));
    let reserved_word_sets = match result {
        Ok(reserved_word_sets) => reserved_word_sets,
        Err(error) => {
            return Err(error);
        },
    };

    let expected_conflicts = match interner.intern_conflicts() {
        Ok(expected_conflicts) => expected_conflicts,
        Err(name) => {
            return Err(InternSymbolsError::UndefinedConflict(name));
        },
    };

    let variables_to_inline = interner.intern_inline();

    let word_token = match interner.intern_word_token() {
        Ok(word_token) => word_token,
        Err(name) => {
            return Err(InternSymbolsError::UndefinedWordToken(name));
        },
    };

    hide_supertypes(&mut variables, &supertype_symbols);
    assert(supertype_symbols.deep_view() =~= supertype_symbols@);
    assert forall|i: int|
        0 <= i < variables.len() && supertype_symbols@.contains(
            Symbol::non_terminal(i as usize),
        ) implies (#[trigger] variables[i]).kind == VariableType::Hidden by {
        assert(variables.deep_view()[i].kind == VariableType::Hidden);
    }

    Ok(
        InternedGrammar {
            variables,
            external_tokens,
            extra_symbols,
            expected_conflicts,
            variables_to_inline,
            supertype_symbols,
            word_token,
            precedence_orderings: clone_precedence_orderings(&grammar.precedence_orderings),
            reserved_word_sets,
        },
    )
}

} // verus!
