//! Grammars before and after interning.
//!
//! An [`InputGrammar`] refers to rules and external tokens by name; an
//! [`InternedGrammar`] refers to them by position. Each type has a view, as
//! the rule types do.

use vstd::prelude::*;
use crate::rules::{Rule, RuleView, Symbol};

verus! {

/// How a variable shows in a syntax tree.
#[derive(Debug, Clone, Copy, PartialEq, Eq, Hash, Structural)]
pub enum VariableType {
    Hidden,
    Anonymous,
    Named,
}

/// A named rule of a grammar.
#[derive(Debug, PartialEq, Eq, Hash)]
pub struct Variable {
    pub name: String,
    pub kind: VariableType,
    pub rule: Rule,
}

/// The value of a [`Variable`].
pub struct VariableView {
    pub name: Seq<char>,
    pub kind: VariableType,
    pub rule: RuleView,
}

impl DeepView for Variable {
    type V = VariableView;

    open spec fn deep_view(&self) -> VariableView {
        VariableView { name: self.name@, kind: self.kind, rule: self.rule@ }
    }
}

impl View for Variable {
    type V = VariableView;

    open spec fn view(&self) -> VariableView {
        self.deep_view()
    }
}

impl Clone for Variable {
    fn clone(&self) -> (copy: Self)
        ensures
            copy@ == self@,
    {
        Variable { name: self.name.clone(), kind: self.kind, rule: self.rule.clone() }
    }
}

impl Variable {
    /// A variable of kind `Named`.
    pub fn named(name: &str, rule: Rule) -> (variable: Variable)
        ensures
            variable@ == (VariableView { name: name@, kind: VariableType::Named, rule: rule@ }),
    {
        Variable { name: name.to_owned(), kind: VariableType::Named, rule }
    }

    /// A variable of kind `Hidden`.
    pub fn hidden(name: &str, rule: Rule) -> (variable: Variable)
        ensures
            variable@ == (VariableView { name: name@, kind: VariableType::Hidden, rule: rule@ }),
    {
        Variable { name: name.to_owned(), kind: VariableType::Hidden, rule }
    }
}

/// One entry of a precedence ordering: a precedence name or a rule name.
#[derive(Debug, PartialEq, Eq, Hash)]
pub enum PrecedenceEntry {
    Name(String),
    Symbol(String),
}

/// The value of a [`PrecedenceEntry`].
pub enum PrecedenceEntryView {
    Name(Seq<char>),
    Symbol(Seq<char>),
}

impl DeepView for PrecedenceEntry {
    type V = PrecedenceEntryView;

    open spec fn deep_view(&self) -> PrecedenceEntryView {
        match self {
            PrecedenceEntry::Name(name) => PrecedenceEntryView::Name(name@),
            PrecedenceEntry::Symbol(name) => PrecedenceEntryView::Symbol(name@),
        }
    }
}

impl View for PrecedenceEntry {
    type V = PrecedenceEntryView;

    open spec fn view(&self) -> PrecedenceEntryView {
        self.deep_view()
    }
}

impl Clone for PrecedenceEntry {
    fn clone(&self) -> (copy: Self)
        ensures
            copy@ == self@,
    {
        match self {
            PrecedenceEntry::Name(name) => PrecedenceEntry::Name(name.clone()),
            PrecedenceEntry::Symbol(name) => PrecedenceEntry::Symbol(name.clone()),
        }
    }
}

/// A copy of `orderings`: the same entries in the same order.
pub fn clone_precedence_orderings(orderings: &Vec<Vec<PrecedenceEntry>>) -> (copies: Vec<
    Vec<PrecedenceEntry>,
>)
    ensures
        copies.deep_view() == orderings.deep_view(),
{
    let mut copies: Vec<Vec<PrecedenceEntry>> = Vec::with_capacity(orderings.len());
    let mut i: usize = 0;
    while i < orderings.len()
        invariant
            i <= orderings.len(),
            copies.len() == i,
            forall|k: int| 0 <= k < i ==> copies[k].deep_view() == orderings[k].deep_view(),
        decreases orderings.len() - i,
    {
        let ordering = &orderings[i];
        let mut copy: Vec<PrecedenceEntry> = Vec::with_capacity(ordering.len());
        let mut j: usize = 0;
        while j < ordering.len()
            invariant
                j <= ordering.len(),
                copy.len() == j,
                forall|k: int| 0 <= k < j ==> copy[k]@ == ordering[k]@,
            decreases ordering.len() - j,
        {
            copy.push(ordering[j].clone());
            j += 1;
        }
        assert(copy.deep_view() =~= ordering.deep_view());
        copies.push(copy);
        i += 1;
    }
    assert(copies.deep_view() =~= orderings.deep_view());
    copies
}

/// The words reserved in one lexical context.
#[derive(Debug, PartialEq, Eq, Hash)]
pub struct ReservedWordContext {
    pub name: String,
    pub reserved_words: Vec<Rule>,
}

/// The value of a [`ReservedWordContext`].
pub struct ReservedWordContextView {
    pub name: Seq<char>,
    pub reserved_words: Seq<RuleView>,
}

impl DeepView for ReservedWordContext {
    type V = ReservedWordContextView;

    open spec fn deep_view(&self) -> ReservedWordContextView {
        ReservedWordContextView {
            name: self.name@,
            reserved_words: self.reserved_words.deep_view(),
        }
    }
}

impl View for ReservedWordContext {
    type V = ReservedWordContextView;

    open spec fn view(&self) -> ReservedWordContextView {
        self.deep_view()
    }
}

/// A grammar as its author wrote it: rules refer to each other by name.
#[derive(Debug, PartialEq, Eq)]
pub struct InputGrammar {
    pub name: String,
    pub variables: Vec<Variable>,
    pub extra_symbols: Vec<Rule>,
    pub expected_conflicts: Vec<Vec<String>>,
    pub precedence_orderings: Vec<Vec<PrecedenceEntry>>,
    pub external_tokens: Vec<Rule>,
    pub variables_to_inline: Vec<String>,
    pub supertype_symbols: Vec<String>,
    pub word_token: Option<String>,
    pub reserved_words: Vec<ReservedWordContext>,
}

/// The value of an [`InputGrammar`].
pub struct InputGrammarView {
    pub name: Seq<char>,
    pub variables: Seq<VariableView>,
    pub extra_symbols: Seq<RuleView>,
    pub expected_conflicts: Seq<Seq<Seq<char>>>,
    pub precedence_orderings: Seq<Seq<PrecedenceEntryView>>,
    pub external_tokens: Seq<RuleView>,
    pub variables_to_inline: Seq<Seq<char>>,
    pub supertype_symbols: Seq<Seq<char>>,
    pub word_token: Option<Seq<char>>,
    pub reserved_words: Seq<ReservedWordContextView>,
}

impl DeepView for InputGrammar {
    type V = InputGrammarView;

    open spec fn deep_view(&self) -> InputGrammarView {
        InputGrammarView {
            name: self.name@,
            variables: self.variables.deep_view(),
            extra_symbols: self.extra_symbols.deep_view(),
            expected_conflicts: self.expected_conflicts.deep_view(),
            precedence_orderings: self.precedence_orderings.deep_view(),
            external_tokens: self.external_tokens.deep_view(),
            variables_to_inline: self.variables_to_inline.deep_view(),
            supertype_symbols: self.supertype_symbols.deep_view(),
            word_token: self.word_token.deep_view(),
            reserved_words: self.reserved_words.deep_view(),
        }
    }
}

impl View for InputGrammar {
    type V = InputGrammarView;

    open spec fn view(&self) -> InputGrammarView {
        self.deep_view()
    }
}

impl Default for InputGrammar {
    /// The grammar with no name and nothing in it.
    fn default() -> (grammar: InputGrammar)
        ensures
            grammar@ == (InputGrammarView {
                name: Seq::empty(),
                variables: Seq::empty(),
                extra_symbols: Seq::empty(),
                expected_conflicts: Seq::empty(),
                precedence_orderings: Seq::empty(),
                external_tokens: Seq::empty(),
                variables_to_inline: Seq::empty(),
                supertype_symbols: Seq::empty(),
                word_token: None,
                reserved_words: Seq::empty(),
            }),
    {
        let grammar = InputGrammar {
            name: String::new(),
            variables: Vec::new(),
            extra_symbols: Vec::new(),
            expected_conflicts: Vec::new(),
            precedence_orderings: Vec::new(),
            external_tokens: Vec::new(),
            variables_to_inline: Vec::new(),
            supertype_symbols: Vec::new(),
            word_token: None,
            reserved_words: Vec::new(),
        };
        assert(grammar@.variables =~= Seq::empty());
        assert(grammar@.extra_symbols =~= Seq::empty());
        assert(grammar@.expected_conflicts =~= Seq::empty());
        assert(grammar@.precedence_orderings =~= Seq::empty());
        assert(grammar@.external_tokens =~= Seq::empty());
        assert(grammar@.variables_to_inline =~= Seq::empty());
        assert(grammar@.supertype_symbols =~= Seq::empty());
        assert(grammar@.reserved_words =~= Seq::empty());
        grammar
    }
}

/// A grammar in which every reference is a symbol.
#[derive(Debug, PartialEq, Eq)]
pub struct InternedGrammar {
    pub variables: Vec<Variable>,
    pub extra_symbols: Vec<Rule>,
    pub expected_conflicts: Vec<Vec<Symbol>>,
    pub precedence_orderings: Vec<Vec<PrecedenceEntry>>,
    pub external_tokens: Vec<Variable>,
    pub variables_to_inline: Vec<Symbol>,
    pub supertype_symbols: Vec<Symbol>,
    pub word_token: Option<Symbol>,
    pub reserved_word_sets: Vec<ReservedWordContext>,
}

/// The value of an [`InternedGrammar`].
pub struct InternedGrammarView {
    pub variables: Seq<VariableView>,
    pub extra_symbols: Seq<RuleView>,
    pub expected_conflicts: Seq<Seq<Symbol>>,
    pub precedence_orderings: Seq<Seq<PrecedenceEntryView>>,
    pub external_tokens: Seq<VariableView>,
    pub variables_to_inline: Seq<Symbol>,
    pub supertype_symbols: Seq<Symbol>,
    pub word_token: Option<Symbol>,
    pub reserved_word_sets: Seq<ReservedWordContextView>,
}

impl DeepView for InternedGrammar {
    type V = InternedGrammarView;

    open spec fn deep_view(&self) -> InternedGrammarView {
        InternedGrammarView {
            variables: self.variables.deep_view(),
            extra_symbols: self.extra_symbols.deep_view(),
            expected_conflicts: self.expected_conflicts.deep_view(),
            precedence_orderings: self.precedence_orderings.deep_view(),
            external_tokens: self.external_tokens.deep_view(),
            variables_to_inline: self.variables_to_inline.deep_view(),
            supertype_symbols: self.supertype_symbols.deep_view(),
            word_token: self.word_token,
            reserved_word_sets: self.reserved_word_sets.deep_view(),
        }
    }
}

impl View for InternedGrammar {
    type V = InternedGrammarView;

    open spec fn view(&self) -> InternedGrammarView {
        self.deep_view()
    }
}

} // verus!
