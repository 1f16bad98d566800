//! Rule trees and the symbols that name their targets.
//!
//! Every type here has a view: the same value with each `String` read as its
//! characters and each `Vec` as a sequence. Contracts speak of views.

use vstd::prelude::*;

verus! {

/// What a symbol's index counts into.
#[derive(Debug, Clone, Copy, PartialEq, Eq, Hash, Structural)]
pub enum SymbolType {
    External,
    End,
    EndOfNonTerminalExtra,
    Terminal,
    NonTerminal,
}

/// A positional reference: the index is the identity of what it names.
#[derive(Debug, Clone, Copy, PartialEq, Eq, Hash, Structural)]
pub struct Symbol {
    pub kind: SymbolType,
    pub index: usize,
}

impl DeepView for Symbol {
    type V = Symbol;

    open spec fn deep_view(&self) -> Symbol {
        *self
    }
}

impl View for Symbol {
    type V = Symbol;

    open spec fn view(&self) -> Symbol {
        *self
    }
}

impl Symbol {
    /// The symbol of the variable at `index`.
    pub open spec fn spec_non_terminal(index: usize) -> Symbol {
        Symbol { kind: SymbolType::NonTerminal, index }
    }

    /// The symbol of the external token at `index`.
    pub open spec fn spec_external(index: usize) -> Symbol {
        Symbol { kind: SymbolType::External, index }
    }

    #[verifier::when_used_as_spec(spec_non_terminal)]
    pub fn non_terminal(index: usize) -> (symbol: Symbol)
        ensures
            symbol == Symbol::spec_non_terminal(index),
    {
        Symbol { kind: SymbolType::NonTerminal, index }
    }

    #[verifier::when_used_as_spec(spec_external)]
    pub fn external(index: usize) -> (symbol: Symbol)
        ensures
            symbol == Symbol::spec_external(index),
    {
        Symbol { kind: SymbolType::External, index }
    }

    /// Whether this is the symbol of the variable at `index`.
    pub fn is_non_terminal_at(&self, index: usize) -> (hit: bool)
        ensures
            hit == (*self == Symbol::non_terminal(index)),
    {
        match self.kind {
            SymbolType::NonTerminal => self.index == index,
            _ => false,
        }
    }
}

/// How a rule groups with a neighbour of the same precedence.
#[derive(Debug, Clone, Copy, PartialEq, Eq, Hash, Structural)]
pub enum Associativity {
    Left,
    Right,
}

/// A precedence: none given, a number, or a name ordered elsewhere.
#[derive(Debug, PartialEq, Eq, Hash)]
pub enum Precedence {
    Unspecified,
    Integer(i32),
    Name(String),
}

/// The value of a [`Precedence`].
pub enum PrecedenceView {
    Unspecified,
    Integer(i32),
    Name(Seq<char>),
}

impl DeepView for Precedence {
    type V = PrecedenceView;

    open spec fn deep_view(&self) -> PrecedenceView {
        match self {
            Precedence::Unspecified => PrecedenceView::Unspecified,
            Precedence::Integer(level) => PrecedenceView::Integer(*level),
            Precedence::Name(name) => PrecedenceView::Name(name@),
        }
    }
}

impl View for Precedence {
    type V = PrecedenceView;

    open spec fn view(&self) -> PrecedenceView {
        self.deep_view()
    }
}

impl Clone for Precedence {
    fn clone(&self) -> (copy: Self)
        ensures
            copy@ == self@,
    {
        match self {
            Precedence::Unspecified => Precedence::Unspecified,
            Precedence::Integer(level) => Precedence::Integer(*level),
            Precedence::Name(name) => Precedence::Name(name.clone()),
        }
    }
}

/// The name under which a node appears in place of its own.
#[derive(Debug, PartialEq, Eq, Hash)]
pub struct Alias {
    pub value: String,
    pub is_named: bool,
}

/// The value of an [`Alias`].
pub struct AliasView {
    pub value: Seq<char>,
    pub is_named: bool,
}

impl DeepView for Alias {
    type V = AliasView;

    open spec fn deep_view(&self) -> AliasView {
        AliasView { value: self.value@, is_named: self.is_named }
    }
}

impl View for Alias {
    type V = AliasView;

    open spec fn view(&self) -> AliasView {
        self.deep_view()
    }
}

impl Clone for Alias {
    fn clone(&self) -> (copy: Self)
        ensures
            copy@ == self@,
    {
        Alias { value: self.value.clone(), is_named: self.is_named }
    }
}

/// What a `Metadata` wrapper says of the rule inside it. Interning reads
/// none of it and hands all of it on.
#[derive(Debug, PartialEq, Eq, Hash)]
pub struct MetadataParams {
    pub precedence: Precedence,
    pub dynamic_precedence: i32,
    pub associativity: Option<Associativity>,
    pub is_token: bool,
    pub is_string: bool,
    pub is_active: bool,
    pub is_main_token: bool,
    pub alias: Option<Alias>,
    pub field_name: Option<String>,
}

/// The value of a [`MetadataParams`].
pub struct MetadataParamsView {
    pub precedence: PrecedenceView,
    pub dynamic_precedence: i32,
    pub associativity: Option<Associativity>,
    pub is_token: bool,
    pub is_string: bool,
    pub is_active: bool,
    pub is_main_token: bool,
    pub alias: Option<AliasView>,
    pub field_name: Option<Seq<char>>,
}

impl DeepView for MetadataParams {
    type V = MetadataParamsView;

    open spec fn deep_view(&self) -> MetadataParamsView {
        MetadataParamsView {
            precedence: self.precedence@,
            dynamic_precedence: self.dynamic_precedence,
            associativity: self.associativity,
            is_token: self.is_token,
            is_string: self.is_string,
            is_active: self.is_active,
            is_main_token: self.is_main_token,
            alias: match self.alias {
                Some(alias) => Some(alias@),
                None => None,
            },
            field_name: match self.field_name {
                Some(name) => Some(name@),
                None => None,
            },
        }
    }
}

impl View for MetadataParams {
    type V = MetadataParamsView;

    open spec fn view(&self) -> MetadataParamsView {
        self.deep_view()
    }
}

impl Clone for MetadataParams {
    fn clone(&self) -> (copy: Self)
        ensures
            copy@ == self@,
    {
        MetadataParams {
            precedence: self.precedence.clone(),
            dynamic_precedence: self.dynamic_precedence,
            associativity: self.associativity,
            is_token: self.is_token,
            is_string: self.is_string,
            is_active: self.is_active,
            is_main_token: self.is_main_token,
            alias: match &self.alias {
                Some(alias) => Some(alias.clone()),
                None => None,
            },
            field_name: match &self.field_name {
                Some(name) => Some(name.clone()),
                None => None,
            },
        }
    }
}

/// A grammar rule. `NamedSymbol` refers to its target by name, `Symbol` by
/// position; every other form is either a leaf or owns its children.
#[derive(Debug, PartialEq, Eq, Hash)]
pub enum Rule {
    Blank,
    String(String),
    Pattern(String, String),
    NamedSymbol(String),
    Symbol(Symbol),
    Choice(Vec<Rule>),
    Metadata { params: MetadataParams, rule: Box<Rule> },
    Repeat(Box<Rule>),
    Sequence(Vec<Rule>),
    Reserved { rule: Box<Rule>, context_name: String },
}

/// The value of a [`Rule`].
pub enum RuleView {
    Blank,
    String(Seq<char>),
    Pattern(Seq<char>, Seq<char>),
    NamedSymbol(Seq<char>),
    Symbol(Symbol),
    Choice(Seq<RuleView>),
    Metadata { params: MetadataParamsView, rule: Box<RuleView> },
    Repeat(Box<RuleView>),
    Sequence(Seq<RuleView>),
    Reserved { rule: Box<RuleView>, context_name: Seq<char> },
}

/// The value of a rule: the same tree, with the value of each child in the
/// child's place.
pub open spec fn rule_view(rule: Rule) -> RuleView
    decreases rule,
{
    match rule {
        Rule::Blank => RuleView::Blank,
        Rule::String(value) => RuleView::String(value@),
        Rule::Pattern(value, flags) => RuleView::Pattern(value@, flags@),
        Rule::NamedSymbol(name) => RuleView::NamedSymbol(name@),
        Rule::Symbol(symbol) => RuleView::Symbol(symbol),
        Rule::Choice(elements) => RuleView::Choice(
            Seq::new(
                elements.len() as nat,
                |i: int|
                    if 0 <= i < elements.len() {
                        rule_view(elements[i])
                    } else {
                        RuleView::Blank
                    },
            ),
        ),
        Rule::Metadata { params, rule } => RuleView::Metadata {
            params: params@,
            rule: Box::new(rule_view(*rule)),
        },
        Rule::Repeat(content) => RuleView::Repeat(Box::new(rule_view(*content))),
        Rule::Sequence(elements) => RuleView::Sequence(
            Seq::new(
                elements.len() as nat,
                |i: int|
                    if 0 <= i < elements.len() {
                        rule_view(elements[i])
                    } else {
                        RuleView::Blank
                    },
            ),
        ),
        Rule::Reserved { rule, context_name } => RuleView::Reserved {
            rule: Box::new(rule_view(*rule)),
            context_name: context_name@,
        },
    }
}

impl DeepView for Rule {
    type V = RuleView;

    open spec fn deep_view(&self) -> RuleView {
        rule_view(*self)
    }
}

impl View for Rule {
    type V = RuleView;

    open spec fn view(&self) -> RuleView {
        rule_view(*self)
    }
}

/// The children of a `Choice` or `Sequence` have, as values, the values of
/// the elements of the vector that holds them.
pub proof fn lemma_children_view(elements: Vec<Rule>)
    ensures
        rule_view(Rule::Choice(elements)) == RuleView::Choice(elements.deep_view()),
        rule_view(Rule::Sequence(elements)) == RuleView::Sequence(elements.deep_view()),
{
    assert(rule_view(Rule::Choice(elements))->Choice_0 =~= elements.deep_view());
    assert(rule_view(Rule::Sequence(elements))->Sequence_0 =~= elements.deep_view());
}

/// A copy of each rule of `rules`, in the same order.
pub fn clone_rules(rules: &Vec<Rule>) -> (copies: Vec<Rule>)
    ensures
        copies.deep_view() == rules.deep_view(),
    decreases rules,
{
    let mut copies: Vec<Rule> = Vec::with_capacity(rules.len());
    let mut i: usize = 0;
    while i < rules.len()
        invariant
            i <= rules.len(),
            copies.len() == i,
            forall|j: int| 0 <= j < i ==> copies[j]@ == rules[j]@,
        decreases rules.len() - i,
    {
        copies.push(rules[i].clone());
        i += 1;
    }
    assert(copies.deep_view() =~= rules.deep_view());
    copies
}

impl Clone for Rule {
    fn clone(&self) -> (copy: Self)
        ensures
            copy@ == self@,
        decreases self,
    {
        match self {
            Rule::Blank => Rule::Blank,
            Rule::String(value) => Rule::String(value.clone()),
            Rule::Pattern(value, flags) => Rule::Pattern(value.clone(), flags.clone()),
            Rule::NamedSymbol(name) => Rule::NamedSymbol(name.clone()),
            Rule::Symbol(symbol) => Rule::Symbol(*symbol),
            Rule::Choice(elements) => {
                let copies = clone_rules(elements);
                proof {
                    lemma_children_view(copies);
                    lemma_children_view(*elements);
                }
                Rule::Choice(copies)
            },
            Rule::Metadata { params, rule } => Rule::Metadata {
                params: params.clone(),
                rule: Box::new((**rule).clone()),
            },
            Rule::Repeat(content) => Rule::Repeat(Box::new((**content).clone())),
            Rule::Sequence(elements) => {
                let copies = clone_rules(elements);
                proof {
                    lemma_children_view(copies);
                    lemma_children_view(*elements);
                }
                Rule::Sequence(copies)
            },
            Rule::Reserved { rule, context_name } => Rule::Reserved {
                rule: Box::new((**rule).clone()),
                context_name: context_name.clone(),
            },
        }
    }
}

impl Rule {
    /// A reference by name.
    pub fn named(name: &str) -> (rule: Rule)
        ensures
            rule@ == RuleView::NamedSymbol(name@),
    {
        Rule::NamedSymbol(name.to_owned())
    }

    /// A literal string.
    pub fn string(value: &str) -> (rule: Rule)
        ensures
            rule@ == RuleView::String(value@),
    {
        Rule::String(value.to_owned())
    }

    /// A choice among `elements`, in their order.
    pub fn choice(elements: Vec<Rule>) -> (rule: Rule)
        ensures
            rule@ == RuleView::Choice(elements.deep_view()),
    {
        proof {
            lemma_children_view(elements);
        }
        Rule::Choice(elements)
    }

    /// A reference to the variable at `index`.
    pub fn non_terminal(index: usize) -> (rule: Rule)
        ensures
            rule@ == RuleView::Symbol(Symbol::non_terminal(index)),
    {
        Rule::Symbol(Symbol::non_terminal(index))
    }

    /// A reference to the external token at `index`.
    pub fn external(index: usize) -> (rule: Rule)
        ensures
            rule@ == RuleView::Symbol(Symbol::external(index)),
    {
        Rule::Symbol(Symbol::external(index))
    }
}

} // verus!
