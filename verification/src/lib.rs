//! Symbol interning for grammars: every reference that a grammar makes by
//! name is checked and replaced with a positional symbol.
//!
//! [`intern_symbols`] is the pass; [`resolution`] says what it computes and
//! [`laws`] what holds of that for every grammar.

pub mod error;
pub mod grammars;
pub mod interner;
pub mod laws;
pub mod resolution;
pub mod rules;
pub mod sequences;
pub mod text;

pub use error::{InternSymbolsError, InternSymbolsResult};
pub use grammars::{
    InputGrammar,
    InternedGrammar,
    PrecedenceEntry,
    ReservedWordContext,
    Variable,
    VariableType,
};
pub use interner::{intern_symbols, variable_type_for_name, Interner};
pub use rules::{Alias, Associativity, MetadataParams, Precedence, Rule, Symbol, SymbolType};
