//! Front-end analysis core of a hardware-description language: symbol table,
//! type model, constant evaluator, a tree walker and the clock/reset checker,
//! together with the column aligner used by the formatter.

pub mod align_kind;
pub mod aligner;
pub mod analyzer_error;
pub mod check_clock_reset;
pub mod cmd_dump;
pub mod evaluator;
pub mod laws;
pub mod location;
pub mod location_map;
pub mod migrator;
pub mod symbol;
pub mod symbol_table;
pub mod syntax;
pub mod walker;
