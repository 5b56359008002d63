//! A safety layer over a constraint-solving engine: contexts scope every
//! object, terms are assembled bottom-up from symbols and sorts, and
//! assembled assertions are handed to a solver whose satisfiable checks
//! yield models that concrete values are read back from.
//!
//! Context containment is enforced at the contract level: every multi-operand
//! operation requires its operands' recorded context identities to match, so
//! a verified caller can never mix objects of separately created contexts.

pub mod ast;
pub mod config;
pub mod context;
pub mod datatype_builder;
pub mod decl;
pub mod eval;
pub mod laws;
pub mod model;
pub mod optimize;
pub mod param_descrs;
pub mod params;
pub mod pattern;
pub mod rational;
pub mod render;
pub mod solver;
pub mod sort;
pub mod stats;
pub mod sym;
pub mod term;
pub mod text;

pub use ast::Ast;
pub use config::Config;
pub use context::Context;
pub use datatype_builder::Datatype;
pub use datatype_builder::DatatypeBuilder;
pub use datatype_builder::DatatypeVariant;
pub use decl::FuncDecl;
pub use model::Model;
pub use optimize::Optimize;
pub use param_descrs::ParamDescrs;
pub use params::Params;
pub use pattern::Pattern;
pub use solver::Solver;
pub use sort::Sort;
pub use stats::Stats;
pub use sym::Symbol;
