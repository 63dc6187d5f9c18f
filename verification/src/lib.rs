//! A scanner, parser, resolver and evaluator for a small class-based
//! scripting language, together with a bytecode backend, with every
//! function's behaviour stated as a contract and proved.

pub mod text;
pub mod tokens;
pub mod scanner;
pub mod expression;
pub mod stmt;
pub mod grammar;
pub mod parser;
pub mod names;
pub mod resolution;
pub mod interpreter;
pub mod resolver;
pub mod number;
pub mod callable;
pub mod value;
pub mod environment;
pub mod class;
pub mod operators;
pub mod vm;
pub mod printer;
pub mod driver;
pub mod identifiers;
pub mod scoping;
pub mod recording;
pub mod round_trip;
