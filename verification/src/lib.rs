//! A compiler and runtime for a declarative UI description language: structured
//! text documents are parsed into sections, built into syntax nodes, interpreted
//! into a symbol bag by a resumable state machine, and rendered by two
//! independent back ends (static HTML and reactive JS instructions).
pub mod ast;
pub mod auth;
pub mod cr;
pub mod di;
pub mod executor;
pub mod expr;
pub mod harness;
pub mod html;
pub mod interpreter;
pub mod js;
pub mod laws;
pub mod p11;
pub mod processor;
pub mod text;
