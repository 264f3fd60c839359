//! Generation of PowerShell DSC scripts from a technique's syntax tree.
pub mod text;
pub mod ast;
pub mod context;
pub mod value;
pub mod naming;
pub mod expr;
pub mod params;
pub mod statement;
pub mod metadata;
pub mod generate;
