pub mod custom;
pub mod grammars;
pub mod language;
pub mod queries;
pub mod symbol;
pub mod syntax;
pub mod text;
pub mod ts;
pub mod parser;
pub mod filters;
pub mod output;
pub mod picker;
pub mod laws;
