//! A matching engine for command lines: it classifies an argument vector
//! against a tree of commands, validates it, binds its values and proposes
//! completions.

pub mod allocate;
pub mod bind;
pub mod choices;
pub mod command;
pub mod compgen;
pub mod laws;
pub mod matcher;
pub mod ordered;
pub mod param;
pub mod render;
pub mod required;
pub mod session;
pub mod text;
pub mod validate;
pub mod values;
