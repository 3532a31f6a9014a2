//! Extracts documentation-ready declaration items from Luau type definition
//! sources: the text is prepared for the grammar parser, the parsed top-level
//! declarations are collected into a registry, and the registry is drained
//! into a tree of items with their doc comments.
pub mod cli;
pub mod items;
pub mod normalize;
pub mod parser;
pub mod registry;
pub mod syntax;
pub mod text;
