//! A parser for a small interface-definition language. A source is made of
//! `syntax`, `message` and `service` statements; `proto::parser::parse` reads
//! it into a tree of descriptors.
//!
//! * `proto::descriptor` holds the descriptor tree.
//! * `proto::grammar` states the language as functions on character
//!   sequences; `proto::parser` holds the parsers, each proved to return what
//!   the grammar says.
//! * `proto::scan` is the boundary to `nom`, whose scanners take the
//!   characters from the input.
//! * `proto::theorems` states what holds of the grammar as a whole.
//! * `proto::token` is a tokenizer for the same language.
//! * `template` holds the transformations of names that templates use.
//! * `text` compares and cuts string slices.

pub mod proto;
pub mod template;
pub mod text;
