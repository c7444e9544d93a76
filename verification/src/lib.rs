pub mod alternation;
pub mod boundary;
pub mod char_class;
pub mod compile;
pub mod diagnostics;
pub mod error;
pub mod grapheme;
pub mod group;
pub mod options;
pub mod parse;
pub mod repetition;
pub mod rule;
pub mod span;
pub mod strutil;
pub mod token;
pub mod tokenize;
pub mod warning;
