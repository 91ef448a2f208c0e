//! A preprocessor for books: an ordered list of literal find-and-replace
//! rules, read from the book's configuration and applied to the text of
//! every chapter.
//!
//! - [`text`]: replacing every occurrence of one text by another.
//! - [`book`]: the book, a tree of chapters and structural items.
//! - [`replacer`]: the rules and their application to a text and to a book,
//!   with the laws that the transformation obeys.
//! - [`config`]: the rules that a configuration asks for.
//! - [`driver`]: what one invocation of the preprocessor does.

pub mod book;
pub mod config;
pub mod driver;
pub mod replacer;
pub mod text;
