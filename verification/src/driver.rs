//! One invocation of the preprocessor: which of its two jobs is asked for,
//! and the transformation of a book under a configuration.

use vstd::prelude::*;
use mdbook::Config;
use crate::book::Book;
use crate::config::{config_fault, configured_rules, rules_value, ConfigError};
use crate::replacer::{rewritten_items, Replacer};

verus! {

/// What an invocation is asked to do.
#[derive(Debug, Clone, Copy, PartialEq, Eq, Structural)]
pub enum Command {
    /// Say whether a renderer is supported. The answer is always yes, so
    /// there is nothing to read and nothing to write.
    Supports,
    /// Read a book, transform it and write it out.
    Transform,
}

/// The command that a first argument stands for: the support check where it
/// is the word `supports`, and else the transformation.
pub open spec fn command_of(first_argument: Option<Seq<char>>) -> Command {
    if first_argument == Some("supports"@) {
        Command::Supports
    } else {
        Command::Transform
    }
}

/// Decides from the first argument of the command line, if there is one,
/// what the invocation is asked to do.
pub fn command_for(first_argument: Option<&str>) -> (command: Command)
    ensures
        command == command_of(
            match first_argument {
                Some(argument) => Some(argument@),
                None => None,
            },
        ),
{
    match first_argument {
        Some(argument) => {
            if argument.to_owned() == "supports".to_owned() {
                Command::Supports
            } else {
                Command::Transform
            }
        },
        None => Command::Transform,
    }
}

/// Transforms a book as its configuration asks: the rules of the
/// configuration are applied to the text of every chapter. Fails, and
/// transforms nothing, where the configuration has a fault. Where the
/// configuration has no list of rules, the book comes back as it is.
pub fn transform(config: &Config, book: Book) -> (outcome: Result<Book, ConfigError>)
    ensures
        match outcome {
            Ok(out) => config_fault(*config) is None && out@ == rewritten_items(
                book@,
                configured_rules(*config),
            ),
            Err(error) => config_fault(*config) == Some(error@),
        },
        rules_value(*config) is None ==> outcome is Ok && outcome->Ok_0@ == book@,
{
    match Replacer::try_new(config) {
        Ok(replacer) => Ok(replacer.run(book)),
        Err(error) => Err(error),
    }
}

} // verus!
