//! The built-in operations: copy, list, move and remove.

use crate::error::ErrorKind;
use crate::text::text_equals;
use crate::tokenizer::{tokenize, tokens_of};
use std::str::FromStr;
use vstd::prelude::*;
use vstd::string::StringExecFns;

verus! {

/// A built-in operation with the operands that its name calls for.
#[derive(Debug, PartialEq, Eq)]
pub enum BuiltInCommand {
    /// `cp`: copy `source` to `destination`.
    Copy { source: String, destination: String },
    /// `ls`: list; takes no operand.
    List,
    /// `mv`: move `source` to `destination`.
    Move { source: String, destination: String },
    /// `rm`: remove `target`.
    Remove { target: String },
}

/// A built-in operation as plain sequences of characters.
pub enum BuiltInCommandView {
    Copy { source: Seq<char>, destination: Seq<char> },
    List,
    Move { source: Seq<char>, destination: Seq<char> },
    Remove { target: Seq<char> },
}

impl View for BuiltInCommand {
    type V = BuiltInCommandView;

    open spec fn view(&self) -> BuiltInCommandView {
        match *self {
            BuiltInCommand::Copy { source, destination } => BuiltInCommandView::Copy {
                source: source@,
                destination: destination@,
            },
            BuiltInCommand::List => BuiltInCommandView::List,
            BuiltInCommand::Move { source, destination } => BuiltInCommandView::Move {
                source: source@,
                destination: destination@,
            },
            BuiltInCommand::Remove { target } => BuiltInCommandView::Remove { target: target@ },
        }
    }
}

/// The built-in operation that the tokens invoke, if they invoke one: the
/// first token names it, the next ones are its operands in order, and tokens
/// beyond the operands do not count. A name that lacks an operand invokes
/// nothing.
pub open spec fn built_in_of(tokens: Seq<Seq<char>>) -> Option<BuiltInCommandView> {
    if tokens.len() >= 3 && tokens[0] == "cp"@ {
        Some(BuiltInCommandView::Copy { source: tokens[1], destination: tokens[2] })
    } else if tokens.len() >= 1 && tokens[0] == "ls"@ {
        Some(BuiltInCommandView::List)
    } else if tokens.len() >= 3 && tokens[0] == "mv"@ {
        Some(BuiltInCommandView::Move { source: tokens[1], destination: tokens[2] })
    } else if tokens.len() >= 2 && tokens[0] == "rm"@ {
        Some(BuiltInCommandView::Remove { target: tokens[1] })
    } else {
        None
    }
}

/// What the handler of a built-in operation reports.
pub open spec fn built_in_report(command: BuiltInCommandView) -> Seq<char> {
    match command {
        BuiltInCommandView::Copy { source, destination } => "cp src: "@ + source + ", dest: "@
            + destination,
        BuiltInCommandView::List => "ls"@,
        BuiltInCommandView::Move { source, destination } => "mv src: "@ + source + ", dest: "@
            + destination,
        BuiltInCommandView::Remove { target } => "rm: "@ + target,
    }
}

/// Whether `outcome` is what classifying `tokens` as a built-in operation
/// gives: the operation they invoke, or `InvalidBuiltIn` where they invoke
/// none.
pub open spec fn is_built_in_outcome(
    tokens: Seq<Seq<char>>,
    outcome: Result<BuiltInCommand, ErrorKind>,
) -> bool {
    match outcome {
        Ok(command) => built_in_of(tokens) == Some(command@),
        Err(kind) => kind == ErrorKind::InvalidBuiltIn && built_in_of(tokens) is None,
    }
}

impl Clone for BuiltInCommand {
    fn clone(&self) -> (copy: Self)
        ensures
            copy@ == self@,
    {
        match self {
            BuiltInCommand::Copy { source, destination } => BuiltInCommand::Copy {
                source: source.clone(),
                destination: destination.clone(),
            },
            BuiltInCommand::List => BuiltInCommand::List,
            BuiltInCommand::Move { source, destination } => BuiltInCommand::Move {
                source: source.clone(),
                destination: destination.clone(),
            },
            BuiltInCommand::Remove { target } => BuiltInCommand::Remove { target: target.clone() },
        }
    }
}

impl FromStr for BuiltInCommand {
    type Err = ErrorKind;

    /// Classifies a line as a built-in operation.
    fn from_str(line: &str) -> (outcome: Result<BuiltInCommand, ErrorKind>)
        ensures
            is_built_in_outcome(tokens_of(line@), outcome),
    {
        let tokens = tokenize(line);
        BuiltInCommand::from_tokens(&tokens)
    }
}

impl BuiltInCommand {
    /// Classifies a token sequence as a built-in operation.
    pub fn from_tokens(tokens: &Vec<String>) -> (outcome: Result<BuiltInCommand, ErrorKind>)
        ensures
            is_built_in_outcome(tokens.deep_view(), outcome),
    {
        let count: usize = tokens.len();
        if count == 0 {
            return Err(ErrorKind::InvalidBuiltIn);
        }
        let ghost words = tokens.deep_view();
        assert(words[0] == tokens[0]@);
        let name = tokens[0].as_str();
        if text_equals(name, "cp") {
            if count >= 3 {
                assert(words[1] == tokens[1]@ && words[2] == tokens[2]@);
                return Ok(
                    BuiltInCommand::Copy {
                        source: tokens[1].clone(),
                        destination: tokens[2].clone(),
                    },
                );
            }
        } else if text_equals(name, "ls") {
            return Ok(BuiltInCommand::List);
        } else if text_equals(name, "mv") {
            if count >= 3 {
                assert(words[1] == tokens[1]@ && words[2] == tokens[2]@);
                return Ok(
                    BuiltInCommand::Move {
                        source: tokens[1].clone(),
                        destination: tokens[2].clone(),
                    },
                );
            }
        } else if text_equals(name, "rm") {
            if count >= 2 {
                assert(words[1] == tokens[1]@);
                return Ok(BuiltInCommand::Remove { target: tokens[1].clone() });
            }
        }
        proof {
            reveal_strlit("cp");
            reveal_strlit("ls");
            reveal_strlit("mv");
            reveal_strlit("rm");
            assert("cp"@[0] == 'c' && "ls"@[0] == 'l' && "mv"@[0] == 'm' && "rm"@[0] == 'r');
        }
        Err(ErrorKind::InvalidBuiltIn)
    }

    /// The report of the operation's handler.
    pub fn exec(&self) -> (report: String)
        ensures
            report@ == built_in_report(self@),
    {
        match self {
            BuiltInCommand::Copy { source, destination } => {
                let mut report = "cp src: ".to_owned();
                report.append(source.as_str());
                report.append(", dest: ");
                report.append(destination.as_str());
                report
            },
            BuiltInCommand::List => "ls".to_owned(),
            BuiltInCommand::Move { source, destination } => {
                let mut report = "mv src: ".to_owned();
                report.append(source.as_str());
                report.append(", dest: ");
                report.append(destination.as_str());
                report
            },
            BuiltInCommand::Remove { target } => {
                let mut report = "rm: ".to_owned();
                report.append(target.as_str());
                report
            },
        }
    }
}

} // verus!
