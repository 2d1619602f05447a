//! Resolving a line to a command: a well-formed built-in invocation first,
//! an external invocation otherwise.

use crate::builtin::{built_in_of, built_in_report, BuiltInCommand, BuiltInCommandView};
use crate::error::ErrorKind;
use crate::external::{
    debug_rendering, external_of, external_report, ExternalCommand, ExternalCommandView,
};
use crate::tokenizer::{has_no_space, joined, lemma_tokens_of_joined, tokenize, tokens_of};
use std::str::FromStr;
use vstd::prelude::*;

verus! {

/// A classified line.
#[derive(Debug, PartialEq, Eq)]
pub enum Command {
    BuiltIn(BuiltInCommand),
    External(ExternalCommand),
}

/// A command as plain sequences of characters.
pub enum CommandView {
    BuiltIn(BuiltInCommandView),
    External(ExternalCommandView),
}

impl View for Command {
    type V = CommandView;

    open spec fn view(&self) -> CommandView {
        match *self {
            Command::BuiltIn(command) => CommandView::BuiltIn(command@),
            Command::External(command) => CommandView::External(command@),
        }
    }
}

/// The command that the tokens resolve to. A well-formed built-in invocation
/// wins; any other non-empty token sequence is an external invocation, also
/// one that begins with the name of a built-in operation but lacks an
/// operand. Only the empty token sequence resolves to nothing.
pub open spec fn command_of(tokens: Seq<Seq<char>>) -> Option<CommandView> {
    match built_in_of(tokens) {
        Some(command) => Some(CommandView::BuiltIn(command)),
        None => match external_of(tokens) {
            Some(command) => Some(CommandView::External(command)),
            None => None,
        },
    }
}

/// The command that a line resolves to.
pub open spec fn resolve(line: Seq<char>) -> Option<CommandView> {
    command_of(tokens_of(line))
}

/// What the handler of a command reports.
pub open spec fn command_report(command: CommandView) -> Seq<char> {
    match command {
        CommandView::BuiltIn(command) => built_in_report(command),
        CommandView::External(command) => external_report(
            command.program,
            debug_rendering(command.arguments),
        ),
    }
}

/// Whether `outcome` is what resolving `tokens` gives: the command they
/// resolve to, or `InvalidCommand` where they resolve to none.
pub open spec fn is_command_outcome(
    tokens: Seq<Seq<char>>,
    outcome: Result<Command, ErrorKind>,
) -> bool {
    match outcome {
        Ok(command) => command_of(tokens) == Some(command@),
        Err(kind) => kind == ErrorKind::InvalidCommand && command_of(tokens) is None,
    }
}

/// The outcome of a resolution as plain values.
pub open spec fn outcome_view(outcome: Result<Command, ErrorKind>) -> Result<CommandView, ErrorKind> {
    match outcome {
        Ok(command) => Ok(command@),
        Err(kind) => Err(kind),
    }
}

impl Clone for Command {
    fn clone(&self) -> (copy: Self)
        ensures
            copy@ == self@,
    {
        match self {
            Command::BuiltIn(command) => Command::BuiltIn(command.clone()),
            Command::External(command) => Command::External(command.clone()),
        }
    }
}

impl FromStr for Command {
    type Err = ErrorKind;

    /// Resolves a line. The caller trims the line first.
    fn from_str(line: &str) -> (outcome: Result<Command, ErrorKind>)
        ensures
            is_command_outcome(tokens_of(line@), outcome),
    {
        let tokens = tokenize(line);
        Command::from_tokens(&tokens)
    }
}

impl Command {
    /// Resolves a token sequence: tries the built-in operations, then falls
    /// back to an external invocation.
    pub fn from_tokens(tokens: &Vec<String>) -> (outcome: Result<Command, ErrorKind>)
        ensures
            is_command_outcome(tokens.deep_view(), outcome),
    {
        match BuiltInCommand::from_tokens(tokens) {
            Ok(command) => Ok(Command::BuiltIn(command)),
            Err(_) => match ExternalCommand::from_tokens(tokens) {
                Ok(command) => Ok(Command::External(command)),
                Err(_) => Err(ErrorKind::InvalidCommand),
            },
        }
    }

    /// The report of the command's handler.
    pub fn exec(&self) -> (report: String)
        ensures
            report@ == command_report(self@),
    {
        match self {
            Command::BuiltIn(command) => command.exec(),
            Command::External(command) => command.exec(),
        }
    }
}

/// Only the empty line fails to resolve; every other line gives a command.
pub proof fn lemma_only_the_empty_line_fails(line: Seq<char>)
    ensures
        resolve(line) is None <==> line.len() == 0,
{
    crate::tokenizer::lemma_pieces_hold_no_space(line);
}

/// Resolution depends on the text alone: two outcomes of resolving the same
/// line are structurally equal.
pub proof fn lemma_resolution_is_deterministic(
    line: Seq<char>,
    first: Result<Command, ErrorKind>,
    second: Result<Command, ErrorKind>,
)
    requires
        is_command_outcome(tokens_of(line), first),
        is_command_outcome(tokens_of(line), second),
    ensures
        outcome_view(first) == outcome_view(second),
{
}

/// A line whose tokens are `cp` or `mv` and exactly two more resolves to the
/// matching built-in operation: the first token after the name is the
/// source, the second the destination.
pub proof fn lemma_operands_in_order(line: Seq<char>, source: Seq<char>, destination: Seq<char>)
    ensures
        tokens_of(line) == seq!["cp"@, source, destination] ==> resolve(line) == Some(
            CommandView::BuiltIn(BuiltInCommandView::Copy { source, destination }),
        ),
        tokens_of(line) == seq!["mv"@, source, destination] ==> resolve(line) == Some(
            CommandView::BuiltIn(BuiltInCommandView::Move { source, destination }),
        ),
{
    reveal_strlit("cp");
    reveal_strlit("ls");
    reveal_strlit("mv");
    assert("cp"@[0] == 'c' && "ls"@[0] == 'l' && "mv"@[0] == 'm');
}

/// The line written as `cp` or `mv`, a space, a source, a space and a
/// destination, where neither operand holds a space, has exactly these three
/// tokens, and so resolves to the matching built-in operation with the
/// operands in the order written.
pub proof fn lemma_two_operand_line(name: Seq<char>, source: Seq<char>, destination: Seq<char>)
    requires
        name == "cp"@ || name == "mv"@,
        has_no_space(source),
        has_no_space(destination),
    ensures
        tokens_of(name + seq![' '] + source + seq![' '] + destination) == seq![
            name,
            source,
            destination,
        ],
        name == "cp"@ ==> resolve(name + seq![' '] + source + seq![' '] + destination) == Some(
            CommandView::BuiltIn(BuiltInCommandView::Copy { source, destination }),
        ),
        name == "mv"@ ==> resolve(name + seq![' '] + source + seq![' '] + destination) == Some(
            CommandView::BuiltIn(BuiltInCommandView::Move { source, destination }),
        ),
{
    reveal_strlit("cp");
    reveal_strlit("mv");
    let tokens = seq![name, source, destination];
    assert(name[0] != ' ' && name[1] != ' ');
    assert(has_no_space(name));
    assert(tokens.len() == 3 && seq![Seq::<char>::empty()].len() == 1);
    lemma_tokens_of_joined(tokens);
    assert(tokens.drop_last() =~= seq![name, source]);
    assert(seq![name, source].drop_last() =~= seq![name]);
    assert(joined(seq![name]) == name);
    assert(joined(seq![name, source]) =~= name + seq![' '] + source);
    assert(joined(tokens) =~= name + seq![' '] + source + seq![' '] + destination);
    lemma_operands_in_order(joined(tokens), source, destination);
}

/// A line that begins with the name of a built-in operation but lacks an
/// operand is no failure: it resolves to the external invocation of a
/// program of that name.
pub proof fn lemma_malformed_built_in_falls_back(line: Seq<char>)
    requires
        tokens_of(line).len() >= 1,
        built_in_of(tokens_of(line)) is None,
    ensures
        resolve(line) == Some(
            CommandView::External(
                ExternalCommandView {
                    program: tokens_of(line)[0],
                    arguments: tokens_of(line).skip(1),
                },
            ),
        ),
{
}

} // verus!
