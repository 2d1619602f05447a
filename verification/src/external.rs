//! Invocations of external programs: a program name and its arguments.

use crate::error::ErrorKind;
use crate::text::copy_texts;
use crate::tokenizer::{tokenize, tokens_of};
use std::str::FromStr;
use vstd::prelude::*;
use vstd::string::StringExecFns;

verus! {

/// The invocation of a program that is none of the built-in operations.
#[derive(Debug, PartialEq, Eq)]
pub struct ExternalCommand {
    /// The program's name.
    pub program: String,
    /// The arguments handed to the program, in order.
    pub arguments: Vec<String>,
}

/// An external invocation as plain sequences of characters.
pub struct ExternalCommandView {
    pub program: Seq<char>,
    pub arguments: Seq<Seq<char>>,
}

impl View for ExternalCommand {
    type V = ExternalCommandView;

    open spec fn view(&self) -> ExternalCommandView {
        ExternalCommandView {
            program: self.program@,
            arguments: self.arguments.deep_view(),
        }
    }
}

/// The external invocation that the tokens stand for: the first token is the
/// program, all the others are its arguments. Only an empty token sequence
/// stands for none.
pub open spec fn external_of(tokens: Seq<Seq<char>>) -> Option<ExternalCommandView> {
    if tokens.len() >= 1 {
        Some(ExternalCommandView { program: tokens[0], arguments: tokens.skip(1) })
    } else {
        None
    }
}

/// Whether `outcome` is what classifying `tokens` as an external invocation
/// gives: the invocation they stand for, or `InvalidExternal` where there is
/// no token.
pub open spec fn is_external_outcome(
    tokens: Seq<Seq<char>>,
    outcome: Result<ExternalCommand, ErrorKind>,
) -> bool {
    match outcome {
        Ok(command) => external_of(tokens) == Some(command@),
        Err(kind) => kind == ErrorKind::InvalidExternal && tokens.len() == 0,
    }
}

/// The text that `{:?}` formatting gives for a list of texts with these
/// characters.
pub uninterp spec fn debug_rendering(texts: Seq<Seq<char>>) -> Seq<char>;

/// What the handler of an external invocation reports, given the rendering of
/// the argument list.
pub open spec fn external_report(program: Seq<char>, rendered: Seq<char>) -> Seq<char> {
    "exec: "@ + program + ", args: "@ + rendered
}

/// Formats the list with `{:?}`. The result depends on the characters of the
/// texts alone; [`debug_rendering`] names it.
#[verifier::external_body]
fn render_debug(texts: &Vec<String>) -> (rendered: String)
    ensures
        rendered@ == debug_rendering(texts.deep_view()),
{
    format!("{:?}", texts)
}

impl Clone for ExternalCommand {
    fn clone(&self) -> (copy: Self)
        ensures
            copy@ == self@,
    {
        let arguments = copy_texts(&self.arguments, 0);
        assert(self.arguments.deep_view().skip(0) =~= self.arguments.deep_view());
        ExternalCommand { program: self.program.clone(), arguments }
    }
}

impl FromStr for ExternalCommand {
    type Err = ErrorKind;

    /// Classifies a line as an external invocation.
    fn from_str(line: &str) -> (outcome: Result<ExternalCommand, ErrorKind>)
        ensures
            is_external_outcome(tokens_of(line@), outcome),
    {
        let tokens = tokenize(line);
        ExternalCommand::from_tokens(&tokens)
    }
}

impl ExternalCommand {
    /// Classifies a token sequence as an external invocation.
    pub fn from_tokens(tokens: &Vec<String>) -> (outcome: Result<ExternalCommand, ErrorKind>)
        ensures
            is_external_outcome(tokens.deep_view(), outcome),
    {
        let count: usize = tokens.len();
        if count == 0 {
            return Err(ErrorKind::InvalidExternal);
        }
        assert(tokens.deep_view()[0] == tokens[0]@);
        let program = tokens[0].clone();
        let arguments = copy_texts(tokens, 1);
        Ok(ExternalCommand { program, arguments })
    }

    /// The report of the invocation's handler, where `rendered` is the
    /// argument list as text.
    pub fn report_with(&self, rendered: &str) -> (report: String)
        ensures
            report@ == external_report(self@.program, rendered@),
    {
        let mut report = "exec: ".to_owned();
        report.append(self.program.as_str());
        report.append(", args: ");
        report.append(rendered);
        report
    }

    /// The report of the invocation's handler: the program, then the
    /// arguments as `{:?}` formats their list.
    pub fn exec(&self) -> (report: String)
        ensures
            report@ == external_report(self@.program, debug_rendering(self@.arguments)),
    {
        let rendered = render_debug(&self.arguments);
        self.report_with(rendered.as_str())
    }
}

} // verus!
