//! One turn of a conversation with the interpreter: a line comes in, a
//! reply goes out.
//!
//! Reading the line and printing the reply are the caller's part, and so is
//! reading a word as a number (see [`Token`]).

use vstd::prelude::*;
use vstd::string::StringExecFns;
use crate::eval::{eval, eval_model, EvalError, Fault};
use crate::expr::names_view;
use crate::lexer::{tokens_view, Lexeme, Token};
use crate::parser::{parse, parse_model, ParseError};
use crate::text::same_text;
use crate::value::{Environment, LispValue, Val};

verus! {

/// Whether `words` are the words of the line that ends the conversation:
/// the single word `exit`, with any whitespace around it.
pub fn is_exit_command(words: &[String]) -> (exit: bool)
    ensures
        exit == (names_view(words@) == seq!["exit"@]),
{
    if words.len() == 1 {
        let exit = same_text(words[0].as_str(), "exit");
        proof {
            assert(names_view(words@)[0] == words[0]@);
            if exit {
                assert(names_view(words@) =~= seq!["exit"@]);
            } else {
                assert(seq!["exit"@][0] == "exit"@);
            }
        }
        exit
    } else {
        assert(seq!["exit"@].len() == 1);
        false
    }
}

/// The mathematical form of a reply.
pub enum ReplyModel {
    Value(Val),
    ParseFailure(ParseError),
    EvalFailure(Fault),
}

/// What the interpreter answers to one line.
#[derive(Debug)]
pub enum Reply {
    /// The line was evaluated to this value.
    Value(LispValue),
    /// The line is no expression.
    ParseFailure(ParseError),
    /// The expression could not be evaluated.
    EvalFailure(EvalError),
}

impl View for Reply {
    type V = ReplyModel;

    open spec fn view(&self) -> ReplyModel {
        match self {
            Reply::Value(value) => ReplyModel::Value(value@),
            Reply::ParseFailure(error) => ReplyModel::ParseFailure(*error),
            Reply::EvalFailure(error) => ReplyModel::EvalFailure(error@),
        }
    }
}

impl ReplyModel {
    /// The line that reports this reply where it is a failure.
    pub open spec fn error_line(self) -> Option<Seq<char>> {
        match self {
            ReplyModel::Value(_) => None,
            ReplyModel::ParseFailure(error) => Some(
                "Error parsing input: "@ + error.message_model(),
            ),
            ReplyModel::EvalFailure(fault) => Some("Error: "@ + fault.message()),
        }
    }
}

impl Reply {
    /// The line that reports this reply where it is a failure: the error's
    /// message after `Error parsing input: ` or `Error: `. A value has none.
    pub fn error_line(&self) -> (line: Option<String>)
        ensures
            match line {
                Some(text) => self@.error_line() == Some(text@),
                None => self@.error_line() is None,
            },
    {
        match self {
            Reply::Value(_) => None,
            Reply::ParseFailure(error) => {
                let mut line = "Error parsing input: ".to_owned();
                line.append(error.message().as_str());
                Some(line)
            },
            Reply::EvalFailure(error) => {
                let mut line = "Error: ".to_owned();
                line.append(error.message().as_str());
                Some(line)
            },
        }
    }
}

/// What parsing `tokens` and evaluating the expression in `env` gives, and
/// the environment after it.
pub open spec fn interpret_model(tokens: Seq<Lexeme>, env: Map<Seq<char>, Val>) -> (
    ReplyModel,
    Map<Seq<char>, Val>,
) {
    match parse_model(tokens) {
        Ok(expr) => {
            let outcome = eval_model(expr, env);
            match outcome.result {
                Ok(value) => (ReplyModel::Value(value), outcome.env),
                Err(fault) => (ReplyModel::EvalFailure(fault), outcome.env),
            }
        },
        Err(error) => (ReplyModel::ParseFailure(error), env),
    }
}

/// Parses the tokens of one line and evaluates the expression in `env`.
/// A line that does not parse leaves `env` untouched.
pub fn interpret(tokens: &[Token], env: &mut Environment) -> (reply: Reply)
    ensures
        reply@ == interpret_model(tokens_view(tokens@), old(env)@).0,
        final(env)@ == interpret_model(tokens_view(tokens@), old(env)@).1,
{
    match parse(tokens) {
        Ok(expr) => match eval(&expr, env) {
            Ok(value) => Reply::Value(value),
            Err(error) => Reply::EvalFailure(error),
        },
        Err(error) => Reply::ParseFailure(error),
    }
}

} // verus!
