//! Laws of the language, proved over the models of the parser and the
//! evaluator.

use vstd::prelude::*;
use crate::eval::{apply_model, bind_model, eval_model, parameter_names, Fault, Outcome};
use crate::expr::Expr;
use crate::lexer::Lexeme;
use crate::parser::{parse_model, ParseError};
use crate::value::Val;

verus! {

/// A single token that reads as a number, and is neither a parenthesis nor
/// one of the words `true` and `false`, parses to that number.
pub proof fn lemma_number_token_parses(token: Lexeme)
    requires
        token.number is Some,
        token.text != "("@,
        token.text != ")"@,
        token.text != "true"@,
        token.text != "false"@,
    ensures
        parse_model(seq![token]) == Ok::<Expr, ParseError>(Expr::Number(token.number->0)),
{
}

/// The words `true` and `false` parse to the two truth values, whatever
/// they read as: never to a number or a symbol.
pub proof fn lemma_truth_tokens_parse(token: Lexeme)
    requires
        token.text == "true"@ || token.text == "false"@,
    ensures
        parse_model(seq![token]) == Ok::<Expr, ParseError>(
            Expr::Boolean(token.text == "true"@),
        ),
{
    reveal_strlit("true");
    reveal_strlit("false");
    reveal_strlit("(");
    reveal_strlit(")");
    assert("true"@.len() == 4 && "false"@.len() == 5);
    assert("("@.len() == 1 && ")"@.len() == 1);
}

/// Where `value` evaluates to a value, `( define name value )` returns that
/// value and binds `name` to it in the environment that the evaluation of
/// `value` left; the symbol `name` then evaluates to the same value and
/// changes nothing.
pub proof fn lemma_define_then_lookup(name: Seq<char>, value: Expr, env: Map<Seq<char>, Val>)
    requires
        eval_model(value, env).result is Ok,
    ensures
        ({
            let form = Expr::List(seq![Expr::Symbol("define"@), Expr::Symbol(name), value]);
            let inner = eval_model(value, env);
            let defined = eval_model(form, env);
            &&& defined.result == inner.result
            &&& defined.env == inner.env.insert(name, inner.result->Ok_0)
            &&& eval_model(Expr::Symbol(name), defined.env) == (Outcome {
                result: inner.result,
                env: defined.env,
            })
        }),
{
}

/// A `lambda` form whose parameters are all symbols evaluates to a closure
/// of those names and the unevaluated body, which holds the bindings of the
/// environment as they were: a later change to the environment is a new
/// map and leaves the closure as it is. The environment itself stays.
pub proof fn lemma_lambda_captures(params: Seq<Expr>, body: Expr, env: Map<Seq<char>, Val>)
    requires
        parameter_names(params) is Some,
    ensures
        eval_model(Expr::List(seq![Expr::Symbol("lambda"@), Expr::List(params), body]), env) == (
        Outcome { result: Ok(Val::Closure(parameter_names(params)->0, body, env)), env }),
{
    reveal_strlit("lambda");
    reveal_strlit("define");
    assert("lambda"@[0] == 'l' && "define"@[0] == 'd');
}

/// An evaluation that fails leaves the environment as it found it: a
/// `define` binds its name only once its value has been evaluated.
pub proof fn lemma_failure_keeps_environment(expr: Expr, env: Map<Seq<char>, Val>)
    requires
        eval_model(expr, env).result is Err,
    ensures
        eval_model(expr, env).env == env,
    decreases expr,
{
    if let Expr::List(items) = expr {
        if items.len() == 3 && items[0] == Expr::Symbol("define"@) && items[1] is Symbol {
            lemma_failure_keeps_environment(items[2], env);
        }
    }
}

/// Only a `define` form changes the environment.
pub proof fn lemma_only_define_changes_environment(expr: Expr, env: Map<Seq<char>, Val>)
    requires
        !(expr matches Expr::List(items) && items.len() > 0 && items[0] == Expr::Symbol(
            "define"@,
        )),
    ensures
        eval_model(expr, env).env == env,
{
}

/// A literal evaluates to its own value and leaves the environment alone,
/// so evaluating it a second time gives the same result as the first.
pub proof fn lemma_literal_evaluation_repeats(expr: Expr, env: Map<Seq<char>, Val>)
    requires
        expr is Number || expr is Boolean,
    ensures
        ({
            let first = eval_model(expr, env);
            &&& first.env == env
            &&& expr matches Expr::Number(bits) ==> first.result == Ok::<Val, Fault>(
                Val::Number(bits),
            )
            &&& expr matches Expr::Boolean(b) ==> first.result == Ok::<Val, Fault>(Val::Boolean(b))
            &&& eval_model(expr, first.env) == first
        }),
{
}

/// Whatever the body of a function defines stays in the scope of the call:
/// after an application the caller's environment is what the evaluation of
/// the arguments left.
pub proof fn lemma_apply_keeps_body_scope(
    params: Seq<Seq<char>>,
    body: Expr,
    captured: Map<Seq<char>, Val>,
    args: Seq<Expr>,
    env: Map<Seq<char>, Val>,
)
    requires
        args.len() == params.len(),
    ensures
        apply_model(Val::Closure(params, body, captured), args, env).env == bind_model(
            params,
            args,
            captured,
            env,
            args.len(),
        ).caller,
        args.len() == 0 ==> apply_model(Val::Closure(params, body, captured), args, env) == (
        Outcome { result: eval_model(body, captured).result, env }),
{
}

} // verus!
