//! The evaluator: what an expression means in an environment.
//!
//! Two list forms are understood. `( define name value )` evaluates `value`
//! and binds `name` to the result in the environment at hand.
//! `( lambda ( params .. ) body )` makes a function that carries a copy of that
//! environment. Every other list is refused: the language has no function
//! application, and [`apply`] is offered to callers directly.

use vstd::prelude::*;
use vstd::string::StringExecFns;
use crate::expr::{exprs_view, names_view, Expr, LispExpression};
use crate::text::same_text;
use crate::value::{Environment, LispValue, Val};

verus! {

/// What is wrong with a `define` form.
#[derive(Clone, Copy, Debug, PartialEq, Eq, Structural)]
pub enum DefineFault {
    /// The form does not have exactly three elements.
    WrongArity,
    /// The second element is not a symbol.
    NameNotSymbol,
}

/// What is wrong with a `lambda` form.
#[derive(Clone, Copy, Debug, PartialEq, Eq, Structural)]
pub enum LambdaFault {
    /// The form does not have exactly three elements.
    WrongArity,
    /// The second element is not a list.
    ParametersNotList,
}

/// The mathematical form of an evaluation error.
pub enum Fault {
    UndefinedSymbol(Seq<char>),
    EmptyList,
    InvalidDefine(DefineFault),
    InvalidLambda(LambdaFault),
    InvalidLambdaParam,
    InvalidExpression,
    LambdaNotCallable,
    NotCallable,
    ArityMismatch,
}

/// Why an expression could not be evaluated, or a value not applied.
#[derive(Debug)]
pub enum EvalError {
    /// A symbol that the environment does not bind; it carries the name.
    UndefinedSymbol(String),
    /// The empty list was evaluated.
    EmptyList,
    /// A malformed `define` form.
    InvalidDefine(DefineFault),
    /// A malformed `lambda` form.
    InvalidLambda(LambdaFault),
    /// A parameter of a `lambda` form that is not a symbol.
    InvalidLambdaParam,
    /// A list whose head is neither `define` nor `lambda`.
    InvalidExpression,
    /// A function literal was evaluated directly.
    LambdaNotCallable,
    /// A value that is no function was applied.
    NotCallable,
    /// A function was applied to the wrong number of arguments.
    ArityMismatch,
}

impl View for EvalError {
    type V = Fault;

    open spec fn view(&self) -> Fault {
        match self {
            EvalError::UndefinedSymbol(name) => Fault::UndefinedSymbol(name@),
            EvalError::EmptyList => Fault::EmptyList,
            EvalError::InvalidDefine(fault) => Fault::InvalidDefine(*fault),
            EvalError::InvalidLambda(fault) => Fault::InvalidLambda(*fault),
            EvalError::InvalidLambdaParam => Fault::InvalidLambdaParam,
            EvalError::InvalidExpression => Fault::InvalidExpression,
            EvalError::LambdaNotCallable => Fault::LambdaNotCallable,
            EvalError::NotCallable => Fault::NotCallable,
            EvalError::ArityMismatch => Fault::ArityMismatch,
        }
    }
}

impl Fault {
    /// The text that describes this error to a reader.
    pub open spec fn message(self) -> Seq<char> {
        match self {
            Fault::UndefinedSymbol(name) => "Undefined symbol: "@ + name,
            Fault::EmptyList => "Empty list"@,
            Fault::InvalidDefine(DefineFault::WrongArity) => "Invalid define expression"@,
            Fault::InvalidDefine(DefineFault::NameNotSymbol) => "Invalid variable name in define"@,
            Fault::InvalidLambda(LambdaFault::WrongArity) => "Invalid lambda expression"@,
            Fault::InvalidLambda(LambdaFault::ParametersNotList) => "Invalid parameter list in lambda"@,
            Fault::InvalidLambdaParam => "Invalid parameter name in lambda"@,
            Fault::InvalidExpression => "Invalid expression"@,
            Fault::LambdaNotCallable => "Lambda cannot be evaluated directly"@,
            Fault::NotCallable => "Invalid function application"@,
            Fault::ArityMismatch => "Incorrect number of arguments"@,
        }
    }
}

impl EvalError {
    /// The text that describes this error to a reader.
    pub fn message(&self) -> (text: String)
        ensures
            text@ == self@.message(),
    {
        match self {
            EvalError::UndefinedSymbol(name) => {
                let mut text = "Undefined symbol: ".to_owned();
                text.append(name.as_str());
                text
            },
            EvalError::EmptyList => "Empty list".to_owned(),
            EvalError::InvalidDefine(DefineFault::WrongArity) => "Invalid define expression".to_owned(),
            EvalError::InvalidDefine(DefineFault::NameNotSymbol) => "Invalid variable name in define".to_owned(),
            EvalError::InvalidLambda(LambdaFault::WrongArity) => "Invalid lambda expression".to_owned(),
            EvalError::InvalidLambda(LambdaFault::ParametersNotList) => "Invalid parameter list in lambda".to_owned(),
            EvalError::InvalidLambdaParam => "Invalid parameter name in lambda".to_owned(),
            EvalError::InvalidExpression => "Invalid expression".to_owned(),
            EvalError::LambdaNotCallable => "Lambda cannot be evaluated directly".to_owned(),
            EvalError::NotCallable => "Invalid function application".to_owned(),
            EvalError::ArityMismatch => "Incorrect number of arguments".to_owned(),
        }
    }
}

/// What an evaluation gives: a value or an error, and the environment as the
/// evaluation leaves it.
pub struct Outcome {
    pub result: Result<Val, Fault>,
    pub env: Map<Seq<char>, Val>,
}

/// The mathematical form of what an evaluation returned.
pub open spec fn result_model(result: Result<LispValue, EvalError>) -> Result<Val, Fault> {
    match result {
        Ok(value) => Ok(value@),
        Err(error) => Err(error@),
    }
}

/// The names that a parameter list declares, or `None` where one of its
/// elements is not a symbol.
pub open spec fn parameter_names(params: Seq<Expr>) -> Option<Seq<Seq<char>>> {
    if forall|i: int| 0 <= i < params.len() ==> params[i] is Symbol {
        Some(Seq::new(params.len(), |i: int| params[i]->Symbol_0))
    } else {
        None
    }
}

/// What evaluating `expr` in `env` gives.
pub open spec fn eval_model(expr: Expr, env: Map<Seq<char>, Val>) -> Outcome
    decreases expr,
{
    match expr {
        Expr::Number(bits) => Outcome { result: Ok(Val::Number(bits)), env },
        Expr::Boolean(b) => Outcome { result: Ok(Val::Boolean(b)), env },
        Expr::Symbol(name) => if env.contains_key(name) {
            Outcome { result: Ok(env[name]), env }
        } else {
            Outcome { result: Err(Fault::UndefinedSymbol(name)), env }
        },
        Expr::List(items) => if items.len() == 0 {
            Outcome { result: Err(Fault::EmptyList), env }
        } else if items[0] == Expr::Symbol("define"@) {
            if items.len() != 3 {
                Outcome { result: Err(Fault::InvalidDefine(DefineFault::WrongArity)), env }
            } else {
                match items[1] {
                    Expr::Symbol(name) => {
                        let inner = eval_model(items[2], env);
                        match inner.result {
                            Ok(value) => Outcome {
                                result: Ok(value),
                                env: inner.env.insert(name, value),
                            },
                            Err(_) => inner,
                        }
                    },
                    _ => Outcome {
                        result: Err(Fault::InvalidDefine(DefineFault::NameNotSymbol)),
                        env,
                    },
                }
            }
        } else if items[0] == Expr::Symbol("lambda"@) {
            if items.len() != 3 {
                Outcome { result: Err(Fault::InvalidLambda(LambdaFault::WrongArity)), env }
            } else {
                match items[1] {
                    Expr::List(params) => match parameter_names(params) {
                        Some(names) => Outcome {
                            result: Ok(Val::Closure(names, items[2], env)),
                            env,
                        },
                        None => Outcome { result: Err(Fault::InvalidLambdaParam), env },
                    },
                    _ => Outcome {
                        result: Err(Fault::InvalidLambda(LambdaFault::ParametersNotList)),
                        env,
                    },
                }
            }
        } else {
            Outcome { result: Err(Fault::InvalidExpression), env }
        },
        Expr::Lambda(_, _) => Outcome { result: Err(Fault::LambdaNotCallable), env },
    }
}

/// The names of a parameter list, or `None` where one of its elements is not
/// a symbol.
fn collect_parameters(params: &Vec<LispExpression>) -> (names: Option<Vec<String>>)
    ensures
        match names {
            Some(names) => parameter_names(exprs_view(params@)) == Some(names_view(names@)),
            None => parameter_names(exprs_view(params@)) is None,
        },
{
    let ghost model = exprs_view(params@);
    let mut names: Vec<String> = Vec::new();
    let mut i: usize = 0;
    while i < params.len()
        invariant
            i <= params.len(),
            names.len() == i,
            model == exprs_view(params@),
            forall|k: int| 0 <= k < i ==> model[k] == Expr::Symbol(#[trigger] names[k]@),
        decreases params.len() - i,
    {
        match &params[i] {
            LispExpression::Symbol(name) => {
                names.push(name.clone());
            },
            _ => {
                assert(!(model[i as int] is Symbol));
                return None;
            },
        }
        i += 1;
    }
    assert forall|k: int| 0 <= k < model.len() implies model[k] is Symbol by {
        assert(model[k] == Expr::Symbol(names[k]@));
    }
    assert(names_view(names@) =~= Seq::new(model.len(), |i: int| model[i]->Symbol_0));
    Some(names)
}

/// Evaluates `expr` in `env`.
///
/// Literals evaluate to themselves and a symbol to the value it is bound to.
/// A `define` form binds its name in `env` once its value has been evaluated;
/// a `lambda` form captures a copy of `env`. An error leaves `env` as the
/// evaluation found it.
pub fn eval(expr: &LispExpression, env: &mut Environment) -> (result: Result<LispValue, EvalError>)
    ensures
        result_model(result) == eval_model(expr@, old(env)@).result,
        final(env)@ == eval_model(expr@, old(env)@).env,
    decreases expr,
{
    match expr {
        LispExpression::Number(bits) => Ok(LispValue::Number(*bits)),
        LispExpression::Boolean(b) => Ok(LispValue::Boolean(*b)),
        LispExpression::Symbol(name) => match env.get(name.as_str()) {
            Some(value) => Ok(value.clone()),
            None => Err(EvalError::UndefinedSymbol(name.clone())),
        },
        LispExpression::List(list) => {
            if list.len() == 0 {
                return Err(EvalError::EmptyList);
            }
            assert(forall|i: int| 0 <= i < list.len() ==> expr@->List_0[i] == list[i]@);
            match &list[0] {
                LispExpression::Symbol(head) => {
                    if same_text(head.as_str(), "define") {
                        if list.len() != 3 {
                            return Err(EvalError::InvalidDefine(DefineFault::WrongArity));
                        }
                        match &list[1] {
                            LispExpression::Symbol(name) => {
                                match eval(&list[2], env) {
                                    Ok(value) => {
                                        env.set(name.clone(), value.clone());
                                        Ok(value)
                                    },
                                    Err(error) => Err(error),
                                }
                            },
                            _ => Err(EvalError::InvalidDefine(DefineFault::NameNotSymbol)),
                        }
                    } else if same_text(head.as_str(), "lambda") {
                        if list.len() != 3 {
                            return Err(EvalError::InvalidLambda(LambdaFault::WrongArity));
                        }
                        match &list[1] {
                            LispExpression::List(params) => {
                                assert(list[1]@->List_0 =~= exprs_view(params@));
                                match collect_parameters(params) {
                                    Some(names) => {
                                        let body = Box::new(list[2].clone());
                                        Ok(LispValue::Lambda(names, body, env.clone()))
                                    },
                                    None => Err(EvalError::InvalidLambdaParam),
                                }
                            },
                            _ => Err(EvalError::InvalidLambda(LambdaFault::ParametersNotList)),
                        }
                    } else {
                        Err(EvalError::InvalidExpression)
                    }
                },
                _ => Err(EvalError::InvalidExpression),
            }
        },
        LispExpression::Lambda(_, _) => Err(EvalError::LambdaNotCallable),
    }
}

/// How far the arguments of a call have been bound: the scope of the call
/// as built so far, or the error that stopped it, and the caller's
/// environment as the arguments evaluated so far have left it.
pub struct Bound {
    pub scope: Result<Map<Seq<char>, Val>, Fault>,
    pub caller: Map<Seq<char>, Val>,
}

/// The state after the first `n` arguments have been evaluated, left to
/// right, in the caller's environment and bound to the parameters of the
/// same positions in a scope that starts as `captured`. The first argument
/// that fails stops the binding.
pub open spec fn bind_model(
    params: Seq<Seq<char>>,
    args: Seq<Expr>,
    captured: Map<Seq<char>, Val>,
    caller: Map<Seq<char>, Val>,
    n: nat,
) -> Bound
    decreases n,
{
    if n == 0 {
        Bound { scope: Ok(captured), caller }
    } else {
        let before = bind_model(params, args, captured, caller, (n - 1) as nat);
        match before.scope {
            Ok(scope) => {
                let argument = eval_model(args[n - 1], before.caller);
                match argument.result {
                    Ok(value) => Bound {
                        scope: Ok(scope.insert(params[n - 1], value)),
                        caller: argument.env,
                    },
                    Err(fault) => Bound { scope: Err(fault), caller: argument.env },
                }
            },
            Err(_) => before,
        }
    }
}

/// What applying `func` to the argument expressions `args` gives, with `env`
/// the caller's environment.
pub open spec fn apply_model(func: Val, args: Seq<Expr>, env: Map<Seq<char>, Val>) -> Outcome {
    match func {
        Val::Closure(params, body, captured) => if args.len() != params.len() {
            Outcome { result: Err(Fault::ArityMismatch), env }
        } else {
            let bound = bind_model(params, args, captured, env, args.len());
            match bound.scope {
                Ok(scope) => Outcome { result: eval_model(body, scope).result, env: bound.caller },
                Err(fault) => Outcome { result: Err(fault), env: bound.caller },
            }
        },
        _ => Outcome { result: Err(Fault::NotCallable), env },
    }
}

/// Once an argument has failed, the binding stays as that failure left it.
proof fn lemma_bind_stops(
    params: Seq<Seq<char>>,
    args: Seq<Expr>,
    captured: Map<Seq<char>, Val>,
    caller: Map<Seq<char>, Val>,
    failed: nat,
    n: nat,
)
    requires
        failed <= n,
        bind_model(params, args, captured, caller, failed).scope is Err,
    ensures
        bind_model(params, args, captured, caller, n) == bind_model(
            params,
            args,
            captured,
            caller,
            failed,
        ),
    decreases n,
{
    if failed < n {
        lemma_bind_stops(params, args, captured, caller, failed, (n - 1) as nat);
    }
}

/// Applies the function `func` to the argument expressions `args`.
///
/// The arguments are evaluated left to right in the caller's environment
/// `env`, and each result is bound to the parameter of the same position in a
/// copy of the environment that the function captured. The body is evaluated
/// in that copy, which is then dropped: nothing that the body defines reaches
/// `env`. A value that is no function gives `NotCallable`, a wrong number of
/// arguments `ArityMismatch`.
#[verifier::loop_isolation(false)]
pub fn apply(func: &LispValue, args: &[LispExpression], env: &mut Environment) -> (result: Result<
    LispValue,
    EvalError,
>)
    ensures
        result_model(result) == apply_model(func@, exprs_view(args@), old(env)@).result,
        final(env)@ == apply_model(func@, exprs_view(args@), old(env)@).env,
{
    match func {
        LispValue::Lambda(params, body, closure) => {
            if args.len() != params.len() {
                return Err(EvalError::ArityMismatch);
            }
            let ghost names = names_view(params@);
            let ghost arguments = exprs_view(args@);
            let mut new_env = closure.clone();
            let mut i: usize = 0;
            while i < args.len()
                invariant
                    i <= args.len(),
                    args.len() == params.len(),
                    names == names_view(params@),
                    arguments == exprs_view(args@),
                    bind_model(names, arguments, closure@, old(env)@, i as nat) == (Bound {
                        scope: Ok(new_env@),
                        caller: env@,
                    }),
                decreases args.len() - i,
            {
                match eval(&args[i], env) {
                    Ok(value) => {
                        new_env.set(params[i].clone(), value);
                    },
                    Err(error) => {
                        proof {
                            assert(arguments[i as int] == args[i as int]@);
                            assert(bind_model(
                                names,
                                arguments,
                                closure@,
                                old(env)@,
                                (i + 1) as nat,
                            ).scope is Err);
                            lemma_bind_stops(
                                names,
                                arguments,
                                closure@,
                                old(env)@,
                                (i + 1) as nat,
                                args.len() as nat,
                            );
                        }
                        return Err(error);
                    },
                }
                i += 1;
            }
            eval(body, &mut new_env)
        },
        _ => Err(EvalError::NotCallable),
    }
}

} // verus!
