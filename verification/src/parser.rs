//! The parser: from tokens to an expression.
//!
//! The grammar has atoms and lists. A list is `(`, any number of
//! expressions, and `)`. Every other token is an atom: `true` and `false` are
//! the two truth values, a token that reads as a number is that number, and
//! any other token is a symbol.

use vstd::prelude::*;
use crate::expr::{exprs_view, Expr, LispExpression};
use crate::lexer::{tokens_view, Lexeme, Token};
use crate::text::same_text;

verus! {

/// Why a sequence of tokens is no expression.
#[derive(Clone, Copy, Debug, PartialEq, Eq, Structural)]
pub enum ParseError {
    /// An expression was expected where the tokens end.
    UnexpectedEnd,
    /// A `)` stands where an expression was expected.
    UnexpectedClose,
    /// The tokens end inside a list.
    UnterminatedList,
}

impl ParseError {
    /// The text that describes this error to a reader.
    pub open spec fn message_model(self) -> Seq<char> {
        match self {
            ParseError::UnexpectedEnd => "Unexpected end of input"@,
            ParseError::UnexpectedClose => "Unexpected ')'"@,
            ParseError::UnterminatedList => "Unexpected end of input inside list"@,
        }
    }

    /// The text that describes this error to a reader.
    pub fn message(&self) -> (text: String)
        ensures
            text@ == self.message_model(),
    {
        match self {
            ParseError::UnexpectedEnd => "Unexpected end of input".to_owned(),
            ParseError::UnexpectedClose => "Unexpected ')'".to_owned(),
            ParseError::UnterminatedList => "Unexpected end of input inside list".to_owned(),
        }
    }
}

/// What a token that is no parenthesis stands for.
pub open spec fn atom_model(token: Lexeme) -> Expr {
    if token.text == "true"@ {
        Expr::Boolean(true)
    } else if token.text == "false"@ {
        Expr::Boolean(false)
    } else {
        match token.number {
            Some(bits) => Expr::Number(bits),
            None => Expr::Symbol(token.text),
        }
    }
}

/// The expression that starts at position `pos`, and the position after it.
pub open spec fn parse_tokens_model(tokens: Seq<Lexeme>, pos: int) -> Result<(Expr, int), ParseError>
    decreases tokens.len() - pos, 0int,
{
    if pos < 0 || pos >= tokens.len() {
        Err(ParseError::UnexpectedEnd)
    } else if tokens[pos].text == "("@ {
        match parse_list_model(tokens, pos + 1) {
            Ok((items, next)) => Ok((Expr::List(items), next)),
            Err(error) => Err(error),
        }
    } else if tokens[pos].text == ")"@ {
        Err(ParseError::UnexpectedClose)
    } else {
        Ok((atom_model(tokens[pos]), pos + 1))
    }
}

/// The elements of a list whose `(` stands just before position `pos`, and
/// the position after its `)`.
///
/// An element that was read ends after the position at which it starts and
/// within the tokens ([`lemma_parse_advances`]); the comparison of the
/// positions is what shows that this definition is well founded.
pub open spec fn parse_list_model(tokens: Seq<Lexeme>, pos: int) -> Result<
    (Seq<Expr>, int),
    ParseError,
>
    decreases tokens.len() - pos, 1int,
{
    if pos < 0 || pos >= tokens.len() {
        Err(ParseError::UnterminatedList)
    } else if tokens[pos].text == ")"@ {
        Ok((Seq::empty(), pos + 1))
    } else {
        match parse_tokens_model(tokens, pos) {
            Ok((first, next)) => if pos < next <= tokens.len() {
                match parse_list_model(tokens, next) {
                    Ok((rest, end)) => Ok((seq![first] + rest, end)),
                    Err(error) => Err(error),
                }
            } else {
                Err(ParseError::UnterminatedList)
            },
            Err(error) => Err(error),
        }
    }
}

/// The expression that the tokens start with. Tokens that follow it are
/// not looked at.
pub open spec fn parse_model(tokens: Seq<Lexeme>) -> Result<Expr, ParseError> {
    match parse_tokens_model(tokens, 0) {
        Ok((expr, _)) => Ok(expr),
        Err(error) => Err(error),
    }
}

/// A successful parse ends after the position at which it starts, and not
/// after the last token.
pub proof fn lemma_parse_advances(tokens: Seq<Lexeme>, pos: int)
    requires
        0 <= pos,
    ensures
        parse_tokens_model(tokens, pos) matches Ok((_, next)) ==> pos < next <= tokens.len(),
        parse_list_model(tokens, pos) matches Ok((_, next)) ==> pos < next <= tokens.len(),
    decreases tokens.len() - pos,
{
    if pos < tokens.len() {
        lemma_parse_advances(tokens, pos + 1);
        if tokens[pos].text != ")"@ {
            if let Ok((_, next)) = parse_tokens_model(tokens, pos) {
                lemma_parse_advances(tokens, next);
            }
        }
    }
}

/// Whether an expression holds no function literal, at any depth.
pub open spec fn literal_free(expr: Expr) -> bool
    decreases expr,
{
    match expr {
        Expr::List(items) => forall|i: int|
            0 <= i < items.len() ==> literal_free(#[trigger] items[i]),
        Expr::Lambda(_, _) => false,
        _ => true,
    }
}

/// A list holds no function literal exactly if none of its elements does.
proof fn lemma_literal_free_list(items: Seq<Expr>)
    ensures
        literal_free(Expr::List(items)) <==> forall|i: int|
            0 <= i < items.len() ==> literal_free(#[trigger] items[i]),
{
    let list = Expr::List(items);
    assert(list->List_0 == items);
}

/// The parser builds numbers, truth values, symbols and lists of these: no
/// function literal.
pub proof fn lemma_parse_builds_no_literal(tokens: Seq<Lexeme>, pos: int)
    requires
        0 <= pos,
    ensures
        parse_tokens_model(tokens, pos) matches Ok((expr, _)) ==> literal_free(expr),
        parse_list_model(tokens, pos) matches Ok((items, _)) ==> literal_free(Expr::List(items)),
    decreases tokens.len() - pos,
{
    if pos < tokens.len() {
        lemma_parse_builds_no_literal(tokens, pos + 1);
        if tokens[pos].text != ")"@ {
            if let Ok((first, next)) = parse_tokens_model(tokens, pos) {
                if pos < next <= tokens.len() {
                    lemma_parse_builds_no_literal(tokens, next);
                    if let Ok((rest, _)) = parse_list_model(tokens, next) {
                        let items = seq![first] + rest;
                        lemma_literal_free_list(rest);
                        lemma_literal_free_list(items);
                        assert forall|i: int| 0 <= i < items.len() implies literal_free(
                            #[trigger] items[i],
                        ) by {
                            if i > 0 {
                                assert(items[i] == rest[i - 1]);
                            }
                        }
                    }
                }
            }
        }
    }
}

/// A parse looks at no token after the expression that it reads: tokens
/// that agree up to the end of the expression parse alike.
pub proof fn lemma_parse_reads_its_tokens_only(a: Seq<Lexeme>, b: Seq<Lexeme>, pos: int)
    requires
        0 <= pos,
    ensures
        parse_tokens_model(a, pos) matches Ok((_, next)) && next <= b.len() && a.subrange(pos, next)
            == b.subrange(pos, next) ==> parse_tokens_model(b, pos) == parse_tokens_model(a, pos),
        parse_list_model(a, pos) matches Ok((_, next)) && next <= b.len() && a.subrange(pos, next)
            == b.subrange(pos, next) ==> parse_list_model(b, pos) == parse_list_model(a, pos),
    decreases a.len() - pos,
{
    lemma_parse_advances(a, pos);
    if pos < a.len() {
        lemma_parse_reads_its_tokens_only(a, b, pos + 1);
        lemma_parse_advances(a, pos + 1);
        if let Ok((_, next)) = parse_tokens_model(a, pos) {
            if next <= b.len() && a.subrange(pos, next) == b.subrange(pos, next) {
                assert(a[pos] == a.subrange(pos, next)[0]);
                assert(b[pos] == b.subrange(pos, next)[0]);
                if a[pos].text == "("@ {
                    assert(a.subrange(pos + 1, next) =~= a.subrange(pos, next).subrange(
                        1,
                        next - pos,
                    ));
                    assert(b.subrange(pos + 1, next) =~= b.subrange(pos, next).subrange(
                        1,
                        next - pos,
                    ));
                }
            }
        }
        if let Ok((_, end)) = parse_list_model(a, pos) {
            if end <= b.len() && a.subrange(pos, end) == b.subrange(pos, end) {
                assert(a[pos] == a.subrange(pos, end)[0]);
                assert(b[pos] == b.subrange(pos, end)[0]);
                if a[pos].text != ")"@ {
                    let next = parse_tokens_model(a, pos)->Ok_0.1;
                    lemma_parse_advances(a, next);
                    lemma_parse_reads_its_tokens_only(a, b, next);
                    assert(a.subrange(pos, next) =~= a.subrange(pos, end).subrange(0, next - pos));
                    assert(b.subrange(pos, next) =~= b.subrange(pos, end).subrange(0, next - pos));
                    assert(a.subrange(next, end) =~= a.subrange(pos, end).subrange(
                        next - pos,
                        end - pos,
                    ));
                    assert(b.subrange(next, end) =~= b.subrange(pos, end).subrange(
                        next - pos,
                        end - pos,
                    ));
                }
            }
        }
    }
}

/// The expression for a token that is no parenthesis.
fn parse_atom(token: &Token) -> (atom: LispExpression)
    ensures
        atom@ == atom_model(token@),
{
    if same_text(token.text.as_str(), "true") {
        LispExpression::Boolean(true)
    } else if same_text(token.text.as_str(), "false") {
        LispExpression::Boolean(false)
    } else {
        match token.number {
            Some(bits) => LispExpression::Number(bits),
            None => LispExpression::Symbol(token.text.clone()),
        }
    }
}

/// Reads the expression that the tokens start with.
///
/// Fails where there is no token, where the first token is `)`, and where a
/// list is opened and the tokens end before it is closed. Tokens after the
/// expression are ignored.
pub fn parse(tokens: &[Token]) -> (result: Result<LispExpression, ParseError>)
    ensures
        match result {
            Ok(expr) => parse_model(tokens_view(tokens@)) == Ok::<Expr, ParseError>(expr@),
            Err(error) => parse_model(tokens_view(tokens@)) == Err::<Expr, ParseError>(error),
        },
{
    match parse_tokens(tokens, 0) {
        Ok((expr, _)) => Ok(expr),
        Err(error) => Err(error),
    }
}

/// Reads the expression that starts at position `pos`, and tells the
/// position after it.
pub fn parse_tokens(tokens: &[Token], pos: usize) -> (result: Result<
    (LispExpression, usize),
    ParseError,
>)
    ensures
        match result {
            Ok((expr, next)) => parse_tokens_model(tokens_view(tokens@), pos as int) == Ok::<
                (Expr, int),
                ParseError,
            >((expr@, next as int)) && pos < next <= tokens.len(),
            Err(error) => parse_tokens_model(tokens_view(tokens@), pos as int) == Err::<
                (Expr, int),
                ParseError,
            >(error),
        },
    decreases tokens.len() - pos, 0int,
{
    if pos >= tokens.len() {
        return Err(ParseError::UnexpectedEnd);
    }
    let token = &tokens[pos];
    assert(tokens_view(tokens@)[pos as int] == token@);
    if same_text(token.text.as_str(), "(") {
        parse_list(tokens, pos + 1)
    } else if same_text(token.text.as_str(), ")") {
        Err(ParseError::UnexpectedClose)
    } else {
        Ok((parse_atom(token), pos + 1))
    }
}

/// The model's answer for a list of which `done` has been read already.
pub open spec fn after_elements(done: Seq<Expr>, rest: Result<(Seq<Expr>, int), ParseError>) -> Result<
    (Seq<Expr>, int),
    ParseError,
> {
    match rest {
        Ok((items, end)) => Ok((done + items, end)),
        Err(error) => Err(error),
    }
}

/// Reads the elements of a list up to its `)`. The `(` stands just before
/// position `pos`. Gives the list, and the position after the `)`.
pub fn parse_list(tokens: &[Token], pos: usize) -> (result: Result<
    (LispExpression, usize),
    ParseError,
>)
    ensures
        match result {
            Ok((list, next)) => list@ is List && parse_list_model(
                tokens_view(tokens@),
                pos as int,
            ) == Ok::<(Seq<Expr>, int), ParseError>((list@->List_0, next as int)) && pos < next
                <= tokens.len(),
            Err(error) => parse_list_model(tokens_view(tokens@), pos as int) == Err::<
                (Seq<Expr>, int),
                ParseError,
            >(error),
        },
    decreases tokens.len() - pos, 1int,
{
    if pos > tokens.len() {
        return Err(ParseError::UnterminatedList);
    }
    let ghost model = tokens_view(tokens@);
    let mut list: Vec<LispExpression> = Vec::new();
    let mut at: usize = pos;
    loop
        invariant
            pos <= at <= tokens.len(),
            model == tokens_view(tokens@),
            parse_list_model(model, pos as int) == after_elements(
                exprs_view(list@),
                parse_list_model(model, at as int),
            ),
        decreases tokens.len() - at,
    {
        if at >= tokens.len() {
            return Err(ParseError::UnterminatedList);
        }
        let token = &tokens[at];
        assert(model[at as int] == token@);
        if same_text(token.text.as_str(), ")") {
            let list = LispExpression::List(list);
            assert(list@->List_0 =~= exprs_view(list->List_0@) + Seq::<Expr>::empty());
            return Ok((list, at + 1));
        }
        let ghost before = exprs_view(list@);
        let element: LispExpression;
        let next: usize;
        if same_text(token.text.as_str(), "(") {
            match parse_list(tokens, at + 1) {
                Ok((sub, after)) => {
                    element = sub;
                    next = after;
                },
                Err(error) => {
                    return Err(error);
                },
            }
        } else {
            element = parse_atom(token);
            next = at + 1;
        }
        proof {
            assert(parse_tokens_model(model, at as int) == Ok::<(Expr, int), ParseError>(
                (element@, next as int),
            ));
            assert(exprs_view(list@.push(element)) =~= before + seq![element@]);
            match parse_list_model(model, next as int) {
                Ok((rest, end)) => {
                    assert(before + (seq![element@] + rest) =~= (before + seq![element@]) + rest);
                },
                Err(_) => {},
            }
        }
        list.push(element);
        at = next;
    }
}

} // verus!
