//! What is written where a tree is embedded: the path of its root, and after
//! a colon, if one follows, the label under which its modules appear in
//! diagnostics. Without a label the path is the label.

use vstd::prelude::*;

verus! {

/// One token of what is written.
#[derive(Debug, PartialEq, Eq)]
pub enum Token {
    /// A string literal, by the text it stands for.
    Text(String),
    /// A colon.
    Colon,
    /// Anything else.
    Other,
}

/// A tree to embed.
#[derive(Debug, PartialEq, Eq)]
pub struct Invocation {
    /// The path of the root of the tree.
    pub path: String,
    /// The label of the tree in diagnostics.
    pub name: String,
}

/// Why what is written names no tree.
#[derive(Debug, PartialEq, Eq, Clone, Copy)]
pub enum InvocationError {
    /// It does not begin with a string literal.
    MissingPath,
    /// No string literal follows the colon.
    MissingName,
    /// Something follows where it should end.
    UnknownToken,
}

/// The text of a string literal; empty for another token.
pub open spec fn text_of(token: Token) -> Seq<char> {
    match token {
        Token::Text(text) => text@,
        _ => Seq::empty(),
    }
}

/// What the tokens stand for: the path and the label of a tree, or the
/// reason why they name none.
pub open spec fn meaning(tokens: Seq<Token>) -> Result<(Seq<char>, Seq<char>), InvocationError> {
    if tokens.len() == 0 || !(tokens[0] is Text) {
        Err(InvocationError::MissingPath)
    } else if tokens.len() == 1 {
        Ok((text_of(tokens[0]), text_of(tokens[0])))
    } else if !(tokens[1] is Colon) {
        Err(InvocationError::UnknownToken)
    } else if tokens.len() == 2 || !(tokens[2] is Text) {
        Err(InvocationError::MissingName)
    } else if tokens.len() == 3 {
        Ok((text_of(tokens[0]), text_of(tokens[2])))
    } else {
        Err(InvocationError::UnknownToken)
    }
}

/// A string literal alone names a tree and is its label too.
pub proof fn lemma_path_alone(path: Token)
    requires
        path is Text,
    ensures
        meaning(seq![path]) == Ok::<_, InvocationError>((text_of(path), text_of(path))),
{
}

/// A string literal, a colon and a second string literal name a tree and
/// its label.
pub proof fn lemma_path_and_name(path: Token, name: Token)
    requires
        path is Text,
        name is Text,
    ensures
        meaning(seq![path, Token::Colon, name]) == Ok::<_, InvocationError>(
            (text_of(path), text_of(name)),
        ),
{
}

/// Reads the tokens.
pub fn parse(tokens: &Vec<Token>) -> (r: Result<Invocation, InvocationError>)
    ensures
        match r {
            Ok(invocation) => meaning(tokens@) == Ok::<_, InvocationError>(
                (invocation.path@, invocation.name@),
            ),
            Err(error) => meaning(tokens@) == Err::<(Seq<char>, Seq<char>), _>(error),
        },
{
    if tokens.len() == 0 {
        return Err(InvocationError::MissingPath);
    }
    let path = match &tokens[0] {
        Token::Text(text) => text.clone(),
        _ => {
            return Err(InvocationError::MissingPath);
        },
    };
    if tokens.len() == 1 {
        let name = path.clone();
        return Ok(Invocation { path, name });
    }
    match &tokens[1] {
        Token::Colon => {},
        _ => {
            return Err(InvocationError::UnknownToken);
        },
    }
    if tokens.len() == 2 {
        return Err(InvocationError::MissingName);
    }
    let name = match &tokens[2] {
        Token::Text(text) => text.clone(),
        _ => {
            return Err(InvocationError::MissingName);
        },
    };
    if tokens.len() == 3 {
        Ok(Invocation { path, name })
    } else {
        Err(InvocationError::UnknownToken)
    }
}

} // verus!
