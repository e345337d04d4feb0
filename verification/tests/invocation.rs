use include_lua::invocation::{parse, Invocation, InvocationError, Token};

fn text(s: &str) -> Token {
    Token::Text(s.to_string())
}

fn tree(path: &str, name: &str) -> Result<Invocation, InvocationError> {
    Ok(Invocation { path: path.to_string(), name: name.to_string() })
}

#[test]
fn path_alone_is_its_own_label() {
    assert_eq!(parse(&vec![text("lib")]), tree("lib", "lib"));
}

#[test]
fn path_and_label() {
    assert_eq!(parse(&vec![text("lib"), Token::Colon, text("my library")]), tree("lib", "my library"));
}

#[test]
fn nothing_written() {
    assert_eq!(parse(&vec![]), Err(InvocationError::MissingPath));
}

#[test]
fn no_string_literal_first() {
    assert_eq!(parse(&vec![Token::Colon, text("lib")]), Err(InvocationError::MissingPath));
    assert_eq!(parse(&vec![Token::Other]), Err(InvocationError::MissingPath));
}

#[test]
fn colon_without_label() {
    assert_eq!(parse(&vec![text("lib"), Token::Colon]), Err(InvocationError::MissingName));
    assert_eq!(parse(&vec![text("lib"), Token::Colon, Token::Other]), Err(InvocationError::MissingName));
    assert_eq!(parse(&vec![text("lib"), Token::Colon, Token::Colon, text("x")]), Err(InvocationError::MissingName));
}

#[test]
fn something_left_over() {
    assert_eq!(parse(&vec![text("lib"), text("name")]), Err(InvocationError::UnknownToken));
    assert_eq!(parse(&vec![text("lib"), Token::Other]), Err(InvocationError::UnknownToken));
    assert_eq!(
        parse(&vec![text("lib"), Token::Colon, text("name"), Token::Other]),
        Err(InvocationError::UnknownToken)
    );
    assert_eq!(
        parse(&vec![text("lib"), Token::Colon, text("name"), Token::Colon, text("more")]),
        Err(InvocationError::UnknownToken)
    );
}
