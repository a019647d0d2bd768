//! Reading the payload of a single expected token.
use vstd::prelude::*;

use crate::ast::{split_on_dots, split_dots, upper_segments, lower_segments, Associativity, LowerName, ModuleName, Pattern, QualifiedLowerName, QualifiedUpperName, UpperName};
use crate::lexer::{Range, SrcToken, Token, token_text, wrapped_debug};
use crate::text::owned;

use super::error::Error;

verus! {

broadcast use vstd::string::group_string_axioms;

/// `e` reports that `found` (at `range`) was read where `expected` was wanted.
pub open spec fn is_unexpected(e: Error, found: Token, range: Range, expected: Seq<char>) -> bool {
    match e {
        Error::UnexpectedToken { expected: x, found: f, range: g } => x@ == expected && f@
            == token_text(found) && g == range,
        _ => false,
    }
}

/// The text naming a token kind that carries an empty name, as in `UpperName("")`.
pub open spec fn empty_named(kind: Seq<char>) -> Seq<char> {
    wrapped_debug(kind, Seq::<char>::empty())
}

/// The error for an unexpected token, naming what was expected.
pub fn unexpected(token: &Token, range: &Range, expected: String) -> (e: Error)
    ensures
        is_unexpected(e, *token, *range, expected@),
{
    Error::UnexpectedToken {
        found: token.to_text(),
        expected,
        range: Range { start: range.start, end: range.end },
    }
}

/// The text of `Token::UpperName("")`.
pub fn upper_name_text() -> (r: String)
    ensures
        r@ == empty_named("UpperName"@),
{
    Token::UpperName(String::new()).to_text()
}

/// The text of `Token::LowerName("")`.
pub fn lower_name_text() -> (r: String)
    ensures
        r@ == empty_named("LowerName"@),
{
    Token::LowerName(String::new()).to_text()
}

/// The text of `Token::Operator("")`.
pub fn operator_text() -> (r: String)
    ensures
        r@ == empty_named("Operator"@),
{
    Token::Operator(String::new()).to_text()
}

/// The module name a capitalised name or path spells: its segments between dots.
pub fn extract_module_name(stream_token: &Option<SrcToken>) -> (r: Result<ModuleName, Error>)
    ensures
        match *stream_token {
            Some((Token::UpperPath(name), _)) => r matches Ok(v) && v.deep_view() == split_dots(
                name@,
            ),
            Some((Token::UpperName(name), _)) => r matches Ok(v) && v.deep_view() == split_dots(
                name@,
            ),
            Some((t, range)) => r matches Err(e) && is_unexpected(
                e,
                t,
                range,
                empty_named("UpperName"@),
            ),
            None => r == Err::<ModuleName, Error>(Error::UnexpectedEnd),
        },
{
    match stream_token {
        Some((Token::UpperPath(name), _range)) => Ok(split_on_dots(name.as_str())),
        Some((Token::UpperName(name), _range)) => Ok(split_on_dots(name.as_str())),
        Some((token, range)) => Err(unexpected(token, range, upper_name_text())),
        None => Err(Error::UnexpectedEnd),
    }
}

/// The qualified name a capitalised name or path spells.
pub fn extract_qualified_upper_name(stream_token: &Option<SrcToken>) -> (r: Result<
    QualifiedUpperName,
    Error,
>)
    ensures
        match *stream_token {
            Some((Token::UpperPath(name), _)) => r matches Ok(n) && n@ == (
                split_dots(name@).drop_last(),
                split_dots(name@).last(),
            ),
            Some((Token::UpperName(name), _)) => r matches Ok(n) && n@ == (
                split_dots(name@).drop_last(),
                split_dots(name@).last(),
            ),
            Some((t, range)) => r matches Err(e) && is_unexpected(
                e,
                t,
                range,
                empty_named("UpperName"@),
            ),
            None => r == Err::<QualifiedUpperName, Error>(Error::UnexpectedEnd),
        },
{
    match stream_token {
        Some((Token::UpperPath(name), _range)) => match QualifiedUpperName::from(name.as_str()) {
            Some(n) => Ok(n),
            None => Err(Error::Unknown),
        },
        Some((Token::UpperName(name), _range)) => match QualifiedUpperName::from(name.as_str()) {
            Some(n) => Ok(n),
            None => Err(Error::Unknown),
        },
        Some((token, range)) => Err(unexpected(token, range, upper_name_text())),
        None => Err(Error::UnexpectedEnd),
    }
}

/// The capitalised name of an `UpperName` token.
pub fn extract_upper_name(stream_token: &Option<SrcToken>) -> (r: Result<UpperName, Error>)
    ensures
        match *stream_token {
            Some((Token::UpperName(name), _)) => r matches Ok(n) && n.0@ == name@,
            Some((t, range)) => r matches Err(e) && is_unexpected(
                e,
                t,
                range,
                empty_named("UpperName"@),
            ),
            None => r == Err::<UpperName, Error>(Error::UnexpectedEnd),
        },
{
    match stream_token {
        Some((Token::UpperName(name), _range)) => Ok(UpperName(name.clone())),
        Some((token, range)) => Err(unexpected(token, range, upper_name_text())),
        None => Err(Error::UnexpectedEnd),
    }
}

/// The qualified name of a `LowerName` token.
pub fn extract_qualified_lower_name(stream_token: &Option<SrcToken>) -> (r: Result<
    QualifiedLowerName,
    Error,
>)
    ensures
        match *stream_token {
            Some((Token::LowerName(name), _)) => r matches Ok(n) && n@ == (
                upper_segments(split_dots(name@)),
                lower_segments(split_dots(name@)),
            ),
            Some((t, range)) => r matches Err(e) && is_unexpected(
                e,
                t,
                range,
                empty_named("LowerName"@),
            ),
            None => r == Err::<QualifiedLowerName, Error>(Error::UnexpectedEnd),
        },
{
    match stream_token {
        Some((Token::LowerName(name), _range)) => Ok(QualifiedLowerName::from(name.clone())),
        Some((token, range)) => Err(unexpected(token, range, lower_name_text())),
        None => Err(Error::UnexpectedEnd),
    }
}

/// The name of a `LowerName` token.
pub fn extract_lower_name(stream_token: &Option<SrcToken>) -> (r: Result<LowerName, Error>)
    ensures
        match *stream_token {
            Some((Token::LowerName(name), _)) => r matches Ok(n) && n.0@ == name@,
            Some((t, range)) => r matches Err(e) && is_unexpected(
                e,
                t,
                range,
                empty_named("LowerName"@),
            ),
            None => r == Err::<LowerName, Error>(Error::UnexpectedEnd),
        },
{
    match stream_token {
        Some((Token::LowerName(name), _range)) => Ok(LowerName(name.clone())),
        Some((token, range)) => Err(unexpected(token, range, lower_name_text())),
        None => Err(Error::UnexpectedEnd),
    }
}

/// The text of an `Operator` token.
pub fn extract_operator(stream_token: &Option<SrcToken>) -> (r: Result<String, Error>)
    ensures
        match *stream_token {
            Some((Token::Operator(op), _)) => r matches Ok(o) && o@ == op@,
            Some((t, range)) => r matches Err(e) && is_unexpected(
                e,
                t,
                range,
                empty_named("Operator"@),
            ),
            None => r == Err::<String, Error>(Error::UnexpectedEnd),
        },
{
    match stream_token {
        Some((Token::Operator(op), _range)) => Ok(op.clone()),
        Some((token, range)) => Err(unexpected(token, range, operator_text())),
        None => Err(Error::UnexpectedEnd),
    }
}

/// The name pattern of a `LowerName` token.
pub fn extract_pattern_name(stream_token: &Option<SrcToken>) -> (r: Result<Pattern, Error>)
    ensures
        match *stream_token {
            Some((Token::LowerName(name), _)) => r matches Ok(Pattern::Name(n)) && n@ == name@,
            Some((t, range)) => r matches Err(e) && is_unexpected(
                e,
                t,
                range,
                empty_named("LowerName"@),
            ),
            None => r == Err::<Pattern, Error>(Error::UnexpectedEnd),
        },
{
    match stream_token {
        Some((Token::LowerName(name), _range)) => Ok(Pattern::Name(name.clone())),
        Some((token, range)) => Err(unexpected(token, range, lower_name_text())),
        None => Err(Error::UnexpectedEnd),
    }
}

/// The associativity named by `left`, `right` or `non`.
pub fn extract_associativity(stream_token: &Option<SrcToken>) -> (r: Result<Associativity, Error>)
    ensures
        match *stream_token {
            Some((Token::LowerName(name), range)) => if name@ == "left"@ {
                r == Ok::<Associativity, Error>(Associativity::Left)
            } else if name@ == "right"@ {
                r == Ok::<Associativity, Error>(Associativity::Right)
            } else if name@ == "non"@ {
                r == Ok::<Associativity, Error>(Associativity::Non)
            } else {
                r matches Err(e) && is_unexpected(
                    e,
                    Token::LowerName(name),
                    range,
                    "LowerName with 'left', 'right', or 'non"@,
                )
            },
            Some((t, range)) => r matches Err(e) && is_unexpected(
                e,
                t,
                range,
                "LowerName with 'left', 'right', or 'non"@,
            ),
            None => r == Err::<Associativity, Error>(Error::UnexpectedEnd),
        },
{
    match stream_token {
        Some((token, range)) => {
            if let Token::LowerName(name) = token {
                if crate::text::str_eq(name.as_str(), "left") {
                    return Ok(Associativity::Left);
                } else if crate::text::str_eq(name.as_str(), "right") {
                    return Ok(Associativity::Right);
                } else if crate::text::str_eq(name.as_str(), "non") {
                    return Ok(Associativity::Non);
                }
            }
            Err(unexpected(token, range, owned("LowerName with 'left', 'right', or 'non")))
        },
        None => Err(Error::UnexpectedEnd),
    }
}

} // verus!
