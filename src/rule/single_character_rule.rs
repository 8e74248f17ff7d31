use vstd::prelude::*;

use crate::cursor::Cursor;
use crate::rule::{performs, Matched, MatchOutcome};
use crate::token::Token;
use crate::token_type::{lexeme_of, single_character_kind, TokenType};

verus! {

/// At position `i`: the character there is punctuation or a one-character operator.
pub open spec fn single_character_match(s: Seq<char>, i: int) -> Matched {
    if 0 <= i < s.len() && single_character_kind(s[i]) is Some {
        Matched::Token(single_character_kind(s[i])->0)
    } else {
        Matched::NoMatch
    }
}

/// Produces a one-character token when the next character forms one.
pub fn single_character_rule(cursor: &mut Cursor, line_number: &mut usize) -> (r: MatchOutcome)
    requires
        old(cursor).wf(),
    ensures
        performs(
            single_character_match(old(cursor).input(), old(cursor).position()),
            *old(cursor),
            *final(cursor),
            *old(line_number),
            *final(line_number),
            r,
        ),
{
    let current_character = match cursor.peek(0) {
        Some(c) => c,
        None => {
            return MatchOutcome::NoMatch;
        },
    };
    match single_character_token(current_character) {
        Some((lexeme, token_type)) => {
            cursor.advance();
            MatchOutcome::Produced(Token::new(token_type, lexeme, *line_number))
        },
        None => MatchOutcome::NoMatch,
    }
}

/// The text and kind of the one-character token that `character` forms, if any.
fn single_character_token(character: char) -> (r: Option<(&'static str, TokenType)>)
    ensures
        match r {
            Some((lexeme, kind)) => single_character_kind(character) == Some(kind) && lexeme@
                == lexeme_of(kind),
            None => single_character_kind(character) is None,
        },
{
    proof {
        reveal_strlit("(");
        reveal_strlit(")");
        reveal_strlit("{");
        reveal_strlit("}");
        reveal_strlit(",");
        reveal_strlit(".");
        reveal_strlit("-");
        reveal_strlit("+");
        reveal_strlit(";");
        reveal_strlit("*");
        reveal_strlit("=");
        reveal_strlit("!");
        reveal_strlit("<");
        reveal_strlit(">");
    }
    match character {
        '(' => Some(("(", TokenType::LeftParen)),
        ')' => Some((")", TokenType::RightParen)),
        '{' => Some(("{", TokenType::LeftBrace)),
        '}' => Some(("}", TokenType::RightBrace)),
        ',' => Some((",", TokenType::Comma)),
        '.' => Some((".", TokenType::Dot)),
        '-' => Some(("-", TokenType::Minus)),
        '+' => Some(("+", TokenType::Plus)),
        ';' => Some((";", TokenType::Semicolon)),
        '*' => Some(("*", TokenType::Star)),
        '=' => Some(("=", TokenType::Equal)),
        '!' => Some(("!", TokenType::Bang)),
        '<' => Some(("<", TokenType::Less)),
        '>' => Some((">", TokenType::Greater)),
        _ => None,
    }
}

} // verus!
