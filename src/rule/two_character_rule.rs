use vstd::prelude::*;

use crate::cursor::Cursor;
use crate::rule::{performs, Matched, MatchOutcome};
use crate::token::Token;
use crate::token_type::{lexeme_of, two_character_kind, TokenType};

verus! {

/// At position `i`: the two characters there form one of `==`, `!=`, `<=`, `>=`.
pub open spec fn two_character_match(s: Seq<char>, i: int) -> Matched {
    if 0 <= i && i + 1 < s.len() && two_character_kind(s[i], s[i + 1]) is Some {
        Matched::Token(two_character_kind(s[i], s[i + 1])->0)
    } else {
        Matched::NoMatch
    }
}

/// Produces a two-character operator token when the next two characters form one.
pub fn two_character_rule(cursor: &mut Cursor, line_number: &mut usize) -> (r: MatchOutcome)
    requires
        old(cursor).wf(),
    ensures
        performs(
            two_character_match(old(cursor).input(), old(cursor).position()),
            *old(cursor),
            *final(cursor),
            *old(line_number),
            *final(line_number),
            r,
        ),
{
    let first_character = match cursor.peek(0) {
        Some(c) => c,
        None => {
            return MatchOutcome::NoMatch;
        },
    };
    let second_character = cursor.peek(1);
    match two_character_token(first_character, second_character) {
        Some((token_type, lexeme)) => {
            cursor.advance();
            cursor.advance();
            MatchOutcome::Produced(Token::new(token_type, lexeme, *line_number))
        },
        None => MatchOutcome::NoMatch,
    }
}

/// The kind and text of the operator that `first` and `second` form, if any.
fn two_character_token(first: char, second: Option<char>) -> (r: Option<(TokenType, &'static str)>)
    ensures
        match r {
            Some((kind, lexeme)) => second is Some && two_character_kind(first, second->0) == Some(
                kind,
            ) && lexeme@ == lexeme_of(kind),
            None => second is None || two_character_kind(first, second->0) is None,
        },
{
    proof {
        reveal_strlit("==");
        reveal_strlit("!=");
        reveal_strlit("<=");
        reveal_strlit(">=");
    }
    let second = match second {
        Some(c) => c,
        None => {
            return None;
        },
    };
    if second != '=' {
        return None;
    }
    match first {
        '=' => Some((TokenType::EqualEqual, "==")),
        '!' => Some((TokenType::BangEqual, "!=")),
        '<' => Some((TokenType::LessEqual, "<=")),
        '>' => Some((TokenType::GreaterEqual, ">=")),
        _ => None,
    }
}

} // verus!
