use vstd::prelude::*;

use crate::token_type::{lexeme_of, TokenType};

verus! {

/// One classified lexeme together with the line on which it starts.
#[derive(Debug)]
pub struct Token {
    pub token_type: TokenType,
    pub lexeme: &'static str,
    pub line_number: usize,
}

impl Token {
    /// A token is well formed when its text is the fixed text of its kind.
    pub open spec fn wf(&self) -> bool {
        self.lexeme@ == lexeme_of(self.token_type)
    }

    pub fn new(token_type: TokenType, lexeme: &'static str, line_number: usize) -> (t: Token)
        ensures
            t.token_type == token_type,
            t.lexeme@ == lexeme@,
            t.line_number == line_number,
    {
        Token { token_type, lexeme, line_number }
    }
}

} // verus!
