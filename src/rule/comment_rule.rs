use vstd::prelude::*;

use crate::cursor::{lemma_newline_count_extend, lemma_newline_count_none, newline_count, Cursor};
use crate::rule::{performs, Matched, MatchOutcome};
use crate::token::Token;
use crate::token_type::{lexeme_of, TokenType};

verus! {

/// The position just past the line comment body that starts at `j`: past the
/// first line break at or after `j`, or the end of the text if there is none.
pub open spec fn comment_end(s: Seq<char>, j: int) -> int
    decreases s.len() - j,
{
    if j >= s.len() {
        s.len() as int
    } else if s[j] == '\n' {
        j + 1
    } else {
        comment_end(s, j + 1)
    }
}

/// At position `i`: a line comment `//` is consumed up to and including the
/// end of its line, silently; a lone `/` is a slash token.
pub open spec fn comment_match(s: Seq<char>, i: int) -> Matched {
    if 0 <= i && i + 1 < s.len() && s[i] == '/' && s[i + 1] == '/' {
        Matched::Silent((comment_end(s, i + 2) - i) as nat)
    } else if 0 <= i < s.len() && s[i] == '/' {
        Matched::Token(TokenType::Slash)
    } else {
        Matched::NoMatch
    }
}

/// A comment body ends inside the text, either at the end of the text with no
/// line break on the way, or just past its first line break.
pub proof fn lemma_comment_end(s: Seq<char>, j: int)
    requires
        0 <= j <= s.len(),
    ensures
        j <= comment_end(s, j) <= s.len(),
        comment_end(s, j) == s.len() || (j < comment_end(s, j) && s[comment_end(s, j) - 1]
            == '\n'),
        forall|m: int| j <= m < comment_end(s, j) - 1 ==> s[m] != '\n',
        comment_end(s, j) == s.len() && (j == s.len() || s[s.len() - 1] != '\n') ==> forall|m: int|
            j <= m < s.len() ==> s[m] != '\n',
    decreases s.len() - j,
{
    if j < s.len() && s[j] != '\n' {
        lemma_comment_end(s, j + 1);
    }
}

/// Skips a line comment, or produces a slash token for a lone `/`.
pub fn comment_rule(cursor: &mut Cursor, line_number: &mut usize) -> (r: MatchOutcome)
    requires
        old(cursor).wf(),
        *old(line_number) < usize::MAX,
    ensures
        performs(
            comment_match(old(cursor).input(), old(cursor).position()),
            *old(cursor),
            *final(cursor),
            *old(line_number),
            *final(line_number),
            r,
        ),
{
    let ghost s = cursor.input();
    let ghost start = cursor.position();
    match cursor.peek(0) {
        Some(c) => {
            if c != '/' {
                return MatchOutcome::NoMatch;
            }
        },
        None => {
            return MatchOutcome::NoMatch;
        },
    }
    let is_comment = match cursor.peek(1) {
        Some(c) => c == '/',
        None => false,
    };
    if !is_comment {
        cursor.advance();
        proof {
            reveal_strlit("/");
        }
        assert(comment_match(s, start) == Matched::Token(TokenType::Slash));
        assert("/"@ == lexeme_of(TokenType::Slash));
        return MatchOutcome::Produced(Token::new(TokenType::Slash, "/", *line_number));
    }
    cursor.advance();
    cursor.advance();
    proof {
        lemma_comment_end(s, start + 2);
    }
    loop
        invariant_except_break
            cursor.position() <= comment_end(s, start + 2),
            comment_end(s, start + 2) == comment_end(s, cursor.position()),
            *line_number == *old(line_number),
            forall|m: int| start <= m < cursor.position() ==> s[m] != '\n',
        invariant
            cursor.wf(),
            cursor.input() == s,
            0 <= start,
            start + 2 <= cursor.position(),
            comment_end(s, start + 2) <= s.len(),
            *old(line_number) < usize::MAX,
        ensures
            cursor.wf(),
            cursor.input() == s,
            cursor.position() == comment_end(s, start + 2),
            *line_number == *old(line_number) + newline_count(
                s.subrange(start, cursor.position()),
            ),
        decreases s.len() - cursor.position(),
    {
        match cursor.advance() {
            Some(c) => {
                if c == '\n' {
                    *line_number = *line_number + 1;
                    proof {
                        let p = cursor.position() - 1;
                        let t = s.subrange(start, s.len() as int);
                        let u = t.subrange(0, p - start);
                        assert forall|m: int| 0 <= m < u.len() implies u[m] != '\n' by {
                            assert(u[m] == s[start + m]);
                        }
                        lemma_newline_count_none(u);
                        lemma_newline_count_extend(t, p - start);
                        assert(t.subrange(0, p - start) =~= s.subrange(start, p));
                        assert(t.subrange(0, p - start + 1) =~= s.subrange(start, p + 1));
                    }
                    break ;
                }
                proof {
                    lemma_comment_end(s, cursor.position());
                }
            },
            None => {
                proof {
                    let t = s.subrange(start, cursor.position());
                    assert forall|m: int| 0 <= m < t.len() implies t[m] != '\n' by {
                        assert(t[m] == s[start + m]);
                    }
                    lemma_newline_count_none(t);
                }
                break ;
            },
        }
    }
    MatchOutcome::ConsumedSilently
}

} // verus!
