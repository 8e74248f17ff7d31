use vstd::prelude::*;

use crate::cursor::{
    lemma_newline_count_bound, lemma_newline_count_concat, lemma_newline_count_extend,
    lemma_newline_count_none, newline_count, Cursor,
};
use crate::rule::{
    apply_rules, first_match, lemma_first_match_advances, MatchOutcome, Matched, Rule,
};
use crate::token::Token;
use crate::token_type::{lexeme_of, TokenType};

verus! {

/// One character that no rule recognised, with the line it stands on.
#[derive(Debug, Clone, Copy, PartialEq, Eq, Structural)]
pub struct ErrorInfo {
    pub line_number: usize,
    pub unexpected_character: char,
}

/// Everything one scan produced: the tokens, ending with the end-of-input
/// token, and the diagnostics, both in input order.
#[derive(Debug)]
pub struct ScanResult {
    pub tokens: Vec<Token>,
    pub errors: Vec<ErrorInfo>,
}

impl ScanResult {
    /// Whether the scan met any unrecognised character.
    pub fn has_errors(&self) -> (r: bool)
        ensures
            r == (self.errors@.len() > 0),
    {
        self.errors.len() > 0
    }
}

/// A token of the abstract scan: its kind, its line, and where it starts.
pub struct TokenAt {
    pub kind: TokenType,
    pub line: int,
    pub start: int,
}

/// A diagnostic of the abstract scan: its line, and the position of the
/// offending character.
pub struct DiagnosticAt {
    pub line: int,
    pub start: int,
}

/// The abstract result of a scan, without the end-of-input token.
pub struct Lexed {
    pub tokens: Seq<TokenAt>,
    pub diagnostics: Seq<DiagnosticAt>,
}

/// Characters with the Unicode `White_Space` property.
pub open spec fn is_whitespace_char(c: char) -> bool {
    let v = c as u32;
    ||| 0x09 <= v <= 0x0d
    ||| v == 0x20
    ||| v == 0x85
    ||| v == 0xa0
    ||| v == 0x1680
    ||| 0x2000 <= v <= 0x200a
    ||| v == 0x2028
    ||| v == 0x2029
    ||| v == 0x202f
    ||| v == 0x205f
    ||| v == 0x3000
}

/// The scan of `s` from position `i`, on line `line`, with `rules` in priority
/// order. Whitespace is skipped (a line break starts a new line); otherwise the
/// first matching rule is applied, and a character that no rule matches is
/// consumed alone and reported.
pub open spec fn scan_from(rules: Seq<Rule>, s: Seq<char>, i: int, line: int) -> Lexed
    decreases s.len() - i,
{
    if i < 0 || i >= s.len() {
        Lexed { tokens: seq![], diagnostics: seq![] }
    } else if is_whitespace_char(s[i]) {
        scan_from(
            rules,
            s,
            i + 1,
            if s[i] == '\n' {
                line + 1
            } else {
                line
            },
        )
    } else {
        proof {
            lemma_first_match_advances(rules, 0, s, i);
        }
        match first_match(rules, 0, s, i) {
            Matched::Token(kind) => {
                let rest = scan_from(rules, s, i + lexeme_of(kind).len(), line);
                Lexed {
                    tokens: seq![TokenAt { kind, line, start: i }] + rest.tokens,
                    diagnostics: rest.diagnostics,
                }
            },
            Matched::Silent(n) => scan_from(
                rules,
                s,
                i + n,
                line + newline_count(s.subrange(i, i + n)),
            ),
            Matched::NoMatch => {
                let rest = scan_from(rules, s, i + 1, line);
                Lexed {
                    tokens: rest.tokens,
                    diagnostics: seq![DiagnosticAt { line, start: i }]
                        + rest.diagnostics,
                }
            },
        }
    }
}

/// The scan of the whole of `s`, starting on line 1.
pub open spec fn scan(rules: Seq<Rule>, s: Seq<char>) -> Lexed {
    scan_from(rules, s, 0, 1)
}

/// The concrete token `t` is the abstract token `a`.
pub open spec fn token_is(t: Token, a: TokenAt) -> bool {
    &&& t.token_type == a.kind
    &&& t.wf()
    &&& t.line_number == a.line
}

/// The concrete diagnostic `e` is the abstract diagnostic `d` of a scan of `s`.
pub open spec fn error_is(e: ErrorInfo, d: DiagnosticAt, s: Seq<char>) -> bool {
    &&& e.line_number == d.line
    &&& 0 <= d.start < s.len()
    &&& e.unexpected_character == s[d.start]
}

/// At a character that is not whitespace and that no rule matches, the scan
/// reports that character and goes on after it.
proof fn lemma_scan_unmatched(rules: Seq<Rule>, s: Seq<char>, i: int, line: int)
    requires
        0 <= i < s.len(),
        !is_whitespace_char(s[i]),
        first_match(rules, 0, s, i) is NoMatch,
    ensures
        scan_from(rules, s, i, line).tokens == scan_from(rules, s, i + 1, line).tokens,
        scan_from(rules, s, i, line).diagnostics == seq![
            DiagnosticAt { line, start: i },
        ] + scan_from(rules, s, i + 1, line).diagnostics,
{
}

/// Appending one element, seen from both sides.
proof fn lemma_append_one<A>(prefix: Seq<A>, x: A, rest: Seq<A>)
    ensures
        (prefix + seq![x]).len() == prefix.len() + 1,
        (prefix + seq![x])[prefix.len() as int] == x,
        forall|j: int| 0 <= j < prefix.len() ==> #[trigger] (prefix + seq![x])[j] == prefix[j],
        prefix + (seq![x] + rest) == (prefix + seq![x]) + rest,
{
    vstd::seq_lib::lemma_concat_associative(prefix, seq![x], rest);
}

/// Relies on `char::is_whitespace`, which holds exactly of the characters with
/// the Unicode `White_Space` property.
#[verifier::external_body]
fn is_whitespace(c: char) -> (r: bool)
    ensures
        r == is_whitespace_char(c),
{
    c.is_whitespace()
}

/// Scans all of `source` with `rule_functions` in priority order. The tokens
/// are those of the abstract scan followed by exactly one end-of-input token,
/// on the last line; the diagnostics are those of the abstract scan. The text
/// must hold fewer than `usize::MAX` characters, so that every line number fits.
pub fn scan_tokens(source: &str, rule_functions: &[Rule]) -> (r: ScanResult)
    requires
        source@.len() < usize::MAX,
    ensures
        r.tokens@.len() == scan(rule_functions@, source@).tokens.len() + 1,
        forall|j: int|
            0 <= j < scan(rule_functions@, source@).tokens.len() ==> token_is(
                #[trigger] r.tokens@[j],
                scan(rule_functions@, source@).tokens[j],
            ),
        forall|j: int|
            0 <= j < r.tokens@.len() - 1 ==> #[trigger] r.tokens@[j].token_type != TokenType::Eof,
        r.tokens@.last().token_type == TokenType::Eof,
        r.tokens@.last().lexeme@ == lexeme_of(TokenType::Eof),
        r.tokens@.last().line_number == 1 + newline_count(source@),
        r.errors@.len() == scan(rule_functions@, source@).diagnostics.len(),
        forall|j: int|
            0 <= j < r.errors@.len() ==> error_is(
                #[trigger] r.errors@[j],
                scan(rule_functions@, source@).diagnostics[j],
                source@,
            ),
{
    let ghost s = source@;
    let ghost rules = rule_functions@;
    let ghost full = scan(rules, s);
    let mut cursor = Cursor::new(source);
    let mut tokens: Vec<Token> = Vec::new();
    let mut errors: Vec<ErrorInfo> = Vec::new();
    let mut line_number: usize = 1;
    let ghost mut emitted: Seq<TokenAt> = seq![];
    let ghost mut reported: Seq<DiagnosticAt> = seq![];
    proof {
        assert(s.subrange(0, 0) =~= seq![]);
        assert(emitted + full.tokens =~= full.tokens);
        assert(reported + full.diagnostics =~= full.diagnostics);
    }
    while !cursor.is_at_end()
        invariant
            cursor.wf(),
            cursor.input() == s,
            s.len() < usize::MAX,
            rules == rule_functions@,
            full == scan(rules, s),
            line_number == 1 + newline_count(s.subrange(0, cursor.position())),
            full.tokens == emitted + scan_from(
                rules,
                s,
                cursor.position(),
                line_number as int,
            ).tokens,
            full.diagnostics == reported + scan_from(
                rules,
                s,
                cursor.position(),
                line_number as int,
            ).diagnostics,
            tokens@.len() == emitted.len(),
            forall|j: int| 0 <= j < emitted.len() ==> token_is(#[trigger] tokens@[j], emitted[j]),
            forall|j: int|
                0 <= j < tokens@.len() ==> #[trigger] tokens@[j].token_type != TokenType::Eof,
            errors@.len() == reported.len(),
            forall|j: int|
                0 <= j < reported.len() ==> error_is(#[trigger] errors@[j], reported[j], s),
        decreases s.len() - cursor.position(),
    {
        let ghost pos = cursor.position();
        let ghost line = line_number as int;
        proof {
            lemma_newline_count_bound(s.subrange(0, pos));
            lemma_newline_count_extend(s, pos);
        }
        let current = cursor.current();
        if is_whitespace(current) {
            if current == '\n' {
                line_number = line_number + 1;
            }
            cursor.advance();
        } else {
            proof {
                lemma_first_match_advances(rules, 0, s, pos);
            }
            let outcome = apply_rules(rule_functions, &mut cursor, &mut line_number);
            match outcome {
                MatchOutcome::Produced(token) => {
                    proof {
                        let kind = first_match(rules, 0, s, pos)->Token_0;
                        let rest = scan_from(rules, s, cursor.position(), line);
                        let t = TokenAt { kind, line, start: pos };
                        assert(full.tokens =~= emitted.push(t) + rest.tokens);
                        emitted = emitted.push(t);
                        let p = cursor.position();
                        lemma_newline_count_concat(s.subrange(0, pos), s.subrange(pos, p));
                        assert(s.subrange(0, pos) + s.subrange(pos, p) =~= s.subrange(0, p));
                        lemma_newline_count_none(s.subrange(pos, p));
                    }
                    tokens.push(token);
                },
                MatchOutcome::ConsumedSilently => {
                    proof {
                        let p = cursor.position();
                        lemma_newline_count_concat(s.subrange(0, pos), s.subrange(pos, p));
                        assert(s.subrange(0, pos) + s.subrange(pos, p) =~= s.subrange(0, p));
                    }
                },
                MatchOutcome::NoMatch => {
                    cursor.advance();
                    let e = ErrorInfo { line_number, unexpected_character: current };
                    proof {
                        let d = DiagnosticAt { line, start: pos };
                        lemma_scan_unmatched(rules, s, pos, line);
                        let rest = scan_from(rules, s, pos + 1, line).diagnostics;
                        lemma_append_one(reported, d, rest);
                        reported = reported + seq![d];
                    }
                    errors.push(e);
                },
            }
        }
    }
    proof {
        assert(s.subrange(0, s.len() as int) =~= s);
        assert(full.tokens =~= emitted);
        assert(full.diagnostics =~= reported);
        reveal_strlit("");
    }
    tokens.push(Token::new(TokenType::Eof, "", line_number));
    ScanResult { tokens, errors }
}

} // verus!
