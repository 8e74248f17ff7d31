use vstd::prelude::*;

use crate::cursor::{newline_count, Cursor};
use crate::rule::comment_rule::{comment_match, comment_rule, lemma_comment_end};
use crate::rule::single_character_rule::{single_character_match, single_character_rule};
use crate::rule::two_character_rule::{two_character_match, two_character_rule};
use crate::token::Token;
use crate::token_type::{lexeme_of, single_character_kind, two_character_kind, TokenType};

pub mod comment_rule;
pub mod single_character_rule;
pub mod two_character_rule;

verus! {

/// One matching strategy of the scanner. A scan takes an ordered list of
/// them; at each position the first one that matches wins.
#[derive(Debug, Clone, Copy, PartialEq, Eq, Structural)]
pub enum Rule {
    Comment,
    TwoCharacter,
    SingleCharacter,
}

/// What applying a rule at the cursor did.
#[derive(Debug)]
pub enum MatchOutcome {
    /// The rule does not apply here; nothing was consumed.
    NoMatch,
    /// The rule consumed a lexeme and produced this token.
    Produced(Token),
    /// The rule consumed input that yields no token (a comment).
    ConsumedSilently,
}

/// The abstract effect of a rule at a position: no match, a token of the
/// given kind (consuming its lexeme), or a silent match consuming `n` characters.
pub enum Matched {
    NoMatch,
    Token(TokenType),
    Silent(nat),
}

/// How many characters a match consumes.
pub open spec fn consumed(m: Matched) -> int {
    match m {
        Matched::NoMatch => 0,
        Matched::Token(kind) => lexeme_of(kind).len() as int,
        Matched::Silent(n) => n as int,
    }
}

/// What `rule` does at position `i` of `s`.
pub open spec fn rule_match(rule: Rule, s: Seq<char>, i: int) -> Matched {
    match rule {
        Rule::Comment => comment_match(s, i),
        Rule::TwoCharacter => two_character_match(s, i),
        Rule::SingleCharacter => single_character_match(s, i),
    }
}

/// The outcome of the first rule, from index `k` of `rules` on, that matches
/// at position `i` of `s`; no match when none does.
pub open spec fn first_match(rules: Seq<Rule>, k: int, s: Seq<char>, i: int) -> Matched
    decreases rules.len() - k,
{
    if k < 0 || k >= rules.len() {
        Matched::NoMatch
    } else {
        let m = rule_match(rules[k], s, i);
        if m is NoMatch {
            first_match(rules, k + 1, s, i)
        } else {
            m
        }
    }
}

/// The rules in their standard priority: comments, then two-character
/// operators, then single characters.
pub open spec fn standard_rules() -> Seq<Rule> {
    seq![Rule::Comment, Rule::TwoCharacter, Rule::SingleCharacter]
}

/// A call that went from cursor `before` and line `line_before` to `after` and
/// `line_after`, returning `r`, carried out the abstract match `m`.
pub open spec fn performs(
    m: Matched,
    before: Cursor,
    after: Cursor,
    line_before: usize,
    line_after: usize,
    r: MatchOutcome,
) -> bool {
    &&& after.wf()
    &&& after.input() == before.input()
    &&& after.position() == before.position() + consumed(m)
    &&& match m {
        Matched::NoMatch => r is NoMatch && line_after == line_before,
        Matched::Token(kind) => {
            &&& r is Produced
            &&& r->Produced_0.token_type == kind
            &&& r->Produced_0.wf()
            &&& r->Produced_0.line_number == line_before
            &&& line_after == line_before
        },
        Matched::Silent(n) => {
            &&& r is ConsumedSilently
            &&& line_after == line_before + newline_count(
                before.input().subrange(before.position(), before.position() + n),
            )
        },
    }
}

/// A match at a position inside the text consumes at least one character,
/// stays inside the text, and a token's lexeme is the text it consumed.
pub proof fn lemma_rule_match_advances(rule: Rule, s: Seq<char>, i: int)
    requires
        0 <= i < s.len(),
    ensures
        rule_match(rule, s, i) is Token ==> {
            let kind = rule_match(rule, s, i)->Token_0;
            &&& kind != TokenType::Eof
            &&& 1 <= lexeme_of(kind).len()
            &&& i + lexeme_of(kind).len() <= s.len()
            &&& s.subrange(i, i + lexeme_of(kind).len()) == lexeme_of(kind)
        },
        rule_match(rule, s, i) is Silent ==> 1 <= rule_match(rule, s, i)->Silent_0 && i
            + rule_match(rule, s, i)->Silent_0 <= s.len(),
{
    match rule {
        Rule::Comment => {
            if i + 1 < s.len() && s[i] == '/' && s[i + 1] == '/' {
                lemma_comment_end(s, i + 2);
            } else if s[i] == '/' {
                assert(s.subrange(i, i + 1) =~= seq!['/']);
            }
        },
        Rule::TwoCharacter => {
            if i + 1 < s.len() {
                let k = two_character_kind(s[i], s[i + 1]);
                if k is Some {
                    assert(s.subrange(i, i + 2) =~= lexeme_of(k->0));
                }
            }
        },
        Rule::SingleCharacter => {
            if single_character_kind(s[i]) is Some {
                assert(s.subrange(i, i + 1) =~= lexeme_of(single_character_kind(s[i])->0));
            }
        },
    }
}

/// The first matching rule, like each rule, consumes at least one character
/// inside the text, and never produces the end-of-input kind.
pub proof fn lemma_first_match_advances(rules: Seq<Rule>, k: int, s: Seq<char>, i: int)
    requires
        0 <= i < s.len(),
    ensures
        first_match(rules, k, s, i) is Token ==> {
            let kind = first_match(rules, k, s, i)->Token_0;
            &&& kind != TokenType::Eof
            &&& 1 <= lexeme_of(kind).len()
            &&& i + lexeme_of(kind).len() <= s.len()
            &&& s.subrange(i, i + lexeme_of(kind).len()) == lexeme_of(kind)
        },
        first_match(rules, k, s, i) is Silent ==> 1 <= first_match(rules, k, s, i)->Silent_0 && i
            + first_match(rules, k, s, i)->Silent_0 <= s.len(),
    decreases rules.len() - k,
{
    if 0 <= k < rules.len() {
        lemma_rule_match_advances(rules[k], s, i);
        lemma_first_match_advances(rules, k + 1, s, i);
    }
}

/// Applies one rule at the cursor.
pub fn apply_rule(rule: Rule, cursor: &mut Cursor, line_number: &mut usize) -> (r: MatchOutcome)
    requires
        old(cursor).wf(),
        *old(line_number) < usize::MAX,
    ensures
        performs(
            rule_match(rule, old(cursor).input(), old(cursor).position()),
            *old(cursor),
            *final(cursor),
            *old(line_number),
            *final(line_number),
            r,
        ),
{
    match rule {
        Rule::Comment => comment_rule(cursor, line_number),
        Rule::TwoCharacter => two_character_rule(cursor, line_number),
        Rule::SingleCharacter => single_character_rule(cursor, line_number),
    }
}

/// Tries `rules` in order at the cursor and returns the outcome of the first
/// one that matches; the cursor is left as it was when none does.
pub fn apply_rules(rules: &[Rule], cursor: &mut Cursor, line_number: &mut usize) -> (r:
    MatchOutcome)
    requires
        old(cursor).wf(),
        *old(line_number) < usize::MAX,
    ensures
        performs(
            first_match(rules@, 0, old(cursor).input(), old(cursor).position()),
            *old(cursor),
            *final(cursor),
            *old(line_number),
            *final(line_number),
            r,
        ),
{
    let mut k: usize = 0;
    while k < rules.len()
        invariant
            k <= rules@.len(),
            cursor.wf(),
            cursor.input() == old(cursor).input(),
            cursor.position() == old(cursor).position(),
            *line_number == *old(line_number),
            *old(line_number) < usize::MAX,
            first_match(rules@, 0, old(cursor).input(), old(cursor).position()) == first_match(
                rules@,
                k as int,
                old(cursor).input(),
                old(cursor).position(),
            ),
        decreases rules@.len() - k,
    {
        let outcome = apply_rule(rules[k], cursor, line_number);
        match outcome {
            MatchOutcome::NoMatch => {},
            _ => {
                return outcome;
            },
        }
        k = k + 1;
    }
    MatchOutcome::NoMatch
}

/// The standard rule list: comments, then two-character operators, then
/// single characters.
pub fn default_rules() -> (r: [Rule; 3])
    ensures
        r@ == standard_rules(),
{
    let r = [Rule::Comment, Rule::TwoCharacter, Rule::SingleCharacter];
    assert(r@ =~= standard_rules());
    r
}

} // verus!
