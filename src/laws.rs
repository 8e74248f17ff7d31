use vstd::prelude::*;

use crate::cursor::{
    lemma_newline_count_concat, lemma_newline_count_extend, lemma_newline_count_none,
    newline_count,
};
use crate::rule::comment_rule::{comment_end, comment_match, lemma_comment_end};
use crate::rule::single_character_rule::single_character_match;
use crate::rule::two_character_rule::two_character_match;
use crate::rule::{first_match, lemma_first_match_advances, standard_rules, Matched, Rule};
use crate::scanner::{is_whitespace_char, scan, scan_from, DiagnosticAt, TokenAt};
use crate::token_type::{lexeme_of, single_character_kind, two_character_kind, TokenType};

verus! {

/// The line on which position `i` of `s` stands: one more than the line
/// breaks before it.
pub open spec fn line_at(s: Seq<char>, i: int) -> int {
    1 + newline_count(s.subrange(0, i)) as int
}

/// A token of a scan of `s` starts inside `s`, on the line of its first
/// character, with its lexeme written there.
pub open spec fn token_placed(s: Seq<char>, t: TokenAt) -> bool {
    &&& 0 <= t.start
    &&& t.start + lexeme_of(t.kind).len() <= s.len()
    &&& s.subrange(t.start, t.start + lexeme_of(t.kind).len()) == lexeme_of(t.kind)
    &&& t.line == line_at(s, t.start)
}

/// A diagnostic of a scan of `s` with `rules` names a character of `s` that
/// is not whitespace and that no rule matches, on the line where it stands.
pub open spec fn diagnostic_placed(rules: Seq<Rule>, s: Seq<char>, d: DiagnosticAt) -> bool {
    &&& 0 <= d.start < s.len()
    &&& !is_whitespace_char(s[d.start])
    &&& first_match(rules, 0, s, d.start) is NoMatch
    &&& d.line == line_at(s, d.start)
}

/// A lexeme never holds a line break.
proof fn lemma_lexeme_has_no_line_break(s: Seq<char>, i: int, n: int)
    requires
        0 <= i <= i + n <= s.len(),
        forall|m: int| i <= m < i + n ==> s[m] != '\n',
    ensures
        newline_count(s.subrange(0, i + n)) == newline_count(s.subrange(0, i)),
{
    let t = s.subrange(i, i + n);
    assert forall|m: int| 0 <= m < t.len() implies t[m] != '\n' by {
        assert(t[m] == s[i + m]);
    }
    lemma_newline_count_none(t);
    lemma_newline_count_concat(s.subrange(0, i), t);
    assert(s.subrange(0, i) + t =~= s.subrange(0, i + n));
}

proof fn lemma_scan_from_placed(rules: Seq<Rule>, s: Seq<char>, i: int)
    requires
        0 <= i <= s.len(),
    ensures
        forall|j: int|
            0 <= j < scan_from(rules, s, i, line_at(s, i)).tokens.len() ==> {
                let t = #[trigger] scan_from(rules, s, i, line_at(s, i)).tokens[j];
                i <= t.start && token_placed(s, t)
            },
        forall|j: int|
            0 <= j < scan_from(rules, s, i, line_at(s, i)).diagnostics.len() ==> {
                let d = #[trigger] scan_from(rules, s, i, line_at(s, i)).diagnostics[j];
                i <= d.start && diagnostic_placed(rules, s, d)
            },
    decreases s.len() - i,
{
    if i < s.len() {
        let line = line_at(s, i);
        lemma_newline_count_extend(s, i);
        if is_whitespace_char(s[i]) {
            lemma_scan_from_placed(rules, s, i + 1);
        } else {
            lemma_first_match_advances(rules, 0, s, i);
            match first_match(rules, 0, s, i) {
                Matched::Token(kind) => {
                    let n = lexeme_of(kind).len() as int;
                    assert forall|m: int| i <= m < i + n implies s[m] != '\n' by {
                        assert(s.subrange(i, i + n)[m - i] == lexeme_of(kind)[m - i]);
                    }
                    lemma_lexeme_has_no_line_break(s, i, n);
                    lemma_scan_from_placed(rules, s, i + n);
                    let rest = scan_from(rules, s, i + n, line);
                    let here = TokenAt { kind, line, start: i };
                    assert(scan_from(rules, s, i, line).tokens == seq![here] + rest.tokens);
                },
                Matched::Silent(n) => {
                    lemma_newline_count_concat(s.subrange(0, i), s.subrange(i, i + n));
                    assert(s.subrange(0, i) + s.subrange(i, i + n) =~= s.subrange(0, i + n));
                    lemma_scan_from_placed(rules, s, i + n);
                },
                Matched::NoMatch => {
                    lemma_scan_from_placed(rules, s, i + 1);
                },
            }
        }
    }
}

/// Every token and every diagnostic of a scan carries the line of the
/// character where it starts: one more than the line breaks before it. A
/// token's lexeme is the text at its start; a diagnostic names a character
/// that is not whitespace and that no rule matched.
pub proof fn lemma_line_accounting(rules: Seq<Rule>, s: Seq<char>)
    ensures
        forall|j: int|
            0 <= j < scan(rules, s).tokens.len() ==> token_placed(
                s,
                #[trigger] scan(rules, s).tokens[j],
            ),
        forall|j: int|
            0 <= j < scan(rules, s).diagnostics.len() ==> diagnostic_placed(
                rules,
                s,
                #[trigger] scan(rules, s).diagnostics[j],
            ),
{
    assert(s.subrange(0, 0) =~= seq![]);
    lemma_scan_from_placed(rules, s, 0);
}

/// A line comment opens at `k` of `s`: the characters at `k` and `k + 1` are `/`.
pub open spec fn opens_comment(s: Seq<char>, k: int) -> bool {
    0 <= k && k + 1 < s.len() && s[k] == '/' && s[k + 1] == '/'
}

/// A comment opened at `k` runs on to position `j`: no line break stands
/// between them.
pub open spec fn comment_reaches(s: Seq<char>, k: int, j: int) -> bool {
    &&& k < j
    &&& opens_comment(s, k)
    &&& forall|m: int| k <= m < j ==> s[m] != '\n'
}

/// Position `j` of `s` lies in the body of a line comment opened before it on
/// the same line.
pub open spec fn in_comment(s: Seq<char>, j: int) -> bool {
    exists|k: int| #[trigger] comment_reaches(s, k, j)
}

/// A character that some standard rule can start a lexeme with.
pub open spec fn recognized(c: char) -> bool {
    single_character_kind(c) is Some || c == '/'
}

/// The character at `j` is reported by a scan with the standard rules: it is
/// neither whitespace nor recognised, and it is not commented out.
pub open spec fn is_stray(s: Seq<char>, j: int) -> bool {
    &&& !is_whitespace_char(s[j])
    &&& !recognized(s[j])
    &&& !in_comment(s, j)
}

/// The diagnostics for the stray characters of `s` from position `i` on, in
/// order, each on its own line.
pub open spec fn strays_from(s: Seq<char>, i: int) -> Seq<DiagnosticAt>
    decreases s.len() - i,
{
    if i < 0 || i >= s.len() {
        seq![]
    } else if is_stray(s, i) {
        seq![DiagnosticAt { line: line_at(s, i), start: i }] + strays_from(s, i + 1)
    } else {
        strays_from(s, i + 1)
    }
}

/// The characters at `i` and `i + 1` of `s` form a two-character operator.
pub open spec fn pair_at(s: Seq<char>, i: int) -> bool {
    0 <= i && i + 1 < s.len() && two_character_kind(s[i], s[i + 1]) is Some
}

/// The kind produced where a token of a scan with the standard rules starts:
/// a two-character operator whenever the next character completes one, else
/// the one-character kind.
pub open spec fn longest_kind(s: Seq<char>, i: int) -> TokenType {
    if pair_at(s, i) {
        two_character_kind(s[i], s[i + 1])->0
    } else if s[i] == '/' {
        TokenType::Slash
    } else {
        single_character_kind(s[i])->0
    }
}

/// What a token of a scan of `s` with the standard rules satisfies.
pub open spec fn standard_token(s: Seq<char>, t: TokenAt) -> bool {
    &&& 0 <= t.start < s.len()
    &&& t.kind == longest_kind(s, t.start)
    &&& recognized(s[t.start])
    &&& !in_comment(s, t.start)
    &&& !opens_comment(s, t.start)
}

/// With the standard rules, the first match is the comment rule's if it
/// matches, else the two-character rule's, else the one-character rule's.
proof fn lemma_standard_first_match(s: Seq<char>, i: int)
    ensures
        first_match(standard_rules(), 0, s, i) == if !(comment_match(s, i) is NoMatch) {
            comment_match(s, i)
        } else if !(two_character_match(s, i) is NoMatch) {
            two_character_match(s, i)
        } else {
            single_character_match(s, i)
        },
{
    let rules = standard_rules();
    assert(rules[0] == Rule::Comment);
    assert(rules[1] == Rule::TwoCharacter);
    assert(rules[2] == Rule::SingleCharacter);
    reveal_with_fuel(first_match, 4);
}

/// Leaving position `i`, outside any comment, for `i2` without passing the
/// opening of a comment stays outside every comment.
proof fn lemma_stays_outside(s: Seq<char>, i: int, i2: int)
    requires
        0 <= i < i2 <= s.len(),
        !in_comment(s, i),
        forall|k: int| i <= k < i2 ==> !opens_comment(s, k),
    ensures
        !in_comment(s, i2),
{
    assert forall|k: int| !comment_reaches(s, k, i2) by {
        if comment_reaches(s, k, i2) {
            if k < i {
                assert(comment_reaches(s, k, i));
            } else {
                assert(!opens_comment(s, k));
            }
        }
    }
}

/// Just past a line break, no comment goes on.
proof fn lemma_after_line_break(s: Seq<char>, j: int)
    requires
        0 < j <= s.len(),
        s[j - 1] == '\n',
    ensures
        !in_comment(s, j),
{
    assert forall|k: int| !comment_reaches(s, k, j) by {
        if comment_reaches(s, k, j) {
            assert(s[j - 1] != '\n');
        }
    }
}

/// Positions that hold no stray character contribute no diagnostics.
proof fn lemma_strays_skip(s: Seq<char>, i: int, i2: int)
    requires
        0 <= i <= i2 <= s.len(),
        forall|p: int| i <= p < i2 ==> !is_stray(s, p),
    ensures
        strays_from(s, i) == strays_from(s, i2),
    decreases i2 - i,
{
    if i < i2 {
        lemma_strays_skip(s, i + 1, i2);
    }
}

proof fn lemma_standard_scan_from(s: Seq<char>, i: int)
    requires
        0 <= i <= s.len(),
        i < s.len() ==> !in_comment(s, i),
    ensures
        scan_from(standard_rules(), s, i, line_at(s, i)).diagnostics == strays_from(s, i),
        forall|j: int|
            0 <= j < scan_from(standard_rules(), s, i, line_at(s, i)).tokens.len()
                ==> standard_token(
                s,
                #[trigger] scan_from(standard_rules(), s, i, line_at(s, i)).tokens[j],
            ),
    decreases s.len() - i,
{
    let rules = standard_rules();
    if i < s.len() {
        let line = line_at(s, i);
        lemma_newline_count_extend(s, i);
        lemma_standard_first_match(s, i);
        if is_whitespace_char(s[i]) {
            lemma_stays_outside(s, i, i + 1);
            lemma_standard_scan_from(s, i + 1);
            lemma_strays_skip(s, i, i + 1);
        } else {
            lemma_first_match_advances(rules, 0, s, i);
            match first_match(rules, 0, s, i) {
                Matched::Token(kind) => {
                    let n = lexeme_of(kind).len() as int;
                    assert forall|m: int| i <= m < i + n implies s[m] != '\n' by {
                        assert(s.subrange(i, i + n)[m - i] == lexeme_of(kind)[m - i]);
                    }
                    assert forall|k: int| i <= k < i + n implies !opens_comment(s, k) by {
                        assert(s.subrange(i, i + n)[k - i] == lexeme_of(kind)[k - i]);
                    }
                    assert forall|p: int| i <= p < i + n implies !is_stray(s, p) by {
                        assert(s.subrange(i, i + n)[p - i] == lexeme_of(kind)[p - i]);
                    }
                    lemma_lexeme_has_no_line_break(s, i, n);
                    lemma_stays_outside(s, i, i + n);
                    lemma_standard_scan_from(s, i + n);
                    lemma_strays_skip(s, i, i + n);
                    let rest = scan_from(rules, s, i + n, line);
                    let here = TokenAt { kind, line, start: i };
                    assert(scan_from(rules, s, i, line).tokens == seq![here] + rest.tokens);
                    assert(standard_token(s, here));
                },
                Matched::Silent(n) => {
                    let e = comment_end(s, i + 2);
                    lemma_comment_end(s, i + 2);
                    lemma_newline_count_concat(s.subrange(0, i), s.subrange(i, i + n));
                    assert(s.subrange(0, i) + s.subrange(i, i + n) =~= s.subrange(0, i + n));
                    assert forall|p: int| i <= p < e implies !is_stray(s, p) by {
                        if p > i {
                            assert(comment_reaches(s, i, p));
                        }
                    }
                    lemma_strays_skip(s, i, e);
                    if e < s.len() {
                        lemma_after_line_break(s, e);
                    }
                    lemma_standard_scan_from(s, e);
                },
                Matched::NoMatch => {
                    lemma_stays_outside(s, i, i + 1);
                    lemma_standard_scan_from(s, i + 1);
                },
            }
        }
    }
}

/// Each diagnostic for a stray character names a stray character, at or after
/// the position the list starts from, on the line where it stands.
proof fn lemma_strays_are_stray(s: Seq<char>, i: int)
    requires
        0 <= i,
    ensures
        forall|j: int|
            0 <= j < strays_from(s, i).len() ==> {
                let d = #[trigger] strays_from(s, i)[j];
                &&& i <= d.start < s.len()
                &&& is_stray(s, d.start)
                &&& d.line == line_at(s, d.start)
            },
    decreases s.len() - i,
{
    if i < s.len() {
        lemma_strays_are_stray(s, i + 1);
        let rest = strays_from(s, i + 1);
        if is_stray(s, i) {
            let d = DiagnosticAt { line: line_at(s, i), start: i };
            assert forall|j: int| 1 <= j < strays_from(s, i).len() implies strays_from(s, i)[j]
                == rest[j - 1] by {
                assert(strays_from(s, i) == seq![d] + rest);
            }
            assert(strays_from(s, i)[0] == d);
        }
    }
}

/// With the standard rules, the diagnostics of a scan are exactly the stray
/// characters of the input, in order, each on its line: those that are not
/// whitespace, not recognised by any rule, and not inside a line comment. So
/// there are as many diagnostics as characters that matched no rule, and
/// scanning goes on to the end of the input whatever it reports.
pub proof fn lemma_diagnostics_are_stray_characters(s: Seq<char>)
    ensures
        scan(standard_rules(), s).diagnostics == strays_from(s, 0),
        scan(standard_rules(), s).diagnostics.len() == strays_from(s, 0).len(),
{
    assert(s.subrange(0, 0) =~= seq![]);
    lemma_standard_scan_from(s, 0);
}

/// With the standard rules, a token whose first character can begin a
/// two-character operator is that operator whenever the next character
/// completes it, and the one-character token otherwise. Every token's lexeme
/// is the input text where it starts.
pub proof fn lemma_longest_match(s: Seq<char>)
    ensures
        forall|j: int|
            0 <= j < scan(standard_rules(), s).tokens.len() ==> {
                let t = #[trigger] scan(standard_rules(), s).tokens[j];
                &&& token_placed(s, t)
                &&& pair_at(s, t.start) ==> t.kind == two_character_kind(
                    s[t.start],
                    s[t.start + 1],
                )->0
                &&& !pair_at(s, t.start) ==> lexeme_of(t.kind).len() == 1
            },
{
    assert(s.subrange(0, 0) =~= seq![]);
    lemma_standard_scan_from(s, 0);
    lemma_line_accounting(standard_rules(), s);
    assert forall|c: char| #[trigger] single_character_kind(c) is Some implies lexeme_of(
        single_character_kind(c)->0,
    ).len() == 1 by {}
}

/// With the standard rules, a line comment contributes nothing: no token and
/// no diagnostic starts where a comment opens or inside a comment's body,
/// whatever the comment holds.
pub proof fn lemma_comments_yield_nothing(s: Seq<char>)
    ensures
        forall|j: int|
            0 <= j < scan(standard_rules(), s).tokens.len() ==> {
                let t = #[trigger] scan(standard_rules(), s).tokens[j];
                !in_comment(s, t.start) && !opens_comment(s, t.start)
            },
        forall|j: int|
            0 <= j < scan(standard_rules(), s).diagnostics.len() ==> {
                let d = #[trigger] scan(standard_rules(), s).diagnostics[j];
                !in_comment(s, d.start) && !opens_comment(s, d.start)
            },
{
    assert(s.subrange(0, 0) =~= seq![]);
    lemma_standard_scan_from(s, 0);
    lemma_strays_are_stray(s, 0);
}

/// Trying the rule at `d` a second time, right after it, changes no first match.
proof fn lemma_first_match_repeated(rules: Seq<Rule>, d: int, s: Seq<char>, i: int, j: int)
    requires
        0 <= d < rules.len(),
        0 <= j <= rules.len(),
    ensures
        j <= d ==> first_match(rules.insert(d, rules[d]), j, s, i) == first_match(rules, j, s, i),
        j > d ==> first_match(rules.insert(d, rules[d]), j + 1, s, i) == first_match(
            rules,
            j,
            s,
            i,
        ),
    decreases rules.len() - j,
{
    let twice = rules.insert(d, rules[d]);
    rules.insert_ensures(d, rules[d]);
    if j < rules.len() {
        lemma_first_match_repeated(rules, d, s, i, j + 1);
        if j == d {
            assert(twice[d + 1] == rules[d]);
        }
    }
}

/// Two rule lists that agree on the first match everywhere scan alike.
proof fn lemma_scan_from_same_matches(
    rules: Seq<Rule>,
    other: Seq<Rule>,
    s: Seq<char>,
    i: int,
    line: int,
)
    requires
        forall|p: int| first_match(rules, 0, s, p) == first_match(other, 0, s, p),
    ensures
        scan_from(rules, s, i, line) == scan_from(other, s, i, line),
    decreases s.len() - i,
{
    if 0 <= i < s.len() {
        lemma_first_match_advances(rules, 0, s, i);
        assert(first_match(rules, 0, s, i) == first_match(other, 0, s, i));
        if is_whitespace_char(s[i]) {
            let l = if s[i] == '\n' {
                line + 1
            } else {
                line
            };
            lemma_scan_from_same_matches(rules, other, s, i + 1, l);
        } else {
            match first_match(rules, 0, s, i) {
                Matched::Token(kind) => {
                    lemma_scan_from_same_matches(rules, other, s, i + lexeme_of(kind).len(), line);
                },
                Matched::Silent(n) => {
                    lemma_scan_from_same_matches(
                        rules,
                        other,
                        s,
                        i + n,
                        line + newline_count(s.subrange(i, i + n)),
                    );
                },
                Matched::NoMatch => {
                    lemma_scan_from_same_matches(rules, other, s, i + 1, line);
                },
            }
        }
    }
}

/// Looking ahead never consumes: trying any rule of the list a second time,
/// right after it failed, gives the same scan of every input.
pub proof fn lemma_lookahead_is_pure(rules: Seq<Rule>, d: int, s: Seq<char>)
    requires
        0 <= d < rules.len(),
    ensures
        scan(rules.insert(d, rules[d]), s) == scan(rules, s),
{
    assert forall|p: int|
        first_match(rules.insert(d, rules[d]), 0, s, p) == first_match(rules, 0, s, p) by {
        lemma_first_match_repeated(rules, d, s, p, 0);
    }
    lemma_scan_from_same_matches(rules.insert(d, rules[d]), rules, s, 0, 1);
}

} // verus!
