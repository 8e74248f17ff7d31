use vstd::prelude::*;

verus! {

/// The number of line breaks in `s`.
pub open spec fn newline_count(s: Seq<char>) -> nat
    decreases s.len(),
{
    if s.len() == 0 {
        0
    } else {
        newline_count(s.drop_last()) + if s.last() == '\n' {
            1nat
        } else {
            0nat
        }
    }
}

/// Extending a text by one character adds one line break exactly when that
/// character is one.
pub proof fn lemma_newline_count_extend(s: Seq<char>, j: int)
    requires
        0 <= j < s.len(),
    ensures
        newline_count(s.subrange(0, j + 1)) == newline_count(s.subrange(0, j)) + if s[j] == '\n' {
            1nat
        } else {
            0nat
        },
{
    assert(s.subrange(0, j + 1).drop_last() =~= s.subrange(0, j));
}

/// A text never holds more line breaks than characters.
pub proof fn lemma_newline_count_bound(s: Seq<char>)
    ensures
        newline_count(s) <= s.len(),
    decreases s.len(),
{
    if s.len() > 0 {
        lemma_newline_count_bound(s.drop_last());
    }
}

/// The line breaks of a concatenation are those of its parts.
pub proof fn lemma_newline_count_concat(a: Seq<char>, b: Seq<char>)
    ensures
        newline_count(a + b) == newline_count(a) + newline_count(b),
    decreases b.len(),
{
    if b.len() == 0 {
        assert(a + b =~= a);
    } else {
        assert((a + b).drop_last() =~= a + b.drop_last());
        lemma_newline_count_concat(a, b.drop_last());
    }
}

/// A text free of line breaks counts none.
pub proof fn lemma_newline_count_none(s: Seq<char>)
    requires
        forall|m: int| 0 <= m < s.len() ==> s[m] != '\n',
    ensures
        newline_count(s) == 0,
    decreases s.len(),
{
    if s.len() > 0 {
        lemma_newline_count_none(s.drop_last());
    }
}

/// A forward-only position in a buffer of characters, with lookahead that
/// never consumes.
pub struct Cursor {
    chars: Vec<char>,
    position: usize,
}

impl Cursor {
    /// The whole text the cursor walks over.
    pub closed spec fn input(&self) -> Seq<char> {
        self.chars@
    }

    /// How many characters have been consumed.
    pub closed spec fn position(&self) -> int {
        self.position as int
    }

    /// The position lies within the text.
    pub open spec fn wf(&self) -> bool {
        0 <= self.position() <= self.input().len()
    }

    /// The character `k` places ahead of the cursor, if the input reaches that far.
    pub open spec fn peek_at(&self, k: int) -> Option<char> {
        if 0 <= k && self.position() + k < self.input().len() {
            Some(self.input()[self.position() + k])
        } else {
            None
        }
    }

    /// A cursor at the start of `source`.
    pub fn new(source: &str) -> (c: Cursor)
        ensures
            c.wf(),
            c.input() == source@,
            c.position() == 0,
    {
        let mut chars: Vec<char> = Vec::new();
        for ch in it: source.chars()
            invariant
                it.seq() == source@,
                chars@ == it.seq().subrange(0, it.index() as int),
        {
            chars.push(ch);
        }
        assert(chars@ =~= source@);
        Cursor { chars, position: 0 }
    }

    /// Looks `k` characters ahead without consuming anything.
    pub fn peek(&self, k: usize) -> (r: Option<char>)
        requires
            self.wf(),
        ensures
            r == self.peek_at(k as int),
    {
        if k < self.chars.len() - self.position {
            Some(self.chars[self.position + k])
        } else {
            None
        }
    }

    /// The next character, when there is one.
    pub fn current(&self) -> (c: char)
        requires
            self.wf(),
            self.position() < self.input().len(),
        ensures
            self.peek_at(0) == Some(c),
    {
        self.chars[self.position]
    }

    /// Whether every character has been consumed.
    pub fn is_at_end(&self) -> (r: bool)
        requires
            self.wf(),
        ensures
            r == (self.position() == self.input().len()),
    {
        self.position == self.chars.len()
    }

    /// Consumes and returns the next character, or returns `None` at the end.
    pub fn advance(&mut self) -> (r: Option<char>)
        requires
            old(self).wf(),
        ensures
            final(self).wf(),
            final(self).input() == old(self).input(),
            r == old(self).peek_at(0),
            final(self).position() == old(self).position() + if r is Some {
                1int
            } else {
                0int
            },
    {
        if self.position < self.chars.len() {
            let c = self.chars[self.position];
            self.position = self.position + 1;
            Some(c)
        } else {
            None
        }
    }
}

} // verus!
