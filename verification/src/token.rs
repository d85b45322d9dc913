//! Splitting a line into its whitespace-separated tokens.

use vstd::prelude::*;

verus! {

/// Whether `c` has the Unicode property White_Space.
pub open spec fn is_space(c: char) -> bool {
    let n = c as u32;
    ||| 0x09 <= n <= 0x0D
    ||| n == 0x20
    ||| n == 0x85
    ||| n == 0xA0
    ||| n == 0x1680
    ||| 0x2000 <= n <= 0x200A
    ||| n == 0x2028
    ||| n == 0x2029
    ||| n == 0x202F
    ||| n == 0x205F
    ||| n == 0x3000
}

/// Whether `s` is made of whitespace alone. The empty line is blank.
pub open spec fn is_blank(s: Seq<char>) -> bool {
    forall|i: int| 0 <= i < s.len() ==> is_space(#[trigger] s[i])
}

/// Whether `s` is a word: not empty, and without whitespace.
pub open spec fn is_word(s: Seq<char>) -> bool {
    &&& s.len() > 0
    &&& forall|i: int| 0 <= i < s.len() ==> !is_space(#[trigger] s[i])
}

/// The start of the first token of `s` at or after `pos`: the index of the
/// next character that is no whitespace, or the length of `s`.
pub open spec fn word_start(s: Seq<char>, pos: int) -> int
    decreases s.len() - pos,
{
    if pos < 0 || pos >= s.len() || !is_space(s[pos]) {
        pos
    } else {
        word_start(s, pos + 1)
    }
}

/// The end of the run of non-whitespace characters of `s` that starts at
/// `pos`: the index of the next whitespace character, or the length of `s`.
pub open spec fn word_end(s: Seq<char>, pos: int) -> int
    decreases s.len() - pos,
{
    if pos < 0 || pos >= s.len() || is_space(s[pos]) {
        pos
    } else {
        word_end(s, pos + 1)
    }
}

/// The tokens of `s` from index `pos` on, where `pos` is no index inside a
/// token.
pub open spec fn tokens_from(s: Seq<char>, pos: int) -> Seq<Seq<char>>
    decreases s.len() - pos,
{
    if pos < 0 || pos >= s.len() {
        Seq::empty()
    } else if is_space(s[pos]) {
        tokens_from(s, pos + 1)
    } else {
        proof {
            lemma_word_end(s, pos);
        }
        seq![s.subrange(pos, word_end(s, pos))] + tokens_from(s, word_end(s, pos))
    }
}

/// The tokens of a line: its maximal runs of non-whitespace characters, in
/// the order in which they stand.
pub open spec fn tokens(s: Seq<char>) -> Seq<Seq<char>> {
    tokens_from(s, 0)
}

/// A run of non-whitespace characters ends after its start and within the
/// line, holds no whitespace, and is followed by whitespace or by nothing.
pub proof fn lemma_word_end(s: Seq<char>, pos: int)
    requires
        0 <= pos <= s.len(),
    ensures
        pos <= word_end(s, pos) <= s.len(),
        pos < s.len() && !is_space(s[pos]) ==> pos < word_end(s, pos),
        forall|i: int| pos <= i < word_end(s, pos) ==> !is_space(#[trigger] s[i]),
        word_end(s, pos) < s.len() ==> is_space(s[word_end(s, pos)]),
    decreases s.len() - pos,
{
    if pos < s.len() && !is_space(s[pos]) {
        lemma_word_end(s, pos + 1);
    }
}

/// A blank rest of a line holds no token.
pub proof fn lemma_blank_rest_has_no_tokens(s: Seq<char>, pos: int)
    requires
        0 <= pos,
        forall|i: int| pos <= i < s.len() ==> is_space(#[trigger] s[i]),
    ensures
        tokens_from(s, pos) == Seq::<Seq<char>>::empty(),
    decreases s.len() - pos,
{
    if pos < s.len() {
        lemma_blank_rest_has_no_tokens(s, pos + 1);
    }
}

/// A blank line holds no token.
pub proof fn lemma_blank_has_no_tokens(s: Seq<char>)
    requires
        is_blank(s),
    ensures
        tokens(s).len() == 0,
{
    lemma_blank_rest_has_no_tokens(s, 0);
}

/// Blanks before a token do not count.
pub proof fn lemma_skip_blanks(s: Seq<char>, from: int, to: int)
    requires
        0 <= from <= to <= s.len(),
        forall|i: int| from <= i < to ==> is_space(#[trigger] s[i]),
    ensures
        tokens_from(s, from) == tokens_from(s, to),
    decreases to - from,
{
    if from < to {
        lemma_skip_blanks(s, from + 1, to);
    }
}

/// A word that ends a line or stands before whitespace, and begins at
/// `pos`, ends where its last character does.
pub proof fn lemma_word_end_of_word(s: Seq<char>, pos: int, word: Seq<char>)
    requires
        0 <= pos,
        pos + word.len() <= s.len(),
        is_word(word),
        s.subrange(pos, pos + word.len()) == word,
        pos + word.len() < s.len() ==> is_space(s[pos + word.len()]),
    ensures
        word_end(s, pos) == pos + word.len(),
{
    lemma_word_end(s, pos);
    let end = word_end(s, pos);
    if end < pos + word.len() {
        assert(s[end] == s.subrange(pos, pos + word.len())[end - pos]);
    } else if end > pos + word.len() {
        assert(!is_space(s[pos + word.len()]));
    }
}

/// A word that begins a line, with whitespace or nothing after it, is the
/// line's first token, and the other tokens are those of the rest.
pub proof fn lemma_first_word(s: Seq<char>, pos: int, word: Seq<char>)
    requires
        0 <= pos,
        pos + word.len() <= s.len(),
        is_word(word),
        s.subrange(pos, pos + word.len()) == word,
        pos + word.len() < s.len() ==> is_space(s[pos + word.len()]),
    ensures
        tokens_from(s, pos) == seq![word] + tokens_from(s, pos + word.len()),
{
    lemma_word_end_of_word(s, pos, word);
    assert(s[pos] == s.subrange(pos, pos + word.len())[0]);
}

/// A word between blanks is the line's single token.
pub proof fn lemma_padded_word(lead: Seq<char>, word: Seq<char>, trail: Seq<char>)
    requires
        is_blank(lead),
        is_word(word),
        is_blank(trail),
    ensures
        tokens(lead + word + trail) == seq![word],
{
    let s = lead + word + trail;
    let start = lead.len() as int;
    let end = start + word.len();
    lemma_skip_blanks(s, 0, start);
    assert(s.subrange(start, end) =~= word);
    assert(end < s.len() ==> s[end] == trail[0]);
    lemma_first_word(s, start, word);
    assert forall|i: int| end <= i < s.len() implies is_space(#[trigger] s[i]) by {
        assert(s[i] == trail[i - end]);
    }
    lemma_blank_rest_has_no_tokens(s, end);
}

/// Three words with blanks between them, and blanks or nothing around them,
/// are the three tokens of the line.
pub proof fn lemma_three_words(
    lead: Seq<char>,
    first: Seq<char>,
    gap: Seq<char>,
    second: Seq<char>,
    space: Seq<char>,
    third: Seq<char>,
    trail: Seq<char>,
)
    requires
        is_blank(lead),
        is_word(first),
        is_blank(gap) && gap.len() > 0,
        is_word(second),
        is_blank(space) && space.len() > 0,
        is_word(third),
        is_blank(trail),
    ensures
        tokens(lead + first + gap + second + space + third + trail) == seq![first, second, third],
{
    let s = lead + first + gap + second + space + third + trail;
    let a = lead.len() as int;
    let b = a + first.len();
    let c = b + gap.len();
    let d = c + second.len();
    let e = d + space.len();
    let f = e + third.len();
    assert forall|i: int| 0 <= i < a implies is_space(#[trigger] s[i]) by {
        assert(s[i] == lead[i]);
    }
    assert forall|i: int| b <= i < c implies is_space(#[trigger] s[i]) by {
        assert(s[i] == gap[i - b]);
    }
    assert forall|i: int| d <= i < e implies is_space(#[trigger] s[i]) by {
        assert(s[i] == space[i - d]);
    }
    assert forall|i: int| f <= i < s.len() implies is_space(#[trigger] s[i]) by {
        assert(s[i] == trail[i - f]);
    }
    assert(s.subrange(a, b) =~= first);
    assert(s.subrange(c, d) =~= second);
    assert(s.subrange(e, f) =~= third);
    lemma_skip_blanks(s, 0, a);
    lemma_first_word(s, a, first);
    lemma_skip_blanks(s, b, c);
    lemma_first_word(s, c, second);
    lemma_skip_blanks(s, d, e);
    lemma_first_word(s, e, third);
    lemma_blank_rest_has_no_tokens(s, f);
    assert(tokens(s) =~= seq![first, second, third]);
}

/// Whether `c` is a whitespace character.
pub fn is_whitespace(c: char) -> (r: bool)
    ensures
        r == is_space(c),
{
    let n: u32 = c as u32;
    (0x09 <= n && n <= 0x0D) || n == 0x20 || n == 0x85 || n == 0xA0 || n == 0x1680 || (0x2000 <= n
        && n <= 0x200A) || n == 0x2028 || n == 0x2029 || n == 0x202F || n == 0x205F || n == 0x3000
}

/// The characters of `s`, in order.
pub fn chars_of(s: &str) -> (v: Vec<char>)
    ensures
        v@ == s@,
{
    let mut v: Vec<char> = Vec::new();
    for c in it: s.chars()
        invariant
            v@ == it.seq().take(it.index()),
            it.seq() == s@,
    {
        v.push(c);
    }
    v
}

/// Whether the characters of `line` from `start` up to `end` spell `word`.
pub fn spells(line: &Vec<char>, start: usize, end: usize, word: &str) -> (r: bool)
    requires
        start <= end <= line.len(),
    ensures
        r == (line@.subrange(start as int, end as int) == word@),
{
    let mut i: usize = start;
    for c in it: word.chars()
        invariant
            it.seq() == word@,
            start <= i <= end,
            end <= line.len(),
            i - start == it.index(),
            line@.subrange(start as int, i as int) == word@.take(it.index()),
    {
        if i >= end {
            assert(word@.len() > end - start);
            return false;
        }
        if line[i] != c {
            assert(line@.subrange(start as int, end as int)[i - start] != word@[i - start]);
            return false;
        }
        assert(line@.subrange(start as int, i + 1) =~= word@.take(it.index() + 1));
        i += 1;
    }
    assert(word@.take(word@.len() as int) =~= word@);
    if i != end {
        assert(line@.subrange(start as int, end as int).len() != word@.len());
    }
    i == end
}

/// The bounds of the first token of `line` at or after `from`, which is no
/// index inside a token; `(len, len)` where no token is left.
pub fn next_token(line: &Vec<char>, from: usize) -> (bounds: (usize, usize))
    requires
        from <= line.len(),
    ensures
        bounds.0 == word_start(line@, from as int),
        bounds.1 == word_end(line@, bounds.0 as int),
        from <= bounds.0 <= bounds.1 <= line.len(),
        bounds.0 == bounds.1 <==> tokens_from(line@, from as int).len() == 0,
        bounds.0 == bounds.1 ==> bounds.0 == line.len(),
        bounds.0 < bounds.1 ==> tokens_from(line@, from as int) == seq![
            line@.subrange(bounds.0 as int, bounds.1 as int),
        ] + tokens_from(line@, bounds.1 as int),
{
    let n = line.len();
    let mut start: usize = from;
    while start < n && is_whitespace(line[start])
        invariant
            from <= start <= n,
            n == line.len(),
            word_start(line@, from as int) == word_start(line@, start as int),
            tokens_from(line@, from as int) == tokens_from(line@, start as int),
        decreases n - start,
    {
        start += 1;
    }
    if start == n {
        return (n, n);
    }
    let mut end: usize = start + 1;
    while end < n && !is_whitespace(line[end])
        invariant
            start < end <= n,
            n == line.len(),
            word_end(line@, start as int) == word_end(line@, end as int),
        decreases n - end,
    {
        end += 1;
    }
    (start, end)
}

} // verus!
