//! Splitting a text into fields at white space.

use vstd::prelude::*;

verus! {

/// Whether `c` is white space: one of the characters that Unicode gives the
/// property White_Space.
pub open spec fn is_whitespace(c: char) -> bool {
    let u = c as int;
    ||| 0x09 <= u <= 0x0D
    ||| u == 0x20
    ||| u == 0x85
    ||| u == 0xA0
    ||| u == 0x1680
    ||| 0x2000 <= u <= 0x200A
    ||| u == 0x2028
    ||| u == 0x2029
    ||| u == 0x202F
    ||| u == 0x205F
    ||| u == 0x3000
}

/// How many characters stand at the front of `text` before its first white
/// space, or before its end where it holds none.
pub open spec fn word_len(text: Seq<char>) -> nat
    decreases text.len(),
{
    if text.len() == 0 || is_whitespace(text[0]) {
        0
    } else {
        1 + word_len(text.drop_first())
    }
}

/// The fields of `text`: its longest runs of characters that are not white
/// space, in the order in which they stand. White space of any length
/// separates two fields, and white space at either end is passed over.
pub open spec fn fields(text: Seq<char>) -> Seq<Seq<char>>
    decreases text.len(),
    via fields_decreases
{
    if text.len() == 0 {
        Seq::empty()
    } else if is_whitespace(text[0]) {
        fields(text.drop_first())
    } else {
        seq![text.take(word_len(text) as int)] + fields(text.skip(word_len(text) as int))
    }
}

#[via_fn]
proof fn fields_decreases(text: Seq<char>) {
    lemma_word_len_bounds(text);
}

/// The first word of a text is no longer than the text, is not empty where
/// the text starts with something other than white space, and holds no white
/// space; what follows it is the end of the text or white space.
pub proof fn lemma_word_len_bounds(text: Seq<char>)
    ensures
        word_len(text) <= text.len(),
        text.len() > 0 && !is_whitespace(text[0]) ==> word_len(text) >= 1,
        forall|i: int| 0 <= i < word_len(text) ==> !is_whitespace(#[trigger] text[i]),
        word_len(text) < text.len() ==> is_whitespace(text[word_len(text) as int]),
    decreases text.len(),
{
    if text.len() > 0 && !is_whitespace(text[0]) {
        let rest = text.drop_first();
        lemma_word_len_bounds(rest);
        assert forall|i: int| 0 <= i < word_len(text) implies !is_whitespace(#[trigger] text[i]) by {
            if i > 0 {
                assert(text[i] == rest[i - 1]);
            }
        }
    }
}

/// A run of `n` characters without white space, followed by white space or by
/// the end of the text, is the first word of the text.
pub proof fn lemma_word_len_is(text: Seq<char>, n: int)
    requires
        0 <= n <= text.len(),
        forall|i: int| 0 <= i < n ==> !is_whitespace(#[trigger] text[i]),
        n < text.len() ==> is_whitespace(text[n]),
    ensures
        word_len(text) == n,
    decreases n,
{
    if n > 0 {
        let rest = text.drop_first();
        lemma_word_len_is(rest, n - 1);
    }
}

/// A text that starts with white space has the fields of what follows it.
pub proof fn lemma_fields_skip_space(c: char, rest: Seq<char>)
    requires
        is_whitespace(c),
    ensures
        fields(seq![c] + rest) == fields(rest),
{
    let text = seq![c] + rest;
    assert(text.drop_first() =~= rest);
}

/// A text that starts with a word, followed by white space or by nothing,
/// has that word as its first field, and then the fields of what follows.
pub proof fn lemma_fields_first(word: Seq<char>, rest: Seq<char>)
    requires
        word.len() > 0,
        forall|i: int| 0 <= i < word.len() ==> !is_whitespace(#[trigger] word[i]),
        rest.len() > 0 ==> is_whitespace(rest[0]),
    ensures
        fields(word + rest) == seq![word] + fields(rest),
{
    let text = word + rest;
    lemma_word_len_is(text, word.len() as int);
    assert(text.take(word.len() as int) =~= word);
    assert(text.skip(word.len() as int) =~= rest);
}

/// Whether `c` is white space.
pub fn is_space(c: char) -> (r: bool)
    ensures
        r == is_whitespace(c),
{
    let u: u32 = c as u32;
    (0x09 <= u && u <= 0x0D) || u == 0x20 || u == 0x85 || u == 0xA0 || u == 0x1680 || (0x2000 <= u
        && u <= 0x200A) || u == 0x2028 || u == 0x2029 || u == 0x202F || u == 0x205F || u == 0x3000
}

/// Where the fields of `text` stand: for each field, in order, the index of
/// its first character and the index just behind its last.
pub fn split_fields(text: &[char]) -> (r: Vec<(usize, usize)>)
    ensures
        r@.len() == fields(text@).len(),
        forall|k: int|
            0 <= k < r@.len() ==> {
                &&& (#[trigger] r@[k]).0 < r@[k].1 <= text@.len()
                &&& text@.subrange(r@[k].0 as int, r@[k].1 as int) == fields(text@)[k]
            },
{
    let n = text.len();
    let mut out: Vec<(usize, usize)> = Vec::new();
    let ghost mut done: Seq<Seq<char>> = Seq::empty();
    let mut i: usize = 0;
    assert(text@.skip(0) =~= text@);
    while i < n
        invariant
            n == text@.len(),
            i <= n,
            done.len() == out@.len(),
            fields(text@) =~= done + fields(text@.skip(i as int)),
            forall|k: int|
                0 <= k < out@.len() ==> {
                    &&& (#[trigger] out@[k]).0 < out@[k].1 <= n
                    &&& text@.subrange(out@[k].0 as int, out@[k].1 as int) == done[k]
                },
        decreases n - i,
    {
        let ghost rest = text@.skip(i as int);
        if is_space(text[i]) {
            assert(rest.drop_first() =~= text@.skip(i + 1));
            i += 1;
        } else {
            let start = i;
            let mut j: usize = i + 1;
            while j < n && !is_space(text[j])
                invariant
                    n == text@.len(),
                    start < j <= n,
                    forall|k: int| start <= k < j ==> !is_whitespace(#[trigger] text@[k]),
                decreases n - j,
            {
                j += 1;
            }
            proof {
                lemma_word_len_is(rest, j - start);
                assert(rest.take(j - start) =~= text@.subrange(start as int, j as int));
                assert(rest.skip(j - start) =~= text@.skip(j as int));
                done = done.push(text@.subrange(start as int, j as int));
            }
            out.push((start, j));
            i = j;
        }
    }
    out
}

} // verus!
