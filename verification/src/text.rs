//! Small helpers on strings.

use vstd::prelude::*;
use vstd::string::*;

verus! {

/// Whether two strings hold the same characters.
pub fn same_text(a: &str, b: &str) -> (same: bool)
    ensures
        same == (a@ == b@),
{
    let left = String::from_str(a);
    let right = String::from_str(b);
    left == right
}

/// The characters of a string.
pub fn chars_of(s: &str) -> (out: Vec<char>)
    ensures
        out@ == s@,
{
    let mut out: Vec<char> = Vec::new();
    for c in it: s.chars()
        invariant
            it.seq() == s@,
            out@ == it.seq().take(it.index()),
    {
        out.push(c);
        assert(out@ =~= it.seq().take(it.index() + 1));
    }
    assert(out@ =~= s@);
    out
}

/// `String::push`: the character is put at the end of the string.
#[verifier::external_body]
fn push_char(s: &mut String, c: char)
    ensures
        final(s)@ == old(s)@.push(c),
{
    s.push(c)
}

/// The characters from one place up to another, as a string.
pub fn text_between(chars: &Vec<char>, from: usize, to: usize) -> (out: String)
    requires
        from <= to <= chars@.len(),
    ensures
        out@ == chars@.subrange(from as int, to as int),
{
    let mut out = String::new();
    let mut i: usize = from;
    while i < to
        invariant
            from <= i <= to <= chars@.len(),
            out@ == chars@.subrange(from as int, i as int),
        decreases to - i,
    {
        push_char(&mut out, chars[i]);
        i += 1;
        assert(out@ =~= chars@.subrange(from as int, i as int));
    }
    out
}

/// What a line is without the white space at its two ends, as `str::trim`
/// gives it.
pub uninterp spec fn trimmed(line: Seq<char>) -> Seq<char>;

/// `str::trim`: the line without the white space at its two ends.
#[verifier::external_body]
pub(crate) fn trim(line: &str) -> (out: &str)
    ensures
        out@ == trimmed(line@),
{
    line.trim()
}

/// Whether a line falls into the given first word and rest at its first
/// space: the word holds no space, and the line is the word alone, or the
/// word, one space and the rest.
pub open spec fn is_split(line: Seq<char>, word: Seq<char>, rest: Option<Seq<char>>) -> bool {
    &&& !word.contains(' ')
    &&& match rest {
        Some(r) => line == word + seq![' '] + r,
        None => line == word,
    }
}

/// A line falls into a first word and a rest in one way only.
pub proof fn lemma_split_unique(
    line: Seq<char>,
    word: Seq<char>,
    rest: Option<Seq<char>>,
    word2: Seq<char>,
    rest2: Option<Seq<char>>,
)
    requires
        is_split(line, word, rest),
        is_split(line, word2, rest2),
    ensures
        word == word2,
        rest == rest2,
{
    if word.len() < word2.len() {
        assert(line[word.len() as int] == ' ');
        assert(word2[word.len() as int] == line[word.len() as int]);
        assert(word2.contains(' '));
    }
    if word2.len() < word.len() {
        assert(line[word2.len() as int] == ' ');
        assert(word[word2.len() as int] == line[word2.len() as int]);
        assert(word.contains(' '));
    }
    assert(word =~= word2) by {
        assert forall|i: int| 0 <= i < word.len() implies word[i] == word2[i] by {
            assert(word[i] == line[i]);
            assert(word2[i] == line[i]);
        }
    }
    match (rest, rest2) {
        (Some(r), Some(r2)) => {
            assert(line.len() == word.len() + 1 + r.len());
            assert(line.len() == word2.len() + 1 + r2.len());
            assert(r =~= r2) by {
                assert forall|i: int| 0 <= i < r.len() implies r[i] == r2[i] by {
                    assert(r[i] == line[word.len() + 1 + i]);
                    assert(r2[i] == line[word2.len() + 1 + i]);
                }
            }
        },
        (Some(r), None) => {
            assert(line.len() == word.len() + 1 + r.len());
        },
        (None, Some(r2)) => {
            assert(line.len() == word2.len() + 1 + r2.len());
        },
        (None, None) => {},
    }
}

/// The first word of a line, and what follows its first space, if it has
/// one.
pub fn split_first(line: &str) -> (out: (String, Option<String>))
    ensures
        is_split(
            line@,
            out.0@,
            match out.1 {
                Some(r) => Some(r@),
                None => None,
            },
        ),
{
    let chars = chars_of(line);
    let mut i: usize = 0;
    while i < chars.len()
        invariant
            i <= chars@.len(),
            chars@ == line@,
            forall|k: int| 0 <= k < i ==> chars@[k] != ' ',
        decreases chars.len() - i,
    {
        if chars[i] == ' ' {
            let word = text_between(&chars, 0, i);
            let rest = text_between(&chars, i + 1, chars.len());
            assert(line@ =~= word@ + seq![' '] + rest@);
            return (word, Some(rest));
        }
        i += 1;
    }
    let word = text_between(&chars, 0, chars.len());
    assert(line@ =~= word@);
    (word, None)
}

/// The words, with one space between each two.
pub open spec fn joined(words: Seq<Seq<char>>) -> Seq<char>
    decreases words.len(),
{
    if words.len() == 0 {
        Seq::empty()
    } else if words.len() == 1 {
        words[0]
    } else {
        joined(words.drop_last()) + " "@ + words.last()
    }
}

/// The characters of each word.
pub open spec fn words_view(words: Seq<&str>) -> Seq<Seq<char>> {
    Seq::new(words.len(), |i: int| words[i]@)
}

/// The words from the given place on; none where there are not so many.
pub open spec fn words_from(words: Seq<Seq<char>>, from: int) -> Seq<Seq<char>> {
    if 0 <= from <= words.len() {
        words.skip(from)
    } else {
        Seq::empty()
    }
}

/// The words from `from` on, with one space between each two.
pub fn join_from(words: &Vec<&str>, from: usize) -> (line: String)
    ensures
        line@ == joined(words_from(words_view(words@), from as int)),
{
    let mut line = String::new();
    if from >= words.len() {
        return line;
    }
    let ghost all = words_from(words_view(words@), from as int);
    line.append(words[from]);
    assert(all.take(1) =~= seq![words@[from as int]@]);
    let mut i: usize = from + 1;
    while i < words.len()
        invariant
            from < i <= words.len(),
            all == words_from(words_view(words@), from as int),
            line@ == joined(all.take(i - from)),
        decreases words.len() - i,
    {
        line.append(" ");
        line.append(words[i]);
        proof {
            let before = all.take(i - from);
            let after = all.take(i + 1 - from);
            assert(after.drop_last() =~= before);
            assert(after.last() == words@[i as int]@);
        }
        i += 1;
    }
    assert(all.take(words.len() - from) =~= all);
    line
}

} // verus!
