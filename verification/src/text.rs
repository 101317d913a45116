//! Characters, words and substrings.

use vstd::prelude::*;

verus! {

/// The characters of a text, one by one.
pub fn chars_of(text: &str) -> (r: Vec<char>)
    ensures
        r@ == text@,
{
    let mut out: Vec<char> = Vec::new();
    for c in it: text.chars()
        invariant
            out@ == text@.take(it.index() as int),
            it.seq() == text@,
    {
        out.push(c);
    }
    out
}

/// A copy of the characters from `from` up to `to`.
pub fn copy_range(chars: &Vec<char>, from: usize, to: usize) -> (r: Vec<char>)
    requires
        from <= to <= chars.len(),
    ensures
        r@ == chars@.subrange(from as int, to as int),
{
    let mut out: Vec<char> = Vec::new();
    let mut i: usize = from;
    while i < to
        invariant
            from <= i <= to <= chars.len(),
            out@ == chars@.subrange(from as int, i as int),
        decreases to - i,
    {
        out.push(chars[i]);
        i += 1;
    }
    out
}

/// Whether a character separates words: a space, a tab or a line end.
pub open spec fn is_blank(c: char) -> bool {
    c == ' ' || c == '\t' || c == '\n' || c == '\r'
}

/// Whether a character separates words.
pub fn blank(c: char) -> (r: bool)
    ensures
        r == is_blank(c),
{
    c == ' ' || c == '\t' || c == '\n' || c == '\r'
}

/// A word that has been read to its end, if it holds anything.
pub open spec fn flushed(current: Seq<char>) -> Seq<Seq<char>> {
    if current.len() > 0 {
        seq![current]
    } else {
        Seq::empty()
    }
}

/// The words of `s`, where `current` holds the characters of a word that
/// began before `s`.
pub open spec fn words_from(s: Seq<char>, current: Seq<char>) -> Seq<Seq<char>>
    decreases s.len(),
{
    if s.len() == 0 {
        flushed(current)
    } else if is_blank(s[0]) {
        flushed(current) + words_from(s.drop_first(), Seq::empty())
    } else {
        words_from(s.drop_first(), current.push(s[0]))
    }
}

/// The words of a text: its longest runs of characters that are not blank, in order.
pub open spec fn words(s: Seq<char>) -> Seq<Seq<char>> {
    words_from(s, Seq::empty())
}

/// Whether a sequence holds no blank character.
pub open spec fn blank_free(w: Seq<char>) -> bool {
    forall|i: int| 0 <= i < w.len() ==> !is_blank(#[trigger] w[i])
}

/// Reading on through characters that are not blank adds them to the current word.
pub proof fn lemma_words_through_word(w: Seq<char>, rest: Seq<char>, current: Seq<char>)
    requires
        blank_free(w),
    ensures
        words_from(w + rest, current) == words_from(rest, current + w),
    decreases w.len(),
{
    if w.len() == 0 {
        assert(w + rest == rest);
        assert(current + w == current);
    } else {
        let s = w + rest;
        assert(s[0] == w[0]);
        assert(!is_blank(w[0]));
        assert(s.drop_first() == w.drop_first() + rest);
        assert(blank_free(w.drop_first())) by {
            assert forall|i: int| 0 <= i < w.drop_first().len() implies !is_blank(
                #[trigger] w.drop_first()[i],
            ) by {
                assert(w.drop_first()[i] == w[i + 1]);
            }
        }
        lemma_words_through_word(w.drop_first(), rest, current.push(w[0]));
        assert(current.push(w[0]) + w.drop_first() == current + w);
    }
}

/// A blank ends the current word.
pub proof fn lemma_words_at_blank(c: char, rest: Seq<char>, current: Seq<char>)
    requires
        is_blank(c),
    ensures
        words_from(seq![c] + rest, current) == flushed(current) + words_from(rest, Seq::empty()),
{
    let s = seq![c] + rest;
    assert(s[0] == c);
    assert(s.drop_first() == rest);
}

/// Every word that is read holds a character and no blank, where the word
/// that began before the text holds no blank.
pub proof fn lemma_words_from_are_words(s: Seq<char>, current: Seq<char>)
    requires
        blank_free(current),
    ensures
        forall|k: int|
            0 <= k < words_from(s, current).len() ==> (#[trigger] words_from(s, current)[k]).len()
                > 0 && blank_free(words_from(s, current)[k]),
    decreases s.len(),
{
    let all = words_from(s, current);
    if s.len() == 0 {
        assert forall|k: int| 0 <= k < all.len() implies (#[trigger] all[k]).len() > 0
            && blank_free(all[k]) by {
            assert(all[k] == current);
        }
    } else if is_blank(s[0]) {
        let later = words_from(s.drop_first(), Seq::empty());
        lemma_words_from_are_words(s.drop_first(), Seq::empty());
        assert(all == flushed(current) + later);
        assert forall|k: int| 0 <= k < all.len() implies (#[trigger] all[k]).len() > 0
            && blank_free(all[k]) by {
            if k < flushed(current).len() {
                assert(all[k] == current);
            } else {
                assert(all[k] == later[k - flushed(current).len()]);
            }
        }
    } else {
        let next = current.push(s[0]);
        assert(blank_free(next)) by {
            assert forall|i: int| 0 <= i < next.len() implies !is_blank(#[trigger] next[i]) by {
                if i < current.len() {
                    assert(next[i] == current[i]);
                }
            }
        }
        lemma_words_from_are_words(s.drop_first(), next);
        assert(all == words_from(s.drop_first(), next));
    }
}

/// No word of a text is empty, and none holds a blank.
pub proof fn lemma_words_are_words(s: Seq<char>)
    ensures
        forall|k: int|
            0 <= k < words(s).len() ==> (#[trigger] words(s)[k]).len() > 0 && blank_free(
                words(s)[k],
            ),
{
    lemma_words_from_are_words(s, Seq::empty());
}

/// A word that a space follows is the first word of the text.
pub proof fn lemma_words_word_then_space(w: Seq<char>, rest: Seq<char>)
    requires
        blank_free(w),
        w.len() > 0,
    ensures
        words(w + (seq![' '] + rest)) == seq![w] + words(rest),
{
    lemma_words_through_word(w, seq![' '] + rest, Seq::empty());
    assert(Seq::<char>::empty() + w == w);
    lemma_words_at_blank(' ', rest, w);
}

/// A text without blanks is one word.
pub proof fn lemma_words_single(w: Seq<char>)
    requires
        blank_free(w),
        w.len() > 0,
    ensures
        words(w) == seq![w],
{
    lemma_words_through_word(w, Seq::empty(), Seq::empty());
    assert(w + Seq::<char>::empty() == w);
    assert(Seq::<char>::empty() + w == w);
}

/// A space before a text adds no word.
pub proof fn lemma_words_leading_space(rest: Seq<char>)
    ensures
        words(seq![' '] + rest) == words(rest),
{
    lemma_words_at_blank(' ', rest, Seq::empty());
    assert(flushed(Seq::<char>::empty()) + words(rest) == words(rest));
}

/// What a vector of words holds.
pub open spec fn word_views(v: Seq<Vec<char>>) -> Seq<Seq<char>> {
    v.map_values(|w: Vec<char>| w@)
}

/// The words of a text, as vectors of characters.
pub fn split_words(chars: &Vec<char>) -> (r: Vec<Vec<char>>)
    ensures
        word_views(r@) == words(chars@),
{
    let mut out: Vec<Vec<char>> = Vec::new();
    let mut current: Vec<char> = Vec::new();
    let mut i: usize = 0;
    proof {
        assert(chars@.skip(0) == chars@);
        assert(word_views(out@) + words(chars@) == words(chars@));
    }
    while i < chars.len()
        invariant
            i <= chars.len(),
            words(chars@) == word_views(out@) + words_from(chars@.skip(i as int), current@),
        decreases chars.len() - i,
    {
        let c: char = chars[i];
        let ghost rest = chars@.skip(i as int);
        let ghost done = word_views(out@);
        let ghost word = current@;
        proof {
            assert(rest[0] == c);
            assert(rest.drop_first() == chars@.skip(i + 1));
        }
        if blank(c) {
            if current.len() > 0 {
                out.push(current);
                current = Vec::new();
                proof {
                    assert(word_views(out@) == done + flushed(word));
                    assert((done + flushed(word)) + words_from(rest.drop_first(), Seq::empty())
                        == done + (flushed(word) + words_from(rest.drop_first(), Seq::empty())));
                }
            } else {
                proof {
                    assert(current@ == Seq::<char>::empty());
                    assert(flushed(word) + words_from(rest.drop_first(), Seq::empty())
                        == words_from(rest.drop_first(), Seq::empty()));
                }
            }
        } else {
            current.push(c);
        }
        i += 1;
    }
    let ghost done = word_views(out@);
    if current.len() > 0 {
        proof {
            assert(words_from(chars@.skip(i as int), current@) == seq![current@]);
        }
        out.push(current);
        proof {
            assert(word_views(out@) == done + seq![out@[out@.len() - 1]@]);
        }
    } else {
        proof {
            assert(words_from(chars@.skip(i as int), current@) == Seq::<Seq<char>>::empty());
            assert(done + Seq::<Seq<char>>::empty() == done);
        }
    }
    out
}

/// Whether `needle` stands in `hay` at position `at`.
pub open spec fn occurs_at(hay: Seq<char>, needle: Seq<char>, at: int) -> bool {
    0 <= at && at + needle.len() <= hay.len() && hay.subrange(at, at + needle.len()) == needle
}

/// Whether `needle` stands somewhere in `hay`.
pub open spec fn occurs_in(hay: Seq<char>, needle: Seq<char>) -> bool {
    exists|at: int| occurs_at(hay, needle, at)
}

/// Whether `needle` stands in `hay` at position `at`.
pub fn matches_at(hay: &Vec<char>, needle: &Vec<char>, at: usize) -> (r: bool)
    ensures
        r == occurs_at(hay@, needle@, at as int),
{
    if at > hay.len() || needle.len() > hay.len() - at {
        return false;
    }
    let mut k: usize = 0;
    while k < needle.len()
        invariant
            k <= needle.len(),
            at + needle.len() <= hay.len(),
            forall|j: int| 0 <= j < k ==> hay@[at + j] == needle@[j],
        decreases needle.len() - k,
    {
        if hay[at + k] != needle[k] {
            proof {
                let window = hay@.subrange(at as int, at + needle.len());
                assert(window[k as int] == hay@[at + k]);
            }
            return false;
        }
        k += 1;
    }
    proof {
        assert(hay@.subrange(at as int, at + needle.len()) =~= needle@);
    }
    true
}

/// Whether `needle` stands somewhere in `hay`.
pub fn contains(hay: &Vec<char>, needle: &Vec<char>) -> (r: bool)
    ensures
        r == occurs_in(hay@, needle@),
{
    if needle.len() > hay.len() {
        return false;
    }
    let last: usize = hay.len() - needle.len();
    let mut at: usize = 0;
    loop
        invariant
            at <= last,
            last == hay.len() - needle.len(),
            needle.len() <= hay.len(),
            forall|j: int| 0 <= j < at ==> !occurs_at(hay@, needle@, j),
        decreases last - at,
    {
        if matches_at(hay, needle, at) {
            return true;
        }
        if at == last {
            return false;
        }
        at += 1;
    }
}

/// What follows the first colon that a space follows, if there is one.
pub open spec fn after_delimiter(s: Seq<char>) -> Option<Seq<char>>
    decreases s.len(),
{
    if s.len() < 2 {
        None
    } else if s[0] == ':' && s[1] == ' ' {
        Some(s.skip(2))
    } else {
        after_delimiter(s.drop_first())
    }
}

/// A text in which no space follows a colon has no delimiter.
pub proof fn lemma_no_delimiter(s: Seq<char>)
    requires
        forall|i: int| 0 <= i < s.len() - 1 ==> !(s[i] == ':' && #[trigger] s[i + 1] == ' '),
    ensures
        after_delimiter(s) is None,
    decreases s.len(),
{
    if s.len() >= 2 {
        assert(!(s[0] == ':' && s[0int + 1] == ' '));
        let rest = s.drop_first();
        assert forall|i: int| 0 <= i < rest.len() - 1 implies !(rest[i] == ':' && #[trigger] rest[i
            + 1] == ' ') by {
            assert(rest[i] == s[i + 1]);
            assert(rest[i + 1] == s[(i + 1) + 1]);
        }
        lemma_no_delimiter(rest);
    }
}

/// The position just behind the first colon that a space follows.
pub fn find_after_delimiter(chars: &Vec<char>) -> (r: Option<usize>)
    ensures
        match r {
            Some(at) => at <= chars.len() && after_delimiter(chars@) == Some(
                chars@.skip(at as int),
            ),
            None => after_delimiter(chars@) is None,
        },
{
    if chars.len() < 2 {
        return None;
    }
    let mut i: usize = 0;
    proof {
        assert(chars@.skip(0) == chars@);
    }
    while i < chars.len() - 1
        invariant
            i < chars.len(),
            after_delimiter(chars@) == after_delimiter(chars@.skip(i as int)),
        decreases chars.len() - i,
    {
        let ghost rest = chars@.skip(i as int);
        proof {
            assert(rest[0] == chars@[i as int]);
            assert(rest[1] == chars@[i + 1]);
        }
        if chars[i] == ':' && chars[i + 1] == ' ' {
            proof {
                assert(rest.skip(2) == chars@.skip(i + 2));
            }
            return Some(i + 2);
        }
        proof {
            assert(rest.drop_first() == chars@.skip(i + 1));
        }
        i += 1;
    }
    None
}

/// Whether a character is one of the ten decimal digits.
pub open spec fn is_digit(c: char) -> bool {
    '0' <= c && c <= '9'
}

/// The number that a decimal digit stands for.
pub open spec fn digit_value(c: char) -> int {
    c as int - '0' as int
}

/// The decimal digit that stands for a number below ten.
pub open spec fn digit_char(d: int) -> char {
    if d == 0 {
        '0'
    } else if d == 1 {
        '1'
    } else if d == 2 {
        '2'
    } else if d == 3 {
        '3'
    } else if d == 4 {
        '4'
    } else if d == 5 {
        '5'
    } else if d == 6 {
        '6'
    } else if d == 7 {
        '7'
    } else if d == 8 {
        '8'
    } else {
        '9'
    }
}

/// A digit stands for the number that it was written for, and back.
pub proof fn lemma_digits(c: char, d: int)
    ensures
        0 <= d <= 9 ==> is_digit(digit_char(d)) && digit_value(digit_char(d)) == d,
        is_digit(c) ==> 0 <= digit_value(c) <= 9 && digit_char(digit_value(c)) == c,
        !is_blank(digit_char(d)),
{
}

/// The number that a decimal digit stands for; nothing for another character.
pub fn digit_of(c: char) -> (r: Option<u8>)
    ensures
        match r {
            Some(d) => is_digit(c) && d == digit_value(c),
            None => !is_digit(c),
        },
{
    if c >= '0' && c <= '9' {
        Some((c as u32 - '0' as u32) as u8)
    } else {
        None
    }
}

} // verus!
