//! Choosing the secret word from a listing of candidates, one to a line. Only
//! a line that is a word of Latin letters can be chosen.

use crate::game::HangmanGame;
use crate::text::push_char;
use vstd::prelude::*;

verus! {

/// `c` is a Latin letter, in lower or in upper case.
pub open spec fn is_latin(c: char) -> bool {
    ('a' <= c && c <= 'z') || ('A' <= c && c <= 'Z')
}

/// `line` is a word: it is not empty and holds Latin letters only, so no
/// apostrophe, hyphen, digit, blank or accented letter.
pub open spec fn is_word(line: Seq<char>) -> bool {
    line.len() > 0 && forall|k: int| 0 <= k < line.len() ==> is_latin(#[trigger] line[k])
}

/// The number of characters of `text` before its first line feed; the length
/// of `text` if it has none.
pub open spec fn line_end(text: Seq<char>) -> nat
    decreases text.len(),
{
    if text.len() == 0 || text[0] == '\n' {
        0
    } else {
        1 + line_end(text.drop_first())
    }
}

/// The first line of a text: what stands before its first line feed, without
/// the carriage return that may precede that line feed.
pub open spec fn first_line(text: Seq<char>) -> Seq<char> {
    let end = line_end(text) as int;
    if 0 < end < text.len() && text[end - 1] == '\r' {
        text.take(end - 1)
    } else {
        text.take(end)
    }
}

/// The lines of a text. Each line ends with a line feed, or with a carriage
/// return and a line feed, which are not part of it; the last line may end
/// with the text. The empty text has no line.
pub open spec fn lines(text: Seq<char>) -> Seq<Seq<char>>
    decreases text.len(),
{
    if text.len() == 0 {
        Seq::empty()
    } else {
        let end = line_end(text) as int;
        if end < text.len() {
            seq![first_line(text)] + lines(text.skip(end + 1))
        } else {
            seq![first_line(text)]
        }
    }
}

/// The first of `lines` that is a word, if there is one.
pub open spec fn first_word(lines: Seq<Seq<char>>) -> Option<Seq<char>>
    decreases lines.len(),
{
    if lines.len() == 0 {
        None
    } else if is_word(lines[0]) {
        Some(lines[0])
    } else {
        first_word(lines.drop_first())
    }
}

/// The word chosen from a listing: its first line that is a word, and the
/// word `none` if it has no such line.
pub open spec fn chosen_word(listing: Seq<char>) -> Seq<char> {
    match first_word(lines(listing)) {
        Some(word) => word,
        None => "none"@,
    }
}

/// `line_end` is the place of the first line feed.
pub proof fn lemma_line_end(text: Seq<char>, end: int)
    requires
        0 <= end <= text.len(),
        forall|k: int| 0 <= k < end ==> text[k] != '\n',
        end < text.len() ==> text[end] == '\n',
    ensures
        line_end(text) == end,
    decreases end,
{
    if end > 0 {
        let rest = text.drop_first();
        assert forall|k: int| 0 <= k < end - 1 implies rest[k] != '\n' by {
            assert(rest[k] == text[k + 1]);
        }
        lemma_line_end(rest, end - 1);
    }
}

/// `first_word` is the line that is a word and before which no line is one.
pub proof fn lemma_first_word(lines: Seq<Seq<char>>)
    ensures
        match first_word(lines) {
            Some(word) => exists|i: int|
                {
                    &&& 0 <= i < lines.len()
                    &&& #[trigger] lines[i] == word
                    &&& is_word(word)
                    &&& forall|j: int| 0 <= j < i ==> !is_word(#[trigger] lines[j])
                },
            None => forall|j: int| 0 <= j < lines.len() ==> !is_word(#[trigger] lines[j]),
        },
    decreases lines.len(),
{
    if lines.len() > 0 {
        if is_word(lines[0]) {
            assert(lines[0] == first_word(lines)->0);
        } else {
            let rest = lines.drop_first();
            lemma_first_word(rest);
            match first_word(rest) {
                Some(word) => {
                    let i = choose|i: int|
                        {
                            &&& 0 <= i < rest.len()
                            &&& #[trigger] rest[i] == word
                            &&& is_word(word)
                            &&& forall|j: int| 0 <= j < i ==> !is_word(#[trigger] rest[j])
                        };
                    assert(lines[i + 1] == word);
                    assert forall|j: int| 0 <= j < i + 1 implies !is_word(#[trigger] lines[j]) by {
                        if j > 0 {
                            assert(lines[j] == rest[j - 1]);
                        }
                    }
                },
                None => {
                    assert forall|j: int| 0 <= j < lines.len() implies !is_word(
                        #[trigger] lines[j],
                    ) by {
                        if j > 0 {
                            assert(lines[j] == rest[j - 1]);
                        }
                    }
                },
            }
        }
    }
}

/// The fallback `none` is a word.
pub proof fn lemma_fallback_is_word()
    ensures
        is_word("none"@),
{
    reveal_strlit("none");
}

/// The chosen word is always a word: the first line of the listing that is
/// one, and `none` where no line is.
pub proof fn lemma_chosen_word(listing: Seq<char>)
    ensures
        is_word(chosen_word(listing)),
        forall|i: int|
            {
                &&& 0 <= i < lines(listing).len()
                &&& is_word(#[trigger] lines(listing)[i])
                &&& forall|j: int| 0 <= j < i ==> !is_word(#[trigger] lines(listing)[j])
            } ==> chosen_word(listing) == lines(listing)[i],
        (forall|j: int| 0 <= j < lines(listing).len() ==> !is_word(#[trigger] lines(listing)[j]))
            ==> chosen_word(listing) == "none"@,
{
    let all = lines(listing);
    lemma_first_word(all);
    lemma_fallback_is_word();
    match first_word(all) {
        Some(word) => {
            let first = choose|i: int|
                {
                    &&& 0 <= i < all.len()
                    &&& #[trigger] all[i] == word
                    &&& is_word(word)
                    &&& forall|j: int| 0 <= j < i ==> !is_word(#[trigger] all[j])
                };
            assert forall|i: int|
                {
                    &&& 0 <= i < all.len()
                    &&& is_word(#[trigger] all[i])
                    &&& forall|j: int| 0 <= j < i ==> !is_word(#[trigger] all[j])
                } implies word == all[i] by {
                if i < first {
                    assert(!is_word(all[i]));
                } else if first < i {
                    assert(!is_word(all[first]));
                }
            }
            assert(is_word(all[first]));
        },
        None => {},
    }
}

/// The characters of `text`, in order.
pub fn chars_of(text: &str) -> (chars: Vec<char>)
    ensures
        chars@ == text@,
{
    let mut chars: Vec<char> = Vec::new();
    for c in it: text.chars()
        invariant
            chars@ == it.seq().take(it.index()),
    {
        chars.push(c);
    }
    chars
}

/// Reads the line of `text` that starts at `start`: returns the line and the
/// place at which the next line starts, which is the length of `text` if
/// there is no next line.
pub fn read_line(text: &Vec<char>, start: usize) -> (r: (String, usize))
    requires
        start < text.len(),
    ensures
        r.0@ == first_line(text@.skip(start as int)),
        start < r.1 <= text.len(),
        lines(text@.skip(start as int)) == seq![r.0@] + lines(text@.skip(r.1 as int)),
{
    let ghost rest = text@.skip(start as int);
    let mut end: usize = start;
    while end < text.len() && text[end] != '\n'
        invariant
            start <= end <= text.len(),
            forall|k: int| start <= k < end ==> text[k] != '\n',
        decreases text.len() - end,
    {
        end = end + 1;
    }
    proof {
        lemma_line_end(rest, end - start);
    }
    let stop: usize = if end < text.len() && end > start && text[end - 1] == '\r' {
        end - 1
    } else {
        end
    };
    let mut line = String::new();
    let mut i: usize = start;
    while i < stop
        invariant
            start <= i <= stop <= text.len(),
            line@ == text@.subrange(start as int, i as int),
        decreases stop - i,
    {
        push_char(&mut line, text[i]);
        i = i + 1;
        assert(line@ =~= text@.subrange(start as int, i as int));
    }
    assert(line@ =~= first_line(rest));
    if end < text.len() {
        assert(rest.skip(end - start + 1) =~= text@.skip(end + 1));
        (line, end + 1)
    } else {
        assert(text@.skip(end as int) =~= Seq::empty());
        assert(lines(text@.skip(end as int)) =~= Seq::empty());
        assert(lines(rest) =~= seq![line@] + lines(text@.skip(end as int)));
        (line, end)
    }
}

/// Whether `line` is a word: not empty, and Latin letters only.
pub fn is_word_line(line: &str) -> (word: bool)
    ensures
        word == is_word(line@),
{
    if line.is_empty() {
        return false;
    }
    for c in it: line.chars()
        invariant
            it.seq() == line@,
            forall|k: int| 0 <= k < it.index() ==> is_latin(#[trigger] line@[k]),
    {
        if !((c >= 'a' && c <= 'z') || (c >= 'A' && c <= 'Z')) {
            assert(!is_latin(line@[it.index()]));
            return false;
        }
    }
    true
}

impl HangmanGame {
    /// Chooses the secret word from a listing of candidates, one to a line:
    /// the first line that is a word of Latin letters. Lines that are empty
    /// or hold anything else are passed over. Where no line is a word, or the
    /// listing is empty, the word is `none`. The result is always a word.
    pub fn generate_word(listing: &str) -> (word: String)
        ensures
            word@ == chosen_word(listing@),
            is_word(word@),
            forall|i: int|
                {
                    &&& 0 <= i < lines(listing@).len()
                    &&& is_word(#[trigger] lines(listing@)[i])
                    &&& forall|j: int| 0 <= j < i ==> !is_word(#[trigger] lines(listing@)[j])
                } ==> word@ == lines(listing@)[i],
            (forall|j: int|
                0 <= j < lines(listing@).len() ==> !is_word(#[trigger] lines(listing@)[j]))
                ==> word@ == "none"@,
    {
        let text = chars_of(listing);
        let mut start: usize = 0;
        proof {
            assert(text@.skip(0) =~= text@);
        }
        while start < text.len()
            invariant
                start <= text.len(),
                text@ == listing@,
                first_word(lines(listing@)) == first_word(lines(text@.skip(start as int))),
            decreases text.len() - start,
        {
            let (line, next) = read_line(&text, start);
            let ghost rest = lines(text@.skip(start as int));
            if is_word_line(line.as_str()) {
                proof {
                    assert(rest[0] == line@);
                    lemma_chosen_word(listing@);
                }
                return line;
            }
            proof {
                assert(rest[0] == line@);
                assert(rest.drop_first() =~= lines(text@.skip(next as int)));
            }
            start = next;
        }
        proof {
            assert(text@.skip(start as int) =~= Seq::empty());
            lemma_chosen_word(listing@);
        }
        "none".to_string()
    }
}

} // verus!
