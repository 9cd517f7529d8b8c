//! Finding and counting a keyword in the bytes of a line.
//!
//! A line is looked at as its UTF-8 bytes. A `#` starts a comment that runs
//! to the end of the line; what stands before it is the line's code, and only
//! the code is searched for keywords.

use vstd::prelude::*;
use vstd::slice::*;
use vstd::string::*;
use vstd::utf8::is_ascii_chars_encode_utf8;

verus! {

/// The keyword that is counted for operands, opcodes and the slot count.
pub open spec fn duck() -> Seq<u8> {
    "duck".spec_bytes()
}

/// The keyword that ends the header and marks an opcode line.
pub open spec fn goose() -> Seq<u8> {
    "goose".spec_bytes()
}

/// The mark that starts a comment.
pub open spec fn hash() -> Seq<u8> {
    "#".spec_bytes()
}

/// `word` stands in `text` at position `at`.
pub open spec fn matches_at(text: Seq<u8>, word: Seq<u8>, at: int) -> bool {
    &&& 0 <= at
    &&& at + word.len() <= text.len()
    &&& text.subrange(at, at + word.len()) == word
}

/// `word` stands somewhere in `text`.
pub open spec fn has_match(text: Seq<u8>, word: Seq<u8>) -> bool {
    exists|at: int| matches_at(text, word, at)
}

/// `word` stands in `text` at `at` and nowhere before.
pub open spec fn is_first_match(text: Seq<u8>, word: Seq<u8>, at: int) -> bool {
    &&& matches_at(text, word, at)
    &&& forall|j: int| 0 <= j < at ==> !matches_at(text, word, j)
}

/// `word` stands in `text` at `at` and nowhere behind.
pub open spec fn is_last_match(text: Seq<u8>, word: Seq<u8>, at: int) -> bool {
    &&& matches_at(text, word, at)
    &&& forall|j: int| at < j ==> !matches_at(text, word, j)
}

/// The number of times `word` is met when `text` is read from position `from`
/// to its end, each match being skipped whole before the search goes on, so
/// that no two of the matches counted overlap.
pub open spec fn count_from(text: Seq<u8>, word: Seq<u8>, from: int) -> nat
    decreases text.len() - from,
{
    if word.len() == 0 || from < 0 || from + word.len() > text.len() {
        0
    } else if matches_at(text, word, from) {
        1 + count_from(text, word, from + word.len())
    } else {
        count_from(text, word, from + 1)
    }
}

/// The number of matches of `word` in `text` that do not overlap, found from
/// the left.
pub open spec fn count_matches(text: Seq<u8>, word: Seq<u8>) -> nat {
    count_from(text, word, 0)
}

/// Where the comment of `line` starts: at its first `#`, or at its end where
/// it has none.
pub open spec fn comment_start(line: Seq<u8>) -> int {
    if has_match(line, hash()) {
        choose|at: int| is_first_match(line, hash(), at)
    } else {
        line.len() as int
    }
}

/// The code of a line: what stands before its comment.
pub open spec fn code_part(line: Seq<u8>) -> Seq<u8> {
    line.subrange(0, comment_start(line))
}

/// The number of ducks and the number of geese in the code of a line.
pub open spec fn line_counts(line: Seq<u8>) -> (nat, nat) {
    (count_matches(code_part(line), duck()), count_matches(code_part(line), goose()))
}

/// A match found at or behind `from` is counted: the count from `from` is
/// positive exactly if there is such a match.
pub proof fn lemma_count_positive(text: Seq<u8>, word: Seq<u8>, from: int)
    requires
        word.len() > 0,
        0 <= from,
    ensures
        count_from(text, word, from) > 0 <==> exists|at: int|
            from <= at && matches_at(text, word, at),
    decreases text.len() - from,
{
    if from + word.len() > text.len() {
        assert forall|at: int| from <= at implies !matches_at(text, word, at) by {}
    } else if matches_at(text, word, from) {
        lemma_count_positive(text, word, from + word.len());
    } else {
        lemma_count_positive(text, word, from + 1);
        if count_from(text, word, from + 1) > 0 {
            let at = choose|at: int| from + 1 <= at && matches_at(text, word, at);
            assert(from <= at && matches_at(text, word, at));
        } else {
            assert forall|at: int| from <= at implies !matches_at(text, word, at) by {
                if at != from {
                    assert(from + 1 <= at);
                }
            }
        }
    }
}

/// The count of a word is positive exactly if the word stands in the text.
pub proof fn lemma_count_matches(text: Seq<u8>, word: Seq<u8>)
    requires
        word.len() > 0,
    ensures
        count_matches(text, word) > 0 <==> has_match(text, word),
{
    lemma_count_positive(text, word, 0);
    if has_match(text, word) {
        let at = choose|at: int| matches_at(text, word, at);
        assert(0 <= at && matches_at(text, word, at));
    }
}

/// The keywords are made of these bytes.
pub proof fn lemma_keyword_bytes()
    ensures
        duck() =~= seq![0x64u8, 0x75u8, 0x63u8, 0x6bu8],
        goose() =~= seq![0x67u8, 0x6fu8, 0x6fu8, 0x73u8, 0x65u8],
        hash() =~= seq![0x23u8],
{
    reveal_strlit("duck");
    reveal_strlit("goose");
    reveal_strlit("#");
    is_ascii_chars_encode_utf8("duck"@);
    is_ascii_chars_encode_utf8("goose"@);
    is_ascii_chars_encode_utf8("#"@);
}

/// The word is one of the two keywords that are counted.
pub open spec fn is_keyword(word: Seq<u8>) -> bool {
    word == duck() || word == goose()
}

/// No two places at which a keyword stands overlap: no keyword begins anew
/// within itself.
pub proof fn lemma_keywords_apart(text: Seq<u8>, word: Seq<u8>, first: int, second: int)
    requires
        is_keyword(word),
        matches_at(text, word, first),
        matches_at(text, word, second),
        first < second,
    ensures
        first + word.len() <= second,
{
    lemma_keyword_bytes();
    let shift = second - first;
    if shift < word.len() {
        assert(text.subrange(first, first + word.len())[shift] == text[second]);
        assert(text.subrange(second, second + word.len())[0] == text[second]);
        assert(word[shift] == word[0]);
    }
}

/// Where a word stands in a text, it has a first place there, at or before
/// any place at which it stands.
pub proof fn lemma_first_match_exists(text: Seq<u8>, word: Seq<u8>, at: int)
    requires
        matches_at(text, word, at),
    ensures
        exists|first: int| first <= at && is_first_match(text, word, first),
    decreases at,
{
    if exists|j: int| 0 <= j < at && matches_at(text, word, j) {
        let j = choose|j: int| 0 <= j < at && matches_at(text, word, j);
        lemma_first_match_exists(text, word, j);
        let first = choose|first: int| first <= j && is_first_match(text, word, first);
        assert(first <= at && is_first_match(text, word, first));
    } else {
        assert(is_first_match(text, word, at));
    }
}

/// Counting passes over the places at which the word does not stand: from
/// `from` up to the next match, the count is one more than the count behind
/// that match.
pub proof fn lemma_count_to_next_match(text: Seq<u8>, word: Seq<u8>, from: int, next: int)
    requires
        word.len() > 0,
        0 <= from <= next,
        matches_at(text, word, next),
        forall|j: int| from <= j < next ==> !matches_at(text, word, j),
    ensures
        count_from(text, word, from) == 1 + count_from(text, word, next + word.len()),
    decreases next - from,
{
    if from < next {
        lemma_count_to_next_match(text, word, from + 1, next);
    }
}

/// A keyword that is counted once or not at all stands at one place at
/// most.
pub proof fn lemma_single_match(text: Seq<u8>, word: Seq<u8>, first: int, second: int)
    requires
        is_keyword(word),
        count_matches(text, word) <= 1,
        matches_at(text, word, first),
        matches_at(text, word, second),
    ensures
        first == second,
{
    lemma_keyword_bytes();
    if first != second {
        let (a, b) = if first < second {
            (first, second)
        } else {
            (second, first)
        };
        lemma_keywords_apart(text, word, a, b);
        lemma_first_match_exists(text, word, a);
        let start = choose|start: int| start <= a && is_first_match(text, word, start);
        lemma_count_to_next_match(text, word, 0, start);
        lemma_count_positive(text, word, start + word.len());
        assert(start + word.len() <= b && matches_at(text, word, b));
    }
}

/// Whether `word` stands in `text` at position `at`.
pub fn is_match(text: &[u8], word: &[u8], at: usize) -> (found: bool)
    ensures
        found == matches_at(text@, word@, at as int),
{
    let text_len = text.len();
    let word_len = word.len();
    if at > text_len || word_len > text_len - at {
        return false;
    }
    let mut k: usize = 0;
    while k < word_len
        invariant
            text_len == text@.len(),
            word_len == word@.len(),
            at + word_len <= text_len,
            k <= word_len,
            forall|j: int| 0 <= j < k ==> text@[at + j] == word@[j],
        decreases word_len - k,
    {
        if text[at + k] != word[k] {
            assert(text@.subrange(at as int, at + word_len)[k as int] == text@[at + k]);
            return false;
        }
        k += 1;
    }
    assert(text@.subrange(at as int, at + word_len) =~= word@);
    true
}

/// The position of the first match of `word` in `text`.
pub fn find(text: &[u8], word: &[u8]) -> (first: Option<usize>)
    ensures
        match first {
            Some(at) => is_first_match(text@, word@, at as int),
            None => !has_match(text@, word@),
        },
{
    let text_len = text.len();
    let word_len = word.len();
    if word_len > text_len {
        return None;
    }
    let last = text_len - word_len;
    let mut at: usize = 0;
    loop
        invariant
            text_len == text@.len(),
            word_len == word@.len(),
            last == text_len - word_len,
            at <= last,
            forall|j: int| 0 <= j < at ==> !matches_at(text@, word@, j),
        decreases last - at,
    {
        if is_match(text, word, at) {
            return Some(at);
        }
        if at == last {
            return None;
        }
        at += 1;
    }
}

/// The position of the last match of `word` in `text`.
pub fn rfind(text: &[u8], word: &[u8]) -> (last: Option<usize>)
    ensures
        match last {
            Some(at) => is_last_match(text@, word@, at as int),
            None => !has_match(text@, word@),
        },
{
    let text_len = text.len();
    let word_len = word.len();
    if word_len > text_len {
        return None;
    }
    let mut at: usize = text_len - word_len;
    loop
        invariant
            text_len == text@.len(),
            word_len == word@.len(),
            at <= text_len - word_len,
            forall|j: int| at < j ==> !matches_at(text@, word@, j),
        decreases at,
    {
        if is_match(text, word, at) {
            return Some(at);
        }
        if at == 0 {
            return None;
        }
        at -= 1;
    }
}

/// The number of matches of `word` in `text` that do not overlap, found from
/// the left. An empty word is not counted.
pub fn count(text: &[u8], word: &[u8]) -> (total: usize)
    ensures
        total == count_matches(text@, word@),
{
    let text_len = text.len();
    let word_len = word.len();
    if word_len == 0 {
        return 0;
    }
    let mut total: usize = 0;
    let mut at: usize = 0;
    while at <= text_len && word_len <= text_len - at
        invariant
            text_len == text@.len(),
            word_len == word@.len(),
            word_len > 0,
            at <= text_len + word_len,
            total <= at,
            total + count_from(text@, word@, at as int) == count_matches(text@, word@),
        decreases text_len + word_len - at,
    {
        if is_match(text, word, at) {
            total += 1;
            at += word_len;
        } else {
            at += 1;
        }
    }
    total
}

/// The code of a line: the bytes before its first `#`, all of them where it
/// has none.
pub fn strip_comment(line: &[u8]) -> (code: &[u8])
    ensures
        code@ == code_part(line@),
{
    match find(line, "#".as_bytes()) {
        Some(at) => slice_subrange(line, 0, at),
        None => {
            assert(line@.subrange(0, line@.len() as int) =~= line@);
            line
        },
    }
}

} // verus!
