//! The first highlighter of the editor: it underlines the words that begin with an `a` and
//! proposes made-up variants of a word.
use vstd::prelude::*;
use vstd::string::*;

verus! {

/// An ASCII letter.
pub open spec fn is_ascii_letter(c: u8) -> bool {
    (65 <= c <= 90) || (97 <= c <= 122)
}

/// An ASCII letter or digit.
pub open spec fn is_ascii_word_byte(c: u8) -> bool {
    is_ascii_letter(c) || (48 <= c <= 57)
}

/// Whether `c` is an ASCII letter, as `u8::is_ascii_alphabetic` says.
pub fn ascii_letter(c: u8) -> (b: bool)
    ensures
        b == is_ascii_letter(c),
{
    (65 <= c && c <= 90) || (97 <= c && c <= 122)
}

/// Whether `c` is an ASCII letter or digit, as `u8::is_ascii_alphanumeric` says.
pub fn ascii_word_byte(c: u8) -> (b: bool)
    ensures
        b == is_ascii_word_byte(c),
{
    ascii_letter(c) || (48 <= c && c <= 57)
}

/// Where the word that continues at `i` ends: the first position at or after `i` that holds
/// no ASCII letter or digit, or the end of the text.
pub open spec fn word_end(b: Seq<u8>, i: int) -> int
    decreases b.len() - i,
{
    if 0 <= i < b.len() && is_ascii_word_byte(b[i]) {
        word_end(b, i + 1)
    } else {
        i
    }
}

/// The words from position `i` on that are underlined, as (start, length) pairs: a word
/// starts at an ASCII letter and runs over ASCII letters and digits; it is underlined when it
/// starts with `a` or `A`.
pub open spec fn underlined_words(b: Seq<u8>, i: int) -> Seq<(int, int)>
    decreases b.len() - i,
{
    if i < 0 || i >= b.len() {
        Seq::empty()
    } else if !is_ascii_letter(b[i]) {
        underlined_words(b, i + 1)
    } else {
        let j = word_end(b, i);
        proof {
            lemma_word_end_after(b, i + 1);
        }
        if b[i] == 97 || b[i] == 65 {
            seq![(i, j - i)] + underlined_words(b, j)
        } else {
            underlined_words(b, j)
        }
    }
}

/// A word ends at or after where it continues, within the text, and everything in between
/// is letters and digits.
pub proof fn lemma_word_end_after(b: Seq<u8>, i: int)
    requires
        0 <= i,
    ensures
        i <= word_end(b, i),
        i <= b.len() ==> word_end(b, i) <= b.len(),
        forall|k: int| i <= k < word_end(b, i) ==> is_ascii_word_byte(#[trigger] b[k]),
        word_end(b, i) < b.len() ==> !is_ascii_word_byte(b[word_end(b, i)]),
    decreases b.len() - i,
{
    if i < b.len() && is_ascii_word_byte(b[i]) {
        lemma_word_end_after(b, i + 1);
    }
}

/// A span is an underlined word: it starts with `a` or `A`, lies within the text, holds only
/// ASCII letters and digits, and stops just before a byte that is neither (or at the end).
pub open spec fn is_underlined_word(b: Seq<u8>, span: (int, int)) -> bool {
    let (s, l) = span;
    &&& 0 <= s
    &&& 1 <= l
    &&& s + l <= b.len()
    &&& (b[s] == 97 || b[s] == 65)
    &&& forall|k: int| s <= k < s + l ==> is_ascii_word_byte(#[trigger] b[k])
    &&& (s + l == b.len() || !is_ascii_word_byte(b[s + l]))
    &&& (s == 0 || !is_ascii_letter(b[s - 1]))
}

/// Every underlined span from position `i` on is an underlined word that starts at or after
/// `i`, and the spans come in order without overlapping.
pub proof fn lemma_underlined_from(b: Seq<u8>, i: int)
    requires
        0 <= i,
        i == 0 || i >= b.len() || !is_ascii_letter(b[i - 1]) || !is_ascii_word_byte(b[i]),
    ensures
        forall|k: int|
            0 <= k < underlined_words(b, i).len() ==> is_underlined_word(
                b,
                #[trigger] underlined_words(b, i)[k],
            ) && underlined_words(b, i)[k].0 >= i,
        forall|k: int|
            0 <= k < underlined_words(b, i).len() - 1 ==> #[trigger] underlined_words(b, i)[k].0
                + underlined_words(b, i)[k].1 <= underlined_words(b, i)[k + 1].0,
    decreases b.len() - i,
{
    if i < b.len() {
        if !is_ascii_letter(b[i]) {
            lemma_underlined_from(b, i + 1);
            assert(underlined_words(b, i) == underlined_words(b, i + 1));
        } else {
            let j = word_end(b, i);
            lemma_word_end_after(b, i + 1);
            lemma_underlined_from(b, j);
            if !(b[i] == 97 || b[i] == 65) {
                assert(underlined_words(b, i) == underlined_words(b, j));
            }
            let rest = underlined_words(b, j);
            if b[i] == 97 || b[i] == 65 {
                let all = underlined_words(b, i);
                assert(all =~= seq![(i, j - i)] + rest);
                assert(is_underlined_word(b, (i, j - i)));
                assert forall|k: int| 0 <= k < all.len() - 1 implies #[trigger] all[k].0
                    + all[k].1 <= all[k + 1].0 by {
                    if k > 0 {
                        assert(all[k] == rest[k - 1]);
                        assert(all[k + 1] == rest[k]);
                    }
                }
                assert forall|k: int| 0 <= k < all.len() implies is_underlined_word(
                    b,
                    #[trigger] all[k],
                ) && all[k].0 >= i by {
                    if k > 0 {
                        assert(all[k] == rest[k - 1]);
                    }
                }
            }
        }
    }
}

/// What is underlined are whole words that begin with `a` or `A`, in order and without
/// overlaps.
pub proof fn law_underlines_are_a_words(b: Seq<u8>)
    ensures
        forall|k: int|
            0 <= k < underlined_words(b, 0).len() ==> is_underlined_word(
                b,
                #[trigger] underlined_words(b, 0)[k],
            ),
        forall|k: int|
            0 <= k < underlined_words(b, 0).len() - 1 ==> #[trigger] underlined_words(b, 0)[k].0
                + underlined_words(b, 0)[k].1 <= underlined_words(b, 0)[k + 1].0,
{
    lemma_underlined_from(b, 0);
}

/// Every `a` or `A` that begins the text or follows a byte that is no ASCII letter or digit
/// begins an underlined span, which runs to the end of its word.
pub proof fn law_a_words_are_underlined(b: Seq<u8>, s: int)
    requires
        0 <= s < b.len(),
        b[s] == 97 || b[s] == 65,
        s == 0 || !is_ascii_word_byte(b[s - 1]),
    ensures
        underlined_words(b, 0).contains((s, word_end(b, s) - s)),
{
    lemma_reaches(b, s, 0);
}

/// Scanning from any `i` at or before `s` comes to `s`.
proof fn lemma_reaches(b: Seq<u8>, s: int, i: int)
    requires
        0 <= i <= s < b.len(),
        b[s] == 97 || b[s] == 65,
        s == 0 || !is_ascii_word_byte(b[s - 1]),
    ensures
        underlined_words(b, i).contains((s, word_end(b, s) - s)),
    decreases s - i,
{
    let w = (s, word_end(b, s) - s);
    if i == s {
        assert(underlined_words(b, i)[0] == w);
    } else if !is_ascii_letter(b[i]) {
        lemma_reaches(b, s, i + 1);
    } else {
        let j = word_end(b, i);
        lemma_word_end_after(b, i + 1);
        lemma_word_end_before(b, i, s - 1);
        lemma_reaches(b, s, j);
        let rest = underlined_words(b, j);
        let k = choose|k: int| 0 <= k < rest.len() && rest[k] == w;
        if b[i] == 97 || b[i] == 65 {
            assert(underlined_words(b, i) =~= seq![(i, j - i)] + rest);
            assert(underlined_words(b, i)[k + 1] == w);
        }
    }
}

/// A word that continues at `i` ends at or before a byte that is no letter or digit.
proof fn lemma_word_end_before(b: Seq<u8>, i: int, stop: int)
    requires
        0 <= i <= stop < b.len(),
        !is_ascii_word_byte(b[stop]),
    ensures
        word_end(b, i) <= stop,
    decreases stop - i,
{
    if i < stop && is_ascii_word_byte(b[i]) {
        lemma_word_end_before(b, i + 1, stop);
    }
}

/// The spans as integers.
pub open spec fn span_views(spans: Seq<(usize, usize)>) -> Seq<(int, int)> {
    spans.map_values(|p: (usize, usize)| (p.0 as int, p.1 as int))
}

/// The first highlighter's own state: it holds none.
#[derive(Default)]
pub struct RustQSyntaxHighlighter;

/// The first highlighter of the editor.
pub struct CustomHighlighter {
    pub rust: RustQSyntaxHighlighter,
}

impl CustomHighlighter {
    /// A highlighter.
    pub fn new() -> (h: Self) {
        CustomHighlighter { rust: RustQSyntaxHighlighter }
    }

    /// The byte spans (start, length) of the block's words that begin with `a` or `A`, in
    /// order; each is to be underlined.
    pub fn highlight_block(&self, text: &str) -> (r: Vec<(usize, usize)>)
        ensures
            span_views(r@) == underlined_words(text.spec_bytes(), 0),
    {
        let bytes = text.as_bytes();
        let len = bytes.len();
        let ghost b = bytes@;
        let mut r: Vec<(usize, usize)> = Vec::new();
        let mut i: usize = 0;
        while i < len
            invariant
                b == bytes@,
                len == b.len(),
                i <= len,
                span_views(r@) + underlined_words(b, i as int) == underlined_words(b, 0),
            decreases len - i,
        {
            if !ascii_letter(bytes[i]) {
                assert(underlined_words(b, i as int) == underlined_words(b, i + 1));
                i = i + 1;
                continue;
            }
            let start = i;
            proof {
                lemma_word_end_after(b, start as int);
            }
            while i < len && ascii_word_byte(bytes[i])
                invariant
                    b == bytes@,
                    len == b.len(),
                    start < len,
                    is_ascii_letter(b[start as int]),
                    start <= i <= len,
                    word_end(b, i as int) == word_end(b, start as int),
                decreases len - i,
            {
                i = i + 1;
            }
            assert(word_end(b, i as int) == i as int);
            let ghost old_r = r@;
            if bytes[start] == 97u8 || bytes[start] == 65u8 {
                r.push((start, i - start));
                assert(span_views(r@) =~= span_views(old_r).push((start as int, i - start)));
                assert(span_views(r@) + underlined_words(b, i as int) =~= span_views(old_r)
                    + underlined_words(b, start as int));
            } else {
                assert(underlined_words(b, start as int) == underlined_words(b, i as int));
            }
        }
        r
    }

    /// The made-up variants of `word`, separated by `;`.
    pub fn get_suggestions(&self, word: &str) -> (r: String)
        ensures
            r@ == "super_"@ + word@ + ";"@ + "mega_"@ + word@ + ";"@ + "ultra_"@ + word@,
    {
        let mut r = String::from_str("super_");
        r.append(word);
        r.append(";");
        r.append("mega_");
        r.append(word);
        r.append(";");
        r.append("ultra_");
        r.append(word);
        r
    }
}

} // verus!
