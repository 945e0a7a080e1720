//! Text: case folding by the standard library, and trimming, splitting,
//! searching, comparing, joining and writing numbers by the library itself.

use vstd::prelude::*;
use vstd::string::*;

verus! {

/// The lower-case form of a text.
pub uninterp spec fn lowercase(text: Seq<char>) -> Seq<char>;

/// Folds a text to lower case with `str::to_lowercase`. Trusted: the result
/// depends on the text alone.
#[verifier::external_body]
pub(crate) fn lowercased(text: &str) -> (lower: String)
    ensures
        lower@ == lowercase(text@),
{
    text.to_lowercase()
}

/// White space: the tab, the line feed and the three controls after it,
/// the space, the next-line control, the no-break space, the ogham space
/// mark, the spaces from the en quad to the hair space, the line and the
/// paragraph separator, the narrow no-break space, the medium mathematical
/// space and the ideographic space.
pub open spec fn is_space(c: char) -> bool {
    let code = c as u32;
    ||| 0x09 <= code <= 0x0d
    ||| code == 0x20
    ||| code == 0x85
    ||| code == 0xa0
    ||| code == 0x1680
    ||| 0x2000 <= code <= 0x200a
    ||| code == 0x2028
    ||| code == 0x2029
    ||| code == 0x202f
    ||| code == 0x205f
    ||| code == 0x3000
}

/// The length of the run of white space at the start of a text.
pub open spec fn start_run(text: Seq<char>) -> nat
    decreases text.len(),
{
    if text.len() > 0 && is_space(text[0]) {
        1 + start_run(text.drop_first())
    } else {
        0
    }
}

/// The length of the run of white space at the end of a text.
pub open spec fn end_run(text: Seq<char>) -> nat
    decreases text.len(),
{
    if text.len() > 0 && is_space(text.last()) {
        1 + end_run(text.drop_last())
    } else {
        0
    }
}

/// A text without the white space at its two ends.
pub open spec fn trimmed(text: Seq<char>) -> Seq<char> {
    if start_run(text) == text.len() {
        Seq::empty()
    } else {
        text.subrange(start_run(text) as int, text.len() - end_run(text))
    }
}

/// The words of a text: its longest runs of characters that are not white
/// space, in their order. White space adds nothing to the words before it;
/// any other character goes on with the last word where it follows one, and
/// starts a new word where it does not.
pub open spec fn words(text: Seq<char>) -> Seq<Seq<char>>
    decreases text.len(),
{
    if text.len() == 0 {
        Seq::empty()
    } else {
        let before = words(text.drop_last());
        if is_space(text.last()) {
            before
        } else if text.len() >= 2 && !is_space(text[text.len() - 2]) {
            before.drop_last().push(before.last().push(text.last()))
        } else {
            before.push(seq![text.last()])
        }
    }
}

/// The white space at the start of a text does not reach beyond it, and
/// where it ends something else stands.
pub proof fn lemma_start_run(text: Seq<char>)
    ensures
        start_run(text) <= text.len(),
        start_run(text) < text.len() ==> !is_space(text[start_run(text) as int]),
    decreases text.len(),
{
    if text.len() > 0 && is_space(text[0]) {
        let rest = text.drop_first();
        lemma_start_run(rest);
        if start_run(text) < text.len() {
            assert(text[start_run(text) as int] == rest[start_run(rest) as int]);
        }
    }
}

/// Tells whether a character is white space.
pub fn is_white_space(c: char) -> (space: bool)
    ensures
        space == is_space(c),
{
    let code = c as u32;
    (0x09 <= code && code <= 0x0d) || code == 0x20 || code == 0x85 || code == 0xa0 || code == 0x1680
        || (0x2000 <= code && code <= 0x200a) || code == 0x2028 || code == 0x2029 || code == 0x202f
        || code == 0x205f || code == 0x3000
}

/// Finds the end of the white space at the start of a text.
fn skip_space(text: &str, length: usize) -> (to: usize)
    requires
        length == text@.len(),
    ensures
        to == start_run(text@),
        to <= length,
{
    let mut to: usize = 0;
    proof {
        assert(text@.skip(0) =~= text@);
    }
    while to < length && is_white_space(text.get_char(to))
        invariant
            length == text@.len(),
            to <= length,
            start_run(text@) == to + start_run(text@.skip(to as int)),
        decreases length - to,
    {
        proof {
            assert(text@.skip(to as int).drop_first() =~= text@.skip(to + 1));
        }
        to = to + 1;
    }
    to
}

/// Takes the white space off both ends of a text.
pub fn trim(text: &str) -> (inner: String)
    ensures
        inner@ == trimmed(text@),
{
    let length = text.unicode_len();
    proof {
        assert(text@.take(length as int) =~= text@);
        lemma_start_run(text@);
    }
    let from = skip_space(text, length);
    let mut to = length;
    while to > from && is_white_space(text.get_char(to - 1))
        invariant
            length == text@.len(),
            from <= to <= length,
            from < length ==> to > from && !is_space(text@[from as int]),
            end_run(text@) == (length - to) + end_run(text@.take(to as int)),
        decreases to,
    {
        proof {
            assert(text@.take(to as int).drop_last() =~= text@.take(to - 1));
        }
        to = to - 1;
    }
    String::from_str(text.substring_char(from, to))
}

/// A text that ends in a character that is no white space has a word.
proof fn lemma_last_word(text: Seq<char>)
    requires
        text.len() > 0,
        !is_space(text.last()),
    ensures
        words(text).len() > 0,
    decreases text.len(),
{
    if text.len() >= 2 && !is_space(text[text.len() - 2]) {
        assert(text.drop_last().last() == text[text.len() - 2]);
        lemma_last_word(text.drop_last());
    }
}

/// Splits a text into its words.
pub fn split_words(text: &str) -> (parts: Vec<String>)
    ensures
        texts(parts@) == words(text@),
{
    let length = text.unicode_len();
    let mut parts: Vec<String> = Vec::new();
    let mut in_word = false;
    let mut i: usize = 0;
    while i < length
        invariant
            length == text@.len(),
            i <= length,
            texts(parts@) == words(text@.take(i as int)),
            in_word == (i > 0 && !is_space(text@[i - 1])),
        decreases length - i,
    {
        let ghost sofar = texts(parts@);
        proof {
            let wider = text@.take(i + 1);
            assert(wider.drop_last() =~= text@.take(i as int));
            if i > 0 {
                assert(wider[i - 1] == text@[i - 1]);
                if in_word {
                    assert(text@.take(i as int).last() == text@[i - 1]);
                    lemma_last_word(text@.take(i as int));
                }
            }
        }
        let space = is_white_space(text.get_char(i));
        if !space {
            let letter = text.substring_char(i, i + 1);
            proof {
                assert(letter@ =~= seq![text@[i as int]]);
            }
            if in_word {
                let last = parts.len() - 1;
                let ghost words_before = parts@;
                parts[last].append(letter);
                proof {
                    assert(sofar.last() == words_before[last as int]@);
                    assert(parts@[last as int]@ =~= sofar.last().push(text@[i as int]));
                    assert forall|k: int| 0 <= k < last implies texts(parts@)[k] == sofar[k] by {
                        assert(parts@[k] == words_before[k]);
                    }
                    assert(texts(parts@) =~= sofar.drop_last().push(
                        sofar.last().push(text@[i as int]),
                    ));
                }
            } else {
                parts.push(String::from_str(letter));
                proof {
                    assert(texts(parts@) =~= sofar.push(seq![text@[i as int]]));
                }
            }
        }
        in_word = !space;
        i = i + 1;
    }
    proof {
        assert(text@.take(length as int) =~= text@);
    }
    parts
}

/// The views of a sequence of strings.
pub open spec fn texts(strings: Seq<String>) -> Seq<Seq<char>> {
    strings.map_values(|s: String| s@)
}

/// `needle` stands somewhere in `text`, byte for byte.
pub open spec fn occurs_in(needle: Seq<u8>, text: Seq<u8>) -> bool {
    exists|at: int| occurs_at(needle, text, at)
}

/// `needle` stands in `text` from position `at` on.
pub open spec fn occurs_at(needle: Seq<u8>, text: Seq<u8>, at: int) -> bool {
    0 <= at && at + needle.len() <= text.len() && text.subrange(at, at + needle.len()) == needle
}

/// Tells whether `needle` stands in `text` from position `at` on.
fn matches_at(text: &[u8], needle: &[u8], at: usize) -> (found: bool)
    requires
        at + needle@.len() <= text@.len(),
    ensures
        found == occurs_at(needle@, text@, at as int),
{
    let length = needle.len();
    let mut i: usize = 0;
    while i < length
        invariant
            i <= length == needle@.len(),
            at + length <= text@.len() == text.len(),
            text@.subrange(at as int, at + i) == needle@.take(i as int),
        decreases length - i,
    {
        if text[at + i] != needle[i] {
            return false;
        }
        i = i + 1;
    }
    proof {
        assert(needle@.take(i as int) =~= needle@);
    }
    true
}

/// Tells whether `needle` stands somewhere in `text`. The empty text
/// stands in every text.
pub fn contains_bytes(text: &[u8], needle: &[u8]) -> (found: bool)
    ensures
        found == occurs_in(needle@, text@),
{
    if needle.len() > text.len() {
        return false;
    }
    let last = text.len() - needle.len();
    let mut at: usize = 0;
    loop
        invariant
            last + needle@.len() == text@.len(),
            at <= last,
            forall|before: int| 0 <= before < at ==> !occurs_at(needle@, text@, before),
        decreases last - at,
    {
        if matches_at(text, needle, at) {
            return true;
        }
        if at == last {
            return false;
        }
        at = at + 1;
    }
}

/// `a` comes before `b` when the two are compared byte by byte: at the
/// first place where they differ `a` has the smaller byte, or `a` ends there
/// and `b` goes on.
pub open spec fn bytes_before(a: Seq<u8>, b: Seq<u8>) -> bool
    decreases a.len(),
{
    if b.len() == 0 {
        false
    } else if a.len() == 0 {
        true
    } else if a[0] != b[0] {
        a[0] < b[0]
    } else {
        bytes_before(a.drop_first(), b.drop_first())
    }
}

/// No text comes before itself or before one that comes before it.
pub proof fn lemma_bytes_before_one_way(a: Seq<u8>, b: Seq<u8>)
    ensures
        !(bytes_before(a, b) && bytes_before(b, a)),
    decreases a.len(),
{
    if a.len() > 0 && b.len() > 0 && a[0] == b[0] {
        lemma_bytes_before_one_way(a.drop_first(), b.drop_first());
    }
}

/// Where `c` comes before `a`, it comes before `b` or `b` comes before `a`.
pub proof fn lemma_bytes_before_between(a: Seq<u8>, b: Seq<u8>, c: Seq<u8>)
    requires
        bytes_before(c, a),
    ensures
        bytes_before(c, b) || bytes_before(b, a),
    decreases a.len(),
{
    if b.len() > 0 && c.len() > 0 && a.len() > 0 && a[0] == b[0] && b[0] == c[0] {
        lemma_bytes_before_between(a.drop_first(), b.drop_first(), c.drop_first());
    }
}

/// Tells whether `a` comes before `b`, byte by byte.
pub fn sorts_before(a: &[u8], b: &[u8]) -> (before: bool)
    ensures
        before == bytes_before(a@, b@),
{
    let mut i: usize = 0;
    proof {
        assert(a@.skip(0) =~= a@);
        assert(b@.skip(0) =~= b@);
    }
    while i < a.len() && i < b.len()
        invariant
            i <= a@.len(),
            i <= b@.len(),
            bytes_before(a@, b@) == bytes_before(a@.skip(i as int), b@.skip(i as int)),
        decreases a@.len() - i,
    {
        proof {
            assert(a@.skip(i as int).drop_first() =~= a@.skip(i + 1));
            assert(b@.skip(i as int).drop_first() =~= b@.skip(i + 1));
        }
        if a[i] != b[i] {
            return a[i] < b[i];
        }
        i = i + 1;
    }
    i < b.len()
}

/// The digit for a value below ten.
pub open spec fn digit(value: nat) -> char {
    seq!['0', '1', '2', '3', '4', '5', '6', '7', '8', '9'][value as int]
}

/// A number written in decimal digits, without leading zeros.
pub open spec fn decimal(n: nat) -> Seq<char>
    decreases n,
{
    if n < 10 {
        seq![digit(n)]
    } else {
        decimal(n / 10).push(digit(n % 10))
    }
}

/// The digit for a value below ten, as a one-character string.
fn digit_text(value: usize) -> (text: &'static str)
    requires
        value < 10,
    ensures
        text@ == seq![digit(value as nat)],
{
    proof {
        reveal_strlit("0");
        reveal_strlit("1");
        reveal_strlit("2");
        reveal_strlit("3");
        reveal_strlit("4");
        reveal_strlit("5");
        reveal_strlit("6");
        reveal_strlit("7");
        reveal_strlit("8");
        reveal_strlit("9");
    }
    let text = match value {
        0 => "0",
        1 => "1",
        2 => "2",
        3 => "3",
        4 => "4",
        5 => "5",
        6 => "6",
        7 => "7",
        8 => "8",
        _ => "9",
    };
    text
}

/// Writes a number in decimal digits.
pub fn decimal_text(n: usize) -> (text: String)
    ensures
        text@ == decimal(n as nat),
    decreases n,
{
    if n < 10 {
        String::from_str(digit_text(n))
    } else {
        let mut text = decimal_text(n / 10);
        text.append(digit_text(n % 10));
        text
    }
}

/// The parts one after the other, with `between` between each two.
pub open spec fn joined(parts: Seq<Seq<char>>, between: Seq<char>) -> Seq<char>
    decreases parts.len(),
{
    if parts.len() == 0 {
        Seq::empty()
    } else if parts.len() == 1 {
        parts[0]
    } else {
        joined(parts.drop_last(), between) + between + parts.last()
    }
}

/// Joins the parts, with `between` between each two.
pub fn join(parts: &Vec<String>, between: &str) -> (text: String)
    ensures
        text@ == joined(texts(parts@), between@),
{
    let mut text = String::new();
    let mut i: usize = 0;
    while i < parts.len()
        invariant
            i <= parts.len(),
            text@ == joined(texts(parts@.take(i as int)), between@),
        decreases parts.len() - i,
    {
        if i > 0 {
            text.append(between);
        }
        text.append(parts[i].as_str());
        i = i + 1;
        proof {
            let wider = texts(parts@.take(i as int));
            assert(wider.drop_last() =~= texts(parts@.take(i - 1)));
        }
    }
    proof {
        assert(parts@.take(i as int) =~= parts@);
    }
    text
}

} // verus!
