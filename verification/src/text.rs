//! Text as sequences of characters: words, lines, trimming, padding and the
//! small string helpers the messages are put together with.

use vstd::prelude::*;
use vstd::string::*;
use vstd::utf8::*;

verus! {

/// Appends one character to a string.
///
/// Specifies `std::string::String::push`: the string afterwards is the string
/// before with the character added at its end.
pub assume_specification[ String::push ](s: &mut String, c: char)
    ensures
        final(s)@ == old(s)@.push(c),
;

/// The form in which `{:?}` prints a string.
pub uninterp spec fn debug_form(s: Seq<char>) -> Seq<char>;

/// Characters that `{:?}` prints as themselves inside a string: the printable
/// ASCII characters other than the two quotes and the backslash.
pub open spec fn is_plain(c: char) -> bool {
    &&& ' ' <= c <= '~'
    &&& c != '"'
    &&& c != '\''
    &&& c != '\\'
}

/// Formats a string with `{:?}`.
///
/// Calls `std::fmt`'s `Debug` for `str`. The result depends on the string
/// alone and is named by `debug_form`. A string of plain characters comes out
/// between double quotes, otherwise unchanged. Which other characters are
/// escaped, and how, is left to the name.
#[verifier::external_body]
pub(crate) fn quote(s: &str) -> (res: String)
    ensures
        res@ == debug_form(s@),
        (forall|i: int| 0 <= i < s@.len() ==> is_plain(#[trigger] s@[i])) ==> res@ == seq!['"']
            + s@ + seq!['"'],
{
    format!("{:?}", s)
}

/// The text that bytes stand for, whatever they hold.
pub uninterp spec fn lossy_form(bytes: Seq<u8>) -> Seq<char>;

/// Reads bytes as UTF-8.
///
/// Calls `std::string::String::from_utf8_lossy`. The result depends on the
/// bytes alone and is named by `lossy_form`. Valid UTF-8 is decoded, and every
/// character, also one that stands in place of something else, takes up at
/// least one byte. What stands in place of what is left to the name.
#[verifier::external_body]
pub(crate) fn lossy(bytes: &[u8]) -> (res: String)
    ensures
        res@ == lossy_form(bytes@),
        valid_utf8(bytes@) ==> res@ == decode_utf8(bytes@),
        res@.len() <= bytes@.len(),
{
    String::from_utf8_lossy(bytes).into_owned()
}

/// The characters of a string as a vector.
pub fn chars_of(s: &str) -> (res: Vec<char>)
    ensures
        res@ == s@,
{
    let mut res: Vec<char> = Vec::new();
    for c in it: s.chars()
        invariant
            it.seq() == s@,
            res@ == it.seq().take(it.index()),
    {
        res.push(c);
    }
    assert(res@ =~= s@);
    res
}

/// A string made of the given characters.
pub fn string_of(chars: &[char]) -> (res: String)
    ensures
        res@ == chars@,
{
    let mut res = String::new();
    let mut i: usize = 0;
    while i < chars.len()
        invariant
            i <= chars@.len(),
            res@ == chars@.take(i as int),
        decreases chars@.len() - i,
    {
        res.push(chars[i]);
        i += 1;
    }
    assert(res@ =~= chars@);
    res
}

/// Whether two strings hold the same characters.
pub fn same_text(a: &str, b: &str) -> (res: bool)
    ensures
        res == (a@ == b@),
{
    let x = chars_of(a);
    let y = chars_of(b);
    if x.len() != y.len() {
        return false;
    }
    let mut i: usize = 0;
    while i < x.len()
        invariant
            i <= x@.len(),
            x@.len() == y@.len(),
            x@ == a@,
            y@ == b@,
            forall|j: int| 0 <= j < i ==> x@[j] == y@[j],
        decreases x@.len() - i,
    {
        if x[i] != y[i] {
            return false;
        }
        i += 1;
    }
    assert(x@ =~= y@);
    true
}

// ---------------------------------------------------------------------------
// White space and words
// ---------------------------------------------------------------------------

/// The characters with Unicode's `White_Space` property.
pub open spec fn is_white(c: char) -> bool {
    ||| '\u{9}' <= c <= '\u{d}'
    ||| c == '\u{20}'
    ||| c == '\u{85}'
    ||| c == '\u{a0}'
    ||| c == '\u{1680}'
    ||| '\u{2000}' <= c <= '\u{200a}'
    ||| c == '\u{2028}'
    ||| c == '\u{2029}'
    ||| c == '\u{202f}'
    ||| c == '\u{205f}'
    ||| c == '\u{3000}'
}

/// Whether a character is white space.
pub fn is_whitespace(c: char) -> (res: bool)
    ensures
        res == is_white(c),
{
    ('\u{9}' <= c && c <= '\u{d}') || c == '\u{20}' || c == '\u{85}' || c == '\u{a0}' || c
        == '\u{1680}' || ('\u{2000}' <= c && c <= '\u{200a}') || c == '\u{2028}' || c == '\u{2029}'
        || c == '\u{202f}' || c == '\u{205f}' || c == '\u{3000}'
}

/// How many characters of `s` stand before its first white space.
pub open spec fn word_len(s: Seq<char>) -> nat
    decreases s.len(),
{
    if s.len() == 0 || is_white(s[0]) {
        0
    } else {
        1 + word_len(s.skip(1))
    }
}

/// The maximal runs of non-white characters of `s`, in order.
pub open spec fn words(s: Seq<char>) -> Seq<Seq<char>>
    decreases s.len(),
{
    if s.len() == 0 {
        seq![]
    } else if is_white(s[0]) {
        words(s.skip(1))
    } else {
        proof {
            lemma_word_len(s);
        }
        let n = word_len(s) as int;
        seq![s.take(n)] + words(s.skip(n))
    }
}

/// What stands before the first white space, and there.
pub proof fn lemma_word_len(s: Seq<char>)
    ensures
        word_len(s) <= s.len(),
        s.len() > 0 && !is_white(s[0]) ==> word_len(s) > 0,
        forall|i: int| 0 <= i < word_len(s) ==> !is_white(#[trigger] s[i]),
        word_len(s) < s.len() ==> is_white(s[word_len(s) as int]),
    decreases s.len(),
{
    if s.len() > 0 && !is_white(s[0]) {
        let t = s.skip(1);
        lemma_word_len(t);
        assert forall|i: int| 0 <= i < word_len(s) implies !is_white(#[trigger] s[i]) by {
            if i > 0 {
                assert(t[i - 1] == s[i]);
            }
        }
        if word_len(s) < s.len() {
            assert(t[word_len(t) as int] == s[word_len(s) as int]);
        }
    }
}

/// The views of the strings in a vector.
pub open spec fn texts(v: Seq<String>) -> Seq<Seq<char>> {
    v.map_values(|s: String| s@)
}

/// The view of a string that may be missing.
pub open spec fn text_if_any(o: Option<String>) -> Option<Seq<char>> {
    match o {
        Some(s) => Some(s@),
        None => None,
    }
}

/// A copy of a string that may be missing.
pub fn copy_if_any(o: &Option<String>) -> (res: Option<String>)
    ensures
        text_if_any(res) == text_if_any(*o),
{
    match o {
        Some(s) => Some(s.as_str().to_owned()),
        None => None,
    }
}

/// The words of a text.
pub fn tokens(s: &str) -> (res: Vec<String>)
    ensures
        texts(res@) == words(s@),
{
    let chars = chars_of(s);
    words_of(&chars)
}

/// The words of a sequence of characters.
pub fn words_of(chars: &[char]) -> (res: Vec<String>)
    ensures
        texts(res@) == words(chars@),
{
    let mut res: Vec<String> = Vec::new();
    let mut i: usize = 0;
    let n = chars.len();
    assert(chars@.skip(0) =~= chars@);
    while i < n
        invariant
            i <= n,
            n == chars@.len(),
            words(chars@) =~= texts(res@) + words(chars@.skip(i as int)),
        decreases n - i,
    {
        let ghost rest = chars@.skip(i as int);
        assert(rest[0] == chars@[i as int]);
        if is_whitespace(chars[i]) {
            assert(rest.skip(1) =~= chars@.skip(i + 1));
            i += 1;
        } else {
            let mut word = String::new();
            let mut j: usize = i;
            while j < n && !is_whitespace(chars[j])
                invariant
                    i <= j <= n,
                    n == chars@.len(),
                    word@ == chars@.subrange(i as int, j as int),
                    word_len(chars@.skip(i as int)) == j - i + word_len(chars@.skip(j as int)),
                decreases n - j,
            {
                proof {
                    let tail = chars@.skip(j as int);
                    assert(tail[0] == chars@[j as int]);
                    assert(tail.skip(1) =~= chars@.skip(j + 1));
                }
                word.push(chars[j]);
                j += 1;
                assert(word@ =~= chars@.subrange(i as int, j as int));
            }
            proof {
                let tail = chars@.skip(j as int);
                if j < n {
                    assert(tail[0] == chars@[j as int]);
                }
                assert(word_len(tail) == 0);
                lemma_word_len(rest);
                assert(rest.take(j - i) =~= word@);
                assert(rest.skip(j - i) =~= tail);
            }
            let ghost before = texts(res@);
            res.push(word);
            proof {
                assert(texts(res@) =~= before.push(word@));
                assert(words(rest) =~= seq![word@] + words(chars@.skip(j as int)));
            }
            i = j;
        }
    }
    assert(chars@.skip(n as int) =~= Seq::<char>::empty());
    res
}

// ---------------------------------------------------------------------------
// Lines and trimming
// ---------------------------------------------------------------------------

/// How many characters of `s` stand before its first newline.
pub open spec fn line_len(s: Seq<char>) -> nat
    decreases s.len(),
{
    if s.len() == 0 || s[0] == '\n' {
        0
    } else {
        1 + line_len(s.skip(1))
    }
}

/// `s` without the carriage return at its end, if it has one.
pub open spec fn without_cr(s: Seq<char>) -> Seq<char> {
    if s.len() > 0 && s.last() == '\r' {
        s.drop_last()
    } else {
        s
    }
}

/// The lines of `s`. A line ends at `\n` or `\r\n`, which do not belong to it;
/// a last line needs no ending, and an ending opens no further line.
pub open spec fn lines_of(s: Seq<char>) -> Seq<Seq<char>>
    decreases s.len(),
{
    if s.len() == 0 {
        seq![]
    } else {
        let n = line_len(s) as int;
        if n < s.len() {
            seq![without_cr(s.take(n))] + lines_of(s.skip(n + 1))
        } else {
            seq![s]
        }
    }
}

/// What stands before the first newline, and there.
pub proof fn lemma_line_len(s: Seq<char>)
    ensures
        line_len(s) <= s.len(),
        forall|i: int| 0 <= i < line_len(s) ==> #[trigger] s[i] != '\n',
        line_len(s) < s.len() ==> s[line_len(s) as int] == '\n',
    decreases s.len(),
{
    if s.len() > 0 && s[0] != '\n' {
        let t = s.skip(1);
        lemma_line_len(t);
        assert forall|i: int| 0 <= i < line_len(s) implies #[trigger] s[i] != '\n' by {
            if i > 0 {
                assert(t[i - 1] == s[i]);
            }
        }
        if line_len(s) < s.len() {
            assert(t[line_len(t) as int] == s[line_len(s) as int]);
        }
    }
}

/// The lines of a text.
pub fn lines(s: &str) -> (res: Vec<String>)
    ensures
        texts(res@) == lines_of(s@),
{
    let chars = chars_of(s);
    let mut res: Vec<String> = Vec::new();
    let mut i: usize = 0;
    let n = chars.len();
    assert(chars@.skip(0) =~= chars@);
    while i < n
        invariant
            i <= n,
            n == chars@.len(),
            chars@ == s@,
            lines_of(s@) =~= texts(res@) + lines_of(chars@.skip(i as int)),
        decreases n - i,
    {
        let ghost rest = chars@.skip(i as int);
        let mut j: usize = i;
        while j < n && chars[j] != '\n'
            invariant
                i <= j <= n,
                n == chars@.len(),
                line_len(chars@.skip(i as int)) == j - i + line_len(chars@.skip(j as int)),
            decreases n - j,
        {
            proof {
                let tail = chars@.skip(j as int);
                assert(tail[0] == chars@[j as int]);
                assert(tail.skip(1) =~= chars@.skip(j + 1));
            }
            j += 1;
        }
        proof {
            let tail = chars@.skip(j as int);
            if j < n {
                assert(tail[0] == chars@[j as int]);
            }
            assert(line_len(tail) == 0);
        }
        let mut end: usize = j;
        if j < n && j > i && chars[j - 1] == '\r' {
            end = j - 1;
        }
        let line = string_of(&chars[i..end]);
        proof {
            if j < n {
                let raw = rest.take(j - i);
                assert(raw =~= chars@.subrange(i as int, j as int));
                if j > i {
                    assert(raw.last() == chars@[j - 1]);
                }
                assert(line@ =~= without_cr(raw));
                assert(rest.skip(j - i + 1) =~= chars@.skip(j + 1));
            } else {
                assert(line@ =~= rest);
            }
        }
        let ghost before = texts(res@);
        res.push(line);
        assert(texts(res@) =~= before.push(line@));
        if j < n {
            i = j + 1;
        } else {
            i = n;
            assert(chars@.skip(n as int) =~= Seq::<char>::empty());
        }
    }
    assert(chars@.skip(n as int) =~= Seq::<char>::empty());
    res
}

/// `s` without the white space at its end.
pub open spec fn trimmed_end(s: Seq<char>) -> Seq<char>
    decreases s.len(),
{
    if s.len() > 0 && is_white(s.last()) {
        trimmed_end(s.drop_last())
    } else {
        s
    }
}

/// `s` without the white space at its start.
pub open spec fn trimmed_start(s: Seq<char>) -> Seq<char>
    decreases s.len(),
{
    if s.len() > 0 && is_white(s[0]) {
        trimmed_start(s.skip(1))
    } else {
        s
    }
}

/// `s` without the white space at both ends.
pub open spec fn trimmed(s: Seq<char>) -> Seq<char> {
    trimmed_end(trimmed_start(s))
}

/// Where the text without its trailing white space ends.
fn end_of_text(chars: &[char]) -> (res: usize)
    ensures
        res <= chars@.len(),
        chars@.take(res as int) == trimmed_end(chars@),
{
    let mut n: usize = chars.len();
    assert(chars@.take(n as int) =~= chars@);
    while n > 0 && is_whitespace(chars[n - 1])
        invariant
            n <= chars@.len(),
            trimmed_end(chars@.take(n as int)) == trimmed_end(chars@),
        decreases n,
    {
        assert(chars@.take(n as int).drop_last() =~= chars@.take(n - 1));
        n -= 1;
    }
    n
}

/// The text without the white space at its end.
pub fn trim_end(s: &str) -> (res: String)
    ensures
        res@ == trimmed_end(s@),
{
    let chars = chars_of(s);
    let n = end_of_text(&chars);
    assert(chars@.subrange(0, n as int) =~= chars@.take(n as int));
    string_of(&chars[0..n])
}

/// The text without the white space at its ends.
pub fn trim(s: &str) -> (res: String)
    ensures
        res@ == trimmed(s@),
{
    let chars = chars_of(s);
    let len = chars.len();
    let mut i: usize = 0;
    assert(chars@.skip(0) =~= chars@);
    while i < len && is_whitespace(chars[i])
        invariant
            i <= len,
            len == chars@.len(),
            trimmed_start(chars@.skip(i as int)) == trimmed_start(chars@),
        decreases len - i,
    {
        assert(chars@.skip(i as int)[0] == chars@[i as int]);
        assert(chars@.skip(i as int).skip(1) =~= chars@.skip(i + 1));
        i += 1;
    }
    proof {
        if i < len {
            assert(chars@.skip(i as int)[0] == chars@[i as int]);
        }
        assert(chars@.subrange(i as int, len as int) =~= chars@.skip(i as int));
    }
    let body = &chars[i..len];
    let n = end_of_text(body);
    assert(body@.subrange(0, n as int) =~= body@.take(n as int));
    string_of(&body[0..n])
}

// ---------------------------------------------------------------------------
// Putting texts together
// ---------------------------------------------------------------------------

/// The parts one after the other with `sep` between them.
pub open spec fn joined(parts: Seq<Seq<char>>, sep: Seq<char>) -> Seq<char>
    decreases parts.len(),
{
    if parts.len() == 0 {
        seq![]
    } else if parts.len() == 1 {
        parts[0]
    } else {
        joined(parts.drop_last(), sep) + sep + parts.last()
    }
}

/// Joins the strings from `start` on.
pub fn join_from(parts: &Vec<String>, start: usize, sep: &str) -> (res: String)
    requires
        start <= parts@.len(),
    ensures
        res@ == joined(texts(parts@).skip(start as int), sep@),
{
    let mut res = String::new();
    let mut i: usize = start;
    let ghost all = texts(parts@);
    assert(all.subrange(start as int, start as int) =~= Seq::<Seq<char>>::empty());
    while i < parts.len()
        invariant
            start <= i <= parts@.len(),
            all == texts(parts@),
            res@ == joined(all.subrange(start as int, i as int), sep@),
        decreases parts@.len() - i,
    {
        let ghost next = all.subrange(start as int, i + 1);
        assert(next.drop_last() =~= all.subrange(start as int, i as int));
        assert(next.last() == parts@[i as int]@);
        if i > start {
            res.append(sep);
        }
        res.append(parts[i].as_str());
        assert(res@ =~= joined(next, sep@));
        i += 1;
    }
    assert(all.subrange(start as int, parts@.len() as int) =~= all.skip(start as int));
    res
}

/// `n` spaces.
pub open spec fn spaces(n: nat) -> Seq<char> {
    Seq::new(n, |i: int| ' ')
}

/// `s` with spaces behind it up to a width of `width` characters.
pub open spec fn left_aligned(s: Seq<char>, width: nat) -> Seq<char> {
    if s.len() < width {
        s + spaces((width - s.len()) as nat)
    } else {
        s
    }
}

/// `s` with spaces in front of it up to a width of `width` characters.
pub open spec fn right_aligned(s: Seq<char>, width: nat) -> Seq<char> {
    if s.len() < width {
        spaces((width - s.len()) as nat) + s
    } else {
        s
    }
}

fn push_spaces(out: &mut String, n: usize)
    ensures
        final(out)@ == old(out)@ + spaces(n as nat),
{
    let mut i: usize = 0;
    let ghost before = out@;
    while i < n
        invariant
            i <= n,
            out@ =~= before + spaces(i as nat),
        decreases n - i,
    {
        out.push(' ');
        i += 1;
    }
    assert(out@ =~= before + spaces(n as nat));
}

/// Appends `s`, padded on the right to `width` characters.
pub fn push_left_aligned(out: &mut String, s: &str, width: usize)
    ensures
        final(out)@ == old(out)@ + left_aligned(s@, width as nat),
{
    let ghost before = out@;
    let len = s.unicode_len();
    out.append(s);
    if len < width {
        push_spaces(out, width - len);
    }
    assert(out@ =~= before + left_aligned(s@, width as nat));
}

/// Appends `s`, padded on the left to `width` characters.
pub fn push_right_aligned(out: &mut String, s: &str, width: usize)
    ensures
        final(out)@ == old(out)@ + right_aligned(s@, width as nat),
{
    let ghost before = out@;
    let len = s.unicode_len();
    if len < width {
        push_spaces(out, width - len);
    }
    out.append(s);
    assert(out@ =~= before + right_aligned(s@, width as nat));
}

} // verus!
