//! Character sequences: the primitives that command templates are read with.
//!
//! Every function here is stated over `Seq<char>`, the view of `str`, `String`
//! and `[char]`. The executable functions work on `[char]`, which can be
//! indexed in constant time; [`to_chars`] and [`from_chars`] convert at the
//! edges.

use vstd::prelude::*;

verus! {

/// `String::push` appends one character and changes nothing else.
pub assume_specification[ String::push ](s: &mut String, c: char)
    ensures
        final(s)@ == old(s)@.push(c),
;

/// Whether `c` has the Unicode property `White_Space`.
pub open spec fn white_space(c: char) -> bool {
    let n = c as u32;
    ||| 0x0009 <= n <= 0x000D
    ||| n == 0x0020
    ||| n == 0x0085
    ||| n == 0x00A0
    ||| n == 0x1680
    ||| 0x2000 <= n <= 0x200A
    ||| n == 0x2028
    ||| n == 0x2029
    ||| n == 0x202F
    ||| n == 0x205F
    ||| n == 0x3000
}

/// The length of the longest prefix of `s` that holds no white space.
pub open spec fn word_len(s: Seq<char>) -> nat
    decreases s.len(),
{
    if s.len() == 0 || white_space(s[0]) {
        0
    } else {
        1 + word_len(s.skip(1))
    }
}

/// The words of `s`: its maximal runs of characters that are not white space,
/// from left to right.
pub open spec fn words(s: Seq<char>) -> Seq<Seq<char>>
    decreases s.len(),
    via words_decreases
{
    if s.len() == 0 {
        Seq::empty()
    } else if white_space(s[0]) {
        words(s.skip(1))
    } else {
        seq![s.take(word_len(s) as int)] + words(s.skip(word_len(s) as int))
    }
}

#[via_fn]
proof fn words_decreases(s: Seq<char>) {
    lemma_word_len_bounds(s);
}

/// The length of the longest prefix of `s` that does not hold `sep`.
pub open spec fn piece_len(s: Seq<char>, sep: char) -> nat
    decreases s.len(),
{
    if s.len() == 0 || s[0] == sep {
        0
    } else {
        1 + piece_len(s.skip(1), sep)
    }
}

/// The pieces that `sep` cuts `s` into, from left to right. There is one more
/// piece than `s` holds separators, so a piece may be empty.
pub open spec fn pieces(s: Seq<char>, sep: char) -> Seq<Seq<char>>
    decreases s.len(),
    via pieces_decreases
{
    if piece_len(s, sep) >= s.len() {
        seq![s]
    } else {
        seq![s.take(piece_len(s, sep) as int)] + pieces(s.skip(piece_len(s, sep) as int + 1), sep)
    }
}

#[via_fn]
proof fn pieces_decreases(s: Seq<char>, sep: char) {
    lemma_piece_len_bounds(s, sep);
}

/// The escape `%` followed by `code` stands in `s` at index `i`.
pub open spec fn escape_at(s: Seq<char>, code: char, i: int) -> bool {
    0 <= i && i + 1 < s.len() && s[i] == '%' && s[i + 1] == code
}

/// The escape `%` followed by `code` stands somewhere in `s`.
pub open spec fn has_escape(s: Seq<char>, code: char) -> bool {
    exists|i: int| escape_at(s, code, i)
}

/// `s` with every escape `%` followed by `code` replaced by `with`. Escapes are
/// found from left to right, and the search goes on behind each one that was
/// found: what `with` brings in is not searched.
pub open spec fn substituted(s: Seq<char>, code: char, with: Seq<char>) -> Seq<char>
    decreases s.len(),
{
    if s.len() == 0 {
        s
    } else if escape_at(s, code, 0) {
        with + substituted(s.skip(2), code, with)
    } else {
        seq![s[0]] + substituted(s.skip(1), code, with)
    }
}

/// The character sequences that the rows of `v` hold.
pub open spec fn rows(v: Seq<Vec<char>>) -> Seq<Seq<char>> {
    Seq::new(v.len(), |i: int| v[i]@)
}

/// A word is never longer than the sequence it starts, it ends at white space
/// or at the end, and it holds no white space.
pub proof fn lemma_word_len_bounds(s: Seq<char>)
    ensures
        word_len(s) <= s.len(),
        word_len(s) < s.len() ==> white_space(s[word_len(s) as int]),
        forall|i: int| 0 <= i < word_len(s) ==> !white_space(#[trigger] s[i]),
    decreases s.len(),
{
    if s.len() == 0 || white_space(s[0]) {
    } else {
        let rest = s.skip(1);
        lemma_word_len_bounds(rest);
        assert forall|i: int| 0 <= i < word_len(s) implies !white_space(#[trigger] s[i]) by {
            if i > 0 {
                assert(s[i] == rest[i - 1]);
            }
        }
    }
}

/// A piece is never longer than the sequence it starts, it ends at a separator
/// or at the end, and it holds no separator.
pub proof fn lemma_piece_len_bounds(s: Seq<char>, sep: char)
    ensures
        piece_len(s, sep) <= s.len(),
        piece_len(s, sep) < s.len() ==> s[piece_len(s, sep) as int] == sep,
        forall|i: int| 0 <= i < piece_len(s, sep) ==> #[trigger] s[i] != sep,
    decreases s.len(),
{
    if s.len() == 0 || s[0] == sep {
    } else {
        let rest = s.skip(1);
        lemma_piece_len_bounds(rest, sep);
        assert forall|i: int| 0 <= i < piece_len(s, sep) implies #[trigger] s[i] != sep by {
            if i > 0 {
                assert(s[i] == rest[i - 1]);
            }
        }
    }
}

/// A sequence that holds no white space is one word from end to end.
pub proof fn lemma_word_len_of_word(s: Seq<char>)
    requires
        forall|i: int| 0 <= i < s.len() ==> !white_space(#[trigger] s[i]),
    ensures
        word_len(s) == s.len(),
    decreases s.len(),
{
    if s.len() > 0 {
        lemma_word_len_of_word(s.skip(1));
    }
}

/// The word that starts `a + b` ends where the word that starts `a` ends,
/// unless that word reaches the end of `a`: then it runs on into `b`.
pub proof fn lemma_word_len_concat(a: Seq<char>, b: Seq<char>)
    ensures
        word_len(a + b) == if word_len(a) < a.len() {
            word_len(a)
        } else {
            a.len() + word_len(b)
        },
    decreases a.len(),
{
    lemma_word_len_bounds(a);
    if a.len() > 0 && !white_space(a[0]) {
        assert((a + b).skip(1) =~= a.skip(1) + b);
        lemma_word_len_concat(a.skip(1), b);
        lemma_word_len_bounds(a.skip(1));
    }
}

/// A sequence that is not empty and holds no white space is its own only word.
pub proof fn lemma_words_of_word(s: Seq<char>)
    requires
        s.len() > 0,
        forall|i: int| 0 <= i < s.len() ==> !white_space(#[trigger] s[i]),
    ensures
        words(s) == seq![s],
{
    lemma_word_len_of_word(s);
    assert(s.take(s.len() as int) =~= s);
    assert(s.skip(s.len() as int) =~= Seq::<char>::empty());
    assert(words(Seq::<char>::empty()) =~= Seq::<Seq<char>>::empty());
}

/// Where white space or an end parts `a` from `b`, the words of `a + b` are
/// those of `a` followed by those of `b`.
pub proof fn lemma_words_concat(a: Seq<char>, b: Seq<char>)
    requires
        a.len() == 0 || b.len() == 0 || white_space(a.last()) || white_space(b[0]),
    ensures
        words(a + b) == words(a) + words(b),
    decreases a.len(),
{
    if a.len() == 0 || b.len() == 0 {
    } else if white_space(a[0]) {
        assert((a + b).skip(1) =~= a.skip(1) + b);
        lemma_words_concat(a.skip(1), b);
    } else {
        let n = word_len(a) as int;
        lemma_word_len_bounds(a);
        lemma_word_len_concat(a, b);
        assert((a + b).take(n) =~= a.take(n));
        assert((a + b).skip(n) =~= a.skip(n) + b);
        lemma_words_concat(a.skip(n), b);
    }
}

/// Every word holds a character, and none of its characters is white space.
pub proof fn lemma_words_are_words(s: Seq<char>)
    ensures
        forall|k: int| 0 <= k < words(s).len() ==> (#[trigger] words(s)[k]).len() > 0,
        forall|k: int, i: int|
            0 <= k < words(s).len() && 0 <= i < words(s)[k].len() ==> !white_space(
                #[trigger] words(s)[k][i],
            ),
    decreases s.len(),
{
    if s.len() == 0 {
    } else if white_space(s[0]) {
        lemma_words_are_words(s.skip(1));
        assert(words(s) == words(s.skip(1)));
    } else {
        let n = word_len(s) as int;
        lemma_word_len_bounds(s);
        lemma_words_are_words(s.skip(n));
        assert(words(s) == seq![s.take(n)] + words(s.skip(n)));
    }
}

/// A sequence that holds no separator is one piece from end to end.
pub proof fn lemma_piece_len_of_piece(s: Seq<char>, sep: char)
    requires
        !s.contains(sep),
    ensures
        piece_len(s, sep) == s.len(),
    decreases s.len(),
{
    if s.len() > 0 {
        lemma_piece_len_of_piece(s.skip(1), sep);
    }
}

/// The piece that starts `a + b` ends where the piece that starts `a` ends,
/// unless that piece reaches the end of `a`: then it runs on into `b`.
pub proof fn lemma_piece_len_concat(a: Seq<char>, b: Seq<char>, sep: char)
    ensures
        piece_len(a + b, sep) == if piece_len(a, sep) < a.len() {
            piece_len(a, sep)
        } else {
            a.len() + piece_len(b, sep)
        },
    decreases a.len(),
{
    lemma_piece_len_bounds(a, sep);
    if a.len() > 0 && a[0] != sep {
        assert((a + b).skip(1) =~= a.skip(1) + b);
        lemma_piece_len_concat(a.skip(1), b, sep);
        lemma_piece_len_bounds(a.skip(1), sep);
    }
}

/// A text without a separator is its own only piece. Before the first
/// separator stands the first piece, and the pieces of what follows that
/// separator come after it.
pub proof fn lemma_pieces_after_first(first: Seq<char>, rest: Seq<char>, sep: char)
    requires
        !first.contains(sep),
    ensures
        pieces(first, sep) == seq![first],
        pieces(first + seq![sep] + rest, sep) == seq![first] + pieces(rest, sep),
{
    let s = first + seq![sep] + rest;
    lemma_piece_len_of_piece(first, sep);
    lemma_piece_len_concat(first, seq![sep] + rest, sep);
    assert(s =~= first + (seq![sep] + rest));
    assert(s.take(first.len() as int) =~= first);
    assert(s.skip(first.len() as int + 1) =~= rest);
}

/// There is at least one piece, and no piece holds the separator.
pub proof fn law_pieces_hold_no_separator(s: Seq<char>, sep: char)
    ensures
        pieces(s, sep).len() >= 1,
        forall|k: int| 0 <= k < pieces(s, sep).len() ==> !(#[trigger] pieces(s, sep)[k]).contains(sep),
    decreases s.len(),
{
    let n = piece_len(s, sep) as int;
    lemma_piece_len_bounds(s, sep);
    if n < s.len() {
        law_pieces_hold_no_separator(s.skip(n + 1), sep);
        assert(pieces(s, sep) == seq![s.take(n)] + pieces(s.skip(n + 1), sep));
    }
}

/// Where no escape stands, nothing is replaced.
pub proof fn lemma_substituted_without_escape(s: Seq<char>, code: char, with: Seq<char>)
    requires
        !has_escape(s, code),
    ensures
        substituted(s, code, with) == s,
    decreases s.len(),
{
    if s.len() > 0 {
        let rest = s.skip(1);
        assert forall|i: int| !escape_at(rest, code, i) by {
            if escape_at(rest, code, i) {
                assert(escape_at(s, code, i + 1));
            }
        }
        lemma_substituted_without_escape(rest, code, with);
    }
}

/// The first escape is replaced where it stands: what comes before it stays,
/// and what comes behind it is searched on.
pub proof fn lemma_substituted_at_first_escape(
    before: Seq<char>,
    behind: Seq<char>,
    code: char,
    with: Seq<char>,
)
    requires
        !has_escape(before + seq!['%'], code),
    ensures
        substituted(before + seq!['%', code] + behind, code, with) == before + with + substituted(
            behind,
            code,
            with,
        ),
    decreases before.len(),
{
    let s = before + seq!['%', code] + behind;
    if before.len() == 0 {
        assert(s.skip(2) =~= behind);
    } else {
        let rest = before.skip(1);
        if escape_at(s, code, 0) {
            assert(escape_at(before + seq!['%'], code, 0));
        }
        assert forall|i: int| !escape_at(rest + seq!['%'], code, i) by {
            if escape_at(rest + seq!['%'], code, i) {
                assert(escape_at(before + seq!['%'], code, i + 1));
            }
        }
        assert(s.skip(1) =~= rest + seq!['%', code] + behind);
        lemma_substituted_at_first_escape(rest, behind, code, with);
    }
}

/// Whether `c` is white space, as `char::is_whitespace` tells it.
pub fn is_whitespace(c: char) -> (r: bool)
    ensures
        r == white_space(c),
{
    let n: u32 = c as u32;
    (0x0009 <= n && n <= 0x000D) || n == 0x0020 || n == 0x0085 || n == 0x00A0 || n == 0x1680 || (
    0x2000 <= n && n <= 0x200A) || n == 0x2028 || n == 0x2029 || n == 0x202F || n == 0x205F || n
        == 0x3000
}

/// The characters of `s`, in order.
pub fn to_chars(s: &str) -> (out: Vec<char>)
    ensures
        out@ == s@,
{
    let mut out: Vec<char> = Vec::new();
    for c in it: s.chars()
        invariant
            out@ == it.seq().take(it.index()),
            it.seq() == s@,
    {
        out.push(c);
    }
    out
}

/// The string that holds the characters of `chars`, in order.
pub fn from_chars(chars: &[char]) -> (out: String)
    ensures
        out@ == chars@,
{
    let mut out = String::new();
    let mut i: usize = 0;
    while i < chars.len()
        invariant
            i <= chars.len(),
            out@ == chars@.take(i as int),
        decreases chars.len() - i,
    {
        out.push(chars[i]);
        i += 1;
    }
    out
}

/// A copy of the characters of `text` from index `from` up to, not including,
/// index `to`.
fn copy_range(text: &[char], from: usize, to: usize) -> (out: Vec<char>)
    requires
        from <= to <= text.len(),
    ensures
        out@ == text@.subrange(from as int, to as int),
{
    let mut out: Vec<char> = Vec::new();
    let mut i: usize = from;
    while i < to
        invariant
            from <= i <= to <= text.len(),
            out@ == text@.subrange(from as int, i as int),
        decreases to - i,
    {
        out.push(text[i]);
        i += 1;
    }
    out
}

/// Whether `text` ends with `suffix`.
pub fn ends_with(text: &[char], suffix: &[char]) -> (r: bool)
    ensures
        r == suffix@.is_suffix_of(text@),
{
    let n = text.len();
    let m = suffix.len();
    if m > n {
        return false;
    }
    let base = n - m;
    let mut i: usize = 0;
    while i < m
        invariant
            i <= m,
            m == suffix.len(),
            n == text.len(),
            base + m == n,
            forall|j: int| 0 <= j < i ==> suffix@[j] == text@[base + j],
        decreases m - i,
    {
        if suffix[i] != text[base + i] {
            return false;
        }
        i += 1;
    }
    true
}

/// Whether the escape `%` followed by `code` stands somewhere in `text`.
pub fn contains_escape(text: &[char], code: char) -> (found: bool)
    ensures
        found == has_escape(text@, code),
{
    let n = text.len();
    let mut i: usize = 1;
    while i < n
        invariant
            1 <= i,
            n == text.len(),
            forall|j: int| 0 <= j < i - 1 ==> !escape_at(text@, code, j),
        decreases n - i,
    {
        if text[i - 1] == '%' && text[i] == code {
            assert(escape_at(text@, code, i - 1));
            return true;
        }
        i += 1;
    }
    false
}

/// `text` with every escape `%` followed by `code` replaced by `with`, as
/// `str::replace` does it for the two characters of the escape.
pub fn substitute(text: &[char], code: char, with: &[char]) -> (out: Vec<char>)
    ensures
        out@ == substituted(text@, code, with@),
{
    let n = text.len();
    let mut out: Vec<char> = Vec::new();
    let mut i: usize = 0;
    assert(text@.skip(0) =~= text@);
    while i < n
        invariant
            i <= n,
            n == text.len(),
            out@ + substituted(text@.skip(i as int), code, with@) == substituted(
                text@,
                code,
                with@,
            ),
        decreases n - i,
    {
        let ghost rest = text@.skip(i as int);
        if text[i] == '%' && i + 1 < n && text[i + 1] == code {
            out.extend_from_slice(with);
            i += 2;
            assert(rest.skip(2) =~= text@.skip(i as int));
        } else {
            out.push(text[i]);
            i += 1;
            assert(rest.skip(1) =~= text@.skip(i as int));
        }
    }
    out
}

/// The words of `text`, as `str::split_whitespace` yields them.
pub fn split_words(text: &[char]) -> (out: Vec<Vec<char>>)
    ensures
        rows(out@) == words(text@),
{
    let n = text.len();
    let mut out: Vec<Vec<char>> = Vec::new();
    let mut i: usize = 0;
    assert(text@.skip(0) =~= text@);
    while i < n
        invariant
            i <= n,
            n == text.len(),
            rows(out@) + words(text@.skip(i as int)) == words(text@),
        decreases n - i,
    {
        let ghost rest = text@.skip(i as int);
        if is_whitespace(text[i]) {
            i += 1;
            assert(rest.skip(1) =~= text@.skip(i as int));
        } else {
            let start = i;
            let mut end: usize = i;
            while end < n && !is_whitespace(text[end])
                invariant
                    start <= end <= n,
                    n == text.len(),
                    word_len(text@.skip(start as int)) == (end - start) + word_len(
                        text@.skip(end as int),
                    ),
                decreases n - end,
            {
                assert(text@.skip(end as int).skip(1) =~= text@.skip(end + 1));
                end += 1;
            }
            let word = copy_range(text, start, end);
            out.push(word);
            i = end;
            assert(rest.take(word_len(rest) as int) =~= word@);
            assert(rest.skip(word_len(rest) as int) =~= text@.skip(i as int));
        }
    }
    out
}

/// The pieces that `sep` cuts `text` into, as `str::split` yields them for a
/// separator of one character.
pub fn split_on(text: &[char], sep: char) -> (out: Vec<Vec<char>>)
    ensures
        rows(out@) == pieces(text@, sep),
{
    let n = text.len();
    let mut out: Vec<Vec<char>> = Vec::new();
    let mut start: usize = 0;
    let mut end: usize = 0;
    assert(text@.skip(0) =~= text@);
    while end < n
        invariant
            start <= end <= n,
            n == text.len(),
            rows(out@) + pieces(text@.skip(start as int), sep) == pieces(text@, sep),
            piece_len(text@.skip(start as int), sep) == (end - start) + piece_len(
                text@.skip(end as int),
                sep,
            ),
        decreases n - end,
    {
        let ghost rest = text@.skip(start as int);
        if text[end] == sep {
            let piece = copy_range(text, start, end);
            out.push(piece);
            assert(rest.take(piece_len(rest, sep) as int) =~= piece@);
            assert(rest.skip(piece_len(rest, sep) as int + 1) =~= text@.skip(end + 1));
            end += 1;
            start = end;
        } else {
            assert(text@.skip(end as int).skip(1) =~= text@.skip(end + 1));
            end += 1;
        }
    }
    let piece = copy_range(text, start, n);
    out.push(piece);
    out
}

} // verus!
