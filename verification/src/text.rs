//! Text as sequences of characters: slices, words, lines, numbers and order.

use vstd::prelude::*;

verus! {

/// `String::push` appends one character at the end.
pub assume_specification[ std::string::String::push ](s: &mut std::string::String, c: char)
    ensures
        final(s)@ == old(s)@.push(c),
;

/// `str`'s `==` compares two texts character by character.
#[verifier::external_body]
pub(crate) fn same(a: &str, b: &str) -> (equal: bool)
    ensures
        equal == (a@ == b@),
{
    a == b
}

/// The characters with the Unicode property `White_Space`, which `char::is_whitespace` tells.
pub open spec fn white_space(c: char) -> bool {
    ||| c == ' '
    ||| 0x09 <= c as u32 <= 0x0d
    ||| c as u32 == 0x85
    ||| c as u32 == 0xa0
    ||| c as u32 == 0x1680
    ||| 0x2000 <= c as u32 <= 0x200a
    ||| c as u32 == 0x2028
    ||| c as u32 == 0x2029
    ||| c as u32 == 0x202f
    ||| c as u32 == 0x205f
    ||| c as u32 == 0x3000
}

/// Whether `c` is white space.
pub fn is_white_space(c: char) -> (space: bool)
    ensures
        space == white_space(c),
{
    let code: u32 = c as u32;
    if code <= 0x7f {
        c == ' ' || (0x09 <= code && code <= 0x0d)
    } else {
        code == 0x85 || code == 0xa0 || code == 0x1680 || (0x2000 <= code && code <= 0x200a) || code
            == 0x2028 || code == 0x2029 || code == 0x202f || code == 0x205f || code == 0x3000
    }
}

/// Whether `char::is_control` counts `c` as a control character.
pub open spec fn control(c: char) -> bool {
    c as u32 <= 0x1f || 0x7f <= c as u32 <= 0x9f
}

/// `char::is_control`: the Unicode category `Cc`.
pub(crate) fn is_control(c: char) -> (yes: bool)
    ensures
        yes == control(c),
{
    c as u32 <= 0x1f || (0x7f <= c as u32 && c as u32 <= 0x9f)
}

/// The printable ASCII characters without the space.
pub open spec fn ascii_graphic(c: char) -> bool {
    0x21 <= c as u32 <= 0x7e
}

/// The hexadecimal digits of either case.
pub open spec fn hex_digit(c: char) -> bool {
    0x30 <= c as u32 <= 0x39 || 0x41 <= c as u32 <= 0x46 || 0x61 <= c as u32 <= 0x66
}

/// `c` with an ASCII capital turned into its small letter.
pub open spec fn lower(c: char) -> char {
    if 0x41 <= c as u32 <= 0x5a {
        (c as u32 + 0x20) as char
    } else {
        c
    }
}

/// `s` with its ASCII capitals turned into small letters.
pub open spec fn lowered(s: Seq<char>) -> Seq<char> {
    s.map_values(|c: char| lower(c))
}

/// The number of bytes of the UTF-8 form of `s`.
pub open spec fn byte_len(s: Seq<char>) -> usize {
    vstd::utf8::encode_utf8(s).len() as usize
}

/// A text has no more characters than its UTF-8 form has bytes.
pub proof fn lemma_chars_and_bytes(s: Seq<char>)
    ensures
        s.len() <= vstd::utf8::encode_utf8(s).len(),
    decreases s.len(),
{
    if s.len() > 0 {
        lemma_chars_and_bytes(s.drop_first());
    }
}

/// The characters of `s`.
pub fn chars_of(s: &str) -> (chars: Vec<char>)
    ensures
        chars@ == s@,
{
    let mut chars: Vec<char> = Vec::new();
    for c in it: s.chars()
        invariant
            it.seq() == s@,
            chars@ == s@.take(it.index()),
    {
        chars.push(c);
    }
    assert(s@.take(s@.len() as int) =~= s@);
    chars
}

/// The text made of `chars[from..to]`.
pub fn text_of(chars: &Vec<char>, from: usize, to: usize) -> (s: String)
    requires
        from <= to <= chars@.len(),
    ensures
        s@ == chars@.subrange(from as int, to as int),
{
    let mut s = String::new();
    let mut i: usize = from;
    while i < to
        invariant
            from <= i <= to <= chars@.len(),
            s@ == chars@.subrange(from as int, i as int),
        decreases to - i,
    {
        s.push(chars[i]);
        i = i + 1;
        assert(chars@.subrange(from as int, i as int) =~= chars@.subrange(
            from as int,
            i - 1,
        ).push(chars@[i - 1]));
    }
    s
}

/// The text holding the one character `c`.
pub fn char_text(c: char) -> (s: String)
    ensures
        s@ == seq![c],
{
    let mut s = String::new();
    s.push(c);
    assert(s@ =~= seq![c]);
    s
}

/// The text of `n` copies of `c`.
pub open spec fn repeated(c: char, n: nat) -> Seq<char> {
    Seq::new(n, |i: int| c)
}

/// `n` copies of `c`.
pub fn repeat_char(c: char, n: usize) -> (s: String)
    ensures
        s@ == repeated(c, n as nat),
{
    let mut s = String::new();
    let mut i: usize = 0;
    while i < n
        invariant
            i <= n,
            s@ =~= repeated(c, i as nat),
        decreases n - i,
    {
        s.push(c);
        i = i + 1;
    }
    s
}

/// Whether `s` begins with `prefix`.
pub fn starts_with(s: &str, prefix: &str) -> (yes: bool)
    ensures
        yes == prefix@.is_prefix_of(s@),
{
    let a = chars_of(s);
    let b = chars_of(prefix);
    if b.len() > a.len() {
        return false;
    }
    matches_at(&a, 0, &b)
}

/// Whether `pattern` stands in `text` at position `at`.
pub open spec fn stands_at(text: Seq<char>, at: int, pattern: Seq<char>) -> bool {
    0 <= at && at + pattern.len() <= text.len() && text.subrange(at, at + pattern.len()) == pattern
}

/// Whether `pattern` stands somewhere in `text`.
pub open spec fn holds_text(text: Seq<char>, pattern: Seq<char>) -> bool {
    exists|at: int| #[trigger] stands_at(text, at, pattern)
}

fn matches_at(text: &Vec<char>, at: usize, pattern: &Vec<char>) -> (yes: bool)
    requires
        at + pattern@.len() <= text@.len(),
    ensures
        yes == stands_at(text@, at as int, pattern@),
        at == 0 ==> yes == pattern@.is_prefix_of(text@),
{
    let n: usize = text.len();
    let mut i: usize = 0;
    while i < pattern.len()
        invariant
            i <= pattern@.len(),
            n == text@.len(),
            at + pattern@.len() <= n,
            forall|j: int| 0 <= j < i ==> text@[at + j] == pattern@[j],
        decreases pattern@.len() - i,
    {
        if text[at + i] != pattern[i] {
            assert(text@.subrange(at as int, at + pattern@.len())[i as int] != pattern@[i as int]);
            return false;
        }
        i = i + 1;
    }
    assert(text@.subrange(at as int, at + pattern@.len()) =~= pattern@);
    true
}

/// `str::contains` for a text pattern.
pub fn contains(s: &str, pattern: &str) -> (yes: bool)
    ensures
        yes == holds_text(s@, pattern@),
{
    let a = chars_of(s);
    let b = chars_of(pattern);
    if b.len() > a.len() {
        return false;
    }
    let mut i: usize = 0;
    while i <= a.len() - b.len()
        invariant
            b@.len() <= a@.len(),
            a@ == s@,
            b@ == pattern@,
            i <= a@.len() - b@.len() + 1,
            forall|j: int| 0 <= j < i ==> !stands_at(a@, j, b@),
        decreases a@.len() + 1 - i,
    {
        if matches_at(&a, i, &b) {
            return true;
        }
        if i == a.len() - b.len() {
            return false;
        }
        i = i + 1;
    }
    false
}

/// Whether `c` stands in `s`.
pub fn contains_char(s: &str, c: char) -> (yes: bool)
    ensures
        yes == s@.contains(c),
{
    let a = chars_of(s);
    let mut i: usize = 0;
    while i < a.len()
        invariant
            i <= a@.len(),
            a@ == s@,
            forall|j: int| 0 <= j < i ==> a@[j] != c,
        decreases a@.len() - i,
    {
        if a[i] == c {
            return true;
        }
        i = i + 1;
    }
    false
}

/// `s` without the white space at its beginning.
pub open spec fn trim_start(s: Seq<char>) -> Seq<char>
    decreases s.len(),
{
    if s.len() > 0 && white_space(s[0]) {
        trim_start(s.drop_first())
    } else {
        s
    }
}

/// `s` without the white space at its end.
pub open spec fn trim_end(s: Seq<char>) -> Seq<char>
    decreases s.len(),
{
    if s.len() > 0 && white_space(s.last()) {
        trim_end(s.drop_last())
    } else {
        s
    }
}

/// `s` without the white space at either end.
pub open spec fn trimmed(s: Seq<char>) -> Seq<char> {
    trim_end(trim_start(s))
}

proof fn lemma_trim_start(s: Seq<char>, n: int)
    requires
        0 <= n <= s.len(),
        forall|i: int| 0 <= i < n ==> white_space(#[trigger] s[i]),
        n < s.len() ==> !white_space(s[n]),
    ensures
        trim_start(s) == s.skip(n),
    decreases n,
{
    if n > 0 {
        let t = s.drop_first();
        assert(white_space(s[0]));
        assert forall|i: int| 0 <= i < n - 1 implies white_space(#[trigger] t[i]) by {
            assert(t[i] == s[i + 1]);
        }
        lemma_trim_start(t, n - 1);
        assert(t.skip(n - 1) =~= s.skip(n));
    } else {
        assert(s.skip(0) =~= s);
    }
}

proof fn lemma_trim_end(s: Seq<char>, n: int)
    requires
        0 <= n <= s.len(),
        forall|i: int| n <= i < s.len() ==> white_space(#[trigger] s[i]),
        n > 0 ==> !white_space(s[n - 1]),
    ensures
        trim_end(s) == s.take(n),
    decreases s.len() - n,
{
    if n < s.len() {
        assert(white_space(s[s.len() - 1]));
        lemma_trim_end(s.drop_last(), n);
        assert(s.drop_last().take(n) =~= s.take(n));
    } else {
        assert(s.take(n) =~= s);
    }
}

/// `str::trim`: the part of `s` between the white space at its ends.
pub fn trim<'a>(s: &'a str) -> (inner: &'a str)
    ensures
        inner@ == trimmed(s@),
{
    let a = chars_of(s);
    let n: usize = a.len();
    let mut from: usize = 0;
    while from < n && is_white_space(a[from])
        invariant
            n == a@.len(),
            from <= n,
            forall|i: int| 0 <= i < from ==> white_space(#[trigger] a@[i]),
        ensures
            from <= n,
            forall|i: int| 0 <= i < from ==> white_space(#[trigger] a@[i]),
            from < n ==> !white_space(a@[from as int]),
        decreases n - from,
    {
        from = from + 1;
    }
    let mut to: usize = n;
    while to > from && is_white_space(a[to - 1])
        invariant
            n == a@.len(),
            from <= to <= n,
            forall|i: int| to <= i < n ==> white_space(#[trigger] a@[i]),
        ensures
            from <= to <= n,
            forall|i: int| to <= i < n ==> white_space(#[trigger] a@[i]),
            to > from ==> !white_space(a@[to - 1]),
        decreases to,
    {
        to = to - 1;
    }
    proof {
        lemma_trim_start(s@, from as int);
        let t = s@.skip(from as int);
        assert forall|i: int| to - from <= i < t.len() implies white_space(#[trigger] t[i]) by {
            assert(t[i] == a@[i + from]);
        }
        lemma_trim_end(t, to - from);
        assert(t.take(to - from) =~= s@.subrange(from as int, to as int));
    }
    s.substring_char(from, to)
}

/// The place of the first `c` in `s`, or the length of `s` where there is none.
pub open spec fn first_at(s: Seq<char>, c: char) -> int
    decreases s.len(),
{
    if s.len() == 0 || s[0] == c {
        0
    } else {
        1 + first_at(s.drop_first(), c)
    }
}

/// The place of the last `c` in `s`, or -1 where there is none.
pub open spec fn last_at(s: Seq<char>, c: char) -> int
    decreases s.len(),
{
    if s.len() == 0 {
        -1
    } else if s.last() == c {
        s.len() - 1
    } else {
        last_at(s.drop_last(), c)
    }
}

/// What [`first_at`] is.
pub proof fn lemma_first_at(s: Seq<char>, c: char, n: int)
    requires
        0 <= n <= s.len(),
        forall|i: int| 0 <= i < n ==> #[trigger] s[i] != c,
        n < s.len() ==> s[n] == c,
    ensures
        first_at(s, c) == n,
    decreases n,
{
    if n > 0 {
        assert(s[0] != c);
        let t = s.drop_first();
        assert forall|i: int| 0 <= i < n - 1 implies #[trigger] t[i] != c by {
            assert(t[i] == s[i + 1]);
        }
        lemma_first_at(t, c, n - 1);
    }
}

/// There is no `c` before [`first_at`], and one there, where it stands within the text.
pub proof fn lemma_first_at_is(s: Seq<char>, c: char)
    ensures
        0 <= first_at(s, c) <= s.len(),
        first_at(s, c) < s.len() ==> s[first_at(s, c)] == c,
        forall|i: int| 0 <= i < first_at(s, c) ==> #[trigger] s[i] != c,
    decreases s.len(),
{
    if s.len() > 0 && s[0] != c {
        let t = s.drop_first();
        lemma_first_at_is(t, c);
        assert forall|i: int| 0 <= i < first_at(s, c) implies #[trigger] s[i] != c by {
            if i > 0 {
                assert(t[i - 1] == s[i]);
            }
        }
    }
}

/// [`first_at`] stays within the text.
pub proof fn lemma_first_at_bounds(s: Seq<char>, c: char)
    ensures
        0 <= first_at(s, c) <= s.len(),
    decreases s.len(),
{
    if s.len() > 0 && s[0] != c {
        lemma_first_at_bounds(s.drop_first(), c);
    }
}

/// What [`last_at`] is.
pub proof fn lemma_last_at(s: Seq<char>, c: char, n: int)
    requires
        -1 <= n < s.len(),
        forall|i: int| n < i < s.len() ==> #[trigger] s[i] != c,
        n >= 0 ==> s[n] == c,
    ensures
        last_at(s, c) == n,
    decreases s.len(),
{
    if n < s.len() - 1 {
        assert(s[s.len() - 1] != c);
        lemma_last_at(s.drop_last(), c, n);
    }
}

fn find_first(a: &Vec<char>, start: usize, c: char) -> (at: usize)
    requires
        start <= a@.len(),
    ensures
        start <= at <= a@.len(),
        at - start == first_at(a@.skip(start as int), c),
        at < a@.len() ==> a@[at as int] == c,
        forall|i: int| start <= i < at ==> #[trigger] a@[i] != c,
{
    let mut at: usize = start;
    while at < a.len() && a[at] != c
        invariant
            start <= at <= a@.len(),
            forall|i: int| start <= i < at ==> #[trigger] a@[i] != c,
        ensures
            start <= at <= a@.len(),
            forall|i: int| start <= i < at ==> #[trigger] a@[i] != c,
            at < a@.len() ==> a@[at as int] == c,
        decreases a@.len() - at,
    {
        at = at + 1;
    }
    proof {
        let t = a@.skip(start as int);
        assert forall|i: int| 0 <= i < at - start implies #[trigger] t[i] != c by {
            assert(t[i] == a@[i + start]);
        }
        lemma_first_at(t, c, at - start);
    }
    at
}

/// `str::split_once` at a character: what stands before and after the first `c`.
pub fn split_once<'a>(s: &'a str, c: char) -> (parts: Option<(&'a str, &'a str)>)
    ensures
        parts is Some <==> first_at(s@, c) < s@.len(),
        parts matches Some(p) ==> p.0@ == s@.take(first_at(s@, c)) && p.1@ == s@.skip(
            first_at(s@, c) + 1,
        ),
{
    let a = chars_of(s);
    let at: usize = find_first(&a, 0, c);
    assert(a@.skip(0) =~= s@);
    if at == a.len() {
        return None;
    }
    assert(s@.subrange(0, at as int) =~= s@.take(at as int));
    assert(s@.subrange(at + 1, s@.len() as int) =~= s@.skip(at + 1));
    Some((s.substring_char(0, at), s.substring_char(at + 1, a.len())))
}

/// `str::rsplit_once` at a character: what stands before and after the last `c`.
pub fn rsplit_once<'a>(s: &'a str, c: char) -> (parts: Option<(&'a str, &'a str)>)
    ensures
        parts is None ==> last_at(s@, c) == -1,
        parts is Some <==> last_at(s@, c) >= 0,
        parts matches Some(p) ==> p.0@ == s@.take(last_at(s@, c)) && p.1@ == s@.skip(
            last_at(s@, c) + 1,
        ),
{
    let a = chars_of(s);
    let n: usize = a.len();
    let mut at: usize = n;
    while at > 0
        invariant
            n == a@.len(),
            a@ == s@,
            at <= n,
            forall|i: int| at <= i < n ==> #[trigger] a@[i] != c,
        decreases at,
    {
        at = at - 1;
        if a[at] == c {
            proof {
                lemma_last_at(s@, c, at as int);
                assert(s@.subrange(0, at as int) =~= s@.take(at as int));
                assert(s@.subrange(at + 1, s@.len() as int) =~= s@.skip(at + 1));
            }
            return Some((s.substring_char(0, at), s.substring_char(at + 1, n)));
        }
    }
    proof {
        lemma_last_at(s@, c, -1);
    }
    None
}

/// `str::split` at a character: the pieces between the `c`s.
pub open spec fn pieces(s: Seq<char>, c: char) -> Seq<Seq<char>>
    decreases s.len(),
{
    let at = first_at(s, c);
    if 0 <= at < s.len() {
        seq![s.take(at)] + pieces(s.skip(at + 1), c)
    } else {
        seq![s]
    }
}

/// Whether `c` is nowhere in `s`.
pub open spec fn free_of(s: Seq<char>, c: char) -> bool {
    forall|i: int| 0 <= i < s.len() ==> #[trigger] s[i] != c
}

/// A text without a separator is one piece.
pub proof fn lemma_one_piece(s: Seq<char>, c: char)
    requires
        free_of(s, c),
    ensures
        pieces(s, c) == seq![s],
{
    lemma_first_at(s, c, s.len() as int);
}

/// A separator and a text without one make one more piece.
pub proof fn lemma_pieces_push(s: Seq<char>, c: char, piece: Seq<char>)
    requires
        free_of(piece, c),
    ensures
        pieces(s + seq![c] + piece, c) == pieces(s, c).push(piece),
    decreases s.len(),
{
    let longer = s + seq![c] + piece;
    let at = first_at(s, c);
    lemma_first_at_is(s, c);
    assert forall|i: int| 0 <= i < at implies #[trigger] longer[i] != c by {
        assert(longer[i] == s[i]);
    }
    assert(longer[at] == c);
    lemma_first_at(longer, c, at);
    assert(longer.take(at) =~= s.take(at));
    if at < s.len() {
        assert(longer.skip(at + 1) =~= s.skip(at + 1) + seq![c] + piece);
        lemma_pieces_push(s.skip(at + 1), c, piece);
        assert(pieces(longer, c) =~= pieces(s, c).push(piece));
    } else {
        assert(longer.skip(at + 1) =~= piece);
        assert(s.take(at) =~= s);
        lemma_one_piece(piece, c);
        assert(pieces(longer, c) =~= pieces(s, c).push(piece));
    }
}

/// The views of a list of texts.
pub open spec fn texts(v: Seq<String>) -> Seq<Seq<char>> {
    v.map_values(|s: String| s@)
}

/// One more text goes to the end.
pub proof fn lemma_texts_push(v: Seq<String>, s: String)
    ensures
        texts(v.push(s)) == texts(v).push(s@),
{
    assert(texts(v.push(s)) =~= texts(v).push(s@));
}

/// Adds a text to the end of a list.
pub fn add_text(list: &mut Vec<String>, s: String)
    ensures
        texts(final(list)@) == texts(old(list)@).push(s@),
{
    proof {
        lemma_texts_push(list@, s);
    }
    list.push(s);
}

/// `a` followed by `b`.
pub fn together(a: &str, b: &str) -> (s: String)
    ensures
        s@ == a@ + b@,
{
    let mut s = a.to_string();
    s.append(b);
    s
}

/// `a` followed by `b` and `c`.
pub fn all_together(a: &str, b: &str, c: &str) -> (s: String)
    ensures
        s@ == a@ + b@ + c@,
{
    let mut s = a.to_string();
    s.append(b);
    s.append(c);
    s
}

/// `str::split` at a character.
pub fn split(s: &str, c: char) -> (parts: Vec<String>)
    ensures
        texts(parts@) == pieces(s@, c),
        parts@.len() > 0,
{
    let a = chars_of(s);
    let mut parts: Vec<String> = Vec::new();
    let mut from: usize = 0;
    proof {
        assert(s@.skip(0) =~= s@);
        assert(texts(parts@) + pieces(s@, c) =~= pieces(s@, c));
    }
    loop
        invariant
            a@ == s@,
            from <= a@.len(),
            texts(parts@) + pieces(s@.skip(from as int), c) == pieces(s@, c),
        decreases a@.len() + 1 - from,
    {
        let at: usize = find_first(&a, from, c);
        let piece = text_of(&a, from, at);
        let ghost rest = s@.skip(from as int);
        assert(piece@ =~= rest.take(at - from));
        let ghost before = parts@;
        parts.push(piece);
        assert(texts(parts@) =~= texts(before) + seq![piece@]);
        if at == a.len() {
            assert(rest.take(at - from) =~= rest);
            return parts;
        }
        from = at + 1;
        assert(s@.skip(from as int) =~= rest.skip(from - (s@.len() - rest.len())));
        assert(texts(parts@) + pieces(s@.skip(from as int), c) =~= texts(before) + (seq![piece@]
            + pieces(s@.skip(from as int), c)));
    }
}

/// The number of characters before the first white space of `s`.
pub open spec fn word_len(s: Seq<char>) -> int
    decreases s.len(),
{
    if s.len() == 0 || white_space(s[0]) {
        0
    } else {
        1 + word_len(s.drop_first())
    }
}

proof fn lemma_word_len(s: Seq<char>, n: int)
    requires
        0 <= n <= s.len(),
        forall|i: int| 0 <= i < n ==> !white_space(#[trigger] s[i]),
        n < s.len() ==> white_space(s[n]),
    ensures
        word_len(s) == n,
    decreases n,
{
    if n > 0 {
        assert(!white_space(s[0]));
        let t = s.drop_first();
        assert forall|i: int| 0 <= i < n - 1 implies !white_space(#[trigger] t[i]) by {
            assert(t[i] == s[i + 1]);
        }
        lemma_word_len(t, n - 1);
    }
}

/// A word ends within the text and holds no white space.
pub proof fn lemma_word_len_bounds(s: Seq<char>)
    ensures
        0 <= word_len(s) <= s.len(),
        s.len() > 0 && !white_space(s[0]) ==> word_len(s) > 0,
        forall|i: int| 0 <= i < word_len(s) ==> !white_space(#[trigger] s[i]),
    decreases s.len(),
{
    if s.len() > 0 && !white_space(s[0]) {
        lemma_word_len_bounds(s.drop_first());
        assert forall|i: int| 0 <= i < word_len(s) implies !white_space(#[trigger] s[i]) by {
            if i > 0 {
                assert(s[i] == s.drop_first()[i - 1]);
            }
        }
    }
}

/// What [`trim_start`] leaves: a shorter text that does not begin with white space.
pub proof fn lemma_trim_start_shorter(s: Seq<char>)
    ensures
        trim_start(s).len() <= s.len(),
        trim_start(s).len() > 0 ==> !white_space(trim_start(s)[0]),
    decreases s.len(),
{
    if s.len() > 0 && white_space(s[0]) {
        lemma_trim_start_shorter(s.drop_first());
    }
}

/// `str::split_whitespace`: the words of `s`.
pub open spec fn words(s: Seq<char>) -> Seq<Seq<char>>
    decreases s.len(),
{
    let t = trim_start(s);
    let n = word_len(t);
    if 0 < n <= t.len() && t.len() <= s.len() {
        seq![t.take(n)] + words(t.skip(n))
    } else {
        Seq::empty()
    }
}

/// `str::split_whitespace`.
pub fn split_words(s: &str) -> (parts: Vec<String>)
    ensures
        texts(parts@) == words(s@),
{
    let a = chars_of(s);
    let n: usize = a.len();
    let mut parts: Vec<String> = Vec::new();
    let mut from: usize = 0;
    proof {
        assert(s@.skip(0) =~= s@);
        assert(texts(parts@) + words(s@) =~= words(s@));
    }
    while from < n
        invariant
            a@ == s@,
            n == a@.len(),
            from <= n,
            texts(parts@) + words(s@.skip(from as int)) == words(s@),
        decreases n - from,
    {
        let ghost rest = s@.skip(from as int);
        let mut start: usize = from;
        while start < n && is_white_space(a[start])
            invariant
                a@ == s@,
                n == a@.len(),
                from <= start <= n,
                forall|i: int| from <= i < start ==> white_space(#[trigger] a@[i]),
            ensures
                from <= start <= n,
                forall|i: int| from <= i < start ==> white_space(#[trigger] a@[i]),
                start < n ==> !white_space(a@[start as int]),
            decreases n - start,
        {
            start = start + 1;
        }
        proof {
            assert forall|i: int| 0 <= i < start - from implies white_space(
                #[trigger] rest[i],
            ) by {
                assert(rest[i] == a@[i + from]);
            }
            lemma_trim_start(rest, start - from);
            assert(rest.skip(start - from) =~= s@.skip(start as int));
        }
        let ghost t = s@.skip(start as int);
        let mut end: usize = start;
        while end < n && !is_white_space(a[end])
            invariant
                a@ == s@,
                n == a@.len(),
                start <= end <= n,
                forall|i: int| start <= i < end ==> !white_space(#[trigger] a@[i]),
            ensures
                start <= end <= n,
                forall|i: int| start <= i < end ==> !white_space(#[trigger] a@[i]),
                end < n ==> white_space(a@[end as int]),
            decreases n - end,
        {
            end = end + 1;
        }
        proof {
            assert forall|i: int| 0 <= i < end - start implies !white_space(#[trigger] t[i]) by {
                assert(t[i] == a@[i + start]);
            }
            lemma_word_len(t, end - start);
        }
        if start == n {
            assert(words(rest) =~= Seq::empty());
            assert(texts(parts@) + words(rest) =~= texts(parts@));
            return parts;
        }
        assert(!white_space(a@[start as int]));
        let word = text_of(&a, start, end);
        let ghost before = parts@;
        parts.push(word);
        proof {
            assert(word@ =~= t.take(end - start));
            assert(texts(parts@) =~= texts(before) + seq![word@]);
            assert(t.skip(end - start) =~= s@.skip(end as int));
            assert(texts(parts@) + words(s@.skip(end as int)) =~= texts(before) + (seq![word@]
                + words(s@.skip(end as int))));
        }
        from = end;
    }
    proof {
        assert(s@.skip(n as int) =~= Seq::empty());
        lemma_trim_start_shorter(s@.skip(n as int));
        assert(words(s@.skip(n as int)) =~= Seq::empty());
        assert(texts(parts@) + words(s@.skip(n as int)) =~= texts(parts@));
    }
    parts
}

/// `line` without a carriage return at its end.
pub open spec fn without_return(line: Seq<char>) -> Seq<char> {
    if line.len() > 0 && line.last() == '\r' {
        line.drop_last()
    } else {
        line
    }
}

/// `str::lines`: the lines of `s` without their endings.
pub open spec fn lines(s: Seq<char>) -> Seq<Seq<char>>
    decreases s.len(),
{
    let at = first_at(s, '\n');
    if s.len() == 0 {
        Seq::empty()
    } else if 0 <= at < s.len() {
        seq![without_return(s.take(at))] + lines(s.skip(at + 1))
    } else {
        seq![s]
    }
}

/// `str::lines`.
pub fn split_lines(s: &str) -> (parts: Vec<String>)
    ensures
        texts(parts@) == lines(s@),
{
    let a = chars_of(s);
    let n: usize = a.len();
    let mut parts: Vec<String> = Vec::new();
    let mut from: usize = 0;
    proof {
        assert(s@.skip(0) =~= s@);
        assert(texts(parts@) + lines(s@) =~= lines(s@));
    }
    while from < n
        invariant
            a@ == s@,
            n == a@.len(),
            from <= n,
            texts(parts@) + lines(s@.skip(from as int)) == lines(s@),
        decreases n - from,
    {
        let ghost rest = s@.skip(from as int);
        let at: usize = find_first(&a, from, '\n');
        let ghost before = parts@;
        if at == n {
            let line = text_of(&a, from, n);
            proof {
                assert(line@ =~= rest);
            }
            parts.push(line);
            proof {
                assert(texts(parts@) =~= texts(before) + seq![line@]);
                assert(lines(rest) == seq![rest]);
            }
            return parts;
        }
        let end: usize = if at > from && a[at - 1] == '\r' {
            at - 1
        } else {
            at
        };
        let line = text_of(&a, from, end);
        proof {
            let full = rest.take(at - from);
            assert(full.len() > 0 ==> full.last() == a@[at - 1]);
            assert(line@ =~= without_return(full));
        }
        parts.push(line);
        from = at + 1;
        proof {
            assert(texts(parts@) =~= texts(before) + seq![line@]);
            assert(s@.skip(from as int) =~= rest.skip(from - (s@.len() - rest.len())));
            assert(texts(parts@) + lines(s@.skip(from as int)) =~= texts(before) + (seq![line@]
                + lines(s@.skip(from as int))));
        }
    }
    proof {
        assert(s@.skip(n as int) =~= Seq::empty());
        assert(texts(parts@) + lines(s@.skip(n as int)) =~= texts(parts@));
    }
    parts
}

/// The texts `parts` with `sep` between neighbours.
pub open spec fn joined(parts: Seq<Seq<char>>, sep: Seq<char>) -> Seq<char>
    decreases parts.len(),
{
    if parts.len() == 0 {
        Seq::empty()
    } else if parts.len() == 1 {
        parts[0]
    } else {
        joined(parts.drop_last(), sep) + sep + parts.last()
    }
}

/// Texts without a separator, joined by it, come apart again.
pub proof fn lemma_pieces_joined(parts: Seq<Seq<char>>, c: char)
    requires
        parts.len() > 0,
        forall|i: int| 0 <= i < parts.len() ==> free_of(#[trigger] parts[i], c),
    ensures
        pieces(joined(parts, seq![c]), c) == parts,
    decreases parts.len(),
{
    if parts.len() == 1 {
        lemma_one_piece(parts[0], c);
        assert(parts =~= seq![parts[0]]);
    } else {
        let before = parts.drop_last();
        assert forall|i: int| 0 <= i < before.len() implies free_of(#[trigger] before[i], c) by {
            assert(before[i] == parts[i]);
        }
        lemma_pieces_joined(before, c);
        assert(free_of(parts[parts.len() - 1], c));
        lemma_pieces_push(joined(before, seq![c]), c, parts.last());
        assert(before.push(parts.last()) =~= parts);
    }
}

/// `[String]::join`.
pub fn join(parts: &Vec<String>, sep: &str) -> (s: String)
    ensures
        s@ == joined(texts(parts@), sep@),
{
    let mut s = String::new();
    let mut i: usize = 0;
    assert(texts(parts@).take(0) =~= Seq::empty());
    while i < parts.len()
        invariant
            i <= parts@.len(),
            s@ == joined(texts(parts@).take(i as int), sep@),
        decreases parts@.len() - i,
    {
        if i > 0 {
            s.append(sep);
        }
        s.append(parts[i].as_str());
        i = i + 1;
        proof {
            let now = texts(parts@).take(i as int);
            assert(now.drop_last() =~= texts(parts@).take(i - 1));
            assert(now.last() == parts@[i - 1]@);
            if i == 1 {
                assert(now[0] == parts@[0]@);
                assert(s@ =~= parts@[0]@);
            }
        }
    }
    assert(texts(parts@).take(parts@.len() as int) =~= texts(parts@));
    s
}

/// The digit for `d`.
pub open spec fn digit(d: nat) -> char
    recommends
        d < 10,
{
    (0x30 + d) as char
}

/// The decimal form of `n`.
pub open spec fn decimal_of(n: nat) -> Seq<char>
    decreases n,
{
    if n < 10 {
        seq![digit(n)]
    } else {
        decimal_of(n / 10).push(digit(n % 10))
    }
}

/// A decimal form has a digit.
pub proof fn lemma_decimal_not_empty(n: nat)
    ensures
        decimal_of(n).len() > 0,
    decreases n,
{
}

/// Two numbers have two decimal forms.
pub proof fn lemma_decimal_injective(m: nat, n: nat)
    requires
        m != n,
    ensures
        decimal_of(m) != decimal_of(n),
    decreases m + n,
{
    if m < 10 || n < 10 {
        if m >= 10 {
            lemma_decimal_not_empty(m / 10);
            assert(decimal_of(m).len() > 1);
        } else if n >= 10 {
            lemma_decimal_not_empty(n / 10);
            assert(decimal_of(n).len() > 1);
        } else {
            assert(decimal_of(m)[0] == digit(m));
            assert(decimal_of(n)[0] == digit(n));
        }
    } else {
        assert(decimal_of(m).last() == digit(m % 10));
        assert(decimal_of(n).last() == digit(n % 10));
        assert(decimal_of(m).drop_last() =~= decimal_of(m / 10));
        assert(decimal_of(n).drop_last() =~= decimal_of(n / 10));
        if m % 10 == n % 10 {
            lemma_decimal_injective(m / 10, n / 10);
        }
    }
}

/// The decimal form of `n`, with a minus sign where it is negative.
pub open spec fn signed_decimal_of(n: int) -> Seq<char> {
    if n < 0 {
        seq!['-'] + decimal_of((-n) as nat)
    } else {
        decimal_of(n as nat)
    }
}

fn digit_char(d: u8) -> (c: char)
    requires
        d < 10,
    ensures
        c == digit(d as nat),
{
    (0x30u8 + d) as char
}

/// The decimal form of `n`.
pub fn decimal(n: u64) -> (s: String)
    ensures
        s@ == decimal_of(n as nat),
    decreases n,
{
    let last: char = digit_char((n % 10) as u8);
    if n < 10 {
        char_text(last)
    } else {
        let mut s = decimal(n / 10);
        s.push(last);
        s
    }
}

/// The decimal form of `n`, with a minus sign where it is negative.
pub fn signed_decimal(n: i64) -> (s: String)
    ensures
        s@ == signed_decimal_of(n as int),
{
    if n < 0 {
        let magnitude: u64 = if n == i64::MIN {
            0x8000_0000_0000_0000u64
        } else {
            (-n) as u64
        };
        let mut s = char_text('-');
        let digits = decimal(magnitude);
        s.append(digits.as_str());
        s
    } else {
        decimal(n as u64)
    }
}

/// Whether `c` is an ASCII digit.
pub open spec fn ascii_digit(c: char) -> bool {
    0x30 <= c as u32 <= 0x39
}

/// The number that a run of digits stands for.
pub open spec fn digits_value(s: Seq<char>) -> nat
    decreases s.len(),
{
    if s.len() == 0 {
        0
    } else {
        digits_value(s.drop_last()) * 10 + (s.last() as u32 - 0x30) as nat
    }
}

/// Whether `s` is a run of one or more digits.
pub open spec fn digits(s: Seq<char>) -> bool {
    s.len() > 0 && forall|i: int| 0 <= i < s.len() ==> ascii_digit(#[trigger] s[i])
}

/// The decimal form of a number is a run of digits that stands for it, without a zero in front.
pub proof fn lemma_decimal_digits(n: nat)
    ensures
        digits(decimal_of(n)),
        digits_value(decimal_of(n)) == n,
        n > 0 ==> decimal_of(n)[0] != '0',
        n < 1000 ==> decimal_of(n).len() <= 3,
        n < 10 ==> decimal_of(n).len() == 1,
    decreases n,
{
    reveal_with_fuel(decimal_of, 3);
    if n < 10 {
        assert(decimal_of(n).drop_last() =~= Seq::empty());
        assert(digits_value(decimal_of(n).drop_last()) == 0);
    } else {
        lemma_decimal_digits(n / 10);
        assert(decimal_of(n).drop_last() =~= decimal_of(n / 10));
        assert(decimal_of(n)[0] == decimal_of(n / 10)[0]);
        assert forall|i: int| 0 <= i < decimal_of(n).len() implies ascii_digit(
            #[trigger] decimal_of(n)[i],
        ) by {
            if i < decimal_of(n / 10).len() {
                assert(decimal_of(n)[i] == decimal_of(n / 10)[i]);
            }
        }
    }
}

/// The number that an unsigned parse reads in `s`: digits, after at most one `+`.
pub open spec fn unsigned_value(s: Seq<char>) -> Option<int> {
    let body = if s.len() > 0 && s[0] == '+' {
        s.drop_first()
    } else {
        s
    };
    if digits(body) {
        Some(digits_value(body) as int)
    } else {
        None
    }
}

/// The number that a signed parse reads in `s`: digits, after at most one `+` or `-`.
pub open spec fn signed_value(s: Seq<char>) -> Option<int> {
    if s.len() > 0 && s[0] == '-' {
        if digits(s.drop_first()) {
            Some(-digits_value(s.drop_first()))
        } else {
            None
        }
    } else {
        unsigned_value(s)
    }
}

proof fn lemma_digits_value_grows(s: Seq<char>, n: int)
    requires
        0 <= n <= s.len(),
    ensures
        digits_value(s.take(n)) <= digits_value(s),
    decreases s.len() - n,
{
    if n < s.len() {
        lemma_digits_value_grows(s, n + 1);
        assert(s.take(n + 1).drop_last() =~= s.take(n));
    } else {
        assert(s.take(n) =~= s);
    }
}

/// The value of the digits `a[from..]`, where they are digits and it is at most `max`.
fn read_digits(a: &Vec<char>, from: usize, max: u64) -> (value: Option<u64>)
    requires
        from <= a@.len(),
    ensures
        value is Some <==> digits(a@.skip(from as int)) && digits_value(a@.skip(from as int)) <= max,
        value matches Some(v) ==> v == digits_value(a@.skip(from as int)),
{
    let ghost body = a@.skip(from as int);
    if from == a.len() {
        return None;
    }
    let mut value: u64 = 0;
    let mut i: usize = from;
    assert(body.take(0) =~= Seq::empty());
    while i < a.len()
        invariant
            from <= i <= a@.len(),
            body == a@.skip(from as int),
            forall|j: int| 0 <= j < i - from ==> ascii_digit(#[trigger] body[j]),
            value == digits_value(body.take(i - from)),
            value <= max,
        decreases a@.len() - i,
    {
        let c: char = a[i];
        assert(body[i - from] == c);
        if (c as u32) < 0x30 || c as u32 > 0x39 {
            return None;
        }
        let d: u64 = (c as u32 - 0x30) as u64;
        proof {
            assert(body.take(i + 1 - from).drop_last() =~= body.take(i - from));
            lemma_digits_value_grows(body, i + 1 - from);
        }
        if d > max || value > (max - d) / 10 {
            assert(value * 10 + d > max);
            return None;
        }
        value = value * 10 + d;
        i = i + 1;
    }
    assert(body.take(body.len() as int) =~= body);
    Some(value)
}

/// `str::parse::<u16>`.
pub fn parse_u16(s: &str) -> (value: Option<u16>)
    ensures
        value is Some <==> (unsigned_value(s@) matches Some(v) && v <= u16::MAX),
        value matches Some(v) ==> unsigned_value(s@) == Some(v as int),
{
    let a = chars_of(s);
    let from: usize = if a.len() > 0 && a[0] == '+' {
        1
    } else {
        0
    };
    assert(a@.skip(0) =~= s@);
    assert(a@.len() > 0 ==> a@.skip(1) =~= s@.drop_first());
    match read_digits(&a, from, 0xffff) {
        Some(v) => Some(v as u16),
        None => None,
    }
}

/// `str::parse::<i64>`.
pub fn parse_i64(s: &str) -> (value: Option<i64>)
    ensures
        value is Some <==> (signed_value(s@) matches Some(v) && i64::MIN <= v <= i64::MAX),
        value matches Some(v) ==> signed_value(s@) == Some(v as int),
{
    let a = chars_of(s);
    assert(a@.skip(0) =~= s@);
    assert(a@.len() > 0 ==> a@.skip(1) =~= s@.drop_first());
    if a.len() > 0 && a[0] == '-' {
        match read_digits(&a, 1, 0x8000_0000_0000_0000u64) {
            Some(v) => if v == 0x8000_0000_0000_0000u64 {
                Some(i64::MIN)
            } else {
                Some(-(v as i64))
            },
            None => None,
        }
    } else {
        let from: usize = if a.len() > 0 && a[0] == '+' {
            1
        } else {
            0
        };
        match read_digits(&a, from, 0x7fff_ffff_ffff_ffffu64) {
            Some(v) => Some(v as i64),
            None => None,
        }
    }
}

/// `str::parse::<usize>`.
pub fn parse_usize(s: &str) -> (value: Option<usize>)
    ensures
        value is Some <==> (unsigned_value(s@) matches Some(v) && v <= usize::MAX),
        value matches Some(v) ==> unsigned_value(s@) == Some(v as int),
{
    let a = chars_of(s);
    let from: usize = if a.len() > 0 && a[0] == '+' {
        1
    } else {
        0
    };
    assert(a@.skip(0) =~= s@);
    assert(a@.len() > 0 ==> a@.skip(1) =~= s@.drop_first());
    match read_digits(&a, from, usize::MAX as u64) {
        Some(v) => Some(v as usize),
        None => None,
    }
}

/// `std::str::from_utf8`: the text that the bytes are the UTF-8 form of, where they are one.
#[verifier::external_body]
pub(crate) fn utf8_text<'a>(bytes: &'a [u8]) -> (text: Option<&'a str>)
    ensures
        text is Some <==> vstd::utf8::valid_utf8(bytes@),
        text matches Some(s) ==> s@ == vstd::utf8::decode_utf8(bytes@),
{
    std::str::from_utf8(bytes).ok()
}

/// `str::to_ascii_lowercase`.
pub fn to_lower(s: &str) -> (t: String)
    ensures
        t@ == lowered(s@),
{
    let a = chars_of(s);
    let mut t = String::new();
    let mut i: usize = 0;
    while i < a.len()
        invariant
            i <= a@.len(),
            a@ == s@,
            t@ =~= lowered(s@).take(i as int),
        decreases a@.len() - i,
    {
        let c: char = a[i];
        let code: u32 = c as u32;
        if 0x41 <= code && code <= 0x5a {
            let small: u8 = (code + 0x20) as u8;
            t.push(small as char);
        } else {
            t.push(c);
        }
        i = i + 1;
    }
    assert(lowered(s@).take(s@.len() as int) =~= lowered(s@));
    t
}

/// `str::eq_ignore_ascii_case`: equal but for the case of ASCII letters.
pub fn same_ignoring_case(a: &str, b: &str) -> (yes: bool)
    ensures
        yes == (lowered(a@) == lowered(b@)),
{
    let x = to_lower(a);
    let y = to_lower(b);
    x == y
}

/// `s` with every `from` replaced by `to`.
pub open spec fn replaced(s: Seq<char>, from: char, to: char) -> Seq<char> {
    s.map_values(|c: char| if c == from { to } else { c })
}

/// `str::replace` of one character by another.
pub fn replace_char(s: &str, from: char, to: char) -> (t: String)
    ensures
        t@ == replaced(s@, from, to),
{
    let a = chars_of(s);
    let mut t = String::new();
    let mut i: usize = 0;
    while i < a.len()
        invariant
            i <= a@.len(),
            a@ == s@,
            t@ =~= replaced(s@, from, to).take(i as int),
        decreases a@.len() - i,
    {
        if a[i] == from {
            t.push(to);
        } else {
            t.push(a[i]);
        }
        i = i + 1;
    }
    assert(replaced(s@, from, to).take(s@.len() as int) =~= replaced(s@, from, to));
    t
}

/// A copy of a list of texts.
pub fn copy_texts(parts: &Vec<String>) -> (twin: Vec<String>)
    ensures
        twin@ == parts@,
{
    let mut twin: Vec<String> = Vec::new();
    let mut i: usize = 0;
    while i < parts.len()
        invariant
            i <= parts@.len(),
            twin@ =~= parts@.take(i as int),
        decreases parts@.len() - i,
    {
        twin.push(parts[i].clone());
        i = i + 1;
    }
    assert(parts@.take(parts@.len() as int) =~= parts@);
    twin
}

/// Whether `s` is one of `parts`.
pub fn is_one_of(parts: &Vec<String>, s: &str) -> (yes: bool)
    ensures
        yes == texts(parts@).contains(s@),
{
    let mut i: usize = 0;
    while i < parts.len()
        invariant
            i <= parts@.len(),
            forall|j: int| 0 <= j < i ==> #[trigger] texts(parts@)[j] != s@,
        decreases parts@.len() - i,
    {
        if same(parts[i].as_str(), s) {
            assert(texts(parts@)[i as int] == s@);
            return true;
        }
        assert(texts(parts@)[i as int] != s@);
        i = i + 1;
    }
    false
}

/// The texts `parts` one behind the other.
pub open spec fn concatenated(parts: Seq<Seq<char>>) -> Seq<char>
    decreases parts.len(),
{
    if parts.len() == 0 {
        Seq::empty()
    } else {
        concatenated(parts.drop_last()) + parts.last()
    }
}

/// One more part goes to the end.
pub proof fn lemma_concatenated_push(parts: Seq<Seq<char>>, part: Seq<char>)
    ensures
        concatenated(parts.push(part)) == concatenated(parts) + part,
{
    assert(parts.push(part).drop_last() =~= parts);
}

proof fn lemma_trim_start_cuts(s: Seq<char>) -> (n: int)
    ensures
        0 <= n <= s.len(),
        trim_start(s) == s.skip(n),
        forall|i: int| 0 <= i < n ==> white_space(#[trigger] s[i]),
        n < s.len() ==> !white_space(s[n]),
    decreases s.len(),
{
    if s.len() > 0 && white_space(s[0]) {
        let rest = s.drop_first();
        let m = lemma_trim_start_cuts(rest);
        assert(rest.skip(m) =~= s.skip(m + 1));
        assert forall|i: int| 0 <= i < m + 1 implies white_space(#[trigger] s[i]) by {
            if i > 0 {
                assert(rest[i - 1] == s[i]);
            }
        }
        if m < rest.len() {
            assert(rest[m] == s[m + 1]);
        }
        m + 1
    } else {
        assert(s.skip(0) =~= s);
        0
    }
}

proof fn lemma_trim_end_cuts(s: Seq<char>) -> (n: int)
    ensures
        0 <= n <= s.len(),
        trim_end(s) == s.take(n),
        forall|i: int| n <= i < s.len() ==> white_space(#[trigger] s[i]),
        n > 0 ==> !white_space(s[n - 1]),
    decreases s.len(),
{
    if s.len() > 0 && white_space(s.last()) {
        let rest = s.drop_last();
        let m = lemma_trim_end_cuts(rest);
        assert(rest.take(m) =~= s.take(m));
        assert forall|i: int| m <= i < s.len() implies white_space(#[trigger] s[i]) by {
            if i < rest.len() {
                assert(rest[i] == s[i]);
            }
        }
        m
    } else {
        assert(s.take(s.len() as int) =~= s);
        s.len() as int
    }
}

/// Trimming leaves the part of a text between the white space at its ends, which neither begins nor
/// ends with white space; all that is cut is white space.
pub proof fn lemma_trimming_cuts_white_space(s: Seq<char>)
    ensures
        exists|from: int, to: int|
            {
                &&& 0 <= from <= to <= s.len()
                &&& trimmed(s) == #[trigger] s.subrange(from, to)
                &&& forall|i: int| 0 <= i < from || to <= i < s.len() ==> white_space(#[trigger] s[i])
            },
        trimmed(s).len() > 0 ==> !white_space(trimmed(s)[0]) && !white_space(trimmed(s).last()),
        trimmed(trimmed(s)) == trimmed(s),
{
    let from = lemma_trim_start_cuts(s);
    let rest = s.skip(from);
    let n = lemma_trim_end_cuts(rest);
    let to = from + n;
    assert(rest.take(n) =~= s.subrange(from, to));
    assert forall|i: int| 0 <= i < from || to <= i < s.len() implies white_space(#[trigger] s[i]) by {
        if i >= to {
            assert(rest[i - from] == s[i]);
        }
    }
    let kept = trimmed(s);
    if kept.len() > 0 {
        assert(kept[0] == s[from]);
        assert(kept.last() == rest[n - 1]);
    }
    assert(trim_start(kept) == kept);
    assert(trim_end(kept) == kept);
}

/// Texts that are joined stand in their order with the separator between neighbours, and nowhere
/// else.
pub proof fn lemma_joined_texts(parts: Seq<Seq<char>>, part: Seq<char>, sep: Seq<char>)
    ensures
        joined(Seq::empty(), sep) == Seq::<char>::empty(),
        joined(seq![part], sep) == part,
        parts.len() > 0 ==> joined(parts.push(part), sep) == joined(parts, sep) + sep + part,
{
    assert(parts.push(part).drop_last() =~= parts);
}

/// A text is its pieces, joined by what it was split at.
pub proof fn lemma_pieces_make_the_text(s: Seq<char>, c: char)
    ensures
        joined(pieces(s, c), seq![c]) == s,
        forall|i: int| 0 <= i < pieces(s, c).len() ==> free_of(#[trigger] pieces(s, c)[i], c),
        pieces(s, c).len() > 0,
    decreases s.len(),
{
    if free_of(s, c) {
        lemma_one_piece(s, c);
    } else {
        let k = choose|k: int| 0 <= k < s.len() && #[trigger] s[k] == c;
        let n = lemma_some_last(s, c, k);
        let before = s.take(n);
        let piece = s.skip(n + 1);
        assert forall|i: int| 0 <= i < piece.len() implies #[trigger] piece[i] != c by {
            assert(piece[i] == s[n + 1 + i]);
        }
        assert(s =~= before + seq![c] + piece);
        lemma_pieces_push(before, c, piece);
        lemma_pieces_make_the_text(before, c);
        lemma_joined_texts(pieces(before, c), piece, seq![c]);
    }
}

proof fn lemma_some_last(s: Seq<char>, c: char, k: int) -> (n: int)
    requires
        0 <= k < s.len(),
        s[k] == c,
    ensures
        k <= n < s.len(),
        s[n] == c,
        forall|i: int| n < i < s.len() ==> #[trigger] s[i] != c,
    decreases s.len() - k,
{
    if exists|j: int| k < j < s.len() && #[trigger] s[j] == c {
        let j = choose|j: int| k < j < s.len() && #[trigger] s[j] == c;
        lemma_some_last(s, c, j)
    } else {
        k
    }
}

/// A number is read back from its decimal form, with its sign.
pub proof fn lemma_numbers_are_read_back(n: int)
    ensures
        signed_value(signed_decimal_of(n)) == Some(n),
        n >= 0 ==> unsigned_value(decimal_of(n as nat)) == Some(n),
{
    if n < 0 {
        lemma_decimal_digits((-n) as nat);
        let s = signed_decimal_of(n);
        assert(s.drop_first() =~= decimal_of((-n) as nat));
    } else {
        lemma_decimal_digits(n as nat);
        assert(ascii_digit(decimal_of(n as nat)[0]));
    }
}

/// The value of digits is ten times that of those before the last, and the last.
pub proof fn lemma_digits_count_by_ten(s: Seq<char>, c: char)
    requires
        ascii_digit(c),
    ensures
        digits_value(s.push(c)) == 10 * digits_value(s) + (c as u32 - 0x30),
        digits_value(Seq::empty()) == 0,
        ascii_digit(c) <==> '0' <= c <= '9',
{
    assert(s.push(c).drop_last() =~= s);
}

/// Small letters stand for capitals of ASCII, and every other character stays as it is.
pub proof fn lemma_small_letters(s: Seq<char>, i: int)
    requires
        0 <= i < s.len(),
    ensures
        lowered(s).len() == s.len(),
        0x41 <= s[i] as u32 <= 0x5a ==> lowered(s)[i] as u32 == s[i] as u32 + 32,
        s[i] as u32 <= 0x40 || s[i] as u32 >= 0x5b ==> lowered(s)[i] == s[i],
{
    assert(lowered(s)[i] == lower(s[i]));
}

/// The lines of a text end at its line feeds, with a carriage return before one counted to it; what
/// follows the last one is a line where there is any.
pub proof fn lemma_lines_end_at_line_feeds(line: Seq<char>, rest: Seq<char>)
    requires
        free_of(line, '\n'),
    ensures
        lines(Seq::empty()) == Seq::<Seq<char>>::empty(),
        line.len() > 0 ==> lines(line) == seq![line],
        lines(line + seq!['\n'] + rest) == seq![
            if line.len() > 0 && line.last() == '\r' {
                line.drop_last()
            } else {
                line
            },
        ] + lines(rest),
{
    lemma_first_at(line, '\n', line.len() as int);
    let s = line + seq!['\n'] + rest;
    let n = line.len() as int;
    assert forall|i: int| 0 <= i < n implies #[trigger] s[i] != '\n' by {
        assert(s[i] == line[i]);
    }
    lemma_first_at(s, '\n', n);
    assert(s.take(n) =~= line);
    assert(s.skip(n + 1) =~= rest);
}

/// Replacing a character changes it wherever it stands, and changes nothing else.
pub proof fn lemma_characters_are_replaced_everywhere(s: Seq<char>, from: char, to: char, i: int)
    requires
        0 <= i < s.len(),
    ensures
        replaced(s, from, to).len() == s.len(),
        s[i] == from ==> replaced(s, from, to)[i] == to,
        s[i] != from ==> replaced(s, from, to)[i] == s[i],
{
}

/// The sorts of characters, by their code points. No character is both graphic and of control, or
/// both graphic and white space; and the hexadecimal digits are the ten digits and six letters in
/// either case.
pub proof fn lemma_sorts_of_characters(c: char)
    ensures
        ascii_graphic(c) <==> 33 <= c as u32 && c as u32 <= 126,
        control(c) <==> (c as u32) < 32 || (127 <= c as u32 && (c as u32) < 160),
        ascii_digit(c) <==> 48 <= c as u32 && c as u32 <= 57,
        hex_digit(c) <==> ascii_digit(c) || (97 <= lower(c) as u32 && lower(c) as u32 <= 102),
        !(ascii_graphic(c) && control(c)),
        ascii_graphic(c) ==> !white_space(c),
        hex_digit(c) ==> ascii_graphic(c),
{
}

/// A pattern stands in a text whatever comes before and behind it, and in none that is shorter.
pub proof fn lemma_patterns_stand_somewhere(before: Seq<char>, pattern: Seq<char>, behind: Seq<char>)
    ensures
        holds_text(before + pattern + behind, pattern),
        pattern.len() > before.len() ==> !holds_text(before, pattern),
{
    let text = before + pattern + behind;
    assert(text.subrange(before.len() as int, (before.len() + pattern.len()) as int) =~= pattern);
    assert(stands_at(text, before.len() as int, pattern));
}

} // verus!
